use ime_bridge::keyboard::{
    checked_wire_code, raw_to_wire_code, KeyEventLog, KeyRecord, KeyState, ModifiersState, BUFFERSIZE,
};
use xkeysym::KeyCode;

fn key(serial: u32) -> KeyRecord {
    KeyRecord {
        keycode: KeyCode::new(30 + serial),
        state: KeyState::Pressed,
        modifiers: None,
        serial,
        time: 1000 + serial,
    }
}

#[test]
fn wire_code_is_eight_below_the_key_code() {
    assert_eq!(checked_wire_code(KeyCode::new(38)), Some(30));
    assert_eq!(checked_wire_code(KeyCode::new(8)), Some(0));
    assert_eq!(checked_wire_code(KeyCode::new(u32::MAX)), Some(u32::MAX - 8));
}

#[test]
fn raw_key_codes_map_to_wire_codes() {
    assert_eq!(raw_to_wire_code(38), Some(30));
    assert_eq!(raw_to_wire_code(8), Some(0));
    assert_eq!(raw_to_wire_code(7), None);
    assert_eq!(raw_to_wire_code(0), None);
    assert_eq!(raw_to_wire_code(u32::MAX), Some(u32::MAX - 8));
}

#[test]
fn key_codes_below_eight_have_no_wire_code() {
    assert_eq!(checked_wire_code(KeyCode::new(7)), None);
    assert_eq!(checked_wire_code(KeyCode::new(0)), None);
}

#[test]
fn new_log_is_empty() {
    let log = KeyEventLog::new();
    assert_eq!(log.len(), 0);
    assert_eq!(log.get(0), None);
    assert_eq!(log.position(0), None);
    assert_eq!(log.find(0), None);
    assert!(log.replay_from(0).is_empty());
}

#[test]
fn record_appends_until_the_log_is_full() {
    let mut log = KeyEventLog::new();
    for serial in 0..BUFFERSIZE as u32 {
        assert_eq!(log.record(key(serial)), None);
        assert_eq!(log.len(), serial as usize + 1);
    }
    for serial in 0..BUFFERSIZE as u32 {
        assert_eq!(log.get(serial as usize), Some(key(serial)));
    }
}

#[test]
fn full_log_evicts_its_oldest_record() {
    let mut log = KeyEventLog::new();
    for serial in 0..10 {
        log.record(key(serial));
    }
    assert_eq!(log.record(key(10)), Some(key(0)));
    assert_eq!(log.record(key(11)), Some(key(1)));
    assert_eq!(log.len(), 10);
    assert_eq!(log.get(0), Some(key(2)));
    assert_eq!(log.get(9), Some(key(11)));
    assert_eq!(log.get(10), None);
}

#[test]
fn log_never_exceeds_its_capacity() {
    let mut log = KeyEventLog::new();
    for serial in 0..1000 {
        log.record(key(serial));
        assert!(log.len() <= BUFFERSIZE);
    }
    assert_eq!(log.len(), BUFFERSIZE);
    for place in 0..BUFFERSIZE {
        assert_eq!(log.get(place), Some(key(990 + place as u32)));
    }
}

#[test]
fn evicted_record_has_the_smallest_time() {
    let mut log = KeyEventLog::new();
    for serial in 0..25 {
        let times: Vec<u32> = (0..log.len()).map(|place| log.get(place).unwrap().time).collect();
        if let Some(gone) = log.record(key(serial)) {
            assert!(times.iter().all(|time| gone.time <= *time));
        }
    }
}

#[test]
fn twelve_records_leave_the_last_ten() {
    let mut log = KeyEventLog::new();
    for serial in 1..=12 {
        log.record(key(serial));
    }
    let kept: Vec<KeyRecord> = (0..log.len()).map(|place| log.get(place).unwrap()).collect();
    let expected: Vec<KeyRecord> = (3..=12).map(key).collect();
    assert_eq!(kept, expected);
    assert_eq!(log.position(1), None);
    assert_eq!(log.position(2), None);
    assert!(log.replay_from(1).is_empty());
    assert!(log.replay_from(2).is_empty());
}

#[test]
fn position_names_the_oldest_record_with_the_serial() {
    let mut log = KeyEventLog::new();
    log.record(key(5));
    log.record(KeyRecord { time: 1, ..key(7) });
    log.record(KeyRecord { time: 2, ..key(7) });
    log.record(key(9));
    assert_eq!(log.position(5), Some(0));
    assert_eq!(log.position(7), Some(1));
    assert_eq!(log.position(9), Some(3));
    assert_eq!(log.position(6), None);
    assert_eq!(log.find(7), Some(KeyRecord { time: 1, ..key(7) }));
    assert_eq!(log.find(6), None);
}

#[test]
fn replay_starts_at_the_serial_and_runs_to_the_end() {
    let mut log = KeyEventLog::new();
    for serial in 1..=6 {
        log.record(key(serial));
    }
    assert_eq!(log.replay_from(4), vec![key(4), key(5), key(6)]);
    assert_eq!(log.replay_from(1), (1..=6).map(key).collect::<Vec<_>>());
    assert_eq!(log.replay_from(6), vec![key(6)]);
    assert_eq!(log.replay_from(7), Vec::<KeyRecord>::new());
}

#[test]
fn records_keep_their_modifiers() {
    let mut log = KeyEventLog::new();
    let modifiers = ModifiersState { depressed: 1, latched: 2, locked: 4, layout_effective: 3 };
    let record = KeyRecord { modifiers: Some(modifiers), state: KeyState::Released, ..key(1) };
    log.record(record);
    assert_eq!(log.get(0), Some(record));
}

#[test]
fn eviction_goes_by_arrival_not_by_time() {
    let mut log = KeyEventLog::new();
    log.record(KeyRecord { time: 5000, ..key(0) });
    for serial in 1..10 {
        log.record(KeyRecord { time: serial, ..key(serial) });
    }
    assert_eq!(log.record(key(10)), Some(KeyRecord { time: 5000, ..key(0) }));
    assert_eq!(log.get(0), Some(KeyRecord { time: 1, ..key(1) }));
}
