use std::collections::BTreeMap;
use modbus_tui::client::{
    next_backoff, SessionOutcome,
    backoff_after_connect_failure, backoff_after_read_error, packet_hex, plan_write, store_bool_values,
    store_word_values, ReadData, WriteCall, INITIAL_BACKOFF_SECS, MAX_BACKOFF_SECS,
};
use modbus_tui::config::{AppConfig, Mode, PollRange, RegisterType};
use modbus_tui::state::{AppState, ConnectionStatus, LogLevel, RegisterValue, WriteRequest};

fn state() -> AppState {
    let cfg = AppConfig {
        mode: Mode::Client,
        host: "192.168.0.10".to_string(),
        port: 1502,
        unit: 3,
        ranges: vec![PollRange {
            reg_type: RegisterType::InputRegisters,
            start: 0x10,
            count: 3,
            initial_format: None,
            labels: BTreeMap::new(),
        }],
        poll_interval_ms: 100,
        start_reference: 0,
        swap_ints: false,
        swap_floats: false,
        swap_bytes: false,
        hide_hex: false,
        decimal_addresses: false,
        initial_values: vec![],
    };
    AppState::new(cfg)
}

fn last(s: &AppState) -> (LogLevel, String) {
    let e = s.log.entries.back().unwrap();
    (e.level, e.message.clone())
}

#[test]
fn stored_words_read_back() {
    let mut m: BTreeMap<u16, RegisterValue> = BTreeMap::new();
    m.insert(11, RegisterValue::new(9, 100));
    store_word_values(&mut m, 10, &[1, 2, 3], 250);
    assert_eq!(m.len(), 3);
    assert_eq!(m[&10].last_read, 250);
    assert_eq!(m[&11].changed_at, Some(250));
    assert_eq!(m[&12].changed_at, None);
    assert_eq!(m[&10].raw, 1);
    assert_eq!(m[&11].raw, 2);
    assert_eq!(m[&11].prev_raw, Some(9));
    assert_eq!(m[&12].raw, 3);
    assert_eq!(m[&12].prev_raw, None);
}

#[test]
fn stored_bits_are_ones_and_zeros() {
    let mut m: BTreeMap<u16, RegisterValue> = BTreeMap::new();
    store_bool_values(&mut m, 0, &[true, false, true], 0);
    let raws: Vec<u16> = m.values().map(|v| v.raw).collect();
    assert_eq!(raws, vec![1, 0, 1]);
}

#[test]
fn backoff_grows_and_is_capped() {
    assert_eq!(backoff_after_connect_failure(INITIAL_BACKOFF_SECS), 2);
    assert_eq!(backoff_after_connect_failure(9), 10);
    assert_eq!(backoff_after_connect_failure(MAX_BACKOFF_SECS), 10);
    assert_eq!(backoff_after_read_error(1), 2);
    assert_eq!(backoff_after_read_error(4), 8);
    assert_eq!(backoff_after_read_error(8), 10);
}

#[test]
fn write_plans() {
    assert!(matches!(plan_write(RegisterType::HoldingRegisters, 5, &[7]), Ok(WriteCall::SingleRegister(5, 7))));
    match plan_write(RegisterType::HoldingRegisters, 5, &[1, 2]) {
        Ok(WriteCall::MultipleRegisters(5, v)) => assert_eq!(v, vec![1, 2]),
        _ => panic!("multiple write expected"),
    }
    assert!(matches!(plan_write(RegisterType::Coils, 3, &[2]), Ok(WriteCall::SingleCoil(3, true))));
    assert!(matches!(plan_write(RegisterType::Coils, 3, &[0]), Ok(WriteCall::SingleCoil(3, false))));
    assert_eq!(
        plan_write(RegisterType::InputRegisters, 3, &[0]).unwrap_err(),
        "cannot write to read-only register type"
    );
    assert_eq!(plan_write(RegisterType::Coils, 3, &[]).unwrap_err(), "no values to write");
}

#[test]
fn write_messages() {
    assert_eq!(WriteCall::SingleRegister(0x10, 258).done_message(), "wrote register 0x0010 = 258 (0x0102)");
    assert_eq!(
        WriteCall::MultipleRegisters(0x10, vec![1, 0xABCD]).done_message(),
        "wrote 2 registers at 0x0010: [0x0001, 0xABCD]"
    );
    assert_eq!(WriteCall::SingleCoil(1, false).done_message(), "wrote coil 0x0001 = false");
}

#[test]
fn packets_are_logged_as_hex() {
    assert_eq!(packet_hex(&[0x00, 0x01, 0xAB, 0xff]), "00 01 AB FF");
    assert_eq!(packet_hex(&[]), "");
    let mut s = state();
    s.log_packet(true, &[1, 2]);
    assert_eq!(last(&s), (LogLevel::PacketTx, "01 02".to_string()));
    s.log_packet(false, &[0x10]);
    assert_eq!(last(&s), (LogLevel::PacketRx, "10".to_string()));
}

#[test]
fn session_steps() {
    let mut s = state();
    s.log_startup();
    assert_eq!(s.log.entries[0].message, "modbus-tui started");
    assert_eq!(s.log.entries[1].message, "target 192.168.0.10:1502 unit=3");
    s.begin_connect("192.168.0.10:1502");
    assert_eq!(s.connection, ConnectionStatus::Connecting);
    assert_eq!(last(&s), (LogLevel::Info, "connecting to 192.168.0.10:1502 slave=3".to_string()));
    s.connect_failed("refused");
    assert_eq!(s.connection, ConnectionStatus::Error("connect failed: refused".to_string()));
    assert_eq!(last(&s), (LogLevel::Error, "connect failed: refused".to_string()));
    s.connected();
    assert_eq!(s.connection, ConnectionStatus::Connected);
    s.store_read(0, &ReadData::Words(vec![4, 5, 6]));
    assert_eq!(s.registers[0][&0x11].raw, 5);
    s.read_failed(0, "timeout");
    assert_eq!(last(&s), (LogLevel::Error, "Input Registers @0x0010: timeout".to_string()));
    s.connection_lost();
    assert_eq!(s.connection, ConnectionStatus::Error("read error — will reconnect".to_string()));
    s.write_failed("exception: IllegalFunction");
    assert_eq!(last(&s), (LogLevel::Error, "write failed: exception: IllegalFunction".to_string()));
    s.write_done(&WriteCall::SingleCoil(2, true));
    assert_eq!(last(&s), (LogLevel::Info, "wrote coil 0x0002 = true".to_string()));
    assert_eq!(s.write_target(0), Some(RegisterType::InputRegisters));
    assert_eq!(s.write_target(1), None);
}

#[test]
fn server_session_steps() {
    let mut s = state();
    s.server_listening("0.0.0.0:502");
    assert_eq!(s.connection, ConnectionStatus::Connected);
    assert_eq!(last(&s), (LogLevel::Info, "server listening on 0.0.0.0:502".to_string()));
    s.bind_failed("in use");
    assert_eq!(s.connection, ConnectionStatus::Error("bind failed: in use".to_string()));
    s.bind_address_invalid("x:1", "bad");
    assert_eq!(s.connection, ConnectionStatus::Error("invalid bind address \"x:1\": bad".to_string()));
    s.address_invalid("y", "nope");
    assert_eq!(last(&s), (LogLevel::Error, "invalid address \"y\": nope".to_string()));
}

#[test]
fn local_writes_show_in_their_tab() {
    let mut s = state();
    s.config.mode = Mode::Server;
    s.show_local_write(&WriteRequest { tab_index: 0, addr: 0x11, values: vec![40, 41] });
    assert_eq!(s.registers[0][&0x11].raw, 40);
    assert_eq!(s.registers[0][&0x12].raw, 41);
    s.config.ranges[0].reg_type = RegisterType::Coils;
    s.show_local_write(&WriteRequest { tab_index: 0, addr: 0x11, values: vec![5] });
    assert_eq!(s.registers[0][&0x11].raw, 1);
    assert_eq!(s.registers[0][&0x11].prev_raw, Some(40));
}

#[test]
fn session_outcomes_set_the_next_wait() {
    assert_eq!(next_backoff(7, SessionOutcome::Connected), INITIAL_BACKOFF_SECS);
    assert_eq!(next_backoff(2, SessionOutcome::ConnectFailed), 3);
    assert_eq!(next_backoff(MAX_BACKOFF_SECS, SessionOutcome::ConnectFailed), MAX_BACKOFF_SECS);
    assert_eq!(next_backoff(4, SessionOutcome::ReadFailed), 8);
    assert_eq!(next_backoff(6, SessionOutcome::ReadFailed), MAX_BACKOFF_SECS);
    assert_eq!(next_backoff(u64::MAX, SessionOutcome::ReadFailed), MAX_BACKOFF_SECS);
}
