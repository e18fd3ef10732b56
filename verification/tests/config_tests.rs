use std::collections::BTreeMap;
use modbus_tui::config::{
    format_addr, parse_range, ConfigError, parse_range_with_format, user_to_protocol, AddrFormat, AppConfig, Cli, Mode,
    PollRange, RegisterType,
};
use modbus_tui::format::NumFormat;

fn cli() -> Cli {
    Cli {
        mode: Mode::Client,
        host: "127.0.0.1".to_string(),
        port: 502,
        unit: 1,
        coils: vec![],
        discrete_inputs: vec![],
        holding_registers: vec![],
        input_registers: vec![],
        start_reference: 0,
        swap_ints: false,
        swap_floats: false,
        swap_bytes: false,
        no_hex: false,
        poll_interval: 100,
        decimal_addresses: false,
        config: None,
        mode_given: false,
        host_given: false,
        port_given: false,
        unit_given: false,
        poll_interval_given: false,
    }
}

fn args(a: &[&str]) -> Vec<String> {
    a.iter().map(|s| s.to_string()).collect()
}

fn plain(message: &str) -> ConfigError {
    ConfigError { message: message.to_string(), cause: None }
}

#[test]
fn parse_range_reads_start_and_count() {
    assert_eq!(parse_range("10:5", "coils"), Ok((10, 5)));
    assert_eq!(parse_range("10", "coils"), Err(plain("coils: expected format START:COUNT, got \"10\"")));
    // The number error is kept as the cause of the range error.
    assert_eq!(
        parse_range("x:5", "coils"),
        Err(ConfigError {
            message: "coils: invalid start address \"x\"".to_string(),
            cause: Some("invalid digit found in string".to_string()),
        })
    );
    assert_eq!(
        parse_range("1:70000", "coils"),
        Err(ConfigError {
            message: "coils: invalid count \"70000\"".to_string(),
            cause: Some("number too large to fit in target type".to_string()),
        })
    );
}

#[test]
fn parse_range_with_format_reads_code() {
    assert_eq!(parse_range_with_format("0:4:f32", "hr"), Ok((0, 4, Some(NumFormat::Float32))));
    assert_eq!(parse_range_with_format("0:4", "hr"), Ok((0, 4, None)));
    assert_eq!(
        parse_range_with_format("0:4:zz", "hr"),
        Err(plain("hr: unknown format 'zz'; expected one of: u16, i16, u32, i32, u64, i64, f32, f64, b16, ascii"))
    );
    assert_eq!(
        parse_range_with_format("0:4:f32:x", "hr"),
        Err(plain("hr: expected format START:COUNT[:FMT], got \"0:4:f32:x\""))
    );
}

#[test]
fn user_addresses_map_to_protocol() {
    assert_eq!(user_to_protocol(5, 1, "coils"), Ok(4));
    assert_eq!(user_to_protocol(0, 1, "coils"), Err("coils: address 0 is below start reference 1".to_string()));
}

#[test]
fn ranges_follow_the_command_line_order() {
    let mut c = cli();
    c.coils = vec!["0:8".to_string()];
    c.holding_registers = vec!["100:4:u32".to_string(), "200:2".to_string()];
    let cfg = AppConfig::from_cli(&c, &args(&["prog", "--hr", "100:4:u32", "--co", "0:8", "--holding-registers", "200:2"]))
        .unwrap();
    let kinds: Vec<_> = cfg.ranges.iter().map(|r| (r.reg_type, r.start, r.count, r.initial_format)).collect();
    assert_eq!(
        kinds,
        vec![
            (RegisterType::HoldingRegisters, 100, 4, Some(NumFormat::Uint32)),
            (RegisterType::Coils, 0, 8, None),
            (RegisterType::HoldingRegisters, 200, 2, None),
        ]
    );
}

#[test]
fn one_based_ranges_are_shifted() {
    let mut c = cli();
    c.start_reference = 1;
    c.coils = vec!["1:4".to_string()];
    let cfg = AppConfig::from_cli(&c, &args(&["prog", "--co", "1:4"])).unwrap();
    assert_eq!(cfg.ranges[0].start, 0);
    assert_eq!(cfg.ranges[0].tab_label(1, AddrFormat::Decimal), "Coils @1");
}

#[test]
fn validation_errors() {
    let mut c = cli();
    c.port = 0;
    assert_eq!(AppConfig::from_cli(&c, &args(&["prog"])).unwrap_err().message, "port must be in range 1..65535");
    let mut c = cli();
    c.unit = 248;
    assert_eq!(AppConfig::from_cli(&c, &args(&["prog"])).unwrap_err().message, "unit id must be in range 0..247, got 248");
    let mut c = cli();
    c.poll_interval = 5;
    assert_eq!(
        AppConfig::from_cli(&c, &args(&["prog"])).unwrap_err().message,
        "poll interval must be between 10 and 60000 ms, got 5"
    );
    let mut c = cli();
    c.coils = vec!["5:0".to_string()];
    assert_eq!(
        AppConfig::from_cli(&c, &args(&["prog", "--co", "5:0"])).unwrap_err().message,
        "range[0] (Coils @0x0005): count must be > 0"
    );
    let mut c = cli();
    c.input_registers = vec!["65535:2".to_string()];
    assert_eq!(
        AppConfig::from_cli(&c, &args(&["prog", "--ir", "65535:2"])).unwrap_err().message,
        "range[0] (Input Registers @0xFFFF): start (65535) + count (2) exceeds address space (max 65536)"
    );
}

#[test]
fn command_line_overrides_config_file() {
    let base = AppConfig::from_cli(&cli(), &args(&["prog"])).unwrap();
    let mut c = cli();
    c.host = "10.0.0.1".to_string();
    c.host_given = true;
    c.port = 1502;
    c.port_given = false;
    c.decimal_addresses = true;
    let cfg = base.with_cli_overrides(&c);
    assert_eq!(cfg.host, "10.0.0.1");
    assert_eq!(cfg.port, 502);
    // Only -H, -P, -u, -m and -p override the file.
    assert!(!cfg.decimal_addresses);
}

#[test]
fn register_types_and_labels() {
    assert!(RegisterType::Coils.is_coil_type());
    assert!(RegisterType::DiscreteInputs.is_coil_type());
    assert!(!RegisterType::HoldingRegisters.is_coil_type());
    assert!(RegisterType::Coils.is_writable());
    assert!(RegisterType::HoldingRegisters.is_writable());
    assert!(!RegisterType::InputRegisters.is_writable());
    assert_eq!(RegisterType::DiscreteInputs.name(), "Discrete Inputs");
    let r = PollRange { reg_type: RegisterType::HoldingRegisters, start: 0x10, count: 1, initial_format: None, labels: BTreeMap::new() };
    assert_eq!(r.tab_label(0, AddrFormat::Hex), "Holding Registers @0x0010");
    assert_eq!(r.tab_label(1, AddrFormat::Decimal), "Holding Registers @17");
    assert_eq!(format_addr(255, AddrFormat::Hex), "0x00FF");
    assert_eq!(format_addr(255, AddrFormat::Decimal), "255");
}

#[test]
fn swap_settings_and_label_fit() {
    let mut cfg = AppConfig::from_cli(&cli(), &args(&["prog"])).unwrap();
    cfg.swap_bytes = true;
    cfg.swap_ints = true;
    let ws = cfg.word_swap();
    assert!(ws.bytes && ws.ints && !ws.floats && !ws.words);
    assert!(cfg.tab_labels_fit());
    cfg.start_reference = 1;
    cfg.ranges.push(PollRange { reg_type: RegisterType::Coils, start: 0xFFFF, count: 1, initial_format: None, labels: BTreeMap::new() });
    assert!(!cfg.tab_labels_fit());
}

#[test]
fn format_codes() {
    assert_eq!("i64".parse::<NumFormat>(), Ok(NumFormat::Int64));
    assert_eq!(NumFormat::from_code("b16"), Ok(NumFormat::Bin16));
    assert!(NumFormat::from_code("f16").is_err());
    assert_eq!(NumFormat::Float32.column_header(), "Float32");
    assert_eq!(NumFormat::Uint16.description(), "Uint16     Unsigned 16-bit integer (1 reg)");
    assert_eq!(NumFormat::nth(7), NumFormat::Float32);
    assert_eq!(NumFormat::Ascii.position(), 10);
}

#[test]
fn bad_range_argument_keeps_its_cause() {
    let mut c = cli();
    c.holding_registers = vec!["abc:4".to_string()];
    let e = AppConfig::from_cli(&c, &args(&["prog", "--hr", "abc:4"])).unwrap_err();
    assert_eq!(e.message, "holding-registers: invalid start address \"abc\"");
    assert_eq!(e.cause, Some("invalid digit found in string".to_string()));
}

#[test]
fn range_starts_are_decimal() {
    assert_eq!(
        parse_range("0x10:5", "coils"),
        Err(ConfigError {
            message: "coils: invalid start address \"0x10\"".to_string(),
            cause: Some("invalid digit found in string".to_string()),
        })
    );
}
