use std::collections::BTreeMap;
use modbus_tui::config::{AddrFormat, AppConfig, Mode, PollRange, RegisterType};
use modbus_tui::event::{handle_key, Action, FileOutcome, KeyCode, KeyPress};
use modbus_tui::format::NumFormat;
use modbus_tui::state::{AppState, FocusPane, InputMode, LogLevel, RegisterValue};

fn config(mode: Mode) -> AppConfig {
    AppConfig {
        mode,
        host: "127.0.0.1".to_string(),
        port: 502,
        unit: 1,
        ranges: vec![
            PollRange {
                reg_type: RegisterType::HoldingRegisters,
                start: 0,
                count: 10,
                initial_format: None,
                labels: BTreeMap::from([(2, "Pressure".to_string())]),
            },
            PollRange {
                reg_type: RegisterType::Coils,
                start: 0,
                count: 4,
                initial_format: None,
                labels: BTreeMap::new(),
            },
            PollRange {
                reg_type: RegisterType::InputRegisters,
                start: 100,
                count: 4,
                initial_format: Some(NumFormat::Float32),
                labels: BTreeMap::new(),
            },
        ],
        poll_interval_ms: 100,
        start_reference: 0,
        swap_ints: false,
        swap_floats: false,
        swap_bytes: false,
        hide_hex: false,
        decimal_addresses: false,
        initial_values: vec![],
    }
}

fn state(mode: Mode) -> AppState {
    let mut s = AppState::new(config(mode));
    s.apply_range_defaults();
    s
}

fn key(code: KeyCode) -> KeyPress {
    KeyPress { code, ctrl: false }
}

fn ch(c: char) -> KeyPress {
    key(KeyCode::Char(c))
}

fn type_text(s: &mut AppState, text: &str) {
    for c in text.chars() {
        handle_key(s, ch(c));
    }
}

#[test]
fn quit_keys_stop_the_app() {
    let mut s = state(Mode::Client);
    handle_key(&mut s, ch('q'));
    assert!(!s.running);
    let mut s = state(Mode::Client);
    handle_key(&mut s, key(KeyCode::Esc));
    assert!(!s.running);
    let mut s = state(Mode::Client);
    handle_key(&mut s, KeyPress { code: KeyCode::Char('c'), ctrl: true });
    assert!(!s.running);
    let mut s = state(Mode::Client);
    handle_key(&mut s, ch('c'));
    assert!(s.running);
}

#[test]
fn tab_cycles_through_panes() {
    let mut s = state(Mode::Client);
    handle_key(&mut s, key(KeyCode::Tab));
    assert_eq!(s.ui.active_tab, 1);
    handle_key(&mut s, key(KeyCode::Tab));
    handle_key(&mut s, key(KeyCode::Tab));
    assert_eq!(s.ui.active_tab, 0);
    handle_key(&mut s, key(KeyCode::BackTab));
    assert_eq!(s.ui.active_tab, 2);
    handle_key(&mut s, key(KeyCode::Tab));
    assert_eq!(s.ui.active_tab, 0);
}

#[test]
fn focus_and_log_scrolling() {
    let mut s = state(Mode::Client);
    s.log.info("a");
    s.log.info("b");
    handle_key(&mut s, key(KeyCode::F(2)));
    assert_eq!(s.ui.focus, FocusPane::Log);
    handle_key(&mut s, key(KeyCode::Up));
    handle_key(&mut s, key(KeyCode::PageUp));
    assert_eq!(s.ui.log_scroll, 21);
    handle_key(&mut s, key(KeyCode::PageDown));
    handle_key(&mut s, key(KeyCode::PageDown));
    assert_eq!(s.ui.log_scroll, 0);
    handle_key(&mut s, key(KeyCode::Home));
    assert_eq!(s.ui.log_scroll, 2);
    handle_key(&mut s, key(KeyCode::End));
    assert_eq!(s.ui.log_scroll, 0);
    handle_key(&mut s, key(KeyCode::F(2)));
    assert_eq!(s.ui.focus, FocusPane::Registers);
}

#[test]
fn selection_moves_and_saturates() {
    let mut s = state(Mode::Client);
    handle_key(&mut s, ch('j'));
    handle_key(&mut s, key(KeyCode::Down));
    assert_eq!(s.ui.panes[0].selected_row, 2);
    handle_key(&mut s, key(KeyCode::PageUp));
    assert_eq!(s.ui.panes[0].selected_row, 0);
    handle_key(&mut s, key(KeyCode::End));
    assert_eq!(s.ui.panes[0].selected_row, 9);
    handle_key(&mut s, ch('k'));
    assert_eq!(s.ui.panes[0].selected_row, 8);
    handle_key(&mut s, key(KeyCode::Home));
    assert_eq!(s.ui.panes[0].selected_row, 0);
}

#[test]
fn address_format_keys() {
    let mut s = state(Mode::Client);
    handle_key(&mut s, ch('d'));
    assert_eq!(s.ui.panes[0].addr_format, AddrFormat::Decimal);
    assert_eq!(s.ui.panes[1].addr_format, AddrFormat::Hex);
    handle_key(&mut s, ch('D'));
    assert!(s.ui.panes.iter().all(|p| p.addr_format == AddrFormat::Decimal));
    handle_key(&mut s, ch('h'));
    assert_eq!(s.ui.panes[0].addr_format, AddrFormat::Hex);
    handle_key(&mut s, ch('H'));
    assert!(s.ui.panes.iter().all(|p| p.addr_format == AddrFormat::Hex));
}

#[test]
fn help_opens_and_any_key_closes() {
    let mut s = state(Mode::Client);
    handle_key(&mut s, key(KeyCode::F(1)));
    assert!(matches!(s.ui.input_mode, InputMode::HelpDialog));
    handle_key(&mut s, ch('x'));
    assert!(matches!(s.ui.input_mode, InputMode::Normal));
}

#[test]
fn format_dialog_selects_format() {
    let mut s = state(Mode::Client);
    handle_key(&mut s, ch('f'));
    assert!(matches!(s.ui.input_mode, InputMode::FormatDialog { selected: 0 }));
    handle_key(&mut s, key(KeyCode::Up));
    assert!(matches!(s.ui.input_mode, InputMode::FormatDialog { selected: 10 }));
    handle_key(&mut s, key(KeyCode::Down));
    handle_key(&mut s, ch('j'));
    handle_key(&mut s, ch('j'));
    handle_key(&mut s, key(KeyCode::Enter));
    assert!(matches!(s.ui.input_mode, InputMode::Normal));
    assert_eq!(s.ui.panes[0].num_format, NumFormat::Int32);
    // Coil tabs have no format chooser.
    handle_key(&mut s, key(KeyCode::Tab));
    handle_key(&mut s, ch('f'));
    assert!(matches!(s.ui.input_mode, InputMode::Normal));
}

#[test]
fn label_dialog_edits_and_clears_labels() {
    let mut s = state(Mode::Client);
    handle_key(&mut s, ch('j'));
    handle_key(&mut s, ch('j'));
    handle_key(&mut s, ch('l'));
    match &s.ui.input_mode {
        InputMode::LabelDialog { addr, tab_index, input } => {
            assert_eq!(*addr, 2);
            assert_eq!(*tab_index, 0);
            assert_eq!(input, "Pressure");
        }
        _ => panic!("label dialog expected"),
    }
    handle_key(&mut s, key(KeyCode::Backspace));
    type_text(&mut s, "X");
    handle_key(&mut s, key(KeyCode::Enter));
    assert_eq!(s.registers[0].get(&2).unwrap().label.as_deref(), Some("PressurX"));
    handle_key(&mut s, ch('l'));
    for _ in 0..8 {
        handle_key(&mut s, key(KeyCode::Backspace));
    }
    handle_key(&mut s, key(KeyCode::Enter));
    assert!(s.registers[0].get(&2).unwrap().label.is_none());
}

#[test]
fn write_dialog_sends_parsed_values() {
    let mut s = state(Mode::Client);
    handle_key(&mut s, ch('j'));
    handle_key(&mut s, ch('w'));
    type_text(&mut s, " 0x1F ");
    let action = handle_key(&mut s, key(KeyCode::Enter));
    match action {
        Action::SendWrite { request, note } => {
            assert_eq!(request.tab_index, 0);
            assert_eq!(request.addr, 1);
            assert_eq!(request.values, vec![0x001F]);
            assert_eq!(note, "write request: addr=0x0001 [0x1F] (0x001F)");
        }
        _ => panic!("write expected"),
    }
    assert!(matches!(s.ui.input_mode, InputMode::Normal));
}

#[test]
fn write_dialog_shows_parse_errors() {
    let mut s = state(Mode::Client);
    handle_key(&mut s, ch('w'));
    type_text(&mut s, "70000");
    let action = handle_key(&mut s, key(KeyCode::Enter));
    assert!(matches!(action, Action::Nothing));
    match &s.ui.input_mode {
        InputMode::WriteDialog { error: Some(e), input, .. } => {
            assert_eq!(e, "Int16: out of range: out of range integral type conversion attempted");
            assert_eq!(input, "70000");
        }
        _ => panic!("write dialog with error expected"),
    }
    handle_key(&mut s, key(KeyCode::Backspace));
    match &s.ui.input_mode {
        InputMode::WriteDialog { error: None, input, .. } => assert_eq!(input, "7000"),
        _ => panic!("write dialog expected"),
    }
    handle_key(&mut s, key(KeyCode::Esc));
    assert!(matches!(s.ui.input_mode, InputMode::Normal));
}

#[test]
fn write_dialog_on_coils_reads_unsigned() {
    let mut s = state(Mode::Client);
    handle_key(&mut s, key(KeyCode::Tab));
    handle_key(&mut s, ch('w'));
    type_text(&mut s, "1");
    match handle_key(&mut s, key(KeyCode::Enter)) {
        Action::SendWrite { request, .. } => {
            assert_eq!(request.tab_index, 1);
            assert_eq!(request.values, vec![1]);
        }
        _ => panic!("write expected"),
    }
}

#[test]
fn float_writes_are_read_outside_then_completed() {
    let mut s = state(Mode::Client);
    s.config.mode = Mode::Server;
    handle_key(&mut s, key(KeyCode::BackTab));
    handle_key(&mut s, ch('w'));
    // Server mode writes every register type.
    assert!(matches!(s.ui.input_mode, InputMode::WriteDialog { addr: 100, tab_index: 2, .. }));
    s.config.mode = Mode::Client;
    s.ui.input_mode = InputMode::WriteDialog { addr: 100, tab_index: 2, input: "1.5".into(), error: None };
    match handle_key(&mut s, key(KeyCode::Enter)) {
        Action::ParseFloat { format, input } => {
            assert_eq!(format, NumFormat::Float32);
            assert_eq!(input, "1.5");
        }
        _ => panic!("float parse expected"),
    }
    let bits = 1.5f32.to_bits() as u64;
    let regs = NumFormat::Float32.encode_bits(bits, &s.config.word_swap());
    match s.complete_write(Ok(regs)) {
        Action::SendWrite { request, note } => {
            assert_eq!(request.values, vec![0x3FC0, 0x0000]);
            assert_eq!(note, "write request: addr=0x0064 [1.5] (0x3FC0, 0x0000)");
        }
        _ => panic!("write expected"),
    }
    s.ui.input_mode = InputMode::WriteDialog { addr: 100, tab_index: 2, input: "x".into(), error: None };
    assert!(matches!(s.complete_write(Err("Float32: invalid float literal".into())), Action::Nothing));
    assert!(matches!(s.ui.input_mode, InputMode::WriteDialog { error: Some(_), .. }));
}

#[test]
fn command_bar_poll() {
    let mut s = state(Mode::Client);
    handle_key(&mut s, ch(':'));
    type_text(&mut s, "poll 250");
    handle_key(&mut s, key(KeyCode::Enter));
    assert_eq!(s.config.poll_interval_ms, 250);
    assert_eq!(s.log.entries.back().unwrap().message, "poll interval changed to 250 ms");
    handle_key(&mut s, ch(':'));
    type_text(&mut s, "poll 5");
    handle_key(&mut s, key(KeyCode::Enter));
    assert_eq!(s.config.poll_interval_ms, 250);
    assert_eq!(s.log.entries.back().unwrap().message, "poll interval 5 out of range (10..60000)");
    assert_eq!(s.log.entries.back().unwrap().level, LogLevel::Error);
    handle_key(&mut s, ch(':'));
    type_text(&mut s, "poll abc");
    handle_key(&mut s, key(KeyCode::Enter));
    assert_eq!(s.log.entries.back().unwrap().message, "invalid poll interval: invalid digit found in string");
    handle_key(&mut s, ch(':'));
    type_text(&mut s, "  poll  ");
    handle_key(&mut s, key(KeyCode::Enter));
    assert_eq!(s.log.entries.back().unwrap().message, "usage: poll <interval_ms>");
    handle_key(&mut s, ch(':'));
    type_text(&mut s, "frobnicate now");
    handle_key(&mut s, key(KeyCode::Enter));
    assert_eq!(s.log.entries.back().unwrap().message, "unknown command: frobnicate");
    assert_eq!(s.log.entries.back().unwrap().level, LogLevel::Warn);
    assert!(matches!(s.ui.input_mode, InputMode::Normal));
}

#[test]
fn command_bar_export_lists_registers() {
    let mut s = state(Mode::Client);
    s.registers[2].clear();
    handle_key(&mut s, ch(':'));
    type_text(&mut s, "export");
    match handle_key(&mut s, key(KeyCode::Enter)) {
        Action::Export { path, sections } => {
            assert_eq!(path, "registers.json");
            assert_eq!(sections.len(), 2);
            assert_eq!(sections[0].title, "Holding Registers @0x0000");
            assert_eq!(sections[0].entries.len(), 10);
            assert_eq!(sections[0].entries[3].name, "0x0003");
            assert_eq!(sections[0].entries[3].raw, 0);
            assert_eq!(sections[1].title, "Coils @0x0000");
        }
        _ => panic!("export expected"),
    }
    s.finish_export("registers.json", FileOutcome::Written);
    assert_eq!(s.log.entries.back().unwrap().message, "exported registers to registers.json");
    s.finish_export("x", FileOutcome::WriteFailed("denied".into()));
    assert_eq!(s.log.entries.back().unwrap().message, "export failed: denied");
}

#[test]
fn command_bar_save_builds_config() {
    let mut s = state(Mode::Client);
    handle_key(&mut s, ch(':'));
    type_text(&mut s, "save my.json");
    match handle_key(&mut s, key(KeyCode::Enter)) {
        Action::Save { path, config } => {
            assert_eq!(path, "my.json");
            assert_eq!(config.ranges[0].labels, BTreeMap::from([(2, "Pressure".to_string())]));
            assert_eq!(config.ranges[0].initial_format, Some(NumFormat::Int16));
            assert_eq!(config.ranges[1].initial_format, None);
        }
        _ => panic!("save expected"),
    }
    s.finish_save("my.json", FileOutcome::EncodeFailed("bad".into()));
    assert_eq!(s.log.entries.back().unwrap().message, "save serialization failed: bad");
}

#[test]
fn command_bar_editing() {
    let mut s = state(Mode::Client);
    handle_key(&mut s, ch(':'));
    type_text(&mut s, "abc");
    handle_key(&mut s, key(KeyCode::Backspace));
    match &s.ui.input_mode {
        InputMode::CommandBar { input, error } => {
            assert_eq!(input, "ab");
            assert!(error.is_none());
        }
        _ => panic!("command bar expected"),
    }
    handle_key(&mut s, key(KeyCode::Esc));
    assert!(matches!(s.ui.input_mode, InputMode::Normal));
    assert!(s.running);
}

#[test]
fn end_reaches_a_short_last_row() {
    let mut s = state(Mode::Client);
    handle_key(&mut s, key(KeyCode::BackTab));
    assert_eq!(s.ui.active_tab, 2);
    // Four Float32 registers and one more: rows of two, three rows.
    s.registers[2].insert(104, RegisterValue::new(0, 0));
    handle_key(&mut s, key(KeyCode::End));
    assert_eq!(s.ui.panes[2].selected_row, 2);
    assert_eq!(s.selected_addr(), Some(104));
}
