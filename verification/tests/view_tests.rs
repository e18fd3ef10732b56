use std::collections::BTreeMap;
use modbus_tui::format::NumFormat;
use modbus_tui::state::RegisterValue;
use modbus_tui::text::{drop_last_char, hex4, hex_list, parse_u16, parse_u64, push_decimal, split_words, to_signed_decimal, trim, NumError};
use modbus_tui::view::{
    addressing_text, centered, coil_text, format_label, grid_shape, hex_words, log_window, registers_from,
    row_lead, shown_addr, swap_indicator, word_rows,
};

#[test]
fn grid_layout() {
    assert_eq!(grid_shape(0), (0, 1));
    assert_eq!(grid_shape(1), (1, 1));
    assert_eq!(grid_shape(2), (1, 2));
    assert_eq!(grid_shape(5), (3, 2));
}

#[test]
fn log_window_scrolls_within_bounds() {
    assert_eq!(log_window(100, 10, 0), (90, 100));
    assert_eq!(log_window(100, 10, 5), (85, 95));
    assert_eq!(log_window(100, 10, 500), (0, 10));
    assert_eq!(log_window(3, 10, 2), (0, 3));
}

#[test]
fn dialogs_are_centred() {
    assert_eq!(centered(100, 55, 4), (22, 55));
    assert_eq!(centered(40, 55, 4), (2, 36));
    assert_eq!(centered(2, 8, 4), (1, 0));
}

#[test]
fn rows_group_registers() {
    let mut m: BTreeMap<u16, RegisterValue> = BTreeMap::new();
    for a in [3u16, 1, 2, 7, 5] {
        m.insert(a, RegisterValue::new(a * 10, 0));
    }
    let rows = word_rows(&m, 2);
    assert_eq!(rows.len(), 3);
    assert_eq!(rows[0].addrs, vec![1, 2]);
    assert_eq!(rows[0].raws, vec![10, 20]);
    assert_eq!(rows[1].addrs, vec![3, 5]);
    assert_eq!(rows[2].addrs, vec![7]);
    assert_eq!(word_rows(&m, 4).len(), 2);
    assert_eq!(registers_from(&m, 2, 3), vec![20, 30, 0]);
}

#[test]
fn texts() {
    assert_eq!(hex_words(&[0x12, 0xABCD]), "0012 ABCD");
    assert_eq!(coil_text(1), "ON");
    assert_eq!(coil_text(0), "OFF");
    assert_eq!(addressing_text(1), "1-based addressing");
    assert_eq!(swap_indicator(true, true, true), Some("swap [BS: all, WS: ints+floats]".to_string()));
    assert_eq!(swap_indicator(false, false, true), Some("swap [WS: floats]".to_string()));
    assert_eq!(swap_indicator(true, false, false), Some("swap [BS: all]".to_string()));
    assert_eq!(swap_indicator(false, false, false), None);
    assert_eq!(format_label(false, NumFormat::Int32), "Int32 (2 regs)");
    assert_eq!(format_label(false, NumFormat::Ascii), "Ascii (1 reg)");
    assert_eq!(format_label(true, NumFormat::Int32), "0/1");
}

#[test]
fn text_helpers() {
    let mut s = String::from("ab");
    push_decimal(&mut s, 905);
    assert_eq!(s, "ab905");
    assert_eq!(drop_last_char("abc"), "ab");
    assert_eq!(drop_last_char(""), "");
    assert_eq!(trim("\t x y \n"), "x y");
    assert_eq!(split_words("  poll   250 "), vec!["poll".to_string(), "250".to_string()]);
    assert!(split_words("   ").is_empty());
    assert_eq!(hex4(0xBEEF), "0xBEEF");
    assert_eq!(hex_list(&[1, 2]), "0x0001, 0x0002");
    assert_eq!(to_signed_decimal(true, 42), "-42");
    assert_eq!(parse_u16("65535"), Ok(65535));
    assert_eq!(parse_u16("+7"), Ok(7));
    assert_eq!(parse_u16(""), Err(NumError::Empty));
    assert_eq!(parse_u16("65536"), Err(NumError::PosOverflow));
    assert_eq!(parse_u64("18446744073709551615"), Ok(u64::MAX));
    assert_eq!(NumError::InvalidDigit.message(), "invalid digit found in string");
}

#[test]
fn the_latest_change_lights_a_row() {
    let mut m: BTreeMap<u16, RegisterValue> = BTreeMap::new();
    for a in [0u16, 1, 2] {
        m.insert(a, RegisterValue::new(0, 0));
    }
    assert_eq!(row_lead(&m, &vec![0, 1, 2], 0), None);
    m.get_mut(&0).unwrap().update(5, 100);
    m.get_mut(&1).unwrap().update(6, 300);
    m.get_mut(&2).unwrap().update(7, 300);
    assert_eq!(row_lead(&m, &vec![0, 1, 2], 400), Some(2));
    assert_eq!(row_lead(&m, &vec![0, 1], 400), Some(1));
    // Settled long ago: nothing lit.
    for a in [0u16, 1, 2] {
        let v = m[&a].raw;
        m.get_mut(&a).unwrap().update(v, 500);
    }
    assert_eq!(row_lead(&m, &vec![0, 1, 2], 10_000), None);
    assert_eq!(row_lead(&m, &vec![0, 1, 2], 2_000), Some(2));
}

#[test]
fn shown_addresses_follow_the_start_reference() {
    assert_eq!(shown_addr(0, 1), 1);
    assert_eq!(shown_addr(41, 0), 41);
    assert_eq!(shown_addr(0xFFFF, 1), 0xFFFF);
}
