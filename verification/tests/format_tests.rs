use modbus_tui::format::{NumFormat, WordSwap};
use modbus_tui::half::{f16_to_f32, f32_to_f16};

const NO_SWAP: WordSwap = WordSwap { ints: false, floats: false, words: false, bytes: false };
const BYTE_SWAP: WordSwap = WordSwap { ints: false, floats: false, words: false, bytes: true };
const WORD_SWAP_INTS: WordSwap = WordSwap { ints: true, floats: false, words: false, bytes: false };
const WORD_SWAP_FLOATS: WordSwap = WordSwap { ints: false, floats: true, words: false, bytes: false };
const WORD_SWAP_ALL: WordSwap = WordSwap { ints: true, floats: true, words: false, bytes: false };
const BYTE_AND_WORD_INTS: WordSwap = WordSwap { ints: true, floats: false, words: false, bytes: true };
const BYTE_AND_WORD_FLOATS: WordSwap = WordSwap { ints: false, floats: true, words: false, bytes: true };
const BYTE_AND_WORD_ALL: WordSwap = WordSwap { ints: true, floats: true, words: false, bytes: true };
const SWAP_WORDS: WordSwap = WordSwap { ints: false, floats: false, words: true, bytes: false };
const SWAP_WORDS_AND_BYTES: WordSwap = WordSwap { ints: false, floats: false, words: true, bytes: true };

/// Renders registers as the UI does: the library decodes every format; the
/// floating-point ones are then printed from their bit patterns.
fn show(nf: NumFormat, regs: &[u16], ws: &WordSwap) -> String {
    match nf {
        NumFormat::Float16 => match nf.decode_bits(regs, ws) {
            Some(b) => format!("{:.4}", f32::from_bits(f16_to_f32(b as u16))),
            None => "?".to_string(),
        },
        NumFormat::Float32 => match nf.decode_bits(regs, ws) {
            Some(b) => format!("{:.6}", f32::from_bits(b as u32)),
            None => "?".to_string(),
        },
        NumFormat::Float64 => match nf.decode_bits(regs, ws) {
            Some(b) => format!("{:.10}", f64::from_bits(b)),
            None => "?".to_string(),
        },
        _ => nf.format_value(regs, ws),
    }
}

/// Reads user input as the UI does: the library parses and encodes every
/// format; the floating-point ones are first read into their bit patterns.
fn read(nf: NumFormat, input: &str, ws: &WordSwap) -> Result<Vec<u16>, String> {
    let t = input.trim();
    match nf {
        NumFormat::Float16 => t
            .parse::<f32>()
            .map(|f| nf.encode_bits(f32_to_f16(f.to_bits()) as u64, ws))
            .map_err(|e| format!("Float16: {e}")),
        NumFormat::Float32 => t
            .parse::<f32>()
            .map(|f| nf.encode_bits(f.to_bits() as u64, ws))
            .map_err(|e| format!("Float32: {e}")),
        NumFormat::Float64 => t
            .parse::<f64>()
            .map(|f| nf.encode_bits(f.to_bits(), ws))
            .map_err(|e| format!("Float64: {e}")),
        _ => nf.parse_value(input, ws),
    }
}

/// format then parse returns the wire registers it started from.
fn assert_roundtrip(nf: NumFormat, regs: &[u16], ws: &WordSwap) {
    let display = show(nf, regs, ws);
    assert_ne!(display, "?", "format_value returned '?' for {:?}", nf);
    let parsed = read(nf, &display, ws)
        .unwrap_or_else(|e| panic!("parse_value failed for {:?} input='{}': {}", nf, display, e));
    assert_eq!(&parsed[..], &regs[..nf.width()], "round-trip failed for {:?} ws={:?}", nf, ws);
}

/// parse → format → parse produces the same wire registers.
fn assert_value_roundtrip(nf: NumFormat, value: &str, ws: &WordSwap) {
    let wire = read(nf, value, ws)
        .unwrap_or_else(|e| panic!("parse_value failed for {:?} input='{}': {}", nf, value, e));
    let display = show(nf, &wire, ws);
    let wire2 = read(nf, &display, ws)
        .unwrap_or_else(|e| panic!("re-parse failed for {:?} display='{}': {}", nf, display, e));
    assert_eq!(wire, wire2, "value roundtrip failed for {:?} ws={:?}", nf, ws);
}

#[test]
fn format_uint16_no_swap() {
    assert_eq!(NumFormat::Uint16.format_value(&[258], &NO_SWAP), "258");
    assert_eq!(NumFormat::Uint16.format_value(&[0], &NO_SWAP), "0");
    assert_eq!(NumFormat::Uint16.format_value(&[65535], &NO_SWAP), "65535");
}

#[test]
fn format_int16_no_swap() {
    assert_eq!(NumFormat::Int16.format_value(&[0], &NO_SWAP), "0");
    assert_eq!(NumFormat::Int16.format_value(&[32767], &NO_SWAP), "32767");
    assert_eq!(NumFormat::Int16.format_value(&[0xFFFF], &NO_SWAP), "-1");
    assert_eq!(NumFormat::Int16.format_value(&[0x8000], &NO_SWAP), "-32768");
}

#[test]
fn format_bin16_no_swap() {
    assert_eq!(NumFormat::Bin16.format_value(&[0b1010_0000_0000_0101], &NO_SWAP), "1010000000000101");
    assert_eq!(NumFormat::Bin16.format_value(&[0], &NO_SWAP), "0000000000000000");
}

#[test]
fn format_uint32_no_swap() {
    assert_eq!(NumFormat::Uint32.format_value(&[0x0001, 0x0002], &NO_SWAP), "65538");
}

#[test]
fn format_int32_no_swap() {
    assert_eq!(NumFormat::Int32.format_value(&[0xFFFF, 0xFFFF], &NO_SWAP), "-1");
}

#[test]
fn format_float32_no_swap() {
    assert_eq!(show(NumFormat::Float32, &[0x3F80, 0x0000], &NO_SWAP), "1.000000");
}

#[test]
fn format_uint64_no_swap() {
    assert_eq!(NumFormat::Uint64.format_value(&[0, 0, 0, 1], &NO_SWAP), "1");
}

#[test]
fn format_int64_no_swap() {
    assert_eq!(NumFormat::Int64.format_value(&[0xFFFF, 0xFFFF, 0xFFFF, 0xFFFF], &NO_SWAP), "-1");
}

#[test]
fn format_float64_no_swap() {
    assert_eq!(show(NumFormat::Float64, &[0x3FF0, 0x0000, 0x0000, 0x0000], &NO_SWAP), "1.0000000000");
}

#[test]
fn format_float16_no_swap() {
    let result = show(NumFormat::Float16, &[0x3C00], &NO_SWAP);
    assert_eq!(result, "1.0000");
}

#[test]
fn byte_swap_uint16() {
    assert_eq!(NumFormat::Uint16.format_value(&[0x0102], &BYTE_SWAP), "513");
}

#[test]
fn byte_swap_int16() {
    assert_eq!(NumFormat::Int16.format_value(&[0x00FF], &BYTE_SWAP), "-256");
}

#[test]
fn byte_swap_bin16() {
    assert_eq!(NumFormat::Bin16.format_value(&[0x0102], &BYTE_SWAP), "0000001000000001");
}

#[test]
fn byte_swap_float16() {
    let no_swap = show(NumFormat::Float16, &[0x3C00], &NO_SWAP);
    let swapped = show(NumFormat::Float16, &[0x3C00], &BYTE_SWAP);
    assert_ne!(no_swap, swapped, "byte swap should change Float16 interpretation");
    assert_eq!(no_swap, "1.0000");
}

#[test]
fn byte_swap_uint32() {
    assert_eq!(NumFormat::Uint32.format_value(&[0x0102, 0x0304], &BYTE_SWAP), "33620995");
    assert_eq!(NumFormat::Uint32.format_value(&[0x0102, 0x0304], &NO_SWAP), "16909060");
}

#[test]
fn byte_swap_int32() {
    assert_eq!(NumFormat::Int32.format_value(&[0x0001, 0x0000], &BYTE_SWAP), "16777216");
}

#[test]
fn byte_swap_float32() {
    let no_swap = show(NumFormat::Float32, &[0x3F80, 0x0000], &NO_SWAP);
    let swapped = show(NumFormat::Float32, &[0x3F80, 0x0000], &BYTE_SWAP);
    assert_eq!(no_swap, "1.000000");
    assert_ne!(swapped, "1.000000", "byte swap should change f32 interpretation");
}

#[test]
fn byte_swap_uint64() {
    assert_eq!(
        NumFormat::Uint64.format_value(&[0x0001, 0x0000, 0x0000, 0x0000], &NO_SWAP),
        "281474976710656"
    );
    assert_eq!(
        NumFormat::Uint64.format_value(&[0x0001, 0x0000, 0x0000, 0x0000], &BYTE_SWAP),
        "72057594037927936"
    );
}

#[test]
fn byte_swap_int64() {
    let no_swap = NumFormat::Int64.format_value(&[0x0001, 0x0000, 0x0000, 0x0000], &NO_SWAP);
    let swapped = NumFormat::Int64.format_value(&[0x0001, 0x0000, 0x0000, 0x0000], &BYTE_SWAP);
    assert_ne!(no_swap, swapped, "byte swap should change i64 interpretation");
}

#[test]
fn byte_swap_float64() {
    let no_swap = show(NumFormat::Float64, &[0x3FF0, 0x0000, 0x0000, 0x0000], &NO_SWAP);
    let swapped = show(NumFormat::Float64, &[0x3FF0, 0x0000, 0x0000, 0x0000], &BYTE_SWAP);
    assert_eq!(no_swap, "1.0000000000");
    assert_ne!(swapped, "1.0000000000");
}

#[test]
fn word_swap_does_not_affect_single_reg() {
    assert_eq!(
        NumFormat::Uint16.format_value(&[0x0102], &WORD_SWAP_INTS),
        NumFormat::Uint16.format_value(&[0x0102], &NO_SWAP)
    );
    assert_eq!(
        NumFormat::Int16.format_value(&[0x0102], &WORD_SWAP_INTS),
        NumFormat::Int16.format_value(&[0x0102], &NO_SWAP)
    );
    assert_eq!(
        NumFormat::Bin16.format_value(&[0x0102], &WORD_SWAP_INTS),
        NumFormat::Bin16.format_value(&[0x0102], &NO_SWAP)
    );
    assert_eq!(
        show(NumFormat::Float16, &[0x3C00], &WORD_SWAP_FLOATS),
        show(NumFormat::Float16, &[0x3C00], &NO_SWAP)
    );
}

#[test]
fn word_swap_uint32() {
    assert_eq!(NumFormat::Uint32.format_value(&[0x0001, 0x0002], &WORD_SWAP_INTS), "131073");
    assert_eq!(NumFormat::Uint32.format_value(&[0x0001, 0x0002], &NO_SWAP), "65538");
}

#[test]
fn word_swap_float32() {
    let swapped = show(NumFormat::Float32, &[0x3F80, 0x0000], &WORD_SWAP_FLOATS);
    assert_ne!(swapped, "1.000000");
}

#[test]
fn word_swap_ints_does_not_affect_floats() {
    assert_eq!(
        show(NumFormat::Float32, &[0x3F80, 0x0000], &WORD_SWAP_INTS),
        show(NumFormat::Float32, &[0x3F80, 0x0000], &NO_SWAP)
    );
}

#[test]
fn word_swap_floats_does_not_affect_ints() {
    assert_eq!(
        NumFormat::Uint32.format_value(&[0x0001, 0x0002], &WORD_SWAP_FLOATS),
        NumFormat::Uint32.format_value(&[0x0001, 0x0002], &NO_SWAP)
    );
}

#[test]
fn byte_and_word_swap_uint32() {
    assert_eq!(NumFormat::Uint32.format_value(&[0x0102, 0x0304], &BYTE_AND_WORD_INTS), "67305985");
}

#[test]
fn byte_and_word_swap_uint64() {
    assert_eq!(
        NumFormat::Uint64.format_value(&[0x0102, 0x0304, 0x0506, 0x0708], &BYTE_AND_WORD_INTS),
        "433761765302535171"
    );
}

#[test]
fn byte_and_word_swap_float32() {
    let regs = [0x3F80, 0x0000];
    let v_none = show(NumFormat::Float32, &regs, &NO_SWAP);
    let v_both = show(NumFormat::Float32, &regs, &BYTE_AND_WORD_FLOATS);
    assert_eq!(v_none, "1.000000");
    assert_ne!(v_none, v_both, "byte+word swap should change f32 interpretation");
}

#[test]
fn parse_uint16_byte_swap() {
    let regs = NumFormat::Uint16.parse_value("513", &BYTE_SWAP).unwrap();
    assert_eq!(regs, vec![0x0102]);
}

#[test]
fn parse_int16_byte_swap() {
    let regs = NumFormat::Int16.parse_value("-256", &BYTE_SWAP).unwrap();
    assert_eq!(regs, vec![0x00FF]);
}

#[test]
fn parse_uint32_byte_swap() {
    let regs = NumFormat::Uint32.parse_value("33620995", &BYTE_SWAP).unwrap();
    assert_eq!(regs, vec![0x0102, 0x0304]);
}

#[test]
fn parse_uint32_word_swap() {
    let regs = NumFormat::Uint32.parse_value("131073", &WORD_SWAP_INTS).unwrap();
    assert_eq!(regs, vec![0x0001, 0x0002]);
}

#[test]
fn parse_uint32_byte_and_word_swap() {
    let regs = NumFormat::Uint32.parse_value("67305985", &BYTE_AND_WORD_INTS).unwrap();
    assert_eq!(regs, vec![0x0102, 0x0304]);
}

#[test]
fn parse_uint64_byte_and_word_swap() {
    let regs = NumFormat::Uint64.parse_value("433761765302535171", &BYTE_AND_WORD_INTS).unwrap();
    assert_eq!(regs, vec![0x0102, 0x0304, 0x0506, 0x0708]);
}

#[test]
fn roundtrip_no_swap() {
    assert_roundtrip(NumFormat::Uint16, &[0x1234], &NO_SWAP);
    assert_roundtrip(NumFormat::Int16, &[0x8000], &NO_SWAP);
    assert_roundtrip(NumFormat::Float16, &[0x3C00], &NO_SWAP);
    assert_roundtrip(NumFormat::Uint32, &[0x0001, 0x0002], &NO_SWAP);
    assert_roundtrip(NumFormat::Int32, &[0xFFFF, 0xFFFF], &NO_SWAP);
    assert_roundtrip(NumFormat::Float32, &[0x3F80, 0x0000], &NO_SWAP);
    assert_roundtrip(NumFormat::Uint64, &[0, 0, 0, 1], &NO_SWAP);
    assert_roundtrip(NumFormat::Int64, &[0xFFFF, 0xFFFF, 0xFFFF, 0xFFFF], &NO_SWAP);
    assert_roundtrip(NumFormat::Float64, &[0x3FF0, 0, 0, 0], &NO_SWAP);
}

#[test]
fn roundtrip_byte_swap_single_reg() {
    assert_roundtrip(NumFormat::Uint16, &[0x0102], &BYTE_SWAP);
    assert_roundtrip(NumFormat::Int16, &[0x00FF], &BYTE_SWAP);
    assert_value_roundtrip(NumFormat::Float16, "1.0", &BYTE_SWAP);
}

#[test]
fn roundtrip_byte_swap_dual_reg() {
    assert_roundtrip(NumFormat::Uint32, &[0x0102, 0x0304], &BYTE_SWAP);
    assert_roundtrip(NumFormat::Int32, &[0x0102, 0x0304], &BYTE_SWAP);
    assert_value_roundtrip(NumFormat::Float32, "42.0", &BYTE_SWAP);
}

#[test]
fn roundtrip_byte_swap_quad_reg() {
    assert_roundtrip(NumFormat::Uint64, &[0x0102, 0x0304, 0x0506, 0x0708], &BYTE_SWAP);
    assert_roundtrip(NumFormat::Int64, &[0x0102, 0x0304, 0x0506, 0x0708], &BYTE_SWAP);
    assert_value_roundtrip(NumFormat::Float64, "42.0", &BYTE_SWAP);
}

#[test]
fn roundtrip_word_swap() {
    assert_roundtrip(NumFormat::Uint32, &[0x0001, 0x0002], &WORD_SWAP_INTS);
    assert_roundtrip(NumFormat::Int32, &[0xFFFF, 0x0001], &WORD_SWAP_INTS);
    assert_value_roundtrip(NumFormat::Float32, "42.0", &WORD_SWAP_FLOATS);
    assert_roundtrip(NumFormat::Uint64, &[0, 0, 0, 1], &WORD_SWAP_INTS);
    assert_roundtrip(NumFormat::Int64, &[0xFFFF, 0xFFFF, 0xFFFF, 0xFFFF], &WORD_SWAP_INTS);
    assert_value_roundtrip(NumFormat::Float64, "42.0", &WORD_SWAP_FLOATS);
}

#[test]
fn roundtrip_byte_and_word_swap() {
    assert_roundtrip(NumFormat::Uint32, &[0x0102, 0x0304], &BYTE_AND_WORD_INTS);
    assert_roundtrip(NumFormat::Int32, &[0x0102, 0x0304], &BYTE_AND_WORD_INTS);
    assert_value_roundtrip(NumFormat::Float32, "42.0", &BYTE_AND_WORD_FLOATS);
    assert_roundtrip(NumFormat::Uint64, &[0x0102, 0x0304, 0x0506, 0x0708], &BYTE_AND_WORD_INTS);
    assert_roundtrip(NumFormat::Int64, &[0x0102, 0x0304, 0x0506, 0x0708], &BYTE_AND_WORD_INTS);
    assert_value_roundtrip(NumFormat::Float64, "42.0", &BYTE_AND_WORD_FLOATS);
}

#[test]
fn roundtrip_integer_formats_all_swaps() {
    let swap_configs = [NO_SWAP, BYTE_SWAP, WORD_SWAP_INTS, WORD_SWAP_ALL, BYTE_AND_WORD_INTS, BYTE_AND_WORD_ALL];
    let regs_1 = vec![0x1234u16];
    let regs_2 = vec![0x4142u16, 0x4344];
    let regs_4 = vec![0x0102u16, 0x0304, 0x0506, 0x0708];
    let integer_formats = [
        NumFormat::Uint16,
        NumFormat::Int16,
        NumFormat::Uint32,
        NumFormat::Int32,
        NumFormat::Uint64,
        NumFormat::Int64,
    ];
    for &ws in &swap_configs {
        for &nf in &integer_formats {
            let regs = match nf.width() {
                1 => &regs_1,
                2 => &regs_2,
                4 => &regs_4,
                _ => unreachable!(),
            };
            assert_roundtrip(nf, regs, &ws);
        }
    }
}

#[test]
fn roundtrip_float_formats_all_swaps() {
    let swap_configs = [NO_SWAP, BYTE_SWAP, WORD_SWAP_FLOATS, WORD_SWAP_ALL, BYTE_AND_WORD_FLOATS, BYTE_AND_WORD_ALL];
    for &ws in &swap_configs {
        assert_value_roundtrip(NumFormat::Float16, "1.0", &ws);
        assert_value_roundtrip(NumFormat::Float32, "42.0", &ws);
        assert_value_roundtrip(NumFormat::Float32, "-1.5", &ws);
        assert_value_roundtrip(NumFormat::Float64, "42.0", &ws);
        assert_value_roundtrip(NumFormat::Float64, "-100.25", &ws);
    }
}

#[test]
fn format_value_too_few_registers() {
    assert_eq!(NumFormat::Uint32.format_value(&[1], &NO_SWAP), "?");
    assert_eq!(NumFormat::Uint64.format_value(&[1, 2, 3], &NO_SWAP), "?");
    assert_eq!(NumFormat::Uint32.format_value(&[1], &BYTE_SWAP), "?");
}

#[test]
fn byte_swap_zero_is_zero() {
    assert_eq!(NumFormat::Uint16.format_value(&[0], &BYTE_SWAP), "0");
    assert_eq!(NumFormat::Int16.format_value(&[0], &BYTE_SWAP), "0");
    assert_eq!(NumFormat::Uint32.format_value(&[0, 0], &BYTE_SWAP), "0");
}

#[test]
fn byte_swap_palindrome_unchanged() {
    assert_eq!(
        NumFormat::Uint16.format_value(&[0xAAAA], &BYTE_SWAP),
        NumFormat::Uint16.format_value(&[0xAAAA], &NO_SWAP)
    );
    assert_eq!(
        NumFormat::Uint16.format_value(&[0xFFFF], &BYTE_SWAP),
        NumFormat::Uint16.format_value(&[0xFFFF], &NO_SWAP)
    );
}

#[test]
fn parse_hex_input_with_byte_swap() {
    let regs = NumFormat::Uint16.parse_value("0xFF", &BYTE_SWAP).unwrap();
    assert_eq!(regs, vec![0xFF00]);
}

#[test]
fn parse_binary_input_with_byte_swap() {
    let regs = NumFormat::Uint16.parse_value("0b100000001", &BYTE_SWAP).unwrap();
    assert_eq!(regs, vec![0x0101]);
}

#[test]
fn should_swap_single_reg_always_false() {
    for &ws in &[NO_SWAP, WORD_SWAP_INTS, WORD_SWAP_FLOATS, WORD_SWAP_ALL] {
        assert!(!NumFormat::Uint16.should_swap(&ws));
        assert!(!NumFormat::Int16.should_swap(&ws));
        assert!(!NumFormat::Bin16.should_swap(&ws));
        assert!(!NumFormat::Float16.should_swap(&ws));
    }
}

#[test]
fn should_swap_int_types() {
    assert!(NumFormat::Int32.should_swap(&WORD_SWAP_INTS));
    assert!(NumFormat::Uint32.should_swap(&WORD_SWAP_INTS));
    assert!(NumFormat::Int64.should_swap(&WORD_SWAP_INTS));
    assert!(NumFormat::Uint64.should_swap(&WORD_SWAP_INTS));
    assert!(!NumFormat::Int32.should_swap(&WORD_SWAP_FLOATS));
    assert!(!NumFormat::Uint32.should_swap(&WORD_SWAP_FLOATS));
}

#[test]
fn should_swap_float_types() {
    assert!(NumFormat::Float32.should_swap(&WORD_SWAP_FLOATS));
    assert!(NumFormat::Float64.should_swap(&WORD_SWAP_FLOATS));
    assert!(!NumFormat::Float32.should_swap(&WORD_SWAP_INTS));
    assert!(!NumFormat::Float64.should_swap(&WORD_SWAP_INTS));
}

#[test]
fn f16_roundtrip_normal_values() {
    for &val in &[0.0f32, 1.0, -1.0, 0.5, 65504.0] {
        let bits = f32_to_f16(val.to_bits());
        let back = f32::from_bits(f16_to_f32(bits));
        assert!((back - val).abs() < 1e-3, "f16 roundtrip failed for {}: got {}", val, back);
    }
}

#[test]
fn f16_infinity() {
    let bits = f32_to_f16(f32::INFINITY.to_bits());
    assert_eq!(bits, 0x7C00);
    let bits_neg = f32_to_f16(f32::NEG_INFINITY.to_bits());
    assert_eq!(bits_neg, 0xFC00);
}

#[test]
fn f16_nan() {
    let bits = f32_to_f16(f32::NAN.to_bits());
    assert_eq!(bits & 0x7C00, 0x7C00);
    assert_ne!(bits & 0x03FF, 0);
}

#[test]
fn modbus_scenario_byte_swapped_device() {
    assert_eq!(NumFormat::Uint32.format_value(&[0x3412, 0x7856], &BYTE_SWAP), "305419896");
    let misinterpreted = ((0x3412u32) << 16) | 0x7856u32;
    assert_eq!(NumFormat::Uint32.format_value(&[0x3412, 0x7856], &NO_SWAP), misinterpreted.to_string());
}

#[test]
fn modbus_scenario_both_swaps() {
    assert_eq!(NumFormat::Uint32.format_value(&[0x7856, 0x3412], &BYTE_AND_WORD_INTS), "305419896");
}

#[test]
fn modbus_scenario_write_with_byte_swap() {
    let regs = NumFormat::Uint32.parse_value("305419896", &BYTE_SWAP).unwrap();
    assert_eq!(regs, vec![0x3412, 0x7856]);
}

#[test]
fn modbus_scenario_write_with_both_swaps() {
    let regs = NumFormat::Uint32.parse_value("305419896", &BYTE_AND_WORD_INTS).unwrap();
    assert_eq!(regs, vec![0x7856, 0x3412]);
}

#[test]
fn format_ascii_printable() {
    assert_eq!(NumFormat::Ascii.format_value(&[0x4869], &NO_SWAP), "Hi");
}

#[test]
fn format_ascii_non_printable_replaced_with_dot() {
    assert_eq!(NumFormat::Ascii.format_value(&[0x0048], &NO_SWAP), ".H");
}

#[test]
fn format_ascii_space_preserved() {
    assert_eq!(NumFormat::Ascii.format_value(&[0x2041], &NO_SWAP), " A");
}

#[test]
fn format_ascii_all_non_printable() {
    assert_eq!(NumFormat::Ascii.format_value(&[0x0001], &NO_SWAP), "..");
}

#[test]
fn format_ascii_with_byte_swap() {
    assert_eq!(NumFormat::Ascii.format_value(&[0x4869], &BYTE_SWAP), "iH");
}

#[test]
fn parse_ascii_two_chars() {
    let regs = NumFormat::Ascii.parse_value("Hi", &NO_SWAP).unwrap();
    assert_eq!(regs, vec![0x4869]);
}

#[test]
fn parse_ascii_rejects_wrong_length() {
    assert!(NumFormat::Ascii.parse_value("A", &NO_SWAP).is_err());
    assert!(NumFormat::Ascii.parse_value("ABC", &NO_SWAP).is_err());
    assert!(NumFormat::Ascii.parse_value("", &NO_SWAP).is_err());
}

#[test]
fn ascii_roundtrip_no_swap() {
    assert_roundtrip(NumFormat::Ascii, &[0x4869], &NO_SWAP);
    assert_roundtrip(NumFormat::Ascii, &[0x4142], &NO_SWAP);
    assert_roundtrip(NumFormat::Ascii, &[0x3031], &NO_SWAP);
}

#[test]
fn ascii_roundtrip_byte_swap() {
    assert_roundtrip(NumFormat::Ascii, &[0x4869], &BYTE_SWAP);
    assert_roundtrip(NumFormat::Ascii, &[0x4142], &BYTE_SWAP);
}

#[test]
fn swap_words_applies_to_uint32() {
    assert_eq!(NumFormat::Uint32.format_value(&[0x0001, 0x0002], &SWAP_WORDS), "131073");
}

#[test]
fn swap_words_applies_to_float32() {
    let no_swap = show(NumFormat::Float32, &[0x3F80, 0x0000], &NO_SWAP);
    let swapped = show(NumFormat::Float32, &[0x3F80, 0x0000], &SWAP_WORDS);
    assert_ne!(no_swap, swapped, "swap_words should change Float32 interpretation");
    assert_eq!(no_swap, "1.000000");
}

#[test]
fn swap_words_applies_to_int64() {
    assert_eq!(NumFormat::Int64.format_value(&[0xFFFF, 0xFFFF, 0xFFFF, 0xFFFF], &SWAP_WORDS), "-1");
    assert_eq!(NumFormat::Uint64.format_value(&[0, 0, 0, 1], &SWAP_WORDS), "4294967296");
}

#[test]
fn swap_words_does_not_affect_single_register() {
    assert_eq!(NumFormat::Uint16.format_value(&[0x0102], &SWAP_WORDS), "258");
    assert_eq!(NumFormat::Int16.format_value(&[0x00FF], &SWAP_WORDS), "255");
    assert_eq!(NumFormat::Ascii.format_value(&[0x4869], &SWAP_WORDS), "Hi");
    assert_eq!(NumFormat::Bin16.format_value(&[0x0102], &SWAP_WORDS), "0000000100000010");
}

#[test]
fn swap_words_roundtrip_uint32() {
    assert_roundtrip(NumFormat::Uint32, &[0x0001, 0x0002], &SWAP_WORDS);
}

#[test]
fn swap_words_roundtrip_float32() {
    assert_value_roundtrip(NumFormat::Float32, "1.0", &SWAP_WORDS);
    assert_value_roundtrip(NumFormat::Float32, "-3.14", &SWAP_WORDS);
}

#[test]
fn swap_words_roundtrip_uint64() {
    assert_roundtrip(NumFormat::Uint64, &[0, 0, 0, 1], &SWAP_WORDS);
}

#[test]
fn swap_words_roundtrip_float64() {
    assert_value_roundtrip(NumFormat::Float64, "1.0", &SWAP_WORDS);
}

#[test]
fn swap_words_with_byte_swap_roundtrip() {
    assert_roundtrip(NumFormat::Uint32, &[0x1234, 0x5678], &SWAP_WORDS_AND_BYTES);
    assert_value_roundtrip(NumFormat::Float32, "1.0", &SWAP_WORDS_AND_BYTES);
    assert_roundtrip(NumFormat::Uint64, &[0x1111, 0x2222, 0x3333, 0x4444], &SWAP_WORDS_AND_BYTES);
}

#[test]
fn swap_words_overrides_individual_flags() {
    let ws = WordSwap { ints: false, floats: false, words: true, bytes: false };
    assert!(NumFormat::Float32.should_swap(&ws));
    assert!(NumFormat::Uint32.should_swap(&ws));
    assert!(NumFormat::Int64.should_swap(&ws));
    assert!(NumFormat::Float64.should_swap(&ws));
    assert!(!NumFormat::Uint16.should_swap(&ws));
    assert!(!NumFormat::Int16.should_swap(&ws));
    assert!(!NumFormat::Ascii.should_swap(&ws));
    assert!(!NumFormat::Bin16.should_swap(&ws));
    assert!(!NumFormat::Float16.should_swap(&ws));
}

#[test]
fn half_precision_patterns_survive_widening() {
    for &h in &[0x0000u16, 0x8000, 0x0001, 0x03FF, 0x3C00, 0xBC00, 0x7BFF, 0x7C00, 0xFC00, 0x7E01, 0x7C01] {
        assert_eq!(f32_to_f16(f16_to_f32(h)), h, "pattern {h:#06x}");
    }
    assert_eq!(f16_to_f32(0x3C00), 1.0f32.to_bits());
    assert_eq!(f16_to_f32(0x0001), (2.0f32).powi(-24).to_bits());
}

#[test]
fn encode_then_decode_gives_the_bits() {
    for &ws in &[NO_SWAP, BYTE_SWAP, WORD_SWAP_ALL, BYTE_AND_WORD_ALL, SWAP_WORDS_AND_BYTES] {
        for &nf in &[NumFormat::Uint16, NumFormat::Float32, NumFormat::Int64, NumFormat::Ascii] {
            let bits = 0x0123_4567_89AB_CDEFu64 & (u64::MAX >> (64 - 16 * nf.width() as u32));
            let regs = nf.encode_bits(bits, &ws);
            assert_eq!(regs.len(), nf.width());
            assert_eq!(nf.decode_bits(&regs, &ws), Some(bits));
        }
    }
    assert_eq!(NumFormat::Float64.decode_bits(&[1, 2, 3], &NO_SWAP), None);
}

#[test]
fn parse_errors_name_the_format() {
    assert_eq!(NumFormat::Int16.parse_value("", &NO_SWAP), Err("Int16: cannot parse integer from empty string".to_string()));
    assert_eq!(NumFormat::Uint32.parse_value("0x", &NO_SWAP), Err("Uint32: cannot parse integer from empty string".to_string()));
    assert_eq!(NumFormat::Bin16.parse_value("0b102", &NO_SWAP), Err("Bin16: invalid digit found in string".to_string()));
    assert_eq!(
        NumFormat::Uint64.parse_value("18446744073709551616", &NO_SWAP),
        Err("Uint64: number too large to fit in target type".to_string())
    );
    assert_eq!(
        NumFormat::Int64.parse_value("-9223372036854775809", &NO_SWAP),
        Err("Int64: number too small to fit in target type".to_string())
    );
    assert_eq!(
        NumFormat::Uint16.parse_value("-1", &NO_SWAP),
        Err("Uint16: invalid digit found in string".to_string())
    );
    assert_eq!(
        NumFormat::Int32.parse_value("0xFFFFFFFF", &NO_SWAP),
        Err("Int32: out of range: out of range integral type conversion attempted".to_string())
    );
    assert_eq!(NumFormat::Int16.parse_value(" -0x10 ", &NO_SWAP), Err("Int16: invalid digit found in string".to_string()));
    assert_eq!(NumFormat::Int16.parse_value(" +12 ", &NO_SWAP), Ok(vec![12]));
}

#[test]
fn parsed_decimals_format_back_unchanged() {
    for (nf, text) in [
        (NumFormat::Int16, "-5"),
        (NumFormat::Uint16, "65535"),
        (NumFormat::Int32, "-2147483648"),
        (NumFormat::Uint32, "4000000000"),
        (NumFormat::Int64, "-9000000000000000000"),
        (NumFormat::Uint64, "18446744073709551615"),
    ] {
        for ws in [NO_SWAP, BYTE_AND_WORD_ALL, SWAP_WORDS] {
            let regs = nf.parse_value(text, &ws).unwrap();
            assert_eq!(nf.format_value(&regs, &ws), text);
        }
    }
}

#[test]
fn word_swap_settings_leave_single_registers_alone() {
    for nf in [NumFormat::Int16, NumFormat::Uint16, NumFormat::Bin16, NumFormat::Ascii] {
        for regs in [[0x4142u16], [0xFFFE], [0x0001]] {
            assert_eq!(nf.format_value(&regs, &SWAP_WORDS), nf.format_value(&regs, &NO_SWAP));
            assert_eq!(nf.format_value(&regs, &WORD_SWAP_ALL), nf.format_value(&regs, &NO_SWAP));
            assert_eq!(nf.format_value(&regs, &SWAP_WORDS_AND_BYTES), nf.format_value(&regs, &BYTE_SWAP));
        }
    }
}
