use iris_devices::snapshot::{
    get_field, hex_u16, hex_u32, hex_u64, hex_u8, load_u16_slice, load_u32_slice, load_u64_slice,
    load_u8_slice, toml_bool, toml_u16, toml_u32, toml_u64, toml_u8, u16_slice_to_toml,
    u32_slice_to_toml, u64_slice_to_toml, u8_slice_to_toml, Snapshot, TomlValue,
};

fn text(v: &TomlValue) -> &str {
    match v {
        TomlValue::String(s) => s.as_str(),
        other => panic!("not a string: {:?}", other),
    }
}

#[test]
fn hex_strings_have_fixed_width() {
    assert_eq!(text(&hex_u64(0xABC)), "0x0000000000000abc");
    assert_eq!(text(&hex_u32(0xDEADBEEF)), "0xdeadbeef");
    assert_eq!(text(&hex_u16(0x12)), "0x0012");
    assert_eq!(text(&hex_u8(0xF)), "0x0f");
}

#[test]
fn hex_strings_read_back() {
    assert_eq!(toml_u64(&hex_u64(u64::MAX)), Some(u64::MAX));
    assert_eq!(toml_u32(&hex_u32(0x8000_0001)), Some(0x8000_0001));
    assert_eq!(toml_u16(&hex_u16(0xBEEF)), Some(0xBEEF));
    assert_eq!(toml_u8(&hex_u8(0x7F)), Some(0x7F));
}

#[test]
fn numbers_from_integers_and_odd_strings() {
    assert_eq!(toml_u64(&TomlValue::Integer(-1)), Some(u64::MAX));
    assert_eq!(toml_u32(&TomlValue::Integer(0x1_0000_0005)), Some(5));
    assert_eq!(toml_u8(&TomlValue::Integer(300)), Some(44));
    // Without the prefix the text is still hex; wider values are truncated.
    assert_eq!(toml_u64(&TomlValue::String("ff".to_string())), Some(0xFF));
    assert_eq!(toml_u16(&TomlValue::String("0x12345".to_string())), Some(0x2345));
    assert_eq!(toml_u64(&TomlValue::String("0x0x10".to_string())), Some(0x10));
    assert_eq!(toml_u64(&TomlValue::String("0xzz".to_string())), None);
    assert_eq!(toml_u64(&TomlValue::String("".to_string())), None);
    assert_eq!(toml_u64(&TomlValue::String("+ff".to_string())), Some(0xFF));
    assert_eq!(toml_u64(&TomlValue::String("0x1_0".to_string())), None);
    assert_eq!(toml_u64(&TomlValue::String("0x10000000000000000".to_string())), None);
    assert_eq!(toml_u64(&TomlValue::Boolean(true)), None);
    assert_eq!(toml_bool(&TomlValue::Boolean(true)), Some(true));
    assert_eq!(toml_bool(&TomlValue::Integer(1)), None);
}

#[test]
fn slices_round_trip() {
    let src64 = [1u64, u64::MAX, 0x1234];
    let mut dst64 = [0u64; 3];
    load_u64_slice(&u64_slice_to_toml(&src64), &mut dst64);
    assert_eq!(dst64, src64);

    let src32 = [7u32, 0xFFFF_FFFF];
    let mut dst32 = [0u32; 2];
    load_u32_slice(&u32_slice_to_toml(&src32), &mut dst32);
    assert_eq!(dst32, src32);

    let src16 = [0xABCDu16];
    let mut dst16 = [0u16; 1];
    load_u16_slice(&u16_slice_to_toml(&src16), &mut dst16);
    assert_eq!(dst16, src16);

    let src8 = [1u8, 2, 3, 0xFF];
    let mut dst8 = [0u8; 4];
    load_u8_slice(&u8_slice_to_toml(&src8), &mut dst8);
    assert_eq!(dst8, src8);
}

#[test]
fn loading_fills_what_is_there() {
    let v = TomlValue::Array(vec![
        TomlValue::Integer(5),
        TomlValue::Boolean(false),
        TomlValue::String("0x09".to_string()),
        TomlValue::Integer(11),
    ]);
    let mut dst = [1u32; 3];
    load_u32_slice(&v, &mut dst);
    // Unreadable items leave their place alone; extra items are ignored.
    assert_eq!(dst, [5, 1, 9]);
    let mut longer = [2u8; 6];
    load_u8_slice(&v, &mut longer);
    assert_eq!(longer, [5, 2, 9, 11, 2, 2]);
    let mut untouched = [3u64; 2];
    load_u64_slice(&TomlValue::Integer(1), &mut untouched);
    assert_eq!(untouched, [3, 3]);
}

#[test]
fn fields_of_tables() {
    let t = TomlValue::Table(vec![
        ("pc".to_string(), hex_u64(0xBFC0_0000)),
        ("running".to_string(), TomlValue::Boolean(true)),
    ]);
    assert_eq!(toml_u64(get_field(&t, "pc").unwrap()), Some(0xBFC0_0000));
    assert_eq!(toml_bool(get_field(&t, "running").unwrap()), Some(true));
    assert!(get_field(&t, "missing").is_none());
    assert!(get_field(&TomlValue::Integer(3), "pc").is_none());
}

#[test]
fn snapshot_keeps_its_directory() {
    let s = Snapshot::new("/tmp/snap".to_string());
    assert_eq!(s.dir, "/tmp/snap");
}
