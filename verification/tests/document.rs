use iris_devices::snapshot::document::{parse_document, render_document};
use iris_devices::snapshot::{get_field, hex_u32, load_u32_slice, u32_slice_to_toml, TomlValue};

#[test]
fn parses_a_register_file() {
    let doc = parse_document("pc = \"0x80001000\"\nflags = [\"0x01\", \"0x02\"]\nrunning = true\n").unwrap();
    match get_field(&doc, "pc") {
        Some(TomlValue::String(s)) => assert_eq!(s, "0x80001000"),
        other => panic!("unexpected {:?}", other),
    }
    match get_field(&doc, "flags") {
        Some(TomlValue::Array(a)) => assert_eq!(a.len(), 2),
        other => panic!("unexpected {:?}", other),
    }
    assert!(matches!(get_field(&doc, "running"), Some(TomlValue::Boolean(true))));
    assert!(get_field(&doc, "missing").is_none());
}

#[test]
fn floats_read_as_other() {
    let doc = parse_document("ratio = 1.5\n").unwrap();
    assert!(matches!(get_field(&doc, "ratio"), Some(TomlValue::Other)));
}

#[test]
fn malformed_text_is_an_error_with_a_message() {
    let e = parse_document("pc = \n").unwrap_err();
    assert!(!e.is_empty());
}

#[test]
fn renders_a_table() {
    let v = TomlValue::Table(vec![
        ("count".to_string(), TomlValue::Integer(3)),
        ("pc".to_string(), hex_u32(0x1234)),
    ]);
    assert_eq!(render_document(&v).unwrap(), "count = 3\npc = \"0x00001234\"\n");
}

#[test]
fn a_value_holding_other_does_not_render() {
    let v = TomlValue::Table(vec![("ratio".to_string(), TomlValue::Other)]);
    assert_eq!(render_document(&v).unwrap_err(), "value without TOML contents");
}

#[test]
fn rendered_array_reads_back() {
    let src = [1u32, 0xdeadbeef, 7];
    let v = TomlValue::Table(vec![("regs".to_string(), u32_slice_to_toml(&src))]);
    let text = render_document(&v).unwrap();
    let back = parse_document(&text).unwrap();
    let mut dst = [0u32; 3];
    load_u32_slice(get_field(&back, "regs").unwrap(), &mut dst);
    assert_eq!(dst, src);
}
