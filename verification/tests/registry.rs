use stalcraft_jvm_wrapper::registry::{reg_sz_data, reg_string_text, reg_sz_text, subkey_name};

fn utf16le(s: &str) -> Vec<u8> {
    s.encode_utf16().flat_map(|u| u.to_le_bytes()).collect()
}

#[test]
fn reg_sz_decodes_until_nul() {
    let mut data = utf16le("default");
    data.extend_from_slice(&[0, 0, b'x', 0]);
    assert_eq!(reg_sz_text(&data), Some("default".to_string()));
    assert_eq!(reg_sz_text(&utf16le("Профиль 😀")), Some("Профиль 😀".to_string()));
    assert_eq!(reg_sz_text(&[0, 0]), None);
    assert_eq!(reg_sz_text(&[]), None);
    // a lone high surrogate cannot be decoded
    assert_eq!(reg_sz_text(&[0x00, 0xD8, 0x41, 0x00]), None);
}

#[test]
fn reg_string_is_trimmed() {
    assert_eq!(reg_string_text(&utf16le("  Intel CPU \0")), Some("Intel CPU".to_string()));
    assert_eq!(reg_string_text(&utf16le("   ")), None);
}

#[test]
fn subkey_names_decode_lossily() {
    let mut units: Vec<u16> = "0001".encode_utf16().collect();
    units.push(0);
    units.extend([0x41, 0x42]);
    assert_eq!(subkey_name(&units, 2), Some("0001".to_string()));
    let no_nul: Vec<u16> = vec![0x30, 0xD800, 0x31];
    assert_eq!(subkey_name(&no_nul, 3), Some("0\u{FFFD}1".to_string()));
    assert_eq!(subkey_name(&no_nul, 1), Some("0".to_string()));
    assert_eq!(subkey_name(&[0, 0x41], 2), None);
}

#[test]
fn written_data_reads_back() {
    let data = reg_sz_data("pvp");
    assert_eq!(data, vec![b'p', 0, b'v', 0, b'p', 0, 0, 0]);
    for s in ["default", "\"C:\\Игры\\service.exe\"", "x😀y"] {
        assert_eq!(reg_sz_text(&reg_sz_data(s)), Some(s.to_string()));
    }
    assert_eq!(reg_sz_data("😀"), vec![0x3D, 0xD8, 0x00, 0xDE, 0, 0]);
}
