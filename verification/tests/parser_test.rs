use gcrecomp_core::dol::DolFile;

#[test]
fn test_parse_empty_dol() {
    let data = vec![0u8; 0x100];
    let result = DolFile::parse(&data, "");
    assert!(result.is_ok() || result.is_err());
}

#[test]
fn header_only_dol_has_no_sections() {
    let data = vec![0u8; 0x100];
    let dol = DolFile::parse(&data, "game.dol").unwrap();
    assert!(dol.text_sections.is_empty());
    assert!(dol.data_sections.is_empty());
    assert_eq!(dol.entry_point, 0);
    assert_eq!(dol.path, "game.dol");
}

#[test]
fn short_dol_is_refused() {
    assert!(DolFile::parse(&[0u8; 0x20], "x").is_err());
}
