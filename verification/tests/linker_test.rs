use gcrecomp_core::linker::{LinkerError, LinkerScript};

#[test]
fn test_parse_memory() {
    let script = r#"
MEMORY {
    TEXT : ORIGIN = 0x80003100, LENGTH = 0x1000000
    DATA : ORIGIN = 0x80400000, LENGTH = 0x1000000
}
"#;

    let linker = LinkerScript::from_str(script)
        .map_err(|e| format!("Failed to parse linker script: {:?}", e))
        .unwrap();
    assert_eq!(linker.memory.len(), 2);
    assert_eq!(linker.memory_region("TEXT").unwrap().origin, 0x80003100);
    assert_eq!(linker.memory_region("TEXT").unwrap().length, 0x1000000);
}

#[test]
fn test_parse_namespaces() {
    let script = r#"
NAMESPACES {
    "gx" : {
        pattern: "GX*",
        module: "graphics/gx"
    }
}
"#;

    let linker = LinkerScript::from_str(script)
        .map_err(|e| format!("Failed to parse linker script: {:?}", e))
        .unwrap();
    assert_eq!(linker.namespaces.len(), 1);
    assert_eq!(
        linker.get_module_for_symbol("GXInit"),
        Some("graphics/gx".to_string())
    );
}

#[test]
fn sections_take_pattern_and_region() {
    let script = "SECTIONS {\n    .text : { *(.text.*) } > TEXT\n    .data : > DATA\n}\n";
    let linker = LinkerScript::from_str(script).unwrap();
    assert_eq!(linker.sections.len(), 2);
    assert_eq!(linker.sections[0].name, ".text");
    assert_eq!(linker.sections[0].input_pattern, "*(.text.*)");
    assert_eq!(linker.sections[0].memory_region, Some("TEXT".to_string()));
    assert_eq!(linker.sections[1].input_pattern, "*(.data)");
    assert_eq!(linker.sections[1].memory_region, Some("DATA".to_string()));
}

#[test]
fn decimal_lengths_and_comments() {
    let script = "# layout\n// regions\nMEMORY {\n  BSS : ORIGIN = 0x80500000, LENGTH = 4294967295\n}\n";
    let linker = LinkerScript::from_str(script).unwrap();
    let r = linker.memory_region("BSS").unwrap();
    assert_eq!(r.origin, 0x80500000);
    assert_eq!(r.length, 4294967295);
}

#[test]
fn invalid_address_is_an_error() {
    let script = "MEMORY {\n  TEXT : ORIGIN = 0xZZ, LENGTH = 1\n}\n";
    assert!(matches!(
        LinkerScript::from_str(script),
        Err(LinkerError::InvalidAddress)
    ));
}

#[test]
fn later_region_replaces_earlier() {
    let script = "MEMORY {\n  A : ORIGIN = 0x10, LENGTH = 0x20\n  A : ORIGIN = 0x30, LENGTH = 0x40\n}\n";
    let linker = LinkerScript::from_str(script).unwrap();
    assert_eq!(linker.memory.len(), 1);
    assert_eq!(linker.memory_region("A").unwrap().origin, 0x30);
}

#[test]
fn namespace_list_and_unmatched_symbol() {
    let script = "NAMESPACES {\n  \"os\" : {\n    pattern: \"OS?eport\",\n    module: \"os\",\n    namespace: [\"sys\", \"os\"]\n  }\n}\n";
    let linker = LinkerScript::from_str(script).unwrap();
    assert_eq!(linker.get_module_for_symbol("OSReport"), None);
    assert_eq!(linker.get_namespace_for_symbol("OSReport"), None);
    let script2 = "NAMESPACES {\n  \"os\" : {\n    pattern: \"OS*\",\n    module: \"os\",\n    namespace: [\"sys\", \"os\"]\n  }\n}\n";
    let linker2 = LinkerScript::from_str(script2).unwrap();
    assert_eq!(
        linker2.get_namespace_for_symbol("OSReport"),
        Some(vec!["sys".to_string(), "os".to_string()])
    );
    assert_eq!(linker2.get_module_for_symbol("GXInit"), None);
}

#[test]
fn exact_pattern_without_wildcard() {
    let script = "NAMESPACES {\n  \"m\" : {\n    pattern: \"main\",\n    module: \"entry\"\n  }\n}\n";
    let linker = LinkerScript::from_str(script).unwrap();
    assert_eq!(linker.get_module_for_symbol("main"), Some("entry".to_string()));
    assert_eq!(linker.get_module_for_symbol("mainloop"), None);
}

#[test]
fn unclosed_rule_name_is_reported() {
    let script = "NAMESPACES {\n  \"gx : {\n    pattern: \"GX*\",\n    module: \"gx\"\n  }\n}\n";
    assert!(LinkerScript::parse(script).is_none());
}

#[test]
fn regex_decision_follows_answer() {
    assert!(gcrecomp_core::linker::decide_match("GX*", "GXInit", Some(true)));
    assert!(!gcrecomp_core::linker::decide_match("GX*", "GXInit", Some(false)));
    assert!(gcrecomp_core::linker::decide_match("GX*", "GX*", None));
    assert!(!gcrecomp_core::linker::decide_match("GX", "GXInit", Some(true)));
}
