use genvm::wasm_pass::{appends_name_section, custom_section_action, payload_accepted, CustomAction, PayloadKind};

#[test]
fn custom_sections() {
    assert_eq!(custom_section_action(true, "name"), CustomAction::ReplaceNames);
    assert_eq!(custom_section_action(false, ".debug_info"), CustomAction::Drop);
    assert_eq!(custom_section_action(false, "producers"), CustomAction::Drop);
    assert_eq!(custom_section_action(false, "producers2"), CustomAction::Keep);
    assert_eq!(custom_section_action(false, "target_features"), CustomAction::Keep);
    assert!(appends_name_section(false));
    assert!(!appends_name_section(true));
}

#[test]
fn payloads() {
    assert!(payload_accepted(PayloadKind::ModuleHeader));
    assert!(payload_accepted(PayloadKind::CodeEntry));
    assert!(payload_accepted(PayloadKind::Custom));
    assert!(!payload_accepted(PayloadKind::OtherHeader));
    assert!(!payload_accepted(PayloadKind::ComponentOnly));
}
