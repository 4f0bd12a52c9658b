use vstd::prelude::*;

verus! {

/// The kinds of payload that a wasm binary is read as, section by section.
#[derive(Clone, Copy, PartialEq, Eq, Debug, Structural)]
pub enum PayloadKind {
    /// The header of a core module.
    ModuleHeader,
    /// The header of anything else (a component).
    OtherHeader,
    Type,
    Import,
    Function,
    Table,
    Memory,
    Tag,
    Global,
    Export,
    Start,
    Element,
    DataCount,
    Data,
    CodeStart,
    CodeEntry,
    /// Any section that only a component can hold.
    ComponentOnly,
    Custom,
    Unknown,
    End,
}

/// Both wasm passes take core modules only: a component's header or one of its sections ends
/// the pass with an error.
pub open spec fn spec_payload_accepted(k: PayloadKind) -> bool {
    !(k is OtherHeader || k is ComponentOnly)
}

/// Whether a pass goes on past a payload of kind `k`.
pub fn payload_accepted(k: PayloadKind) -> (r: bool)
    ensures
        r == spec_payload_accepted(k),
{
    match k {
        PayloadKind::OtherHeader | PayloadKind::ComponentOnly => false,
        _ => true,
    }
}

/// What the module-naming pass does with a custom section.
#[derive(Clone, Copy, PartialEq, Eq, Debug, Structural)]
pub enum CustomAction {
    /// Write a name section that holds only the new module name in its place.
    ReplaceNames,
    /// Leave it out.
    Drop,
    /// Copy it as it is.
    Keep,
}

/// The action for a custom section named `name`: the name section is replaced, debug
/// information (`.debug_*`) and the producers section are dropped, the rest is kept.
pub open spec fn spec_custom_action(is_name_section: bool, name: Seq<char>) -> CustomAction {
    if is_name_section {
        CustomAction::ReplaceNames
    } else if (".debug_"@.len() <= name.len() && name.subrange(0, ".debug_"@.len() as int)
        == ".debug_"@) || name == "producers"@ {
        CustomAction::Drop
    } else {
        CustomAction::Keep
    }
}

/// The action for a custom section named `name`, which the reader recognised as the name section
/// when `is_name_section`.
pub fn custom_section_action(is_name_section: bool, name: &str) -> (r: CustomAction)
    ensures
        r == spec_custom_action(is_name_section, name@),
{
    if is_name_section {
        CustomAction::ReplaceNames
    } else if crate::text::starts_with_str(name, ".debug_") || crate::text::str_equal(
        name,
        "producers",
    ) {
        CustomAction::Drop
    } else {
        CustomAction::Keep
    }
}

/// Whether the module-naming pass appends a name section at the end: only when the module had
/// none to replace, so that the result always names the module once.
pub fn appends_name_section(saw_name_section: bool) -> (r: bool)
    ensures
        r == !saw_name_section,
{
    !saw_name_section
}

} // verus!
