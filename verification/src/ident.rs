//! Component and capability identifiers.
//!
//! The extension is named by one fixed 128-bit component identifier, carried
//! both as a number (for instantiation requests) and as its canonical braced
//! hyphenated hexadecimal text (for configuration-store keys). Capability
//! queries name interfaces by 128-bit identifiers of the same shape.

use vstd::prelude::*;

verus! {

/// The fixed 128-bit identifier of this extension's implementation.
pub const COMPONENT_ID: u128 = 0x5AB29D2B_CC1D_45A2_AF6E_6853BF59909B;

/// The base capability every component object answers to.
pub const IID_UNKNOWN: u128 = 0x00000000_0000_0000_C000_000000000046;

/// The capability of manufacturing component instances.
pub const IID_CLASS_FACTORY: u128 = 0x00000001_0000_0000_C000_000000000046;

/// The capability of receiving a captured file selection.
pub const IID_SHELL_EXT_INIT: u128 = 0x000214E8_0000_0000_C000_000000000046;

/// The capability of contributing to and handling a context menu.
pub const IID_CONTEXT_MENU: u128 = 0x000214E4_0000_0000_C000_000000000046;

/// The canonical braced hyphenated hexadecimal text of [`COMPONENT_ID`].
pub open spec fn component_id_text() -> Seq<char> {
    "{5AB29D2B-CC1D-45A2-AF6E-6853BF59909B}"@
}

/// The component identifier in its configuration-store string form.
pub fn component_id_string() -> (r: String)
    ensures
        r@ == component_id_text(),
{
    "{5AB29D2B-CC1D-45A2-AF6E-6853BF59909B}".to_owned()
}

/// The upper-case hexadecimal digit of a value below sixteen.
pub open spec fn hex_digit(d: int) -> char {
    if d == 0 {
        '0'
    } else if d == 1 {
        '1'
    } else if d == 2 {
        '2'
    } else if d == 3 {
        '3'
    } else if d == 4 {
        '4'
    } else if d == 5 {
        '5'
    } else if d == 6 {
        '6'
    } else if d == 7 {
        '7'
    } else if d == 8 {
        '8'
    } else if d == 9 {
        '9'
    } else if d == 10 {
        'A'
    } else if d == 11 {
        'B'
    } else if d == 12 {
        'C'
    } else if d == 13 {
        'D'
    } else if d == 14 {
        'E'
    } else {
        'F'
    }
}

/// The last `digits` hexadecimal digits of `v`, most significant first.
pub open spec fn hex_text(v: int, digits: nat) -> Seq<char>
    decreases digits,
{
    if digits == 0 {
        Seq::empty()
    } else {
        hex_text(v / 16, (digits - 1) as nat).push(hex_digit(v % 16))
    }
}

/// The canonical braced hyphenated hexadecimal form of a 128-bit
/// identifier: its thirty-two digits with hyphens after the eighth,
/// twelfth, sixteenth and twentieth, in braces.
pub open spec fn braced_id_text(v: u128) -> Seq<char> {
    let digits = hex_text(v as int, 32);
    seq!['{'] + digits.subrange(0, 8) + seq!['-'] + digits.subrange(8, 12) + seq!['-']
        + digits.subrange(12, 16) + seq!['-'] + digits.subrange(16, 20) + seq!['-']
        + digits.subrange(20, 32) + seq!['}']
}

/// The component identifier's string form is exactly the canonical braced
/// hyphenated hexadecimal rendering of its 128-bit value: the two
/// compiled-in forms name the same identifier.
#[verifier::rlimit(100)]
pub proof fn lemma_component_id_text_matches_value()
    ensures
        component_id_text() == braced_id_text(COMPONENT_ID),
{
    let digits = hex_text(COMPONENT_ID as int, 32);
    assert(digits =~= seq![
        '5', 'A', 'B', '2', '9', 'D', '2', 'B', 'C', 'C', '1', 'D', '4', '5', 'A', '2',
        'A', 'F', '6', 'E', '6', '8', '5', '3', 'B', 'F', '5', '9', '9', '0', '9', 'B',
    ]) by {
        reveal_with_fuel(hex_text, 33);
    }
    reveal_strlit("{5AB29D2B-CC1D-45A2-AF6E-6853BF59909B}");
    assert(component_id_text() =~= braced_id_text(COMPONENT_ID));
}

} // verus!
