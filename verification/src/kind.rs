//! The element classifier: which kind of body each element ID declares.

use vstd::prelude::*;

verus! {

/// The kinds of body an element can declare.
#[derive(Debug, Clone, Copy, PartialEq, Eq, Hash, Structural)]
pub enum Kind {
    /// A sequence of child elements.
    Master,
    /// A signed integer.
    Int,
    /// An unsigned integer.
    UInt,
    /// A string that the format restricts to ASCII.
    String,
    /// A Unicode string.
    UTF8,
    /// Opaque bytes.
    Binary,
    /// A floating-point number.
    Float,
    /// An absolute timestamp.
    Date,
}

/// The one ID whose body is a date.
pub const DATE_ID: u32 = 0x4461;

/// The IDs whose bodies are master elements.
pub open spec fn master_ids() -> Set<u32> {
    Set::new(
        |id: u32|
            id == 0x80 || id == 0x8E || id == 0x8F || id == 0xA0 || id == 0xA6 || id == 0xAE ||
            id == 0xB6 || id == 0xB7 || id == 0xBB || id == 0xC8 || id == 0xDB || id == 0xE0 ||
            id == 0xE1 || id == 0xE2 || id == 0xE3 || id == 0xE4 || id == 0xE8 || id == 0xE9 ||
            id == 0x45B9 || id == 0x4DBB || id == 0x5034 || id == 0x5035 || id == 0x55B0 ||
            id == 0x55D0 || id == 0x5854 || id == 0x61A7 || id == 0x6240 || id == 0x63C0 ||
            id == 0x6624 || id == 0x67C8 || id == 0x6911 || id == 0x6924 || id == 0x6944 ||
            id == 0x6D80 || id == 0x7373 || id == 0x75A1 || id == 0x7E5B || id == 0x7E7B ||
            id == 0x1043_A770 || id == 0x114D_9B74 || id == 0x1254_C367 || id == 0x1549_A966 ||
            id == 0x1654_AE6B || id == 0x1853_8067 || id == 0x1941_A469 || id == 0x1A45_DFA3 ||
            id == 0x1B53_8667 || id == 0x1C53_BB6B || id == 0x1F43_B675,
    )
}

/// The IDs whose bodies are signed integers.
pub open spec fn int_ids() -> Set<u32> {
    Set::new(
        |id: u32|
            id == 0xFB || id == 0xFD || id == 0x537F || id == 0x75A2,
    )
}

/// The IDs whose bodies are unsigned integers.
pub open spec fn uint_ids() -> Set<u32> {
    Set::new(
        |id: u32|
            id == 0x83 || id == 0x88 || id == 0x89 || id == 0x91 || id == 0x92 || id == 0x96 ||
            id == 0x97 || id == 0x98 || id == 0x9A || id == 0x9B || id == 0x9C || id == 0x9D ||
            id == 0x9F || id == 0xA7 || id == 0xAA || id == 0xAB || id == 0xB0 || id == 0xB2 ||
            id == 0xB3 || id == 0xB9 || id == 0xBA || id == 0xC0 || id == 0xC6 || id == 0xC7 ||
            id == 0xC9 || id == 0xCA || id == 0xCB || id == 0xCC || id == 0xCD || id == 0xCE ||
            id == 0xCF || id == 0xD7 || id == 0xE5 || id == 0xE6 || id == 0xE7 || id == 0xEA ||
            id == 0xEB || id == 0xED || id == 0xEE || id == 0xF0 || id == 0xF1 || id == 0xF7 ||
            id == 0xFA || id == 0x4254 || id == 0x4285 || id == 0x4286 || id == 0x4287 ||
            id == 0x42F2 || id == 0x42F3 || id == 0x42F7 || id == 0x4484 || id == 0x4598 ||
            id == 0x45BC || id == 0x45BD || id == 0x45DB || id == 0x45DD || id == 0x4661 ||
            id == 0x4662 || id == 0x46AE || id == 0x47E1 || id == 0x47E5 || id == 0x47E6 ||
            id == 0x5031 || id == 0x5032 || id == 0x5033 || id == 0x535F || id == 0x5378 ||
            id == 0x53AC || id == 0x53B8 || id == 0x53B9 || id == 0x53C0 || id == 0x54AA ||
            id == 0x54B0 || id == 0x54B2 || id == 0x54B3 || id == 0x54BA || id == 0x54BB ||
            id == 0x54CC || id == 0x54DD || id == 0x55AA || id == 0x55B1 || id == 0x55B2 ||
            id == 0x55B3 || id == 0x55B4 || id == 0x55B5 || id == 0x55B6 || id == 0x55B7 ||
            id == 0x55B8 || id == 0x55B9 || id == 0x55BA || id == 0x55BB || id == 0x55BC ||
            id == 0x55BD || id == 0x55EE || id == 0x56AA || id == 0x56BB || id == 0x58D7 ||
            id == 0x6264 || id == 0x63C3 || id == 0x63C4 || id == 0x63C5 || id == 0x63C6 ||
            id == 0x63C9 || id == 0x66BF || id == 0x66FC || id == 0x68CA || id == 0x6922 ||
            id == 0x6955 || id == 0x69BF || id == 0x69FC || id == 0x6DE7 || id == 0x6DF8 ||
            id == 0x6EBC || id == 0x6FAB || id == 0x73C4 || id == 0x73C5 || id == 0x7446 ||
            id == 0x7E8A || id == 0x7E9A || id == 0x23_4E7A || id == 0x23_E383 ||
            id == 0x2A_D7B1,
    )
}

/// The IDs whose bodies are ASCII strings.
pub open spec fn string_ids() -> Set<u32> {
    Set::new(
        |id: u32|
            id == 0x86 || id == 0x4282 || id == 0x437C || id == 0x437D || id == 0x437E ||
            id == 0x447A || id == 0x447B || id == 0x4660 || id == 0x63CA || id == 0x22_B59C ||
            id == 0x22_B59D || id == 0x26_B240 || id == 0x3B_4040,
    )
}

/// The IDs whose bodies are Unicode strings.
pub open spec fn utf8_ids() -> Set<u32> {
    Set::new(
        |id: u32|
            id == 0x85 || id == 0x4487 || id == 0x45A3 || id == 0x466E || id == 0x467E ||
            id == 0x4D80 || id == 0x536E || id == 0x5654 || id == 0x5741 || id == 0x7384 ||
            id == 0x7BA9 || id == 0x25_8688 || id == 0x3A_9697 || id == 0x3C_83AB ||
            id == 0x3E_83BB,
    )
}

/// The IDs whose bodies are opaque bytes.
pub open spec fn binary_ids() -> Set<u32> {
    Set::new(
        |id: u32|
            id == 0xA1 || id == 0xA2 || id == 0xA3 || id == 0xA4 || id == 0xA5 || id == 0xAF ||
            id == 0xBF || id == 0xC1 || id == 0xC4 || id == 0xEC || id == 0x4255 ||
            id == 0x4444 || id == 0x4485 || id == 0x450D || id == 0x465C || id == 0x4675 ||
            id == 0x47E2 || id == 0x47E3 || id == 0x47E4 || id == 0x53AB || id == 0x63A2 ||
            id == 0x6532 || id == 0x66A5 || id == 0x6933 || id == 0x69A5 || id == 0x6E67 ||
            id == 0x73A4 || id == 0x7D7B || id == 0x7EA5 || id == 0x7EB5 || id == 0x2E_B524 ||
            id == 0x3C_B923 || id == 0x3E_B923,
    )
}

/// The IDs whose bodies are floating-point numbers.
pub open spec fn float_ids() -> Set<u32> {
    Set::new(
        |id: u32|
            id == 0xB5 || id == 0x4489 || id == 0x55D1 || id == 0x55D2 || id == 0x55D3 ||
            id == 0x55D4 || id == 0x55D5 || id == 0x55D6 || id == 0x55D7 || id == 0x55D8 ||
            id == 0x55D9 || id == 0x55DA || id == 0x78B5 || id == 0x23_314F ||
            id == 0x23_83E3 || id == 0x2F_B523,
    )
}

/// The kind of body that `id` declares. An ID that no set holds is read as
/// opaque bytes, so that unknown elements are kept and never fail a parse.
pub open spec fn kind_of(id: u32) -> Kind {
    if master_ids().contains(id) {
        Kind::Master
    } else if int_ids().contains(id) {
        Kind::Int
    } else if uint_ids().contains(id) {
        Kind::UInt
    } else if string_ids().contains(id) {
        Kind::String
    } else if utf8_ids().contains(id) {
        Kind::UTF8
    } else if binary_ids().contains(id) {
        Kind::Binary
    } else if float_ids().contains(id) {
        Kind::Float
    } else if id == DATE_ID {
        Kind::Date
    } else {
        Kind::Binary
    }
}

/// Classifies an element ID.
pub fn classify(id: u32) -> (kind: Kind)
    ensures
        kind == kind_of(id),
{
    match id {
        0x80 | 0x8E | 0x8F | 0xA0 | 0xA6 | 0xAE | 0xB6 | 0xB7 | 0xBB | 0xC8 | 0xDB | 0xE0 |
        0xE1 | 0xE2 | 0xE3 | 0xE4 | 0xE8 | 0xE9 | 0x45B9 | 0x4DBB | 0x5034 | 0x5035 | 0x55B0 |
        0x55D0 | 0x5854 | 0x61A7 | 0x6240 | 0x63C0 | 0x6624 | 0x67C8 | 0x6911 | 0x6924 |
        0x6944 | 0x6D80 | 0x7373 | 0x75A1 | 0x7E5B | 0x7E7B | 0x1043_A770 | 0x114D_9B74 |
        0x1254_C367 | 0x1549_A966 | 0x1654_AE6B | 0x1853_8067 | 0x1941_A469 | 0x1A45_DFA3 |
        0x1B53_8667 | 0x1C53_BB6B | 0x1F43_B675 => Kind::Master,
        0xFB | 0xFD | 0x537F | 0x75A2 => Kind::Int,
        0x83 | 0x88 | 0x89 | 0x91 | 0x92 | 0x96 | 0x97 | 0x98 | 0x9A | 0x9B | 0x9C | 0x9D |
        0x9F | 0xA7 | 0xAA | 0xAB | 0xB0 | 0xB2 | 0xB3 | 0xB9 | 0xBA | 0xC0 | 0xC6 | 0xC7 |
        0xC9 | 0xCA | 0xCB | 0xCC | 0xCD | 0xCE | 0xCF | 0xD7 | 0xE5 | 0xE6 | 0xE7 | 0xEA |
        0xEB | 0xED | 0xEE | 0xF0 | 0xF1 | 0xF7 | 0xFA | 0x4254 | 0x4285 | 0x4286 | 0x4287 |
        0x42F2 | 0x42F3 | 0x42F7 | 0x4484 | 0x4598 | 0x45BC | 0x45BD | 0x45DB | 0x45DD |
        0x4661 | 0x4662 | 0x46AE | 0x47E1 | 0x47E5 | 0x47E6 | 0x5031 | 0x5032 | 0x5033 |
        0x535F | 0x5378 | 0x53AC | 0x53B8 | 0x53B9 | 0x53C0 | 0x54AA | 0x54B0 | 0x54B2 |
        0x54B3 | 0x54BA | 0x54BB | 0x54CC | 0x54DD | 0x55AA | 0x55B1 | 0x55B2 | 0x55B3 |
        0x55B4 | 0x55B5 | 0x55B6 | 0x55B7 | 0x55B8 | 0x55B9 | 0x55BA | 0x55BB | 0x55BC |
        0x55BD | 0x55EE | 0x56AA | 0x56BB | 0x58D7 | 0x6264 | 0x63C3 | 0x63C4 | 0x63C5 |
        0x63C6 | 0x63C9 | 0x66BF | 0x66FC | 0x68CA | 0x6922 | 0x6955 | 0x69BF | 0x69FC |
        0x6DE7 | 0x6DF8 | 0x6EBC | 0x6FAB | 0x73C4 | 0x73C5 | 0x7446 | 0x7E8A | 0x7E9A |
        0x23_4E7A | 0x23_E383 | 0x2A_D7B1 => Kind::UInt,
        0x86 | 0x4282 | 0x437C | 0x437D | 0x437E | 0x447A | 0x447B | 0x4660 | 0x63CA |
        0x22_B59C | 0x22_B59D | 0x26_B240 | 0x3B_4040 => Kind::String,
        0x85 | 0x4487 | 0x45A3 | 0x466E | 0x467E | 0x4D80 | 0x536E | 0x5654 | 0x5741 | 0x7384 |
        0x7BA9 | 0x25_8688 | 0x3A_9697 | 0x3C_83AB | 0x3E_83BB => Kind::UTF8,
        0xA1 | 0xA2 | 0xA3 | 0xA4 | 0xA5 | 0xAF | 0xBF | 0xC1 | 0xC4 | 0xEC | 0x4255 | 0x4444 |
        0x4485 | 0x450D | 0x465C | 0x4675 | 0x47E2 | 0x47E3 | 0x47E4 | 0x53AB | 0x63A2 |
        0x6532 | 0x66A5 | 0x6933 | 0x69A5 | 0x6E67 | 0x73A4 | 0x7D7B | 0x7EA5 | 0x7EB5 |
        0x2E_B524 | 0x3C_B923 | 0x3E_B923 => Kind::Binary,
        0xB5 | 0x4489 | 0x55D1 | 0x55D2 | 0x55D3 | 0x55D4 | 0x55D5 | 0x55D6 | 0x55D7 | 0x55D8 |
        0x55D9 | 0x55DA | 0x78B5 | 0x23_314F | 0x23_83E3 | 0x2F_B523 => Kind::Float,
        DATE_ID => Kind::Date,
        _ => Kind::Binary,
    }
}

} // verus!
