use vstd::prelude::*;

verus! {

/// The identity of one physical key, independent of modifiers.
#[derive(Clone, Copy, Debug, PartialEq, Eq, Structural)]
pub enum KeyCode {
    Backspace,
    Enter,
    Left,
    Right,
    Up,
    Down,
    Home,
    End,
    PageUp,
    PageDown,
    Tab,
    BackTab,
    Delete,
    Insert,
    /// A function key, numbered from 1 to 12.
    F(u8),
    /// A printable character.
    Char(char),
    Null,
    Esc,
}

/// A set over the three modifiers; each field says whether it is present.
#[derive(Clone, Copy, Debug, PartialEq, Eq, Structural)]
pub struct Modifiers {
    pub control: bool,
    pub alt: bool,
    pub shift: bool,
}

/// One key press: a key identity together with its modifier set.
#[derive(Clone, Copy, Debug, PartialEq, Eq, Structural)]
pub struct Key {
    pub key: KeyCode,
    pub modifiers: Modifiers,
}

pub open spec fn no_modifiers() -> Modifiers {
    Modifiers { control: false, alt: false, shift: false }
}

/// `m` with SHIFT added.
pub open spec fn with_shift(m: Modifiers) -> Modifiers {
    Modifiers { shift: true, ..m }
}

impl Modifiers {
    /// The empty modifier set.
    pub fn none() -> (r: Modifiers)
        ensures
            r == no_modifiers(),
    {
        Modifiers { control: false, alt: false, shift: false }
    }
}

/// Whether `c` has the Unicode `Uppercase` property.
pub uninterp spec fn is_upper(c: char) -> bool;

/// Whether `c` is an uppercase character: on ASCII exactly `'A'..='Z'`.
pub open spec fn uppercase_char(c: char) -> bool {
    if (c as u32) < 128 {
        'A' <= c <= 'Z'
    } else {
        is_upper(c)
    }
}

/// Relies on `char::is_uppercase`: `'A'..='Z'` are uppercase and no other
/// ASCII character is; beyond ASCII the answer depends on the character alone.
#[verifier::external_body]
pub(crate) fn uppercase(c: char) -> (r: bool)
    ensures
        r == uppercase_char(c),
        (c as u32) >= 128 ==> r == is_upper(c),
{
    c.is_uppercase()
}

/// The key for the literal character `c` under modifiers `m`: an uppercase
/// character always carries SHIFT, the character itself is kept as written.
pub open spec fn char_key(c: char, m: Modifiers) -> Key {
    Key { key: KeyCode::Char(c), modifiers: if uppercase_char(c) { with_shift(m) } else { m } }
}

/// Builds the key for the literal character `c` under modifiers `m`.
pub fn literal_key(c: char, m: Modifiers) -> (r: Key)
    ensures
        r == char_key(c, m),
{
    let modifiers = if uppercase(c) { Modifiers { shift: true, ..m } } else { m };
    Key { key: KeyCode::Char(c), modifiers }
}

} // verus!
