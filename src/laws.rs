use vstd::prelude::*;

use crate::key::{char_key, no_modifiers, uppercase_char, Key, KeyCode, Modifiers};
use crate::notation::{matching_close, parse_from, parse_notation, Failure};

verus! {

/// A single character other than `<` is one key: that character, with only
/// the SHIFT that an uppercase character carries.
pub proof fn lemma_single_character(c: char)
    requires
        c != '<',
    ensures
        parse_notation(seq![c]) == Ok::<Seq<Key>, Failure>(seq![char_key(c, no_modifiers())]),
{
    let s = seq![c];
    assert(parse_from(s, 1) == Ok::<Seq<Key>, Failure>(Seq::empty()));
    assert(seq![char_key(c, no_modifiers())] + Seq::<Key>::empty() =~= seq![
        char_key(c, no_modifiers()),
    ]);
}

/// An uppercase letter on its own is one key: the letter as written, with
/// SHIFT and no other modifier.
pub proof fn lemma_uppercase_letter(c: char)
    requires
        uppercase_char(c),
    ensures
        parse_notation(seq![c]) == Ok::<Seq<Key>, Failure>(
            seq![
                Key {
                    key: KeyCode::Char(c),
                    modifiers: Modifiers { control: false, alt: false, shift: true },
                },
            ],
        ),
{
    lemma_single_character(c);
}

/// Any other character on its own (a lowercase letter, a digit, punctuation
/// but `<`) is one key: the character, with no modifier.
pub proof fn lemma_plain_character(c: char)
    requires
        !uppercase_char(c),
        c != '<',
    ensures
        parse_notation(seq![c]) == Ok::<Seq<Key>, Failure>(
            seq![Key { key: KeyCode::Char(c), modifiers: no_modifiers() }],
        ),
{
    lemma_single_character(c);
}

/// No `>` after position `i` leaves a chord opened there without its end.
proof fn lemma_no_close(s: Seq<char>, i: int, depth: int)
    requires
        0 <= i,
        forall|k: int| i <= k < s.len() ==> s[k] != '>',
    ensures
        matching_close(s, i, depth) is None,
    decreases s.len() - i,
{
    if i < s.len() {
        lemma_no_close(s, i + 1, depth - 1);
        lemma_no_close(s, i + 1, depth + 1);
        lemma_no_close(s, i + 1, depth);
    }
}

/// A notation that opens a chord and never writes `>` fails as an
/// unterminated chord.
pub proof fn lemma_unterminated_chord(s: Seq<char>)
    requires
        s.len() > 0,
        s[0] == '<',
        forall|k: int| 0 <= k < s.len() ==> s[k] != '>',
    ensures
        parse_notation(s) == Err::<Seq<Key>, Failure>(Failure::UnterminatedChord),
{
    lemma_no_close(s, 1, 1);
}

} // verus!
