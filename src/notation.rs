use itertools::Itertools;
use vstd::prelude::*;

use crate::key::{char_key, literal_key, no_modifiers, Key, KeyCode, Modifiers};

verus! {

/// Why a notation string could not be parsed.
#[derive(Debug, PartialEq, Eq)]
pub enum ParseError {
    /// The notation string was empty.
    EmptyInput,
    /// A `<` has no matching `>`.
    UnterminatedChord,
    /// The name left in a chord after its modifiers is neither a named key nor
    /// a single character; `name` is that text and `chord` the whole chord.
    InvalidKeyName { name: Vec<char>, chord: Vec<char> },
}

/// The mathematical form of a [`ParseError`].
pub enum Failure {
    EmptyInput,
    UnterminatedChord,
    InvalidKeyName { name: Seq<char>, chord: Seq<char> },
}

impl View for ParseError {
    type V = Failure;

    open spec fn view(&self) -> Failure {
        match self {
            ParseError::EmptyInput => Failure::EmptyInput,
            ParseError::UnterminatedChord => Failure::UnterminatedChord,
            ParseError::InvalidKeyName { name, chord } => Failure::InvalidKeyName {
                name: name@,
                chord: chord@,
            },
        }
    }
}

/// The mathematical form of a result that carries a [`ParseError`].
pub open spec fn result_view<T>(r: Result<T, ParseError>) -> Result<T, Failure> {
    match r {
        Ok(v) => Ok(v),
        Err(e) => Err(e@),
    }
}

/// Whether `text` starts with one of the modifier prefixes `C-`, `A-`, `S-`.
pub open spec fn starts_with_modifier(text: Seq<char>) -> bool {
    &&& text.len() >= 2
    &&& text[1] == '-'
    &&& (text[0] == 'C' || text[0] == 'A' || text[0] == 'S')
}

/// `m` with the modifier that the prefix letter `letter` stands for.
pub open spec fn add_modifier(m: Modifiers, letter: char) -> Modifiers {
    if letter == 'C' {
        Modifiers { control: true, ..m }
    } else if letter == 'A' {
        Modifiers { alt: true, ..m }
    } else {
        Modifiers { shift: true, ..m }
    }
}

/// Strips the leading modifier prefixes of `text`, folding them into `m`:
/// the text that is left and the modifiers gathered.
pub open spec fn strip_modifiers(text: Seq<char>, m: Modifiers) -> (Seq<char>, Modifiers)
    decreases text.len(),
{
    if starts_with_modifier(text) {
        strip_modifiers(text.subrange(2, text.len() as int), add_modifier(m, text[0]))
    } else {
        (text, m)
    }
}

/// A name that is itself bracketed (`<lt>`) loses one level of brackets.
pub open spec fn unwrap_escape(name: Seq<char>) -> Seq<char> {
    if name.len() > 0 && name[0] == '<' {
        if name.len() >= 2 {
            name.subrange(1, name.len() - 1)
        } else {
            Seq::empty()
        }
    } else {
        name
    }
}

/// The fixed table of named keys; `shift` turns `Tab` into `BackTab`.
pub open spec fn named_key(name: Seq<char>, shift: bool) -> Option<KeyCode> {
    if name == seq!['B', 'S'] || name == seq!['B', 'a', 'c', 'k', 's', 'p', 'a', 'c', 'e'] {
        Some(KeyCode::Backspace)
    } else if name == seq!['T', 'a', 'b'] {
        Some(if shift { KeyCode::BackTab } else { KeyCode::Tab })
    } else if name == seq!['E', 'n', 't', 'e', 'r'] || name == seq!['C', 'R'] || name == seq![
        'R',
        'e',
        't',
        'u',
        'r',
        'n',
    ] {
        Some(KeyCode::Enter)
    } else if name == seq!['B', 's', 'l', 'a', 's', 'h'] {
        Some(KeyCode::Char('\\'))
    } else if name == seq!['B', 'a', 'r'] {
        Some(KeyCode::Char('|'))
    } else if name == seq!['l', 't'] {
        Some(KeyCode::Char('<'))
    } else if name == seq!['g', 't'] {
        Some(KeyCode::Char('>'))
    } else if name == seq!['L', 'e', 'f', 't'] {
        Some(KeyCode::Left)
    } else if name == seq!['R', 'i', 'g', 'h', 't'] {
        Some(KeyCode::Right)
    } else if name == seq!['U', 'p'] {
        Some(KeyCode::Up)
    } else if name == seq!['D', 'o', 'w', 'n'] {
        Some(KeyCode::Down)
    } else if name == seq!['H', 'o', 'm', 'e'] {
        Some(KeyCode::Home)
    } else if name == seq!['E', 'n', 'd'] {
        Some(KeyCode::End)
    } else if name == seq!['P', 'a', 'g', 'e', 'U', 'p'] {
        Some(KeyCode::PageUp)
    } else if name == seq!['P', 'a', 'g', 'e', 'D', 'o', 'w', 'n'] {
        Some(KeyCode::PageDown)
    } else if name == seq!['D', 'e', 'l'] {
        Some(KeyCode::Delete)
    } else if name == seq!['I', 'n', 's', 'e', 'r', 't'] {
        Some(KeyCode::Insert)
    } else if name == seq!['E', 's', 'c'] {
        Some(KeyCode::Esc)
    } else if name == seq!['S', 'p', 'a', 'c', 'e'] {
        Some(KeyCode::Char(' '))
    } else if name.len() == 2 && name[0] == 'F' && '1' <= name[1] <= '9' {
        Some(KeyCode::F((name[1] as u32 - '0' as u32) as u8))
    } else if name.len() == 3 && name[0] == 'F' && name[1] == '1' && '0' <= name[2] <= '2' {
        Some(KeyCode::F((10 + name[2] as u32 - '0' as u32) as u8))
    } else if name.len() == 0 {
        Some(KeyCode::Null)
    } else {
        None
    }
}

/// The key that a whole chord `<...>` denotes: modifier prefixes first, then
/// one escape level, then the named-key table, then a single character.
pub open spec fn chord_key(chord: Seq<char>) -> Result<Key, Failure> {
    let (rest, m) = strip_modifiers(chord.subrange(1, chord.len() - 1), no_modifiers());
    let name = unwrap_escape(rest);
    match named_key(name, m.shift) {
        Some(code) => Ok(Key { key: code, modifiers: m }),
        None => if name.len() == 1 {
            Ok(char_key(name[0], m))
        } else {
            Err(Failure::InvalidKeyName { name, chord })
        },
    }
}

/// Whether `chars[lo..hi]` is exactly `word`.
fn text_is(chars: &[char], lo: usize, hi: usize, word: &[char]) -> (r: bool)
    requires
        lo <= hi <= chars@.len(),
    ensures
        r == (chars@.subrange(lo as int, hi as int) == word@),
{
    if hi - lo != word.len() {
        proof {
            assert(chars@.subrange(lo as int, hi as int).len() != word@.len());
        }
        return false;
    }
    let mut i: usize = 0;
    while i < word.len()
        invariant
            lo <= hi <= chars@.len(),
            hi - lo == word@.len(),
            i <= word@.len(),
            forall|j: int| 0 <= j < i ==> chars@[lo + j] == word@[j],
        decreases word@.len() - i,
    {
        if chars[lo + i] != word[i] {
            proof {
                assert(chars@.subrange(lo as int, hi as int)[i as int] != word@[i as int]);
            }
            return false;
        }
        i = i + 1;
    }
    assert(chars@.subrange(lo as int, hi as int) =~= word@);
    true
}

/// Looks `chars[lo..hi]` up in the table of named keys.
fn lookup_named(chars: &[char], lo: usize, hi: usize, shift: bool) -> (r: Option<KeyCode>)
    requires
        lo <= hi <= chars@.len(),
    ensures
        r == named_key(chars@.subrange(lo as int, hi as int), shift),
{
    if text_is(chars, lo, hi, &['B', 'S']) || text_is(
        chars,
        lo,
        hi,
        &['B', 'a', 'c', 'k', 's', 'p', 'a', 'c', 'e'],
    ) {
        Some(KeyCode::Backspace)
    } else if text_is(chars, lo, hi, &['T', 'a', 'b']) {
        Some(
            if shift {
                KeyCode::BackTab
            } else {
                KeyCode::Tab
            },
        )
    } else if text_is(chars, lo, hi, &['E', 'n', 't', 'e', 'r']) || text_is(
        chars,
        lo,
        hi,
        &['C', 'R'],
    ) || text_is(chars, lo, hi, &['R', 'e', 't', 'u', 'r', 'n']) {
        Some(KeyCode::Enter)
    } else if text_is(chars, lo, hi, &['B', 's', 'l', 'a', 's', 'h']) {
        Some(KeyCode::Char('\\'))
    } else if text_is(chars, lo, hi, &['B', 'a', 'r']) {
        Some(KeyCode::Char('|'))
    } else if text_is(chars, lo, hi, &['l', 't']) {
        Some(KeyCode::Char('<'))
    } else if text_is(chars, lo, hi, &['g', 't']) {
        Some(KeyCode::Char('>'))
    } else if text_is(chars, lo, hi, &['L', 'e', 'f', 't']) {
        Some(KeyCode::Left)
    } else if text_is(chars, lo, hi, &['R', 'i', 'g', 'h', 't']) {
        Some(KeyCode::Right)
    } else if text_is(chars, lo, hi, &['U', 'p']) {
        Some(KeyCode::Up)
    } else if text_is(chars, lo, hi, &['D', 'o', 'w', 'n']) {
        Some(KeyCode::Down)
    } else if text_is(chars, lo, hi, &['H', 'o', 'm', 'e']) {
        Some(KeyCode::Home)
    } else if text_is(chars, lo, hi, &['E', 'n', 'd']) {
        Some(KeyCode::End)
    } else if text_is(chars, lo, hi, &['P', 'a', 'g', 'e', 'U', 'p']) {
        Some(KeyCode::PageUp)
    } else if text_is(chars, lo, hi, &['P', 'a', 'g', 'e', 'D', 'o', 'w', 'n']) {
        Some(KeyCode::PageDown)
    } else if text_is(chars, lo, hi, &['D', 'e', 'l']) {
        Some(KeyCode::Delete)
    } else if text_is(chars, lo, hi, &['I', 'n', 's', 'e', 'r', 't']) {
        Some(KeyCode::Insert)
    } else if text_is(chars, lo, hi, &['E', 's', 'c']) {
        Some(KeyCode::Esc)
    } else if text_is(chars, lo, hi, &['S', 'p', 'a', 'c', 'e']) {
        Some(KeyCode::Char(' '))
    } else if hi - lo == 2 && chars[lo] == 'F' && '1' <= chars[lo + 1] && chars[lo + 1] <= '9' {
        Some(KeyCode::F((chars[lo + 1] as u32 - '0' as u32) as u8))
    } else if hi - lo == 3 && chars[lo] == 'F' && chars[lo + 1] == '1' && '0' <= chars[lo + 2]
        && chars[lo + 2] <= '2' {
        Some(KeyCode::F((10 + chars[lo + 2] as u32 - '0' as u32) as u8))
    } else if hi == lo {
        Some(KeyCode::Null)
    } else {
        None
    }
}

/// A copy of `chars[lo..hi]`.
fn copy_range(chars: &[char], lo: usize, hi: usize) -> (r: Vec<char>)
    requires
        lo <= hi <= chars@.len(),
    ensures
        r@ == chars@.subrange(lo as int, hi as int),
{
    let mut out: Vec<char> = Vec::new();
    let mut i: usize = lo;
    while i < hi
        invariant
            lo <= i <= hi <= chars@.len(),
            out@ == chars@.subrange(lo as int, i as int),
        decreases hi - i,
    {
        out.push(chars[i]);
        i = i + 1;
        assert(out@ =~= chars@.subrange(lo as int, i as int));
    }
    out
}

/// Resolves one chord, given with its outer brackets, into the key it denotes.
pub fn chord_to_key(chars: &[char]) -> (r: Result<Key, ParseError>)
    requires
        chars@.len() >= 2,
    ensures
        result_view(r) == chord_key(chars@),
{
    let ghost inner = chars@.subrange(1, chars@.len() - 1);
    let hi: usize = chars.len() - 1;
    let mut idx: usize = 1;
    let mut modifiers = Modifiers::none();
    while hi - idx >= 2 && chars[idx + 1] == '-' && (chars[idx] == 'C' || chars[idx] == 'A'
        || chars[idx] == 'S')
        invariant
            hi == chars@.len() - 1,
            1 <= idx <= hi,
            strip_modifiers(chars@.subrange(idx as int, hi as int), modifiers) == strip_modifiers(
                inner,
                no_modifiers(),
            ),
        decreases hi - idx,
    {
        let ghost before = chars@.subrange(idx as int, hi as int);
        assert(starts_with_modifier(before));
        if chars[idx] == 'C' {
            modifiers = Modifiers { control: true, ..modifiers };
        } else if chars[idx] == 'A' {
            modifiers = Modifiers { alt: true, ..modifiers };
        } else {
            modifiers = Modifiers { shift: true, ..modifiers };
        }
        idx = idx + 2;
        assert(before.subrange(2, before.len() as int) =~= chars@.subrange(idx as int, hi as int));
    }
    let ghost rest = chars@.subrange(idx as int, hi as int);
    assert(!starts_with_modifier(rest));
    assert(strip_modifiers(inner, no_modifiers()) == (rest, modifiers));
    let mut lo: usize = idx;
    let mut end: usize = hi;
    if idx < hi && chars[idx] == '<' {
        lo = idx + 1;
        end = if hi - idx >= 2 {
            hi - 1
        } else {
            idx + 1
        };
    }
    assert(chars@.subrange(lo as int, end as int) =~= unwrap_escape(rest));
    assert(chars@.subrange(0, chars@.len() as int) =~= chars@);
    match lookup_named(chars, lo, end, modifiers.shift) {
        Some(code) => Ok(Key { key: code, modifiers }),
        None => {
            if end - lo == 1 {
                Ok(literal_key(chars[lo], modifiers))
            } else {
                Err(
                    ParseError::InvalidKeyName {
                        name: copy_range(chars, lo, end),
                        chord: copy_range(chars, 0, chars.len()),
                    },
                )
            }
        },
    }
}

/// The position of the `>` that closes a chord, scanning `s` from `i` with
/// `depth` brackets open: each `<` opens one more, each `>` closes one.
pub open spec fn matching_close(s: Seq<char>, i: int, depth: int) -> Option<int>
    decreases s.len() - i,
{
    if i < 0 || i >= s.len() {
        None
    } else if s[i] == '>' {
        if depth <= 1 {
            Some(i)
        } else {
            matching_close(s, i + 1, depth - 1)
        }
    } else if s[i] == '<' {
        matching_close(s, i + 1, depth + 1)
    } else {
        matching_close(s, i + 1, depth)
    }
}

/// A closing bracket, when found, lies at or after where the scan began.
proof fn lemma_close_in_range(s: Seq<char>, i: int, depth: int)
    ensures
        matching_close(s, i, depth) matches Some(j) ==> 0 <= i <= j < s.len(),
    decreases s.len() - i,
{
    if 0 <= i < s.len() {
        lemma_close_in_range(s, i + 1, depth - 1);
        lemma_close_in_range(s, i + 1, depth + 1);
        lemma_close_in_range(s, i + 1, depth);
    }
}

/// Keys `ks` put in front of a parse result; an error stays as it is.
pub open spec fn prepend(ks: Seq<Key>, r: Result<Seq<Key>, Failure>) -> Result<Seq<Key>, Failure> {
    match r {
        Ok(rest) => Ok(ks + rest),
        Err(e) => Err(e),
    }
}

/// The keys denoted by `s` from position `i` on, one per token, in order; the
/// first malformed token, from the left, decides the error.
pub open spec fn parse_from(s: Seq<char>, i: int) -> Result<Seq<Key>, Failure>
    decreases s.len() - i,
{
    if i < 0 || i >= s.len() {
        Ok(Seq::empty())
    } else if s[i] == '<' {
        match matching_close(s, i + 1, 1) {
            None => Err(Failure::UnterminatedChord),
            Some(j) => if i < j < s.len() {
                match chord_key(s.subrange(i, j + 1)) {
                    Err(e) => Err(e),
                    Ok(k) => prepend(seq![k], parse_from(s, j + 1)),
                }
            } else {
                // never taken: a closing bracket lies after its opening one
                Err(Failure::UnterminatedChord)
            },
        }
    } else {
        prepend(seq![char_key(s[i], no_modifiers())], parse_from(s, i + 1))
    }
}

/// The keys that the notation string `s` denotes.
pub open spec fn parse_notation(s: Seq<char>) -> Result<Seq<Key>, Failure> {
    if s.len() == 0 {
        Err(Failure::EmptyInput)
    } else {
        parse_from(s, 0)
    }
}

/// The mathematical form of a parse result.
pub open spec fn keys_view(r: Result<Vec<Key>, ParseError>) -> Result<Seq<Key>, Failure> {
    match r {
        Ok(v) => Ok(v@),
        Err(e) => Err(e@),
    }
}

/// Relies on `Itertools::collect_vec` over `str::chars`: the characters of
/// `s`, in order.
#[verifier::external_body]
fn chars_of(s: &str) -> (r: Vec<char>)
    ensures
        r@ == s@,
{
    s.chars().collect_vec()
}

/// A left-to-right scanner over the characters of a notation string.
pub struct Parser {
    /// The position of the next character to read.
    pub idx: usize,
    /// Where the chord last scanned begins.
    pub start: usize,
    /// The characters of the notation string.
    pub input: Vec<char>,
}

impl Parser {
    /// A scanner at the start of `input`; the empty string is refused.
    pub fn new(input: &str) -> (r: Result<Parser, ParseError>)
        ensures
            input@.len() == 0 ==> r == Err::<Parser, ParseError>(ParseError::EmptyInput),
            input@.len() > 0 ==> r is Ok && r->Ok_0.input@ == input@ && r->Ok_0.idx == 0
                && r->Ok_0.start == 0,
    {
        if input.is_empty() {
            return Err(ParseError::EmptyInput);
        }
        Ok(Parser { idx: 0, start: 0, input: chars_of(input) })
    }

    /// Finds the chord that opens at the cursor: its first and last positions.
    /// The cursor is left on the closing `>`.
    pub fn chord(&mut self) -> (r: Result<(usize, usize), ParseError>)
        requires
            old(self).idx < old(self).input@.len(),
            old(self).input@[old(self).idx as int] == '<',
        ensures
            final(self).input@ == old(self).input@,
            final(self).start == old(self).idx,
            match matching_close(old(self).input@, old(self).idx + 1, 1) {
                None => r == Err::<(usize, usize), ParseError>(ParseError::UnterminatedChord)
                    && final(self).idx == old(self).idx,
                Some(j) => r == Ok::<(usize, usize), ParseError>((old(self).idx, j as usize))
                    && final(self).idx == j,
            },
    {
        let ghost s = self.input@;
        let start = self.idx;
        let n = self.input.len();
        assert(start < n);
        self.start = start;
        let mut depth: usize = 1;
        let mut i: usize = start + 1;
        while i < self.input.len()
            invariant
                s == old(self).input@,
                start == old(self).idx,
                self.input@ == s,
                self.idx == start,
                self.start == start,
                start < i <= s.len(),
                1 <= depth <= i - start,
                matching_close(s, i as int, depth as int) == matching_close(s, start + 1, 1),
            decreases s.len() - i,
        {
            let c = self.input[i];
            if c == '>' {
                if depth == 1 {
                    self.idx = i;
                    return Ok((start, i));
                }
                depth = depth - 1;
            } else if c == '<' {
                depth = depth + 1;
            }
            i = i + 1;
        }
        Err(ParseError::UnterminatedChord)
    }

    /// Reads every token from the cursor to the end of the input, each into
    /// one key, in order.
    pub fn parse(&mut self) -> (r: Result<Vec<Key>, ParseError>)
        ensures
            final(self).input@ == old(self).input@,
            keys_view(r) == parse_from(old(self).input@, old(self).idx as int),
            r is Ok && old(self).idx <= old(self).input@.len() ==> final(self).idx
                == final(self).input@.len(),
    {
        let ghost s = self.input@;
        let ghost first = self.idx as int;
        let mut seq: Vec<Key> = Vec::new();
        while self.idx < self.input.len()
            invariant
                s == old(self).input@,
                first == old(self).idx,
                self.input@ == s,
                first <= s.len() ==> self.idx <= s.len(),
                parse_from(s, first) == prepend(seq@, parse_from(s, self.idx as int)),
            decreases s.len() - self.idx,
        {
            let ghost here = self.idx as int;
            let c = self.input[self.idx];
            let key = if c == '<' {
                match self.chord() {
                    Err(e) => {
                        return Err(e);
                    },
                    Ok((a, b)) => {
                        proof {
                            lemma_close_in_range(s, here + 1, 1);
                        }
                        match chord_to_key(&self.input.as_slice()[a..b + 1]) {
                            Err(e) => {
                                return Err(e);
                            },
                            Ok(k) => k,
                        }
                    },
                }
            } else {
                literal_key(c, Modifiers::none())
            };
            let ghost before = seq@;
            seq.push(key);
            self.idx = self.idx + 1;
            proof {
                let tail = parse_from(s, self.idx as int);
                assert(parse_from(s, here) == prepend(seq![key], tail));
                match tail {
                    Ok(rest) => {
                        assert(before + (seq![key] + rest) =~= seq@ + rest);
                    },
                    Err(_) => {},
                }
            }
        }
        assert(seq@ + Seq::<Key>::empty() =~= seq@);
        Ok(seq)
    }
}

/// Parses a whole notation string into the keys it denotes.
pub fn parse_keys(input: &str) -> (r: Result<Vec<Key>, ParseError>)
    ensures
        keys_view(r) == parse_notation(input@),
{
    match Parser::new(input) {
        Err(e) => Err(e),
        Ok(mut parser) => parser.parse(),
    }
}

} // verus!
