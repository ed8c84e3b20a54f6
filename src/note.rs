//! The note engine: the twelve-tone chromatic table and transposition over it.
use vstd::prelude::*;

use crate::ast::Accidental;
use crate::text::push_char;

verus! {

/// Letter of the chromatic table entry at position `i` (0..12).
pub open spec fn pitch_letter(i: int) -> char {
    if i <= 1 {
        'c'
    } else if i <= 3 {
        'd'
    } else if i == 4 {
        'e'
    } else if i <= 6 {
        'f'
    } else if i <= 8 {
        'g'
    } else if i <= 10 {
        'a'
    } else {
        'b'
    }
}

/// Whether the chromatic table entry at position `i` carries the sharp marker.
pub open spec fn pitch_is_sharp(i: int) -> bool {
    i == 1 || i == 3 || i == 6 || i == 8 || i == 10
}

/// The chromatic table `c, c+, d, d+, e, f, f+, g, g+, a, a+, b`, entry `i`.
pub open spec fn pitch_name(i: int) -> Seq<char> {
    if pitch_is_sharp(i) {
        seq![pitch_letter(i), '+']
    } else {
        seq![pitch_letter(i)]
    }
}

/// Position of a lowercase natural letter in the chromatic table.
pub open spec fn natural_offset(c: char) -> int {
    if c == 'c' {
        0
    } else if c == 'd' {
        2
    } else if c == 'e' {
        4
    } else if c == 'f' {
        5
    } else if c == 'g' {
        7
    } else if c == 'a' {
        9
    } else {
        11
    }
}

pub open spec fn is_lower_natural(c: char) -> bool {
    c == 'c' || c == 'd' || c == 'e' || c == 'f' || c == 'g' || c == 'a' || c == 'b'
}

/// Letters whose sharp has its own entry in the table (`e+` and `b+` do not).
pub open spec fn has_table_sharp(c: char) -> bool {
    c == 'c' || c == 'd' || c == 'f' || c == 'g' || c == 'a'
}

/// `s` is one of the twelve entries of the chromatic table.
pub open spec fn is_pitch(s: Seq<char>) -> bool {
    ||| (s.len() == 1 && is_lower_natural(s[0]))
    ||| (s.len() == 2 && has_table_sharp(s[0]) && s[1] == '+')
}

/// Position in the chromatic table of an entry `s`.
pub open spec fn pitch_index(s: Seq<char>) -> int {
    natural_offset(s[0]) + if s.len() == 2 {
        1int
    } else {
        0int
    }
}

/// The entry `k` semitones away from `p`, wrapping round the twelve-tone cycle
/// in either direction.
pub open spec fn transposed(p: Seq<char>, k: int) -> Seq<char> {
    pitch_name((pitch_index(p) + k) % 12)
}

/// The lowercase form of a text, as `str::to_lowercase` gives it.
pub uninterp spec fn lower_of(s: Seq<char>) -> Seq<char>;

/// The table entry of a natural letter `A`..`G`: the same letter in lowercase.
pub open spec fn natural_entry(c: char) -> Seq<char> {
    seq![((c as u32) + 32) as char]
}

/// The marker that spells an accidental in rendered text.
pub open spec fn accidental_marker(a: Option<Accidental>) -> Seq<char> {
    match a {
        None => Seq::empty(),
        Some(Accidental::Sharp) => seq!['+'],
        Some(Accidental::Flat) => seq!['-'],
    }
}

/// The table entries are exactly the twelve names, each at its own position.
pub proof fn lemma_pitch_table(i: int)
    requires
        0 <= i < 12,
    ensures
        is_pitch(pitch_name(i)),
        pitch_index(pitch_name(i)) == i,
{
}

pub proof fn lemma_pitch_index_range(s: Seq<char>)
    requires
        is_pitch(s),
    ensures
        0 <= pitch_index(s) < 12,
        pitch_name(pitch_index(s)) == s,
{
    if s.len() == 1 {
        assert(pitch_name(pitch_index(s)) =~= s);
    } else {
        assert(pitch_name(pitch_index(s)) =~= s);
    }
}

/// Transposing back by the complementary distance returns to the starting pitch:
/// moving `k` steps and then `(-k) mod 12` steps round the cycle is the identity.
pub proof fn law_transpose_round_trip(p: Seq<char>, k: int)
    requires
        is_pitch(p),
        0 <= k < 12,
    ensures
        transposed(transposed(p, k), (-k) % 12) == p,
{
    lemma_pitch_index_range(p);
    let j = (pitch_index(p) + k) % 12;
    lemma_pitch_table(j);
    assert((j + (-k) % 12) % 12 == pitch_index(p)) by (nonlinear_arith)
        requires
            j == (pitch_index(p) + k) % 12,
            0 <= pitch_index(p) < 12,
            0 <= k < 12,
    ;
}

/// Relies on `str::to_lowercase`: the lowercase form depends on the characters alone.
#[verifier::external_body]
fn lowercase(s: &str) -> (r: String)
    ensures
        r@ == lower_of(s@),
{
    s.to_lowercase()
}

/// Appends the marker of an accidental to an already lowered note name.
pub fn with_accidental(text: String, accidental: &Option<Accidental>) -> (r: String)
    ensures
        r@ == text@ + accidental_marker(*accidental),
{
    let mut out = text;
    match accidental {
        None => {},
        Some(Accidental::Sharp) => push_char(&mut out, '+'),
        Some(Accidental::Flat) => push_char(&mut out, '-'),
    }
    assert(out@ =~= text@ + accidental_marker(*accidental));
    out
}

/// Renders a note name: lowercased, followed by `+` for a sharp or `-` for a flat.
pub fn note_to_mml(note: &str, accidental: &Option<Accidental>) -> (r: String)
    ensures
        r@ == lower_of(note@) + accidental_marker(*accidental),
{
    with_accidental(lowercase(note), accidental)
}

/// The table entry of a natural letter `A`..`G`, as text.
pub fn natural_pitch(letter: char) -> (r: String)
    requires
        'A' <= letter <= 'G',
    ensures
        r@ == natural_entry(letter),
        is_pitch(r@),
{
    let mut out = String::new();
    push_char(&mut out, ((letter as u8) + 32) as char);
    assert(out@ =~= natural_entry(letter));
    out
}

/// Position of a table entry, read from its characters.
fn pitch_position(note: &str) -> (r: usize)
    requires
        is_pitch(note@),
    ensures
        r == pitch_index(note@),
        r < 12,
{
    let base: usize = match note.get_char(0) {
        'c' => 0,
        'd' => 2,
        'e' => 4,
        'f' => 5,
        'g' => 7,
        'a' => 9,
        _ => 11,
    };
    if note.unicode_len() == 2 {
        base + 1
    } else {
        base
    }
}

/// The table entry at position `i` as text.
fn pitch_str(i: usize) -> (r: &'static str)
    requires
        i < 12,
    ensures
        r@ == pitch_name(i as int),
{
    let names = ["c", "c+", "d", "d+", "e", "f", "f+", "g", "g+", "a", "a+", "b"];
    proof {
        reveal_strlit("c");
        reveal_strlit("c+");
        reveal_strlit("d");
        reveal_strlit("d+");
        reveal_strlit("e");
        reveal_strlit("f");
        reveal_strlit("f+");
        reveal_strlit("g");
        reveal_strlit("g+");
        reveal_strlit("a");
        reveal_strlit("a+");
        reveal_strlit("b");
    }
    let r = names[i];
    assert(r@ =~= pitch_name(i as int));
    r
}

/// Moves a table entry by a signed number of semitones round the chromatic cycle.
pub fn transpose_note(note: &str, semitones: i32) -> (r: String)
    requires
        is_pitch(note@),
    ensures
        r@ == transposed(note@, semitones as int),
        is_pitch(r@),
{
    let idx = pitch_position(note) as u64;
    let k: u64 = if semitones >= 0 {
        (idx + semitones as u64) % 12
    } else {
        let d: u64 = ((-(semitones as i64)) as u64) % 12;
        proof {
            let s = semitones as int;
            assert((idx + 12 - d) % 12 == (idx + s) % 12) by (nonlinear_arith)
                requires
                    s < 0,
                    d == (-s) % 12,
                    0 <= idx < 12,
            ;
        }
        (idx + 12 - d) % 12
    };
    proof {
        lemma_pitch_table(k as int);
    }
    String::from_str(pitch_str(k as usize))
}

} // verus!
