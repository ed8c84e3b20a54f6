//! The chord grammar: a hand-written scanner from notation text to chord values.
//!
//! A chord token is a root letter `A`..`G`, an optional `#` or `b`, an optional
//! quality (`m`, `maj7`, `M7`, `7`, `dim`, `aug`, `+`, `sus4`, `sus2`) and an
//! optional `/` followed by a bass note. Text holding `-` is a progression of such
//! tokens; empty segments between separators are skipped.
use vstd::prelude::*;

use crate::ast::{ASTChord, ASTRoot, Accidental, AstView, ChordQuality, ChordView, chords_view};
use crate::error::{ChordError, ErrorView};
use vstd::std_specs::cmp::PartialEqSpec;
use crate::text::{
    chars_of,
    contains_char,
    first_index,
    lemma_first_index,
    lemma_split_on_concat,
    split_on,
    string_of,
    trim,
    trim_bounds,
};

verus! {

pub open spec fn is_root_letter(c: char) -> bool {
    'A' <= c <= 'G'
}

pub open spec fn is_lowercase_root_letter(c: char) -> bool {
    'a' <= c <= 'g'
}

/// The accidental that a character after the root letter spells, if any.
pub open spec fn accidental_of(c: char) -> Option<Accidental> {
    if c == '#' {
        Some(Accidental::Sharp)
    } else if c == 'b' {
        Some(Accidental::Flat)
    } else {
        None
    }
}

/// The quality named by the whole of `q`; no text at all names a major chord.
#[verifier::opaque]
pub open spec fn quality_of(q: Seq<char>) -> Option<ChordQuality> {
    if q.len() == 0 {
        Some(ChordQuality::Major)
    } else if q == seq!['m'] {
        Some(ChordQuality::Minor)
    } else if q == seq!['m', 'a', 'j', '7'] || q == seq!['M', '7'] {
        Some(ChordQuality::Major7)
    } else if q == seq!['7'] {
        Some(ChordQuality::Dominant7)
    } else if q == seq!['d', 'i', 'm'] {
        Some(ChordQuality::Diminished)
    } else if q == seq!['a', 'u', 'g'] || q == seq!['+'] {
        Some(ChordQuality::Augmented)
    } else if q == seq!['s', 'u', 's', '4'] {
        Some(ChordQuality::Sus4)
    } else if q == seq!['s', 'u', 's', '2'] {
        Some(ChordQuality::Sus2)
    } else {
        None
    }
}

/// A bass note: a root letter with at most one `#` or `b` after it.
pub open spec fn is_valid_bass(b: Seq<char>) -> bool {
    &&& 1 <= b.len() <= 2
    &&& is_root_letter(b[0])
    &&& b.len() == 2 ==> (b[1] == '#' || b[1] == 'b')
}

/// Parses what follows the root and accidental of a chord token: a quality, then
/// an optional `/` and bass note.
pub open spec fn parse_tail_spec(root: char, accidental: Option<Accidental>, rest: Seq<char>) -> Result<
    ChordView,
    ErrorView,
> {
    let slash = if rest.contains('/') {
        first_index(rest, '/')
    } else {
        rest.len() as int
    };
    let q = rest.subrange(0, slash);
    let bass = rest.subrange(slash + 1, rest.len() as int);
    match quality_of(q) {
        None => Err(ErrorView::UnknownQuality(q)),
        Some(quality) => {
            if !rest.contains('/') {
                Ok(ChordView { root: seq![root], accidental, quality, bass: None })
            } else if bass.len() == 0 {
                Err(ErrorView::EmptyBass)
            } else if !is_valid_bass(bass) {
                Err(ErrorView::InvalidBass(bass))
            } else {
                Ok(ChordView { root: seq![root], accidental, quality, bass: Some(bass) })
            }
        },
    }
}

/// Parses one chord token `t`, or names the first rule it breaks.
pub open spec fn parse_chord_spec(t: Seq<char>) -> Result<ChordView, ErrorView> {
    if t.len() == 0 {
        Err(ErrorView::EmptyChord)
    } else if !is_root_letter(t[0]) {
        if is_lowercase_root_letter(t[0]) {
            Err(ErrorView::LowercaseRoot(seq![t[0]]))
        } else {
            Err(ErrorView::InvalidRoot(seq![t[0]]))
        }
    } else {
        let accidental = if t.len() > 1 {
            accidental_of(t[1])
        } else {
            None
        };
        let rest = t.subrange(if accidental is Some { 2 } else { 1 }, t.len() as int);
        parse_tail_spec(t[0], accidental, rest)
    }
}

/// Parses the segments of a progression left to right: segments that trim to
/// nothing are skipped, the first segment that fails gives the error.
pub open spec fn parse_segments(segs: Seq<Seq<char>>) -> Result<Seq<ChordView>, ErrorView>
    decreases segs.len(),
{
    if segs.len() == 0 {
        Ok(Seq::empty())
    } else {
        match parse_segments(segs.drop_last()) {
            Err(e) => Err(e),
            Ok(cs) => {
                let t = trim(segs.last());
                if t.len() == 0 {
                    Ok(cs)
                } else {
                    match parse_chord_spec(t) {
                        Ok(c) => Ok(cs.push(c)),
                        Err(e) => Err(e),
                    }
                }
            },
        }
    }
}

/// Parses trimmed notation text: a progression if it holds `-`, else one chord.
pub open spec fn parse_text_spec(t: Seq<char>) -> Result<AstView, ErrorView> {
    if t.contains('-') {
        match parse_segments(split_on(t, '-')) {
            Err(e) => Err(e),
            Ok(cs) => if cs.len() == 0 {
                Err(ErrorView::EmptyProgression)
            } else {
                Ok(AstView::ChordProgression(cs))
            },
        }
    } else {
        match parse_chord_spec(t) {
            Ok(c) => Ok(AstView::SingleChord(c)),
            Err(e) => Err(e),
        }
    }
}

/// Parses notation text, ignoring white space around it.
pub open spec fn parse_spec(s: Seq<char>) -> Result<AstView, ErrorView> {
    parse_text_spec(trim(s))
}

pub open spec fn chord_result_view(r: Result<ASTChord, ChordError>) -> Result<
    ChordView,
    ErrorView,
> {
    match r {
        Ok(c) => Ok(c@),
        Err(e) => Err(e@),
    }
}

pub open spec fn ast_result_view(r: Result<ASTRoot, ChordError>) -> Result<AstView, ErrorView> {
    match r {
        Ok(a) => Ok(a@),
        Err(e) => Err(e@),
    }
}

/// Once a segment has failed, later segments do not change the outcome.
pub proof fn lemma_parse_segments_error_stays(a: Seq<Seq<char>>, b: Seq<Seq<char>>)
    requires
        parse_segments(a) is Err,
    ensures
        parse_segments(a + b) == parse_segments(a),
    decreases b.len(),
{
    if b.len() == 0 {
        assert(a + b =~= a);
    } else {
        assert((a + b).drop_last() =~= a + b.drop_last());
        lemma_parse_segments_error_stays(a, b.drop_last());
    }
}

/// A parsed chord's root is the letter it was read from, and a failed parse
/// reports a grammar error, never a note outside the table.
pub proof fn lemma_parsed_root(t: Seq<char>)
    ensures
        parse_chord_spec(t) matches Ok(c) ==> c.root.len() == 1 && is_root_letter(c.root[0]),
        !(parse_chord_spec(t) matches Err(ErrorView::InvalidNote(_))),
{
}

/// Every chord of a parsed progression has a natural root letter, and a failed
/// parse reports a grammar error, never a note outside the table.
pub proof fn lemma_parsed_roots(segs: Seq<Seq<char>>)
    ensures
        parse_segments(segs) matches Ok(cs) ==> forall|i: int|
            0 <= i < cs.len() ==> (#[trigger] cs[i]).root.len() == 1 && is_root_letter(
                cs[i].root[0],
            ),
        !(parse_segments(segs) matches Err(ErrorView::InvalidNote(_))),
    decreases segs.len(),
{
    if segs.len() > 0 {
        lemma_parsed_roots(segs.drop_last());
        lemma_parsed_root(trim(segs.last()));
    }
}

/// Parsing is a function of the text: two parses of the same input that both
/// succeed give structurally equal values.
pub proof fn law_parse_deterministic(s: Seq<char>, a: ASTRoot, b: ASTRoot)
    requires
        parse_spec(s) == Ok::<AstView, ErrorView>(a@),
        parse_spec(s) == Ok::<AstView, ErrorView>(b@),
    ensures
        a@ == b@,
        a.eq_spec(&b),
{
}

/// Reads the quality named by `v[lo..hi]`.
fn parse_chord_quality(v: &Vec<char>, lo: usize, hi: usize) -> (r: Result<ChordQuality, ChordError>)
    requires
        lo <= hi <= v@.len(),
    ensures
        match r {
            Ok(q) => quality_of(v@.subrange(lo as int, hi as int)) == Some(q),
            Err(e) => quality_of(v@.subrange(lo as int, hi as int)) is None && e@
                == ErrorView::UnknownQuality(v@.subrange(lo as int, hi as int)),
        },
{
    let ghost q = v@.subrange(lo as int, hi as int);
    reveal(quality_of);
    let n = hi - lo;
    let found = if n == 0 {
        Some(ChordQuality::Major)
    } else if n == 1 {
        let c = v[lo];
        assert(q =~= seq![c]);
        assert(seq!['m'][0] == 'm' && seq!['7'][0] == '7' && seq!['+'][0] == '+');
        if c == 'm' {
            Some(ChordQuality::Minor)
        } else if c == '7' {
            Some(ChordQuality::Dominant7)
        } else if c == '+' {
            Some(ChordQuality::Augmented)
        } else {
            None
        }
    } else if n == 2 {
        assert(q =~= seq![v@[lo as int], v@[lo + 1]]);
        if v[lo] == 'M' && v[lo + 1] == '7' {
            Some(ChordQuality::Major7)
        } else {
            None
        }
    } else if n == 3 {
        assert(q =~= seq![v@[lo as int], v@[lo + 1], v@[lo + 2]]);
        assert(seq!['d', 'i', 'm'][0] == 'd' && seq!['a', 'u', 'g'][0] == 'a');
        if v[lo] == 'd' && v[lo + 1] == 'i' && v[lo + 2] == 'm' {
            Some(ChordQuality::Diminished)
        } else if v[lo] == 'a' && v[lo + 1] == 'u' && v[lo + 2] == 'g' {
            Some(ChordQuality::Augmented)
        } else {
            None
        }
    } else if n == 4 {
        assert(q =~= seq![v@[lo as int], v@[lo + 1], v@[lo + 2], v@[lo + 3]]);
        assert(seq!['m', 'a', 'j', '7'][0] == 'm' && seq!['s', 'u', 's', '4'][0] == 's'
            && seq!['s', 'u', 's', '4'][3] == '4' && seq!['s', 'u', 's', '2'][3] == '2');
        if v[lo] == 'm' && v[lo + 1] == 'a' && v[lo + 2] == 'j' && v[lo + 3] == '7' {
            Some(ChordQuality::Major7)
        } else if v[lo] == 's' && v[lo + 1] == 'u' && v[lo + 2] == 's' && v[lo + 3] == '4' {
            Some(ChordQuality::Sus4)
        } else if v[lo] == 's' && v[lo + 1] == 'u' && v[lo + 2] == 's' && v[lo + 3] == '2' {
            Some(ChordQuality::Sus2)
        } else {
            None
        }
    } else {
        None
    };
    match found {
        Some(quality) => Ok(quality),
        None => Err(ChordError::UnknownQuality(string_of(v, lo, hi))),
    }
}

/// Checks that `v[lo..hi]` is a bass note.
fn validate_bass_note(v: &Vec<char>, lo: usize, hi: usize) -> (r: Result<(), ChordError>)
    requires
        lo <= hi <= v@.len(),
    ensures
        r is Ok <==> is_valid_bass(v@.subrange(lo as int, hi as int)),
        r matches Err(e) ==> e@ == ErrorView::InvalidBass(v@.subrange(lo as int, hi as int)),
{
    let n = hi - lo;
    let ok = n >= 1 && n <= 2 && 'A' <= v[lo] && v[lo] <= 'G' && (n == 1 || v[lo + 1] == '#'
        || v[lo + 1] == 'b');
    if ok {
        Ok(())
    } else {
        Err(ChordError::InvalidBass(string_of(v, lo, hi)))
    }
}

/// Parses the quality and optional bass note in `v[k..hi]`, after a chord's root.
#[verifier::rlimit(30)]
fn parse_chord_tail(
    v: &Vec<char>,
    k: usize,
    hi: usize,
    root: String,
    accidental: Option<Accidental>,
) -> (r: Result<ASTChord, ChordError>)
    requires
        k <= hi <= v@.len(),
        root@.len() == 1,
    ensures
        chord_result_view(r) == parse_tail_spec(
            root@[0],
            accidental,
            v@.subrange(k as int, hi as int),
        ),
{
    let ghost rest = v@.subrange(k as int, hi as int);
    assert(root@ =~= seq![root@[0]]);
    let mut p = k;
    while p < hi && v[p] != '/'
        invariant
            k <= p <= hi <= v@.len(),
            forall|j: int| k <= j < p ==> v@[j] != '/',
        decreases hi - p,
    {
        p = p + 1;
    }
    proof {
        if p < hi {
            lemma_first_index(rest, '/', p - k);
        } else {
            assert(!rest.contains('/')) by {
                assert forall|j: int| 0 <= j < rest.len() implies rest[j] != '/' by {
                    assert(rest[j] == v@[k + j]);
                }
            }
        }
        assert(rest.subrange(0, p - k) =~= v@.subrange(k as int, p as int));
    }
    let quality = match parse_chord_quality(v, k, p) {
        Ok(q) => q,
        Err(e) => {
            return Err(e);
        },
    };
    if p == hi {
        return Ok(ASTChord { root, accidental, quality, bass: None });
    }
    proof {
        assert(rest.subrange(p - k + 1, rest.len() as int) =~= v@.subrange(p + 1, hi as int));
    }
    if p + 1 == hi {
        return Err(ChordError::EmptyBass);
    }
    match validate_bass_note(v, p + 1, hi) {
        Ok(()) => {},
        Err(e) => {
            return Err(e);
        },
    }
    Ok(ASTChord { root, accidental, quality, bass: Some(string_of(v, p + 1, hi)) })
}

/// Parses the chord token `v[lo..hi]`.
fn parse_chord(v: &Vec<char>, lo: usize, hi: usize) -> (r: Result<ASTChord, ChordError>)
    requires
        lo <= hi <= v@.len(),
    ensures
        chord_result_view(r) == parse_chord_spec(v@.subrange(lo as int, hi as int)),
{
    let ghost t = v@.subrange(lo as int, hi as int);
    if lo == hi {
        return Err(ChordError::EmptyChord);
    }
    let c = v[lo];
    let root = string_of(v, lo, lo + 1);
    assert(root@ =~= seq![t[0]]);
    if !('A' <= c && c <= 'G') {
        if 'a' <= c && c <= 'g' {
            return Err(ChordError::LowercaseRoot(root));
        }
        return Err(ChordError::InvalidRoot(root));
    }
    let mut k = lo + 1;
    let accidental = if k < hi && v[k] == '#' {
        k = k + 1;
        Some(Accidental::Sharp)
    } else if k < hi && v[k] == 'b' {
        k = k + 1;
        Some(Accidental::Flat)
    } else {
        None
    };
    assert(t.subrange(k - lo, t.len() as int) =~= v@.subrange(k as int, hi as int));
    parse_chord_tail(v, k, hi, root, accidental)
}

/// Parses the progression `v[lo..hi]`, split at `-`, left to right.
fn parse_progression(v: &Vec<char>, lo: usize, hi: usize) -> (r: Result<Vec<ASTChord>, ChordError>)
    requires
        lo <= hi <= v@.len(),
    ensures
        match r {
            Ok(cs) => parse_segments(split_on(v@.subrange(lo as int, hi as int), '-')) == Ok::<
                Seq<ChordView>,
                ErrorView,
            >(chords_view(cs@)),
            Err(e) => parse_segments(split_on(v@.subrange(lo as int, hi as int), '-')) == Err::<
                Seq<ChordView>,
                ErrorView,
            >(e@),
        },
{
    let ghost t = v@.subrange(lo as int, hi as int);
    let mut chords: Vec<ASTChord> = Vec::new();
    let ghost mut segs: Seq<Seq<char>> = Seq::empty();
    let mut start = lo;
    let mut i = lo;
    assert(v@.subrange(lo as int, lo as int) =~= Seq::<char>::empty());
    assert(split_on(Seq::<char>::empty(), '-') =~= segs.push(Seq::<char>::empty()));
    assert(chords_view(chords@) =~= Seq::empty());
    while i < hi
        invariant
            lo <= start <= i <= hi <= v@.len(),
            t == v@.subrange(lo as int, hi as int),
            split_on(v@.subrange(lo as int, i as int), '-') == segs.push(
                v@.subrange(start as int, i as int),
            ),
            parse_segments(segs) == Ok::<Seq<ChordView>, ErrorView>(chords_view(chords@)),
        decreases hi - i,
    {
        let ghost prefix = v@.subrange(lo as int, i as int);
        assert(v@.subrange(lo as int, i + 1).drop_last() =~= prefix);
        if v[i] == '-' {
            let ghost cur = v@.subrange(start as int, i as int);
            let ghost next = segs.push(cur);
            assert(next.drop_last() =~= segs);
            let (a, b) = trim_bounds(v, start, i);
            if a < b {
                match parse_chord(v, a, b) {
                    Ok(c) => {
                        let ghost before = chords@;
                        chords.push(c);
                        assert(chords_view(chords@) =~= chords_view(before).push(c@));
                    },
                    Err(e) => {
                        proof {
                            let tail = v@.subrange(i + 1, hi as int);
                            assert(t =~= prefix.push('-') + tail);
                            lemma_split_on_concat(prefix, '-', tail);
                            lemma_parse_segments_error_stays(next, split_on(tail, '-'));
                        }
                        return Err(e);
                    },
                }
            }
            proof {
                segs = next;
            }
            start = i + 1;
            assert(v@.subrange(start as int, i + 1) =~= Seq::<char>::empty());
        } else {
            assert(v@.subrange(start as int, i + 1) =~= v@.subrange(start as int, i as int).push(
                v@[i as int],
            ));
        }
        i = i + 1;
    }
    assert(v@.subrange(lo as int, hi as int) =~= t);
    let ghost cur = v@.subrange(start as int, hi as int);
    let ghost all = segs.push(cur);
    assert(all.drop_last() =~= segs);
    let (a, b) = trim_bounds(v, start, hi);
    if a < b {
        match parse_chord(v, a, b) {
            Ok(c) => {
                let ghost before = chords@;
                chords.push(c);
                assert(chords_view(chords@) =~= chords_view(before).push(c@));
            },
            Err(e) => {
                return Err(e);
            },
        }
    }
    Ok(chords)
}

/// Parses the trimmed text `v[lo..hi]`.
pub(crate) fn parse_text(v: &Vec<char>, lo: usize, hi: usize) -> (r: Result<ASTRoot, ChordError>)
    requires
        lo <= hi <= v@.len(),
    ensures
        ast_result_view(r) == parse_text_spec(v@.subrange(lo as int, hi as int)),
{
    if contains_char(v, lo, hi, '-') {
        match parse_progression(v, lo, hi) {
            Ok(chords) => {
                if chords.len() == 0 {
                    Err(ChordError::EmptyProgression)
                } else {
                    Ok(ASTRoot::ChordProgression(chords))
                }
            },
            Err(e) => Err(e),
        }
    } else {
        match parse_chord(v, lo, hi) {
            Ok(c) => Ok(ASTRoot::SingleChord(c)),
            Err(e) => Err(e),
        }
    }
}

/// Parses notation text into one chord or a progression of chords.
pub fn parse_to_ast(input: &str) -> (r: Result<ASTRoot, ChordError>)
    ensures
        ast_result_view(r) == parse_spec(input@),
{
    let v = chars_of(input);
    assert(v@.subrange(0, v@.len() as int) =~= input@);
    let (lo, hi) = trim_bounds(&v, 0, v.len());
    parse_text(&v, lo, hi)
}

} // verus!
