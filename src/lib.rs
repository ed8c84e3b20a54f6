//! Converts chord notation (`C`, `Dm`, `G7/B`, `C-F-G-C`) into a compact pitch
//! list: lowercase note names joined by `;` within a chord, chords joined by a space.
pub mod ast;
pub mod error;
pub mod mml;
pub mod note;
pub mod parser;
pub mod text;

pub use ast::{ASTChord, ASTRoot, Accidental, ChordQuality};
pub use error::ChordError;
pub use mml::{ast_to_mml, chord_to_mml};
pub use note::{note_to_mml, transpose_note};
pub use parser::parse_to_ast;

use vstd::prelude::*;

use crate::error::ErrorView;
use crate::mml::{
    join,
    has_natural_root,
    lemma_render_chords_natural,
    render_ast_spec,
    text_result_view,
};
use crate::note::{
    is_pitch,
    lemma_pitch_index_range,
    natural_entry,
    pitch_index,
    pitch_name,
    transposed,
};
use crate::parser::{
    is_root_letter,
    lemma_parsed_root,
    lemma_parsed_roots,
    parse_chord_spec,
    parse_segments,
    parse_text,
    parse_text_spec,
    quality_of,
};
use crate::text::{
    all_space,
    chars_of,
    lemma_trim_padded,
    split_on,
    trim,
    trim_bounds,
    trim_end,
    trim_start,
};

verus! {

/// The longest input, in characters after trimming, that is converted.
pub const MAX_INPUT_CHARS: usize = 1000;

/// Converting notation text: trimmed, checked for length, parsed, then rendered.
pub open spec fn convert_spec(s: Seq<char>) -> Result<Seq<char>, ErrorView> {
    let t = trim(s);
    if t.len() == 0 {
        Err(ErrorView::EmptyInput)
    } else if t.len() > MAX_INPUT_CHARS {
        Err(ErrorView::InputTooLong)
    } else {
        match parse_text_spec(t) {
            Err(e) => Err(e),
            Ok(a) => render_ast_spec(a),
        }
    }
}

/// Converts chord notation, a single chord or a `-`-separated progression, to its
/// pitch list; white space around the input is ignored.
pub fn convert(input: &str) -> (r: Result<String, ChordError>)
    ensures
        text_result_view(r) == convert_spec(input@),
{
    let v = chars_of(input);
    assert(v@.subrange(0, v@.len() as int) =~= input@);
    let (lo, hi) = trim_bounds(&v, 0, v.len());
    if lo == hi {
        return Err(ChordError::EmptyInput);
    }
    if hi - lo > MAX_INPUT_CHARS {
        return Err(ChordError::InputTooLong);
    }
    match parse_text(&v, lo, hi) {
        Ok(ast) => ast_to_mml(&ast),
        Err(e) => Err(e),
    }
}

/// White space around the input does not change what it converts to.
pub proof fn law_convert_ignores_surrounding_space(pre: Seq<char>, s: Seq<char>, post: Seq<char>)
    requires
        all_space(pre),
        all_space(post),
    ensures
        convert_spec(pre + s + post) == convert_spec(s),
{
    lemma_trim_padded(pre, s, post);
}

/// A natural letter alone converts to the major triad rooted on it: the letter's
/// own pitch, then the pitches four and seven semitones above.
#[verifier::rlimit(40)]
pub proof fn law_natural_letter_is_major_triad(r: char)
    requires
        is_root_letter(r),
    ensures
        ({
            let root = natural_entry(r);
            let i = pitch_index(root);
            &&& is_pitch(root)
            &&& convert_spec(seq![r]) == Ok::<Seq<char>, ErrorView>(
                join(seq![root, pitch_name((i + 4) % 12), pitch_name((i + 7) % 12)], ';'),
            )
        }),
{
    let s = seq![r];
    assert(trim_start(s) == s);
    assert(trim_end(s) == s);
    assert(!s.contains('-')) by {
        assert(s[0] == r);
    }
    let rest = s.subrange(1, 1);
    assert(rest =~= Seq::<char>::empty());
    assert(rest.subrange(0, 0) =~= Seq::<char>::empty());
    reveal(quality_of);
    assert(quality_of(rest.subrange(0, 0)) == Some(ChordQuality::Major));
    let root = natural_entry(r);
    assert(is_pitch(root));
    lemma_pitch_index_range(root);
    let i = pitch_index(root);
    assert((i + 0) % 12 == i);
    assert(seq![0i32, 4, 7].map_values(|k: i32| transposed(root, k as int)) =~= seq![
        root,
        pitch_name((i + 4) % 12),
        pitch_name((i + 7) % 12),
    ]);
}

/// Chords come to the renderer only from the parser, which reads roots from the
/// letters `A`..`G`: a conversion never fails on a note outside the chromatic table.
pub proof fn law_convert_never_meets_a_foreign_note(s: Seq<char>)
    ensures
        !(convert_spec(s) matches Err(ErrorView::InvalidNote(_))),
{
    let t = trim(s);
    let segs = split_on(t, '-');
    lemma_parsed_root(t);
    lemma_parsed_roots(segs);
    if parse_segments(segs) is Ok {
        let cs = parse_segments(segs)->Ok_0;
        assert forall|i: int| 0 <= i < cs.len() implies has_natural_root(#[trigger] cs[i]) by {
            assert(cs[i].root.len() == 1 && is_root_letter(cs[i].root[0]));
        }
        lemma_render_chords_natural(cs);
    }
}

} // verus!
