//! Rendering chord values as pitch lists.
use vstd::prelude::*;

use crate::ast::{ASTChord, ASTRoot, Accidental, AstView, ChordQuality, ChordView, chords_view};
use crate::error::{ChordError, ErrorView};
use crate::note::{is_pitch, natural_entry, natural_pitch, transpose_note, transposed};
use crate::parser::is_root_letter;

verus! {

/// Semitone offsets from the root of each quality, root first.
pub open spec fn intervals(q: ChordQuality) -> Seq<i32> {
    match q {
        ChordQuality::Major => seq![0, 4, 7],
        ChordQuality::Minor => seq![0, 3, 7],
        ChordQuality::Diminished => seq![0, 3, 6],
        ChordQuality::Augmented => seq![0, 4, 8],
        ChordQuality::Dominant7 => seq![0, 4, 7, 10],
        ChordQuality::Major7 => seq![0, 4, 7, 11],
        ChordQuality::Sus4 => seq![0, 5, 7],
        ChordQuality::Sus2 => seq![0, 2, 7],
    }
}

/// Semitones that an accidental moves a natural note.
pub open spec fn accidental_shift(a: Option<Accidental>) -> int {
    match a {
        None => 0,
        Some(Accidental::Sharp) => 1,
        Some(Accidental::Flat) => -1,
    }
}

/// The chord's root is a single letter `A`..`G`.
pub open spec fn has_natural_root(c: ChordView) -> bool {
    c.root.len() == 1 && is_root_letter(c.root[0])
}

/// The table entry of a chord's root: its letter lowered, moved a semitone up for
/// a sharp or down for a flat (so `Db` is entered as `c+`).
pub open spec fn root_pitch(c: ChordView) -> Seq<char> {
    transposed(natural_entry(c.root[0]), accidental_shift(c.accidental))
}

/// The pitches of a chord, in the order of its quality's intervals.
pub open spec fn chord_pitches(c: ChordView) -> Seq<Seq<char>> {
    intervals(c.quality).map_values(|k: i32| transposed(root_pitch(c), k as int))
}

/// The pieces joined with `sep` between neighbours, with none at either end.
pub open spec fn join(parts: Seq<Seq<char>>, sep: char) -> Seq<char>
    decreases parts.len(),
{
    if parts.len() == 0 {
        Seq::empty()
    } else if parts.len() == 1 {
        parts[0]
    } else {
        join(parts.drop_last(), sep).push(sep) + parts.last()
    }
}

/// The rendered text of a chord with a natural root.
pub open spec fn render_chord(c: ChordView) -> Seq<char> {
    join(chord_pitches(c), ';')
}

/// Rendering one chord: its pitch list, or the error for a root outside the table.
pub open spec fn render_chord_spec(c: ChordView) -> Result<Seq<char>, ErrorView> {
    if has_natural_root(c) {
        Ok(render_chord(c))
    } else {
        Err(ErrorView::InvalidNote(c.root))
    }
}

/// Rendering chords in order; the first that cannot be rendered gives the error.
pub open spec fn render_chords(cs: Seq<ChordView>) -> Result<Seq<Seq<char>>, ErrorView>
    decreases cs.len(),
{
    if cs.len() == 0 {
        Ok(Seq::empty())
    } else {
        match render_chords(cs.drop_last()) {
            Err(e) => Err(e),
            Ok(texts) => match render_chord_spec(cs.last()) {
                Err(e) => Err(e),
                Ok(t) => Ok(texts.push(t)),
            },
        }
    }
}

/// Rendering a parse result: a chord alone, or the chords of a progression joined by spaces.
pub open spec fn render_ast_spec(a: AstView) -> Result<Seq<char>, ErrorView> {
    match a {
        AstView::SingleChord(c) => render_chord_spec(c),
        AstView::ChordProgression(cs) => match render_chords(cs) {
            Err(e) => Err(e),
            Ok(texts) => Ok(join(texts, ' ')),
        },
    }
}

pub open spec fn text_result_view(r: Result<String, ChordError>) -> Result<Seq<char>, ErrorView> {
    match r {
        Ok(s) => Ok(s@),
        Err(e) => Err(e@),
    }
}

/// The offsets of a quality as machine integers.
fn quality_intervals(q: ChordQuality) -> (r: Vec<i32>)
    ensures
        r@ == intervals(q),
{
    let r = match q {
        ChordQuality::Major => vec![0, 4, 7],
        ChordQuality::Minor => vec![0, 3, 7],
        ChordQuality::Diminished => vec![0, 3, 6],
        ChordQuality::Augmented => vec![0, 4, 8],
        ChordQuality::Dominant7 => vec![0, 4, 7, 10],
        ChordQuality::Major7 => vec![0, 4, 7, 11],
        ChordQuality::Sus4 => vec![0, 5, 7],
        ChordQuality::Sus2 => vec![0, 2, 7],
    };
    assert(r@ =~= intervals(q));
    r
}

/// Renders one chord as its pitch names joined by `;`, root first.
pub fn chord_to_mml(chord: &ASTChord) -> (r: Result<String, ChordError>)
    ensures
        text_result_view(r) == render_chord_spec(chord@),
{
    let root = chord.root.as_str();
    if root.unicode_len() != 1 {
        return Err(ChordError::InvalidNote(chord.root.clone()));
    }
    let letter = root.get_char(0);
    if !('A' <= letter && letter <= 'G') {
        return Err(ChordError::InvalidNote(chord.root.clone()));
    }
    let natural = natural_pitch(letter);
    let shift: i32 = match chord.accidental {
        None => 0,
        Some(Accidental::Sharp) => 1,
        Some(Accidental::Flat) => -1,
    };
    let base = transpose_note(natural.as_str(), shift);
    let ivs = quality_intervals(chord.quality);
    let ghost pitches = chord_pitches(chord@);
    let mut out = String::new();
    let mut i: usize = 0;
    proof {
        reveal_strlit(";");
    }
    while i < ivs.len()
        invariant
            i <= ivs@.len(),
            ivs@ == intervals(chord.quality),
            pitches == chord_pitches(chord@),
            base@ == root_pitch(chord@),
            is_pitch(base@),
            out@ == join(pitches.subrange(0, i as int), ';'),
            ";"@ == seq![';'],
        decreases ivs@.len() - i,
    {
        if i > 0 {
            out.append(";");
        }
        let p = transpose_note(base.as_str(), ivs[i]);
        out.append(p.as_str());
        proof {
            let prefix = pitches.subrange(0, i + 1);
            assert(prefix.drop_last() =~= pitches.subrange(0, i as int));
            assert(out@ =~= join(prefix, ';'));
        }
        i = i + 1;
    }
    assert(pitches.subrange(0, i as int) =~= pitches);
    Ok(out)
}

/// Renders a parse result: a single chord, or each chord of a progression in
/// notation order, joined by single spaces.
pub fn ast_to_mml(ast: &ASTRoot) -> (r: Result<String, ChordError>)
    ensures
        text_result_view(r) == render_ast_spec(ast@),
{
    match ast {
        ASTRoot::SingleChord(chord) => chord_to_mml(chord),
        ASTRoot::ChordProgression(chords) => {
            let ghost cs = chords_view(chords@);
            let ghost mut texts: Seq<Seq<char>> = Seq::empty();
            let mut out = String::new();
            let mut i: usize = 0;
            proof {
                reveal_strlit(" ");
                assert(cs.subrange(0, 0) =~= Seq::<ChordView>::empty());
            }
            while i < chords.len()
                invariant
                    i <= chords@.len(),
                    cs == chords_view(chords@),
                    ast@ == AstView::ChordProgression(cs),
                    render_chords(cs.subrange(0, i as int)) == Ok::<Seq<Seq<char>>, ErrorView>(
                        texts,
                    ),
                    texts.len() == i,
                    out@ == join(texts, ' '),
                    " "@ == seq![' '],
                decreases chords@.len() - i,
            {
                let ghost prefix = cs.subrange(0, i + 1);
                assert(prefix.drop_last() =~= cs.subrange(0, i as int));
                assert(prefix.last() == chords@[i as int]@);
                let text = match chord_to_mml(&chords[i]) {
                    Ok(t) => t,
                    Err(e) => {
                        proof {
                            lemma_render_chords_error_stays(prefix, cs.subrange(i + 1, cs.len() as int));
                            assert(prefix + cs.subrange(i + 1, cs.len() as int) =~= cs);
                        }
                        return Err(e);
                    },
                };
                if i > 0 {
                    out.append(" ");
                }
                out.append(text.as_str());
                proof {
                    let next = texts.push(text@);
                    assert(next.drop_last() =~= texts);
                    assert(out@ =~= join(next, ' '));
                    texts = next;
                }
                i = i + 1;
            }
            assert(cs.subrange(0, i as int) =~= cs);
            Ok(out)
        },
    }
}

/// Chords whose roots are all natural letters render without error.
pub proof fn lemma_render_chords_natural(cs: Seq<ChordView>)
    requires
        forall|i: int| 0 <= i < cs.len() ==> has_natural_root(#[trigger] cs[i]),
    ensures
        render_chords(cs) is Ok,
    decreases cs.len(),
{
    if cs.len() > 0 {
        assert(has_natural_root(cs[cs.len() - 1]));
        lemma_render_chords_natural(cs.drop_last());
    }
}

/// Once a chord has failed to render, later chords do not change the outcome.
pub proof fn lemma_render_chords_error_stays(a: Seq<ChordView>, b: Seq<ChordView>)
    requires
        render_chords(a) is Err,
    ensures
        render_chords(a + b) == render_chords(a),
    decreases b.len(),
{
    if b.len() == 0 {
        assert(a + b =~= a);
    } else {
        assert((a + b).drop_last() =~= a + b.drop_last());
        lemma_render_chords_error_stays(a, b.drop_last());
    }
}

} // verus!
