//! The chord values that parsing produces and rendering consumes.
use vstd::prelude::*;

verus! {

/// An accidental written after a note letter.
#[derive(Debug, Clone, Copy, PartialEq, Eq, Structural)]
pub enum Accidental {
    Sharp,
    Flat,
}

/// The closed set of chord qualities the notation can name.
#[derive(Debug, Clone, Copy, PartialEq, Eq, Structural)]
pub enum ChordQuality {
    Major,
    Minor,
    Diminished,
    Augmented,
    Dominant7,
    Major7,
    Sus4,
    Sus2,
}

/// A parsed chord: root letter, optional accidental, quality and optional slash bass.
#[derive(Debug, Clone)]
pub struct ASTChord {
    pub root: String,
    pub accidental: Option<Accidental>,
    pub quality: ChordQuality,
    pub bass: Option<String>,
}

/// The result of parsing: one chord, or a progression of chords in notation order.
#[derive(Debug, Clone)]
pub enum ASTRoot {
    SingleChord(ASTChord),
    ChordProgression(Vec<ASTChord>),
}

/// The mathematical value of an [`ASTChord`].
pub struct ChordView {
    pub root: Seq<char>,
    pub accidental: Option<Accidental>,
    pub quality: ChordQuality,
    pub bass: Option<Seq<char>>,
}

/// The mathematical value of an [`ASTRoot`].
pub enum AstView {
    SingleChord(ChordView),
    ChordProgression(Seq<ChordView>),
}

pub open spec fn text_view(o: Option<String>) -> Option<Seq<char>> {
    match o {
        Some(s) => Some(s@),
        None => None,
    }
}

pub open spec fn chords_view(cs: Seq<ASTChord>) -> Seq<ChordView> {
    cs.map_values(|c: ASTChord| c@)
}

impl View for ASTChord {
    type V = ChordView;

    open spec fn view(&self) -> ChordView {
        ChordView {
            root: self.root@,
            accidental: self.accidental,
            quality: self.quality,
            bass: text_view(self.bass),
        }
    }
}

impl View for ASTRoot {
    type V = AstView;

    open spec fn view(&self) -> AstView {
        match self {
            ASTRoot::SingleChord(c) => AstView::SingleChord(c@),
            ASTRoot::ChordProgression(cs) => AstView::ChordProgression(chords_view(cs@)),
        }
    }
}

impl PartialEq for ASTChord {
    fn eq(&self, other: &ASTChord) -> (r: bool) {
        let same_bass = match (&self.bass, &other.bass) {
            (Some(a), Some(b)) => *a == *b,
            (None, None) => true,
            _ => false,
        };
        let same_accidental = match (self.accidental, other.accidental) {
            (Some(a), Some(b)) => a == b,
            (None, None) => true,
            _ => false,
        };
        self.root == other.root && same_accidental && self.quality == other.quality && same_bass
    }
}

impl vstd::std_specs::cmp::PartialEqSpecImpl for ASTChord {
    open spec fn obeys_eq_spec() -> bool {
        true
    }

    open spec fn eq_spec(&self, other: &ASTChord) -> bool {
        self@ == other@
    }
}

impl PartialEq for ASTRoot {
    fn eq(&self, other: &ASTRoot) -> (r: bool) {
        match (self, other) {
            (ASTRoot::SingleChord(a), ASTRoot::SingleChord(b)) => a == b,
            (ASTRoot::ChordProgression(a), ASTRoot::ChordProgression(b)) => {
                if a.len() != b.len() {
                    proof {
                        assert(chords_view(a@).len() != chords_view(b@).len());
                    }
                    return false;
                }
                let mut i: usize = 0;
                while i < a.len()
                    invariant
                        self@ == AstView::ChordProgression(chords_view(a@)),
                        other@ == AstView::ChordProgression(chords_view(b@)),
                        a@.len() == b@.len(),
                        i <= a@.len(),
                        forall|j: int| 0 <= j < i ==> a@[j]@ == b@[j]@,
                    decreases a@.len() - i,
                {
                    if !(a[i] == b[i]) {
                        proof {
                            assert(chords_view(a@)[i as int] == a@[i as int]@);
                            assert(chords_view(b@)[i as int] == b@[i as int]@);
                            assert(chords_view(a@) != chords_view(b@));
                        }
                        return false;
                    }
                    i = i + 1;
                }
                proof {
                    assert(chords_view(a@) =~= chords_view(b@));
                }
                true
            },
            _ => false,
        }
    }
}

impl vstd::std_specs::cmp::PartialEqSpecImpl for ASTRoot {
    open spec fn obeys_eq_spec() -> bool {
        true
    }

    open spec fn eq_spec(&self, other: &ASTRoot) -> bool {
        self@ == other@
    }
}

} // verus!
