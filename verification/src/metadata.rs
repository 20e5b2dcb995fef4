//! Enrichment metadata for a game and the fill-missing-only merge policy
//! that combines partial provider results.
use vstd::prelude::*;

verus! {

/// A critic score together with the page it was taken from.
#[derive(Debug)]
#[verifier::ext_equal]
pub struct Metacritic {
    pub score: usize,
    pub url: String,
}

impl Clone for Metacritic {
    /// A cloned score is equal to the original.
    fn clone(&self) -> (r: Self)
        ensures
            r == *self,
    {
        Metacritic { score: self.score, url: self.url.clone() }
    }
}

/// Per-game enrichment result. Every field is independently optional:
/// absence is a normal state, not an error.
#[derive(Debug)]
#[verifier::ext_equal]
pub struct GameMetaData {
    pub summary: Option<String>,
    pub story_line: Option<String>,
    pub screenshots: Vec<String>,
    pub cover: Option<String>,
    pub metacritic: Option<Metacritic>,
}

impl Clone for GameMetaData {
    /// A cloned metadata record has the same content as the original.
    fn clone(&self) -> (r: Self)
        ensures
            r.summary == self.summary,
            r.story_line == self.story_line,
            r.screenshots@ == self.screenshots@,
            r.cover == self.cover,
            r.metacritic == self.metacritic,
            r@ == self@,
    {
        let r = GameMetaData {
            summary: self.summary.clone(),
            story_line: self.story_line.clone(),
            screenshots: self.screenshots.clone(),
            cover: self.cover.clone(),
            metacritic: self.metacritic.clone(),
        };
        proof {
            assert(r.screenshots@ =~= self.screenshots@);
            assert(r@ =~= self@);
        }
        r
    }
}

/// Mathematical content of a `Metacritic` value.
#[verifier::ext_equal]
pub ghost struct MetacriticView {
    pub score: int,
    pub url: Seq<char>,
}

impl View for Metacritic {
    type V = MetacriticView;

    open spec fn view(&self) -> MetacriticView {
        MetacriticView { score: self.score as int, url: self.url@ }
    }
}

/// Mathematical content of a `GameMetaData` value: what the record says,
/// independent of how the strings and lists are allocated.
#[verifier::ext_equal]
pub ghost struct GameMetaDataView {
    pub summary: Option<Seq<char>>,
    pub story_line: Option<Seq<char>>,
    pub screenshots: Seq<Seq<char>>,
    pub cover: Option<Seq<char>>,
    pub metacritic: Option<MetacriticView>,
}

impl View for GameMetaData {
    type V = GameMetaDataView;

    open spec fn view(&self) -> GameMetaDataView {
        GameMetaDataView {
            summary: match self.summary {
                Some(s) => Some(s@),
                None => None,
            },
            story_line: match self.story_line {
                Some(s) => Some(s@),
                None => None,
            },
            screenshots: self.screenshots.deep_view(),
            cover: match self.cover {
                Some(s) => Some(s@),
                None => None,
            },
            metacritic: match self.metacritic {
                Some(m) => Some(m@),
                None => None,
            },
        }
    }
}

impl Default for GameMetaData {
    /// The empty metadata record: nothing known yet.
    fn default() -> (r: Self)
        ensures
            r.summary is None,
            r.story_line is None,
            r.screenshots@.len() == 0,
            r.cover is None,
            r.metacritic is None,
    {
        GameMetaData {
            summary: None,
            story_line: None,
            screenshots: Vec::new(),
            cover: None,
            metacritic: None,
        }
    }
}

impl GameMetaDataView {
    /// The empty record: nothing known.
    pub open spec fn spec_default() -> GameMetaDataView {
        GameMetaDataView {
            summary: None,
            story_line: None,
            screenshots: Seq::empty(),
            cover: None,
            metacritic: None,
        }
    }

    /// The fill-missing-only merge, over record contents.
    pub open spec fn spec_merge(self, other: GameMetaDataView) -> GameMetaDataView {
        GameMetaDataView {
            summary: if self.summary is None {
                other.summary
            } else {
                self.summary
            },
            story_line: if self.story_line is None {
                other.story_line
            } else {
                self.story_line
            },
            screenshots: if self.screenshots.len() < other.screenshots.len() {
                other.screenshots
            } else {
                self.screenshots
            },
            cover: if self.cover is None {
                other.cover
            } else {
                self.cover
            },
            metacritic: if self.metacritic is None {
                other.metacritic
            } else {
                self.metacritic
            },
        }
    }
}

impl GameMetaData {
    /// Fill-missing-only merge: a scalar field of `other` is taken only when
    /// `self` lacks it; the screenshot list of `other` replaces `self`'s only
    /// when it is strictly longer.
    pub open spec fn spec_merge(self, other: GameMetaData) -> GameMetaData {
        GameMetaData {
            summary: if self.summary is None {
                other.summary
            } else {
                self.summary
            },
            story_line: if self.story_line is None {
                other.story_line
            } else {
                self.story_line
            },
            screenshots: if self.screenshots@.len() < other.screenshots@.len() {
                other.screenshots
            } else {
                self.screenshots
            },
            cover: if self.cover is None {
                other.cover
            } else {
                self.cover
            },
            metacritic: if self.metacritic is None {
                other.metacritic
            } else {
                self.metacritic
            },
        }
    }

    pub fn merge(self, other: GameMetaData) -> (r: GameMetaData)
        ensures
            r == self.spec_merge(other),
            r@ == self@.spec_merge(other@),
    {
        proof {
            lemma_merge_view(self, other);
        }
        let mut merged = self;
        if merged.summary.is_none() {
            merged.summary = other.summary;
        }
        if merged.story_line.is_none() {
            merged.story_line = other.story_line;
        }
        if merged.screenshots.len() < other.screenshots.len() {
            merged.screenshots = other.screenshots;
        }
        if merged.metacritic.is_none() {
            merged.metacritic = other.metacritic;
        }
        if merged.cover.is_none() {
            merged.cover = other.cover;
        }
        merged
    }
}

/// The merge of two records, seen at the content level, is the merge of
/// their contents.
pub proof fn lemma_merge_view(a: GameMetaData, b: GameMetaData)
    ensures
        a.spec_merge(b)@ == a@.spec_merge(b@),
{
    assert(a.screenshots.deep_view().len() == a.screenshots@.len());
    assert(b.screenshots.deep_view().len() == b.screenshots@.len());
    assert(a.spec_merge(b)@ =~= a@.spec_merge(b@));
}

/// Merging a record with itself yields the same record.
pub proof fn lemma_merge_idempotent(m: GameMetaData)
    ensures
        m.spec_merge(m) == m,
{
    assert(m.spec_merge(m) =~= m);
}

/// Merging never erases: a field present before the merge is still present,
/// unchanged, afterwards, and the screenshot list never shrinks.
pub proof fn lemma_merge_never_erases(a: GameMetaData, b: GameMetaData)
    ensures
        a.summary is Some ==> a.spec_merge(b).summary == a.summary,
        a.story_line is Some ==> a.spec_merge(b).story_line == a.story_line,
        a.cover is Some ==> a.spec_merge(b).cover == a.cover,
        a.metacritic is Some ==> a.spec_merge(b).metacritic == a.metacritic,
        a.spec_merge(b).screenshots@.len() >= a.screenshots@.len(),
{
}

/// Whether `a` and `b` carry disjoint information: no scalar field is
/// present in both, and at most one of them has any screenshots.
pub open spec fn disjoint_fields(a: GameMetaData, b: GameMetaData) -> bool {
    &&& !(a.summary is Some && b.summary is Some)
    &&& !(a.story_line is Some && b.story_line is Some)
    &&& !(a.cover is Some && b.cover is Some)
    &&& !(a.metacritic is Some && b.metacritic is Some)
    &&& (a.screenshots@.len() == 0 || b.screenshots@.len() == 0)
}

/// For records with disjoint fields the merge is the union of the two,
/// whichever way round it is taken: each field of the result is the one
/// that is present, and the merge is commutative in effect.
pub proof fn lemma_merge_disjoint_union(a: GameMetaData, b: GameMetaData)
    requires
        disjoint_fields(a, b),
    ensures
        a.spec_merge(b).summary == (if a.summary is Some {
            a.summary
        } else {
            b.summary
        }),
        a.spec_merge(b).story_line == (if a.story_line is Some {
            a.story_line
        } else {
            b.story_line
        }),
        a.spec_merge(b).cover == (if a.cover is Some {
            a.cover
        } else {
            b.cover
        }),
        a.spec_merge(b).metacritic == (if a.metacritic is Some {
            a.metacritic
        } else {
            b.metacritic
        }),
        a.spec_merge(b).screenshots@.len() > 0 ==> (a.spec_merge(b).screenshots == a.screenshots
            || a.spec_merge(b).screenshots == b.screenshots),
        a.spec_merge(b)@ == b.spec_merge(a)@,
{
    assert(a.spec_merge(b)@ =~~= b.spec_merge(a)@);
}

} // verus!
