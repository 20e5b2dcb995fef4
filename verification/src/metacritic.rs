//! The name-keyed review provider's result: a description and an optional
//! critic score, looked up under a slugified form of the display name.
use crate::metadata::{GameMetaData, GameMetaDataView, Metacritic, MetacriticView};
use crate::text::{remove_apostrophes, strip_apostrophes};
use vstd::prelude::*;
use vstd::string::StringExecFns;

verus! {

/// The slug of a piece of text, as slug::slugify computes it: a function of
/// the text alone.
pub uninterp spec fn slug_of(s: Seq<char>) -> Seq<char>;

/// Relies on slug::slugify: the slug of the text depends on the text alone.
#[verifier::external_body]
fn slugify(s: &str) -> (r: String)
    ensures
        r@ == slug_of(s@),
{
    slug::slugify(s)
}

/// A critic score as this provider reports it.
#[derive(Debug)]
pub struct Rating {
    pub rating_value: usize,
}

/// What the review provider returns for one record.
#[derive(Debug)]
pub struct MetacriticMetaData {
    pub name: String,
    pub description: String,
    pub aggregate_rating: Option<Rating>,
    pub url: String,
}

/// Mathematical content of a review provider result.
#[verifier::ext_equal]
pub ghost struct MetacriticMetaDataView {
    pub name: Seq<char>,
    pub description: Seq<char>,
    pub aggregate_rating: Option<int>,
    pub url: Seq<char>,
}

impl View for MetacriticMetaData {
    type V = MetacriticMetaDataView;

    open spec fn view(&self) -> MetacriticMetaDataView {
        MetacriticMetaDataView {
            name: self.name@,
            description: self.description@,
            aggregate_rating: match self.aggregate_rating {
                Some(r) => Some(r.rating_value as int),
                None => None,
            },
            url: self.url@,
        }
    }
}

impl MetacriticMetaDataView {
    /// The empty result, used when the provider fails.
    pub open spec fn spec_default() -> MetacriticMetaDataView {
        MetacriticMetaDataView {
            name: Seq::empty(),
            description: Seq::empty(),
            aggregate_rating: None,
            url: Seq::empty(),
        }
    }

    /// This provider contributes the description as summary and, when a
    /// rating is present, a critic score pointing at the provider's page;
    /// never a narrative, screenshots or a cover.
    pub open spec fn spec_into_metadata(self) -> GameMetaDataView {
        GameMetaDataView {
            summary: Some(self.description),
            story_line: None,
            screenshots: Seq::empty(),
            cover: None,
            metacritic: match self.aggregate_rating {
                Some(score) => Some(MetacriticView { score, url: self.url }),
                None => None,
            },
        }
    }
}

impl Default for MetacriticMetaData {
    fn default() -> (r: Self)
        ensures
            r@ == MetacriticMetaDataView::spec_default(),
    {
        let r = MetacriticMetaData {
            name: String::new(),
            description: String::new(),
            aggregate_rating: None,
            url: String::new(),
        };
        proof {
            assert(r@ =~= MetacriticMetaDataView::spec_default());
        }
        r
    }
}

impl MetacriticMetaData {
    /// Turn this provider's result into a metadata record.
    pub fn into_metadata(self) -> (r: GameMetaData)
        ensures
            r@ == self@.spec_into_metadata(),
    {
        let metacritic = match self.aggregate_rating {
            Some(rating) => Some(Metacritic { score: rating.rating_value, url: self.url }),
            None => None,
        };
        let r = GameMetaData {
            summary: Some(self.description),
            story_line: None,
            screenshots: Vec::new(),
            cover: None,
            metacritic,
        };
        proof {
            assert(r@ =~= self@.spec_into_metadata());
        }
        r
    }
}

/// The review provider's lookup endpoint: a page address is the base
/// address followed by the normalized display name.
#[derive(Debug)]
pub struct MetacriticClient {
    url: &'static str,
}

impl MetacriticClient {
    /// The base address lookups start from.
    pub closed spec fn base_url(&self) -> Seq<char> {
        self.url@
    }

    pub fn new() -> (r: Self)
        ensures
            r.base_url() == "https://www.metacritic.com/game/"@,
    {
        Self { url: "https://www.metacritic.com/game/" }
    }

    /// The page a display name is looked up at: the name is normalized by
    /// removing apostrophes and slugifying before it is appended to the
    /// base address.
    pub fn lookup_url(&self, game_name: &str) -> (r: String)
        ensures
            r@ == self.base_url() + slug_of(strip_apostrophes(game_name@)),
    {
        let normalized = remove_apostrophes(game_name);
        let slug = slugify(normalized.as_str());
        self.url.to_owned().concat(slug.as_str())
    }
}

impl Default for MetacriticClient {
    fn default() -> (r: Self)
        ensures
            r.base_url() == "https://www.metacritic.com/game/"@,
    {
        Self::new()
    }
}

} // verus!
