//! The software record held by the catalog: a plain-value snapshot of one
//! game, with a stable numeric identifier. Records are immutable once part
//! of a catalog; dates are carried as day numbers and store identifiers as
//! plain integers, so that the rules that read them can be stated exactly.
use vstd::prelude::*;

verus! {

/// How well the game runs, from the status field of the database.
#[derive(Debug, Clone, Copy, PartialEq, Eq, Structural)]
pub enum Status {
    Unknown,
    DoesNotRun,
    Launches,
    MajorBugs,
    MediumImpact,
    MinorBugs,
    Completable,
    Perfect,
}

impl Status {
    /// The lowercase token that names this status in a query string.
    pub open spec fn spec_query_value(self) -> Seq<char> {
        match self {
            Status::Unknown => "unknown"@,
            Status::DoesNotRun => "doesnotrun"@,
            Status::Launches => "launches"@,
            Status::MajorBugs => "majorbugs"@,
            Status::MediumImpact => "mediumimpact"@,
            Status::MinorBugs => "minorbugs"@,
            Status::Completable => "completable"@,
            Status::Perfect => "perfect"@,
        }
    }

    pub fn query_value(&self) -> (r: String)
        ensures
            r@ == self.spec_query_value(),
    {
        match self {
            Status::Unknown => "unknown".to_owned(),
            Status::DoesNotRun => "doesnotrun".to_owned(),
            Status::Launches => "launches".to_owned(),
            Status::MajorBugs => "majorbugs".to_owned(),
            Status::MediumImpact => "mediumimpact".to_owned(),
            Status::MinorBugs => "minorbugs".to_owned(),
            Status::Completable => "completable".to_owned(),
            Status::Perfect => "perfect".to_owned(),
        }
    }
}

/// One software record. `added` and `updated` are day numbers (days from an
/// arbitrary fixed epoch, as the collaborator that parses the catalog counts
/// them); `igdb_id` and `steam_id` are the optional external-provider
/// identifiers that decide whether enrichment is possible.
#[derive(Debug)]
pub struct Game {
    pub uid: u32,
    pub name: String,
    pub cover: Option<String>,
    pub engine: Option<String>,
    pub setup: Option<String>,
    pub runtime: Option<String>,
    pub hints: Option<String>,
    pub genres: Option<Vec<String>>,
    pub tags: Option<Vec<String>>,
    pub year: Option<String>,
    pub devs: Option<Vec<String>>,
    pub publis: Option<Vec<String>>,
    pub version: Option<String>,
    pub status: Status,
    pub status_message: Option<String>,
    pub added: u32,
    pub updated: u32,
    pub igdb_id: Option<usize>,
    pub steam_id: Option<usize>,
}

/// Mathematical content of one record, independent of how its strings and
/// lists are allocated.
#[verifier::ext_equal]
pub ghost struct GameView {
    pub uid: u32,
    pub name: Seq<char>,
    pub cover: Option<Seq<char>>,
    pub engine: Option<Seq<char>>,
    pub setup: Option<Seq<char>>,
    pub runtime: Option<Seq<char>>,
    pub hints: Option<Seq<char>>,
    pub genres: Option<Seq<Seq<char>>>,
    pub tags: Option<Seq<Seq<char>>>,
    pub year: Option<Seq<char>>,
    pub devs: Option<Seq<Seq<char>>>,
    pub publis: Option<Seq<Seq<char>>>,
    pub version: Option<Seq<char>>,
    pub status: Status,
    pub status_message: Option<Seq<char>>,
    pub added: u32,
    pub updated: u32,
    pub igdb_id: Option<usize>,
    pub steam_id: Option<usize>,
}

/// The view of an optional string.
pub open spec fn opt_view(s: Option<String>) -> Option<Seq<char>> {
    match s {
        Some(v) => Some(v@),
        None => None,
    }
}

/// The deep view of an optional list of strings.
pub open spec fn opt_list_view(s: Option<Vec<String>>) -> Option<Seq<Seq<char>>> {
    match s {
        Some(v) => Some(v.deep_view()),
        None => None,
    }
}

impl View for Game {
    type V = GameView;

    open spec fn view(&self) -> GameView {
        GameView {
            uid: self.uid,
            name: self.name@,
            cover: opt_view(self.cover),
            engine: opt_view(self.engine),
            setup: opt_view(self.setup),
            runtime: opt_view(self.runtime),
            hints: opt_view(self.hints),
            genres: opt_list_view(self.genres),
            tags: opt_list_view(self.tags),
            year: opt_view(self.year),
            devs: opt_list_view(self.devs),
            publis: opt_list_view(self.publis),
            version: opt_view(self.version),
            status: self.status,
            status_message: opt_view(self.status_message),
            added: self.added,
            updated: self.updated,
            igdb_id: self.igdb_id,
            steam_id: self.steam_id,
        }
    }
}

/// An optional string and its clone have the same view.
proof fn lemma_cloned_opt_string(a: Option<String>, b: Option<String>)
    requires
        cloned::<Option<String>>(a, b),
    ensures
        a == b,
{
}

/// An optional string list and its clone have the same deep view.
proof fn lemma_cloned_opt_list(a: Option<Vec<String>>, b: Option<Vec<String>>)
    requires
        cloned::<Option<Vec<String>>>(a, b),
    ensures
        opt_list_view(a) == opt_list_view(b),
{
    if a != b {
        let av = a.unwrap();
        let bv = b.unwrap();
        assert(forall|i: int|
            0 <= i < av@.len() ==> #[trigger] av@[i]@ == bv@[i]@) by {
            assert(forall|i: int|
                0 <= i < av@.len() ==> #[trigger] cloned::<String>(av@[i], bv@[i]));
        }
        assert(av.deep_view() =~= bv.deep_view());
    }
}

impl Clone for Game {
    /// A cloned record has the same content as the original.
    fn clone(&self) -> (r: Self)
        ensures
            r@ == self@,
    {
        let r = Game {
            uid: self.uid,
            name: self.name.clone(),
            cover: self.cover.clone(),
            engine: self.engine.clone(),
            setup: self.setup.clone(),
            runtime: self.runtime.clone(),
            hints: self.hints.clone(),
            genres: self.genres.clone(),
            tags: self.tags.clone(),
            year: self.year.clone(),
            devs: self.devs.clone(),
            publis: self.publis.clone(),
            version: self.version.clone(),
            status: self.status,
            status_message: self.status_message.clone(),
            added: self.added,
            updated: self.updated,
            igdb_id: self.igdb_id,
            steam_id: self.steam_id,
        };
        proof {
            lemma_cloned_opt_string(self.cover, r.cover);
            lemma_cloned_opt_string(self.engine, r.engine);
            lemma_cloned_opt_string(self.setup, r.setup);
            lemma_cloned_opt_string(self.runtime, r.runtime);
            lemma_cloned_opt_string(self.hints, r.hints);
            lemma_cloned_opt_list(self.genres, r.genres);
            lemma_cloned_opt_list(self.tags, r.tags);
            lemma_cloned_opt_string(self.year, r.year);
            lemma_cloned_opt_list(self.devs, r.devs);
            lemma_cloned_opt_list(self.publis, r.publis);
            lemma_cloned_opt_string(self.version, r.version);
            lemma_cloned_opt_string(self.status_message, r.status_message);
            assert(r@ =~= self@);
        }
        r
    }
}

impl Game {
    /// A record is eligible for enrichment when it carries at least one
    /// external-provider identifier.
    pub open spec fn spec_has_metadata_source(self) -> bool {
        self.igdb_id is Some || self.steam_id is Some
    }

    pub fn has_metadata_source(&self) -> (r: bool)
        ensures
            r == self.spec_has_metadata_source(),
    {
        self.igdb_id.is_some() || self.steam_id.is_some()
    }

    /// Whether the record was added within the last 30 days of day `today`
    /// (a record dated in the future counts as recent too).
    pub open spec fn spec_is_recent(self, today: u32) -> bool {
        self.added + 30 > today
    }

    pub fn is_recent(&self, today: u32) -> (r: bool)
        ensures
            r == self.spec_is_recent(today),
    {
        self.added as u64 + 30 > today as u64
    }
}

/// A record joined with its cached enrichment metadata, if any.
#[derive(Debug, Clone)]
pub struct GameRepresentation {
    pub game: Game,
    pub metadata: Option<crate::metadata::GameMetaData>,
}

impl GameRepresentation {
    pub fn new(game: Game, metadata: Option<crate::metadata::GameMetaData>) -> (r: Self)
        ensures
            r.game == game,
            r.metadata == metadata,
    {
        Self { game, metadata }
    }
}

} // verus!
