//! Structural game filter: a set of optional per-field patterns. A game
//! matches the filter when at least one set field's pattern occurs,
//! case-insensitively, in the corresponding field of the game (or, for the
//! status, when the statuses are equal).
use crate::game::{Game, Status};
use vstd::prelude::*;
use vstd::string::StringExecFns;

verus! {

/// The views of a list of strings.
pub open spec fn string_views(parts: Seq<String>) -> Seq<Seq<char>> {
    parts.map_values(|s: String| s@)
}

/// The parts of `parts`, joined with `&` between consecutive parts.
pub open spec fn spec_join_amp(parts: Seq<Seq<char>>) -> Seq<char>
    decreases parts.len(),
{
    if parts.len() == 0 {
        Seq::empty()
    } else if parts.len() == 1 {
        parts[0]
    } else {
        spec_join_amp(parts.drop_last()) + "&"@ + parts.last()
    }
}

/// `parts` with `key=value` appended when the value is set, unchanged
/// otherwise.
pub open spec fn spec_push_part(
    parts: Seq<Seq<char>>,
    key: Seq<char>,
    value: Option<String>,
) -> Seq<Seq<char>> {
    match value {
        Some(v) => parts.push(key + v@),
        None => parts,
    }
}

/// `key` directly followed by `value`.
fn make_part(key: &str, value: &str) -> (r: String)
    ensures
        r@ == key@ + value@,
{
    key.to_owned().concat(value)
}

/// Append the `key=value` part for one optional field, when it is set.
fn push_part(parts: &mut Vec<String>, key: &str, value: &Option<String>)
    ensures
        string_views(final(parts)@) == spec_push_part(string_views(old(parts)@), key@, *value),
{
    if let Some(v) = value {
        parts.push(make_part(key, v.as_str()));
    }
    proof {
        assert(string_views(parts@) =~= spec_push_part(string_views(old(parts)@), key@, *value));
    }
}

/// Join string parts with `&` separators.
fn join_amp(parts: &Vec<String>) -> (r: String)
    ensures
        r@ == spec_join_amp(string_views(parts@)),
{
    let mut out = String::new();
    let mut i: usize = 0;
    while i < parts.len()
        invariant
            0 <= i <= parts@.len(),
            out@ == spec_join_amp(string_views(parts@).subrange(0, i as int)),
        decreases parts@.len() - i,
    {
        if i > 0 {
            out.append("&");
        }
        out.append(parts[i].as_str());
        proof {
            let views = string_views(parts@);
            assert(views.subrange(0, i + 1).drop_last() =~= views.subrange(0, i as int));
            assert(views.subrange(0, i + 1).last() == parts@[i as int]@);
        }
        i = i + 1;
    }
    proof {
        assert(string_views(parts@).subrange(0, parts@.len() as int) =~= string_views(parts@));
    }
    out
}

/// The bytes of the lowercase form of a string, as `str::to_lowercase`
/// computes it: a function of the characters alone.
pub uninterp spec fn lower_of(s: Seq<char>) -> Seq<u8>;

/// Relies on str::to_lowercase: the lowercase form of a string depends on
/// its characters alone.
#[verifier::external_body]
fn lower_bytes(s: &str) -> (r: Vec<u8>)
    ensures
        r@ == lower_of(s@),
{
    s.to_lowercase().into_bytes()
}

/// Whether `needle` occurs contiguously inside `hay`.
pub open spec fn is_substring_of(needle: Seq<u8>, hay: Seq<u8>) -> bool {
    exists|i: int|
        0 <= i <= hay.len() - needle.len() && #[trigger] hay.subrange(i, i + needle.len())
            == needle
}

/// Whether `needle` occurs at position `i` of `hay`.
fn matches_at(hay: &Vec<u8>, needle: &Vec<u8>, i: usize) -> (r: bool)
    requires
        i + needle@.len() <= hay@.len(),
    ensures
        r == (hay@.subrange(i as int, i + needle@.len()) == needle@),
{
    let n = needle.len();
    let h = hay.len();
    let mut j: usize = 0;
    while j < n
        invariant
            0 <= j <= n,
            n == needle@.len(),
            i + n <= hay@.len(),
            hay@.len() <= usize::MAX,
            forall|k: int| 0 <= k < j ==> hay@[i + k] == needle@[k],
        decreases n - j,
    {
        if hay[i + j] != needle[j] {
            assert(hay@.subrange(i as int, i + needle@.len())[j as int] != needle@[j as int]);
            return false;
        }
        j = j + 1;
    }
    assert(hay@.subrange(i as int, i + needle@.len()) =~= needle@);
    true
}

/// Contiguous substring search over plain bytes.
fn contains_bytes(hay: &Vec<u8>, needle: &Vec<u8>) -> (r: bool)
    ensures
        r == is_substring_of(needle@, hay@),
{
    let h = hay.len();
    let n = needle.len();
    if n > h {
        assert(!is_substring_of(needle@, hay@));
        return false;
    }
    let bound = h - n;
    let mut i: usize = 0;
    while i < bound
        invariant
            0 <= i <= bound,
            h == hay@.len(),
            n == needle@.len(),
            bound == h - n,
            forall|j: int|
                0 <= j < i ==> #[trigger] hay@.subrange(j, j + needle@.len()) != needle@,
        decreases bound - i,
    {
        if matches_at(hay, needle, i) {
            return true;
        }
        i = i + 1;
    }
    if matches_at(hay, needle, bound) {
        return true;
    }
    assert(forall|j: int|
        0 <= j <= hay@.len() - needle@.len() ==> #[trigger] hay@.subrange(j, j + needle@.len())
            != needle@);
    false
}

/// Whether the lowercase form of `pattern` occurs in the lowercase form of
/// `value`.
pub open spec fn spec_value_matches(value: Seq<char>, pattern: Seq<char>) -> bool {
    is_substring_of(lower_of(pattern), lower_of(value))
}

fn value_matches(value: &str, pattern: &str) -> (r: bool)
    ensures
        r == spec_value_matches(value@, pattern@),
{
    let hay = lower_bytes(value);
    let needle = lower_bytes(pattern);
    contains_bytes(&hay, &needle)
}

/// Whether some entry of `items` matches the pattern case-insensitively.
pub open spec fn spec_any_value_matches(items: Seq<String>, pattern: Seq<char>) -> bool {
    exists|i: int| 0 <= i < items.len() && spec_value_matches(items[i]@, pattern)
}

fn any_value_matches(items: &Vec<String>, pattern: &str) -> (r: bool)
    ensures
        r == spec_any_value_matches(items@, pattern@),
{
    let mut i: usize = 0;
    while i < items.len()
        invariant
            0 <= i <= items@.len(),
            forall|j: int| 0 <= j < i ==> !spec_value_matches(items@[j]@, pattern@),
        decreases items@.len() - i,
    {
        if value_matches(items[i].as_str(), pattern) {
            return true;
        }
        i = i + 1;
    }
    false
}

/// Per-field filtering patterns; a field left `None` takes no part in the
/// match.
#[derive(Debug, Clone, Default)]
pub struct GameFilterWrapper {
    pub name: Option<String>,
    pub engine: Option<String>,
    pub runtime: Option<String>,
    pub genre: Option<String>,
    pub tag: Option<String>,
    pub year: Option<String>,
    pub dev: Option<String>,
    pub publi: Option<String>,
    pub status: Option<Status>,
}

/// Match of one optional scalar field of a game against one optional
/// pattern: both must be present and the pattern must occur in the value.
pub open spec fn spec_scalar_match(field: Option<String>, pattern: Option<String>) -> bool {
    match (pattern, field) {
        (Some(p), Some(v)) => spec_value_matches(v@, p@),
        _ => false,
    }
}

/// Match of one optional list field of a game against one optional pattern.
pub open spec fn spec_list_match(field: Option<Vec<String>>, pattern: Option<String>) -> bool {
    match (pattern, field) {
        (Some(p), Some(items)) => spec_any_value_matches(items@, p@),
        _ => false,
    }
}

impl GameFilterWrapper {
    /// Whether the game matches the filter: true when at least one set
    /// field's pattern occurs case-insensitively in the game's field, or the
    /// set status equals the game's status.
    pub open spec fn spec_check_game(self, game: Game) -> bool {
        ||| match self.name {
            Some(p) => spec_value_matches(game.name@, p@),
            None => false,
        }
        ||| spec_scalar_match(game.engine, self.engine)
        ||| spec_scalar_match(game.runtime, self.runtime)
        ||| spec_list_match(game.genres, self.genre)
        ||| spec_list_match(game.tags, self.tag)
        ||| spec_scalar_match(game.year, self.year)
        ||| spec_list_match(game.devs, self.dev)
        ||| spec_list_match(game.publis, self.publi)
        ||| match self.status {
            Some(s) => game.status == s,
            None => false,
        }
    }

    pub fn check_game(&self, game: &Game) -> (r: bool)
        ensures
            r == self.spec_check_game(*game),
    {
        let check_name = match &self.name {
            Some(p) => value_matches(game.name.as_str(), p.as_str()),
            None => false,
        };
        let check_engine = match (&self.engine, &game.engine) {
            (Some(p), Some(v)) => value_matches(v.as_str(), p.as_str()),
            _ => false,
        };
        let check_runtime = match (&self.runtime, &game.runtime) {
            (Some(p), Some(v)) => value_matches(v.as_str(), p.as_str()),
            _ => false,
        };
        let check_genre = match (&self.genre, &game.genres) {
            (Some(p), Some(items)) => any_value_matches(items, p.as_str()),
            _ => false,
        };
        let check_tag = match (&self.tag, &game.tags) {
            (Some(p), Some(items)) => any_value_matches(items, p.as_str()),
            _ => false,
        };
        let check_year = match (&self.year, &game.year) {
            (Some(p), Some(v)) => value_matches(v.as_str(), p.as_str()),
            _ => false,
        };
        let check_dev = match (&self.dev, &game.devs) {
            (Some(p), Some(items)) => any_value_matches(items, p.as_str()),
            _ => false,
        };
        let check_publi = match (&self.publi, &game.publis) {
            (Some(p), Some(items)) => any_value_matches(items, p.as_str()),
            _ => false,
        };
        let check_status = match &self.status {
            Some(s) => game.status == *s,
            None => false,
        };
        check_name || check_engine || check_runtime || check_genre || check_tag || check_year
            || check_dev || check_publi || check_status
    }

    pub fn new(
        name: Option<String>,
        engine: Option<String>,
        runtime: Option<String>,
        genre: Option<String>,
        tag: Option<String>,
        year: Option<String>,
        dev: Option<String>,
        publi: Option<String>,
        status: Option<Status>,
    ) -> (r: Self)
        ensures
            r == (GameFilterWrapper { name, engine, runtime, genre, tag, year, dev, publi, status }),
    {
        Self { name, engine, runtime, genre, tag, year, dev, publi, status }
    }

    /// A filter that looks for one pattern in every text field.
    pub fn from_pattern(pattern: &str) -> (r: Self)
        ensures
            r.name is Some && r.name->0@ == pattern@,
            r.engine is Some && r.engine->0@ == pattern@,
            r.runtime is Some && r.runtime->0@ == pattern@,
            r.genre is Some && r.genre->0@ == pattern@,
            r.tag is Some && r.tag->0@ == pattern@,
            r.year is Some && r.year->0@ == pattern@,
            r.dev is Some && r.dev->0@ == pattern@,
            r.publi is Some && r.publi->0@ == pattern@,
            r.status is None,
    {
        Self {
            name: Some(pattern.to_owned()),
            engine: Some(pattern.to_owned()),
            runtime: Some(pattern.to_owned()),
            genre: Some(pattern.to_owned()),
            tag: Some(pattern.to_owned()),
            year: Some(pattern.to_owned()),
            dev: Some(pattern.to_owned()),
            publi: Some(pattern.to_owned()),
            status: None,
        }
    }

    /// The `key=value` parts of the filter's query string, in field order,
    /// one part for each field that is set.
    pub open spec fn spec_query_parts(self) -> Seq<Seq<char>> {
        let parts = spec_push_part(Seq::empty(), "name="@, self.name);
        let parts = spec_push_part(parts, "engine="@, self.engine);
        let parts = spec_push_part(parts, "runtime="@, self.runtime);
        let parts = spec_push_part(parts, "genre="@, self.genre);
        let parts = spec_push_part(parts, "tag="@, self.tag);
        let parts = spec_push_part(parts, "year="@, self.year);
        let parts = spec_push_part(parts, "dev="@, self.dev);
        let parts = spec_push_part(parts, "publi="@, self.publi);
        match self.status {
            Some(s) => parts.push("status="@ + s.spec_query_value()),
            None => parts,
        }
    }

    /// The filter as a query string: its set fields as `key=value` parts,
    /// joined with `&`.
    pub fn query_string(&self) -> (r: String)
        ensures
            r@ == spec_join_amp(self.spec_query_parts()),
    {
        let mut parts: Vec<String> = Vec::new();
        proof {
            assert(string_views(parts@) =~= Seq::<Seq<char>>::empty());
        }
        push_part(&mut parts, "name=", &self.name);
        push_part(&mut parts, "engine=", &self.engine);
        push_part(&mut parts, "runtime=", &self.runtime);
        push_part(&mut parts, "genre=", &self.genre);
        push_part(&mut parts, "tag=", &self.tag);
        push_part(&mut parts, "year=", &self.year);
        push_part(&mut parts, "dev=", &self.dev);
        push_part(&mut parts, "publi=", &self.publi);
        if let Some(s) = &self.status {
            let value = s.query_value();
            parts.push(make_part("status=", value.as_str()));
        }
        proof {
            assert(string_views(parts@) =~= self.spec_query_parts());
        }
        join_amp(&parts)
    }

    /// Whether no field of the filter is set.
    pub open spec fn spec_is_empty(self) -> bool {
        &&& self.name is None
        &&& self.engine is None
        &&& self.runtime is None
        &&& self.genre is None
        &&& self.tag is None
        &&& self.year is None
        &&& self.dev is None
        &&& self.publi is None
        &&& self.status is None
    }

    pub fn is_empty(&self) -> (r: bool)
        ensures
            r == self.spec_is_empty(),
    {
        self.name.is_none() && self.engine.is_none() && self.runtime.is_none()
            && self.genre.is_none() && self.tag.is_none() && self.year.is_none()
            && self.dev.is_none() && self.publi.is_none() && self.status.is_none()
    }
}

} // verus!
