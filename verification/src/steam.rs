//! The storefront provider's result: description text, screenshots
//! (sanitized and capped at four), an optional critic score, and a cover
//! address synthesized from the storefront identifier.
use crate::metadata::{GameMetaData, GameMetaDataView, Metacritic, MetacriticView};
use crate::text::{spec_udec, u64_to_string};
use vstd::prelude::*;
use vstd::string::StringExecFns;

verus! {

/// The sanitized form of a piece of HTML, as ammonia computes it: a
/// function of the input text alone.
pub uninterp spec fn clean_of(s: Seq<char>) -> Seq<char>;

/// Relies on ammonia::clean: the sanitized form of the text depends on the
/// text alone.
#[verifier::external_body]
fn clean_html(s: &str) -> (r: String)
    ensures
        r@ == clean_of(s@),
{
    ammonia::clean(s)
}

/// A critic score as the storefront reports it.
#[derive(Debug)]
pub struct SteamMetacritic {
    pub score: usize,
    pub url: String,
}

impl View for SteamMetacritic {
    type V = MetacriticView;

    open spec fn view(&self) -> MetacriticView {
        MetacriticView { score: self.score as int, url: self.url@ }
    }
}

impl SteamMetacritic {
    /// The storefront's critic score carried over unchanged.
    pub fn into_metacritic(self) -> (r: Metacritic)
        ensures
            r@ == self@,
    {
        Metacritic { score: self.score, url: self.url }
    }
}

/// One screenshot reference of the storefront's reply.
#[derive(Debug)]
pub struct Screenshot {
    pub path_thumbnail: String,
}

impl View for Screenshot {
    type V = Seq<char>;

    open spec fn view(&self) -> Seq<char> {
        self.path_thumbnail@
    }
}

impl DeepView for Screenshot {
    type V = Seq<char>;

    open spec fn deep_view(&self) -> Seq<char> {
        self.path_thumbnail@
    }
}

/// What the storefront provider returns for one record.
#[derive(Debug)]
pub struct SteamMetaData {
    pub about_the_game: String,
    pub short_description: String,
    pub screenshots: Vec<Screenshot>,
    pub metacritic: Option<SteamMetacritic>,
    pub cover: String,
}

/// Mathematical content of a storefront result.
#[verifier::ext_equal]
pub ghost struct SteamMetaDataView {
    pub about_the_game: Seq<char>,
    pub short_description: Seq<char>,
    pub screenshots: Seq<Seq<char>>,
    pub metacritic: Option<MetacriticView>,
    pub cover: Seq<char>,
}

impl View for SteamMetaData {
    type V = SteamMetaDataView;

    open spec fn view(&self) -> SteamMetaDataView {
        SteamMetaDataView {
            about_the_game: self.about_the_game@,
            short_description: self.short_description@,
            screenshots: self.screenshots.deep_view(),
            metacritic: match self.metacritic {
                Some(m) => Some(m@),
                None => None,
            },
            cover: self.cover@,
        }
    }
}

impl SteamMetaDataView {
    /// The empty result, used when the provider fails or is not consulted.
    pub open spec fn spec_default() -> SteamMetaDataView {
        SteamMetaDataView {
            about_the_game: Seq::empty(),
            short_description: Seq::empty(),
            screenshots: Seq::empty(),
            metacritic: None,
            cover: Seq::empty(),
        }
    }

    /// This provider contributes the short description as summary, its
    /// screenshots, its cover, and the critic score; never a narrative.
    pub open spec fn spec_into_metadata(self) -> GameMetaDataView {
        GameMetaDataView {
            summary: Some(self.short_description),
            story_line: None,
            screenshots: self.screenshots,
            cover: Some(self.cover),
            metacritic: self.metacritic,
        }
    }
}

impl Default for SteamMetaData {
    fn default() -> (r: Self)
        ensures
            r@ == SteamMetaDataView::spec_default(),
    {
        let r = SteamMetaData {
            about_the_game: String::new(),
            short_description: String::new(),
            screenshots: Vec::new(),
            metacritic: None,
            cover: String::new(),
        };
        proof {
            assert(r@ =~= SteamMetaDataView::spec_default());
        }
        r
    }
}

/// The address of the storefront's cover image for one identifier.
pub open spec fn spec_steam_cover_url(steam_id: int) -> Seq<char> {
    "https://shared.steamstatic.com/store_item_assets/steam/apps/"@ + spec_udec(steam_id as nat)
        + "/hero_capsule.jpg"@
}

impl SteamMetaData {
    /// The post-processing the pipeline applies to the storefront's raw
    /// reply before using it: the long description is sanitized against
    /// injected markup, the screenshot list is capped at four entries, and
    /// the cover address is synthesized from the storefront identifier.
    pub fn finalize(self, steam_id: usize) -> (r: SteamMetaData)
        ensures
            r@.about_the_game == clean_of(self@.about_the_game),
            r@.short_description == self@.short_description,
            r@.screenshots == (if self@.screenshots.len() > 4 {
                self@.screenshots.subrange(0, 4)
            } else {
                self@.screenshots
            }),
            r@.metacritic == self@.metacritic,
            r@.cover == spec_steam_cover_url(steam_id as int),
    {
        let about_the_game = clean_html(self.about_the_game.as_str());
        let mut screenshots = self.screenshots;
        let ghost all_screenshots = screenshots.deep_view();
        screenshots.truncate(4);
        proof {
            if all_screenshots.len() > 4 {
                assert(screenshots.deep_view() =~= all_screenshots.subrange(0, 4));
            } else {
                assert(screenshots.deep_view() =~= all_screenshots);
            }
        }
        let cover = steam_cover_url(steam_id);
        SteamMetaData {
            about_the_game,
            short_description: self.short_description,
            screenshots,
            metacritic: self.metacritic,
            cover,
        }
    }

    /// Turn this provider's result into a metadata record.
    pub fn into_metadata(self) -> (r: GameMetaData)
        ensures
            r@ == self@.spec_into_metadata(),
    {
        let metacritic = match self.metacritic {
            Some(m) => Some(m.into_metacritic()),
            None => None,
        };
        let mut screenshots: Vec<String> = Vec::new();
        let ghost all = self.screenshots.deep_view();
        let mut i: usize = 0;
        while i < self.screenshots.len()
            invariant
                0 <= i <= self.screenshots@.len(),
                all == self.screenshots.deep_view(),
                screenshots.deep_view().len() == i,
                forall|j: int| 0 <= j < i ==> #[trigger] screenshots.deep_view()[j] == all[j],
            decreases self.screenshots@.len() - i,
        {
            let path = self.screenshots[i].path_thumbnail.clone();
            let ghost dv = screenshots.deep_view();
            let ghost path_view = path@;
            screenshots.push(path);
            proof {
                assert(screenshots.deep_view() =~= dv.push(path_view));
            }
            i = i + 1;
        }
        proof {
            assert(screenshots.deep_view() =~= all);
        }
        let r = GameMetaData {
            summary: Some(self.short_description),
            story_line: None,
            screenshots,
            cover: Some(self.cover),
            metacritic,
        };
        proof {
            assert(r@ =~= self@.spec_into_metadata());
        }
        r
    }
}

/// The address of the storefront's cover image.
fn steam_cover_url(steam_id: usize) -> (r: String)
    ensures
        r@ == spec_steam_cover_url(steam_id as int),
{
    let id = u64_to_string(steam_id as u64);
    "https://shared.steamstatic.com/store_item_assets/steam/apps/".to_owned().concat(
        id.as_str(),
    ).concat("/hero_capsule.jpg")
}

/// The storefront's lookup endpoint; the pipeline appends an identifier to
/// the base address to fetch one record's details.
#[derive(Debug)]
pub struct SteamClient {
    url: &'static str,
}

impl SteamClient {
    /// The base address lookups start from.
    pub closed spec fn base_url(&self) -> Seq<char> {
        self.url@
    }

    pub fn new() -> (r: Self)
        ensures
            r.base_url() == "https://store.steampowered.com/api/appdetails?appids="@,
    {
        Self { url: "https://store.steampowered.com/api/appdetails?appids=" }
    }

    /// The address the details of one identifier are fetched from.
    pub fn request_url(&self, steam_id: usize) -> (r: String)
        ensures
            r@ == self.base_url() + spec_udec(steam_id as nat),
    {
        let id = u64_to_string(steam_id as u64);
        self.url.to_owned().concat(id.as_str())
    }
}

impl Default for SteamClient {
    fn default() -> (r: Self)
        ensures
            r.base_url() == "https://store.steampowered.com/api/appdetails?appids="@,
    {
        Self::new()
    }
}

} // verus!
