//! The primary metadata provider's result: summary and narrative text, up
//! to four screenshot references and a cover reference, assembled from the
//! image identifiers the provider returns.
use crate::metadata::{GameMetaData, GameMetaDataView};
use vstd::prelude::*;
use vstd::string::StringExecFns;

verus! {

/// What the primary provider returns for one record.
#[derive(Debug)]
pub struct IgdbMetaData {
    pub summary: String,
    pub story_line: String,
    pub screenshots: Vec<String>,
    pub cover: String,
}

/// Mathematical content of a provider result.
#[verifier::ext_equal]
pub ghost struct IgdbMetaDataView {
    pub summary: Seq<char>,
    pub story_line: Seq<char>,
    pub screenshots: Seq<Seq<char>>,
    pub cover: Seq<char>,
}

impl View for IgdbMetaData {
    type V = IgdbMetaDataView;

    open spec fn view(&self) -> IgdbMetaDataView {
        IgdbMetaDataView {
            summary: self.summary@,
            story_line: self.story_line@,
            screenshots: self.screenshots.deep_view(),
            cover: self.cover@,
        }
    }
}

impl IgdbMetaDataView {
    /// The empty result, used when the provider fails or is not consulted.
    pub open spec fn spec_default() -> IgdbMetaDataView {
        IgdbMetaDataView {
            summary: Seq::empty(),
            story_line: Seq::empty(),
            screenshots: Seq::empty(),
            cover: Seq::empty(),
        }
    }

    /// This provider contributes summary, narrative, screenshots and cover;
    /// it never carries a critic score.
    pub open spec fn spec_into_metadata(self) -> GameMetaDataView {
        GameMetaDataView {
            summary: Some(self.summary),
            story_line: Some(self.story_line),
            screenshots: self.screenshots,
            cover: Some(self.cover),
            metacritic: None,
        }
    }
}

impl Default for IgdbMetaData {
    fn default() -> (r: Self)
        ensures
            r@ == IgdbMetaDataView::spec_default(),
    {
        let r = IgdbMetaData {
            summary: String::new(),
            story_line: String::new(),
            screenshots: Vec::new(),
            cover: String::new(),
        };
        proof {
            assert(r@ =~= IgdbMetaDataView::spec_default());
        }
        r
    }
}

/// The address of a full-size screenshot, from the image identifier the
/// provider returns.
pub open spec fn spec_screenshot_url(image_id: Seq<char>) -> Seq<char> {
    "https://images.igdb.com/igdb/image/upload/t_original/"@ + image_id + ".jpg"@
}

/// The address of a large cover image, from its image identifier.
pub open spec fn spec_cover_url(image_id: Seq<char>) -> Seq<char> {
    "https://images.igdb.com/igdb/image/upload/t_cover_big/"@ + image_id + ".png"@
}

fn screenshot_url(image_id: &str) -> (r: String)
    ensures
        r@ == spec_screenshot_url(image_id@),
{
    "https://images.igdb.com/igdb/image/upload/t_original/".to_owned().concat(image_id).concat(
        ".jpg",
    )
}

fn cover_url(image_id: &str) -> (r: String)
    ensures
        r@ == spec_cover_url(image_id@),
{
    "https://images.igdb.com/igdb/image/upload/t_cover_big/".to_owned().concat(image_id).concat(
        ".png",
    )
}

impl IgdbMetaData {
    /// Assemble a provider result from the raw values of the provider's
    /// reply: the texts as returned, each screenshot image identifier turned
    /// into a full-size image address, and the cover image identifier, when
    /// one was found, turned into a cover address (no cover otherwise).
    pub fn from_parts(
        summary: String,
        story_line: String,
        screenshot_ids: Vec<String>,
        cover_id: Option<String>,
    ) -> (r: IgdbMetaData)
        ensures
            r@.summary == summary@,
            r@.story_line == story_line@,
            r@.screenshots.len() == screenshot_ids.deep_view().len(),
            forall|i: int|
                0 <= i < screenshot_ids.deep_view().len() ==> #[trigger] r@.screenshots[i]
                    == spec_screenshot_url(screenshot_ids.deep_view()[i]),
            r@.cover == (match cover_id {
                Some(id) => spec_cover_url(id@),
                None => Seq::<char>::empty(),
            }),
    {
        let mut screenshots: Vec<String> = Vec::new();
        let mut i: usize = 0;
        while i < screenshot_ids.len()
            invariant
                0 <= i <= screenshot_ids@.len(),
                screenshots.deep_view().len() == i,
                forall|j: int|
                    0 <= j < i ==> #[trigger] screenshots.deep_view()[j] == spec_screenshot_url(
                        screenshot_ids.deep_view()[j],
                    ),
            decreases screenshot_ids@.len() - i,
        {
            let url = screenshot_url(screenshot_ids[i].as_str());
            let ghost dv = screenshots.deep_view();
            let ghost url_view = url@;
            screenshots.push(url);
            proof {
                assert(screenshots.deep_view() =~= dv.push(url_view));
            }
            i = i + 1;
        }
        let cover = match cover_id {
            Some(id) => cover_url(id.as_str()),
            None => String::new(),
        };
        IgdbMetaData { summary, story_line, screenshots, cover }
    }

    /// Turn this provider's result into a metadata record.
    pub fn into_metadata(self) -> (r: GameMetaData)
        ensures
            r@ == self@.spec_into_metadata(),
    {
        let r = GameMetaData {
            summary: Some(self.summary),
            story_line: Some(self.story_line),
            screenshots: self.screenshots,
            cover: Some(self.cover),
            metacritic: None,
        };
        proof {
            assert(r@ =~= self@.spec_into_metadata());
        }
        r
    }
}

} // verus!
