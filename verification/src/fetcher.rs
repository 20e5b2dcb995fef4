//! The enrichment pipeline's inbox: two bounded, priority-tagged lanes of
//! enrichment jobs, and the rule that combines the three providers' partial
//! results for one job into a single metadata record.
use crate::igdb::{IgdbMetaData, IgdbMetaDataView};
use crate::metacritic::{MetacriticMetaData, MetacriticMetaDataView};
use crate::metadata::{GameMetaData, GameMetaDataView};
use crate::steam::{SteamMetaData, SteamMetaDataView};
use vstd::prelude::*;

verus! {

/// An enrichment job: which provider identifiers the record carries and the
/// display name used for the name-keyed lookup. The reply channel that the
/// running system pairs with a job lives outside the model.
#[derive(Debug)]
pub struct FetcherMessage {
    pub igdb_id: Option<usize>,
    pub steam_id: Option<usize>,
    pub game_name: String,
}

/// Mathematical content of an enrichment job.
#[verifier::ext_equal]
pub ghost struct FetcherMessageView {
    pub igdb_id: Option<usize>,
    pub steam_id: Option<usize>,
    pub game_name: Seq<char>,
}

impl View for FetcherMessage {
    type V = FetcherMessageView;

    open spec fn view(&self) -> FetcherMessageView {
        FetcherMessageView {
            igdb_id: self.igdb_id,
            steam_id: self.steam_id,
            game_name: self.game_name@,
        }
    }
}

/// How many jobs one lane holds at most before submissions are refused.
pub const LANE_CAPACITY: usize = 300;

/// The views of a queue of jobs.
pub open spec fn job_views(jobs: Seq<FetcherMessage>) -> Seq<FetcherMessageView> {
    jobs.map_values(|m: FetcherMessage| m@)
}

/// The pipeline's two inbound lanes, each a bounded queue in arrival order:
/// one for jobs tied to a live request, one for background warm-up.
#[derive(Debug)]
pub struct FetcherLanes {
    high_priority: Vec<FetcherMessage>,
    low_priority: Vec<FetcherMessage>,
}

impl FetcherLanes {
    pub closed spec fn high(self) -> Seq<FetcherMessageView> {
        job_views(self.high_priority@)
    }

    pub closed spec fn low(self) -> Seq<FetcherMessageView> {
        job_views(self.low_priority@)
    }

    /// Both lanes start empty.
    pub fn new() -> (r: Self)
        ensures
            r.high() == Seq::<FetcherMessageView>::empty(),
            r.low() == Seq::<FetcherMessageView>::empty(),
    {
        proof {
            assert(job_views(Seq::<FetcherMessage>::empty()) =~= Seq::<
                FetcherMessageView,
            >::empty());
        }
        FetcherLanes { high_priority: Vec::new(), low_priority: Vec::new() }
    }

    /// Submit a job on the interactive lane. When the lane is full the job
    /// is refused and nothing changes: the caller has to wait and retry.
    pub fn submit_high(&mut self, job: FetcherMessage) -> (accepted: bool)
        ensures
            accepted == (old(self).high().len() < LANE_CAPACITY),
            accepted ==> final(self).high() == old(self).high().push(job@),
            !accepted ==> final(self).high() == old(self).high(),
            final(self).low() == old(self).low(),
    {
        if self.high_priority.len() < LANE_CAPACITY {
            let ghost old_jobs = self.high_priority@;
            self.high_priority.push(job);
            proof {
                assert(job_views(self.high_priority@) =~= job_views(old_jobs).push(job@));
            }
            true
        } else {
            false
        }
    }

    /// Submit a job on the background lane, refused when full.
    pub fn submit_low(&mut self, job: FetcherMessage) -> (accepted: bool)
        ensures
            accepted == (old(self).low().len() < LANE_CAPACITY),
            accepted ==> final(self).low() == old(self).low().push(job@),
            !accepted ==> final(self).low() == old(self).low(),
            final(self).high() == old(self).high(),
    {
        if self.low_priority.len() < LANE_CAPACITY {
            let ghost old_jobs = self.low_priority@;
            self.low_priority.push(job);
            proof {
                assert(job_views(self.low_priority@) =~= job_views(old_jobs).push(job@));
            }
            true
        } else {
            false
        }
    }

    /// The next job to service. The high-priority lane is preferred whenever
    /// both lanes have ready work: a low-priority job is taken only when no
    /// high-priority job is pending.
    pub fn next_job(&mut self) -> (r: Option<FetcherMessage>)
        ensures
            old(self).high().len() > 0 ==> {
                &&& r is Some
                &&& r->0@ == old(self).high()[0]
                &&& final(self).high() == old(self).high().drop_first()
                &&& final(self).low() == old(self).low()
            },
            old(self).high().len() == 0 && old(self).low().len() > 0 ==> {
                &&& r is Some
                &&& r->0@ == old(self).low()[0]
                &&& final(self).low() == old(self).low().drop_first()
                &&& final(self).high() == old(self).high()
            },
            old(self).high().len() == 0 && old(self).low().len() == 0 ==> {
                &&& r is None
                &&& *final(self) == *old(self)
            },
    {
        if self.high_priority.len() > 0 {
            let ghost old_jobs = self.high_priority@;
            let job = self.high_priority.remove(0);
            proof {
                assert(job_views(self.high_priority@) =~= job_views(old_jobs).drop_first());
            }
            Some(job)
        } else if self.low_priority.len() > 0 {
            let ghost old_jobs = self.low_priority@;
            let job = self.low_priority.remove(0);
            proof {
                assert(job_views(self.low_priority@) =~= job_views(old_jobs).drop_first());
            }
            Some(job)
        } else {
            None
        }
    }
}

/// The merge policy of the pipeline, over the providers' contributions:
/// start from the primary provider's record, fill what is missing from the
/// name-keyed provider's, then fill what is still missing from the
/// storefront provider's. A missing result counts as an empty contribution.
pub open spec fn spec_merge_provider_results(
    igdb: Option<IgdbMetaDataView>,
    metacritic: Option<MetacriticMetaDataView>,
    steam: Option<SteamMetaDataView>,
) -> GameMetaDataView {
    let igdb_metadata = match igdb {
        Some(m) => m,
        None => IgdbMetaDataView::spec_default(),
    };
    let metacritic_metadata = match metacritic {
        Some(m) => m,
        None => MetacriticMetaDataView::spec_default(),
    };
    let steam_metadata = match steam {
        Some(m) => m,
        None => SteamMetaDataView::spec_default(),
    };
    igdb_metadata.spec_into_metadata().spec_merge(
        metacritic_metadata.spec_into_metadata(),
    ).spec_merge(steam_metadata.spec_into_metadata())
}

/// Combine one job's provider results, a missing or failed provider
/// counting as an empty contribution.
pub fn merge_provider_results(
    igdb: Option<IgdbMetaData>,
    metacritic: Option<MetacriticMetaData>,
    steam: Option<SteamMetaData>,
) -> (r: GameMetaData)
    ensures
        r@ == spec_merge_provider_results(
            match igdb {
                Some(m) => Some(m@),
                None => None,
            },
            match metacritic {
                Some(m) => Some(m@),
                None => None,
            },
            match steam {
                Some(m) => Some(m@),
                None => None,
            },
        ),
{
    let igdb_metadata = match igdb {
        Some(m) => m,
        None => IgdbMetaData::default(),
    };
    let metacritic_metadata = match metacritic {
        Some(m) => m,
        None => MetacriticMetaData::default(),
    };
    let steam_metadata = match steam {
        Some(m) => m,
        None => SteamMetaData::default(),
    };
    let metadata: GameMetaData = igdb_metadata.into_metadata();
    metadata.merge(metacritic_metadata.into_metadata()).merge(steam_metadata.into_metadata())
}

} // verus!
