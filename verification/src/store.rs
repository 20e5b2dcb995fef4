//! The catalog store: one owner of the authoritative catalog snapshot, the
//! set of known identifiers, the metadata side-cache and the aggregate
//! statistics. Every operation is a single atomic step of this state; the
//! running system drains two mailboxes and applies the steps one at a time,
//! so reads never interleave with writes.
use crate::fetcher::FetcherMessage;
use crate::filter::GameFilterWrapper;
use crate::game::{Game, GameRepresentation, GameView};
use crate::metadata::GameMetaData;
use crate::pagination::{Page, Paginator};
use crate::stats::{cat_total, Category, GameStats};
use vstd::hash_map::HashMapWithView;
use vstd::hash_set::HashSetWithView;
use vstd::prelude::*;

verus! {

/// Relies on rand's gen_range: a uniformly drawn index below `n`.
#[verifier::external_body]
fn random_below(n: usize) -> (r: usize)
    requires
        n > 0,
    ensures
        r < n,
{
    rand::Rng::gen_range(&mut rand::thread_rng(), 0..n)
}

/// The identifiers of the records, in catalog order.
pub open spec fn uid_seq(games: Seq<Game>) -> Seq<u32> {
    games.map_values(|g: Game| g.uid)
}

/// The set of identifiers of the records.
pub open spec fn uid_set(games: Seq<Game>) -> Set<u32> {
    uid_seq(games).to_set()
}

/// The views of a list of records.
pub open spec fn game_views(games: Seq<Game>) -> Seq<GameView> {
    games.map_values(|g: Game| g@)
}

/// The first record with the given identifier, if any.
pub open spec fn spec_find_game(games: Seq<Game>, game_id: u32) -> Option<Game>
    decreases games.len(),
{
    if games.len() == 0 {
        None
    } else if games.first().uid == game_id {
        Some(games.first())
    } else {
        spec_find_game(games.drop_first(), game_id)
    }
}

/// A record is found exactly when its identifier is known.
pub proof fn lemma_find_game_id_set(games: Seq<Game>, game_id: u32)
    ensures
        spec_find_game(games, game_id) is Some <==> uid_set(games).contains(game_id),
        spec_find_game(games, game_id) matches Some(g) ==> g.uid == game_id && games.contains(g),
    decreases games.len(),
{
    if games.len() > 0 {
        lemma_find_game_id_set(games.drop_first(), game_id);
        assert(uid_seq(games).drop_first() =~= uid_seq(games.drop_first()));
        if games.first().uid == game_id {
            assert(uid_seq(games)[0] == game_id);
            assert(uid_seq(games).contains(game_id));
        } else {
            if uid_set(games).contains(game_id) {
                let i = choose|i: int| 0 <= i < uid_seq(games).len() && uid_seq(games)[i] == game_id;
                assert(uid_seq(games.drop_first())[i - 1] == game_id);
                assert(uid_set(games.drop_first()).contains(game_id));
            }
            if uid_set(games.drop_first()).contains(game_id) {
                let i = choose|i: int|
                    0 <= i < uid_seq(games.drop_first()).len() && uid_seq(games.drop_first())[i]
                        == game_id;
                assert(uid_seq(games)[i + 1] == game_id);
            }
            match spec_find_game(games.drop_first(), game_id) {
                Some(g) => {
                    assert(games.drop_first().contains(g));
                    let i = choose|i: int|
                        0 <= i < games.drop_first().len() && games.drop_first()[i] == g;
                    assert(games[i + 1] == g);
                },
                None => {},
            }
        }
    }
}

/// Find the first record with the given identifier.
fn find_game(games: &Vec<Game>, game_id: u32) -> (r: Option<&Game>)
    ensures
        match r {
            Some(g) => spec_find_game(games@, game_id) == Some(*g),
            None => spec_find_game(games@, game_id) is None,
        },
{
    let mut i: usize = 0;
    proof {
        assert(games@.skip(0) =~= games@);
    }
    while i < games.len()
        invariant
            0 <= i <= games@.len(),
            spec_find_game(games@, game_id) == spec_find_game(games@.skip(i as int), game_id),
        decreases games@.len() - i,
    {
        proof {
            assert(games@.skip(i as int).first() == games@[i as int]);
            assert(games@.skip(i as int).drop_first() =~= games@.skip(i + 1));
        }
        if games[i].uid == game_id {
            return Some(&games[i]);
        }
        i = i + 1;
    }
    proof {
        assert(games@.skip(games@.len() as int).len() == 0);
    }
    None
}

/// The catalog: an immutable, atomically replaceable list of records,
/// small enough that every category's occurrence total fits a machine
/// count (which the constructor checks).
#[derive(Debug)]
pub struct Catalog {
    games: Vec<Game>,
}

impl Catalog {
    /// The records, in catalog order.
    pub closed spec fn games(self) -> Seq<Game> {
        self.games@
    }

    /// Every category's occurrence total fits a machine count, so that the
    /// statistics can be computed.
    #[verifier::type_invariant]
    pub closed spec fn wf(self) -> bool {
        &&& cat_total(self.games@, Category::Engine) <= usize::MAX
        &&& cat_total(self.games@, Category::Runtime) <= usize::MAX
        &&& cat_total(self.games@, Category::Genre) <= usize::MAX
        &&& cat_total(self.games@, Category::Tag) <= usize::MAX
        &&& cat_total(self.games@, Category::Year) <= usize::MAX
        &&& cat_total(self.games@, Category::Dev) <= usize::MAX
        &&& cat_total(self.games@, Category::Publi) <= usize::MAX
    }

    /// Build a catalog from a list of records. Refused only when some
    /// category's occurrence total would not fit a machine count.
    pub fn new(games: Vec<Game>) -> (r: Option<Catalog>)
        ensures
            r matches Some(c) ==> c.games() == games@,
            r is None ==> exists|cat: Category| cat_total(games@, cat) > usize::MAX,
    {
        let ok = crate::stats::cat_total_fits(&games, Category::Engine)
            && crate::stats::cat_total_fits(&games, Category::Runtime)
            && crate::stats::cat_total_fits(&games, Category::Genre)
            && crate::stats::cat_total_fits(&games, Category::Tag)
            && crate::stats::cat_total_fits(&games, Category::Year)
            && crate::stats::cat_total_fits(&games, Category::Dev)
            && crate::stats::cat_total_fits(&games, Category::Publi);
        if ok {
            Some(Catalog { games })
        } else {
            None
        }
    }
}

/// One request to the store; each is answered with exactly one response.
/// Values the outside world must supply — the clock readings — travel in
/// the request.
pub enum AppDbRequest {
    GetGame { game_id: u32 },
    GetGameIds {},
    GetAllGames {},
    GetGameStats {},
    GetGameList { game_ids: Vec<u32> },
    GetGameListPaginatedFiltered { page: usize, filter: GameFilterWrapper },
    GetGameRepresentation { game_id: u32 },
    GetRandomUid {},
    GetRecentGames { today: u32 },
    InsertMetadata { game_id: u32, metadata: GameMetaData },
    UpdateDb { game_db: Catalog, refreshed_at: String },
}

impl AppDbRequest {
    /// Whether the request mutates the store; the running system routes
    /// these through the write mailbox.
    pub open spec fn spec_is_write(&self) -> bool {
        match self {
            AppDbRequest::InsertMetadata { .. } => true,
            AppDbRequest::UpdateDb { .. } => true,
            _ => false,
        }
    }

    pub fn is_write(&self) -> (r: bool)
        ensures
            r == self.spec_is_write(),
    {
        match self {
            AppDbRequest::InsertMetadata { .. } => true,
            AppDbRequest::UpdateDb { .. } => true,
            _ => false,
        }
    }
}

/// One reply of the store. `Pending` carries the enrichment job the caller
/// must submit on the pipeline's interactive lane; the reply channel that
/// the running system pairs with it lives outside the model.
pub enum AppDbResponse {
    Done,
    Error,
    Game(Game),
    GameStats(GameStats),
    GameIds(Vec<u32>),
    AllGames(Vec<Game>),
    GameList(Vec<Game>),
    GameListPaginated(Vec<Game>, Page),
    GameMetaData(GameMetaData),
    GameRepresentation(GameRepresentation),
    NoMetaData,
    NoGame,
    Pending(FetcherMessage),
    RandomUid(u32),
    RecentGames(Vec<GameRepresentation>),
}

/// The store's state: the catalog, the derived identifier set, the
/// metadata side-cache and the aggregate statistics, owned together and
/// mutated only one whole operation at a time.
pub struct AppDb {
    pub(crate) stats: GameStats,
    pub(crate) last_updated: String,
    pub(crate) games: Catalog,
    pub(crate) game_ids: HashSetWithView<u32>,
    pub(crate) game_metadata: HashMapWithView<u32, GameMetaData>,
}

impl AppDb {
    /// The store's records.
    pub closed spec fn catalog(self) -> Seq<Game> {
        self.games.games@
    }

    /// The metadata side-cache.
    pub closed spec fn cache(self) -> Map<u32, GameMetaData> {
        self.game_metadata@
    }

    /// The identifier set the store answers membership from.
    pub closed spec fn ids(self) -> Set<u32> {
        self.game_ids@
    }

    /// The current statistics snapshot's content.
    pub closed spec fn stats_view(self) -> crate::stats::GameStatsView {
        self.stats@
    }

    /// When the catalog was last replaced.
    pub closed spec fn updated_at(self) -> Seq<char> {
        self.last_updated@
    }

    /// The store is consistent: the identifier set is exactly the set of
    /// identifiers of the current catalog — never a mixture of an old
    /// catalog and a new identifier set — and the catalog supports
    /// statistics.
    pub closed spec fn wf(self) -> bool {
        self.game_ids@ == uid_set(self.catalog())
    }

    /// A new store over a catalog snapshot: the identifier set is derived
    /// from the catalog, the cache starts empty, the statistics start
    /// blank until they are first computed.
    pub fn new(games: Catalog, created_at: String) -> (r: Self)
        ensures
            r.wf(),
            r.catalog() == games.games(),
            r.cache() == Map::<u32, GameMetaData>::empty(),
            r.updated_at() == created_at@,
            r.stats_view().engine_stats.len() == 0,
            r.stats_view().runtime_stats.len() == 0,
            r.stats_view().genre_stats.len() == 0,
            r.stats_view().tag_stats.len() == 0,
            r.stats_view().year_stats.len() == 0,
            r.stats_view().dev_stats.len() == 0,
            r.stats_view().publi_stats.len() == 0,
            r.stats_view().status_stats.len() == 0,
            r.stats_view().total_games == 0,
    {
        let game_ids = derive_ids(&games.games);
        AppDb {
            stats: GameStats::default(),
            last_updated: created_at,
            games,
            game_ids,
            game_metadata: HashMapWithView::new(),
        }
    }

    /// Whether the record with this identifier can be enriched: it exists
    /// and carries at least one external-provider identifier.
    pub fn game_has_metadata(&self, game_id: u32) -> (r: bool)
        ensures
            r == match spec_find_game(self.catalog(), game_id) {
                Some(g) => g.spec_has_metadata_source(),
                None => false,
            },
    {
        match find_game(&self.games.games, game_id) {
            Some(game) => game.has_metadata_source(),
            None => false,
        }
    }

    /// The record with this identifier, or `NoGame`.
    pub fn get_game_by_id(&self, game_id: u32) -> (r: AppDbResponse)
        ensures
            match spec_find_game(self.catalog(), game_id) {
                Some(g) => r matches AppDbResponse::Game(found) && found@ == g@,
                None => r matches AppDbResponse::NoGame,
            },
    {
        match find_game(&self.games.games, game_id) {
            Some(game) => AppDbResponse::Game(game.clone()),
            None => AppDbResponse::NoGame,
        }
    }

    /// The current aggregate statistics snapshot.
    pub fn get_game_stats(&self) -> (r: AppDbResponse)
        ensures
            r matches AppDbResponse::GameStats(s) && s@ == self.stats_view(),
    {
        AppDbResponse::GameStats(self.stats.clone())
    }

    /// All records, in catalog order.
    pub fn get_all_games(&self) -> (r: AppDbResponse)
        ensures
            r matches AppDbResponse::AllGames(games) && game_views(games@) == game_views(
                self.catalog(),
            ),
    {
        let games = clone_games(&self.games.games);
        AppDbResponse::AllGames(games)
    }

    /// The current identifier set, as a list in catalog order.
    pub fn get_game_ids(&self) -> (r: AppDbResponse)
        ensures
            r matches AppDbResponse::GameIds(ids) && ids@ == uid_seq(self.catalog()),
    {
        let mut ids: Vec<u32> = Vec::new();
        let mut i: usize = 0;
        while i < self.games.games.len()
            invariant
                0 <= i <= self.catalog().len(),
                ids@ =~= uid_seq(self.catalog().subrange(0, i as int)),
            decreases self.catalog().len() - i,
        {
            ids.push(self.games.games[i].uid);
            proof {
                assert(ids@ =~= uid_seq(self.catalog().subrange(0, i + 1)));
            }
            i = i + 1;
        }
        proof {
            assert(self.catalog().subrange(0, self.catalog().len() as int) =~= self.catalog());
        }
        AppDbResponse::GameIds(ids)
    }

    /// A uniformly chosen identifier of the catalog; an error only when the
    /// catalog is empty and there is nothing to choose from.
    pub fn get_random_uid(&self) -> (r: AppDbResponse)
        ensures
            self.catalog().len() > 0 ==> (r matches AppDbResponse::RandomUid(uid) && uid_set(
                self.catalog(),
            ).contains(uid)),
            self.catalog().len() == 0 ==> r matches AppDbResponse::Error,
    {
        let n = self.games.games.len();
        if n == 0 {
            return AppDbResponse::Error;
        }
        let i = random_below(n);
        let uid = self.games.games[i].uid;
        proof {
            assert(uid_seq(self.catalog())[i as int] == uid);
            assert(uid_seq(self.catalog()).contains(uid));
        }
        AppDbResponse::RandomUid(uid)
    }

    /// The records matching the given identifiers, in request order,
    /// missing identifiers silently skipped.
    pub fn get_game_list(&self, game_ids: Vec<u32>) -> (r: AppDbResponse)
        ensures
            r matches AppDbResponse::GameList(games) && game_views(games@) == spec_game_list(
                self.catalog(),
                game_ids@,
            ),
    {
        let mut games: Vec<Game> = Vec::new();
        let mut i: usize = 0;
        while i < game_ids.len()
            invariant
                0 <= i <= game_ids@.len(),
                game_views(games@) == spec_game_list(self.catalog(), game_ids@.subrange(0, i as int)),
            decreases game_ids@.len() - i,
        {
            let ghost prefix = game_ids@.subrange(0, i as int);
            let ghost prefix1 = game_ids@.subrange(0, i + 1);
            proof {
                assert(prefix1.drop_last() =~= prefix);
                assert(prefix1.last() == game_ids@[i as int]);
            }
            let ghost old_views = game_views(games@);
            match find_game(&self.games.games, game_ids[i]) {
                Some(game) => {
                    let g = game.clone();
                    let ghost gv = g@;
                    games.push(g);
                    proof {
                        assert(game_views(games@) =~= old_views.push(gv));
                        assert(game_views(games@) =~= spec_game_list(self.catalog(), prefix1));
                    }
                },
                None => {
                    proof {
                        assert(game_views(games@) =~= spec_game_list(self.catalog(), prefix1));
                    }
                },
            }
            i = i + 1;
        }
        proof {
            assert(game_ids@.subrange(0, game_ids@.len() as int) =~= game_ids@);
        }
        AppDbResponse::GameList(games)
    }

    /// The record joined with its cached metadata. A record that cannot be
    /// enriched is returned at once with no metadata, whatever the cache
    /// holds; an enrichable record with cached metadata is returned joined
    /// with it; an enrichable record without cached metadata produces the
    /// enrichment job for the interactive lane instead of an answer.
    pub fn get_game_representation_by_id(&self, game_id: u32) -> (r: AppDbResponse)
        ensures
            representation_response_ok(self.catalog(), self.cache(), game_id, r),
    {
        match find_game(&self.games.games, game_id) {
            None => AppDbResponse::NoGame,
            Some(game) => {
                if game.has_metadata_source() {
                    match self.game_metadata.get(&game_id) {
                        Some(metadata) => {
                            let gr = GameRepresentation {
                                game: game.clone(),
                                metadata: Some(metadata.clone()),
                            };
                            AppDbResponse::GameRepresentation(gr)
                        },
                        None => {
                            let job = FetcherMessage {
                                igdb_id: game.igdb_id,
                                steam_id: game.steam_id,
                                game_name: game.name.clone(),
                            };
                            AppDbResponse::Pending(job)
                        },
                    }
                } else {
                    let gr = GameRepresentation { game: game.clone(), metadata: None };
                    AppDbResponse::GameRepresentation(gr)
                }
            },
        }
    }

    /// Overwrite the cache entry for this identifier with the supplied
    /// record (the caller has already merged); nothing else changes.
    pub fn insert_metadata(&mut self, game_id: u32, metadata: GameMetaData) -> (r: AppDbResponse)
        ensures
            r matches AppDbResponse::Done,
            final(self).cache() == old(self).cache().insert(game_id, metadata),
            final(self).catalog() == old(self).catalog(),
            final(self).ids() == old(self).ids(),
            final(self).stats_view() == old(self).stats_view(),
            final(self).updated_at() == old(self).updated_at(),
            old(self).wf() ==> final(self).wf(),
    {
        self.game_metadata.insert(game_id, metadata);
        AppDbResponse::Done
    }

    /// Apply the filter to the catalog (an empty filter keeps everything),
    /// then cut out the requested page of a fixed size. `NoGame` when the
    /// filtered set is empty; `Error` when it is not and pagination still
    /// failed (a page outside the range).
    pub fn get_game_list_paginated_filtered(
        &self,
        page: usize,
        filter: GameFilterWrapper,
    ) -> (r: AppDbResponse)
        ensures
            paginated_response_ok(self.catalog(), filter, page, r),
    {
        let games = filtered_games(&self.games.games, &filter);
        let ghost filtered = spec_filtered(self.catalog(), filter);
        proof {
            assert(game_views(games@).len() == games@.len());
            assert(game_views(filtered).len() == filtered.len());
            assert(games@.len() == filtered.len());
        }
        let paginator = Paginator::new(games.len(), GAME_LIST_PAGE_SIZE);
        match paginator.page(page) {
            Some(pg) => {
                proof {
                    crate::pagination::lemma_first_element_in_bounds(
                        games@.len() as int,
                        GAME_LIST_PAGE_SIZE as int,
                        page as int,
                    );
                }
                let slice = slice_games(&games, pg.first_element, pg.last_element);
                proof {
                    assert(game_views(slice@) == game_views(filtered).subrange(
                        pg.first_element as int,
                        pg.last_element + 1,
                    ));
                }
                AppDbResponse::GameListPaginated(slice, pg)
            },
            None => {
                if games.len() == 0 {
                    AppDbResponse::NoGame
                } else {
                    AppDbResponse::Error
                }
            },
        }
    }

    /// The records added within the last 30 days of day `today`, most
    /// recently added first, each joined with its cached metadata if any
    /// (no enrichment is triggered here).
    pub fn get_recent_games(&self, today: u32) -> (r: AppDbResponse)
        ensures
            recent_response_ok(self.catalog(), self.cache(), today, r),
    {
        let mut recent: Vec<Game> = Vec::new();
        let mut i: usize = 0;
        proof {
            reveal(Seq::filter);
            assert(self.catalog().subrange(0, 0).filter(|g: Game| g.spec_is_recent(today)) =~= Seq::<
                Game,
            >::empty());
        }
        while i < self.games.games.len()
            invariant
                0 <= i <= self.catalog().len(),
                game_views(recent@) == game_views(
                    self.catalog().subrange(0, i as int).filter(
                        |g: Game| g.spec_is_recent(today),
                    ),
                ),
            decreases self.catalog().len() - i,
        {
            let ghost prefix = self.catalog().subrange(0, i as int);
            let ghost prefix1 = self.catalog().subrange(0, i + 1);
            proof {
                assert(prefix1.drop_last() =~= prefix);
                assert(prefix1.last() == self.catalog()[i as int]);
            }
            proof {
                reveal(Seq::filter);
            }
            let ghost old_views = game_views(recent@);
            if self.games.games[i].is_recent(today) {
                let g = self.games.games[i].clone();
                let ghost gv = g@;
                recent.push(g);
                proof {
                    assert(game_views(recent@) =~= old_views.push(gv));
                    assert(game_views(recent@) =~= game_views(
                        prefix1.filter(|g: Game| g.spec_is_recent(today)),
                    ));
                }
            } else {
                proof {
                    assert(game_views(recent@) =~= game_views(
                        prefix1.filter(|g: Game| g.spec_is_recent(today)),
                    ));
                }
            }
            i = i + 1;
        }
        proof {
            assert(self.catalog().subrange(0, self.catalog().len() as int) =~= self.catalog());
        }
        let sorted = sort_games_by_added_desc(recent);
        let mut reps: Vec<GameRepresentation> = Vec::new();
        let mut k: usize = 0;
        while k < sorted.len()
            invariant
                0 <= k <= sorted@.len(),
                rep_game_views(reps@) == game_views(sorted@).subrange(0, k as int),
                forall|j: int|
                    0 <= j < k ==> #[trigger] rep_metadata_ok(reps@[j], self.cache()),
            decreases sorted@.len() - k,
        {
            let game = sorted[k].clone();
            let metadata = match self.game_metadata.get(&game.uid) {
                Some(m) => Some(m.clone()),
                None => None,
            };
            let ghost old_views = rep_game_views(reps@);
            let ghost gv = game@;
            reps.push(GameRepresentation { game, metadata });
            proof {
                assert(rep_game_views(reps@) =~= old_views.push(gv));
                assert(rep_game_views(reps@) =~= game_views(sorted@).subrange(0, k + 1));
            }
            k = k + 1;
        }
        proof {
            assert(game_views(sorted@).subrange(0, sorted@.len() as int) =~= game_views(sorted@));
            assert(rep_game_views(reps@) == game_views(sorted@));
            assert forall|i: int, j: int| 0 <= i < j < reps@.len() implies #[trigger] reps@[j].game@.added
                <= #[trigger] reps@[i].game@.added by {
                assert(reps@[j].game@ == game_views(sorted@)[j]);
                assert(reps@[i].game@ == game_views(sorted@)[i]);
                assert(game_views(sorted@)[j] == sorted@[j]@);
                assert(game_views(sorted@)[i] == sorted@[i]@);
                assert(sorted@[j]@.added <= sorted@[i]@.added);
            }
        }
        AppDbResponse::RecentGames(reps)
    }

    /// Recompute the aggregate statistics from the current catalog; nothing
    /// else changes.
    pub fn update_stats(&mut self)
        ensures
            stats_ok(final(self).stats_raw(), old(self).catalog()),
            final(self).catalog() == old(self).catalog(),
            final(self).cache() == old(self).cache(),
            final(self).ids() == old(self).ids(),
            final(self).updated_at() == old(self).updated_at(),
            old(self).wf() ==> final(self).wf(),
    {
        proof {
            use_type_invariant(&self.games);
        }
        let engine_stats = crate::stats::category_stats(&self.games.games, Category::Engine);
        let runtime_stats = crate::stats::category_stats(&self.games.games, Category::Runtime);
        let genre_stats = crate::stats::category_stats(&self.games.games, Category::Genre);
        let tag_stats = crate::stats::category_stats(&self.games.games, Category::Tag);
        let year_stats = crate::stats::year_stats_table(&self.games.games);
        let dev_stats = crate::stats::category_stats(&self.games.games, Category::Dev);
        let publi_stats = crate::stats::category_stats(&self.games.games, Category::Publi);
        let status_stats = crate::stats::status_stats_table(&self.games.games);
        let total_games = self.games.games.len();
        self.stats = GameStats {
            engine_stats,
            runtime_stats,
            genre_stats,
            tag_stats,
            year_stats,
            dev_stats,
            publi_stats,
            status_stats,
            total_games,
        };
    }

    /// Swap in a new catalog: the records, the identifier set and the
    /// statistics are all replaced together from the new snapshot, so no
    /// later read mixes old and new; the metadata cache is kept; the refresh
    /// timestamp is recorded.
    pub fn update_db(&mut self, game_db: Catalog, refreshed_at: String) -> (r: AppDbResponse)
        ensures
            r matches AppDbResponse::Done,
            final(self).catalog() == game_db.games(),
            final(self).ids() == uid_set(game_db.games()),
            final(self).wf(),
            final(self).cache() == old(self).cache(),
            final(self).updated_at() == refreshed_at@,
            stats_ok(final(self).stats_raw(), game_db.games()),
    {
        let game_ids = derive_ids(&game_db.games);
        self.games = game_db;
        self.game_ids = game_ids;
        self.update_stats();
        self.last_updated = refreshed_at;
        AppDbResponse::Done
    }

    /// One atomic step of the store: requests are handled one at a time on
    /// one state, so a read never observes a half-applied write. Reads
    /// leave the store untouched; the two writes change exactly what they
    /// say; consistency of the identifier set with the catalog is kept by
    /// every step.
    pub fn handle_request(&mut self, request: AppDbRequest) -> (r: AppDbResponse)
        ensures
            old(self).wf() ==> final(self).wf(),
            !request.spec_is_write() ==> *final(self) == *old(self),
            match request {
                AppDbRequest::GetGame { game_id } => match spec_find_game(
                    old(self).catalog(),
                    game_id,
                ) {
                    Some(g) => r matches AppDbResponse::Game(found) && found@ == g@,
                    None => r matches AppDbResponse::NoGame,
                },
                AppDbRequest::GetGameIds {  } => r matches AppDbResponse::GameIds(ids) && ids@
                    == uid_seq(old(self).catalog()),
                AppDbRequest::GetAllGames {  } => r matches AppDbResponse::AllGames(games)
                    && game_views(games@) == game_views(old(self).catalog()),
                AppDbRequest::GetGameStats {  } => r matches AppDbResponse::GameStats(s) && s@
                    == old(self).stats_view(),
                AppDbRequest::GetGameList { game_ids } => r matches AppDbResponse::GameList(games)
                    && game_views(games@) == spec_game_list(old(self).catalog(), game_ids@),
                AppDbRequest::GetGameListPaginatedFiltered { page, filter } => {
                    paginated_response_ok(old(self).catalog(), filter, page, r)
                },
                AppDbRequest::GetGameRepresentation { game_id } => representation_response_ok(
                    old(self).catalog(),
                    old(self).cache(),
                    game_id,
                    r,
                ),
                AppDbRequest::GetRandomUid {  } => {
                    &&& old(self).catalog().len() > 0 ==> (r matches AppDbResponse::RandomUid(uid)
                        && uid_set(old(self).catalog()).contains(uid))
                    &&& old(self).catalog().len() == 0 ==> r matches AppDbResponse::Error
                },
                AppDbRequest::GetRecentGames { today } => recent_response_ok(
                    old(self).catalog(),
                    old(self).cache(),
                    today,
                    r,
                ),
                AppDbRequest::InsertMetadata { game_id, metadata } => {
                    &&& r matches AppDbResponse::Done
                    &&& final(self).cache() == old(self).cache().insert(game_id, metadata)
                    &&& final(self).catalog() == old(self).catalog()
                    &&& final(self).ids() == old(self).ids()
                    &&& final(self).stats_view() == old(self).stats_view()
                },
                AppDbRequest::UpdateDb { game_db, refreshed_at } => {
                    &&& r matches AppDbResponse::Done
                    &&& final(self).catalog() == game_db.games()
                    &&& final(self).ids() == uid_set(game_db.games())
                    &&& final(self).cache() == old(self).cache()
                    &&& final(self).updated_at() == refreshed_at@
                    &&& stats_ok(final(self).stats_raw(), game_db.games())
                },
            },
    {
        match request {
            AppDbRequest::GetGame { game_id } => self.get_game_by_id(game_id),
            AppDbRequest::GetGameIds {  } => self.get_game_ids(),
            AppDbRequest::GetAllGames {  } => self.get_all_games(),
            AppDbRequest::GetGameStats {  } => self.get_game_stats(),
            AppDbRequest::GetGameList { game_ids } => self.get_game_list(game_ids),
            AppDbRequest::GetGameListPaginatedFiltered { page, filter } => {
                self.get_game_list_paginated_filtered(page, filter)
            },
            AppDbRequest::GetGameRepresentation { game_id } => {
                self.get_game_representation_by_id(game_id)
            },
            AppDbRequest::GetRandomUid {  } => self.get_random_uid(),
            AppDbRequest::GetRecentGames { today } => self.get_recent_games(today),
            AppDbRequest::InsertMetadata { game_id, metadata } => {
                self.insert_metadata(game_id, metadata)
            },
            AppDbRequest::UpdateDb { game_db, refreshed_at } => {
                self.update_db(game_db, refreshed_at)
            },
        }
    }

    /// The raw statistics value, for stating what a recompute produced.
    pub closed spec fn stats_raw(self) -> GameStats {
        self.stats
    }
}

/// What a correct reply to a representation request looks like, given the
/// catalog and the cache it was answered from: an unknown identifier is
/// `NoGame`; a record that cannot be enriched comes back with no metadata;
/// an enrichable record comes back joined with its cache entry when there
/// is one, and otherwise as the enrichment job to submit.
pub open spec fn representation_response_ok(
    games: Seq<Game>,
    cache: Map<u32, GameMetaData>,
    game_id: u32,
    r: AppDbResponse,
) -> bool {
    match spec_find_game(games, game_id) {
        None => r matches AppDbResponse::NoGame,
        Some(g) => {
            if !g.spec_has_metadata_source() {
                &&& r matches AppDbResponse::GameRepresentation(gr)
                &&& gr.game@ == g@
                &&& gr.metadata is None
            } else if cache.contains_key(game_id) {
                &&& r matches AppDbResponse::GameRepresentation(gr)
                &&& gr.game@ == g@
                &&& gr.metadata matches Some(m)
                &&& m@ == cache[game_id]@
            } else {
                &&& r matches AppDbResponse::Pending(job)
                &&& job.igdb_id == g.igdb_id
                &&& job.steam_id == g.steam_id
                &&& job.game_name@ == g.name@
            }
        },
    }
}

/// The records matching the identifiers, in identifier order, missing
/// identifiers skipped.
pub open spec fn spec_game_list(games: Seq<Game>, ids: Seq<u32>) -> Seq<GameView>
    decreases ids.len(),
{
    if ids.len() == 0 {
        Seq::empty()
    } else {
        spec_game_list(games, ids.drop_last()) + (match spec_find_game(games, ids.last()) {
            Some(g) => seq![g@],
            None => Seq::<GameView>::empty(),
        })
    }
}

/// How many records one page of a game list holds.
pub const GAME_LIST_PAGE_SIZE: usize = 15;

/// The catalog after filtering: everything for an empty filter, the
/// matching records otherwise, in catalog order.
pub open spec fn spec_filtered(games: Seq<Game>, filter: GameFilterWrapper) -> Seq<Game> {
    if filter.spec_is_empty() {
        games
    } else {
        games.filter(|g: Game| filter.spec_check_game(g))
    }
}

/// The records added within the last 30 days of `today`, in catalog order.
pub open spec fn spec_recent(games: Seq<Game>, today: u32) -> Seq<Game> {
    games.filter(|g: Game| g.spec_is_recent(today))
}

/// The records of a list of representations.
pub open spec fn rep_game_views(reps: Seq<GameRepresentation>) -> Seq<GameView> {
    reps.map_values(|rep: GameRepresentation| rep.game@)
}

/// A representation carries exactly the cache entry of its record's
/// identifier, or nothing when the cache has none.
pub open spec fn rep_metadata_ok(rep: GameRepresentation, cache: Map<u32, GameMetaData>) -> bool {
    if cache.contains_key(rep.game@.uid) {
        rep.metadata matches Some(m) && m@ == cache[rep.game@.uid]@
    } else {
        rep.metadata is None
    }
}

/// What a correct reply to a paginated, filtered list request looks like:
/// when the requested page exists over the filtered records, exactly that
/// window of them, with the window's page numbers; `NoGame` when the
/// filtered set is empty; `Error` otherwise (a page out of range over a
/// non-empty set).
pub open spec fn paginated_response_ok(
    games: Seq<Game>,
    filter: GameFilterWrapper,
    page: usize,
    r: AppDbResponse,
) -> bool {
    let filtered = spec_filtered(games, filter);
    let total = filtered.len() as int;
    let per = GAME_LIST_PAGE_SIZE as int;
    if crate::pagination::spec_page_in_range(total, per, page as int) {
        &&& r matches AppDbResponse::GameListPaginated(window, pg)
        &&& pg.first_element == crate::pagination::spec_first_element(per, page as int)
        &&& pg.last_element == crate::pagination::spec_last_element(total, per, page as int)
        &&& pg.current_page == page
        &&& pg.last_page == crate::pagination::spec_last_page(total, per)
        &&& game_views(window@) == game_views(filtered).subrange(
            pg.first_element as int,
            pg.last_element + 1,
        )
    } else if total == 0 {
        r matches AppDbResponse::NoGame
    } else {
        r matches AppDbResponse::Error
    }
}

/// What a correct reply to a recent-records request looks like: exactly the
/// records of the last 30 days, most recently added first, each joined
/// with its cache entry if there is one.
pub open spec fn recent_response_ok(
    games: Seq<Game>,
    cache: Map<u32, GameMetaData>,
    today: u32,
    r: AppDbResponse,
) -> bool {
    &&& r matches AppDbResponse::RecentGames(reps)
    &&& rep_game_views(reps@).to_multiset() == game_views(spec_recent(games, today)).to_multiset()
    &&& forall|i: int, j: int|
        0 <= i < j < reps@.len() ==> #[trigger] reps@[j].game@.added <= #[trigger] reps@[i].game@.added
    &&& forall|k: int| 0 <= k < reps@.len() ==> #[trigger] rep_metadata_ok(reps@[k], cache)
}

/// The statistics a recompute over `games` promises: a well-formed table
/// per category, the year table reordered by name, the eight status rows
/// with exact counts, and the total record count.
pub open spec fn stats_ok(stats: GameStats, games: Seq<Game>) -> bool {
    &&& crate::stats::stats_table_wf(
        stats.engine_stats@,
        games,
        Category::Engine,
        crate::stats::STATS_TABLE_LIMIT as int,
    )
    &&& crate::stats::stats_table_wf(
        stats.runtime_stats@,
        games,
        Category::Runtime,
        crate::stats::STATS_TABLE_LIMIT as int,
    )
    &&& crate::stats::stats_table_wf(
        stats.genre_stats@,
        games,
        Category::Genre,
        crate::stats::STATS_TABLE_LIMIT as int,
    )
    &&& crate::stats::stats_table_wf(
        stats.tag_stats@,
        games,
        Category::Tag,
        crate::stats::STATS_TABLE_LIMIT as int,
    )
    &&& crate::stats::year_table_wf(stats.year_stats@, games)
    &&& crate::stats::stats_table_wf(
        stats.dev_stats@,
        games,
        Category::Dev,
        crate::stats::STATS_TABLE_LIMIT as int,
    )
    &&& crate::stats::stats_table_wf(
        stats.publi_stats@,
        games,
        Category::Publi,
        crate::stats::STATS_TABLE_LIMIT as int,
    )
    &&& crate::stats::status_table_ok(stats.status_stats@, games)
    &&& stats.total_games == games.len()
}

/// Filter the catalog: everything for an empty filter, the matching
/// records otherwise.
fn filtered_games(games: &Vec<Game>, filter: &GameFilterWrapper) -> (r: Vec<Game>)
    ensures
        game_views(r@) == game_views(spec_filtered(games@, *filter)),
{
    if filter.is_empty() {
        clone_games(games)
    } else {
        let mut out: Vec<Game> = Vec::new();
        let mut i: usize = 0;
        proof {
            reveal(Seq::filter);
            assert(games@.subrange(0, 0).filter(|g: Game| filter.spec_check_game(g)) =~= Seq::<
                Game,
            >::empty());
        }
        while i < games.len()
            invariant
                0 <= i <= games@.len(),
                game_views(out@) == game_views(
                    games@.subrange(0, i as int).filter(|g: Game| filter.spec_check_game(g)),
                ),
            decreases games@.len() - i,
        {
            let ghost prefix = games@.subrange(0, i as int);
            let ghost prefix1 = games@.subrange(0, i + 1);
            proof {
                assert(prefix1.drop_last() =~= prefix);
                assert(prefix1.last() == games@[i as int]);
            }
            proof {
                reveal(Seq::filter);
            }
            let ghost old_views = game_views(out@);
            if filter.check_game(&games[i]) {
                let g = games[i].clone();
                let ghost gv = g@;
                out.push(g);
                proof {
                    assert(game_views(out@) =~= old_views.push(gv));
                    assert(game_views(out@) =~= game_views(
                        prefix1.filter(|g: Game| filter.spec_check_game(g)),
                    ));
                }
            } else {
                proof {
                    assert(game_views(out@) =~= game_views(
                        prefix1.filter(|g: Game| filter.spec_check_game(g)),
                    ));
                }
            }
            i = i + 1;
        }
        proof {
            assert(games@.subrange(0, games@.len() as int) =~= games@);
        }
        out
    }
}

/// Copy the window `first ..= last` of the records.
fn slice_games(games: &Vec<Game>, first: usize, last: usize) -> (r: Vec<Game>)
    requires
        first <= last < games@.len(),
    ensures
        game_views(r@) == game_views(games@).subrange(first as int, last + 1),
{
    let mut out: Vec<Game> = Vec::new();
    let glen = games.len();
    let mut k: usize = first;
    while k <= last
        invariant
            first <= k <= last + 1,
            glen == games@.len(),
            last < games@.len(),
            game_views(out@) == game_views(games@).subrange(first as int, k as int),
        decreases last + 1 - k,
    {
        let g = games[k].clone();
        let ghost gv = g@;
        let ghost old_views = game_views(out@);
        out.push(g);
        proof {
            assert(game_views(out@) =~= old_views.push(gv));
            assert(game_views(games@).subrange(first as int, k + 1) =~= game_views(
                games@,
            ).subrange(first as int, k as int).push(games@[k as int]@));
        }
        k = k + 1;
    }
    out
}

/// Sort records by their added date, most recent first. The result holds
/// exactly the records of the input.
#[verifier::rlimit(100)]
pub fn sort_games_by_added_desc(games: Vec<Game>) -> (r: Vec<Game>)
    ensures
        game_views(r@).to_multiset() == game_views(games@).to_multiset(),
        forall|i: int, j: int|
            0 <= i < j < r@.len() ==> #[trigger] r@[j]@.added <= #[trigger] r@[i]@.added,
{
    broadcast use vstd::seq_lib::group_to_multiset_ensures;
    broadcast use vstd::multiset::group_multiset_axioms;

    let mut input = games;
    let mut out: Vec<Game> = Vec::new();
    proof {
        assert(game_views(out@).to_multiset().add(game_views(input@).to_multiset())
            =~= game_views(games@).to_multiset());
    }
    while input.len() > 0
        invariant
            game_views(out@).to_multiset().add(game_views(input@).to_multiset()) =~= game_views(
                games@,
            ).to_multiset(),
            forall|i: int, j: int|
                0 <= i < j < out@.len() ==> #[trigger] out@[j]@.added <= #[trigger] out@[i]@.added,
        decreases input@.len(),
    {
        let ghost old_input_views = game_views(input@);
        let e = input.pop().unwrap();
        let ghost ev = e@;
        proof {
            assert(old_input_views =~= game_views(input@).push(ev));
            game_views(input@).to_multiset_ensures();
            assert(old_input_views.to_multiset() =~= game_views(input@).to_multiset().insert(ev));
        }
        let ghost old_out = out@;
        let mut pos: usize = 0;
        while pos < out.len() && out[pos].added > e.added
            invariant
                0 <= pos <= out@.len(),
                out@ == old_out,
                forall|k: int| 0 <= k < pos ==> out@[k]@.added > e@.added,
                e@ == ev,
            decreases out@.len() - pos,
        {
            pos = pos + 1;
        }
        out.insert(pos, e);
        proof {
            old_out.insert_ensures(pos as int, e);
            let t = game_views(out@);
            let told = game_views(old_out);
            assert forall|i: int, j: int| 0 <= i < j < out@.len() implies #[trigger] out@[j]@.added
                <= #[trigger] out@[i]@.added by {
                if j == pos {
                    assert(out@[i] == old_out[i]);
                    assert(old_out[i]@.added > e@.added);
                } else if i == pos {
                    assert(out@[j] == old_out[j - 1]);
                    assert(pos < old_out.len());
                    assert(old_out[pos as int]@.added <= e@.added);
                    if j - 1 > pos {
                        assert(old_out[j - 1]@.added <= old_out[pos as int]@.added);
                    }
                } else {
                    let i2: int = if i < pos {
                        i
                    } else {
                        i - 1
                    };
                    let j2: int = if j < pos {
                        j
                    } else {
                        j - 1
                    };
                    assert(out@[i] == old_out[i2]);
                    assert(out@[j] == old_out[j2]);
                }
            }
            assert(t.remove(pos as int) =~= told);
            t.to_multiset_ensures();
            assert(t[pos as int] == ev);
            assert(t.remove(pos as int).to_multiset() =~= t.to_multiset().remove(ev));
            assert(t.contains(ev));
            assert(t.to_multiset().count(ev) > 0);
            assert(t.to_multiset() =~= told.to_multiset().insert(ev));
            assert(game_views(out@).to_multiset().add(game_views(input@).to_multiset())
                =~= game_views(games@).to_multiset());
        }
    }
    out
}

/// Derive the identifier set of a list of records.
fn derive_ids(games: &Vec<Game>) -> (r: HashSetWithView<u32>)
    ensures
        r@ == uid_set(games@),
{
    let mut game_ids: HashSetWithView<u32> = HashSetWithView::new();
    let mut i: usize = 0;
    let total = games.len();
    while i < total
        invariant
            total == games@.len(),
            0 <= i <= games@.len(),
            game_ids@ == uid_set(games@.subrange(0, i as int)),
        decreases games@.len() - i,
    {
        let uid = games[i].uid;
        game_ids.insert(uid);
        proof {
            let prefix = games@.subrange(0, i as int);
            let prefix1 = games@.subrange(0, i + 1);
            assert(uid_seq(prefix1) =~= uid_seq(prefix).push(uid));
            assert forall|x: u32| uid_set(prefix1).contains(x) implies uid_set(prefix).insert(
                uid,
            ).contains(x) by {
                let j = choose|j: int| 0 <= j < uid_seq(prefix1).len() && uid_seq(prefix1)[j] == x;
                if j < i {
                    assert(uid_seq(prefix)[j] == x);
                }
            }
            assert forall|x: u32| uid_set(prefix).insert(uid).contains(x) implies uid_set(
                prefix1,
            ).contains(x) by {
                if x == uid {
                    assert(uid_seq(prefix1)[i as int] == x);
                } else {
                    let j = choose|j: int| 0 <= j < uid_seq(prefix).len() && uid_seq(prefix)[j] == x;
                    assert(uid_seq(prefix1)[j] == x);
                }
            }
            assert(uid_set(prefix1) =~= uid_set(prefix).insert(uid));
        }
        i = i + 1;
    }
    proof {
        assert(games@.subrange(0, games@.len() as int) =~= games@);
    }
    game_ids
}

/// Law: the store never hands out a torn read. Inserting metadata for an
/// identifier and then reading that identifier's representation, in either
/// order but one at a time, yields a consistent answer: after the insert,
/// an enrichable record's representation carries exactly the inserted
/// record, never a mixture of old and new.
pub proof fn lemma_insert_then_read_not_torn(
    games: Seq<Game>,
    cache: Map<u32, GameMetaData>,
    game_id: u32,
    metadata: GameMetaData,
    r: AppDbResponse,
)
    requires
        representation_response_ok(games, cache.insert(game_id, metadata), game_id, r),
        spec_find_game(games, game_id) matches Some(g) && g.spec_has_metadata_source(),
    ensures
        r matches AppDbResponse::GameRepresentation(gr) && gr.metadata matches Some(m) && m@
            == metadata@,
{
}

/// Law: catalog replacement is atomic. In a consistent store a record is
/// found exactly when its identifier is in the identifier set — a read can
/// never see a record of one catalog against the identifier set of
/// another — and every store operation preserves consistency (the
/// `handle_request` contract), while a replacement swaps catalog and
/// identifier set together.
pub proof fn lemma_reads_consistent(db: AppDb, game_id: u32)
    requires
        db.wf(),
    ensures
        spec_find_game(db.catalog(), game_id) is Some <==> db.ids().contains(game_id),
{
    lemma_find_game_id_set(db.catalog(), game_id);
}

/// Copy a list of records; the copies have the same content.
fn clone_games(games: &Vec<Game>) -> (r: Vec<Game>)
    ensures
        game_views(r@) == game_views(games@),
{
    let mut out: Vec<Game> = Vec::new();
    let mut i: usize = 0;
    while i < games.len()
        invariant
            0 <= i <= games@.len(),
            game_views(out@) == game_views(games@.subrange(0, i as int)),
        decreases games@.len() - i,
    {
        let g = games[i].clone();
        let ghost gv = g@;
        let ghost old_views = game_views(out@);
        out.push(g);
        proof {
            assert(game_views(out@) =~= old_views.push(gv));
            assert(game_views(games@.subrange(0, i + 1)) =~= game_views(
                games@.subrange(0, i as int),
            ).push(games@[i as int]@));
        }
        i = i + 1;
    }
    proof {
        assert(games@.subrange(0, games@.len() as int) =~= games@);
    }
    out
}

} // verus!
