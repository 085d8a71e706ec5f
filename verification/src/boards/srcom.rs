//! The full-game speedrunning board: its entities and the state that caches them.

pub mod category;
pub mod game;
pub mod leaderboard;

pub mod level;
pub mod platform;
pub mod region;
pub mod run;
pub mod user;


pub mod variable;
pub mod variable_map;

use vstd::prelude::*;
use vstd::string::*;
use std::sync::Arc;
use crate::analyzer::role_definition::PartnerRestriction;
use crate::boards::request::{get_request, pair_texts, url_encode, url_encoded, Lookup, Method, Request, RequestView};
use crate::boards::srcom::category::{Category, CategoryId, CategoryOrId};
use crate::boards::srcom::game::{Game, GameId, GameOrId};
use crate::boards::srcom::leaderboard::{best_run_is, same_board, Leaderboard, LeaderboardPlace, UserOrGuest};
use crate::boards::srcom::level::LevelId;
use crate::boards::srcom::user::{User, UserId};
use crate::boards::srcom::variable::{Variable, VariableId};
use crate::boards::srcom::variable_map::VariableMap;
use crate::cache::{CachedEntry, TtlCache};
use crate::key::Key;
use crate::share::share;

verus! {

/// An image with its size.
#[derive(Debug)]
pub struct Asset {
    pub uri: String,
    pub width: u32,
    pub height: u32,
}

/// A link to a related resource.
#[derive(Debug)]
pub struct Link {
    pub rel: String,
    pub uri: String,
}

/// How a run's time is measured.
#[derive(Debug, Clone, Copy, PartialEq, Eq, Structural)]
pub enum TimingMethod {
    RealTime,
    RealTimeNoLoads,
    InGame,
}

/// The envelope round one item of an answer.
#[derive(Debug)]
pub struct SingleItemRequest<T> {
    pub data: T,
}

/// The envelope round a list of items of an answer.
#[derive(Debug)]
pub struct MultipleItemRequest<T> {
    pub data: Vec<T>,
}

/// What names a leaderboard: a game, a category, a level where the board is
/// of one level, and the values chosen for the variables.
#[derive(Debug)]
pub struct BoardDefinition {
    pub game: GameId,
    pub category: CategoryId,
    pub level: Option<LevelId>,
    pub variables: VariableMap,
}

/// What names a leaderboard, as texts. Two definitions name the same
/// leaderboard exactly when they agree in this.
pub struct BoardKey {
    pub game: Seq<char>,
    pub category: Seq<char>,
    pub level: Option<Seq<char>>,
    pub variables: Map<Seq<char>, Seq<char>>,
}

impl View for BoardDefinition {
    type V = BoardKey;

    open spec fn view(&self) -> BoardKey {
        BoardKey {
            game: self.game@,
            category: self.category@,
            level: match self.level {
                Some(level) => Some(level@),
                None => None,
            },
            variables: self.variables@,
        }
    }
}

impl Key for BoardDefinition {
    fn same_key(&self, other: &Self) -> (same: bool) {
        let same_level = match (&self.level, &other.level) {
            (Some(a), Some(b)) => a.same_key(b),
            (None, None) => true,
            _ => false,
        };
        same_level && self.game.same_key(&other.game) && self.category.same_key(&other.category)
            && self.variables.same_choice(&other.variables)
    }
}

/// The address of the leaderboard of a game, a category and, perhaps, a level.
pub open spec fn spec_leaderboard_url(
    game: Seq<char>,
    category: Seq<char>,
    level: Option<Seq<char>>,
) -> Seq<char> {
    match level {
        Some(level) => "https://www.speedrun.com/api/v1/leaderboards/"@ + url_encoded(game)
            + "/level/"@ + url_encoded(level) + "/"@ + url_encoded(category),
        None => "https://www.speedrun.com/api/v1/leaderboards/"@ + url_encoded(game)
            + "/category/"@ + url_encoded(category),
    }
}

/// The parameters of a request for a leaderboard: what is to be embedded,
/// then one parameter for each chosen value, in the order of the variables.
pub open spec fn spec_leaderboard_query(keys: Seq<Seq<char>>, values: Seq<Seq<char>>) -> Seq<
    (Seq<char>, Seq<char>),
> {
    seq![("embed"@, "game,category,players,variables"@)] + Seq::new(
        keys.len(),
        |i: int| ("var-"@ + keys[i], values[i]),
    )
}

/// The request for the leaderboard of the given game, category and level,
/// with the given values chosen.
pub open spec fn spec_leaderboard_request(
    game: Seq<char>,
    category: Seq<char>,
    level: Option<Seq<char>>,
    keys: Seq<Seq<char>>,
    values: Seq<Seq<char>>,
) -> RequestView {
    RequestView {
        method: Method::Get,
        url: spec_leaderboard_url(game, category, level),
        query: spec_leaderboard_query(keys, values),
        form: Seq::empty(),
    }
}

impl BoardDefinition {
    /// The request for the leaderboard that the definition names.
    pub open spec fn spec_request(&self) -> RequestView {
        spec_leaderboard_request(
            self@.game,
            self@.category,
            self@.level,
            self.variables.spec_keys(),
            self.variables.spec_values(),
        )
    }
}

/// Two definitions that name the same leaderboard give the same request,
/// however their choices of values were put together.
pub proof fn lemma_same_board_same_request(a: BoardDefinition, b: BoardDefinition)
    requires
        a.variables.canonical(),
        b.variables.canonical(),
        a@ == b@,
    ensures
        a.spec_request() == b.spec_request(),
{
    crate::boards::srcom::variable_map::lemma_one_form(a.variables, b.variables);
}

/// The request for one entity of the given kind.
pub open spec fn spec_entity_request(kind: Seq<char>, id: Seq<char>) -> RequestView {
    RequestView {
        method: Method::Get,
        url: "https://www.speedrun.com/api/v1/"@ + kind + "/"@ + url_encoded(id),
        query: Seq::empty(),
        form: Seq::empty(),
    }
}

/// The request for the leaderboard that `def` names. The same definition
/// always gives the same request: the chosen values come in the order of
/// their variables.
pub fn leaderboard_request(def: &BoardDefinition) -> (request: Request)
    ensures
        request@ == def.spec_request(),
{
    let mut url = String::from_str("https://www.speedrun.com/api/v1/leaderboards/");
    let game = url_encode(def.game.0.as_str());
    url.append(game.as_str());
    match &def.level {
        Some(level) => {
            url.append("/level/");
            let level = url_encode(level.0.as_str());
            url.append(level.as_str());
            url.append("/");
        },
        None => {
            url.append("/category/");
        },
    }
    let category = url_encode(def.category.0.as_str());
    url.append(category.as_str());
    let mut query: Vec<(String, String)> = Vec::new();
    query.push((String::from_str("embed"), String::from_str("game,category,players,variables")));
    let ghost keys = def.variables.spec_keys();
    let ghost values = def.variables.spec_values();
    let n = def.variables.len();
    let mut i: usize = 0;
    while i < n
        invariant
            i <= n,
            n == keys.len(),
            keys == def.variables.spec_keys(),
            values == def.variables.spec_values(),
            pair_texts(query@) == spec_leaderboard_query(keys.take(i as int), values),
        decreases n - i,
    {
        let kv = def.variables.entry_at(i);
        let mut name = String::from_str("var-");
        name.append(kv.0.0.as_str());
        let value = String::from_str(kv.1.0.as_str());
        query.push((name, value));
        proof {
            let before = spec_leaderboard_query(keys.take(i as int), values);
            let after = spec_leaderboard_query(keys.take(i + 1), values);
            assert(after.len() == before.len() + 1);
            assert forall|j: int| 0 <= j < after.len() implies pair_texts(query@)[j]
                == after[j] by {
                if j < before.len() {
                    assert(pair_texts(query@)[j] == before[j]);
                    if j > 0 {
                        assert(keys.take(i as int)[j - 1] == keys.take(i + 1)[j - 1]);
                    }
                } else {
                    assert(keys.take(i + 1)[i as int] == keys[i as int]);
                }
            }
            assert(pair_texts(query@) =~= after);
        }
        i = i + 1;
    }
    proof {
        assert(keys.take(n as int) =~= keys);
    }
    let request = Request { method: Method::Get, url, query, form: Vec::new() };
    assert(pair_texts(request.form@) =~= Seq::empty());
    assert(request@.url =~= def.spec_request().url);
    request
}

/// The request for one entity of the given kind, such as `games`.
pub fn entity_request(kind: &str, id: &str) -> (request: Request)
    ensures
        request@ == spec_entity_request(kind@, id@),
{
    let mut url = String::from_str("https://www.speedrun.com/api/v1/");
    url.append(kind);
    url.append("/");
    let id = url_encode(id);
    url.append(id.as_str());
    get_request(url)
}

/// The cache of users after the users among `players` have been stored as
/// fetched at `now`, in their order.
pub open spec fn with_users(
    cache: Map<Seq<u8>, CachedEntry<Arc<User>>>,
    players: Seq<UserOrGuest>,
    now: i64,
) -> Map<Seq<u8>, CachedEntry<Arc<User>>>
    decreases players.len(),
{
    if players.len() == 0 {
        cache
    } else {
        let before = with_users(cache, players.drop_last(), now);
        match players.last() {
            UserOrGuest::User(user) => before.insert(
                user.id@,
                CachedEntry { value: user, fetched_at: now },
            ),
            UserOrGuest::Guest { .. } => before,
        }
    }
}

/// The cache of variables after `variables` have been stored as fetched at
/// `now`, in their order.
pub open spec fn with_variables(
    cache: Map<Seq<char>, CachedEntry<Arc<Variable>>>,
    variables: Seq<Arc<Variable>>,
    now: i64,
) -> Map<Seq<char>, CachedEntry<Arc<Variable>>>
    decreases variables.len(),
{
    if variables.len() == 0 {
        cache
    } else {
        with_variables(cache, variables.drop_last(), now).insert(
            variables.last().id@,
            CachedEntry { value: variables.last(), fetched_at: now },
        )
    }
}

/// Stores the users among `players` as fetched at `now`.
fn store_users(cache: &mut TtlCache<UserId, Arc<User>>, players: &Vec<UserOrGuest>, now: i64)
    ensures
        final(cache)@ == with_users(old(cache)@, players@, now),
        final(cache).spec_ttl() == old(cache).spec_ttl(),
{
    let n = players.len();
    let mut i: usize = 0;
    while i < n
        invariant
            i <= n,
            n == players@.len(),
            cache.spec_ttl() == old(cache).spec_ttl(),
            cache@ == with_users(old(cache)@, players@.take(i as int), now),
        decreases n - i,
    {
        proof {
            assert(players@.take(i + 1).drop_last() =~= players@.take(i as int));
        }
        match &players[i] {
            UserOrGuest::User(user) => {
                cache.put(user.id, share(user), now);
            },
            UserOrGuest::Guest { .. } => {},
        }
        i = i + 1;
    }
    proof {
        assert(players@.take(n as int) =~= players@);
    }
}

/// Stores `variables` as fetched at `now`.
fn store_variables(
    cache: &mut TtlCache<VariableId, Arc<Variable>>,
    variables: &Vec<Arc<Variable>>,
    now: i64,
)
    ensures
        final(cache)@ == with_variables(old(cache)@, variables@, now),
        final(cache).spec_ttl() == old(cache).spec_ttl(),
{
    let n = variables.len();
    let mut i: usize = 0;
    while i < n
        invariant
            i <= n,
            n == variables@.len(),
            cache.spec_ttl() == old(cache).spec_ttl(),
            cache@ == with_variables(old(cache)@, variables@.take(i as int), now),
        decreases n - i,
    {
        proof {
            assert(variables@.take(i + 1).drop_last() =~= variables@.take(i as int));
        }
        let variable = &variables[i];
        cache.put(variable.id.clone(), share(variable), now);
        i = i + 1;
    }
    proof {
        assert(variables@.take(n as int) =~= variables@);
    }
}

/// The players that a leaderboard embeds.
pub open spec fn embedded_players(leaderboard: &Leaderboard) -> Seq<UserOrGuest> {
    match leaderboard.players {
        Some(players) => players.data@,
        None => Seq::empty(),
    }
}

/// The variables that a leaderboard embeds.
pub open spec fn embedded_variables(leaderboard: &Leaderboard) -> Seq<Arc<Variable>> {
    match leaderboard.variables {
        Some(variables) => variables.data@,
        None => Seq::empty(),
    }
}

/// Whether `after` holds the same leaderboards as `before`, fetched at the
/// same instants, with, at most, more answers on record.
pub open spec fn same_boards(
    before: Map<BoardKey, CachedEntry<Leaderboard>>,
    after: Map<BoardKey, CachedEntry<Leaderboard>>,
) -> bool {
    &&& after.dom() == before.dom()
    &&& forall|k: BoardKey| #[trigger]
        before.dom().contains(k) ==> after[k].fetched_at == before[k].fetched_at && same_board(
            before[k].value,
            after[k].value,
        )
}

/// What is known of the speedrunning board: leaderboards, games, categories,
/// users and variables, each kept for the same time after it was fetched.
#[derive(Debug)]
pub struct SrComBoardsState {
    pub cached_boards: TtlCache<BoardDefinition, Leaderboard>,
    pub cached_games: TtlCache<GameId, Arc<Game>>,
    pub cached_categories: TtlCache<CategoryId, Arc<Category>>,
    pub cached_users: TtlCache<UserId, Arc<User>>,
    pub cached_variables: TtlCache<VariableId, Arc<Variable>>,
}

impl SrComBoardsState {
    /// Whether every cache keeps its entries for `ttl`.
    pub open spec fn keeps_for(&self, ttl: i64) -> bool {
        &&& self.cached_boards.spec_ttl() == ttl
        &&& self.cached_games.spec_ttl() == ttl
        &&& self.cached_categories.spec_ttl() == ttl
        &&& self.cached_users.spec_ttl() == ttl
        &&& self.cached_variables.spec_ttl() == ttl
    }

    /// Whether nothing is cached.
    pub open spec fn is_empty(&self) -> bool {
        &&& self.cached_boards@ == Map::<BoardKey, CachedEntry<Leaderboard>>::empty()
        &&& self.cached_games@ == Map::<Seq<char>, CachedEntry<Arc<Game>>>::empty()
        &&& self.cached_categories@ == Map::<Seq<char>, CachedEntry<Arc<Category>>>::empty()
        &&& self.cached_users@ == Map::<Seq<u8>, CachedEntry<Arc<User>>>::empty()
        &&& self.cached_variables@ == Map::<Seq<char>, CachedEntry<Arc<Variable>>>::empty()
    }

    /// A state with nothing cached, which keeps what it will cache for
    /// `cache_persist_time` seconds.
    pub fn new(cache_persist_time: i64) -> (state: SrComBoardsState)
        ensures
            state.keeps_for(cache_persist_time),
            state.is_empty(),
    {
        SrComBoardsState {
            cached_boards: TtlCache::new(cache_persist_time),
            cached_games: TtlCache::new(cache_persist_time),
            cached_categories: TtlCache::new(cache_persist_time),
            cached_users: TtlCache::new(cache_persist_time),
            cached_variables: TtlCache::new(cache_persist_time),
        }
    }

    /// Whether `found` is what a look for a leaderboard at `now` gives: the
    /// leaderboard under `key` where it is cached and fresh, else `request`.
    pub open spec fn board_lookup_is(
        &self,
        key: BoardKey,
        request: RequestView,
        now: i64,
        found: Lookup<&Leaderboard>,
    ) -> bool {
        match self.cached_boards.spec_get(key, now) {
            Some(board) => found == Lookup::Found(&board),
            None => found matches Lookup::Fetch(sent) && sent@ == request,
        }
    }

    /// The leaderboard that `def` names, from the cache where it is fresh at
    /// `now`, else the request for it.
    pub fn fetch_leaderboard_by_definition(&self, def: &BoardDefinition, now: i64) -> (found:
        Lookup<&Leaderboard>)
        ensures
            self.board_lookup_is(def@, def.spec_request(), now, found),
    {
        match self.cached_boards.get(def, now) {
            Some(board) => Lookup::Found(board),
            None => Lookup::Fetch(leaderboard_request(def)),
        }
    }

    /// The full-game leaderboard of a category, with no value chosen.
    pub fn fetch_leaderboard(&self, game: GameId, category: CategoryId, now: i64) -> (found:
        Lookup<&Leaderboard>)
        ensures
            self.board_lookup_is(
                BoardKey {
                    game: game@,
                    category: category@,
                    level: None,
                    variables: Map::empty(),
                },
                spec_leaderboard_request(game@, category@, None, Seq::empty(), Seq::empty()),
                now,
                found,
            ),
    {
        let def = BoardDefinition { game, category, level: None, variables: VariableMap::new() };
        self.fetch_leaderboard_by_definition(&def, now)
    }

    /// The leaderboard of a category for one level, with no value chosen.
    pub fn fetch_leaderboard_with_level(
        &self,
        game: GameId,
        category: CategoryId,
        level: LevelId,
        now: i64,
    ) -> (found: Lookup<&Leaderboard>)
        ensures
            self.board_lookup_is(
                BoardKey {
                    game: game@,
                    category: category@,
                    level: Some(level@),
                    variables: Map::empty(),
                },
                spec_leaderboard_request(
                    game@,
                    category@,
                    Some(level@),
                    Seq::empty(),
                    Seq::empty(),
                ),
                now,
                found,
            ),
    {
        let def = BoardDefinition {
            game,
            category,
            level: Some(level),
            variables: VariableMap::new(),
        };
        self.fetch_leaderboard_by_definition(&def, now)
    }

    /// The full-game leaderboard of a category with the given values chosen.
    pub fn fetch_leaderboard_with_variables(
        &self,
        game: GameId,
        category: CategoryId,
        variables: VariableMap,
        now: i64,
    ) -> (found: Lookup<&Leaderboard>)
        ensures
            self.board_lookup_is(
                BoardKey {
                    game: game@,
                    category: category@,
                    level: None,
                    variables: variables@,
                },
                spec_leaderboard_request(
                    game@,
                    category@,
                    None,
                    variables.spec_keys(),
                    variables.spec_values(),
                ),
                now,
                found,
            ),
    {
        let def = BoardDefinition { game, category, level: None, variables };
        self.fetch_leaderboard_by_definition(&def, now)
    }

    /// The leaderboard of a category for one level with the given values
    /// chosen.
    pub fn fetch_leaderboard_with_level_and_variables(
        &self,
        game: GameId,
        category: CategoryId,
        level: LevelId,
        variables: VariableMap,
        now: i64,
    ) -> (found: Lookup<&Leaderboard>)
        ensures
            self.board_lookup_is(
                BoardKey {
                    game: game@,
                    category: category@,
                    level: Some(level@),
                    variables: variables@,
                },
                spec_leaderboard_request(
                    game@,
                    category@,
                    Some(level@),
                    variables.spec_keys(),
                    variables.spec_values(),
                ),
                now,
                found,
            ),
    {
        let def = BoardDefinition { game, category, level: Some(level), variables };
        self.fetch_leaderboard_by_definition(&def, now)
    }

    /// The best run of a user on the leaderboard that `def` names, where that
    /// leaderboard is cached and fresh at `now`; else the request for the
    /// leaderboard.
    ///
    /// The search is made on the cached leaderboard, which keeps the answer;
    /// apart from that, nothing that is cached changes.
    pub fn highest_run_on(
        &mut self,
        def: &BoardDefinition,
        user_id: &UserId,
        partner_restriction: &Option<PartnerRestriction>,
        now: i64,
    ) -> (found: Lookup<Option<Arc<LeaderboardPlace>>>)
        ensures
            match old(self).cached_boards.spec_get(def@, now) {
                Some(board) => found matches Lookup::Found(best) && best_run_is(
                    board.runs@,
                    user_id@,
                    *partner_restriction,
                    best,
                ),
                None => found matches Lookup::Fetch(request) && request@ == def.spec_request(),
            },
            same_boards(old(self).cached_boards@, final(self).cached_boards@),
            final(self).cached_boards.spec_ttl() == old(self).cached_boards.spec_ttl(),
            final(self).cached_games == old(self).cached_games,
            final(self).cached_categories == old(self).cached_categories,
            final(self).cached_users == old(self).cached_users,
            final(self).cached_variables == old(self).cached_variables,
    {
        match self.cached_boards.fresh_position(def, now) {
            Some(i) => {
                let ghost before = self.cached_boards@;
                let board = self.cached_boards.value_at_mut(i);
                let best = board.get_highest_run(*user_id, *partner_restriction);
                proof {
                    assert(self.cached_boards@.dom() =~= before.dom());
                }
                Lookup::Found(best)
            },
            None => Lookup::Fetch(leaderboard_request(def)),
        }
    }

    /// The best run of a user on the full-game leaderboard of a category
    /// with the given values chosen, where that leaderboard is cached and
    /// fresh at `now`; else the request for the leaderboard.
    ///
    /// The search is made on the cached leaderboard, which keeps the answer;
    /// apart from that, nothing that is cached changes.
    pub fn fetch_user_highest_run(
        &mut self,
        user_id: &UserId,
        partner_restriction: &Option<PartnerRestriction>,
        game: GameId,
        category: CategoryId,
        variable_map: VariableMap,
        now: i64,
    ) -> (found: Lookup<Option<Arc<LeaderboardPlace>>>)
        ensures
            match old(self).cached_boards.spec_get(
                BoardKey {
                    game: game@,
                    category: category@,
                    level: None,
                    variables: variable_map@,
                },
                now,
            ) {
                Some(board) => found matches Lookup::Found(best) && best_run_is(
                    board.runs@,
                    user_id@,
                    *partner_restriction,
                    best,
                ),
                None => found matches Lookup::Fetch(request) && request@
                    == spec_leaderboard_request(
                    game@,
                    category@,
                    None,
                    variable_map.spec_keys(),
                    variable_map.spec_values(),
                ),
            },
            same_boards(old(self).cached_boards@, final(self).cached_boards@),
            final(self).cached_boards.spec_ttl() == old(self).cached_boards.spec_ttl(),
            final(self).cached_games == old(self).cached_games,
            final(self).cached_categories == old(self).cached_categories,
            final(self).cached_users == old(self).cached_users,
            final(self).cached_variables == old(self).cached_variables,
    {
        let def = BoardDefinition { game, category, level: None, variables: variable_map };
        self.highest_run_on(&def, user_id, partner_restriction, now)
    }

    /// Whether `found` is what a look into `cache` at `now` gives: the value
    /// under `key` where it is cached and fresh, else `request`.
    pub open spec fn lookup_is<K, V>(
        cache: Map<K, CachedEntry<V>>,
        ttl: i64,
        key: K,
        request: RequestView,
        now: i64,
        found: Lookup<V>,
    ) -> bool {
        match crate::cache::fresh_value(cache, ttl, key, now) {
            Some(value) => found == Lookup::Found(value),
            None => found matches Lookup::Fetch(sent) && sent@ == request,
        }
    }

    /// The game `id`, from the cache where it is fresh at `now`, else the
    /// request for it.
    pub fn fetch_game(&self, id: GameId, now: i64) -> (found: Lookup<Arc<Game>>)
        ensures
            Self::lookup_is(
                self.cached_games@,
                self.cached_games.spec_ttl(),
                id@,
                spec_entity_request("games"@, id@),
                now,
                found,
            ),
    {
        match self.cached_games.get(&id, now) {
            Some(game) => Lookup::Found(share(game)),
            None => Lookup::Fetch(entity_request("games", id.0.as_str())),
        }
    }

    /// The category `id`, from the cache where it is fresh at `now`, else the
    /// request for it.
    pub fn fetch_category(&self, id: CategoryId, now: i64) -> (found: Lookup<Arc<Category>>)
        ensures
            Self::lookup_is(
                self.cached_categories@,
                self.cached_categories.spec_ttl(),
                id@,
                spec_entity_request("categories"@, id@),
                now,
                found,
            ),
    {
        match self.cached_categories.get(&id, now) {
            Some(category) => Lookup::Found(share(category)),
            None => Lookup::Fetch(entity_request("categories", id.0.as_str())),
        }
    }

    /// The user `id`, from the cache where it is fresh at `now`, else the
    /// request for it.
    pub fn fetch_user(&self, id: UserId, now: i64) -> (found: Lookup<Arc<User>>)
        ensures
            Self::lookup_is(
                self.cached_users@,
                self.cached_users.spec_ttl(),
                id@,
                spec_entity_request("users"@, crate::text::byte_chars(id@)),
                now,
                found,
            ),
    {
        match self.cached_users.get(&id, now) {
            Some(user) => Lookup::Found(share(user)),
            None => {
                let text = id.to_string();
                Lookup::Fetch(entity_request("users", text.as_str()))
            },
        }
    }

    /// The variable `id`, from the cache where it is fresh at `now`, else the
    /// request for it.
    pub fn fetch_variable(&self, id: VariableId, now: i64) -> (found: Lookup<Arc<Variable>>)
        ensures
            Self::lookup_is(
                self.cached_variables@,
                self.cached_variables.spec_ttl(),
                id@,
                spec_entity_request("variables"@, id@),
                now,
                found,
            ),
    {
        match self.cached_variables.get(&id, now) {
            Some(variable) => Lookup::Found(share(variable)),
            None => Lookup::Fetch(entity_request("variables", id.0.as_str())),
        }
    }

    /// Stores a game as fetched at `now`.
    pub fn store_game(&mut self, id: GameId, game: Arc<Game>, now: i64)
        ensures
            final(self).cached_games@ == old(self).cached_games@.insert(
                id@,
                CachedEntry { value: game, fetched_at: now },
            ),
            final(self).cached_games.spec_ttl() == old(self).cached_games.spec_ttl(),
            final(self).cached_boards == old(self).cached_boards,
            final(self).cached_categories == old(self).cached_categories,
            final(self).cached_users == old(self).cached_users,
            final(self).cached_variables == old(self).cached_variables,
    {
        self.cached_games.put(id, game, now);
    }

    /// Stores a category as fetched at `now`.
    pub fn store_category(&mut self, id: CategoryId, category: Arc<Category>, now: i64)
        ensures
            final(self).cached_categories@ == old(self).cached_categories@.insert(
                id@,
                CachedEntry { value: category, fetched_at: now },
            ),
            final(self).cached_categories.spec_ttl() == old(self).cached_categories.spec_ttl(),
            final(self).cached_boards == old(self).cached_boards,
            final(self).cached_games == old(self).cached_games,
            final(self).cached_users == old(self).cached_users,
            final(self).cached_variables == old(self).cached_variables,
    {
        self.cached_categories.put(id, category, now);
    }

    /// Stores a user as fetched at `now`.
    pub fn store_user(&mut self, id: UserId, user: Arc<User>, now: i64)
        ensures
            final(self).cached_users@ == old(self).cached_users@.insert(
                id@,
                CachedEntry { value: user, fetched_at: now },
            ),
            final(self).cached_users.spec_ttl() == old(self).cached_users.spec_ttl(),
            final(self).cached_boards == old(self).cached_boards,
            final(self).cached_games == old(self).cached_games,
            final(self).cached_categories == old(self).cached_categories,
            final(self).cached_variables == old(self).cached_variables,
    {
        self.cached_users.put(id, user, now);
    }

    /// Stores a variable as fetched at `now`.
    pub fn store_variable(&mut self, id: VariableId, variable: Arc<Variable>, now: i64)
        ensures
            final(self).cached_variables@ == old(self).cached_variables@.insert(
                id@,
                CachedEntry { value: variable, fetched_at: now },
            ),
            final(self).cached_variables.spec_ttl() == old(self).cached_variables.spec_ttl(),
            final(self).cached_boards == old(self).cached_boards,
            final(self).cached_games == old(self).cached_games,
            final(self).cached_categories == old(self).cached_categories,
            final(self).cached_users == old(self).cached_users,
    {
        self.cached_variables.put(id, variable, now);
    }

    /// Stores a leaderboard as fetched at `now`, and with it what it embeds:
    /// its game and its category where it holds them in full, the users among
    /// its players and its variables. One answer fills five caches.
    pub fn store_leaderboard(&mut self, def: BoardDefinition, leaderboard: Leaderboard, now: i64)
        ensures
            final(self).cached_boards@ == old(self).cached_boards@.insert(
                def@,
                CachedEntry { value: leaderboard, fetched_at: now },
            ),
            final(self).cached_games@ == match leaderboard.game {
                GameOrId::Game { data } => old(self).cached_games@.insert(
                    data.id@,
                    CachedEntry { value: data, fetched_at: now },
                ),
                GameOrId::Id(_) => old(self).cached_games@,
            },
            final(self).cached_categories@ == match leaderboard.category {
                CategoryOrId::Category { data } => old(self).cached_categories@.insert(
                    data.id@,
                    CachedEntry { value: data, fetched_at: now },
                ),
                CategoryOrId::Id(_) => old(self).cached_categories@,
            },
            final(self).cached_users@ == with_users(
                old(self).cached_users@,
                embedded_players(&leaderboard),
                now,
            ),
            final(self).cached_variables@ == with_variables(
                old(self).cached_variables@,
                embedded_variables(&leaderboard),
                now,
            ),
            forall|ttl: i64| old(self).keeps_for(ttl) ==> final(self).keeps_for(ttl),
    {
        match &leaderboard.game {
            GameOrId::Game { data } => {
                self.cached_games.put(data.id.clone(), share(data), now);
            },
            GameOrId::Id(_) => {},
        }
        match &leaderboard.category {
            CategoryOrId::Category { data } => {
                self.cached_categories.put(data.id.clone(), share(data), now);
            },
            CategoryOrId::Id(_) => {},
        }
        match &leaderboard.players {
            Some(players) => {
                store_users(&mut self.cached_users, &players.data, now);
            },
            None => {},
        }
        match &leaderboard.variables {
            Some(variables) => {
                store_variables(&mut self.cached_variables, &variables.data, now);
            },
            None => {},
        }
        self.cached_boards.put(def, leaderboard, now);
    }
}

} // verus!
