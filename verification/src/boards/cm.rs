//! The puzzle board: aggregated scores, active profiles and profiles.

pub mod active_profiles;
pub mod aggregate;
pub mod profile;

use vstd::prelude::*;
use vstd::string::*;
use std::sync::Arc;
use crate::analyzer::role_definition::CmLeaderboard;
use crate::boards::cm::aggregate::{AggregatedPlace, AggregatedResponse};
use crate::boards::cm::profile::Profile;
use crate::boards::request::{get_request, pair_texts, Lookup, Method, Request, RequestView};
use crate::cache::{fresh_value, CachedEntry, TtlCache};
use crate::error::RoleManagerError;
use crate::share::share;
use crate::text::{decimal, i64_to_string, parse_i64, signed_decimal, spec_parse_i64, u64_to_string};

verus! {

/// The request for an aggregated board.
pub open spec fn spec_aggregate_request(leaderboard: CmLeaderboard) -> RequestView {
    RequestView {
        method: Method::Get,
        url: "https://board.portal2.sr/"@ + leaderboard.spec_page() + "/json"@,
        query: Seq::empty(),
        form: Seq::empty(),
    }
}

/// The request for the profiles that were active in the last `months` months.
pub open spec fn spec_active_profiles_request(months: u64) -> RequestView {
    RequestView {
        method: Method::Post,
        url: "https://board.portal2.sr/api-v2/active-profiles"@,
        query: Seq::empty(),
        form: seq![("months"@, decimal(months as nat))],
    }
}

/// The request for the profile with the number `id`.
pub open spec fn spec_profile_request(id: i64) -> RequestView {
    RequestView {
        method: Method::Get,
        url: "https://board.portal2.sr/profile/"@ + signed_decimal(id as int) + "/json"@,
        query: Seq::empty(),
        form: Seq::empty(),
    }
}

/// The request for an aggregated board.
pub fn aggregate_request(leaderboard: &CmLeaderboard) -> (request: Request)
    ensures
        request@ == spec_aggregate_request(*leaderboard),
{
    let mut url = String::from_str("https://board.portal2.sr/");
    url.append(leaderboard.page());
    url.append("/json");
    get_request(url)
}

/// The request for the profiles that were active in the last `months` months.
pub fn active_profiles_request(months: u64) -> (request: Request)
    ensures
        request@ == spec_active_profiles_request(months),
{
    let url = String::from_str("https://board.portal2.sr/api-v2/active-profiles");
    let mut form: Vec<(String, String)> = Vec::new();
    form.push((String::from_str("months"), u64_to_string(months)));
    let request = Request { method: Method::Post, url, query: Vec::new(), form };
    proof {
        assert(pair_texts(request.query@) =~= Seq::empty());
        assert(pair_texts(request.form@) =~= seq![("months"@, decimal(months as nat))]);
    }
    request
}

/// The request for the profile with the number `id`.
pub fn profile_request(id: i64) -> (request: Request)
    ensures
        request@ == spec_profile_request(id),
{
    let mut url = String::from_str("https://board.portal2.sr/profile/");
    let number = i64_to_string(id);
    url.append(number.as_str());
    url.append("/json");
    get_request(url)
}

/// Whether `found` is what a look into `cache` at `now` gives: the value
/// under `key` where it is cached and fresh, else `request`.
pub open spec fn lookup_is<K, V>(
    cache: Map<K, CachedEntry<V>>,
    ttl: i64,
    key: K,
    request: RequestView,
    now: i64,
    found: Lookup<V>,
) -> bool {
    match fresh_value(cache, ttl, key, now) {
        Some(value) => found == Lookup::Found(value),
        None => found matches Lookup::Fetch(sent) && sent@ == request,
    }
}

/// The text of the error for a profile number that is no number.
pub open spec fn invalid_steam_id_message(key: Seq<char>) -> Seq<char> {
    "CM Boards provided invalid steam id: "@ + key
}

/// Whether `i` is the first position of `keys` that holds no number.
pub open spec fn is_first_invalid(keys: Seq<Seq<char>>, i: int) -> bool {
    &&& 0 <= i < keys.len()
    &&& spec_parse_i64(keys[i]) is None
    &&& forall|j: int| 0 <= j < i ==> spec_parse_i64(#[trigger] keys[j]) is Some
}

/// The cache of profiles after the profiles of the first `count` lines of an
/// aggregated board have been stored as fetched at `now`, each under the
/// number that its key writes.
pub open spec fn with_profiles(
    cache: Map<i64, CachedEntry<Arc<Profile>>>,
    keys: Seq<Seq<char>>,
    places: Seq<AggregatedPlace>,
    count: int,
    now: i64,
) -> Map<i64, CachedEntry<Arc<Profile>>>
    decreases count,
{
    if count <= 0 {
        cache
    } else {
        with_profiles(cache, keys, places, count - 1, now).insert(
            spec_parse_i64(keys[count - 1]).unwrap(),
            CachedEntry { value: places[count - 1].user_data, fetched_at: now },
        )
    }
}

/// What is known of the puzzle board: aggregated boards, lists of active
/// profiles and profiles, each kept for the same time after it was fetched.
#[derive(Debug)]
pub struct CmBoardsState {
    pub cached_aggregates: TtlCache<CmLeaderboard, Arc<AggregatedResponse>>,
    pub cached_active_profiles: TtlCache<u64, Arc<Vec<String>>>,
    pub cached_profiles: TtlCache<i64, Arc<Profile>>,
}

impl CmBoardsState {
    /// Whether every cache keeps its entries for `ttl`.
    pub open spec fn keeps_for(&self, ttl: i64) -> bool {
        &&& self.cached_aggregates.spec_ttl() == ttl
        &&& self.cached_active_profiles.spec_ttl() == ttl
        &&& self.cached_profiles.spec_ttl() == ttl
    }

    /// Whether nothing is cached.
    pub open spec fn is_empty(&self) -> bool {
        &&& self.cached_aggregates@ == Map::<
            CmLeaderboard,
            CachedEntry<Arc<AggregatedResponse>>,
        >::empty()
        &&& self.cached_active_profiles@ == Map::<u64, CachedEntry<Arc<Vec<String>>>>::empty()
        &&& self.cached_profiles@ == Map::<i64, CachedEntry<Arc<Profile>>>::empty()
    }

    /// A state with nothing cached, which keeps what it will cache for
    /// `cache_persist_time` seconds.
    pub fn new(cache_persist_time: i64) -> (state: Self)
        ensures
            state.keeps_for(cache_persist_time),
            state.is_empty(),
    {
        CmBoardsState {
            cached_aggregates: TtlCache::new(cache_persist_time),
            cached_active_profiles: TtlCache::new(cache_persist_time),
            cached_profiles: TtlCache::new(cache_persist_time),
        }
    }

    /// An aggregated board, from the cache where it is fresh at `now`, else
    /// the request for it.
    pub fn fetch_aggregate(&self, leaderboard: &CmLeaderboard, now: i64) -> (found: Lookup<
        Arc<AggregatedResponse>,
    >)
        ensures
            lookup_is(
                self.cached_aggregates@,
                self.cached_aggregates.spec_ttl(),
                *leaderboard,
                spec_aggregate_request(*leaderboard),
                now,
                found,
            ),
    {
        match self.cached_aggregates.get(leaderboard, now) {
            Some(aggregate) => Lookup::Found(share(aggregate)),
            None => Lookup::Fetch(aggregate_request(leaderboard)),
        }
    }

    /// The profiles that were active in the last `months` months, from the
    /// cache where the list is fresh at `now`, else the request for it.
    pub fn fetch_active_profiles(&self, months: u64, now: i64) -> (found: Lookup<
        Arc<Vec<String>>,
    >)
        ensures
            lookup_is(
                self.cached_active_profiles@,
                self.cached_active_profiles.spec_ttl(),
                months,
                spec_active_profiles_request(months),
                now,
                found,
            ),
    {
        match self.cached_active_profiles.get(&months, now) {
            Some(profiles) => Lookup::Found(share(profiles)),
            None => Lookup::Fetch(active_profiles_request(months)),
        }
    }

    /// The profile with the number `id`, from the cache where it is fresh at
    /// `now`, else the request for it.
    pub fn fetch_profile(&self, id: i64, now: i64) -> (found: Lookup<Arc<Profile>>)
        ensures
            lookup_is(
                self.cached_profiles@,
                self.cached_profiles.spec_ttl(),
                id,
                spec_profile_request(id),
                now,
                found,
            ),
    {
        match self.cached_profiles.get(&id, now) {
            Some(profile) => Lookup::Found(share(profile)),
            None => Lookup::Fetch(profile_request(id)),
        }
    }

    /// Stores an aggregated board as fetched at `now`, and with it the
    /// profile of each player that it lists.
    ///
    /// The profiles are stored line by line. A line whose key is no number
    /// ends the work with an error: the profiles of the lines before it are
    /// stored, the board is not.
    pub fn store_aggregate(
        &mut self,
        leaderboard: CmLeaderboard,
        aggregate: Arc<AggregatedResponse>,
        now: i64,
    ) -> (stored: Result<(), RoleManagerError>)
        ensures
            final(self).cached_aggregates.spec_ttl() == old(self).cached_aggregates.spec_ttl(),
            final(self).cached_profiles.spec_ttl() == old(self).cached_profiles.spec_ttl(),
            final(self).cached_active_profiles == old(self).cached_active_profiles,
            match stored {
                Ok(_) => {
                    &&& forall|j: int|
                        0 <= j < aggregate.points.spec_keys().len() ==> spec_parse_i64(
                            #[trigger] aggregate.points.spec_keys()[j],
                        ) is Some
                    &&& final(self).cached_profiles@ == with_profiles(
                        old(self).cached_profiles@,
                        aggregate.points.spec_keys(),
                        aggregate.points.spec_values(),
                        aggregate.points.spec_keys().len() as int,
                        now,
                    )
                    &&& final(self).cached_aggregates@ == old(self).cached_aggregates@.insert(
                        leaderboard,
                        CachedEntry { value: aggregate, fetched_at: now },
                    )
                },
                Err(e) => exists|i: int|
                    {
                        &&& #[trigger] is_first_invalid(aggregate.points.spec_keys(), i)
                        &&& final(self).cached_profiles@ == with_profiles(
                            old(self).cached_profiles@,
                            aggregate.points.spec_keys(),
                            aggregate.points.spec_values(),
                            i,
                            now,
                        )
                        &&& final(self).cached_aggregates@ == old(self).cached_aggregates@
                        &&& e.cause@ == invalid_steam_id_message(aggregate.points.spec_keys()[i])
                        &&& !e.report_via_edit
                    },
            },
    {
        match store_profiles(&mut self.cached_profiles, &aggregate, now) {
            Ok(_) => {},
            Err(e) => {
                return Err(e);
            },
        }
        self.cached_aggregates.put(leaderboard, aggregate, now);
        Ok(())
    }

    /// Stores a list of active profiles as fetched at `now`.
    pub fn store_active_profiles(&mut self, months: u64, profiles: Arc<Vec<String>>, now: i64)
        ensures
            final(self).cached_active_profiles@ == old(self).cached_active_profiles@.insert(
                months,
                CachedEntry { value: profiles, fetched_at: now },
            ),
            final(self).cached_active_profiles.spec_ttl() == old(
                self,
            ).cached_active_profiles.spec_ttl(),
            final(self).cached_aggregates == old(self).cached_aggregates,
            final(self).cached_profiles == old(self).cached_profiles,
    {
        self.cached_active_profiles.put(months, profiles, now);
    }

    /// Stores a profile as fetched at `now`.
    pub fn store_profile(&mut self, id: i64, profile: Arc<Profile>, now: i64)
        ensures
            final(self).cached_profiles@ == old(self).cached_profiles@.insert(
                id,
                CachedEntry { value: profile, fetched_at: now },
            ),
            final(self).cached_profiles.spec_ttl() == old(self).cached_profiles.spec_ttl(),
            final(self).cached_aggregates == old(self).cached_aggregates,
            final(self).cached_active_profiles == old(self).cached_active_profiles,
    {
        self.cached_profiles.put(id, profile, now);
    }
}

/// Stores the profiles of the lines of `aggregate`, up to the first line
/// whose key is no number.
fn store_profiles(
    cache: &mut TtlCache<i64, Arc<Profile>>,
    aggregate: &AggregatedResponse,
    now: i64,
) -> (stored: Result<(), RoleManagerError>)
    ensures
        final(cache).spec_ttl() == old(cache).spec_ttl(),
        match stored {
            Ok(_) => {
                &&& forall|j: int|
                    0 <= j < aggregate.points.spec_keys().len() ==> spec_parse_i64(
                        #[trigger] aggregate.points.spec_keys()[j],
                    ) is Some
                &&& final(cache)@ == with_profiles(
                    old(cache)@,
                    aggregate.points.spec_keys(),
                    aggregate.points.spec_values(),
                    aggregate.points.spec_keys().len() as int,
                    now,
                )
            },
            Err(e) => exists|i: int|
                {
                    &&& #[trigger] is_first_invalid(aggregate.points.spec_keys(), i)
                    &&& final(cache)@ == with_profiles(
                        old(cache)@,
                        aggregate.points.spec_keys(),
                        aggregate.points.spec_values(),
                        i,
                        now,
                    )
                    &&& e.cause@ == invalid_steam_id_message(aggregate.points.spec_keys()[i])
                    &&& !e.report_via_edit
                },
        },
{
    let ghost keys = aggregate.points.spec_keys();
    let ghost places = aggregate.points.spec_values();
    let n = aggregate.points.len();
    let mut i: usize = 0;
    while i < n
        invariant
            i <= n,
            n == keys.len(),
            keys == aggregate.points.spec_keys(),
            places == aggregate.points.spec_values(),
            cache.spec_ttl() == old(cache).spec_ttl(),
            forall|j: int| 0 <= j < i ==> spec_parse_i64(#[trigger] keys[j]) is Some,
            cache@ == with_profiles(old(cache)@, keys, places, i as int, now),
        decreases n - i,
    {
        let line = aggregate.points.entry_at(i);
        match parse_i64(line.0.as_str()) {
            Some(id) => {
                cache.put(id, share(&line.1.user_data), now);
            },
            None => {
                let mut cause = String::from_str("CM Boards provided invalid steam id: ");
                cause.append(line.0.as_str());
                assert(is_first_invalid(keys, i as int));
                return Err(RoleManagerError::new(cause));
            },
        }
        i = i + 1;
    }
    Ok(())
}

} // verus!
