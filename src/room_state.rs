//! The last known state of each room, kept for a short while.
use vstd::prelude::*;
use mini_moka::sync::Cache;

verus! {

/// Most rooms the cache holds at once.
pub const MAXIMUM_CACHE_SIZE: u64 = 1000;

/// Seconds an entry lives after it is written, and after it is last read.
pub const MAXIMUM_CACHE_SECONDS: u64 = 120;

/// What is known of a room: the index of its active scene among the room's
/// scenes, its brightness in hundredths of a percent, and whether it is on.
#[derive(Debug, Clone, Copy, PartialEq, Eq, Structural)]
pub struct CurrentRoomState {
    pub scene: Option<usize>,
    pub brightness: Option<u32>,
    pub on: bool,
}

impl CurrentRoomState {
    /// A room that is on has a brightness, and one that is off has none.
    pub open spec fn wf(self) -> bool {
        self.on == self.brightness is Some
    }

    pub fn new(scene: Option<usize>, brightness: Option<u32>, on: bool) -> (r: Self)
        ensures
            r == (CurrentRoomState { scene, brightness, on }),
    {
        CurrentRoomState { scene, brightness, on }
    }
}

/// mini_moka's concurrent cache, held as an opaque value.
#[verifier::external_type_specification]
#[verifier::external_body]
#[verifier::reject_recursive_types(K)]
#[verifier::reject_recursive_types(V)]
#[verifier::reject_recursive_types(S)]
pub struct ExCache<K, V, S>(Cache<K, V, S>);

/// The limits a cache was built with: its capacity, and the seconds an entry
/// lives after it is written and after it is last read.
pub uninterp spec fn cache_limits(c: Cache<u128, CurrentRoomState>) -> (u64, u64, u64);

/// Relies on mini_moka's `Cache::builder` and the `CacheBuilder` methods
/// `max_capacity`, `time_to_live`, `time_to_idle` and `build`: a cache of at
/// most `max_capacity` entries, each dropped `seconds` after it was written or
/// last read; the builder keeps the values it is given. `build` panics on a
/// duration past a thousand years, which `requires` leaves out. Nothing is
/// promised of the cache's contents.
#[verifier::external_body]
fn build_cache(max_capacity: u64, seconds: u64) -> (r: Cache<u128, CurrentRoomState>)
    requires
        seconds <= 1000 * 365 * 24 * 3600,
    ensures
        cache_limits(r) == (max_capacity, seconds, seconds),
{
    Cache::builder()
        .max_capacity(max_capacity)
        .time_to_live(std::time::Duration::from_secs(seconds))
        .time_to_idle(std::time::Duration::from_secs(seconds))
        .build()
}

/// Relies on mini_moka's `Cache::get`: a copy of the entry for `key`, if one is
/// still held. Entries expire with time, so nothing is promised of the result.
#[verifier::external_body]
fn cache_get(cache: &Cache<u128, CurrentRoomState>, key: u128) -> (r: Option<CurrentRoomState>) {
    cache.get(&key)
}

/// Relies on mini_moka's `Cache::insert`: writes or replaces the entry for `key`.
#[verifier::external_body]
fn cache_insert(cache: &Cache<u128, CurrentRoomState>, key: u128, value: CurrentRoomState) {
    cache.insert(key, value)
}

/// Room states by room identifier, each kept for a short while. Absence means
/// that the state is unknown, not that the room is off.
pub struct RoomStateCache {
    entries: Cache<u128, CurrentRoomState>,
}

/// An empty cache of room states, holding at most `MAXIMUM_CACHE_SIZE` rooms,
/// each for `MAXIMUM_CACHE_SECONDS` after it was written or last read.
pub fn new_cache() -> (r: RoomStateCache)
    ensures
        r.limits() == (MAXIMUM_CACHE_SIZE, MAXIMUM_CACHE_SECONDS, MAXIMUM_CACHE_SECONDS),
{
    RoomStateCache { entries: build_cache(MAXIMUM_CACHE_SIZE, MAXIMUM_CACHE_SECONDS) }
}

/// What a cache read hands out: a state found is kept only when it keeps the
/// on/brightness rule.
pub fn consistent_state(found: Option<CurrentRoomState>) -> (r: Option<CurrentRoomState>)
    ensures
        r == (match found {
            Some(s) => if s.wf() {
                Some(s)
            } else {
                None
            },
            None => None,
        }),
{
    match found {
        Some(s) => if s.on == s.brightness.is_some() {
            Some(s)
        } else {
            None
        },
        None => None,
    }
}

impl RoomStateCache {
    /// The capacity and the two lifetimes, in seconds, the cache was built with.
    pub closed spec fn limits(self) -> (u64, u64, u64) {
        cache_limits(self.entries)
    }

    /// The state held for a room, if any, as `consistent_state` hands it out.
    /// Entries expire with time and other tasks write them, so what the cache
    /// holds is not known here.
    pub fn get(&self, room_id: u128) -> (r: Option<CurrentRoomState>)
        ensures
            r matches Some(s) ==> s.wf(),
    {
        consistent_state(cache_get(&self.entries, room_id))
    }

    /// Writes or replaces the state of a room.
    pub fn insert(&self, room_id: u128, state: CurrentRoomState)
        requires
            state.wf(),
    {
        cache_insert(&self.entries, room_id, state)
    }
}

} // verus!
