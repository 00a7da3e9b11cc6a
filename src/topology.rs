//! Rooms, their scenes, and the topology that ties each remote to its room.
use vstd::prelude::*;
use crate::remote_config::{CasetaRemote, RemoteConfiguration, RemoteId};

verus! {

/// Something a scene sets. Identifiers are UUIDs held as their 128-bit value.
#[derive(Debug, Clone)]
pub enum Device {
    HueScene { id: u128, name: String },
    NanoleafLightPanels { name: String, on: bool, effect: String },
    WemoOutlet { name: String, on: bool },
}

/// A named set of device settings.
#[derive(Debug, Clone)]
pub struct Scene {
    pub name: String,
    pub devices: Vec<Device>,
}

/// A room: its lights as one group, its scenes in order, and the remotes that
/// control it. Identifiers are UUIDs held as their 128-bit value.
#[derive(Debug, Clone)]
pub struct Room {
    pub name: String,
    pub room_id: u128,
    pub grouped_light_room_id: u128,
    pub scenes: Vec<Scene>,
    pub remotes: Vec<RemoteId>,
}

/// The rooms of a home.
#[derive(Debug)]
pub struct HomeConfiguration {
    pub rooms: Vec<Room>,
}

/// A configuration that cannot be used.
#[derive(Debug, Clone, Copy, PartialEq, Eq, Structural)]
pub enum ConfigurationError {
    /// A room names a remote that the remote configuration does not hold.
    UnknownRemote(RemoteId),
}

/// Index of the last of the first `n` remotes with identifier `id`.
pub open spec fn last_remote(remotes: Seq<CasetaRemote>, id: RemoteId, n: int) -> Option<int>
    decreases n,
{
    if n <= 0 {
        None
    } else if remotes[n - 1].spec_id() == id {
        Some(n - 1)
    } else {
        last_remote(remotes, id, n - 1)
    }
}

/// Index of the last of the first `n` rooms that lists remote `id`.
pub open spec fn last_room(rooms: Seq<Room>, id: RemoteId, n: int) -> Option<int>
    decreases n,
{
    if n <= 0 {
        None
    } else if rooms[n - 1].remotes@.contains(id) {
        Some(n - 1)
    } else {
        last_room(rooms, id, n - 1)
    }
}

proof fn lemma_last_remote_bounds(remotes: Seq<CasetaRemote>, id: RemoteId, n: int)
    ensures
        last_remote(remotes, id, n) matches Some(i) ==> 0 <= i < n,
    decreases n,
{
    if n > 0 {
        lemma_last_remote_bounds(remotes, id, n - 1);
    }
}

/// Whether every remote that a room lists is configured.
pub open spec fn remotes_known(remotes: Seq<CasetaRemote>, rooms: Seq<Room>) -> bool {
    forall|j: int, k: int|
        0 <= j < rooms.len() && 0 <= k < rooms[j].remotes@.len() ==> last_remote(
            remotes,
            #[trigger] rooms[j].remotes@[k],
            remotes.len() as int,
        ) is Some
}

/// The remote and room that remote `id` stands for: where several remotes share
/// an identifier the last one counts, and where several rooms list it, the last
/// room.
pub open spec fn topology_entry(remotes: Seq<CasetaRemote>, rooms: Seq<Room>, id: RemoteId) -> Option<
    (CasetaRemote, Room),
> {
    match (last_remote(remotes, id, remotes.len() as int), last_room(rooms, id, rooms.len() as int)) {
        (Some(i), Some(j)) => Some((remotes[i], rooms[j])),
        _ => None,
    }
}

/// For each remote identifier, the remote and the room it controls.
#[derive(Debug)]
pub struct Topology {
    remotes: Vec<CasetaRemote>,
    rooms: Vec<Room>,
    by_remote: Vec<Option<(usize, usize)>>,
}

impl Topology {
    pub closed spec fn wf(self) -> bool {
        &&& self.by_remote@.len() == 256
        &&& forall|id: int|
            0 <= id < 256 && #[trigger] self.by_remote@[id] is Some ==> {
                let (i, j) = self.by_remote@[id]->0;
                i < self.remotes@.len() && j < self.rooms@.len()
            }
    }

    /// The remote and room that remote `id` stands for.
    pub closed spec fn entry(self, id: RemoteId) -> Option<(CasetaRemote, Room)> {
        match self.by_remote@[id as int] {
            Some((i, j)) => Some((self.remotes@[i as int], self.rooms@[j as int])),
            None => None,
        }
    }

    /// The remote with identifier `remote_id` and the room it controls.
    pub fn get(&self, remote_id: RemoteId) -> (r: Option<(&CasetaRemote, &Room)>)
        requires
            self.wf(),
        ensures
            r is Some <==> self.entry(remote_id) is Some,
            r matches Some((remote, room)) ==> self.entry(remote_id) == Some((*remote, *room)),
    {
        match self.by_remote[remote_id as usize] {
            Some((i, j)) => Some((&self.remotes[i], &self.rooms[j])),
            None => None,
        }
    }
}

/// Ties each remote that a room lists to that room. Fails on a room that lists
/// a remote the remote configuration does not hold.
pub fn build_topology(
    caseta_remote_configuration: RemoteConfiguration,
    home_configuration: HomeConfiguration,
) -> (r: Result<Topology, ConfigurationError>)
    ensures
        r is Err <==> !remotes_known(
            caseta_remote_configuration.remotes@,
            home_configuration.rooms@,
        ),
        r matches Err(ConfigurationError::UnknownRemote(id)) ==> last_remote(
            caseta_remote_configuration.remotes@,
            id,
            caseta_remote_configuration.remotes@.len() as int,
        ) is None && exists|j: int, k: int|
            0 <= j < home_configuration.rooms@.len() && 0 <= k
                < home_configuration.rooms@[j].remotes@.len()
                && #[trigger] home_configuration.rooms@[j].remotes@[k] == id,
        r matches Ok(t) ==> t.wf() && forall|id: RemoteId|
            #[trigger] t.entry(id) == topology_entry(
                caseta_remote_configuration.remotes@,
                home_configuration.rooms@,
                id,
            ),
{
    let remotes = caseta_remote_configuration.remotes;
    let rooms = home_configuration.rooms;
    let mut remote_index: Vec<Option<usize>> = Vec::new();
    let mut by_remote: Vec<Option<(usize, usize)>> = Vec::new();
    let mut n: usize = 0;
    while n < 256
        invariant
            n <= 256,
            remote_index@.len() == n,
            by_remote@.len() == n,
            forall|k: int| 0 <= k < n ==> remote_index@[k] is None && by_remote@[k] is None,
        decreases 256 - n,
    {
        remote_index.push(None);
        by_remote.push(None);
        n = n + 1;
    }
    let mut i: usize = 0;
    while i < remotes.len()
        invariant
            i <= remotes@.len(),
            remote_index@.len() == 256,
            forall|id: int|
                0 <= id < 256 ==> (match #[trigger] remote_index@[id] {
                    Some(x) => Some(x as int),
                    None => None,
                }) == last_remote(remotes@, id as u8, i as int),
        decreases remotes@.len() - i,
    {
        let id = remotes[i].id();
        remote_index.set(id as usize, Some(i));
        i = i + 1;
    }
    let mut j: usize = 0;
    while j < rooms.len()
        invariant
            remotes@ == caseta_remote_configuration.remotes@,
            rooms@ == home_configuration.rooms@,
            j <= rooms@.len(),
            remote_index@.len() == 256,
            by_remote@.len() == 256,
            forall|id: int|
                0 <= id < 256 ==> (match #[trigger] remote_index@[id] {
                    Some(x) => Some(x as int),
                    None => None,
                }) == last_remote(remotes@, id as u8, remotes@.len() as int),
            forall|jj: int, k: int|
                0 <= jj < j && 0 <= k < rooms@[jj].remotes@.len() ==> last_remote(
                    remotes@,
                    #[trigger] rooms@[jj].remotes@[k],
                    remotes@.len() as int,
                ) is Some,
            forall|id: int|
                0 <= id < 256 ==> (match #[trigger] by_remote@[id] {
                    Some((x, y)) => Some((remotes@[x as int], rooms@[y as int])),
                    None => None,
                }) == (match (
                    last_remote(remotes@, id as u8, remotes@.len() as int),
                    last_room(rooms@, id as u8, j as int),
                ) {
                    (Some(x), Some(y)) => Some((remotes@[x], rooms@[y])),
                    _ => None,
                }),
            forall|id: int|
                0 <= id < 256 && #[trigger] by_remote@[id] is Some ==> {
                    let (x, y) = by_remote@[id]->0;
                    x < remotes@.len() && y < rooms@.len()
                },
        decreases rooms@.len() - j,
    {
        let room_remotes = &rooms[j].remotes;
        let mut k: usize = 0;
        while k < room_remotes.len()
            invariant
                remotes@ == caseta_remote_configuration.remotes@,
                rooms@ == home_configuration.rooms@,
                j < rooms@.len(),
                *room_remotes == rooms@[j as int].remotes,
                k <= room_remotes@.len(),
                remote_index@.len() == 256,
                by_remote@.len() == 256,
                forall|id: int|
                    0 <= id < 256 ==> (match #[trigger] remote_index@[id] {
                        Some(x) => Some(x as int),
                        None => None,
                    }) == last_remote(remotes@, id as u8, remotes@.len() as int),
                forall|jj: int, kk: int|
                    0 <= jj < j && 0 <= kk < rooms@[jj].remotes@.len() ==> last_remote(
                        remotes@,
                        #[trigger] rooms@[jj].remotes@[kk],
                        remotes@.len() as int,
                    ) is Some,
                forall|kk: int|
                    0 <= kk < k ==> last_remote(
                        remotes@,
                        #[trigger] room_remotes@[kk],
                        remotes@.len() as int,
                    ) is Some,
                forall|id: int|
                    0 <= id < 256 ==> (match #[trigger] by_remote@[id] {
                        Some((x, y)) => Some((remotes@[x as int], rooms@[y as int])),
                        None => None,
                    }) == (match (
                        last_remote(remotes@, id as u8, remotes@.len() as int),
                        if room_remotes@.subrange(0, k as int).contains(id as u8) {
                            Some(j as int)
                        } else {
                            last_room(rooms@, id as u8, j as int)
                        },
                    ) {
                        (Some(x), Some(y)) => Some((remotes@[x], rooms@[y])),
                        _ => None,
                    }),
                forall|id: int|
                    0 <= id < 256 && #[trigger] by_remote@[id] is Some ==> {
                        let (x, y) = by_remote@[id]->0;
                        x < remotes@.len() && y < rooms@.len()
                    },
            decreases room_remotes@.len() - k,
        {
            let id = room_remotes[k];
            let ghost old_by = by_remote@;
            match remote_index[id as usize] {
                None => {
                    assert(last_remote(remotes@, id, remotes@.len() as int) is None);
                    assert(rooms@[j as int].remotes@[k as int] == id);
                    return Err(ConfigurationError::UnknownRemote(id));
                },
                Some(ri) => {
                    proof {
                        lemma_last_remote_bounds(remotes@, id, remotes@.len() as int);
                        assert(remote_index@[id as int] == Some(ri));
                        assert(last_remote(remotes@, id, remotes@.len() as int) == Some(ri as int));
                    }
                    by_remote.set(id as usize, Some((ri, j)));
                },
            }
            proof {
                assert forall|x: u8|
                    room_remotes@.subrange(0, k + 1).contains(x) == (room_remotes@.subrange(
                        0,
                        k as int,
                    ).contains(x) || x == id) by {
                    if room_remotes@.subrange(0, k + 1).contains(x) {
                        let w = choose|w: int|
                            0 <= w < k + 1 && #[trigger] room_remotes@.subrange(0, k + 1)[w] == x;
                        if w < k {
                            assert(room_remotes@.subrange(0, k as int)[w] == x);
                        }
                    }
                    if room_remotes@.subrange(0, k as int).contains(x) {
                        let w = choose|w: int|
                            0 <= w < k && #[trigger] room_remotes@.subrange(0, k as int)[w] == x;
                        assert(room_remotes@.subrange(0, k + 1)[w] == x);
                    }
                    if x == id {
                        assert(room_remotes@.subrange(0, k + 1)[k as int] == x);
                    }
                }
                assert forall|id2: int| 0 <= id2 < 256 implies (match #[trigger] by_remote@[id2] {
                    Some((x, y)) => Some((remotes@[x as int], rooms@[y as int])),
                    None => None,
                }) == (match (
                    last_remote(remotes@, id2 as u8, remotes@.len() as int),
                    if room_remotes@.subrange(0, k + 1).contains(id2 as u8) {
                        Some(j as int)
                    } else {
                        last_room(rooms@, id2 as u8, j as int)
                    },
                ) {
                    (Some(x), Some(y)) => Some((remotes@[x], rooms@[y])),
                    _ => None,
                }) by {
                    assert(room_remotes@.subrange(0, k + 1).contains(id2 as u8) == (
                    room_remotes@.subrange(0, k as int).contains(id2 as u8) || id2 as u8 == id));
                    if id2 != id as int {
                        assert(by_remote@[id2] == old_by[id2]);
                        assert(id2 as u8 != id);
                    }
                }
            }
            k = k + 1;
        }
        assert(room_remotes@.subrange(0, k as int) =~= rooms@[j as int].remotes@);
        j = j + 1;
    }
    let t = Topology { remotes, rooms, by_remote };
    assert forall|id: RemoteId| #[trigger]
        t.entry(id) == topology_entry(t.remotes@, t.rooms@, id) by {
        assert(0 <= id as int && (id as int) < 256);
    }
    Ok(t)
}

} // verus!
