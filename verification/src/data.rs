//! Players and the registry of the players in a game.

use crate::error::TBGError;
use std::collections::HashMap;
use vstd::std_specs::iter::IteratorSpec;
use vstd::prelude::*;

verus! {

/// What is sent to clients about a player: its name and, when asked for,
/// its game data.
#[derive(Debug, Clone, PartialEq)]
pub struct PlayerSerialize<T: Clone> {
    pub name: String,
    pub data: Option<T>,
}

/// A player known to the server: its name, its id, whether it voted to
/// start the game, and its game data.
#[derive(Debug, Clone)]
pub struct PlayerInfo<T: Clone> {
    pub name: String,
    pub id: usize,
    pub start_game: bool,
    pub data: Option<T>,
}

/// The players of a game, by id. Names are unique; the ids come from the
/// caller, which hands them out.
pub struct PlayersList<T: Clone> {
    players: HashMap<usize, PlayerInfo<T>>,
}

/// Each player of `players` is stored under its own id.
pub open spec fn keyed_by_id<T: Clone>(players: Map<usize, PlayerInfo<T>>) -> bool {
    forall|id: usize| #[trigger] players.contains_key(id) ==> players[id].id == id
}

/// No two players of `players` share a name.
pub open spec fn names_distinct<T: Clone>(players: Map<usize, PlayerInfo<T>>) -> bool {
    forall|a: usize, b: usize|
        #![trigger players[a], players[b]]
        players.contains_key(a) && players.contains_key(b) && players[a].name@ == players[b].name@
            ==> a == b
}

/// The players after `add_player(name, id, data)`: unchanged when the name
/// is taken, else with the new player under `id`.
pub open spec fn added<T: Clone>(
    players: Map<usize, PlayerInfo<T>>,
    name: String,
    id: usize,
    data: Option<T>,
) -> Map<usize, PlayerInfo<T>> {
    if has_name(players, name@) {
        players
    } else {
        players.insert(id, new_player(name, id, data))
    }
}

/// True when some player in `players` is called `name`.
pub open spec fn has_name<T: Clone>(players: Map<usize, PlayerInfo<T>>, name: Seq<char>) -> bool {
    exists|id: usize| #[trigger] players.contains_key(id) && players[id].name@ == name
}

/// A newly joined player: not yet voted to start.
pub open spec fn new_player<T: Clone>(name: String, id: usize, data: Option<T>) -> PlayerInfo<T> {
    PlayerInfo { name, id, start_game: false, data }
}

/// `b` is a clone of `a`: the same variant, the payload cloned.
pub open spec fn option_cloned<T: Clone>(a: Option<T>, b: Option<T>) -> bool {
    match a {
        None => b is None,
        Some(x) => b is Some && cloned::<T>(x, b->0),
    }
}

/// `entry` is what `serialize_players` sends about `player`: its name and,
/// when `include_data`, a clone of its data.
pub open spec fn serialized_entry<T: Clone>(
    player: PlayerInfo<T>,
    include_data: bool,
    entry: PlayerSerialize<Option<T>>,
) -> bool {
    &&& entry.name@ == player.name@
    &&& if include_data {
        entry.data is Some && option_cloned(player.data, entry.data->0)
    } else {
        entry.data is None
    }
}

/// `list` describes each player of `players` exactly once, in some order,
/// as `serialize_players` does.
pub open spec fn is_serialization<T: Clone>(
    players: Map<usize, PlayerInfo<T>>,
    include_data: bool,
    list: Seq<PlayerSerialize<Option<T>>>,
) -> bool {
    exists|ids: Seq<usize>|
        {
            &&& ids.no_duplicates()
            &&& ids.to_set() == players.dom()
            &&& ids.len() == list.len()
            &&& forall|i: int|
                0 <= i < ids.len() ==> serialized_entry(
                    players[#[trigger] ids[i]],
                    include_data,
                    list[i],
                )
        }
}

impl<T: Clone> View for PlayersList<T> {
    type V = Map<usize, PlayerInfo<T>>;

    closed spec fn view(&self) -> Map<usize, PlayerInfo<T>> {
        self.players@
    }
}

impl<T: Clone> PlayersList<T> {
    /// Well-formedness: finitely many players, each stored under its own
    /// id, no two sharing a name.
    pub closed spec fn wf(&self) -> bool {
        &&& self.players@.dom().finite()
        &&& keyed_by_id(self.players@)
        &&& names_distinct(self.players@)
    }

    /// A well-formed list holds finitely many players, each under its own
    /// id, and no two of them share a name.
    pub proof fn lemma_wf(&self)
        requires
            self.wf(),
        ensures
            self@.dom().finite(),
            keyed_by_id(self@),
            names_distinct(self@),
    {
    }

    /// An empty list.
    pub fn new() -> (list: Self)
        ensures
            list.wf(),
            list@ == Map::<usize, PlayerInfo<T>>::empty(),
    {
        let list = PlayersList { players: HashMap::new() };
        assert(list.players@.dom() =~= Set::empty());
        list
    }

    /// Number of players.
    pub fn len(&self) -> (n: usize)
        ensures
            n == self@.len(),
    {
        broadcast use vstd::std_specs::hash::group_hash_axioms;

        self.players.len()
    }

    /// The ids of all players, each once, in the order the map yields them.
    pub fn player_ids(&self) -> (ids: Vec<usize>)
        ensures
            ids@.no_duplicates(),
            ids@.to_set() == self@.dom(),
            ids@.len() == self@.len(),
    {
        broadcast use vstd::std_specs::hash::group_hash_axioms;

        let ghost m = self.players@;
        let ghost all = self.players.keys().remaining();
        let mut ids: Vec<usize> = Vec::new();
        for id in it: self.players.keys()
            invariant
                m == self.players@,
                it.seq() == all,
                ids@ == all.take(it.index()).unref(),
                all.unref().to_set() == m.dom(),
                all.no_duplicates(),
                all.len() == m.dom().len(),
        {
            ids.push(*id);
            proof {
                assert(all.take(it.index() + 1).unref() =~= all.take(it.index()).unref().push(*all[it.index()]));
            }
        }
        assert(ids@ == all.take(all.len() as int).unref());
        proof {
            assert(all.take(all.len() as int) =~= all);
            assert(all.unref().no_duplicates()) by {
                assert forall|i: int, j: int|
                    0 <= i < all.len() && 0 <= j < all.len() && i != j implies all.unref()[i]
                    != all.unref()[j] by {
                    assert(all[i] != all[j]);
                }
            }
            all.unref().unique_seq_to_set();
        }
        ids
    }

    /// True if a player is called `other_name`, false otherwise.
    pub fn contains_player(&self, other_name: String) -> (found: bool)
        ensures
            found == has_name(self@, other_name@),
    {
        broadcast use vstd::std_specs::hash::group_hash_axioms;

        let ids = self.player_ids();
        let ghost m = self.players@;
        let mut i: usize = 0;
        while i < ids.len()
            invariant
                m == self.players@,
                ids@.to_set() == m.dom(),
                i <= ids@.len(),
                forall|j: int| 0 <= j < i ==> m[#[trigger] ids@[j]].name@ != other_name@,
            decreases ids.len() - i,
        {
            let id = ids[i];
            assert(ids@.to_set().contains(id));
            let player = self.players.get(&id).unwrap();
            if player.name == other_name {
                return true;
            }
            i = i + 1;
        }
        proof {
            assert forall|k: usize| #[trigger] m.contains_key(k) implies m[k].name@ != other_name@ by {
                assert(ids@.to_set().contains(k));
                let j = ids@.index_of(k);
                assert(ids@[j] == k);
            }
        }
        false
    }

    /// The player with id `id`, if any.
    pub fn get_player(&self, id: usize) -> (player: Option<&PlayerInfo<T>>)
        ensures
            match player {
                Some(p) => self@.contains_key(id) && *p == self@[id],
                None => !self@.contains_key(id),
            },
    {
        broadcast use vstd::std_specs::hash::group_hash_axioms;

        self.players.get(&id)
    }

    /// Adds a player called `name` with `data` under `id`, a fresh id that
    /// the caller hands out. Returns `id`, or
    /// `DuplicateEntry` when a player of that name is already there, in
    /// which case nothing changes.
    pub fn add_player(&mut self, name: String, id: usize, data: Option<T>) -> (result: Result<
        usize,
        TBGError,
    >)
        requires
            old(self).wf(),
            !old(self)@.contains_key(id),
        ensures
            final(self).wf(),
            final(self)@ == added(old(self)@, name, id, data),
            match result {
                Ok(r) => !has_name(old(self)@, name@) && r == id,
                Err(e) => has_name(old(self)@, name@) && e == TBGError::DuplicateEntry,
            },
    {
        broadcast use vstd::std_specs::hash::group_hash_axioms;

        if !self.contains_player(name.clone()) {
            let ghost player = new_player(name, id, data);
            self.players.insert(id, PlayerInfo { name, id, start_game: false, data });
            proof {
                lemma_add_keeps_names_distinct(old(self).players@, player.name, id, player.data);
            }
            return Ok(id);
        }
        Err(TBGError::DuplicateEntry)
    }

    /// Removes the player with id `id` and returns it, or `InvalidID` when
    /// there is none.
    pub fn remove_player(&mut self, id: usize) -> (result: Result<PlayerInfo<T>, TBGError>)
        requires
            old(self).wf(),
        ensures
            final(self).wf(),
            final(self)@ == old(self)@.remove(id),
            match result {
                Ok(player) => old(self)@.contains_key(id) && player == old(self)@[id],
                Err(e) => !old(self)@.contains_key(id) && e == TBGError::InvalidID,
            },
    {
        broadcast use vstd::std_specs::hash::group_hash_axioms;

        match self.players.remove(&id) {
            Some(player) => Ok(player),
            None => Err(TBGError::InvalidID),
        }
    }

    /// Records the vote of the player with id `id`.
    pub fn set_start_game(&mut self, id: usize, vote: bool)
        requires
            old(self).wf(),
            old(self)@.contains_key(id),
        ensures
            final(self).wf(),
            final(self)@ == old(self)@.insert(id, PlayerInfo { start_game: vote, ..old(self)@[id] }),
    {
        broadcast use vstd::std_specs::hash::group_hash_axioms;

        let mut player = self.players.remove(&id).unwrap();
        player.start_game = vote;
        self.players.insert(id, player);
        proof {
            assert forall|a: usize, b: usize|
                #![trigger self.players@[a], self.players@[b]]
                self.players@.contains_key(a) && self.players@.contains_key(b)
                    && self.players@[a].name@ == self.players@[b].name@ implies a == b by {
                assert(old(self).players@.contains_key(a));
                assert(old(self).players@.contains_key(b));
                assert(old(self).players@[a].name@ == self.players@[a].name@);
                assert(old(self).players@[b].name@ == self.players@[b].name@);
            }
        }
    }

    /// What is sent to clients about the players: each player once, with
    /// its name and, when `include_data`, its data.
    pub fn serialize_players(&self, include_data: bool) -> (list: Vec<PlayerSerialize<Option<T>>>)
        ensures
            is_serialization(self@, include_data, list@),
    {
        broadcast use vstd::std_specs::hash::group_hash_axioms;

        let ids = self.player_ids();
        let ghost m = self.players@;
        let mut list: Vec<PlayerSerialize<Option<T>>> = Vec::new();
        let mut i: usize = 0;
        while i < ids.len()
            invariant
                m == self.players@,
                ids@.to_set() == m.dom(),
                i <= ids@.len(),
                list@.len() == i,
                forall|j: int| 0 <= j < i ==> serialized_entry(m[#[trigger] ids@[j]], include_data, list@[j]),
            decreases ids.len() - i,
        {
            let id = ids[i];
            assert(ids@.to_set().contains(id));
            let player = self.players.get(&id).unwrap();
            let data = if include_data {
                Some(player.data.clone())
            } else {
                None
            };
            list.push(PlayerSerialize { name: player.name.clone(), data });
            i = i + 1;
        }
        assert(ids@.len() == list@.len());
        assert(is_serialization(m, include_data, list@)) by {
            assert(ids@.no_duplicates());
        }
        list
    }
}

/// After `add_player(name, ..)`, whether it succeeded or the name was
/// taken, a player of that name is in the list.
pub proof fn lemma_joined_player_is_found<T: Clone>(
    players: Map<usize, PlayerInfo<T>>,
    name: String,
    id: usize,
    data: Option<T>,
)
    ensures
        has_name(added(players, name, id, data), name@),
{
    if !has_name(players, name@) {
        assert(added(players, name, id, data).contains_key(id));
    }
}

/// When a player joins under a fresh id with a free name, removing that id
/// gives back the player as it was added (not yet voted, with its data) and
/// the list as it was before.
pub proof fn lemma_join_then_remove<T: Clone>(
    players: Map<usize, PlayerInfo<T>>,
    name: String,
    id: usize,
    data: Option<T>,
)
    requires
        !has_name(players, name@),
        !players.contains_key(id),
    ensures
        added(players, name, id, data).contains_key(id),
        added(players, name, id, data)[id] == new_player(name, id, data),
        added(players, name, id, data).remove(id) == players,
{
    assert(added(players, name, id, data).remove(id) =~= players);
}

/// Adding a player keeps names distinct and each player under its own id:
/// by induction, so does any sequence of `add_player` calls.
pub proof fn lemma_add_keeps_names_distinct<T: Clone>(
    players: Map<usize, PlayerInfo<T>>,
    name: String,
    id: usize,
    data: Option<T>,
)
    requires
        names_distinct(players),
        keyed_by_id(players),
    ensures
        names_distinct(added(players, name, id, data)),
        keyed_by_id(added(players, name, id, data)),
{
    let m = added(players, name, id, data);
    if !has_name(players, name@) {
        assert forall|a: usize, b: usize|
            #![trigger m[a], m[b]]
            m.contains_key(a) && m.contains_key(b) && m[a].name@ == m[b].name@ implies a == b by {
            if a != b {
                if a == id {
                    assert(players.contains_key(b) && players[b].name@ == name@);
                } else if b == id {
                    assert(players.contains_key(a) && players[a].name@ == name@);
                }
            }
        }
    }
}

/// What clients are sent about the players has one entry per player: as
/// many entries as players, every player's name in some entry, every
/// entry naming a player, and data present exactly when asked for.
pub proof fn lemma_serialization_lists_each_player_once<T: Clone>(
    players: Map<usize, PlayerInfo<T>>,
    include_data: bool,
    list: Seq<PlayerSerialize<Option<T>>>,
)
    requires
        is_serialization(players, include_data, list),
    ensures
        list.len() == players.len(),
        forall|id: usize|
            #[trigger] players.contains_key(id) ==> exists|i: int|
                0 <= i < list.len() && #[trigger] list[i].name@ == players[id].name@,
        forall|i: int| 0 <= i < list.len() ==> has_name(players, (#[trigger] list[i]).name@),
        forall|i: int| 0 <= i < list.len() ==> (#[trigger] list[i].data is Some) == include_data,
{
    let ids = choose|ids: Seq<usize>|
        {
            &&& ids.no_duplicates()
            &&& ids.to_set() == players.dom()
            &&& ids.len() == list.len()
            &&& forall|i: int|
                0 <= i < ids.len() ==> serialized_entry(
                    players[#[trigger] ids[i]],
                    include_data,
                    list[i],
                )
        };
    ids.unique_seq_to_set();
    assert forall|id: usize| #[trigger] players.contains_key(id) implies exists|i: int|
        0 <= i < list.len() && #[trigger] list[i].name@ == players[id].name@ by {
        assert(ids.to_set().contains(id));
        let i = ids.index_of(id);
        assert(serialized_entry(players[ids[i]], include_data, list[i]));
    }
    assert forall|i: int| 0 <= i < list.len() implies has_name(players, (#[trigger] list[i]).name@) by {
        assert(serialized_entry(players[ids[i]], include_data, list[i]));
        assert(ids.to_set().contains(ids[i]));
        assert(players.contains_key(ids[i]) && list[i].name@ == players[ids[i]].name@);
    }
    assert forall|i: int| 0 <= i < list.len() implies (#[trigger] list[i].data is Some)
        == include_data by {
        assert(serialized_entry(players[ids[i]], include_data, list[i]));
    }
}

} // verus!
