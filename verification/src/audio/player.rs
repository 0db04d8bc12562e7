//! Players kept by the id of the sound they play, at most one per sound.
use std::collections::HashMap;
use rodio::mixer::Mixer;
use rodio::Player;
use vstd::prelude::*;

use crate::audio::{connect_player, stop_player};

verus! {

broadcast use vstd::std_specs::hash::group_hash_axioms;

/// The player of each sound that was started and not stopped since.
pub struct AudioPlayer {
    mixer: Mixer,
    active: HashMap<u32, Player>,
}

impl View for AudioPlayer {
    type V = Map<u32, Player>;

    /// The player of each sound id.
    closed spec fn view(&self) -> Map<u32, Player> {
        self.active@
    }
}

impl AudioPlayer {
    /// The mixer that new players feed.
    pub closed spec fn spec_mixer(&self) -> Mixer {
        self.mixer
    }

    /// No sound playing; players will feed `mixer`.
    pub fn new(mixer: Mixer) -> (r: Self)
        ensures
            r@ == Map::<u32, Player>::empty(),
            r.spec_mixer() == mixer,
    {
        AudioPlayer { mixer, active: HashMap::new() }
    }

    /// Starts a new player for the sound `id`, in place of the one it had (a
    /// player that is dropped goes quiet), and hands it back so that the
    /// sound can be set on it.
    pub fn play(&mut self, id: u32) -> (p: &Player)
        ensures
            final(self)@ == old(self)@.insert(id, *p),
            old(self)@.dom().contains(id) ==> *p != old(self)@[id],
            final(self).spec_mixer() == old(self).spec_mixer(),
    {
        let player = connect_player(&self.mixer, self.active.get(&id));
        self.active.insert(id, player);
        self.active.get(&id).unwrap()
    }

    /// Stops and forgets the player of the sound `id`, if it has one.
    pub fn stop(&mut self, id: u32)
        ensures
            final(self)@ == old(self)@.remove(id),
            final(self).spec_mixer() == old(self).spec_mixer(),
    {
        if let Some(player) = self.active.remove(&id) {
            stop_player(player);
        }
    }

    /// The number of sounds that have a player.
    pub fn len(&self) -> (r: usize)
        ensures
            r == self@.len(),
    {
        self.active.len()
    }

    /// Whether the sound `id` has a player.
    pub fn is_playing(&self, id: u32) -> (r: bool)
        ensures
            r == self@.dom().contains(id),
    {
        self.active.contains_key(&id)
    }

    /// Stops and forgets every player: each is dropped, which ends what it
    /// plays.
    pub fn stop_all(&mut self)
        ensures
            final(self)@ == Map::<u32, Player>::empty(),
            final(self).spec_mixer() == old(self).spec_mixer(),
    {
        // A player that is dropped goes quiet, so clearing the map stops them all.
        self.active.clear();
    }
}

/// Playing a sound again replaces its player: `before` and `after` are the
/// maps around a call of `play(id)` that returned `p`, as its `ensures`
/// relates them. The sound then has a player that is not the one it had, and
/// every other sound keeps the player it had.
pub proof fn law_play_replaces_player(
    before: Map<u32, Player>,
    after: Map<u32, Player>,
    id: u32,
    p: Player,
)
    requires
        after == before.insert(id, p),
        before.dom().contains(id) ==> p != before[id],
    ensures
        after.dom() == before.dom().insert(id),
        after[id] == p,
        before.dom().contains(id) ==> after[id] != before[id],
        forall|k: u32| k != id && before.dom().contains(k) ==> after[k] == before[k],
{
    assert(after.dom() =~= before.dom().insert(id));
}

/// Stopping a sound right after `play` started it leaves the other sounds'
/// players as they were before, and the sound without a player.
pub proof fn law_stop_after_play(before: Map<u32, Player>, id: u32, p: Player)
    ensures
        before.insert(id, p).remove(id) == before.remove(id),
        !before.insert(id, p).remove(id).dom().contains(id),
{
    assert(before.insert(id, p).remove(id) =~= before.remove(id));
}

/// Stopping a sound that has no player changes nothing.
pub proof fn law_stop_without_player(before: Map<u32, Player>, id: u32)
    requires
        !before.dom().contains(id),
    ensures
        before.remove(id) == before,
{
    assert(before.remove(id) =~= before);
}

} // verus!
