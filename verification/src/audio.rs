//! The pool of players that the soundboard plays its sounds on.
use rodio::mixer::Mixer;
use rodio::Player;
use vstd::prelude::*;

use crate::marked::{kept, retain_marked};

pub mod player;

verus! {

/// A playback queue of the audio crate, carried through unread.
#[verifier::external_type_specification]
#[verifier::external_body]
pub struct ExPlayer(Player);

/// The input side of the audio crate's mixer, carried through unread.
#[verifier::external_type_specification]
#[verifier::external_body]
pub struct ExMixer(Mixer);

/// Calls `rodio::Player::connect_new`, which makes a new player and adds its
/// output to `mixer`. The player is built afresh (its queue and controls are
/// new allocations), so it is not the player `replaced`, one that already
/// exists; `replaced` is only compared with, never used. Nothing else is
/// stated of the new player: the library never reads inside one.
#[verifier::external_body]
pub(crate) fn connect_player(mixer: &Mixer, replaced: Option<&Player>) -> (p: Player)
    ensures
        replaced matches Some(q) ==> p != *q,
{
    let _ = replaced;
    Player::connect_new(mixer)
}

/// Calls `rodio::Player::empty`: whether the player has no sound left to
/// play. The answer changes while sound plays, so nothing is stated of it.
#[verifier::external_body]
pub(crate) fn player_is_empty(p: &Player) -> (r: bool) {
    p.empty()
}

/// Calls `rodio::Player::stop`, which ends what the player is playing, and
/// then lets the player go. Taking the player by value means only a player
/// already taken out of a pool can be stopped. Nothing about a player is
/// modelled, so nothing is stated.
#[verifier::external_body]
pub(crate) fn stop_player(p: Player) {
    p.stop()
}

/// Players of the sounds started so far, oldest first, all fed into one mixer.
pub struct AudioEngine {
    mixer: Mixer,
    sinks: Vec<Player>,
}

impl View for AudioEngine {
    type V = Seq<Player>;

    /// The players in the pool, oldest first.
    closed spec fn view(&self) -> Seq<Player> {
        self.sinks@
    }
}

impl AudioEngine {
    /// The mixer that the pool's new players feed.
    pub closed spec fn spec_mixer(&self) -> Mixer {
        self.mixer
    }

    /// An empty pool whose players will feed `mixer`.
    pub fn new(mixer: Mixer) -> (r: Self)
        ensures
            r@ == Seq::<Player>::empty(),
            r.spec_mixer() == mixer,
    {
        AudioEngine { mixer, sinks: Vec::new() }
    }

    /// Drops the players that have finished; those left keep their order.
    pub fn prune_finished(&mut self)
        ensures
            exists|keep: Seq<bool>|
                keep.len() == old(self)@.len() && final(self)@ == #[trigger] kept(old(self)@, keep),
            final(self).spec_mixer() == old(self).spec_mixer(),
    {
        let n = self.sinks.len();
        let mut keep: Vec<bool> = Vec::new();
        let mut i: usize = 0;
        while i < n
            invariant
                n == self.sinks@.len(),
                i <= n,
                keep@.len() == i,
            decreases n - i,
        {
            let finished = player_is_empty(&self.sinks[i]);
            keep.push(!finished);
            i = i + 1;
        }
        let ghost flags = keep@;
        retain_marked(&mut self.sinks, &keep);
        assert(flags.len() == old(self)@.len() && self@ == kept(old(self)@, flags));
    }

    /// Starts a new player on the mixer, adds it to the end of the pool and
    /// hands it back so that a sound can be set on it.
    pub fn add_player(&mut self) -> (p: &Player)
        ensures
            final(self)@ == old(self)@.push(*p),
            final(self).spec_mixer() == old(self).spec_mixer(),
    {
        let player = connect_player(&self.mixer, None);
        self.sinks.push(player);
        let last = self.sinks.len() - 1;
        &self.sinks[last]
    }

    /// The number of players in the pool.
    pub fn len(&self) -> (r: usize)
        ensures
            r == self@.len(),
    {
        self.sinks.len()
    }

    /// Stops every player and empties the pool.
    pub fn stop_all(&mut self)
        ensures
            final(self)@ == Seq::<Player>::empty(),
            final(self).spec_mixer() == old(self).spec_mixer(),
    {
        while self.sinks.len() > 0
            invariant
                self.mixer == old(self).mixer,
            decreases self.sinks@.len(),
        {
            match self.sinks.pop() {
                Some(player) => stop_player(player),
                None => {},
            }
        }
        assert(self.sinks@ =~= Seq::<Player>::empty());
    }
}

} // verus!
