//! What the soundboard window shows and decides, apart from drawing it.
use std::path::PathBuf;
use vstd::prelude::*;

use crate::audio::AudioEngine;
use crate::sound::{
    file_stem, file_stem_of, has_id, is_first_with_id, lossy_text, name_for_path, sound_name, to_text, SoundEntry,
    SoundLibrary,
};

verus! {

/// The page shown beside the sidebar.
#[derive(Clone, Copy, Debug, PartialEq, Eq, Structural)]
pub enum Page {
    Home,
    Settings,
}

/// The soundboard's state: its page, its sidebar, its library, its players
/// and the sound whose details are open.
pub struct SoundboardApp {
    pub page: Page,
    pub sidebar_collapsed: bool,
    pub library: SoundLibrary,
    pub audio: AudioEngine,
    pub stop_others: bool,
    pub selected_sound: Option<u64>,
    pub details_page_expanded: bool,
    pub recording_keybind: bool,
}

impl SoundboardApp {
    /// `self` and `other` hold the same library.
    pub open spec fn same_library(&self, other: &Self) -> bool {
        &&& self.library@ == other.library@
        &&& self.library.spec_next_id() == other.library.spec_next_id()
    }

    /// `self` and `other` agree on everything that the details panel does not
    /// show.
    pub open spec fn same_board(&self, other: &Self) -> bool {
        &&& self.page == other.page
        &&& self.sidebar_collapsed == other.sidebar_collapsed
        &&& self.stop_others == other.stop_others
        &&& self.same_library(other)
        &&& self.same_audio(other)
    }

    /// `self` and `other` hold the same pool of players on the same mixer.
    pub open spec fn same_audio(&self, other: &Self) -> bool {
        &&& self.audio@ == other.audio@
        &&& self.audio.spec_mixer() == other.audio.spec_mixer()
    }

    /// `self` and `other` agree on everything but whether the sidebar is
    /// collapsed.
    pub open spec fn same_except_sidebar(&self, other: &Self) -> bool {
        &&& self.page == other.page
        &&& self.stop_others == other.stop_others
        &&& self.same_library(other)
        &&& self.same_audio(other)
        &&& self.same_details(other)
    }

    /// `self` and `other` agree on the details panel.
    pub open spec fn same_details(&self, other: &Self) -> bool {
        &&& self.selected_sound == other.selected_sound
        &&& self.details_page_expanded == other.details_page_expanded
        &&& self.recording_keybind == other.recording_keybind
    }

    /// The home page, an open sidebar, nothing selected, over `library` and
    /// `audio`.
    pub fn new(library: SoundLibrary, audio: AudioEngine) -> (r: Self)
        ensures
            r.page == Page::Home,
            !r.sidebar_collapsed,
            !r.stop_others,
            r.selected_sound is None,
            !r.details_page_expanded,
            !r.recording_keybind,
            r.library@ == library@,
            r.library.spec_next_id() == library.spec_next_id(),
            r.audio@ == audio@,
            r.audio.spec_mixer() == audio.spec_mixer(),
    {
        SoundboardApp {
            page: Page::Home,
            sidebar_collapsed: false,
            library,
            audio,
            stop_others: false,
            selected_sound: None,
            details_page_expanded: false,
            recording_keybind: false,
        }
    }

    /// Collapses an open sidebar and opens a collapsed one.
    pub fn toggle_sidebar(&mut self)
        ensures
            final(self).sidebar_collapsed == !old(self).sidebar_collapsed,
            final(self).same_except_sidebar(old(self)),
    {
        self.sidebar_collapsed = !self.sidebar_collapsed;
    }

    /// Adds a sound for each file, in order, named after the file's stem.
    pub fn add_sound(&mut self, paths: Vec<PathBuf>)
        requires
            old(self).library.spec_next_id() + paths@.len() <= u64::MAX,
        ensures
            final(self).library@.len() == old(self).library@.len() + paths@.len(),
            final(self).library@.subrange(0, old(self).library@.len() as int)
                == old(self).library@,
            forall|k: int|
                #![trigger final(self).library@[old(self).library@.len() + k]]
                0 <= k < paths@.len() ==> {
                    let e = final(self).library@[old(self).library@.len() + k];
                    &&& e.id == old(self).library.spec_next_id() + k
                    &&& e.name@ == name_for_path(paths@[k])
                    &&& file_stem_of(paths@[k]) matches Some(stem) ==> e.name@ == lossy_text(stem)
                    &&& file_stem_of(paths@[k]) is None ==> e.name@ == "Sound"@
                    &&& e.path == paths@[k]
                },
            final(self).library.spec_next_id() == old(self).library.spec_next_id()
                + paths@.len(),
            old(self).library.wf() ==> final(self).library.wf(),
            final(self).same_board_but_library(old(self)),
            final(self).same_details(old(self)),
    {
        let ghost start = self.library@;
        let ghost first = self.library.spec_next_id();
        let ghost all = paths@;
        let mut rest = paths;
        let n = rest.len();
        let mut k: usize = 0;
        while k < n
            invariant
                n == all.len(),
                k <= n,
                rest@ == all.skip(k as int),
                first + all.len() <= u64::MAX,
                self.library.spec_next_id() == first + k,
                self.library@.len() == start.len() + k,
                self.library@.subrange(0, start.len() as int) == start,
                forall|m: int|
                    #![trigger self.library@[start.len() + m]]
                    0 <= m < k ==> {
                        let e = self.library@[start.len() + m];
                        &&& e.id == first + m
                        &&& e.name@ == name_for_path(all[m])
                        &&& e.path == all[m]
                    },
                old(self).library.wf() ==> self.library.wf(),
                self.same_board_but_library(old(self)),
                self.same_details(old(self)),
            decreases n - k,
        {
            let path = rest.remove(0);
            assert(path == all[k as int]);
            let stem = match file_stem(&path) {
                Some(os) => Some(to_text(&os)),
                None => None,
            };
            let name = sound_name(stem);
            let ghost before = self.library@;
            self.library.add(name, path);
            assert(rest@ =~= all.skip(k + 1));
            assert(self.library@.subrange(0, start.len() as int) =~= start) by {
                assert(self.library@.subrange(0, start.len() as int) =~= before.subrange(
                    0,
                    start.len() as int,
                ));
            }
            k = k + 1;
        }
    }

    /// `self` and `other` agree on everything but the library.
    pub open spec fn same_board_but_library(&self, other: &Self) -> bool {
        &&& self.page == other.page
        &&& self.sidebar_collapsed == other.sidebar_collapsed
        &&& self.stop_others == other.stop_others
        &&& self.same_audio(other)
    }

    /// Looks up the sound `id` to play it: without such a sound nothing
    /// happens; with one, the other sounds are stopped first when
    /// `stop_others` is set. Returns the sound's position in the library.
    pub fn play_sound(&mut self, id: u64) -> (r: Option<usize>)
        ensures
            r is Some <==> has_id(old(self).library@, id),
            r matches Some(i) ==> is_first_with_id(old(self).library@, id, i as int),
            final(self).audio@ == (if has_id(old(self).library@, id) && old(self).stop_others {
                Seq::empty()
            } else {
                old(self).audio@
            }),
            final(self).page == old(self).page,
            final(self).sidebar_collapsed == old(self).sidebar_collapsed,
            final(self).stop_others == old(self).stop_others,
            final(self).same_library(old(self)),
            final(self).audio.spec_mixer() == old(self).audio.spec_mixer(),
            final(self).same_details(old(self)),
    {
        let found = self.library.position(id);
        if found.is_some() && self.stop_others {
            self.audio.stop_all();
        }
        found
    }

    /// Removes the sound `id` from the library, and closes its details if
    /// they were open.
    pub fn remove_sound(&mut self, id: u64)
        ensures
            final(self).library@ == old(self).library@.filter(|e: SoundEntry| e.id != id),
            final(self).library.spec_next_id() == old(self).library.spec_next_id(),
            old(self).library.wf() ==> final(self).library.wf(),
            final(self).selected_sound == (if old(self).selected_sound == Some(id) {
                None
            } else {
                old(self).selected_sound
            }),
            final(self).details_page_expanded == old(self).details_page_expanded,
            final(self).recording_keybind == old(self).recording_keybind,
            final(self).same_board_but_library(old(self)),
    {
        self.library.remove(id);
        if self.selected_sound == Some(id) {
            self.selected_sound = None;
        }
    }

    /// Removes every sound and closes the details of the one selected.
    pub fn clear_sounds(&mut self)
        ensures
            final(self).library@ == Seq::<SoundEntry>::empty(),
            final(self).library.spec_next_id() == old(self).library.spec_next_id(),
            final(self).library.wf(),
            final(self).selected_sound is None,
            final(self).details_page_expanded == old(self).details_page_expanded,
            final(self).recording_keybind == old(self).recording_keybind,
            final(self).same_board_but_library(old(self)),
    {
        self.library.clear();
        self.selected_sound = None;
    }

    /// Closes the details panel: nothing selected, no keybind being recorded.
    pub fn close_detail(&mut self)
        ensures
            final(self).selected_sound is None,
            !final(self).details_page_expanded,
            !final(self).recording_keybind,
            final(self).same_board(old(self)),
    {
        self.selected_sound = None;
        self.details_page_expanded = false;
        self.recording_keybind = false;
    }

    /// Starts listening for the next key press as the selected sound's
    /// keybind.
    pub fn start_recording_keybind(&mut self)
        ensures
            final(self).recording_keybind,
            final(self).selected_sound == old(self).selected_sound,
            final(self).details_page_expanded == old(self).details_page_expanded,
            final(self).same_board(old(self)),
    {
        self.recording_keybind = true;
    }

    /// Stops recording a keybind if one is being recorded, and starts
    /// recording otherwise.
    pub fn toggle_recording_keybind(&mut self)
        ensures
            final(self).recording_keybind == !old(self).recording_keybind,
            final(self).selected_sound == old(self).selected_sound,
            final(self).details_page_expanded == old(self).details_page_expanded,
            final(self).same_board(old(self)),
    {
        if self.recording_keybind {
            self.recording_keybind = false;
        } else {
            self.start_recording_keybind();
        }
    }

    /// Deletes the sound `id` from the details panel: every player is stopped
    /// first, so that the deleted sound does not keep playing, then the sound
    /// is removed as by `remove_sound`.
    pub fn delete_sound(&mut self, id: u64)
        ensures
            final(self).audio@ == Seq::<rodio::Player>::empty(),
            final(self).audio.spec_mixer() == old(self).audio.spec_mixer(),
            final(self).library@ == old(self).library@.filter(|e: SoundEntry| e.id != id),
            final(self).library.spec_next_id() == old(self).library.spec_next_id(),
            old(self).library.wf() ==> final(self).library.wf(),
            final(self).selected_sound == (if old(self).selected_sound == Some(id) {
                None
            } else {
                old(self).selected_sound
            }),
            final(self).details_page_expanded == old(self).details_page_expanded,
            final(self).recording_keybind == old(self).recording_keybind,
            final(self).page == old(self).page,
            final(self).sidebar_collapsed == old(self).sidebar_collapsed,
            final(self).stop_others == old(self).stop_others,
    {
        self.audio.stop_all();
        self.remove_sound(id);
    }
}

/// Toggling the sidebar twice brings the whole board back to how it was:
/// `a`, `b` and `c` are the states before, between and after two calls of
/// `toggle_sidebar`, each related to the one before as its `ensures` says.
pub proof fn law_toggle_sidebar_twice(a: SoundboardApp, b: SoundboardApp, c: SoundboardApp)
    requires
        b.sidebar_collapsed == !a.sidebar_collapsed,
        b.same_except_sidebar(&a),
        c.sidebar_collapsed == !b.sidebar_collapsed,
        c.same_except_sidebar(&b),
    ensures
        c.sidebar_collapsed == a.sidebar_collapsed,
        c.same_except_sidebar(&a),
{
}

} // verus!
