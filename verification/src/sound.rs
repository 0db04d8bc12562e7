//! The library of sounds: entries with ids handed out in increasing order.
use std::path::PathBuf;
use vstd::prelude::*;

use crate::marked::{lemma_kept_is_filter, retain_marked};

verus! {

/// A file path, carried through the library unread.
#[verifier::external_type_specification]
#[verifier::external_body]
pub struct ExPathBuf(PathBuf);

/// `PathBuf::clone` returns a copy of the path: the same value.
pub assume_specification[ <PathBuf as Clone>::clone ](p: &PathBuf) -> (r: PathBuf)
    ensures
        r == *p,
;

/// One sound of the library.
#[derive(Clone, Debug)]
pub struct SoundEntry {
    pub id: u64,
    pub name: String,
    pub path: PathBuf,
}

/// The sounds, in the order they were added, and the id the next one gets.
#[derive(Debug)]
pub struct SoundLibrary {
    sounds: Vec<SoundEntry>,
    next_id: u64,
}

/// Some entry of `s` has the id `id`.
pub open spec fn has_id(s: Seq<SoundEntry>, id: u64) -> bool {
    exists|i: int| 0 <= i < s.len() && s[i].id == id
}

/// `i` is the position of the first entry of `s` with the id `id`.
pub open spec fn is_first_with_id(s: Seq<SoundEntry>, id: u64, i: int) -> bool {
    &&& 0 <= i < s.len()
    &&& s[i].id == id
    &&& forall|j: int| 0 <= j < i ==> s[j].id != id
}

/// No two entries of `s` share an id.
pub open spec fn ids_distinct(s: Seq<SoundEntry>) -> bool {
    forall|i: int, j: int| 0 <= i < s.len() && 0 <= j < s.len() && i != j ==> s[i].id != s[j].id
}

/// `e` with its name replaced by `name`.
pub open spec fn renamed(e: SoundEntry, name: String) -> SoundEntry {
    SoundEntry { id: e.id, name: name, path: e.path }
}

/// Whenever some entry has the id, some position is the first with it; no
/// two positions are.
pub proof fn lemma_first_exists(s: Seq<SoundEntry>, id: u64)
    requires
        has_id(s, id),
    ensures
        exists|i: int| is_first_with_id(s, id, i),
        forall|i: int, k: int| is_first_with_id(s, id, i) && is_first_with_id(s, id, k) ==> i == k,
{
    let i = choose|i: int| 0 <= i < s.len() && s[i].id == id;
    lemma_first_below(s, id, i);
    assert forall|a: int, b: int| is_first_with_id(s, id, a) && is_first_with_id(s, id, b)
        implies a == b by {
        if a < b {
            assert(s[a].id != id);
        } else if b < a {
            assert(s[b].id != id);
        }
    }
}

proof fn lemma_first_below(s: Seq<SoundEntry>, id: u64, bound: int)
    requires
        0 <= bound < s.len(),
        s[bound].id == id,
    ensures
        exists|k: int| is_first_with_id(s, id, k),
    decreases bound,
{
    if exists|j: int| 0 <= j < bound && s[j].id == id {
        let j = choose|j: int| 0 <= j < bound && s[j].id == id;
        lemma_first_below(s, id, j);
    } else {
        assert(is_first_with_id(s, id, bound));
    }
}

/// A name for what `Path::file_stem` gives for `path`, taken as a path of
/// its own.
pub uninterp spec fn file_stem_of(path: PathBuf) -> Option<PathBuf>;

/// A name for the text that `Path::to_string_lossy` makes of `path`.
pub uninterp spec fn lossy_text(path: PathBuf) -> Seq<char>;

/// Calls `std::path::Path::file_stem` on `path`, the stem taken as a path of
/// its own. The contract ties the result to `file_stem_of`; what the stem of
/// a given path is stays unstated.
#[verifier::external_body]
pub(crate) fn file_stem(path: &PathBuf) -> (r: Option<PathBuf>)
    ensures
        r == file_stem_of(*path),
{
    match path.file_stem() {
        Some(stem) => Some(PathBuf::from(stem)),
        None => None,
    }
}

/// Calls `std::path::Path::to_string_lossy` on `path`, the text taken as an
/// owned `String`. The contract ties the result to `lossy_text`; which text a
/// given path gives stays unstated.
#[verifier::external_body]
pub(crate) fn to_text(path: &PathBuf) -> (r: String)
    ensures
        r@ == lossy_text(*path),
{
    path.to_string_lossy().into_owned()
}

/// The name a sound added from the file at `path` gets: the text of the
/// file's stem, or `Sound` when the path has none.
pub open spec fn name_for_path(path: PathBuf) -> Seq<char> {
    stem_or_default(
        match file_stem_of(path) {
            Some(stem) => Some(lossy_text(stem)),
            None => None,
        },
    )
}

/// The name a sound gets from its file's stem: the stem, or `Sound` when
/// the path has none.
pub open spec fn stem_or_default(stem: Option<Seq<char>>) -> Seq<char> {
    match stem {
        Some(s) => s,
        None => "Sound"@,
    }
}

/// The name for a sound whose file has the stem `stem`.
pub fn sound_name(stem: Option<String>) -> (r: String)
    ensures
        r@ == stem_or_default(match stem {
            Some(s) => Some(s@),
            None => None,
        }),
{
    match stem {
        Some(s) => s,
        None => "Sound".to_owned(),
    }
}

impl View for SoundLibrary {
    type V = Seq<SoundEntry>;

    /// The sounds, in order.
    closed spec fn view(&self) -> Seq<SoundEntry> {
        self.sounds@
    }
}

impl SoundLibrary {
    /// The id that the next added sound receives.
    pub closed spec fn spec_next_id(&self) -> u64 {
        self.next_id
    }

    /// The library's own invariant: ids are unique and all below the next id.
    pub open spec fn wf(&self) -> bool {
        &&& ids_distinct(self@)
        &&& forall|i: int| 0 <= i < self@.len() ==> #[trigger] self@[i].id < self.spec_next_id()
    }

    /// A library made of stored parts, as read back from disk.
    pub fn from_parts(sounds: Vec<SoundEntry>, next_id: u64) -> (r: Self)
        ensures
            r@ == sounds@,
            r.spec_next_id() == next_id,
    {
        SoundLibrary { sounds, next_id }
    }

    /// The sounds, in order.
    pub fn sounds(&self) -> (r: &Vec<SoundEntry>)
        ensures
            r@ == self@,
    {
        &self.sounds
    }

    /// The id that the next added sound receives.
    pub fn next_id(&self) -> (r: u64)
        ensures
            r == self.spec_next_id(),
    {
        self.next_id
    }

    /// Adds a sound at the end and returns the id it was assigned.
    pub fn add(&mut self, name: String, path: PathBuf) -> (id: u64)
        requires
            old(self).spec_next_id() < u64::MAX,
        ensures
            id == old(self).spec_next_id(),
            final(self).spec_next_id() == old(self).spec_next_id() + 1,
            final(self)@ == old(self)@.push(SoundEntry { id, name, path }),
            old(self).wf() ==> final(self).wf(),
            old(self).wf() ==> !has_id(old(self)@, id),
    {
        let id = self.next_id;
        self.next_id = self.next_id + 1;
        self.sounds.push(SoundEntry { id, name, path });
        id
    }

    /// Removes every sound with the id `id`; the others keep their order.
    pub fn remove(&mut self, id: u64)
        ensures
            final(self)@ == old(self)@.filter(|e: SoundEntry| e.id != id),
            final(self).spec_next_id() == old(self).spec_next_id(),
            !has_id(final(self)@, id),
            old(self).wf() ==> final(self).wf(),
    {
        let n = self.sounds.len();
        let mut keep: Vec<bool> = Vec::new();
        let mut i: usize = 0;
        while i < n
            invariant
                n == self.sounds@.len(),
                i <= n,
                keep@.len() == i,
                forall|k: int| 0 <= k < i ==> keep@[k] == (self.sounds@[k].id != id),
            decreases n - i,
        {
            keep.push(self.sounds[i].id != id);
            i = i + 1;
        }
        let ghost s = self.sounds@;
        let ghost pred = |e: SoundEntry| e.id != id;
        proof {
            lemma_kept_is_filter(s, keep@, pred);
        }
        retain_marked(&mut self.sounds, &keep);
        proof {
            let f = s.filter(pred);
            assert forall|k: int| 0 <= k < f.len() implies f[k].id != id by {
                s.lemma_filter_pred(pred, k);
            }
            assert forall|a: int, b: int| 0 <= a < f.len() && 0 <= b < f.len() && a != b
                && ids_distinct(s) implies f[a].id != f[b].id by {
                lemma_filter_index_map(s, pred, a, b);
            }
            let next = self.spec_next_id();
            assert forall|k: int|
                0 <= k < f.len() && (forall|m: int| 0 <= m < s.len() ==> #[trigger] s[m].id < next)
                implies f[k].id < next by {
                assert(f.contains(f[k]));
                s.lemma_filter_contains_rev(pred, f[k]);
            }
        }
    }

    /// Gives the first sound with the id `id` the name `name`; without such a
    /// sound nothing changes.
    pub fn rename(&mut self, id: u64, name: String)
        ensures
            forall|i: int|
                is_first_with_id(old(self)@, id, i) ==> final(self)@ == old(self)@.update(
                    i,
                    renamed(old(self)@[i], name),
                ),
            forall|i: int|
                is_first_with_id(old(self)@, id, i) ==> {
                    &&& final(self)@.len() == old(self)@.len()
                    &&& final(self)@[i].name == name
                    &&& final(self)@[i].id == id
                    &&& final(self)@[i].path == old(self)@[i].path
                    &&& forall|j: int| 0 <= j < old(self)@.len() && j != i ==> final(self)@[j] == old(self)@[j]
                },
            !has_id(old(self)@, id) ==> final(self)@ == old(self)@,
            final(self).spec_next_id() == old(self).spec_next_id(),
            old(self).wf() ==> final(self).wf(),
    {
        match self.position(id) {
            Some(i) => {
                proof {
                    lemma_first_exists(self.sounds@, id);
                }
                let entry = self.sounds.remove(i);
                let updated = SoundEntry { id: entry.id, name, path: entry.path };
                self.sounds.insert(i, updated);
            },
            None => {},
        }
    }

    /// The position of the first sound with the id `id`.
    pub fn position(&self, id: u64) -> (r: Option<usize>)
        ensures
            r is Some <==> has_id(self@, id),
            r matches Some(i) ==> is_first_with_id(self@, id, i as int),
    {
        let n = self.sounds.len();
        let mut i: usize = 0;
        while i < n
            invariant
                n == self.sounds@.len(),
                i <= n,
                forall|j: int| 0 <= j < i ==> self.sounds@[j].id != id,
            decreases n - i,
        {
            if self.sounds[i].id == id {
                return Some(i);
            }
            i = i + 1;
        }
        None
    }

    /// Removes every sound; ids already handed out stay used.
    pub fn clear(&mut self)
        ensures
            final(self)@ == Seq::<SoundEntry>::empty(),
            final(self).spec_next_id() == old(self).spec_next_id(),
            final(self).wf(),
    {
        self.sounds.clear();
    }

    /// The first sound with the id `id`.
    pub fn get(&self, id: u64) -> (r: Option<&SoundEntry>)
        ensures
            r is Some <==> has_id(self@, id),
            forall|i: int| is_first_with_id(self@, id, i) ==> r == Some(&self@[i]),
    {
        match self.position(id) {
            Some(i) => {
                proof {
                    lemma_first_exists(self.sounds@, id);
                }
                Some(&self.sounds[i])
            },
            None => None,
        }
    }
}

impl Default for SoundLibrary {
    /// An empty library whose first sound gets the id 0.
    fn default() -> (r: Self)
        ensures
            r@.len() == 0,
            r.spec_next_id() == 0,
            r.wf(),
    {
        SoundLibrary { sounds: Vec::new(), next_id: 0 }
    }
}

/// Two distinct positions of a filtered sequence come from two distinct
/// positions of the sequence.
proof fn lemma_filter_index_map(s: Seq<SoundEntry>, pred: spec_fn(SoundEntry) -> bool, a: int, b: int)
    requires
        0 <= a < s.filter(pred).len(),
        0 <= b < s.filter(pred).len(),
        a != b,
    ensures
        ids_distinct(s) ==> s.filter(pred)[a].id != s.filter(pred)[b].id,
    decreases s.len(),
{
    reveal_with_fuel(Seq::filter, 1);
    if s.len() > 0 {
        let t = s.drop_last();
        let ft = t.filter(pred);
        if ids_distinct(s) {
            assert(ids_distinct(t)) by {
                assert forall|i: int, j: int| 0 <= i < t.len() && 0 <= j < t.len() && i != j
                    implies t[i].id != t[j].id by {
                    assert(t[i] == s[i] && t[j] == s[j]);
                }
            }
            if pred(s.last()) && (a == ft.len() || b == ft.len()) {
                let other = if a == ft.len() { b } else { a };
                assert(ft.contains(ft[other]));
                t.lemma_filter_contains_rev(pred, ft[other]);
                let m = choose|m: int| 0 <= m < t.len() && t[m] == ft[other];
                assert(s[m] == t[m]);
                assert(s.last() == s[s.len() - 1]);
            } else {
                lemma_filter_index_map(t, pred, a, b);
            }
        }
    }
}

/// A sound that `add` puts into a library in which its id is not yet used
/// (as in every well-formed one) is the one `get` then finds under the id
/// `add` returned.
pub proof fn law_get_after_add(lib: SoundLibrary, name: String, path: PathBuf)
    requires
        !has_id(lib@, lib.spec_next_id()),
    ensures
        ({
            let id = lib.spec_next_id();
            let s = lib@.push(SoundEntry { id, name, path });
            is_first_with_id(s, id, s.len() - 1) && s[s.len() - 1] == SoundEntry { id, name, path }
        }),
{
}

/// Removing the sound that `add` just put into a library in which its id was
/// not yet used (as in every well-formed one) gives back the sounds there
/// were before.
pub proof fn law_remove_undoes_add(lib: SoundLibrary, name: String, path: PathBuf)
    requires
        !has_id(lib@, lib.spec_next_id()),
    ensures
        ({
            let id = lib.spec_next_id();
            lib@.push(SoundEntry { id, name, path }).filter(|e: SoundEntry| e.id != id) == lib@
        }),
{
    let id = lib.spec_next_id();
    let pred = |e: SoundEntry| e.id != id;
    let s = lib@;
    reveal_with_fuel(Seq::filter, 1);
    assert(s.push(SoundEntry { id, name, path }).drop_last() =~= s);
    lemma_filter_keeps_all(s, pred);
}

/// Filtering by a predicate that every item meets keeps every item.
proof fn lemma_filter_keeps_all(s: Seq<SoundEntry>, pred: spec_fn(SoundEntry) -> bool)
    requires
        forall|i: int| 0 <= i < s.len() ==> pred(#[trigger] s[i]),
    ensures
        s.filter(pred) == s,
    decreases s.len(),
{
    reveal_with_fuel(Seq::filter, 1);
    if s.len() > 0 {
        let t = s.drop_last();
        assert forall|i: int| 0 <= i < t.len() implies pred(#[trigger] t[i]) by {
            assert(t[i] == s[i]);
        }
        lemma_filter_keeps_all(t, pred);
        assert(s.filter(pred) =~= t.push(s.last()));
        assert(t.push(s.last()) =~= s);
    }
}

/// Removing an id a second time changes nothing more.
pub proof fn law_remove_idempotent(s: Seq<SoundEntry>, id: u64)
    ensures
        s.filter(|e: SoundEntry| e.id != id).filter(|e: SoundEntry| e.id != id) == s.filter(
            |e: SoundEntry| e.id != id,
        ),
{
    let pred = |e: SoundEntry| e.id != id;
    let f = s.filter(pred);
    assert forall|i: int| 0 <= i < f.len() implies pred(#[trigger] f[i]) by {
        s.lemma_filter_pred(pred, i);
    }
    lemma_filter_keeps_all(f, pred);
}

/// After `rename`, `get` finds the renamed sound under the same id, with its
/// path unchanged, and no other sound has changed.
pub proof fn law_get_after_rename(s: Seq<SoundEntry>, id: u64, name: String, f: int)
    requires
        is_first_with_id(s, id, f),
    ensures
        ({
            let t = s.update(f, renamed(s[f], name));
            &&& is_first_with_id(t, id, f)
            &&& t[f] == renamed(s[f], name)
            &&& t[f].name == name
            &&& t[f].id == s[f].id
            &&& t[f].path == s[f].path
            &&& forall|j: int| 0 <= j < s.len() && j != f ==> t[j] == s[j]
        }),
{
}

/// Every id in a well-formed library is below the id that `add` hands out
/// next; as `remove`, `rename` and `clear` keep that id, the id of a sound
/// that was removed is never handed out again.
pub proof fn law_ids_not_reused(lib: SoundLibrary, id: u64)
    requires
        lib.wf(),
        has_id(lib@, id),
    ensures
        id < lib.spec_next_id(),
{
}

/// A sound added from a file is named by the text of the file's stem itself,
/// exactly as `Path::file_stem` gives it (no further stem is taken), or
/// `Sound` when the path has no stem.
pub proof fn law_name_is_file_stem_text(path: PathBuf)
    ensures
        file_stem_of(path) matches Some(stem) ==> name_for_path(path) == lossy_text(stem),
        file_stem_of(path) is None ==> name_for_path(path) == "Sound"@,
{
}

} // verus!
