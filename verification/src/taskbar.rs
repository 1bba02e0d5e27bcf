//! Taskbar bookkeeping for the foreign-toplevel protocol: the open windows by
//! protocol object id, the events that change them, and the sorted snapshots
//! sent to the bar once the compositor marks a batch of changes done.

use vstd::prelude::*;
use crate::text::{lex_le, lowercase, to_chars, to_lowercase};
use crate::order::{is_perm, sort_indices};
use std::collections::HashMap;
use vstd::std_specs::hash::spec_hash_map_iter;
use vstd::std_specs::iter::IteratorSpec;

verus! {

broadcast use vstd::std_specs::hash::group_hash_axioms;

/// An open window.
pub struct Toplevel {
    pub title: String,
    pub app_id: String,
    /// Whether the window has the focus.
    pub activated: bool,
}

/// The mathematical content of a window.
pub struct ToplevelModel {
    pub title: Seq<char>,
    pub app_id: Seq<char>,
    pub activated: bool,
}

/// The content of a window.
pub open spec fn toplevel_model(t: Toplevel) -> ToplevelModel {
    ToplevelModel { title: t.title@, app_id: t.app_id@, activated: t.activated }
}

/// A window as first announced: no title, no app id, not focused.
pub open spec fn fresh_model() -> ToplevelModel {
    ToplevelModel { title: Seq::<char>::empty(), app_id: Seq::<char>::empty(), activated: false }
}

impl Default for Toplevel {
    fn default() -> (r: Self)
        ensures
            toplevel_model(r) == fresh_model(),
    {
        Toplevel { title: String::new(), app_id: String::new(), activated: false }
    }
}

impl Clone for Toplevel {
    fn clone(&self) -> (r: Self)
        ensures
            toplevel_model(r) == toplevel_model(*self),
    {
        Toplevel { title: self.title.clone(), app_id: self.app_id.clone(), activated: self.activated }
    }
}

/// The protocol's code for the focused state.
pub const STATE_ACTIVATED: u32 = 2;

/// The `k`-th 32-bit word of `bytes`, in little- or big-endian order.
pub open spec fn word(bytes: Seq<u8>, k: int, little: bool) -> int {
    let b0 = bytes[4 * k] as int;
    let b1 = bytes[4 * k + 1] as int;
    let b2 = bytes[4 * k + 2] as int;
    let b3 = bytes[4 * k + 3] as int;
    if little {
        b0 + 256 * b1 + 65536 * b2 + 16777216 * b3
    } else {
        b3 + 256 * b2 + 65536 * b1 + 16777216 * b0
    }
}

/// The state array holds the focused state among its whole 32-bit words; a
/// trailing partial word is ignored.
pub open spec fn activated_spec(bytes: Seq<u8>, little: bool) -> bool {
    exists|k: int| 0 <= k && 4 * k + 4 <= bytes.len() && #[trigger] word(bytes, k, little) == STATE_ACTIVATED
}

/// Whether a toplevel state array, in the machine's byte order (`little`:
/// little-endian), marks the window as focused.
pub fn is_activated(bytes: &Vec<u8>, little: bool) -> (r: bool)
    ensures
        r == activated_spec(bytes@, little),
{
    let n = bytes.len() / 4;
    let mut k: usize = 0;
    while k < n
        invariant
            n == bytes.len() / 4,
            k <= n,
            forall|j: int| 0 <= j < k ==> #[trigger] word(bytes@, j, little) != STATE_ACTIVATED,
        decreases n - k,
    {
        let b0 = bytes[4 * k] as u32;
        let b1 = bytes[4 * k + 1] as u32;
        let b2 = bytes[4 * k + 2] as u32;
        let b3 = bytes[4 * k + 3] as u32;
        let v = if little {
            b0 + 256 * b1 + 65536 * b2 + 16777216 * b3
        } else {
            b3 + 256 * b2 + 65536 * b1 + 16777216 * b0
        };
        assert(v == word(bytes@, k as int, little));
        if v == STATE_ACTIVATED {
            return true;
        }
        k = k + 1;
    }
    assert forall|j: int| 0 <= j && 4 * j + 4 <= bytes@.len() implies #[trigger] word(bytes@, j, little)
        != STATE_ACTIVATED by {
        assert(j < n);
    }
    false
}

/// What the compositor reports about one window.
pub enum ToplevelEvent {
    Title(String),
    AppId(String),
    /// The window's state array, as raw bytes.
    State(Vec<u8>),
    /// The end of a batch of changes to the window.
    Done,
    Closed,
    /// Anything else (outputs, parent); nothing the bar shows.
    Other,
}


/// The windows the taskbar knows, by protocol object id, and whether a batch
/// of changes is waiting to be sent to the bar.
pub struct Taskbar {
    windows: HashMap<u32, Toplevel>,
    dirty: bool,
    little_endian: bool,
}

impl Taskbar {
    /// The windows by id.
    pub closed spec fn view(&self) -> Map<u32, ToplevelModel> {
        self.windows@.map_values(|t: Toplevel| toplevel_model(t))
    }

    /// Whether a batch of changes waits to be sent.
    pub closed spec fn pending(&self) -> bool {
        self.dirty
    }

    /// Whether state arrays are read as little-endian words.
    pub closed spec fn little_endian(&self) -> bool {
        self.little_endian
    }

    /// An empty taskbar reading state arrays in the given byte order
    /// (`little_endian`: the machine's order is little-endian).
    pub fn new(little_endian: bool) -> (r: Self)
        ensures
            r.view() == Map::<u32, ToplevelModel>::empty(),
            !r.pending(),
            r.little_endian() == little_endian,
    {
        let r = Taskbar { windows: HashMap::new(), dirty: false, little_endian };
        assert(r.view() =~= Map::<u32, ToplevelModel>::empty());
        r
    }

    /// Store `w` under `id`, replacing any window already there.
    fn put(&mut self, id: u32, w: Toplevel)
        ensures
            final(self).view() == old(self).view().insert(id, toplevel_model(w)),
            final(self).dirty == old(self).dirty,
            final(self).little_endian == old(self).little_endian,
    {
        let ghost m = toplevel_model(w);
        self.windows.insert(id, w);
        assert(self.view() =~= old(self).view().insert(id, m));
    }

    /// A copy of the window with id `id`, if there is one.
    fn copy_of(&self, id: u32) -> (r: Option<Toplevel>)
        ensures
            match r {
                Some(w) => self.view().contains_key(id) && toplevel_model(w) == self.view()[id],
                None => !self.view().contains_key(id),
            },
    {
        match self.windows.get(&id) {
            Some(w) => Some(w.clone()),
            None => None,
        }
    }

    /// The compositor announced a new window: it starts untitled and
    /// unfocused, replacing any window that had the same id.
    pub fn announce(&mut self, id: u32)
        ensures
            final(self).view() == old(self).view().insert(id, fresh_model()),
            final(self).pending() == old(self).pending(),
            final(self).little_endian() == old(self).little_endian(),
    {
        self.put(id, Toplevel::default());
    }
}


/// The windows by id after an event for window `id`.
pub open spec fn event_spec(
    m: Map<u32, ToplevelModel>,
    id: u32,
    ev: ToplevelEvent,
    little: bool,
) -> Map<u32, ToplevelModel> {
    match ev {
        ToplevelEvent::Title(t) => if m.contains_key(id) {
            m.insert(id, ToplevelModel { title: t@, ..m[id] })
        } else {
            m
        },
        ToplevelEvent::AppId(a) => if m.contains_key(id) {
            m.insert(id, ToplevelModel { app_id: a@, ..m[id] })
        } else {
            m
        },
        ToplevelEvent::State(bytes) => if m.contains_key(id) {
            m.insert(id, ToplevelModel { activated: activated_spec(bytes@, little), ..m[id] })
        } else {
            m
        },
        ToplevelEvent::Done => m,
        ToplevelEvent::Closed => m.remove(id),
        ToplevelEvent::Other => m,
    }
}

/// Whether a batch waits to be sent after an event: a finished batch or a
/// closed window starts one, other events leave it as it was.
pub open spec fn pending_spec(pending: bool, ev: ToplevelEvent) -> bool {
    match ev {
        ToplevelEvent::Done => true,
        ToplevelEvent::Closed => true,
        _ => pending,
    }
}

/// `out` lists the windows of `m`, each once: `ks` gives the id of each
/// entry.
pub open spec fn lists_windows_by(m: Map<u32, ToplevelModel>, out: Seq<Toplevel>, ks: Seq<u32>) -> bool {
    &&& ks.len() == out.len()
    &&& ks.no_duplicates()
    &&& forall|k: int|
        0 <= k < ks.len() ==> m.contains_key(#[trigger] ks[k]) && m[ks[k]] == toplevel_model(out[k])
    &&& forall|id: u32| m.contains_key(id) ==> ks.contains(id)
}

/// `out` lists the windows of `m`, each once.
pub open spec fn lists_windows(m: Map<u32, ToplevelModel>, out: Seq<Toplevel>) -> bool {
    exists|ks: Seq<u32>| lists_windows_by(m, out, ks)
}

/// `out` is ordered by lowercase title.
pub open spec fn by_title(out: Seq<Toplevel>) -> bool {
    forall|a: int, b: int|
        0 <= a < b < out.len() ==> lex_le(
            lowercase((#[trigger] out[a]).title@),
            lowercase((#[trigger] out[b]).title@),
        )
}

impl Taskbar {
    /// Apply an event the compositor reported for window `id`.
    pub fn event(&mut self, id: u32, ev: ToplevelEvent)
        ensures
            final(self).view() == event_spec(old(self).view(), id, ev, old(self).little_endian()),
            final(self).pending() == pending_spec(old(self).pending(), ev),
            final(self).little_endian() == old(self).little_endian(),
    {
        match ev {
            ToplevelEvent::Title(t) => {
                if let Some(mut w) = self.copy_of(id) {
                    w.title = t;
                    self.put(id, w);
                }
            },
            ToplevelEvent::AppId(a) => {
                if let Some(mut w) = self.copy_of(id) {
                    w.app_id = a;
                    self.put(id, w);
                }
            },
            ToplevelEvent::State(bytes) => {
                let activated = is_activated(&bytes, self.little_endian);
                if let Some(mut w) = self.copy_of(id) {
                    w.activated = activated;
                    self.put(id, w);
                }
            },
            ToplevelEvent::Done => {
                self.dirty = true;
            },
            ToplevelEvent::Closed => {
                let _ = self.windows.remove(&id);
                assert(self.view() =~= old(self).view().remove(id));
                self.dirty = true;
            },
            ToplevelEvent::Other => {},
        }
    }

    /// When a batch of changes is pending, end it and return the windows
    /// ordered by lowercase title for the bar; otherwise nothing.
    pub fn flush(&mut self) -> (r: Option<Vec<Toplevel>>)
        ensures
            final(self).view() == old(self).view(),
            final(self).little_endian() == old(self).little_endian(),
            !final(self).pending(),
            r is Some <==> old(self).pending(),
            r matches Some(list) ==> lists_windows(old(self).view(), list@) && by_title(list@),
    {
        if !self.dirty {
            return None;
        }
        self.dirty = false;
        let ghost m = self.windows@;
        let mut ids: Vec<u32> = Vec::new();
        let mut ws: Vec<Toplevel> = Vec::new();
        let mut keys: Vec<Vec<char>> = Vec::new();
        for (k, w) in it: self.windows.iter()
            invariant
                m == self.windows@,
                ids@.len() == it.index(),
                ws@.len() == it.index(),
                keys@.len() == it.index(),
                forall|j: int| 0 <= j < it.index() ==> #[trigger] ids@[j] == *it.seq()[j].0,
                forall|j: int| 0 <= j < it.index() ==> toplevel_model(#[trigger] ws@[j]) == toplevel_model(*it.seq()[j].1),
                forall|j: int| 0 <= j < it.index() ==> (#[trigger] keys@[j])@ == lowercase(ws@[j].title@),
        {
            ids.push(*k);
            let c = w.clone();
            let low = to_lowercase(c.title.as_str());
            keys.push(to_chars(low.as_str()));
            ws.push(c);
        }
        let ghost sq = spec_hash_map_iter(&self.windows).remaining();
        assert(ids@.len() == sq.len());
        let ghost kv = keys@.map_values(|k: Vec<char>| k@);
        let p = sort_indices(&keys);
        let n = ws.len();
        let mut out: Vec<Toplevel> = Vec::new();
        let mut k: usize = 0;
        while k < n
            invariant
                n == ws@.len(),
                n == keys@.len(),
                is_perm(p@, n as nat),
                k <= n,
                out@.len() == k,
                forall|j: int| 0 <= j < k ==> toplevel_model(#[trigger] out@[j]) == toplevel_model(ws@[p@[j] as int]),
            decreases n - k,
        {
            let w = ws[p[k]].clone();
            out.push(w);
            k = k + 1;
        }
        proof {
            let ks = p@.map_values(|j: usize| ids@[j as int]);
            assert forall|j: int| 0 <= j < ids@.len() implies m.contains_key(#[trigger] ids@[j])
                && m[ids@[j]] == *sq[j].1 by {
                assert(m.contains_key(*sq[j].0));
            }
            assert forall|a: int, b: int| 0 <= a < ks.len() && 0 <= b < ks.len() && a != b implies ks[a] != ks[b] by {
                let ia = p@[a] as int;
                let ib = p@[b] as int;
                assert(ia != ib);
                if ids@[ia] == ids@[ib] {
                    assert(m.contains_key(*sq[ia].0));
                    assert(m.contains_key(*sq[ib].0));
                    assert(sq[ia] == sq[ib]);
                    assert(sq.no_duplicates());
                }
            }
            assert forall|j: int| 0 <= j < ks.len() implies self.view().contains_key(#[trigger] ks[j])
                && self.view()[ks[j]] == toplevel_model(out@[j]) by {
                let i = p@[j] as int;
                assert(m.contains_key(*sq[i].0));
            }
            assert forall|id: u32| self.view().contains_key(id) implies ks.contains(id) by {
                assert(m.contains_key(id));
                assert(sq.contains((&id, &m[id])));
                let i = choose|i: int| 0 <= i < sq.len() && sq[i] == (&id, &m[id]);
                assert(ids@[i] == id);
                assert(p@.contains(i as usize));
                let j = choose|j: int| 0 <= j < p@.len() && p@[j] == i as usize;
                assert(ks[j] == id);
            }
            assert(lists_windows_by(self.view(), out@, ks));
            assert(self.view() =~= old(self).view());
            assert(lists_windows(old(self).view(), out@));
            assert forall|a: int, b: int| 0 <= a < b < out@.len() implies lex_le(
                lowercase((#[trigger] out@[a]).title@),
                lowercase((#[trigger] out@[b]).title@),
            ) by {
                assert(lex_le(kv[p@[a] as int], kv[p@[b] as int]));
            }
        }
        Some(out)
    }
}

/// A closed window is gone, and its closing starts a batch for the bar.
pub proof fn law_closed_window_gone(m: Map<u32, ToplevelModel>, id: u32, pending: bool, little: bool)
    ensures
        !event_spec(m, id, ToplevelEvent::Closed, little).contains_key(id),
        pending_spec(pending, ToplevelEvent::Closed),
{
}

/// Only closing drops a window; no event adds one.
pub proof fn law_events_keep_windows(m: Map<u32, ToplevelModel>, id: u32, ev: ToplevelEvent, little: bool)
    ensures
        !(ev is Closed) ==> event_spec(m, id, ev, little).dom() == m.dom(),
        event_spec(m, id, ev, little).dom().subset_of(m.dom()),
{
    if m.contains_key(id) {
        match ev {
            ToplevelEvent::Title(_) => {
                assert(event_spec(m, id, ev, little).dom() =~= m.dom());
            },
            ToplevelEvent::AppId(_) => {
                assert(event_spec(m, id, ev, little).dom() =~= m.dom());
            },
            ToplevelEvent::State(_) => {
                assert(event_spec(m, id, ev, little).dom() =~= m.dom());
            },
            _ => {},
        }
    }
}

/// Events for a window the taskbar does not know change no window.
pub proof fn law_unknown_window_ignored(m: Map<u32, ToplevelModel>, id: u32, ev: ToplevelEvent, little: bool)
    requires
        !m.contains_key(id),
    ensures
        event_spec(m, id, ev, little) == m,
{
    if ev is Closed {
        assert(m.remove(id) =~= m);
    }
}

/// The bytes `bytes[4k..4k+4]` encode the focused state (code 2) in the given
/// byte order.
pub open spec fn bytes_say_focused(bytes: Seq<u8>, k: int, little: bool) -> bool {
    if little {
        bytes[4 * k] == 2 && bytes[4 * k + 1] == 0 && bytes[4 * k + 2] == 0 && bytes[4 * k + 3] == 0
    } else {
        bytes[4 * k] == 0 && bytes[4 * k + 1] == 0 && bytes[4 * k + 2] == 0 && bytes[4 * k + 3] == 2
    }
}

/// A window is focused exactly when some whole 32-bit word of its state
/// array, anywhere in the array, is the focused code 2: a trailing partial
/// word never counts, and other codes around it do not hide it.
pub proof fn law_focused_iff_some_word(bytes: Seq<u8>, little: bool)
    ensures
        activated_spec(bytes, little) <==> exists|k: int|
            0 <= k && 4 * k + 4 <= bytes.len() && #[trigger] bytes_say_focused(bytes, k, little),
{
    assert forall|k: int| 0 <= k && 4 * k + 4 <= bytes.len() implies (#[trigger] word(bytes, k, little)
        == STATE_ACTIVATED <==> bytes_say_focused(bytes, k, little)) by {
        let b0 = bytes[4 * k] as int;
        let b1 = bytes[4 * k + 1] as int;
        let b2 = bytes[4 * k + 2] as int;
        let b3 = bytes[4 * k + 3] as int;
        assert(0 <= b0 < 256 && 0 <= b1 < 256 && 0 <= b2 < 256 && 0 <= b3 < 256);
    }
    if activated_spec(bytes, little) {
        let k = choose|k: int| 0 <= k && 4 * k + 4 <= bytes.len() && #[trigger] word(bytes, k, little) == STATE_ACTIVATED;
        assert(bytes_say_focused(bytes, k, little));
    }
    if exists|k: int| 0 <= k && 4 * k + 4 <= bytes.len() && #[trigger] bytes_say_focused(bytes, k, little) {
        let k = choose|k: int| 0 <= k && 4 * k + 4 <= bytes.len() && #[trigger] bytes_say_focused(bytes, k, little);
        assert(word(bytes, k, little) == STATE_ACTIVATED);
    }
}

} // verus!
