//! Latched one-value broadcasters: the status snapshot, the paused
//! flag, and the restart and shutdown edges.  Each struct here is the
//! latch's value and its transition rules; fan-out to subscribers is
//! the caller's, which publishes when a transition reports a change.

use vstd::prelude::*;
use crate::window::clone_string_vec;
use crate::window::clone_string;
use crate::window::strs_view;
use crate::strings::str_eq;

verus! {

/// Who set the current layer: this daemon, for a focus rule, or the
/// engine itself (also used while paused or disconnected).
#[derive(Debug, Clone, Copy, PartialEq, Eq)]
pub enum LayerSource {
    Focus,
    External,
}

impl LayerSource {
    /// The wire token for this source.
    pub fn as_str(&self) -> (r: &'static str)
        ensures
            *self is Focus ==> r@ == "focus"@,
            *self is External ==> r@ == "external"@,
    {
        match self {
            LayerSource::Focus => "focus",
            LayerSource::External => "external",
        }
    }
}

/// The externally observable state: current layer, held virtual keys,
/// and who set the layer.
#[derive(Debug, Clone, PartialEq, Eq)]
pub struct StatusSnapshot {
    pub layer: String,
    pub virtual_keys: Vec<String>,
    pub layer_source: LayerSource,
}

/// Spec-level snapshot value.
pub ghost struct StatusView {
    pub layer: Seq<char>,
    pub vks: Seq<Seq<char>>,
    pub source: LayerSource,
}

/// View of a snapshot.
pub open spec fn status_view(s: StatusSnapshot) -> StatusView {
    StatusView { layer: s.layer@, vks: strs_view(s.virtual_keys@), source: s.layer_source }
}

/// Copy of a snapshot.
pub fn clone_snapshot(s: &StatusSnapshot) -> (r: StatusSnapshot)
    ensures
        status_view(r) == status_view(*s),
{
    StatusSnapshot {
        layer: clone_string(&s.layer),
        virtual_keys: clone_string_vec(&s.virtual_keys),
        layer_source: s.layer_source,
    }
}

/// Value-equality of two snapshots, decided over their views.
pub fn snapshot_eq(a: &StatusSnapshot, b: &StatusSnapshot) -> (r: bool)
    ensures
        r == (status_view(*a) == status_view(*b)),
{
    if !str_eq(a.layer.as_str(), b.layer.as_str()) {
        return false;
    }
    let source_same = match (a.layer_source, b.layer_source) {
        (LayerSource::Focus, LayerSource::Focus) => true,
        (LayerSource::External, LayerSource::External) => true,
        _ => false,
    };
    if !source_same {
        return false;
    }
    if a.virtual_keys.len() != b.virtual_keys.len() {
        proof {
            assert(strs_view(a.virtual_keys@).len() != strs_view(b.virtual_keys@).len());
        }
        return false;
    }
    let mut i: usize = 0;
    while i < a.virtual_keys.len()
        invariant
            a.virtual_keys@.len() == b.virtual_keys@.len(),
            i <= a.virtual_keys@.len(),
            forall|k: int| 0 <= k < i ==> (#[trigger] a.virtual_keys@[k])@ == b.virtual_keys@[k]@,
        decreases a.virtual_keys@.len() - i,
    {
        if !str_eq(a.virtual_keys[i].as_str(), b.virtual_keys[i].as_str()) {
            proof {
                assert(strs_view(a.virtual_keys@)[i as int] != strs_view(b.virtual_keys@)[
                    i as int]);
            }
            return false;
        }
        i = i + 1;
    }
    proof {
        assert(strs_view(a.virtual_keys@) =~= strs_view(b.virtual_keys@));
    }
    true
}

/// The latched status value.  Layer, key and focus updates suppress
/// no-op changes; only the paused update always publishes.
#[derive(Debug)]
pub struct StatusBroadcaster {
    pub current: StatusSnapshot,
}

impl StatusBroadcaster {
    /// The initial status: no layer, no keys, externally set.
    pub fn new() -> (r: StatusBroadcaster)
        ensures
            status_view(r.current) == (StatusView {
                layer: Seq::<char>::empty(),
                vks: Seq::<Seq<char>>::empty(),
                source: LayerSource::External,
            }),
    {
        let r = StatusBroadcaster {
            current: StatusSnapshot {
                layer: String::new(),
                virtual_keys: Vec::new(),
                layer_source: LayerSource::External,
            },
        };
        proof {
            assert(strs_view(r.current.virtual_keys@) =~= Seq::<Seq<char>>::empty());
        }
        r
    }

    /// The latched snapshot.
    pub fn snapshot(&self) -> (r: StatusSnapshot)
        ensures
            status_view(r) == status_view(self.current),
    {
        clone_snapshot(&self.current)
    }

    /// Sets the layer and its source, reporting whether the snapshot
    /// changed and is to be published.
    pub fn update_layer(&mut self, layer: String, source: LayerSource) -> (published: bool)
        ensures
            status_view(final(self).current) == (StatusView {
                layer: layer@,
                vks: status_view(old(self).current).vks,
                source: source,
            }),
            published == (status_view(final(self).current) != status_view(old(self).current)),
    {
        let next = StatusSnapshot {
            layer,
            virtual_keys: clone_string_vec(&self.current.virtual_keys),
            layer_source: source,
        };
        let same = snapshot_eq(&next, &self.current);
        self.current = next;
        !same
    }

    /// Sets the held virtual keys, reporting whether the snapshot
    /// changed and is to be published.
    pub fn update_virtual_keys(&mut self, virtual_keys: Vec<String>) -> (published: bool)
        ensures
            status_view(final(self).current) == (StatusView {
                layer: status_view(old(self).current).layer,
                vks: strs_view(virtual_keys@),
                source: status_view(old(self).current).source,
            }),
            published == (status_view(final(self).current) != status_view(old(self).current)),
    {
        let next = StatusSnapshot {
            layer: clone_string(&self.current.layer),
            virtual_keys,
            layer_source: self.current.layer_source,
        };
        let same = snapshot_eq(&next, &self.current);
        self.current = next;
        !same
    }

    /// Sets the layer with `Focus` as its source, reporting whether
    /// the snapshot changed and is to be published: an equal snapshot
    /// is never re-broadcast.
    pub fn update_focus_layer(&mut self, layer: String) -> (published: bool)
        ensures
            status_view(final(self).current) == (StatusView {
                layer: layer@,
                vks: status_view(old(self).current).vks,
                source: LayerSource::Focus,
            }),
            published == (status_view(final(self).current) != status_view(old(self).current)),
    {
        let next = StatusSnapshot {
            layer,
            virtual_keys: clone_string_vec(&self.current.virtual_keys),
            layer_source: LayerSource::Focus,
        };
        let same = snapshot_eq(&next, &self.current);
        self.current = next;
        !same
    }

    /// The paused status: the given layer, no held keys, externally
    /// set; always published.
    pub fn set_paused_status(&mut self, layer: String)
        ensures
            status_view(final(self).current) == (StatusView {
                layer: layer@,
                vks: Seq::<Seq<char>>::empty(),
                source: LayerSource::External,
            }),
    {
        self.current = StatusSnapshot {
            layer,
            virtual_keys: Vec::new(),
            layer_source: LayerSource::External,
        };
        proof {
            assert(strs_view(self.current.virtual_keys@) =~= Seq::<Seq<char>>::empty());
        }
    }
}

/// The latched paused flag.
#[derive(Debug)]
pub struct PauseBroadcaster {
    pub paused: bool,
}

impl PauseBroadcaster {
    /// Initially not paused.
    pub fn new() -> (r: PauseBroadcaster)
        ensures
            !r.paused,
    {
        PauseBroadcaster { paused: false }
    }

    /// The current flag.
    pub fn is_paused(&self) -> (r: bool)
        ensures
            r == self.paused,
    {
        self.paused
    }

    /// Sets the flag, reporting whether it transitioned (and the
    /// change is to be published).
    pub fn set_paused(&mut self, paused: bool) -> (changed: bool)
        ensures
            final(self).paused == paused,
            changed == (old(self).paused != paused),
    {
        let changed = self.paused != paused;
        self.paused = paused;
        changed
    }
}

/// The latched restart edge.
#[derive(Debug)]
pub struct RestartHandle {
    pub requested: bool,
}

impl RestartHandle {
    /// Initially not requested.
    pub fn new() -> (r: RestartHandle)
        ensures
            !r.requested,
    {
        RestartHandle { requested: false }
    }

    /// Latches the request.
    pub fn request(&mut self)
        ensures
            final(self).requested,
    {
        self.requested = true;
    }

    /// Whether a restart was requested.
    pub fn is_requested(&self) -> (r: bool)
        ensures
            r == self.requested,
    {
        self.requested
    }
}

/// The latched shutdown edge.
#[derive(Debug)]
pub struct ShutdownHandle {
    pub requested: bool,
}

impl ShutdownHandle {
    /// Initially not requested.
    pub fn new() -> (r: ShutdownHandle)
        ensures
            !r.requested,
    {
        ShutdownHandle { requested: false }
    }

    /// Latches the request.
    pub fn request(&mut self)
        ensures
            final(self).requested,
    {
        self.requested = true;
    }

    /// Whether shutdown was requested.
    pub fn is_requested(&self) -> (r: bool)
        ensures
            r == self.requested,
    {
        self.requested
    }
}

/// How a supervisor round ends.
#[derive(Debug, Clone, Copy, PartialEq, Eq)]
pub enum RunOutcome {
    Restart,
    Exit,
}

/// The decision of waiting for restart or shutdown once either has
/// fired: shutdown always wins ties.
pub fn run_outcome(restart_requested: bool, shutdown_requested: bool) -> (r: RunOutcome)
    requires
        restart_requested || shutdown_requested,
    ensures
        shutdown_requested ==> r == RunOutcome::Exit,
        !shutdown_requested ==> r == RunOutcome::Restart,
{
    if shutdown_requested {
        RunOutcome::Exit
    } else {
        RunOutcome::Restart
    }
}

} // verus!
