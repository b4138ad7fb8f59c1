//! The engine-client state machine.  [`KanataClient`] holds everything
//! the daemon knows about its connection to the keyboard-remapping
//! engine: the observed current layer, the default layers, the layers
//! the engine announced, a pending layer to replay after reconnect,
//! and the connected and paused flags.  Every decision — what a layer
//! change resolves to, what may be sent, what an incoming line does to
//! the state — is made here; the TCP transport around it performs the
//! returned commands and feeds back what it read.

use vstd::prelude::*;
use crate::codec::act_on_fake_key_line;
use crate::codec::change_layer_line;
use crate::codec::encode_act_on_fake_key;
use crate::codec::encode_change_layer;
use crate::strings::opt_view;
use crate::strings::str_eq;
use crate::strings::vec_has_string;
use crate::window::clone_opt_string;
use crate::window::clone_string;
use crate::window::lemma_strs_view_contains;
use crate::window::strs_view;

verus! {

/// Engine-client state.
#[derive(Debug)]
pub struct KanataClient {
    pub host: String,
    pub port: u16,
    /// The layer the engine is believed to be on, observed or
    /// optimistically assumed after a send.
    pub current_layer: Option<String>,
    /// The layer the engine announced when the connection was made.
    pub auto_default_layer: Option<String>,
    /// The default layer from the configuration; wins over the
    /// announced one.
    pub config_default_layer: Option<String>,
    /// One requested layer to replay after the next reconnect.
    pub pending_layer: Option<String>,
    /// The layers the engine announced in its handshake.
    pub known_layers: Vec<String>,
    pub connected: bool,
    pub paused: bool,
}

/// Spec-level snapshot of the engine-client state.
pub ghost struct EngineView {
    pub current: Option<Seq<char>>,
    pub auto_default: Option<Seq<char>>,
    pub config_default: Option<Seq<char>>,
    pub pending: Option<Seq<char>>,
    pub known: Seq<Seq<char>>,
    pub connected: bool,
    pub paused: bool,
}

/// View of an engine client.
pub open spec fn eng_view(c: KanataClient) -> EngineView {
    EngineView {
        current: opt_view(c.current_layer),
        auto_default: opt_view(c.auto_default_layer),
        config_default: opt_view(c.config_default_layer),
        pending: opt_view(c.pending_layer),
        known: strs_view(c.known_layers@),
        connected: c.connected,
        paused: c.paused,
    }
}

/// The effective default layer: the configured one when present, else
/// the one the engine announced at connect.
pub open spec fn default_layer_spec(v: EngineView) -> Option<Seq<char>> {
    match v.config_default {
        Some(s) => Some(s),
        None => v.auto_default,
    }
}

/// What a requested layer name resolves to: itself when the announced
/// layer set is empty or contains it, else the effective default.
pub open spec fn resolve_layer_spec(v: EngineView, n: Seq<char>) -> Option<Seq<char>> {
    if v.known.len() > 0 && !v.known.contains(n) {
        default_layer_spec(v)
    } else {
        Some(n)
    }
}

/// The decision [`KanataClient::change_layer`] returns.
#[derive(Debug, Clone, PartialEq, Eq)]
pub enum ChangeLayerOutcome {
    /// No layer could be resolved: nothing is sent.
    Unresolvable,
    /// The engine is already on the resolved layer: nothing is sent.
    AlreadyCurrent,
    /// Not connected: the resolved layer is stored for replay after
    /// reconnect; nothing is sent now.
    Deferred,
    /// Connected: the carried line is to be written to the engine.
    Send(String),
}

impl KanataClient {
    /// A fresh, disconnected client.
    pub fn new(host: &str, port: u16, config_default_layer: Option<String>) -> (c: KanataClient)
        ensures
            c.host@ == host@,
            c.port == port,
            eng_view(c) == (EngineView {
                current: None::<Seq<char>>,
                auto_default: None::<Seq<char>>,
                config_default: opt_view(config_default_layer),
                pending: None::<Seq<char>>,
                known: Seq::<Seq<char>>::empty(),
                connected: false,
                paused: false,
            }),
    {
        let c = KanataClient {
            host: host.to_owned(),
            port,
            current_layer: None,
            auto_default_layer: None,
            config_default_layer,
            pending_layer: None,
            known_layers: Vec::new(),
            connected: false,
            paused: false,
        };
        proof {
            assert(strs_view(c.known_layers@) =~= Seq::<Seq<char>>::empty());
        }
        c
    }

    /// The effective default layer, configured over announced.
    pub fn default_layer(&self) -> (r: Option<String>)
        ensures
            opt_view(r) == default_layer_spec(eng_view(*self)),
    {
        match &self.config_default_layer {
            Some(s) => Some(clone_string(s)),
            None => clone_opt_string(&self.auto_default_layer),
        }
    }

    /// The effective default layer, or the empty string when none is
    /// known.
    pub fn default_layer_sync(&self) -> (r: String)
        ensures
            r@ == (match default_layer_spec(eng_view(*self)) {
                Some(s) => s,
                None => Seq::<char>::empty(),
            }),
    {
        match self.default_layer() {
            Some(s) => s,
            None => String::new(),
        }
    }

    /// Resolves a requested layer name against the announced layer
    /// set, substituting the effective default for an unknown name.
    pub fn resolve_layer_name(&self, layer_name: &str) -> (r: Option<String>)
        ensures
            opt_view(r) == resolve_layer_spec(eng_view(*self), layer_name@),
    {
        let name = layer_name.to_owned();
        let known = vec_has_string(&self.known_layers, &name);
        proof {
            lemma_strs_view_contains(self.known_layers@, name@);
        }
        if self.known_layers.len() > 0 && !known {
            self.default_layer()
        } else {
            Some(name)
        }
    }

    /// Decides a layer change: resolves the name, skips a no-op,
    /// stores the layer for replay when disconnected, and otherwise
    /// hands back the line to send while assuming the engine will be
    /// on the new layer.
    pub fn change_layer(&mut self, layer_name: &str) -> (r: ChangeLayerOutcome)
        ensures
            ({
                let v0 = eng_view(*old(self));
                let res = resolve_layer_spec(v0, layer_name@);
                match res {
                    None => r == ChangeLayerOutcome::Unresolvable && eng_view(*final(self)) == v0,
                    Some(t) => if v0.current == Some(t) {
                        r == ChangeLayerOutcome::AlreadyCurrent && eng_view(*final(self)) == v0
                    } else if !v0.connected {
                        r == ChangeLayerOutcome::Deferred && eng_view(*final(self)) == (EngineView {
                            pending: Some(t),
                            ..v0
                        })
                    } else {
                        (r matches ChangeLayerOutcome::Send(line) && line@ == change_layer_line(t))
                            && eng_view(*final(self)) == (EngineView { current: Some(t), ..v0 })
                    },
                }
            }),
            final(self).host == old(self).host,
            final(self).port == old(self).port,
    {
        let target = match self.resolve_layer_name(layer_name) {
            Some(t) => t,
            None => {
                return ChangeLayerOutcome::Unresolvable;
            },
        };
        let same = match &self.current_layer {
            Some(cur) => *cur == target,
            None => false,
        };
        if same {
            return ChangeLayerOutcome::AlreadyCurrent;
        }
        if !self.connected {
            self.pending_layer = Some(target);
            return ChangeLayerOutcome::Deferred;
        }
        let line = encode_change_layer(target.as_str());
        self.current_layer = Some(target);
        ChangeLayerOutcome::Send(line)
    }

    /// Decides a fire-and-forget virtual-key action: the line to send
    /// when connected, nothing otherwise.  Such actions are never
    /// queued.
    pub fn act_on_fake_key(&self, name: &str, action: &str) -> (r: Option<String>)
        ensures
            !eng_view(*self).connected ==> r is None,
            eng_view(*self).connected ==> (r matches Some(line) && line@ == act_on_fake_key_line(
                name@,
                action@,
            )),
    {
        if !self.connected {
            return None;
        }
        Some(encode_act_on_fake_key(name, action))
    }

    /// Commits a completed handshake: the engine announced its current
    /// layer and its layer names; the client is now connected.  The
    /// announced layer also becomes the auto default when the engine
    /// announced one.
    pub fn apply_connected(&mut self, initial_layer: Option<String>, names: Vec<String>)
        ensures
            eng_view(*final(self)) == (EngineView {
                current: opt_view(initial_layer),
                auto_default: (match opt_view(initial_layer) {
                    Some(l) => Some(l),
                    None => eng_view(*old(self)).auto_default,
                }),
                known: strs_view(names@),
                connected: true,
                ..eng_view(*old(self))
            }),
            final(self).host == old(self).host,
            final(self).port == old(self).port,
    {
        if initial_layer.is_some() {
            self.auto_default_layer = clone_opt_string(&initial_layer);
        }
        self.current_layer = initial_layer;
        self.known_layers = names;
        self.connected = true;
    }

    /// Applies a `LayerChange` the reader observed.  While paused the
    /// change is dropped and nothing is broadcast; otherwise the
    /// current layer is updated and the result says whether the layer
    /// actually changed, so the caller knows whether to broadcast.
    pub fn observe_layer_change(&mut self, new_layer: &str) -> (changed: bool)
        ensures
            eng_view(*old(self)).paused ==> eng_view(*final(self)) == eng_view(*old(self))
                && !changed,
            !eng_view(*old(self)).paused ==> eng_view(*final(self)) == (EngineView {
                current: Some(new_layer@),
                ..eng_view(*old(self))
            }) && changed == (eng_view(*old(self)).current != Some(new_layer@)),
            final(self).host == old(self).host,
            final(self).port == old(self).port,
    {
        if self.paused {
            return false;
        }
        let same = match &self.current_layer {
            Some(cur) => str_eq(cur.as_str(), new_layer),
            None => false,
        };
        self.current_layer = Some(new_layer.to_owned());
        !same
    }

    /// Records that the connection dropped; reconnection is wanted
    /// unless the client is paused.
    pub fn on_disconnect(&mut self) -> (reconnect: bool)
        ensures
            eng_view(*final(self)) == (EngineView { connected: false, ..eng_view(*old(self)) }),
            reconnect == !eng_view(*old(self)).paused,
            final(self).host == old(self).host,
            final(self).port == old(self).port,
    {
        self.connected = false;
        !self.paused
    }

    /// Takes the layer to replay after a reconnect; it is consumed
    /// exactly once.
    pub fn take_pending_layer(&mut self) -> (r: Option<String>)
        ensures
            opt_view(r) == eng_view(*old(self)).pending,
            eng_view(*final(self)) == (EngineView {
                pending: None::<Seq<char>>,
                ..eng_view(*old(self))
            }),
            final(self).host == old(self).host,
            final(self).port == old(self).port,
    {
        self.pending_layer.take()
    }

    /// Pauses the client: the connection state and everything learned
    /// from the engine is dropped, and the reader's observations are
    /// ignored until unpaused.
    pub fn pause_disconnect(&mut self)
        ensures
            eng_view(*final(self)) == (EngineView {
                current: None::<Seq<char>>,
                auto_default: None::<Seq<char>>,
                config_default: eng_view(*old(self)).config_default,
                pending: None::<Seq<char>>,
                known: Seq::<Seq<char>>::empty(),
                connected: false,
                paused: true,
            }),
            final(self).host == old(self).host,
            final(self).port == old(self).port,
    {
        self.paused = true;
        self.current_layer = None;
        self.auto_default_layer = None;
        self.pending_layer = None;
        self.known_layers = Vec::new();
        self.connected = false;
        proof {
            assert(strs_view(self.known_layers@) =~= Seq::<Seq<char>>::empty());
        }
    }

    /// Clears the paused flag; the caller then reconnects with retry.
    pub fn begin_unpause(&mut self)
        ensures
            eng_view(*final(self)) == (EngineView { paused: false, ..eng_view(*old(self)) }),
            final(self).host == old(self).host,
            final(self).port == old(self).port,
    {
        self.paused = false;
    }

    /// The shutdown guard's best-effort reset: the `ChangeLayer` line
    /// that moves the engine back to its default layer, when connected,
    /// a non-empty default is known, and the engine is not already on
    /// it.
    pub fn switch_to_default_if_connected_sync(&self) -> (r: Option<String>)
        ensures
            ({
                let v = eng_view(*self);
                match default_layer_spec(v) {
                    None => r is None,
                    Some(d) => if d.len() > 0 && v.connected && v.current != Some(d) {
                        r matches Some(line) && line@ == change_layer_line(d)
                    } else {
                        r is None
                    },
                }
            }),
    {
        let d = match self.default_layer() {
            Some(d) => d,
            None => {
                return None;
            },
        };
        if d.as_str().is_empty() {
            return None;
        }
        if !self.connected {
            return None;
        }
        let same = match &self.current_layer {
            Some(cur) => *cur == d,
            None => false,
        };
        if same {
            return None;
        }
        Some(encode_change_layer(d.as_str()))
    }
}

/// Delay before connection attempt `attempt`, in milliseconds: the
/// back-off sequence 0, 1, 2, 5, 5, … seconds.
pub fn connect_retry_delay_ms(attempt: usize) -> (d: u64)
    ensures
        attempt == 0 ==> d == 0,
        attempt == 1 ==> d == 1000,
        attempt == 2 ==> d == 2000,
        attempt >= 3 ==> d == 5000,
{
    if attempt == 0 {
        0
    } else if attempt == 1 {
        1000
    } else if attempt == 2 {
        2000
    } else {
        5000
    }
}

/// Delay before reconnection attempt `attempt`, in milliseconds: the
/// back-off sequence 1, 2, 5, 5, … seconds.
pub fn reconnect_delay_ms(attempt: usize) -> (d: u64)
    ensures
        attempt == 0 ==> d == 1000,
        attempt == 1 ==> d == 2000,
        attempt >= 2 ==> d == 5000,
{
    if attempt == 0 {
        1000
    } else if attempt == 1 {
        2000
    } else {
        5000
    }
}

/// After a completed handshake the announced layer set is exactly what
/// layer changes are validated against: an announced name resolves to
/// itself, and when the set is non-empty an unknown name resolves to
/// the effective default, never to itself.
pub proof fn lemma_known_layers_validate(v0: EngineView, initial: Option<Seq<char>>, known: Seq<Seq<char>>, n: Seq<char>)
    ensures
        ({
            let v1 = EngineView {
                current: initial,
                auto_default: (match initial {
                    Some(l) => Some(l),
                    None => v0.auto_default,
                }),
                known: known,
                connected: true,
                ..v0
            };
            &&& (known.contains(n) ==> resolve_layer_spec(v1, n) == Some(n))
            &&& (known.len() > 0 && !known.contains(n) ==> resolve_layer_spec(v1, n)
                == default_layer_spec(v1))
        }),
{
}

} // verus!
