//! The coordinated paths that span the evaluator, the engine client
//! and the broadcasters: executing a focus event's action list,
//! updating the status latch for it, gating on the paused flag, and
//! the pause sequence that releases every held key before the
//! connection is torn down.

use vstd::prelude::*;
use crate::codec::act_on_fake_key_line;
use crate::codec::change_layer_line;
use crate::engine::ChangeLayerOutcome;
use crate::engine::EngineView;
use crate::engine::KanataClient;
use crate::engine::default_layer_spec;
use crate::engine::eng_view;
use crate::engine::resolve_layer_spec;
use crate::evaluator::FocusHandler;
use crate::evaluator::HandleOutcome;
use crate::evaluator::eval_result_ok;
use crate::evaluator::eval_view;
use crate::evaluator::fresh_view;
use crate::evaluator::handle_spec;
use crate::evaluator::last_change;
use crate::evaluator::last_change_exec;
use crate::evaluator::push_releases;
use crate::evaluator::releases_of;
use crate::status::LayerSource;
use crate::status::PauseBroadcaster;
use crate::status::StatusBroadcaster;
use crate::status::StatusView;
use crate::status::status_view;
use crate::strings::opt_view;
use crate::window::ActionView;
use crate::window::FocusAction;
use crate::window::FocusActions;
use crate::window::WindowInfo;
use crate::window::acts_view;
use crate::window::strs_view;

verus! {

/// The synthetic focus event the session-activity monitor feeds when
/// the seat leaves the graphical session.
pub fn native_terminal_window() -> (w: WindowInfo)
    ensures
        w.class@ == Seq::<char>::empty(),
        w.title@ == Seq::<char>::empty(),
        w.is_native_terminal,
{
    WindowInfo { class: String::new(), title: String::new(), is_native_terminal: true }
}

/// The layer the focus event effectively set: the last `ChangeLayer`
/// in its action list.
pub fn extract_focus_layer(actions: &FocusActions) -> (r: Option<String>)
    ensures
        opt_view(r) == last_change(acts_view(actions.actions@)),
{
    last_change_exec(&actions.actions)
}

/// Spec-level result of driving actions through the engine client: the
/// client's state afterwards and the lines written to the engine, in
/// order.
pub ghost struct ExecOutcome {
    pub v: EngineView,
    pub lines: Seq<Seq<char>>,
}

/// What one action does to the engine client.  Key actions send one
/// line when connected and nothing otherwise; a layer change follows
/// the client's change-layer decision.
pub open spec fn exec_action_spec(v: EngineView, a: ActionView) -> ExecOutcome {
    match a {
        ActionView::Release(n) => ExecOutcome {
            v,
            lines: if v.connected {
                seq![act_on_fake_key_line(n, "Release"@)]
            } else {
                Seq::empty()
            },
        },
        ActionView::Press(n) => ExecOutcome {
            v,
            lines: if v.connected {
                seq![act_on_fake_key_line(n, "Press"@)]
            } else {
                Seq::empty()
            },
        },
        ActionView::Raw(n, x) => ExecOutcome {
            v,
            lines: if v.connected {
                seq![act_on_fake_key_line(n, x)]
            } else {
                Seq::empty()
            },
        },
        ActionView::Change(l) => match resolve_layer_spec(v, l) {
            None => ExecOutcome { v, lines: Seq::empty() },
            Some(t) => if v.current == Some(t) {
                ExecOutcome { v, lines: Seq::empty() }
            } else if !v.connected {
                ExecOutcome { v: EngineView { pending: Some(t), ..v }, lines: Seq::empty() }
            } else {
                ExecOutcome {
                    v: EngineView { current: Some(t), ..v },
                    lines: seq![change_layer_line(t)],
                }
            },
        },
    }
}

/// What an action list does to the engine client, in order.
pub open spec fn exec_actions_spec(v: EngineView, acts: Seq<ActionView>) -> ExecOutcome
    decreases acts.len(),
{
    if acts.len() == 0 {
        ExecOutcome { v, lines: Seq::empty() }
    } else {
        let first = exec_action_spec(v, acts[0]);
        let rest = exec_actions_spec(first.v, acts.drop_first());
        ExecOutcome { v: rest.v, lines: first.lines + rest.lines }
    }
}

/// Drives a focus event's actions through the engine client, in list
/// order, and returns the lines to write to the engine, in the order
/// they are to be sent.
pub fn execute_focus_actions(kanata: &mut KanataClient, actions: &FocusActions) -> (lines: Vec<
    String,
>)
    ensures
        eng_view(*final(kanata)) == exec_actions_spec(
            eng_view(*old(kanata)),
            acts_view(actions.actions@),
        ).v,
        strs_view(lines@) == exec_actions_spec(
            eng_view(*old(kanata)),
            acts_view(actions.actions@),
        ).lines,
        final(kanata).host == old(kanata).host,
        final(kanata).port == old(kanata).port,
{
    let ghost acts = acts_view(actions.actions@);
    let ghost v0 = eng_view(*kanata);
    let ghost host0 = kanata.host;
    let ghost port0 = kanata.port;
    let mut lines: Vec<String> = Vec::new();
    let mut i: usize = 0;
    proof {
        assert(acts.skip(0) =~= acts);
        assert(strs_view(lines@) =~= Seq::<Seq<char>>::empty());
        assert(strs_view(lines@) + exec_actions_spec(eng_view(*kanata), acts).lines
            =~= exec_actions_spec(eng_view(*kanata), acts).lines);
    }
    while i < actions.actions.len()
        invariant
            i <= actions.actions@.len(),
            acts == acts_view(actions.actions@),
            kanata.host == host0,
            kanata.port == port0,
            exec_actions_spec(v0, acts).v == exec_actions_spec(
                eng_view(*kanata),
                acts.skip(i as int),
            ).v,
            exec_actions_spec(v0, acts).lines == strs_view(lines@) + exec_actions_spec(
                eng_view(*kanata),
                acts.skip(i as int),
            ).lines,
        decreases actions.actions@.len() - i,
    {
        let ghost rest0 = acts.skip(i as int);
        let ghost v_pre = eng_view(*kanata);
        let ghost lines_pre = strs_view(lines@);
        proof {
            assert(rest0[0] == acts[i as int]);
            assert(rest0.drop_first() =~= acts.skip(i as int + 1));
        }
        let ghost fo = exec_action_spec(v_pre, acts[i as int]);
        match &actions.actions[i] {
            FocusAction::ReleaseVk(vk) => {
                match kanata.act_on_fake_key(vk.as_str(), "Release") {
                    Some(line) => {
                        lines.push(line);
                        proof {
                            assert(strs_view(lines@) =~= lines_pre.push(
                                act_on_fake_key_line(vk@, "Release"@),
                            ));
                        }
                    },
                    None => {},
                }
            },
            FocusAction::PressVk(vk) => {
                match kanata.act_on_fake_key(vk.as_str(), "Press") {
                    Some(line) => {
                        lines.push(line);
                        proof {
                            assert(strs_view(lines@) =~= lines_pre.push(
                                act_on_fake_key_line(vk@, "Press"@),
                            ));
                        }
                    },
                    None => {},
                }
            },
            FocusAction::RawVkAction(n, a) => {
                match kanata.act_on_fake_key(n.as_str(), a.as_str()) {
                    Some(line) => {
                        lines.push(line);
                        proof {
                            assert(strs_view(lines@) =~= lines_pre.push(
                                act_on_fake_key_line(n@, a@),
                            ));
                        }
                    },
                    None => {},
                }
            },
            FocusAction::ChangeLayer(l) => {
                match kanata.change_layer(l.as_str()) {
                    ChangeLayerOutcome::Send(line) => {
                        lines.push(line);
                        proof {
                            let t = resolve_layer_spec(v_pre, l@)->Some_0;
                            assert(strs_view(lines@) =~= lines_pre.push(change_layer_line(t)));
                        }
                    },
                    _ => {},
                }
            },
        }
        proof {
            assert(eng_view(*kanata) == fo.v);
            assert(strs_view(lines@) =~= lines_pre + fo.lines);
            assert(exec_actions_spec(v_pre, rest0).v == exec_actions_spec(
                eng_view(*kanata),
                acts.skip(i as int + 1),
            ).v);
            assert(exec_actions_spec(v_pre, rest0).lines =~= fo.lines + exec_actions_spec(
                eng_view(*kanata),
                acts.skip(i as int + 1),
            ).lines);
            assert(lines_pre + exec_actions_spec(v_pre, rest0).lines =~= strs_view(lines@)
                + exec_actions_spec(eng_view(*kanata), acts.skip(i as int + 1)).lines);
        }
        i = i + 1;
    }
    proof {
        assert(acts.skip(i as int) =~= Seq::<ActionView>::empty());
        assert(strs_view(lines@) + exec_actions_spec(eng_view(*kanata), acts.skip(i as int)).lines
            =~= strs_view(lines@));
    }
    lines
}

/// Driving actions through the engine client touches only the current
/// and pending layers: the defaults, the announced layer set and the
/// connected and paused flags stay as they were.
pub proof fn lemma_exec_actions_preserve(v: EngineView, acts: Seq<ActionView>)
    ensures
        exec_actions_spec(v, acts).v.config_default == v.config_default,
        exec_actions_spec(v, acts).v.auto_default == v.auto_default,
        exec_actions_spec(v, acts).v.known == v.known,
        exec_actions_spec(v, acts).v.connected == v.connected,
        exec_actions_spec(v, acts).v.paused == v.paused,
    decreases acts.len(),
{
    if acts.len() > 0 {
        lemma_exec_actions_preserve(exec_action_spec(v, acts[0]).v, acts.drop_first());
    }
}

/// The status latch after a focus event: the held keys always follow
/// the evaluator; when the event set a layer that resolves, the layer
/// is latched with `Focus` as its source.
pub open spec fn focus_status_spec(
    st0: StatusView,
    eng: EngineView,
    out: HandleOutcome,
) -> StatusView {
    let st1 = focus_vks_view(st0, out);
    if out.actions.len() > 0 {
        match last_change(out.actions) {
            Some(l) => match resolve_layer_spec(eng, l) {
                Some(t) => StatusView { layer: t, vks: out.st.vks, source: LayerSource::Focus },
                None => st1,
            },
            None => st1,
        }
    } else {
        st1
    }
}

/// The status latch after only the held-key half of a focus update.
pub open spec fn focus_vks_view(st0: StatusView, out: HandleOutcome) -> StatusView {
    StatusView { layer: st0.layer, vks: out.st.vks, source: st0.source }
}

/// Whether the focus-layer half of the update publishes: the event set
/// a layer that resolves, and latching it actually changes the
/// snapshot — an equal snapshot is never re-broadcast.
pub open spec fn focus_layer_published(st0: StatusView, eng: EngineView, out: HandleOutcome)
    -> bool {
    if out.actions.len() > 0 {
        match last_change(out.actions) {
            Some(l) => match resolve_layer_spec(eng, l) {
                Some(t) => (StatusView { layer: t, vks: out.st.vks, source: LayerSource::Focus })
                    != focus_vks_view(st0, out),
                None => false,
            },
            None => false,
        }
    } else {
        false
    }
}

/// Evaluates a focus event, updates the status latch, and returns the
/// actions to execute together with which status publications are
/// owed: the held-key change and the focus layer, each only when the
/// snapshot actually moved.
pub fn update_status_for_focus(
    handler: &mut FocusHandler,
    status: &mut StatusBroadcaster,
    win: &WindowInfo,
    kanata: &KanataClient,
    default_layer: &str,
) -> (r: (Option<FocusActions>, bool, bool))
    ensures
        eval_result_ok(
            *old(handler),
            *final(handler),
            r.0,
            handle_spec(
                old(handler).rules@,
                old(handler).native_terminal_rule,
                eval_view(*old(handler)),
                *win,
                default_layer@,
            ),
        ),
        status_view(final(status).current) == focus_status_spec(
            status_view(old(status).current),
            eng_view(*kanata),
            handle_spec(
                old(handler).rules@,
                old(handler).native_terminal_rule,
                eval_view(*old(handler)),
                *win,
                default_layer@,
            ),
        ),
        r.1 == (focus_vks_view(
            status_view(old(status).current),
            handle_spec(
                old(handler).rules@,
                old(handler).native_terminal_rule,
                eval_view(*old(handler)),
                *win,
                default_layer@,
            ),
        ) != status_view(old(status).current)),
        r.2 == focus_layer_published(
            status_view(old(status).current),
            eng_view(*kanata),
            handle_spec(
                old(handler).rules@,
                old(handler).native_terminal_rule,
                eval_view(*old(handler)),
                *win,
                default_layer@,
            ),
        ),
{
    let ghost out = handle_spec(
        handler.rules@,
        handler.native_terminal_rule,
        eval_view(*handler),
        *win,
        default_layer@,
    );
    let actions = handler.handle(win, default_layer);
    let virtual_keys = handler.current_virtual_keys();
    let focus_layer = match &actions {
        Some(focus_actions) => extract_focus_layer(focus_actions),
        None => None,
    };
    let vks_published = status.update_virtual_keys(virtual_keys);
    let mut focus_published = false;
    match focus_layer {
        Some(layer) => {
            match kanata.resolve_layer_name(layer.as_str()) {
                Some(resolved) => {
                    focus_published = status.update_focus_layer(resolved);
                },
                None => {},
            }
        },
        None => {},
    }
    (actions, vks_published, focus_published)
}

/// A focus event while paused is dropped whole: no evaluation, no
/// status movement, no actions.  Otherwise it is
/// [`update_status_for_focus`].
pub fn handle_focus_event(
    handler: &mut FocusHandler,
    status: &mut StatusBroadcaster,
    pause: &PauseBroadcaster,
    win: &WindowInfo,
    kanata: &KanataClient,
    default_layer: &str,
) -> (r: (Option<FocusActions>, bool, bool))
    ensures
        pause.paused ==> r.0 is None && !r.1 && !r.2 && *final(handler) == *old(handler)
            && status_view(final(status).current) == status_view(old(status).current),
        !pause.paused ==> eval_result_ok(
            *old(handler),
            *final(handler),
            r.0,
            handle_spec(
                old(handler).rules@,
                old(handler).native_terminal_rule,
                eval_view(*old(handler)),
                *win,
                default_layer@,
            ),
        ) && status_view(final(status).current) == focus_status_spec(
            status_view(old(status).current),
            eng_view(*kanata),
            handle_spec(
                old(handler).rules@,
                old(handler).native_terminal_rule,
                eval_view(*old(handler)),
                *win,
                default_layer@,
            ),
        ) && r.1 == (focus_vks_view(
            status_view(old(status).current),
            handle_spec(
                old(handler).rules@,
                old(handler).native_terminal_rule,
                eval_view(*old(handler)),
                *win,
                default_layer@,
            ),
        ) != status_view(old(status).current)) && r.2 == focus_layer_published(
            status_view(old(status).current),
            eng_view(*kanata),
            handle_spec(
                old(handler).rules@,
                old(handler).native_terminal_rule,
                eval_view(*old(handler)),
                *win,
                default_layer@,
            ),
        ),
{
    if pause.is_paused() {
        return (None, false, false);
    }
    update_status_for_focus(handler, status, win, kanata, default_layer)
}

/// The action list the pause sequence sends: every held key released
/// in reverse press order, then a switch to the default layer when one
/// is known.
pub open spec fn pause_actions_spec(vks: Seq<Seq<char>>, d: Seq<char>) -> Seq<ActionView> {
    releases_of(vks, Seq::<Seq<char>>::empty()) + (if d.len() > 0 {
        seq![ActionView::Change(d)]
    } else {
        Seq::empty()
    })
}

/// The engine-client state pause leaves behind: everything learned
/// from the engine dropped, paused set, only the configured default
/// kept.
pub open spec fn paused_engine_view(config_default: Option<Seq<char>>) -> EngineView {
    EngineView {
        current: None,
        auto_default: None,
        config_default: config_default,
        pending: None,
        known: Seq::empty(),
        connected: false,
        paused: true,
    }
}

/// The coordinated pause path.  When the paused flag transitions, the
/// evaluator's held keys are snapshotted and the evaluator reset, the
/// release-and-reset lines are produced against the still-connected
/// client, the paused status is latched, and the client is torn down.
/// The caller writes the returned lines to the engine and then closes
/// the connection, so every release drains before the teardown.
pub fn pause_daemon(
    pause: &mut PauseBroadcaster,
    handler: &mut FocusHandler,
    status: &mut StatusBroadcaster,
    kanata: &mut KanataClient,
) -> (r: (bool, Vec<String>))
    ensures
        old(pause).paused ==> !r.0 && r.1@.len() == 0 && *final(handler) == *old(handler)
            && *final(kanata) == *old(kanata) && status_view(final(status).current) == status_view(
            old(status).current,
        ) && final(pause).paused,
        !old(pause).paused ==> ({
            let d = match default_layer_spec(eng_view(*old(kanata))) {
                Some(s) => s,
                None => Seq::<char>::empty(),
            };
            let acts = pause_actions_spec(eval_view(*old(handler)).vks, d);
            &&& r.0
            &&& final(pause).paused
            &&& final(handler).rules == old(handler).rules
            &&& final(handler).native_terminal_rule == old(handler).native_terminal_rule
            &&& eval_view(*final(handler)) == fresh_view()
            &&& strs_view(r.1@) == exec_actions_spec(eng_view(*old(kanata)), acts).lines
            &&& eng_view(*final(kanata)) == paused_engine_view(
                eng_view(*old(kanata)).config_default,
            )
            &&& status_view(final(status).current) == (StatusView {
                layer: d,
                vks: Seq::<Seq<char>>::empty(),
                source: LayerSource::External,
            })
        }),
{
    if !pause.set_paused(true) {
        return (false, Vec::new());
    }
    let virtual_keys = handler.current_virtual_keys();
    handler.reset();
    let default_layer = kanata.default_layer_sync();

    let mut acts: Vec<FocusAction> = Vec::new();
    proof {
        assert(acts_view(acts@) =~= Seq::<ActionView>::empty());
    }
    let keep: Vec<String> = Vec::new();
    proof {
        assert(strs_view(keep@) =~= Seq::<Seq<char>>::empty());
    }
    push_releases(&virtual_keys, &keep, &mut acts);
    if !default_layer.as_str().is_empty() {
        let ghost pre = acts_view(acts@);
        acts.push(FocusAction::ChangeLayer(crate::window::clone_string(&default_layer)));
        proof {
            assert(acts_view(acts@) =~= pre.push(ActionView::Change(default_layer@)));
            assert(acts_view(acts@) =~= pause_actions_spec(
                eval_view(*old(handler)).vks,
                default_layer@,
            ));
        }
    } else {
        proof {
            assert(acts_view(acts@) + Seq::<ActionView>::empty() =~= acts_view(acts@));
            assert(acts_view(acts@) =~= pause_actions_spec(
                eval_view(*old(handler)).vks,
                default_layer@,
            ));
        }
    }
    let fa = FocusActions { actions: acts, new_managed_vks: Vec::new() };
    let lines = execute_focus_actions(kanata, &fa);
    proof {
        lemma_exec_actions_preserve(eng_view(*old(kanata)), acts_view(fa.actions@));
    }
    status.set_paused_status(default_layer);
    kanata.pause_disconnect();
    (true, lines)
}

/// The first half of the coordinated unpause path: when the paused
/// flag transitions, the engine client leaves its paused state; the
/// caller then reconnects with retry and re-applies the current focus.
pub fn unpause_begin(pause: &mut PauseBroadcaster, kanata: &mut KanataClient) -> (proceed: bool)
    ensures
        !old(pause).paused ==> !proceed && *final(kanata) == *old(kanata) && !final(pause).paused,
        old(pause).paused ==> proceed && !final(pause).paused && eng_view(*final(kanata))
            == (EngineView { paused: false, ..eng_view(*old(kanata)) }) && final(kanata).host
            == old(kanata).host && final(kanata).port == old(kanata).port,
{
    if !pause.set_paused(false) {
        return false;
    }
    kanata.begin_unpause();
    true
}

/// Pause followed by unpause, reconnected with the same handshake,
/// leaves the daemon in the state a fresh daemon reaches from that
/// handshake: the evaluator is fresh in both, and the engine-client
/// state is identical, so the same focus event evaluates identically.
/// (The status latch passes through its paused value in between; its
/// layer-source transitions are the one visible difference.)
pub proof fn lemma_pause_unpause_round_trip(
    v0: EngineView,
    initial: Option<Seq<char>>,
    names: Seq<Seq<char>>,
)
    ensures
        ({
            // The paused client after unpause and a completed handshake.
            let paused = paused_engine_view(v0.config_default);
            let unpaused = EngineView { paused: false, ..paused };
            let resumed = EngineView {
                current: initial,
                auto_default: (match initial {
                    Some(l) => Some(l),
                    None => unpaused.auto_default,
                }),
                known: names,
                connected: true,
                ..unpaused
            };
            // A fresh client with the same configuration after the same
            // handshake.
            let fresh = EngineView {
                current: None,
                auto_default: None,
                config_default: v0.config_default,
                pending: None,
                known: Seq::empty(),
                connected: false,
                paused: false,
            };
            let fresh_resumed = EngineView {
                current: initial,
                auto_default: (match initial {
                    Some(l) => Some(l),
                    None => fresh.auto_default,
                }),
                known: names,
                connected: true,
                ..fresh
            };
            resumed == fresh_resumed
        }),
{
}

} // verus!
