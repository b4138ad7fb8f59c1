//! The rule evaluator: turns each focus event into an ordered list of
//! engine commands while tracking which virtual keys it currently
//! holds.  The whole evaluation is specified by [`handle_spec`], a
//! mathematical rendition of the rule semantics, and
//! [`FocusHandler::handle`] is proved to compute exactly that.

use vstd::prelude::*;
use crate::matching::rule_matches;
use crate::matching::rule_accepts;
use crate::strings::opt_view;
use crate::strings::str_eq;
use crate::strings::vec_has_string;
use crate::window::ActionView;
use crate::window::FocusAction;
use crate::window::FocusActions;
use crate::window::NativeTerminalRule;
use crate::window::Rule;
use crate::window::WindowInfo;
use crate::window::act_view;
use crate::window::acts_view;
use crate::window::clone_opt_string;
use crate::window::clone_pairs;
use crate::window::clone_string;
use crate::window::clone_string_vec;
use crate::window::idxs_view;
use crate::window::lemma_strs_view_contains;
use crate::window::pairs_view;
use crate::window::rule_raws;
use crate::window::strs_view;

verus! {

/// Synthetic matched-rule index reserved for the native-terminal rule.
pub const NATIVE_TERMINAL_RULE_INDEX: usize = usize::MAX;

/// Spec-level snapshot of the evaluator's mutable state.
pub ghost struct EvalView {
    pub last_class: Seq<char>,
    pub last_title: Seq<char>,
    pub matched: Seq<int>,
    pub layer: Seq<char>,
    pub vks: Seq<Seq<char>>,
}

/// Spec-level result of one evaluation: the emitted actions and the
/// state the evaluator holds afterwards.  The held virtual keys after
/// the call are `st.vks`.
pub ghost struct HandleOutcome {
    pub actions: Seq<ActionView>,
    pub st: EvalView,
}

/// The evaluator state of a freshly built (or reset) evaluator.
pub open spec fn fresh_view() -> EvalView {
    EvalView {
        last_class: Seq::empty(),
        last_title: Seq::empty(),
        matched: Seq::empty(),
        layer: Seq::empty(),
        vks: Seq::empty(),
    }
}

/// Indices of the rules that accept `w`, in order, stopping after the
/// first accepting rule whose `fallthrough` is false.  Rules that do
/// not accept never stop the walk.
pub open spec fn matched_from(rules: Seq<Rule>, w: WindowInfo, i: int) -> Seq<int>
    decreases rules.len() - i,
{
    if i < 0 || i >= rules.len() {
        Seq::empty()
    } else if rule_matches(rules[i], w) {
        if rules[i].fallthrough {
            seq![i] + matched_from(rules, w, i + 1)
        } else {
            seq![i]
        }
    } else {
        matched_from(rules, w, i + 1)
    }
}

/// The virtual keys of the rules at `idxs`, in rule order, each name
/// once: a name already collected (or in `seen`) is not collected
/// again, so the held-key list never carries a duplicate.
pub open spec fn vks_of(rules: Seq<Rule>, idxs: Seq<int>, seen: Seq<Seq<char>>) -> Seq<Seq<char>>
    decreases idxs.len(),
{
    if idxs.len() == 0 {
        Seq::empty()
    } else {
        let head = match rules[idxs[0]].virtual_key {
            Some(v) => if seen.contains(v@) {
                Seq::<Seq<char>>::empty()
            } else {
                seq![v@]
            },
            None => Seq::<Seq<char>>::empty(),
        };
        head + vks_of(rules, idxs.drop_first(), seen + head)
    }
}

/// The layers of the rules at `idxs`, in order.
pub open spec fn layers_of(rules: Seq<Rule>, idxs: Seq<int>) -> Seq<Seq<char>>
    decreases idxs.len(),
{
    if idxs.len() == 0 {
        Seq::empty()
    } else {
        (match rules[idxs[0]].layer {
            Some(l) => seq![l@],
            None => Seq::empty(),
        }) + layers_of(rules, idxs.drop_first())
    }
}

/// Release actions for the held keys in `cur` that are absent from
/// `keep`, in reverse press order.
pub open spec fn releases_of(cur: Seq<Seq<char>>, keep: Seq<Seq<char>>) -> Seq<ActionView>
    decreases cur.len(),
{
    if cur.len() == 0 {
        Seq::empty()
    } else {
        (if keep.contains(cur.last()) {
            Seq::empty()
        } else {
            seq![ActionView::Release(cur.last())]
        }) + releases_of(cur.drop_last(), keep)
    }
}

/// Raw virtual-key actions of a rule as emitted actions.
pub open spec fn raw_emit(raws: Seq<(Seq<char>, Seq<char>)>) -> Seq<ActionView> {
    raws.map_values(|p: (Seq<char>, Seq<char>)| ActionView::Raw(p.0, p.1))
}

/// The name one newly matched rule presses: its virtual key, unless
/// that key was held before this call or an earlier rule of this call
/// already pressed it.
pub open spec fn rule_press_name(
    r: Rule,
    old_vks: Seq<Seq<char>>,
    pressed: Seq<Seq<char>>,
) -> Seq<Seq<char>> {
    match r.virtual_key {
        Some(v) => if old_vks.contains(v@) || pressed.contains(v@) {
            Seq::empty()
        } else {
            seq![v@]
        },
        None => Seq::empty(),
    }
}

/// What one newly matched rule emits: its layer, a press of its virtual
/// key unless that key is already down (held before the call, or
/// pressed earlier in this call), then its raw actions.
pub open spec fn rule_emit(r: Rule, old_vks: Seq<Seq<char>>, pressed: Seq<Seq<char>>) -> Seq<
    ActionView,
> {
    (match r.layer {
        Some(l) => seq![ActionView::Change(l@)],
        None => Seq::empty(),
    }) + (match r.virtual_key {
        Some(v) => if old_vks.contains(v@) || pressed.contains(v@) {
            Seq::empty()
        } else {
            seq![ActionView::Press(v@)]
        },
        None => Seq::empty(),
    }) + raw_emit(rule_raws(r))
}

/// Actions of the matched rules at `idxs`, in order, emitting only for
/// rules whose index is not in `last` (the previously matched set);
/// `pressed` carries the names pressed so far in this call, so a name
/// is pressed at most once per action list.
pub open spec fn new_actions_of(
    rules: Seq<Rule>,
    idxs: Seq<int>,
    last: Seq<int>,
    old_vks: Seq<Seq<char>>,
    pressed: Seq<Seq<char>>,
) -> Seq<ActionView>
    decreases idxs.len(),
{
    if idxs.len() == 0 {
        Seq::empty()
    } else {
        let emit = !last.contains(idxs[0]);
        let head = if emit {
            rule_emit(rules[idxs[0]], old_vks, pressed)
        } else {
            Seq::<ActionView>::empty()
        };
        let pressed2 = if emit {
            pressed + rule_press_name(rules[idxs[0]], old_vks, pressed)
        } else {
            pressed
        };
        head + new_actions_of(rules, idxs.drop_first(), last, old_vks, pressed2)
    }
}

/// The layer of the last `ChangeLayer` in the action list, if any.
pub open spec fn last_change(acts: Seq<ActionView>) -> Option<Seq<char>>
    decreases acts.len(),
{
    if acts.len() == 0 {
        None
    } else {
        match acts.last() {
            ActionView::Change(l) => Some(l),
            _ => last_change(acts.drop_last()),
        }
    }
}

/// Evaluation of the unfocused window (and of a native-terminal event
/// without a configured native-terminal rule): release every held key
/// in reverse order, switch to the default layer when it differs from
/// the last effective layer, clear the matched-rule state.
pub open spec fn unfocused_spec(st: EvalView, d: Seq<char>) -> HandleOutcome {
    HandleOutcome {
        actions: releases_of(st.vks, Seq::empty()) + (if d.len() > 0 && st.layer != d {
            seq![ActionView::Change(d)]
        } else {
            Seq::empty()
        }),
        st: EvalView {
            last_class: Seq::empty(),
            last_title: Seq::empty(),
            matched: Seq::empty(),
            layer: d,
            vks: Seq::empty(),
        },
    }
}

/// Evaluation of a native-terminal event against the configured
/// native-terminal rule, as a single-rule match under the reserved
/// index.
pub open spec fn native_spec(nr: NativeTerminalRule, st: EvalView) -> HandleOutcome {
    let new_vks = match nr.virtual_key {
        Some(v) => seq![v@],
        None => Seq::<Seq<char>>::empty(),
    };
    let matched = seq![NATIVE_TERMINAL_RULE_INDEX as int];
    let is_new = st.matched != matched;
    let emitted = if is_new {
        (if nr.layer@.len() > 0 && st.layer != nr.layer@ {
            seq![ActionView::Change(nr.layer@)]
        } else {
            Seq::empty()
        }) + (match nr.virtual_key {
            Some(v) => if st.vks.contains(v@) {
                Seq::empty()
            } else {
                seq![ActionView::Press(v@)]
            },
            None => Seq::empty(),
        }) + raw_emit(pairs_view(nr.raw_vk_action@))
    } else {
        Seq::empty()
    };
    HandleOutcome {
        actions: releases_of(st.vks, new_vks) + emitted,
        st: EvalView {
            last_class: Seq::empty(),
            last_title: Seq::empty(),
            matched: matched,
            layer: nr.layer@,
            vks: new_vks,
        },
    }
}

/// Evaluation of an ordinary focused window against the rule list.
pub open spec fn matcher_spec(
    rules: Seq<Rule>,
    st: EvalView,
    w: WindowInfo,
    d: Seq<char>,
) -> HandleOutcome {
    let m = matched_from(rules, w, 0);
    let nv = vks_of(rules, m, Seq::empty());
    let rel = releases_of(st.vks, nv);
    if m.len() == 0 {
        HandleOutcome {
            actions: rel + (if d.len() > 0 && st.layer != d {
                seq![ActionView::Change(d)]
            } else {
                Seq::empty()
            }),
            st: EvalView {
                last_class: w.class@,
                last_title: w.title@,
                matched: m,
                layer: d,
                vks: nv,
            },
        }
    } else {
        let base = rel + new_actions_of(rules, m, st.matched, st.vks, Seq::empty());
        let changed = m != st.matched;
        let lys = layers_of(rules, m);
        let relayer = changed && lys.len() > 0;
        let new_layer = lys.last();
        let actions = if relayer && st.layer != new_layer && last_change(base) != Some(new_layer) {
            base + seq![ActionView::Change(new_layer)]
        } else {
            base
        };
        HandleOutcome {
            actions: actions,
            st: EvalView {
                last_class: w.class@,
                last_title: w.title@,
                matched: m,
                layer: if relayer {
                    new_layer
                } else {
                    st.layer
                },
                vks: nv,
            },
        }
    }
}

/// Full evaluation of one focus event: the native-terminal cases, the
/// unfocused case, and the ordinary matcher walk.
pub open spec fn handle_spec(
    rules: Seq<Rule>,
    native: Option<NativeTerminalRule>,
    st: EvalView,
    w: WindowInfo,
    d: Seq<char>,
) -> HandleOutcome {
    if w.is_native_terminal {
        match native {
            Some(nr) => native_spec(nr, st),
            None => unfocused_spec(st, d),
        }
    } else if w.class@.len() == 0 && w.title@.len() == 0 {
        unfocused_spec(st, d)
    } else {
        matcher_spec(rules, st, w, d)
    }
}

/// When every held key is kept, nothing is released.
proof fn lemma_releases_of_kept(cur: Seq<Seq<char>>, keep: Seq<Seq<char>>)
    requires
        forall|t: int| 0 <= t < cur.len() ==> keep.contains(#[trigger] cur[t]),
    ensures
        releases_of(cur, keep) == Seq::<ActionView>::empty(),
    decreases cur.len(),
{
    if cur.len() > 0 {
        assert(cur.last() == cur[cur.len() - 1]);
        assert forall|t: int| 0 <= t < cur.drop_last().len() implies keep.contains(
            #[trigger] cur.drop_last()[t],
        ) by {
            assert(cur.drop_last()[t] == cur[t]);
        }
        lemma_releases_of_kept(cur.drop_last(), keep);
        assert(releases_of(cur, keep) =~= Seq::<ActionView>::empty());
    }
}

/// When every matched index was matched before, nothing is emitted.
proof fn lemma_new_actions_all_old(
    rules: Seq<Rule>,
    idxs: Seq<int>,
    last: Seq<int>,
    ov: Seq<Seq<char>>,
    pressed: Seq<Seq<char>>,
)
    requires
        forall|t: int| 0 <= t < idxs.len() ==> last.contains(#[trigger] idxs[t]),
    ensures
        new_actions_of(rules, idxs, last, ov, pressed) == Seq::<ActionView>::empty(),
    decreases idxs.len(),
{
    if idxs.len() > 0 {
        assert(last.contains(idxs[0]));
        assert forall|t: int| 0 <= t < idxs.drop_first().len() implies last.contains(
            #[trigger] idxs.drop_first()[t],
        ) by {
            assert(idxs.drop_first()[t] == idxs[t + 1]);
        }
        lemma_new_actions_all_old(rules, idxs.drop_first(), last, ov, pressed);
        assert(new_actions_of(rules, idxs, last, ov, pressed) =~= Seq::<ActionView>::empty());
    }
}

/// Every action the release walk emits is a `Release`.
proof fn lemma_releases_only_releases(cur: Seq<Seq<char>>, keep: Seq<Seq<char>>)
    ensures
        forall|t: int|
            0 <= t < releases_of(cur, keep).len() ==> (#[trigger] releases_of(cur, keep)[t])
                is Release,
    decreases cur.len(),
{
    if cur.len() > 0 {
        lemma_releases_only_releases(cur.drop_last(), keep);
    }
}

/// Nothing a newly matched rule emits is a `Release`.
proof fn lemma_rule_emit_no_release(r: Rule, ov: Seq<Seq<char>>, pressed: Seq<Seq<char>>)
    ensures
        forall|t: int|
            0 <= t < rule_emit(r, ov, pressed).len() ==> !((#[trigger] rule_emit(
                r,
                ov,
                pressed,
            )[t]) is Release),
{
    let raws = raw_emit(rule_raws(r));
    assert forall|t: int| 0 <= t < raws.len() implies !((#[trigger] raws[t]) is Release) by {
        assert(raws[t] == ActionView::Raw(rule_raws(r)[t].0, rule_raws(r)[t].1));
    }
}

/// Nothing the new-rule walk emits is a `Release`, whatever was
/// pressed so far.
proof fn lemma_new_actions_no_release(
    rules: Seq<Rule>,
    idxs: Seq<int>,
    last: Seq<int>,
    ov: Seq<Seq<char>>,
    pressed: Seq<Seq<char>>,
)
    ensures
        forall|t: int|
            0 <= t < new_actions_of(rules, idxs, last, ov, pressed).len() ==> !((
            #[trigger] new_actions_of(rules, idxs, last, ov, pressed)[t]) is Release),
    decreases idxs.len(),
{
    if idxs.len() > 0 {
        let emit = !last.contains(idxs[0]);
        let pressed2 = if emit {
            pressed + rule_press_name(rules[idxs[0]], ov, pressed)
        } else {
            pressed
        };
        lemma_new_actions_no_release(rules, idxs.drop_first(), last, ov, pressed2);
        lemma_rule_emit_no_release(rules[idxs[0]], ov, pressed);
    }
}

/// Releasing against an empty keep set releases every held key, in
/// reverse press order.
pub proof fn lemma_release_all(cur: Seq<Seq<char>>)
    ensures
        releases_of(cur, Seq::<Seq<char>>::empty()).len() == cur.len(),
        forall|t: int|
            0 <= t < cur.len() ==> #[trigger] releases_of(cur, Seq::<Seq<char>>::empty())[t]
                == ActionView::Release(cur[cur.len() - 1 - t]),
    decreases cur.len(),
{
    if cur.len() > 0 {
        lemma_release_all(cur.drop_last());
        let r = releases_of(cur, Seq::<Seq<char>>::empty());
        assert(r[0] == ActionView::Release(cur.last()));
        assert forall|t: int| 0 <= t < cur.len() implies #[trigger] r[t] == ActionView::Release(
            cur[cur.len() - 1 - t],
        ) by {
            if t > 0 {
                assert(r[t] == releases_of(cur.drop_last(), Seq::<Seq<char>>::empty())[t - 1]);
                assert(cur.drop_last()[cur.drop_last().len() - 1 - (t - 1)] == cur[cur.len() - 1
                    - t]);
            }
        }
    }
}

/// Shape of the matched-index walk: every entry lies between the start
/// of the walk and the end of the rules, names an accepting rule, the
/// entries are strictly increasing, and only the last entry may name a
/// rule without fallthrough.
pub proof fn lemma_matched_from_props(rules: Seq<Rule>, w: WindowInfo, i: int)
    ensures
        forall|t: int|
            0 <= t < matched_from(rules, w, i).len() ==> i <= #[trigger] matched_from(
                rules,
                w,
                i,
            )[t] < rules.len(),
        forall|t: int|
            0 <= t < matched_from(rules, w, i).len() ==> rule_matches(
                rules[matched_from(rules, w, i)[t]],
                w,
            ),
        forall|t: int|
            0 <= t && t + 1 < matched_from(rules, w, i).len() ==> #[trigger] matched_from(
                rules,
                w,
                i,
            )[t] < matched_from(rules, w, i)[t + 1],
        forall|t: int|
            0 <= t < matched_from(rules, w, i).len() && !rules[matched_from(
                rules,
                w,
                i,
            )[t]].fallthrough ==> t == matched_from(rules, w, i).len() - 1,
    decreases rules.len() - i,
{
    let m = matched_from(rules, w, i);
    if i < 0 || i >= rules.len() {
    } else if rule_matches(rules[i], w) {
        if rules[i].fallthrough {
            lemma_matched_from_props(rules, w, i + 1);
            let m2 = matched_from(rules, w, i + 1);
            assert(m == seq![i] + m2);
            assert(m[0] == i);
            assert forall|t: int| 1 <= t < m.len() implies #[trigger] m[t] == m2[t - 1] by {}
            assert forall|t: int| 0 <= t && t + 1 < m.len() implies #[trigger] m[t] < m[t + 1] by {
                assert(m.len() == 1 + m2.len());
                if t == 0 {
                    assert(m[1] == m2[0]);
                    assert(i + 1 <= m2[0]);
                } else {
                    assert((seq![i] + m2)[t] == m2[t - 1]);
                    assert((seq![i] + m2)[t + 1] == m2[t]);
                    assert(matched_from(rules, w, i + 1)[t - 1] < matched_from(
                        rules,
                        w,
                        i + 1,
                    )[t]);
                }
            }
        }
    } else {
        lemma_matched_from_props(rules, w, i + 1);
        assert(m == matched_from(rules, w, i + 1));
    }
}

/// In every returned action list, every `ReleaseVk` stands strictly
/// before every `PressVk`: the evaluator never presses a key before it
/// has finished releasing.
pub proof fn lemma_releases_before_presses(
    rules: Seq<Rule>,
    native: Option<NativeTerminalRule>,
    st: EvalView,
    w: WindowInfo,
    d: Seq<char>,
)
    ensures
        forall|i: int, j: int|
            0 <= i < handle_spec(rules, native, st, w, d).actions.len() && 0 <= j < handle_spec(
                rules,
                native,
                st,
                w,
                d,
            ).actions.len() && (#[trigger] handle_spec(rules, native, st, w, d).actions[i])
                is Release && (#[trigger] handle_spec(rules, native, st, w, d).actions[j]) is Press
                ==> i < j,
{
    let acts = handle_spec(rules, native, st, w, d).actions;
    if w.is_native_terminal && native is Some {
        let nr = native->Some_0;
        let new_vks = match nr.virtual_key {
            Some(v) => seq![v@],
            None => Seq::<Seq<char>>::empty(),
        };
        let rel = releases_of(st.vks, new_vks);
        lemma_releases_only_releases(st.vks, new_vks);
        assert forall|t: int| rel.len() <= t < acts.len() implies !((#[trigger] acts[t])
            is Release) by {
            let raws = raw_emit(pairs_view(nr.raw_vk_action@));
            assert forall|u: int| 0 <= u < raws.len() implies !((#[trigger] raws[u]) is Release) by {
                assert(raws[u] == ActionView::Raw(
                    pairs_view(nr.raw_vk_action@)[u].0,
                    pairs_view(nr.raw_vk_action@)[u].1,
                ));
            }
        }
        assert forall|i: int, j: int|
            0 <= i < acts.len() && 0 <= j < acts.len() && (#[trigger] acts[i]) is Release && (
            #[trigger] acts[j]) is Press implies i < j by {
            assert(i < rel.len());
            assert(j >= rel.len());
        }
    } else if w.is_native_terminal || (w.class@.len() == 0 && w.title@.len() == 0) {
        let rel = releases_of(st.vks, Seq::<Seq<char>>::empty());
        lemma_releases_only_releases(st.vks, Seq::<Seq<char>>::empty());
        assert forall|i: int, j: int|
            0 <= i < acts.len() && 0 <= j < acts.len() && (#[trigger] acts[i]) is Release && (
            #[trigger] acts[j]) is Press implies i < j by {
            assert(i < rel.len());
            assert(j >= rel.len());
        }
    } else {
        let m = matched_from(rules, w, 0);
        let nv = vks_of(rules, m, Seq::empty());
        let rel = releases_of(st.vks, nv);
        lemma_releases_only_releases(st.vks, nv);
        lemma_new_actions_no_release(rules, m, st.matched, st.vks, Seq::empty());
        assert forall|i: int, j: int|
            0 <= i < acts.len() && 0 <= j < acts.len() && (#[trigger] acts[i]) is Release && (
            #[trigger] acts[j]) is Press implies i < j by {
            let newa = new_actions_of(rules, m, st.matched, st.vks, Seq::empty());
            if i >= rel.len() {
                if i < rel.len() + newa.len() {
                    assert(acts[i] == newa[i - rel.len()]);
                    assert(false);
                } else {
                    assert(acts[i] is Change);
                    assert(false);
                }
            }
            if j < rel.len() {
                assert(acts[j] is Release);
                assert(false);
            }
        }
    }
}

/// Feeding the unfocused window after any state leaves no virtual key
/// held: the evaluator's held-key list is empty afterwards.
pub proof fn lemma_unfocus_clears_vks(
    rules: Seq<Rule>,
    native: Option<NativeTerminalRule>,
    st: EvalView,
    d: Seq<char>,
    w: WindowInfo,
)
    requires
        !w.is_native_terminal,
        w.class@.len() == 0,
        w.title@.len() == 0,
    ensures
        handle_spec(rules, native, st, w, d).st.vks == Seq::<Seq<char>>::empty(),
{
}

/// A second evaluation of the same window from the state the first one
/// left behind yields an empty action list: focus events are
/// idempotent over window identity.
pub proof fn lemma_repeat_focus_no_actions(
    rules: Seq<Rule>,
    native: Option<NativeTerminalRule>,
    st: EvalView,
    w: WindowInfo,
    d: Seq<char>,
)
    ensures
        handle_spec(
            rules,
            native,
            handle_spec(rules, native, st, w, d).st,
            w,
            d,
        ).actions.len() == 0,
{
    let st1 = handle_spec(rules, native, st, w, d).st;
    let out2 = handle_spec(rules, native, st1, w, d);
    if w.is_native_terminal && native is Some {
        let nr = native->Some_0;
        let new_vks = match nr.virtual_key {
            Some(v) => seq![v@],
            None => Seq::<Seq<char>>::empty(),
        };
        assert(st1.vks == new_vks);
        assert forall|t: int| 0 <= t < st1.vks.len() implies new_vks.contains(
            #[trigger] st1.vks[t],
        ) by {}
        lemma_releases_of_kept(st1.vks, new_vks);
        assert(st1.matched == seq![NATIVE_TERMINAL_RULE_INDEX as int]);
        assert(out2.actions =~= Seq::<ActionView>::empty());
    } else if w.is_native_terminal || (w.class@.len() == 0 && w.title@.len() == 0) {
        assert(st1.vks == Seq::<Seq<char>>::empty());
        lemma_releases_of_kept(st1.vks, Seq::<Seq<char>>::empty());
        assert(st1.layer == d);
        assert(out2.actions =~= Seq::<ActionView>::empty());
    } else {
        let m = matched_from(rules, w, 0);
        let nv = vks_of(rules, m, Seq::empty());
        assert(st1.matched == m);
        assert(st1.vks == nv);
        assert forall|t: int| 0 <= t < st1.vks.len() implies nv.contains(#[trigger] st1.vks[t]) by {}
        lemma_releases_of_kept(st1.vks, nv);
        if m.len() == 0 {
            assert(st1.layer == d);
            assert(out2.actions =~= Seq::<ActionView>::empty());
        } else {
            assert forall|t: int| 0 <= t < m.len() implies m.contains(#[trigger] m[t]) by {}
            lemma_new_actions_all_old(rules, m, m, st1.vks, Seq::empty());
            assert(out2.actions =~= Seq::<ActionView>::empty());
        }
    }
}

/// A matching rule without fallthrough ends the matched-rule list: it
/// is the last matched index, nothing beyond it is matched, and every
/// accepting rule up to it is matched — the list is exactly the
/// accepting indices up to the stopping rule.
pub proof fn lemma_nonfallthrough_truncates(rules: Seq<Rule>, w: WindowInfo, k: int)
    requires
        matched_from(rules, w, 0).contains(k),
        !rules[k].fallthrough,
    ensures
        matched_from(rules, w, 0).last() == k,
        forall|j: int| matched_from(rules, w, 0).contains(j) ==> j <= k,
        forall|j: int|
            0 <= j <= k && rule_matches(rules[j], w) ==> matched_from(rules, w, 0).contains(j),
{
    let m = matched_from(rules, w, 0);
    lemma_matched_from_props(rules, w, 0);
    let t = choose|t: int| 0 <= t < m.len() && m[t] == k;
    assert(t == m.len() - 1);
    assert forall|j: int| m.contains(j) implies j <= k by {
        let u = choose|u: int| 0 <= u < m.len() && m[u] == j;
        assert forall|a: int, b: int| 0 <= a < b < m.len() implies m[a] < m[b] by {
            lemma_sorted_between(rules, w, a, b);
        }
        if u < m.len() - 1 {
            assert(m[u] < m[m.len() - 1]);
        }
    }
    assert forall|j: int| 0 <= j <= k && rule_matches(rules[j], w) implies m.contains(j) by {
        lemma_matched_from_complete(rules, w, 0, j, k);
    }
}

/// Between the start of the walk and a matched index, every accepting
/// rule is matched too: the walk skips only rules that do not accept.
proof fn lemma_matched_from_complete(rules: Seq<Rule>, w: WindowInfo, i: int, j: int, k: int)
    requires
        0 <= i <= j <= k,
        matched_from(rules, w, i).contains(k),
        rule_matches(rules[j], w),
    ensures
        matched_from(rules, w, i).contains(j),
    decreases j - i,
{
    let m = matched_from(rules, w, i);
    lemma_matched_from_props(rules, w, i);
    let tk = choose|t: int| 0 <= t < m.len() && m[t] == k;
    assert(i <= k < rules.len());
    if i == j {
        assert(m[0] == i);
        assert(m.contains(m[0]));
    } else {
        if rule_matches(rules[i], w) {
            if rules[i].fallthrough {
                let m2 = matched_from(rules, w, i + 1);
                assert(m == seq![i] + m2);
                assert(tk > 0);
                assert(m2[tk - 1] == k);
                assert(m2.contains(k));
                lemma_matched_from_complete(rules, w, i + 1, j, k);
                let tj = choose|t: int| 0 <= t < m2.len() && m2[t] == j;
                assert(m[tj + 1] == j);
                assert(m.contains(m[tj + 1]));
            } else {
                assert(m == seq![i]);
                assert(k == i);
                assert(false);
            }
        } else {
            assert(m == matched_from(rules, w, i + 1));
            lemma_matched_from_complete(rules, w, i + 1, j, k);
        }
    }
}

/// Strict order between any two positions of the matched list.
proof fn lemma_sorted_between(rules: Seq<Rule>, w: WindowInfo, a: int, b: int)
    requires
        0 <= a < b < matched_from(rules, w, 0).len(),
    ensures
        matched_from(rules, w, 0)[a] < matched_from(rules, w, 0)[b],
    decreases b - a,
{
    lemma_matched_from_props(rules, w, 0);
    if a + 1 == b {
    } else {
        lemma_sorted_between(rules, w, a, b - 1);
        let m = matched_from(rules, w, 0);
        assert(m[b - 1] < m[b]);
    }
}

/// A rule that does not match never stops the walk: the walk past it
/// continues exactly as from the next rule, and its index is never
/// matched.
pub proof fn lemma_nonmatching_does_not_truncate(rules: Seq<Rule>, w: WindowInfo, k: int)
    requires
        0 <= k < rules.len(),
        !rule_matches(rules[k], w),
    ensures
        matched_from(rules, w, k) == matched_from(rules, w, k + 1),
        !matched_from(rules, w, 0).contains(k),
{
    lemma_matched_from_props(rules, w, 0);
    if matched_from(rules, w, 0).contains(k) {
        let t = choose|t: int| 0 <= t < matched_from(rules, w, 0).len() && matched_from(
            rules,
            w,
            0,
        )[t] == k;
        assert(rule_matches(rules[k], w));
    }
}

/// A native-terminal event without a configured native-terminal rule
/// releases every held key in reverse press order, switches to the
/// default layer when it differs, and clears the matched-rule state.
pub proof fn lemma_native_terminal_without_rule(
    rules: Seq<Rule>,
    st: EvalView,
    w: WindowInfo,
    d: Seq<char>,
)
    requires
        w.is_native_terminal,
    ensures
        ({
            let out = handle_spec(rules, None, st, w, d);
            let n = st.vks.len() as int;
            &&& out.st.matched == Seq::<int>::empty()
            &&& out.st.vks == Seq::<Seq<char>>::empty()
            &&& out.st.layer == d
            &&& out.actions.len() >= n
            &&& forall|t: int|
                0 <= t < n ==> #[trigger] out.actions[t] == ActionView::Release(
                    st.vks[n - 1 - t],
                )
            &&& (d.len() > 0 && st.layer != d ==> out.actions.len() == n + 1 && out.actions[n]
                == ActionView::Change(d))
            &&& (!(d.len() > 0 && st.layer != d) ==> out.actions.len() == n)
        }),
{
    lemma_release_all(st.vks);
    let out = handle_spec(rules, None, st, w, d);
    let rel = releases_of(st.vks, Seq::<Seq<char>>::empty());
    assert forall|t: int| 0 <= t < st.vks.len() implies #[trigger] out.actions[t]
        == ActionView::Release(st.vks[st.vks.len() - 1 - t]) by {
        assert(out.actions[t] == rel[t]);
    }
}

/// No two entries of the sequence are the same character sequence.
pub open spec fn distinct_strs(s: Seq<Seq<char>>) -> bool {
    forall|a: int, b: int| 0 <= a < b < s.len() ==> s[a] != s[b]
}

/// Every release the release walk emits names a key of `cur`, and
/// when `cur` has no duplicate names, no two emitted releases are
/// equal.
proof fn lemma_releases_distinct(cur: Seq<Seq<char>>, keep: Seq<Seq<char>>)
    ensures
        forall|t: int|
            0 <= t < releases_of(cur, keep).len() ==> cur.contains(
                (#[trigger] releases_of(cur, keep)[t])->Release_0,
            ),
        distinct_strs(cur) ==> forall|i: int, j: int|
            0 <= i < j < releases_of(cur, keep).len() ==> #[trigger] releases_of(cur, keep)[i]
                != #[trigger] releases_of(cur, keep)[j],
    decreases cur.len(),
{
    lemma_releases_only_releases(cur, keep);
    if cur.len() > 0 {
        lemma_releases_distinct(cur.drop_last(), keep);
        let rel = releases_of(cur, keep);
        let rest = releases_of(cur.drop_last(), keep);
        let head_len: int = if keep.contains(cur.last()) {
            0
        } else {
            1
        };
        assert forall|t: int| 0 <= t < rel.len() implies cur.contains(
            (#[trigger] rel[t])->Release_0,
        ) by {
            if t < head_len {
                assert(rel[t] == ActionView::Release(cur.last()));
                assert(cur.contains(cur.last()));
            } else {
                assert(rel[t] == rest[t - head_len]);
                assert(cur.drop_last().contains(rest[t - head_len]->Release_0));
                let k = choose|k: int|
                    0 <= k < cur.drop_last().len() && cur.drop_last()[k] == rest[t
                        - head_len]->Release_0;
                assert(cur[k] == rest[t - head_len]->Release_0);
                assert(cur.contains(cur[k]));
            }
        }
        if distinct_strs(cur) {
            assert forall|a: int, b: int|
                0 <= a < b < cur.drop_last().len() implies cur.drop_last()[a]
                != cur.drop_last()[b] by {
                assert(cur.drop_last()[a] == cur[a]);
                assert(cur.drop_last()[b] == cur[b]);
            }
            assert(distinct_strs(cur.drop_last()));
            assert forall|i: int, j: int| 0 <= i < j < rel.len() implies #[trigger] rel[i]
                != #[trigger] rel[j] by {
                if i < head_len {
                    assert(rel[i] == ActionView::Release(cur.last()));
                    assert(rel[j] == rest[j - head_len]);
                    assert(cur.drop_last().contains(rest[j - head_len]->Release_0));
                    let k = choose|k: int|
                        0 <= k < cur.drop_last().len() && cur.drop_last()[k] == rest[j
                            - head_len]->Release_0;
                    assert(cur[k] != cur[cur.len() - 1]);
                    assert(rel[j]->Release_0 != cur.last());
                } else {
                    assert(rel[i] == rest[i - head_len]);
                    assert(rel[j] == rest[j - head_len]);
                }
            }
        }
    }
}

/// Where presses can occur within what one rule emits: at most one
/// position, naming the rule's own virtual key, and only when that
/// key is not already down.
proof fn lemma_rule_emit_press_shape(r: Rule, ov: Seq<Seq<char>>, pressed: Seq<Seq<char>>)
    ensures
        forall|t: int|
            0 <= t < rule_emit(r, ov, pressed).len() && (#[trigger] rule_emit(r, ov, pressed)[t])
                is Press ==> (r.virtual_key is Some && rule_emit(r, ov, pressed)[t]
                == ActionView::Press(r.virtual_key->Some_0@) && !ov.contains(
                r.virtual_key->Some_0@,
            ) && !pressed.contains(r.virtual_key->Some_0@)),
        forall|i: int, j: int|
            0 <= i < j < rule_emit(r, ov, pressed).len() && (#[trigger] rule_emit(
                r,
                ov,
                pressed,
            )[i]) is Press && (#[trigger] rule_emit(r, ov, pressed)[j]) is Press ==> false,
{
    let e = rule_emit(r, ov, pressed);
    let layer_part = match r.layer {
        Some(l) => seq![ActionView::Change(l@)],
        None => Seq::<ActionView>::empty(),
    };
    let press_part = match r.virtual_key {
        Some(v) => if ov.contains(v@) || pressed.contains(v@) {
            Seq::<ActionView>::empty()
        } else {
            seq![ActionView::Press(v@)]
        },
        None => Seq::<ActionView>::empty(),
    };
    let raws = raw_emit(rule_raws(r));
    assert forall|t: int| 0 <= t < e.len() && (#[trigger] e[t]) is Press implies (r.virtual_key
        is Some && e[t] == ActionView::Press(r.virtual_key->Some_0@) && !ov.contains(
        r.virtual_key->Some_0@,
    ) && !pressed.contains(r.virtual_key->Some_0@)) by {
        if t < layer_part.len() {
            assert(e[t] == layer_part[0]);
            assert(false);
        } else if t < layer_part.len() + press_part.len() {
            assert(e[t] == press_part[t - layer_part.len()]);
        } else {
            let u = t - layer_part.len() - press_part.len();
            assert(e[t] == raws[u]);
            assert(raws[u] == ActionView::Raw(rule_raws(r)[u].0, rule_raws(r)[u].1));
            assert(false);
        }
    }
    assert forall|i: int, j: int|
        0 <= i < j < e.len() && (#[trigger] e[i]) is Press && (#[trigger] e[j])
            is Press implies false by {
        assert(press_part.len() <= 1);
        if i < layer_part.len() {
            assert(e[i] == layer_part[0]);
        } else if i < layer_part.len() + press_part.len() {
            if j < layer_part.len() + press_part.len() {
                assert(j == i);
            } else {
                let u = j - layer_part.len() - press_part.len();
                assert(e[j] == raws[u]);
                assert(raws[u] == ActionView::Raw(rule_raws(r)[u].0, rule_raws(r)[u].1));
            }
        } else {
            let u = i - layer_part.len() - press_part.len();
            assert(e[i] == raws[u]);
            assert(raws[u] == ActionView::Raw(rule_raws(r)[u].0, rule_raws(r)[u].1));
        }
    }
}

/// Every press the new-rule walk emits names a key that was neither
/// held before the call nor pressed earlier in the call, and no two of
/// its presses are equal: each name is pressed at most once per action
/// list.
proof fn lemma_new_actions_press_distinct(
    rules: Seq<Rule>,
    idxs: Seq<int>,
    last: Seq<int>,
    ov: Seq<Seq<char>>,
    pressed: Seq<Seq<char>>,
)
    ensures
        forall|t: int|
            0 <= t < new_actions_of(rules, idxs, last, ov, pressed).len() && (
            #[trigger] new_actions_of(rules, idxs, last, ov, pressed)[t]) is Press ==> !pressed.contains(
                new_actions_of(rules, idxs, last, ov, pressed)[t]->Press_0,
            ) && !ov.contains(new_actions_of(rules, idxs, last, ov, pressed)[t]->Press_0),
        forall|i: int, j: int|
            0 <= i < j < new_actions_of(rules, idxs, last, ov, pressed).len() && (
            #[trigger] new_actions_of(rules, idxs, last, ov, pressed)[i]) is Press && (
            #[trigger] new_actions_of(rules, idxs, last, ov, pressed)[j]) is Press
                ==> new_actions_of(rules, idxs, last, ov, pressed)[i] != new_actions_of(
                rules,
                idxs,
                last,
                ov,
                pressed,
            )[j],
    decreases idxs.len(),
{
    if idxs.len() > 0 {
        let emit = !last.contains(idxs[0]);
        let r = rules[idxs[0]];
        let head: Seq<ActionView> = if emit {
            rule_emit(r, ov, pressed)
        } else {
            Seq::empty()
        };
        let rpn = rule_press_name(r, ov, pressed);
        let pressed2 = if emit {
            pressed + rpn
        } else {
            pressed
        };
        lemma_new_actions_press_distinct(rules, idxs.drop_first(), last, ov, pressed2);
        lemma_rule_emit_press_shape(r, ov, pressed);
        let na = new_actions_of(rules, idxs, last, ov, pressed);
        let rest = new_actions_of(rules, idxs.drop_first(), last, ov, pressed2);
        assert forall|x: Seq<char>| pressed.contains(x) implies pressed2.contains(x) by {
            let q = choose|q: int| 0 <= q < pressed.len() && pressed[q] == x;
            assert(pressed2[q] == x);
        }
        assert forall|t: int|
            0 <= t < na.len() && (#[trigger] na[t]) is Press implies !pressed.contains(
            na[t]->Press_0) && !ov.contains(na[t]->Press_0) by {
            if t < head.len() {
                assert(na[t] == head[t]);
            } else {
                assert(na[t] == rest[t - head.len()]);
                assert(!pressed2.contains(na[t]->Press_0));
            }
        }
        assert forall|i: int, j: int|
            0 <= i < j < na.len() && (#[trigger] na[i]) is Press && (#[trigger] na[j])
                is Press implies na[i] != na[j] by {
            if j < head.len() {
                assert(na[i] == head[i]);
                assert(na[j] == head[j]);
                assert(false);
            } else if i >= head.len() {
                assert(na[i] == rest[i - head.len()]);
                assert(na[j] == rest[j - head.len()]);
            } else {
                assert(emit);
                assert(na[i] == head[i]);
                assert(na[i] == ActionView::Press(r.virtual_key->Some_0@));
                assert(rpn == seq![r.virtual_key->Some_0@]);
                assert(pressed2[pressed.len() as int] == r.virtual_key->Some_0@);
                assert(pressed2.contains(r.virtual_key->Some_0@));
                assert(na[j] == rest[j - head.len()]);
                assert(!pressed2.contains(na[j]->Press_0));
            }
        }
    }
}

/// Every key the virtual-key walk collects is new — absent from
/// `seen` — and the collected list itself carries no duplicate name.
proof fn lemma_vks_of_distinct(rules: Seq<Rule>, idxs: Seq<int>, seen: Seq<Seq<char>>)
    ensures
        forall|t: int|
            0 <= t < vks_of(rules, idxs, seen).len() ==> !seen.contains(
                #[trigger] vks_of(rules, idxs, seen)[t],
            ),
        forall|a: int, b: int|
            0 <= a < b < vks_of(rules, idxs, seen).len() ==> vks_of(rules, idxs, seen)[a]
                != vks_of(rules, idxs, seen)[b],
    decreases idxs.len(),
{
    if idxs.len() > 0 {
        let head = match rules[idxs[0]].virtual_key {
            Some(v) => if seen.contains(v@) {
                Seq::<Seq<char>>::empty()
            } else {
                seq![v@]
            },
            None => Seq::<Seq<char>>::empty(),
        };
        let seen2 = seen + head;
        lemma_vks_of_distinct(rules, idxs.drop_first(), seen2);
        let v = vks_of(rules, idxs, seen);
        let rest = vks_of(rules, idxs.drop_first(), seen2);
        assert forall|x: Seq<char>| seen.contains(x) implies seen2.contains(x) by {
            let q = choose|q: int| 0 <= q < seen.len() && seen[q] == x;
            assert(seen2[q] == x);
        }
        assert forall|t: int| 0 <= t < v.len() implies !seen.contains(#[trigger] v[t]) by {
            if t < head.len() {
                assert(v[t] == head[0]);
            } else {
                assert(v[t] == rest[t - head.len()]);
                assert(!seen2.contains(v[t]));
            }
        }
        assert forall|a: int, b: int| 0 <= a < b < v.len() implies v[a] != v[b] by {
            if b < head.len() {
                assert(false);
            } else if a >= head.len() {
                assert(v[a] == rest[a - head.len()]);
                assert(v[b] == rest[b - head.len()]);
            } else {
                assert(v[a] == head[0]);
                assert(seen2[seen.len() as int] == head[0]);
                assert(seen2.contains(head[0]));
                assert(v[b] == rest[b - head.len()]);
                assert(!seen2.contains(v[b]));
            }
        }
    }
}

/// Every evaluation leaves a held-key list without duplicate names;
/// starting from the fresh (empty) state, the hypothesis of
/// [`lemma_vk_named_once`] therefore holds at every step.
pub proof fn lemma_handle_preserves_distinct_vks(
    rules: Seq<Rule>,
    native: Option<NativeTerminalRule>,
    st: EvalView,
    w: WindowInfo,
    d: Seq<char>,
)
    ensures
        distinct_strs(handle_spec(rules, native, st, w, d).st.vks),
{
    if w.is_native_terminal && native is Some {
        let vks = handle_spec(rules, native, st, w, d).st.vks;
        assert(vks.len() <= 1);
    } else if w.is_native_terminal || (w.class@.len() == 0 && w.title@.len() == 0) {
    } else {
        let m = matched_from(rules, w, 0);
        lemma_vks_of_distinct(rules, m, Seq::empty());
        assert(distinct_strs(vks_of(rules, m, Seq::empty())));
    }
}

/// In every returned action list, a virtual-key name appears in at
/// most one `PressVk` and at most one `ReleaseVk`.  The one
/// hypothesis — the held keys carry no duplicate name — is exactly the
/// invariant [`lemma_handle_preserves_distinct_vks`] re-establishes
/// after every evaluation, starting from the fresh (empty) state.
pub proof fn lemma_vk_named_once(
    rules: Seq<Rule>,
    native: Option<NativeTerminalRule>,
    st: EvalView,
    w: WindowInfo,
    d: Seq<char>,
)
    requires
        distinct_strs(st.vks),
    ensures
        forall|i: int, j: int|
            0 <= i < j < handle_spec(rules, native, st, w, d).actions.len() && #[trigger] handle_spec(
                rules,
                native,
                st,
                w,
                d,
            ).actions[i] == #[trigger] handle_spec(rules, native, st, w, d).actions[j] ==> !(
            handle_spec(rules, native, st, w, d).actions[i] is Press) && !(handle_spec(
                rules,
                native,
                st,
                w,
                d,
            ).actions[i] is Release),
{
    let acts = handle_spec(rules, native, st, w, d).actions;
    if w.is_native_terminal && native is Some {
        let nr = native->Some_0;
        let new_vks = match nr.virtual_key {
            Some(v) => seq![v@],
            None => Seq::<Seq<char>>::empty(),
        };
        let rel = releases_of(st.vks, new_vks);
        lemma_releases_distinct(st.vks, new_vks);
        lemma_releases_only_releases(st.vks, new_vks);
        let raws = raw_emit(pairs_view(nr.raw_vk_action@));
        assert forall|u: int| 0 <= u < raws.len() implies !((#[trigger] raws[u]) is Press) && !(
        raws[u] is Release) by {
            assert(raws[u] == ActionView::Raw(
                pairs_view(nr.raw_vk_action@)[u].0,
                pairs_view(nr.raw_vk_action@)[u].1,
            ));
        }
        assert forall|i: int, j: int|
            0 <= i < j < acts.len() && #[trigger] acts[i] == #[trigger] acts[j] implies !(acts[i]
            is Press) && !(acts[i] is Release) by {
            if acts[i] is Release {
                assert(i < rel.len() && j < rel.len());
                assert(rel[i] != rel[j]);
                assert(false);
            }
            if acts[i] is Press {
                // At most one press position exists in the emitted tail.
                assert(i >= rel.len() && j >= rel.len());
                let e = acts.subrange(rel.len() as int, acts.len() as int);
                assert(acts[i] == e[i - rel.len()]);
                assert(acts[j] == e[j - rel.len()]);
                assert forall|a: int, b: int|
                    0 <= a < b < e.len() && (#[trigger] e[a]) is Press && (#[trigger] e[b])
                        is Press implies false by {
                    let layer_part = if nr.layer@.len() > 0 && st.layer != nr.layer@ {
                        seq![ActionView::Change(nr.layer@)]
                    } else {
                        Seq::<ActionView>::empty()
                    };
                    let press_part = match nr.virtual_key {
                        Some(v) => if st.vks.contains(v@) {
                            Seq::<ActionView>::empty()
                        } else {
                            seq![ActionView::Press(v@)]
                        },
                        None => Seq::<ActionView>::empty(),
                    };
                    assert(press_part.len() <= 1);
                    if a < layer_part.len() {
                        assert(e[a] == layer_part[0]);
                    } else if a < layer_part.len() + press_part.len() {
                        if b < layer_part.len() + press_part.len() {
                            assert(a == b);
                        } else {
                            assert(e[b] == raws[b - layer_part.len() - press_part.len()]);
                        }
                    } else {
                        assert(e[a] == raws[a - layer_part.len() - press_part.len()]);
                    }
                }
                assert(false);
            }
        }
    } else if w.is_native_terminal || (w.class@.len() == 0 && w.title@.len() == 0) {
        let rel = releases_of(st.vks, Seq::<Seq<char>>::empty());
        lemma_releases_distinct(st.vks, Seq::<Seq<char>>::empty());
        lemma_releases_only_releases(st.vks, Seq::<Seq<char>>::empty());
        assert forall|i: int, j: int|
            0 <= i < j < acts.len() && #[trigger] acts[i] == #[trigger] acts[j] implies !(acts[i]
            is Press) && !(acts[i] is Release) by {
            if acts[i] is Release {
                assert(i < rel.len() && j < rel.len());
                assert(rel[i] != rel[j]);
                assert(false);
            }
            if acts[i] is Press {
                if i >= rel.len() {
                    assert(acts[i] is Change);
                }
                assert(false);
            }
        }
    } else {
        let m = matched_from(rules, w, 0);
        let nv = vks_of(rules, m, Seq::empty());
        let rel = releases_of(st.vks, nv);
        let newa = new_actions_of(rules, m, st.matched, st.vks, Seq::empty());
        lemma_releases_distinct(st.vks, nv);
        lemma_releases_only_releases(st.vks, nv);
        lemma_new_actions_no_release(rules, m, st.matched, st.vks, Seq::empty());
        lemma_new_actions_press_distinct(rules, m, st.matched, st.vks, Seq::empty());
        assert forall|i: int, j: int|
            0 <= i < j < acts.len() && #[trigger] acts[i] == #[trigger] acts[j] implies !(acts[i]
            is Press) && !(acts[i] is Release) by {
            if acts[i] is Release {
                if i >= rel.len() {
                    if i < rel.len() + newa.len() {
                        assert(acts[i] == newa[i - rel.len()]);
                    } else {
                        assert(acts[i] is Change);
                    }
                    assert(false);
                }
                if j >= rel.len() {
                    if j < rel.len() + newa.len() {
                        assert(acts[j] == newa[j - rel.len()]);
                    } else {
                        assert(acts[j] is Change);
                    }
                    assert(false);
                }
                assert(rel[i] != rel[j]);
                assert(false);
            }
            if acts[i] is Press {
                if i < rel.len() {
                    assert(acts[i] == rel[i]);
                    assert(false);
                }
                if j < rel.len() {
                    assert(acts[j] == rel[j]);
                    assert(false);
                }
                if i >= rel.len() + newa.len() {
                    assert(acts[i] is Change);
                    assert(false);
                }
                if j >= rel.len() + newa.len() {
                    assert(acts[j] is Change);
                    assert(false);
                }
                assert(acts[i] == newa[i - rel.len()]);
                assert(acts[j] == newa[j - rel.len()]);
                assert(newa[i - rel.len()] != newa[j - rel.len()]);
                assert(false);
            }
        }
    }
}

/// Whether an index occurs in a vector of indices.
fn vec_usize_contains(v: &Vec<usize>, x: usize) -> (b: bool)
    ensures
        b == idxs_view(v@).contains(x as int),
{
    let mut i: usize = 0;
    while i < v.len()
        invariant
            i <= v@.len(),
            forall|k: int| 0 <= k < i ==> v@[k] != x,
        decreases v@.len() - i,
    {
        if v[i] == x {
            proof {
                assert(idxs_view(v@)[i as int] == x as int);
            }
            return true;
        }
        i = i + 1;
    }
    proof {
        assert forall|k: int| 0 <= k < idxs_view(v@).len() implies idxs_view(v@)[k] != x as int by {
            assert(v@[k] != x);
        }
    }
    false
}

/// Index-wise equality of two index vectors.
fn vec_usize_eq(a: &Vec<usize>, b: &Vec<usize>) -> (r: bool)
    ensures
        r == (idxs_view(a@) == idxs_view(b@)),
{
    if a.len() != b.len() {
        proof {
            assert(idxs_view(a@).len() != idxs_view(b@).len());
        }
        return false;
    }
    let mut i: usize = 0;
    while i < a.len()
        invariant
            a@.len() == b@.len(),
            i <= a@.len(),
            forall|k: int| 0 <= k < i ==> a@[k] == b@[k],
        decreases a@.len() - i,
    {
        if a[i] != b[i] {
            proof {
                assert(idxs_view(a@)[i as int] != idxs_view(b@)[i as int]);
            }
            return false;
        }
        i = i + 1;
    }
    proof {
        assert(idxs_view(a@) =~= idxs_view(b@));
    }
    true
}

/// Walks the rules in order and returns the indices of those that
/// accept the window, stopping after an accepting rule without
/// fallthrough.
fn compute_matched(rules: &Vec<Rule>, win: &WindowInfo) -> (m: Vec<usize>)
    ensures
        idxs_view(m@) == matched_from(rules@, *win, 0),
        forall|k: int| 0 <= k < m@.len() ==> (#[trigger] m@[k]) < rules@.len(),
{
    let mut m: Vec<usize> = Vec::new();
    let mut i: usize = 0;
    let mut stopped: bool = false;
    while i < rules.len() && !stopped
        invariant
            i <= rules@.len(),
            forall|k: int| 0 <= k < m@.len() ==> (#[trigger] m@[k]) < rules@.len(),
            !stopped ==> matched_from(rules@, *win, 0) == idxs_view(m@) + matched_from(
                rules@,
                *win,
                i as int,
            ),
            stopped ==> matched_from(rules@, *win, 0) == idxs_view(m@),
        decreases rules@.len() - i,
    {
        let ghost pre = idxs_view(m@);
        if rule_accepts(&rules[i], win) {
            m.push(i);
            proof {
                assert(idxs_view(m@) =~= pre.push(i as int));
            }
            if !rules[i].fallthrough {
                stopped = true;
                proof {
                    assert(matched_from(rules@, *win, i as int) =~= seq![i as int]);
                    assert(idxs_view(m@) =~= pre + seq![i as int]);
                }
            } else {
                proof {
                    assert(matched_from(rules@, *win, i as int) == seq![i as int] + matched_from(
                        rules@,
                        *win,
                        i as int + 1,
                    ));
                    assert(pre.push(i as int) =~= pre + seq![i as int]);
                    assert(idxs_view(m@) + matched_from(rules@, *win, i as int + 1) =~= pre
                        + matched_from(rules@, *win, i as int));
                }
            }
        } else {
            proof {
                assert(matched_from(rules@, *win, i as int) == matched_from(
                    rules@,
                    *win,
                    i as int + 1,
                ));
            }
        }
        i = i + 1;
    }
    proof {
        if !stopped {
            assert(matched_from(rules@, *win, i as int) =~= Seq::<int>::empty());
            assert(idxs_view(m@) + matched_from(rules@, *win, i as int) =~= idxs_view(m@));
        }
    }
    m
}

/// Collects the virtual keys of the rules at the matched indices, in
/// order.
fn collect_vks(rules: &Vec<Rule>, m: &Vec<usize>) -> (v: Vec<String>)
    requires
        forall|k: int| 0 <= k < m@.len() ==> (#[trigger] m@[k]) < rules@.len(),
    ensures
        strs_view(v@) == vks_of(rules@, idxs_view(m@), Seq::empty()),
{
    let ghost mseq = idxs_view(m@);
    let mut v: Vec<String> = Vec::new();
    let mut t: usize = 0;
    proof {
        assert(mseq.skip(0) =~= mseq);
        assert(strs_view(v@) =~= Seq::<Seq<char>>::empty());
        assert(strs_view(v@) + vks_of(rules@, mseq, strs_view(v@)) =~= vks_of(
            rules@,
            mseq,
            Seq::empty(),
        ));
    }
    while t < m.len()
        invariant
            t <= m@.len(),
            mseq == idxs_view(m@),
            forall|k: int| 0 <= k < m@.len() ==> (#[trigger] m@[k]) < rules@.len(),
            vks_of(rules@, mseq, Seq::empty()) == strs_view(v@) + vks_of(
                rules@,
                mseq.skip(t as int),
                strs_view(v@),
            ),
        decreases m@.len() - t,
    {
        let ghost pre = strs_view(v@);
        let ghost rest = mseq.skip(t as int);
        proof {
            assert(rest[0] == mseq[t as int]);
            assert(rest.drop_first() =~= mseq.skip(t as int + 1));
        }
        match &rules[m[t]].virtual_key {
            Some(vk) => {
                let dup = vec_has_string(&v, vk);
                proof {
                    lemma_strs_view_contains(v@, vk@);
                }
                if !dup {
                    let c = clone_string(vk);
                    v.push(c);
                    proof {
                        assert(strs_view(v@) =~= pre.push(vk@));
                        assert(pre.push(vk@) =~= pre + seq![vk@]);
                        assert(vks_of(rules@, rest, pre) == seq![vk@] + vks_of(
                            rules@,
                            rest.drop_first(),
                            pre + seq![vk@],
                        ));
                        assert(pre + vks_of(rules@, rest, pre) =~= strs_view(v@) + vks_of(
                            rules@,
                            mseq.skip(t as int + 1),
                            strs_view(v@),
                        ));
                    }
                } else {
                    proof {
                        assert(pre + Seq::<Seq<char>>::empty() =~= pre);
                        assert(vks_of(rules@, rest, pre) == vks_of(
                            rules@,
                            rest.drop_first(),
                            pre,
                        ));
                    }
                }
            },
            None => {
                proof {
                    assert(pre + Seq::<Seq<char>>::empty() =~= pre);
                    assert(vks_of(rules@, rest, pre) == vks_of(rules@, rest.drop_first(), pre));
                }
            },
        }
        t = t + 1;
    }
    proof {
        assert(mseq.skip(t as int) =~= Seq::<int>::empty());
        assert(strs_view(v@) + vks_of(rules@, mseq.skip(t as int), strs_view(v@)) =~= strs_view(
            v@,
        ));
    }
    v
}

/// Collects the layers of the rules at the matched indices, in order.
fn collect_layers(rules: &Vec<Rule>, m: &Vec<usize>) -> (v: Vec<String>)
    requires
        forall|k: int| 0 <= k < m@.len() ==> (#[trigger] m@[k]) < rules@.len(),
    ensures
        strs_view(v@) == layers_of(rules@, idxs_view(m@)),
{
    let ghost mseq = idxs_view(m@);
    let mut v: Vec<String> = Vec::new();
    let mut t: usize = 0;
    proof {
        assert(mseq.skip(0) =~= mseq);
        assert(strs_view(v@) + layers_of(rules@, mseq) =~= layers_of(rules@, mseq));
    }
    while t < m.len()
        invariant
            t <= m@.len(),
            mseq == idxs_view(m@),
            forall|k: int| 0 <= k < m@.len() ==> (#[trigger] m@[k]) < rules@.len(),
            layers_of(rules@, mseq) == strs_view(v@) + layers_of(rules@, mseq.skip(t as int)),
        decreases m@.len() - t,
    {
        let ghost pre = strs_view(v@);
        let ghost rest = mseq.skip(t as int);
        proof {
            assert(rest[0] == mseq[t as int]);
            assert(rest.drop_first() =~= mseq.skip(t as int + 1));
        }
        match &rules[m[t]].layer {
            Some(l) => {
                let c = clone_string(l);
                v.push(c);
                proof {
                    assert(strs_view(v@) =~= pre.push(l@));
                    assert(pre.push(l@) =~= pre + seq![l@]);
                    assert(layers_of(rules@, rest) == seq![l@] + layers_of(
                        rules@,
                        rest.drop_first(),
                    ));
                    assert(pre + layers_of(rules@, rest) =~= strs_view(v@) + layers_of(
                        rules@,
                        mseq.skip(t as int + 1),
                    ));
                }
            },
            None => {
                proof {
                    assert(layers_of(rules@, rest) == layers_of(rules@, rest.drop_first()));
                }
            },
        }
        t = t + 1;
    }
    proof {
        assert(mseq.skip(t as int) =~= Seq::<int>::empty());
        assert(strs_view(v@) + layers_of(rules@, mseq.skip(t as int)) =~= strs_view(v@));
    }
    v
}

/// Appends release actions for the keys in `cur` absent from `keep`,
/// walking `cur` in reverse press order.
pub(crate) fn push_releases(cur: &Vec<String>, keep: &Vec<String>, out: &mut Vec<FocusAction>)
    ensures
        acts_view(final(out)@) == acts_view(old(out)@) + releases_of(
            strs_view(cur@),
            strs_view(keep@),
        ),
{
    let ghost curv = strs_view(cur@);
    let ghost keepv = strs_view(keep@);
    let ghost base = acts_view(out@);
    let mut k: usize = cur.len();
    proof {
        assert(curv.subrange(0, k as int) =~= curv);
    }
    while k > 0
        invariant
            k <= cur@.len(),
            curv == strs_view(cur@),
            keepv == strs_view(keep@),
            base + releases_of(curv, keepv) == acts_view(out@) + releases_of(
                curv.subrange(0, k as int),
                keepv,
            ),
        decreases k,
    {
        k = k - 1;
        let ghost prefix = curv.subrange(0, k as int + 1);
        proof {
            assert(prefix.last() == curv[k as int]);
            assert(prefix.drop_last() =~= curv.subrange(0, k as int));
        }
        let ghost pre_out = acts_view(out@);
        let held = vec_has_string(keep, &cur[k]);
        proof {
            lemma_strs_view_contains(keep@, cur@[k as int]@);
            assert(held == keepv.contains(prefix.last()));
        }
        if !held {
            let a = FocusAction::ReleaseVk(clone_string(&cur[k]));
            proof {
                assert(act_view(a) == ActionView::Release(curv[k as int]));
            }
            out.push(a);
            proof {
                assert(acts_view(out@) =~= pre_out.push(ActionView::Release(curv[k as int])));
                assert(releases_of(prefix, keepv) == seq![
                    ActionView::Release(curv[k as int]),
                ] + releases_of(curv.subrange(0, k as int), keepv));
                assert(pre_out + releases_of(prefix, keepv) =~= acts_view(out@) + releases_of(
                    curv.subrange(0, k as int),
                    keepv,
                ));
            }
        } else {
            proof {
                assert(releases_of(prefix, keepv) =~= releases_of(
                    curv.subrange(0, k as int),
                    keepv,
                ));
            }
        }
    }
    proof {
        assert(curv.subrange(0, 0) =~= Seq::<Seq<char>>::empty());
        assert(releases_of(curv.subrange(0, 0), keepv) =~= Seq::<ActionView>::empty());
        assert(acts_view(out@) + releases_of(curv.subrange(0, 0), keepv) =~= acts_view(out@));
    }
}

/// Appends the raw virtual-key actions of one rule, in order.
fn push_raw_actions(raws: &Vec<(String, String)>, out: &mut Vec<FocusAction>)
    ensures
        acts_view(final(out)@) == acts_view(old(out)@) + raw_emit(pairs_view(raws@)),
{
    let ghost rw = pairs_view(raws@);
    let ghost mid_out = acts_view(out@);
    let mut j: usize = 0;
    proof {
        assert(rw.subrange(0, 0) =~= Seq::<(Seq<char>, Seq<char>)>::empty());
        assert(raw_emit(rw.subrange(0, 0)) =~= Seq::<ActionView>::empty());
        assert(acts_view(out@) =~= mid_out + raw_emit(rw.subrange(0, 0)));
    }
    while j < raws.len()
        invariant
            j <= raws@.len(),
            rw == pairs_view(raws@),
            acts_view(out@) == mid_out + raw_emit(rw.subrange(0, j as int)),
        decreases raws@.len() - j,
    {
        let ghost pre_in = acts_view(out@);
        let name = clone_string(&raws[j].0);
        let action = clone_string(&raws[j].1);
        out.push(FocusAction::RawVkAction(name, action));
        proof {
            assert(acts_view(out@) =~= pre_in.push(
                ActionView::Raw(raws@[j as int].0@, raws@[j as int].1@),
            ));
            assert(raw_emit(rw.subrange(0, j as int + 1)) =~= raw_emit(
                rw.subrange(0, j as int),
            ).push(ActionView::Raw(rw[j as int].0, rw[j as int].1)));
            assert(acts_view(out@) =~= mid_out + raw_emit(rw.subrange(0, j as int + 1)));
        }
        j = j + 1;
    }
    proof {
        assert(rw.subrange(0, j as int) =~= rw);
    }
}

/// Appends the actions of the newly matched rules: for each matched
/// index not previously matched, the rule's layer, a guarded press of
/// its virtual key — skipped when the key is held or was already
/// pressed by an earlier rule of this call — and its raw actions, in
/// rule order.
fn push_new_rule_actions(
    rules: &Vec<Rule>,
    m: &Vec<usize>,
    last: &Vec<usize>,
    old_vks: &Vec<String>,
    out: &mut Vec<FocusAction>,
)
    requires
        forall|k: int| 0 <= k < m@.len() ==> (#[trigger] m@[k]) < rules@.len(),
    ensures
        acts_view(final(out)@) == acts_view(old(out)@) + new_actions_of(
            rules@,
            idxs_view(m@),
            idxs_view(last@),
            strs_view(old_vks@),
            Seq::empty(),
        ),
{
    let ghost mseq = idxs_view(m@);
    let ghost lastv = idxs_view(last@);
    let ghost ov = strs_view(old_vks@);
    let ghost base = acts_view(out@);
    let mut pressed: Vec<String> = Vec::new();
    let mut t: usize = 0;
    proof {
        assert(mseq.skip(0) =~= mseq);
        assert(strs_view(pressed@) =~= Seq::<Seq<char>>::empty());
        assert(new_actions_of(rules@, mseq, lastv, ov, strs_view(pressed@)) == new_actions_of(
            rules@,
            mseq,
            lastv,
            ov,
            Seq::empty(),
        ));
    }
    while t < m.len()
        invariant
            t <= m@.len(),
            mseq == idxs_view(m@),
            lastv == idxs_view(last@),
            ov == strs_view(old_vks@),
            forall|k: int| 0 <= k < m@.len() ==> (#[trigger] m@[k]) < rules@.len(),
            base + new_actions_of(rules@, mseq, lastv, ov, Seq::empty()) == acts_view(out@)
                + new_actions_of(rules@, mseq.skip(t as int), lastv, ov, strs_view(pressed@)),
        decreases m@.len() - t,
    {
        let ghost rest = mseq.skip(t as int);
        let ghost pv = strs_view(pressed@);
        proof {
            assert(rest[0] == mseq[t as int]);
            assert(rest.drop_first() =~= mseq.skip(t as int + 1));
        }
        let ghost pre_out = acts_view(out@);
        let idx = m[t];
        let is_new = !vec_usize_contains(last, idx);
        if is_new {
            let ghost r = rules@[idx as int];
            // Layer change.
            match &rules[idx].layer {
                Some(l) => {
                    out.push(FocusAction::ChangeLayer(clone_string(l)));
                },
                None => {},
            }
            // Virtual key: press unless already down.
            match &rules[idx].virtual_key {
                Some(vk) => {
                    let held = vec_has_string(old_vks, vk);
                    let done = vec_has_string(&pressed, vk);
                    proof {
                        lemma_strs_view_contains(old_vks@, vk@);
                        lemma_strs_view_contains(pressed@, vk@);
                    }
                    if !held && !done {
                        out.push(FocusAction::PressVk(clone_string(vk)));
                        pressed.push(clone_string(vk));
                        proof {
                            assert(strs_view(pressed@) =~= pv.push(vk@));
                            assert(pv.push(vk@) =~= pv + rule_press_name(r, ov, pv));
                        }
                    } else {
                        proof {
                            assert(rule_press_name(r, ov, pv) =~= Seq::<Seq<char>>::empty());
                            assert(pv + rule_press_name(r, ov, pv) =~= pv);
                        }
                    }
                },
                None => {
                    proof {
                        assert(rule_press_name(r, ov, pv) =~= Seq::<Seq<char>>::empty());
                        assert(pv + rule_press_name(r, ov, pv) =~= pv);
                    }
                },
            }
            proof {
                let layer_part = match r.layer {
                    Some(l) => seq![ActionView::Change(l@)],
                    None => Seq::<ActionView>::empty(),
                };
                let press_part = match r.virtual_key {
                    Some(v) => if ov.contains(v@) || pv.contains(v@) {
                        Seq::<ActionView>::empty()
                    } else {
                        seq![ActionView::Press(v@)]
                    },
                    None => Seq::<ActionView>::empty(),
                };
                assert(acts_view(out@) =~= pre_out + layer_part + press_part);
            }
            // Raw virtual-key actions, in order.
            let ghost mid_out = acts_view(out@);
            match &rules[idx].raw_vk_action {
                Some(raws) => {
                    push_raw_actions(raws, out);
                    proof {
                        assert(raw_emit(pairs_view(raws@)) =~= raw_emit(rule_raws(r)));
                    }
                },
                None => {
                    proof {
                        assert(raw_emit(rule_raws(r)) =~= Seq::<ActionView>::empty());
                        assert(acts_view(out@) =~= mid_out + raw_emit(rule_raws(r)));
                    }
                },
            }
            proof {
                assert(acts_view(out@) =~= pre_out + rule_emit(r, ov, pv));
                assert(strs_view(pressed@) == pv + rule_press_name(r, ov, pv));
                assert(new_actions_of(rules@, rest, lastv, ov, pv) == rule_emit(r, ov, pv)
                    + new_actions_of(rules@, rest.drop_first(), lastv, ov, pv + rule_press_name(
                    r,
                    ov,
                    pv,
                )));
                assert(pre_out + new_actions_of(rules@, rest, lastv, ov, pv) =~= acts_view(out@)
                    + new_actions_of(
                    rules@,
                    mseq.skip(t as int + 1),
                    lastv,
                    ov,
                    strs_view(pressed@),
                ));
            }
        } else {
            proof {
                assert(new_actions_of(rules@, rest, lastv, ov, pv) == new_actions_of(
                    rules@,
                    rest.drop_first(),
                    lastv,
                    ov,
                    pv,
                ));
            }
        }
        t = t + 1;
    }
    proof {
        assert(mseq.skip(t as int) =~= Seq::<int>::empty());
        assert(acts_view(out@) + new_actions_of(
            rules@,
            mseq.skip(t as int),
            lastv,
            ov,
            strs_view(pressed@),
        ) =~= acts_view(out@));
    }
}

/// The layer named by the last `ChangeLayer` already in the action
/// list, if any.
pub(crate) fn last_change_exec(out: &Vec<FocusAction>) -> (r: Option<String>)
    ensures
        opt_view(r) == last_change(acts_view(out@)),
{
    let ghost full = acts_view(out@);
    let mut k: usize = out.len();
    proof {
        assert(full.subrange(0, k as int) =~= full);
    }
    while k > 0
        invariant
            k <= out@.len(),
            full == acts_view(out@),
            last_change(full) == last_change(full.subrange(0, k as int)),
        decreases k,
    {
        k = k - 1;
        let ghost prefix = full.subrange(0, k as int + 1);
        proof {
            assert(prefix.last() == full[k as int]);
            assert(prefix.drop_last() =~= full.subrange(0, k as int));
        }
        match &out[k] {
            FocusAction::ChangeLayer(l) => {
                proof {
                    assert(full[k as int] == ActionView::Change(l@));
                    assert(last_change(prefix) == Some(l@));
                }
                return Some(clone_string(l));
            },
            _ => {
                proof {
                    assert(last_change(prefix) == last_change(full.subrange(0, k as int)));
                }
            },
        }
    }
    proof {
        assert(full.subrange(0, 0) =~= Seq::<ActionView>::empty());
    }
    None
}

/// The rule evaluator.  Owns the configured rules and the mutable
/// matching state: which rule indices matched the previous focus, the
/// last effective layer, and the held virtual keys in press order.
#[derive(Debug)]
pub struct FocusHandler {
    pub rules: Vec<Rule>,
    pub native_terminal_rule: Option<NativeTerminalRule>,
    pub last_class: String,
    pub last_title: String,
    pub last_matched_rules: Vec<usize>,
    pub last_effective_layer: String,
    pub current_virtual_keys: Vec<String>,
}

/// Spec-level snapshot of an evaluator's mutable state.
pub open spec fn eval_view(h: FocusHandler) -> EvalView {
    EvalView {
        last_class: h.last_class@,
        last_title: h.last_title@,
        matched: idxs_view(h.last_matched_rules@),
        layer: h.last_effective_layer@,
        vks: strs_view(h.current_virtual_keys@),
    }
}

/// What one evaluation call promises: the configuration is untouched,
/// the state moves to the spec outcome's state, and the returned
/// actions are exactly the spec outcome's actions, with `None` standing
/// for an empty action list.
pub open spec fn eval_result_ok(
    h0: FocusHandler,
    h1: FocusHandler,
    r: Option<FocusActions>,
    out: HandleOutcome,
) -> bool {
    &&& h1.rules == h0.rules
    &&& h1.native_terminal_rule == h0.native_terminal_rule
    &&& eval_view(h1) == out.st
    &&& (r is Some) == (out.actions.len() > 0)
    &&& match r {
        Some(a) => acts_view(a.actions@) == out.actions && strs_view(a.new_managed_vks@)
            == out.st.vks,
        None => true,
    }
}

impl FocusHandler {
    /// A fresh evaluator over the given rules.
    pub fn new(rules: Vec<Rule>, native_terminal_rule: Option<NativeTerminalRule>) -> (h:
        FocusHandler)
        ensures
            h.rules == rules,
            h.native_terminal_rule == native_terminal_rule,
            eval_view(h) == fresh_view(),
    {
        let h = FocusHandler {
            rules,
            native_terminal_rule,
            last_class: String::new(),
            last_title: String::new(),
            last_matched_rules: Vec::new(),
            last_effective_layer: String::new(),
            current_virtual_keys: Vec::new(),
        };
        proof {
            assert(idxs_view(h.last_matched_rules@) =~= Seq::<int>::empty());
            assert(strs_view(h.current_virtual_keys@) =~= Seq::<Seq<char>>::empty());
            assert(eval_view(h) =~= fresh_view());
        }
        h
    }

    /// The held virtual keys, in press order.
    pub fn current_virtual_keys(&self) -> (r: Vec<String>)
        ensures
            r@ == self.current_virtual_keys@,
    {
        clone_string_vec(&self.current_virtual_keys)
    }

    /// Clears the matching state; the configured rules are preserved.
    pub fn reset(&mut self)
        ensures
            final(self).rules == old(self).rules,
            final(self).native_terminal_rule == old(self).native_terminal_rule,
            eval_view(*final(self)) == fresh_view(),
    {
        self.last_class = String::new();
        self.last_title = String::new();
        self.last_matched_rules = Vec::new();
        self.last_effective_layer = String::new();
        self.current_virtual_keys = Vec::new();
        proof {
            assert(idxs_view(self.last_matched_rules@) =~= Seq::<int>::empty());
            assert(strs_view(self.current_virtual_keys@) =~= Seq::<Seq<char>>::empty());
            assert(eval_view(*self) =~= fresh_view());
        }
    }

    /// Evaluation of the unfocused window: releases every held key in
    /// reverse press order, switches to the default layer when it
    /// differs from the last effective layer, clears matched state.
    fn handle_unfocused(&mut self, default_layer: &str) -> (r: Option<FocusActions>)
        ensures
            eval_result_ok(
                *old(self),
                *final(self),
                r,
                unfocused_spec(eval_view(*old(self)), default_layer@),
            ),
    {
        let ghost st0 = eval_view(*self);
        let ghost out = unfocused_spec(st0, default_layer@);
        let mut actions: Vec<FocusAction> = Vec::new();
        let keep: Vec<String> = Vec::new();
        proof {
            assert(strs_view(keep@) =~= Seq::<Seq<char>>::empty());
            assert(acts_view(actions@) =~= Seq::<ActionView>::empty());
        }
        push_releases(&self.current_virtual_keys, &keep, &mut actions);
        proof {
            assert(acts_view(actions@) =~= releases_of(st0.vks, Seq::empty()));
        }
        if !default_layer.is_empty() && !str_eq(self.last_effective_layer.as_str(), default_layer) {
            let ghost pre = acts_view(actions@);
            actions.push(FocusAction::ChangeLayer(default_layer.to_owned()));
            proof {
                assert(acts_view(actions@) =~= pre.push(ActionView::Change(default_layer@)));
                assert(acts_view(actions@) =~= out.actions);
            }
        } else {
            proof {
                assert(acts_view(actions@) + Seq::<ActionView>::empty() =~= acts_view(actions@));
                assert(acts_view(actions@) =~= out.actions);
            }
        }
        self.last_class = String::new();
        self.last_title = String::new();
        self.last_matched_rules = Vec::new();
        self.last_effective_layer = default_layer.to_owned();
        self.current_virtual_keys = Vec::new();
        proof {
            assert(idxs_view(self.last_matched_rules@) =~= Seq::<int>::empty());
            assert(strs_view(self.current_virtual_keys@) =~= Seq::<Seq<char>>::empty());
            assert(eval_view(*self) =~= out.st);
        }
        let result = FocusActions { actions, new_managed_vks: Vec::new() };
        proof {
            assert(strs_view(result.new_managed_vks@) =~= Seq::<Seq<char>>::empty());
        }
        if result.is_empty() {
            None
        } else {
            Some(result)
        }
    }

    /// Evaluation of a native-terminal event when a native-terminal
    /// rule is configured: a single-rule match under the reserved
    /// index.
    fn handle_native_terminal(&mut self, default_layer: &str) -> (r: Option<FocusActions>)
        ensures
            eval_result_ok(
                *old(self),
                *final(self),
                r,
                match old(self).native_terminal_rule {
                    Some(nr) => native_spec(nr, eval_view(*old(self))),
                    None => unfocused_spec(eval_view(*old(self)), default_layer@),
                },
            ),
    {
        let has_rule = self.native_terminal_rule.is_some();
        if !has_rule {
            return self.handle_unfocused(default_layer);
        }
        let (nlayer, nvk, nraws) = match &self.native_terminal_rule {
            Some(nr) => (clone_string(&nr.layer), clone_opt_string(&nr.virtual_key), clone_pairs(
                &nr.raw_vk_action,
            )),
            None => (String::new(), None, Vec::new()),
        };
        let ghost nr = self.native_terminal_rule->Some_0;
        let ghost st0 = eval_view(*self);
        let ghost out = native_spec(nr, st0);

        let mut new_vks: Vec<String> = Vec::new();
        match &nvk {
            Some(vk) => {
                new_vks.push(clone_string(vk));
                proof {
                    assert(strs_view(new_vks@) =~= seq![vk@]);
                }
            },
            None => {
                proof {
                    assert(strs_view(new_vks@) =~= Seq::<Seq<char>>::empty());
                }
            },
        }
        proof {
            assert(strs_view(new_vks@) =~= out.st.vks);
        }

        let mut actions: Vec<FocusAction> = Vec::new();
        proof {
            assert(acts_view(actions@) =~= Seq::<ActionView>::empty());
        }
        push_releases(&self.current_virtual_keys, &new_vks, &mut actions);
        let ghost rel = acts_view(actions@);

        let mut matched: Vec<usize> = Vec::new();
        matched.push(NATIVE_TERMINAL_RULE_INDEX);
        proof {
            assert(idxs_view(matched@) =~= seq![NATIVE_TERMINAL_RULE_INDEX as int]);
        }
        let same = vec_usize_eq(&self.last_matched_rules, &matched);
        let is_new = !same;

        if is_new {
            if !nlayer.as_str().is_empty() && !str_eq(
                self.last_effective_layer.as_str(),
                nlayer.as_str(),
            ) {
                let ghost pre = acts_view(actions@);
                actions.push(FocusAction::ChangeLayer(clone_string(&nlayer)));
                proof {
                    assert(acts_view(actions@) =~= pre.push(ActionView::Change(nr.layer@)));
                }
            }
            let ghost after_layer = acts_view(actions@);
            match &nvk {
                Some(vk) => {
                    let held = vec_has_string(&self.current_virtual_keys, vk);
                    proof {
                        lemma_strs_view_contains(self.current_virtual_keys@, vk@);
                    }
                    if !held {
                        let ghost pre = acts_view(actions@);
                        actions.push(FocusAction::PressVk(clone_string(vk)));
                        proof {
                            assert(acts_view(actions@) =~= pre.push(ActionView::Press(vk@)));
                        }
                    }
                },
                None => {},
            }
            push_raw_actions(&nraws, &mut actions);
            proof {
                let layer_part = if nr.layer@.len() > 0 && st0.layer != nr.layer@ {
                    seq![ActionView::Change(nr.layer@)]
                } else {
                    Seq::<ActionView>::empty()
                };
                let press_part = match nr.virtual_key {
                    Some(v) => if st0.vks.contains(v@) {
                        Seq::<ActionView>::empty()
                    } else {
                        seq![ActionView::Press(v@)]
                    },
                    None => Seq::<ActionView>::empty(),
                };
                assert(acts_view(actions@) =~= rel + (layer_part + press_part + raw_emit(
                    pairs_view(nr.raw_vk_action@),
                )));
                assert(acts_view(actions@) =~= out.actions);
            }
        } else {
            proof {
                assert(acts_view(actions@) + Seq::<ActionView>::empty() =~= acts_view(actions@));
                assert(acts_view(actions@) =~= out.actions);
            }
        }

        self.last_matched_rules = matched;
        self.last_effective_layer = nlayer;
        self.current_virtual_keys = clone_string_vec(&new_vks);
        self.last_class = String::new();
        self.last_title = String::new();
        proof {
            assert(eval_view(*self) =~= out.st);
        }
        let result = FocusActions { actions, new_managed_vks: new_vks };
        if result.is_empty() {
            None
        } else {
            Some(result)
        }
    }

    /// Evaluation of a native-terminal event when no native-terminal
    /// rule is configured: behaves as the unfocused case with the
    /// default layer.
    fn handle_native_terminal_without_rule(&mut self, default_layer: &str) -> (r: Option<
        FocusActions,
    >)
        ensures
            eval_result_ok(
                *old(self),
                *final(self),
                r,
                unfocused_spec(eval_view(*old(self)), default_layer@),
            ),
    {
        self.handle_unfocused(default_layer)
    }

    /// Evaluation of an ordinary focused window against the rule list.
    fn handle_matcher(&mut self, win: &WindowInfo, default_layer: &str) -> (r: Option<
        FocusActions,
    >)
        ensures
            eval_result_ok(
                *old(self),
                *final(self),
                r,
                matcher_spec(old(self).rules@, eval_view(*old(self)), *win, default_layer@),
            ),
    {
        let ghost st0 = eval_view(*self);
        let ghost out = matcher_spec(self.rules@, st0, *win, default_layer@);
        let m = compute_matched(&self.rules, win);
        let nv = collect_vks(&self.rules, &m);
        let mut actions: Vec<FocusAction> = Vec::new();
        proof {
            assert(acts_view(actions@) =~= Seq::<ActionView>::empty());
        }
        push_releases(&self.current_virtual_keys, &nv, &mut actions);
        let ghost rel = acts_view(actions@);

        if m.len() == 0 {
            proof {
                assert(idxs_view(m@).len() == 0);
            }
            if !default_layer.is_empty() && !str_eq(
                self.last_effective_layer.as_str(),
                default_layer,
            ) {
                let ghost pre = acts_view(actions@);
                actions.push(FocusAction::ChangeLayer(default_layer.to_owned()));
                proof {
                    assert(acts_view(actions@) =~= pre.push(ActionView::Change(default_layer@)));
                    assert(acts_view(actions@) =~= out.actions);
                }
            } else {
                proof {
                    assert(acts_view(actions@) + Seq::<ActionView>::empty() =~= acts_view(
                        actions@,
                    ));
                    assert(acts_view(actions@) =~= out.actions);
                }
            }
            self.last_effective_layer = default_layer.to_owned();
        } else {
            let same = vec_usize_eq(&m, &self.last_matched_rules);
            let changed = !same;
            push_new_rule_actions(
                &self.rules,
                &m,
                &self.last_matched_rules,
                &self.current_virtual_keys,
                &mut actions,
            );
            let ghost base = acts_view(actions@);
            proof {
                assert(base =~= rel + new_actions_of(
                    self.rules@,
                    idxs_view(m@),
                    st0.matched,
                    st0.vks,
                    Seq::empty(),
                ));
            }
            if changed {
                let lys = collect_layers(&self.rules, &m);
                if lys.len() > 0 {
                    let nl = clone_string(&lys[lys.len() - 1]);
                    proof {
                        assert(strs_view(lys@).last() == lys@[lys@.len() - 1]@);
                        assert(nl@ == layers_of(self.rules@, idxs_view(m@)).last());
                    }
                    if !str_eq(self.last_effective_layer.as_str(), nl.as_str()) {
                        let lc = last_change_exec(&actions);
                        let already = match &lc {
                            Some(l) => str_eq(l.as_str(), nl.as_str()),
                            None => false,
                        };
                        proof {
                            assert(already == (last_change(base) == Some(nl@)));
                        }
                        if !already {
                            let ghost pre = acts_view(actions@);
                            actions.push(FocusAction::ChangeLayer(clone_string(&nl)));
                            proof {
                                assert(acts_view(actions@) =~= pre.push(ActionView::Change(nl@)));
                            }
                        }
                    }
                    self.last_effective_layer = nl;
                }
            }
            proof {
                assert(acts_view(actions@) =~= out.actions);
            }
        }

        self.last_class = clone_string(&win.class);
        self.last_title = clone_string(&win.title);
        self.last_matched_rules = m;
        self.current_virtual_keys = clone_string_vec(&nv);
        proof {
            assert(eval_view(*self) =~= out.st);
        }
        let result = FocusActions { actions, new_managed_vks: nv };
        if result.is_empty() {
            None
        } else {
            Some(result)
        }
    }

    /// Handles one focus event.  Returns the ordered action list to
    /// send to the engine, or `None` when nothing needs doing, and
    /// moves the evaluator's state to the post-execution world; the
    /// whole behaviour is [`handle_spec`].
    pub fn handle(&mut self, win: &WindowInfo, default_layer: &str) -> (r: Option<FocusActions>)
        ensures
            eval_result_ok(
                *old(self),
                *final(self),
                r,
                handle_spec(
                    old(self).rules@,
                    old(self).native_terminal_rule,
                    eval_view(*old(self)),
                    *win,
                    default_layer@,
                ),
            ),
    {
        if win.is_native_terminal {
            return self.handle_native_terminal(default_layer);
        }
        if win.class.as_str().is_empty() && win.title.as_str().is_empty() {
            return self.handle_unfocused(default_layer);
        }
        self.handle_matcher(win, default_layer)
    }
}

} // verus!
