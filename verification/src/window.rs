//! Focus-event data model: windows, rules, and the ordered action lists
//! the evaluator emits, together with their spec-level views and the
//! cloning helpers verified code uses to copy them.

use vstd::prelude::*;
use crate::strings::opt_view;

verus! {

/// The focused window's identity.  Empty class and title denote "no
/// focused window"; `is_native_terminal` marks the synthetic event the
/// session-activity monitor produces when the seat leaves the
/// graphical session.
#[derive(Debug, Clone, PartialEq, Eq)]
pub struct WindowInfo {
    pub class: String,
    pub title: String,
    pub is_native_terminal: bool,
}

/// A configured rule.  A matcher rule uses `class`/`title` patterns and
/// the action fields; a native-terminal rule is separated out into
/// [`NativeTerminalRule`] at configuration time, so `on_native_terminal`
/// is carried only for the configuration's shape.
#[derive(Debug, Clone, PartialEq, Eq)]
pub struct Rule {
    pub class: Option<String>,
    pub title: Option<String>,
    pub on_native_terminal: Option<String>,
    pub layer: Option<String>,
    pub virtual_key: Option<String>,
    pub raw_vk_action: Option<Vec<(String, String)>>,
    pub fallthrough: bool,
}

/// The at-most-one rule applied when the seat switches to a text
/// console.
#[derive(Debug, Clone, PartialEq, Eq)]
pub struct NativeTerminalRule {
    pub layer: String,
    pub virtual_key: Option<String>,
    pub raw_vk_action: Vec<(String, String)>,
}

/// One engine command produced for a focus change.
#[derive(Debug, Clone, PartialEq, Eq)]
pub enum FocusAction {
    /// Release a held virtual key.
    ReleaseVk(String),
    /// Switch the engine to a layer.
    ChangeLayer(String),
    /// Press a virtual key and hold it until the next focus change.
    PressVk(String),
    /// Fire-and-forget virtual-key action: name and one of
    /// `Press`/`Release`/`Tap`/`Toggle`.
    RawVkAction(String, String),
}

/// Spec-level shape of a [`FocusAction`]: the same variants over
/// character sequences.
pub ghost enum ActionView {
    Release(Seq<char>),
    Change(Seq<char>),
    Press(Seq<char>),
    Raw(Seq<char>, Seq<char>),
}

/// View of one action.
pub open spec fn act_view(a: FocusAction) -> ActionView {
    match a {
        FocusAction::ReleaseVk(s) => ActionView::Release(s@),
        FocusAction::ChangeLayer(s) => ActionView::Change(s@),
        FocusAction::PressVk(s) => ActionView::Press(s@),
        FocusAction::RawVkAction(n, x) => ActionView::Raw(n@, x@),
    }
}

/// View of an action sequence.
pub open spec fn acts_view(s: Seq<FocusAction>) -> Seq<ActionView> {
    s.map_values(|a: FocusAction| act_view(a))
}

/// View of a string sequence as a sequence of character sequences.
pub open spec fn strs_view(s: Seq<String>) -> Seq<Seq<char>> {
    s.map_values(|x: String| x@)
}

/// View of a name/action pair sequence.
pub open spec fn pairs_view(s: Seq<(String, String)>) -> Seq<(Seq<char>, Seq<char>)> {
    s.map_values(|p: (String, String)| (p.0@, p.1@))
}

/// View of an index vector as mathematical integers.
pub open spec fn idxs_view(s: Seq<usize>) -> Seq<int> {
    s.map_values(|x: usize| x as int)
}

/// The raw virtual-key actions of a rule, empty when absent.
pub open spec fn rule_raws(r: Rule) -> Seq<(Seq<char>, Seq<char>)> {
    match r.raw_vk_action {
        Some(v) => pairs_view(v@),
        None => Seq::empty(),
    }
}

/// The ordered action list for one focus change, together with the list
/// of virtual keys held once the actions have executed.
#[derive(Debug, Clone, PartialEq, Eq)]
pub struct FocusActions {
    /// Ordered list of engine commands.
    pub actions: Vec<FocusAction>,
    /// Held virtual keys after execution, in press order.
    pub new_managed_vks: Vec<String>,
}

impl FocusActions {
    /// Whether the action list is empty.
    pub fn is_empty(&self) -> (r: bool)
        ensures
            r == (self.actions@.len() == 0),
    {
        self.actions.len() == 0
    }
}

/// Copy of a string, character-exact.
pub fn clone_string(s: &String) -> (r: String)
    ensures
        r == *s,
{
    s.clone()
}

/// Copy of an optional string.
pub fn clone_opt_string(o: &Option<String>) -> (r: Option<String>)
    ensures
        r == *o,
{
    match o {
        Some(s) => Some(s.clone()),
        None => None,
    }
}

/// Copy of a string vector, element-exact.
pub fn clone_string_vec(v: &Vec<String>) -> (r: Vec<String>)
    ensures
        r@ == v@,
{
    let mut r: Vec<String> = Vec::new();
    let mut i: usize = 0;
    while i < v.len()
        invariant
            i <= v@.len(),
            r@ == v@.subrange(0, i as int),
        decreases v@.len() - i,
    {
        r.push(v[i].clone());
        i = i + 1;
        proof {
            assert(r@ =~= v@.subrange(0, i as int));
        }
    }
    proof {
        assert(r@ =~= v@);
    }
    r
}

/// Copy of a name/action pair vector, element-exact.
pub fn clone_pairs(v: &Vec<(String, String)>) -> (r: Vec<(String, String)>)
    ensures
        r@ == v@,
{
    let mut r: Vec<(String, String)> = Vec::new();
    let mut i: usize = 0;
    while i < v.len()
        invariant
            i <= v@.len(),
            r@ == v@.subrange(0, i as int),
        decreases v@.len() - i,
    {
        let p = (v[i].0.clone(), v[i].1.clone());
        proof {
            assert(p == v@[i as int]);
        }
        r.push(p);
        i = i + 1;
        proof {
            assert(r@ =~= v@.subrange(0, i as int));
        }
    }
    proof {
        assert(r@ =~= v@);
    }
    r
}

/// Pattern of a rule as an optional character sequence.
pub open spec fn rule_class(r: Rule) -> Option<Seq<char>> {
    opt_view(r.class)
}

/// Title pattern of a rule as an optional character sequence.
pub open spec fn rule_title(r: Rule) -> Option<Seq<char>> {
    opt_view(r.title)
}

/// Membership of a character sequence in a mapped string sequence
/// coincides with element-wise view equality.
pub proof fn lemma_strs_view_contains(s: Seq<String>, x: Seq<char>)
    ensures
        strs_view(s).contains(x) == crate::strings::seq_has_string(s, x),
{
    if strs_view(s).contains(x) {
        let i = choose|i: int| 0 <= i < strs_view(s).len() && strs_view(s)[i] == x;
        assert(s[i]@ == x);
        assert(crate::strings::seq_has_string(s, x));
    }
    if crate::strings::seq_has_string(s, x) {
        let i = choose|i: int| 0 <= i < s.len() && (#[trigger] s[i])@ == x;
        assert(strs_view(s)[i] == x);
        assert(strs_view(s).contains(x));
    }
}

} // verus!
