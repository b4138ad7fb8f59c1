//! Tray-indicator state and its display strings: the one-letter layer
//! badge, the held-key badge, the tooltip, and the choice between the
//! last status and the last focus-set status.  Icon rendering and the
//! tray service itself live outside the library.

use vstd::prelude::*;
use crate::cli::dec_str;
use crate::status::LayerSource;
use crate::status::StatusSnapshot;
use crate::status::StatusView;
use crate::status::clone_snapshot;
use crate::status::status_view;
use crate::strings::char_upper_string;
use crate::strings::trim_of;
use crate::strings::trim_owned;
use crate::strings::upper_of;

verus! {

/// Most held keys shown as a digit; above this the infinity badge.
pub const TRAY_MAX_VK_COUNT_DIGIT: usize = 9;

/// The one-letter badge for a layer name: its first non-whitespace
/// character uppercased, or a question mark for a blank name.
pub open spec fn layer_letter_spec(name: Seq<char>) -> Seq<char> {
    if trim_of(name).len() == 0 {
        "?"@
    } else {
        upper_of(trim_of(name)[0])
    }
}

/// Formats the layer badge.
pub fn format_layer_letter(layer_name: &str) -> (r: String)
    ensures
        r@ == layer_letter_spec(layer_name@),
{
    let trimmed = trim_owned(layer_name);
    if trimmed.as_str().is_empty() {
        String::from_str("?")
    } else {
        let c = trimmed.as_str().get_char(0);
        char_upper_string(c)
    }
}

/// The badge for the held virtual keys: empty for none, the first
/// key's badge letter for one, the count as a digit for a few, and an
/// infinity sign beyond nine.
pub open spec fn virtual_keys_badge_spec(vks: Seq<Seq<char>>) -> Seq<char> {
    if vks.len() == 0 {
        Seq::empty()
    } else if vks.len() == 1 {
        if trim_of(vks[0]).len() == 0 {
            Seq::empty()
        } else {
            upper_of(trim_of(vks[0])[0])
        }
    } else if vks.len() > 9 {
        "\u{221e}"@
    } else {
        dec_str(vks.len() as int)
    }
}

/// Formats the held-key badge.
pub fn format_virtual_keys(virtual_keys: &Vec<String>) -> (r: String)
    ensures
        r@ == virtual_keys_badge_spec(crate::window::strs_view(virtual_keys@)),
{
    let count = virtual_keys.len();
    if count == 0 {
        return String::new();
    }
    if count == 1 {
        let name = trim_owned(virtual_keys[0].as_str());
        if name.as_str().is_empty() {
            return String::new();
        }
        let c = name.as_str().get_char(0);
        return char_upper_string(c);
    }
    if count > TRAY_MAX_VK_COUNT_DIGIT {
        return String::from_str("\u{221e}");
    }
    let mut r = String::new();
    let digit = (48 + count as u8) as char;
    r.push(digit);
    proof {
        assert(r@ =~= seq![crate::cli::digit_char(count as int)]);
    }
    r
}

/// The tray indicator's state: the last broadcast status, the last
/// focus-set status, the paused flag, and whether only focus-set
/// layers are displayed.
#[derive(Debug)]
pub struct SniIndicatorState {
    pub last_status: StatusSnapshot,
    pub focus_status: StatusSnapshot,
    pub paused: bool,
    pub show_focus_only: bool,
    pub menu_revision: u64,
}

impl SniIndicatorState {
    /// A fresh indicator state over an initial status.
    pub fn new(initial: StatusSnapshot, show_focus_only: bool) -> (r: SniIndicatorState)
        ensures
            status_view(r.last_status) == status_view(initial),
            status_view(r.focus_status) == status_view(initial),
            !r.paused,
            r.show_focus_only == show_focus_only,
            r.menu_revision == 0,
    {
        let copy = clone_snapshot(&initial);
        SniIndicatorState {
            last_status: copy,
            focus_status: initial,
            paused: false,
            show_focus_only,
            menu_revision: 0,
        }
    }

    /// Takes a broadcast status: it becomes the last status, and also
    /// the focus status when the focus set it.
    pub fn update_status(&mut self, snapshot: StatusSnapshot)
        ensures
            status_view(final(self).last_status) == status_view(snapshot),
            status_view(final(self).focus_status) == (if status_view(snapshot).source
                == LayerSource::Focus {
                status_view(snapshot)
            } else {
                status_view(old(self).focus_status)
            }),
            final(self).paused == old(self).paused,
            final(self).show_focus_only == old(self).show_focus_only,
            final(self).menu_revision == old(self).menu_revision,
    {
        let is_focus = match snapshot.layer_source {
            LayerSource::Focus => true,
            LayerSource::External => false,
        };
        if is_focus {
            self.focus_status = clone_snapshot(&snapshot);
        }
        self.last_status = snapshot;
    }

    /// Sets the paused flag.
    pub fn set_paused(&mut self, paused: bool)
        ensures
            final(self).paused == paused,
            final(self).last_status == old(self).last_status,
            final(self).focus_status == old(self).focus_status,
            final(self).show_focus_only == old(self).show_focus_only,
            final(self).menu_revision == old(self).menu_revision,
    {
        self.paused = paused;
    }

    /// Flips the focus-only display mode.
    pub fn toggle_focus_only(&mut self)
        ensures
            final(self).show_focus_only == !old(self).show_focus_only,
            final(self).last_status == old(self).last_status,
            final(self).focus_status == old(self).focus_status,
            final(self).paused == old(self).paused,
            final(self).menu_revision == old(self).menu_revision,
    {
        self.show_focus_only = !self.show_focus_only;
    }

    /// Whether only focus-set layers are displayed.
    pub fn focus_only_enabled(&self) -> (r: bool)
        ensures
            r == self.show_focus_only,
    {
        self.show_focus_only
    }

    /// Advances the menu revision, wrapping.
    pub fn bump_menu_revision(&mut self)
        ensures
            final(self).menu_revision == (if old(self).menu_revision == u64::MAX {
                0u64
            } else {
                (old(self).menu_revision + 1) as u64
            }),
            final(self).last_status == old(self).last_status,
            final(self).focus_status == old(self).focus_status,
            final(self).paused == old(self).paused,
            final(self).show_focus_only == old(self).show_focus_only,
    {
        if self.menu_revision == u64::MAX {
            self.menu_revision = 0;
        } else {
            self.menu_revision = self.menu_revision + 1;
        }
    }

    /// The status the tray displays: the last status while paused,
    /// else the focus status in focus-only mode, else the last
    /// status.
    pub fn display_status(&self) -> (r: StatusSnapshot)
        ensures
            status_view(r) == (if self.paused {
                status_view(self.last_status)
            } else if self.show_focus_only {
                status_view(self.focus_status)
            } else {
                status_view(self.last_status)
            }),
    {
        if self.paused {
            return clone_snapshot(&self.last_status);
        }
        if self.show_focus_only {
            return clone_snapshot(&self.focus_status);
        }
        clone_snapshot(&self.last_status)
    }
}

/// The displayed badges: the layer letter and the held-key badge of
/// the displayed status.
pub fn display_strings(state: &SniIndicatorState) -> (r: (String, String))
    ensures
        ({
            let shown = if state.paused {
                status_view(state.last_status)
            } else if state.show_focus_only {
                status_view(state.focus_status)
            } else {
                status_view(state.last_status)
            };
            r.0@ == layer_letter_spec(shown.layer) && r.1@ == virtual_keys_badge_spec(shown.vks)
        }),
{
    let status = state.display_status();
    let layer_text = format_layer_letter(status.layer.as_str());
    let vk_text = format_virtual_keys(&status.virtual_keys);
    (layer_text, vk_text)
}

/// The held keys joined with commas and spaces.
pub open spec fn comma_join(vks: Seq<Seq<char>>) -> Seq<char>
    decreases vks.len(),
{
    if vks.len() == 0 {
        Seq::empty()
    } else if vks.len() == 1 {
        vks[0]
    } else {
        vks[0] + ", "@ + comma_join(vks.drop_first())
    }
}

/// The tooltip body for a status: the layer line, and the held keys
/// when any are held.
pub open spec fn tooltip_spec(v: StatusView) -> Seq<char> {
    if v.vks.len() == 0 {
        "Layer: "@ + v.layer
    } else {
        "Layer: "@ + v.layer + "\nVirtual keys: "@ + comma_join(v.vks)
    }
}

/// Builds the tooltip text for the displayed status.
pub fn tooltip_text(state: &SniIndicatorState) -> (r: String)
    ensures
        ({
            let shown = if state.paused {
                status_view(state.last_status)
            } else if state.show_focus_only {
                status_view(state.focus_status)
            } else {
                status_view(state.last_status)
            };
            r@ == tooltip_spec(shown)
        }),
{
    let status = state.display_status();
    let mut out = String::from_str("Layer: ");
    out.append(status.layer.as_str());
    if status.virtual_keys.len() == 0 {
        proof {
            assert(crate::window::strs_view(status.virtual_keys@).len() == 0);
        }
        return out;
    }
    out.append("\nVirtual keys: ");
    let ghost vksv = crate::window::strs_view(status.virtual_keys@);
    let ghost base = out@;
    proof {
        assert(vksv.skip(0) =~= vksv);
        assert(base =~= "Layer: "@ + status.layer@ + "\nVirtual keys: "@);
    }
    let mut i: usize = 0;
    while i < status.virtual_keys.len()
        invariant
            i < status.virtual_keys@.len(),
            vksv == crate::window::strs_view(status.virtual_keys@),
            vksv.len() > 0,
            base == "Layer: "@ + status.layer@ + "\nVirtual keys: "@,
            base + comma_join(vksv) == out@ + comma_join(vksv.skip(i as int)),
            status_view(status) == (if state.paused {
                status_view(state.last_status)
            } else if state.show_focus_only {
                status_view(state.focus_status)
            } else {
                status_view(state.last_status)
            }),
        decreases status.virtual_keys@.len() - i,
    {
        let ghost rest = vksv.skip(i as int);
        let ghost pre = out@;
        proof {
            assert(rest[0] == vksv[i as int]);
            assert(rest.drop_first() =~= vksv.skip(i as int + 1));
        }
        out.append(status.virtual_keys[i].as_str());
        if i + 1 < status.virtual_keys.len() {
            out.append(", ");
            proof {
                assert(rest.len() > 1);
                assert(out@ =~= pre + (vksv[i as int] + ", "@));
                assert(pre + comma_join(rest) =~= out@ + comma_join(vksv.skip(i as int + 1)));
            }
            i = i + 1;
        } else {
            proof {
                assert(rest.len() == 1);
                assert(comma_join(rest) == rest[0]);
                assert(pre + comma_join(rest) =~= out@);
                assert(base + comma_join(vksv) =~= out@);
                assert(status_view(status) == (if state.paused {
                    status_view(state.last_status)
                } else if state.show_focus_only {
                    status_view(state.focus_status)
                } else {
                    status_view(state.last_status)
                }));
                assert(status_view(status).vks.len() > 0);
                assert(tooltip_spec(status_view(status)) == "Layer: "@ + status.layer@
                    + "\nVirtual keys: "@ + comma_join(vksv));
                assert(out@ =~= "Layer: "@ + status.layer@ + "\nVirtual keys: "@ + comma_join(
                    vksv,
                ));
            }
            return out;
        }
    }
    out
}

} // verus!
