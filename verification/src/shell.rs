//! Desktop-shell integration strings and classifications: the window
//! manager script that reports focus back over the bus, the script
//! object paths that differ between window-manager generations, the
//! shell extension's state names, and the test for an absent settings
//! backend.

use vstd::prelude::*;
use crate::cli::dec_str;
use crate::strings::contains_substring;
use crate::strings::lower_of;
use crate::strings::str_contains_str;
use crate::strings::to_lowercase_owned;

verus! {

/// Renders a script number in decimal.
pub fn u32_to_string(n: u32) -> (r: String)
    ensures
        r@ == dec_str(n as int),
    decreases n,
{
    if n < 10 {
        let c = (48 + n as u8) as char;
        let mut s = String::new();
        s.push(c);
        proof {
            assert(s@ =~= seq![crate::cli::digit_char(n as int)]);
        }
        s
    } else {
        let mut s = u32_to_string(n / 10);
        let c = (48 + (n % 10) as u8) as char;
        s.push(c);
        s
    }
}

/// The object path a loaded window-manager script is served at: the
/// newer generation nests it under the scripting service, the older
/// one serves it at the root.
pub open spec fn kwin_script_path_spec(script_num: int, is_kde6: bool) -> Seq<char> {
    if is_kde6 {
        "/Scripting/Script"@ + dec_str(script_num)
    } else {
        "/"@ + dec_str(script_num)
    }
}

/// Builds the object path of a loaded window-manager script.
pub fn kwin_script_object_path(script_num: u32, is_kde6: bool) -> (r: String)
    ensures
        r@ == kwin_script_path_spec(script_num as int, is_kde6),
{
    let mut out = if is_kde6 {
        String::from_str("/Scripting/Script")
    } else {
        String::from_str("/")
    };
    let num = u32_to_string(script_num);
    out.append(num.as_str());
    out
}

/// The window-manager script that reports the focused window back to
/// this daemon's bus name: it calls our focus-query method with the
/// focused client's class and caption, once for the current focus.
/// The accessor for the active window differs between generations.
pub open spec fn kde_script_spec(is_kde6: bool, bus_name: Seq<char>, object_path: Seq<char>)
    -> Seq<char> {
    "function reportFocus(client) {\n  callDBus(\n    \""@ + bus_name + "\",\n    \""@
        + object_path
        + "\",\n    \"com.github.kanata.Switcher.KdeQuery\",\n    \"Focus\",\n    client ? (client.resourceClass || \"\") : \"\",\n    client ? (client.caption || \"\") : \"\"\n  );\n}\nreportFocus(workspace."@
        + (if is_kde6 {
        "activeWindow"@
    } else {
        "activeClient"@
    }) + ");\n"@
}

/// Builds the focus-reporting window-manager script.
pub fn build_kde_query_script(is_kde6: bool, bus_name: &str, object_path: &str) -> (r: String)
    ensures
        r@ == kde_script_spec(is_kde6, bus_name@, object_path@),
{
    let mut out = String::from_str("function reportFocus(client) {\n  callDBus(\n    \"");
    out.append(bus_name);
    out.append("\",\n    \"");
    out.append(object_path);
    out.append(
        "\",\n    \"com.github.kanata.Switcher.KdeQuery\",\n    \"Focus\",\n    client ? (client.resourceClass || \"\") : \"\",\n    client ? (client.caption || \"\") : \"\"\n  );\n}\nreportFocus(workspace.",
    );
    if is_kde6 {
        out.append("activeWindow");
    } else {
        out.append("activeClient");
    }
    out.append(");\n");
    out
}

/// The persistent window-manager script that reports every focus
/// change to this daemon's well-known name: it calls the `WindowFocus`
/// method with the focused client's class and caption, connects itself
/// to the activation signal, and reports the current focus once.  The
/// signal and accessor names differ between generations.
pub open spec fn kde_focus_script_spec(is_kde6: bool) -> Seq<char> {
    "function notifyFocus(client) {\n  callDBus(\n    \"com.github.kanata.Switcher\",\n    \"/com/github/kanata/Switcher\",\n    \"com.github.kanata.Switcher\",\n    \"WindowFocus\",\n    client ? (client.resourceClass || \"\") : \"\",\n    client ? (client.caption || \"\") : \"\"\n  );\n}\nworkspace."@
        + (if is_kde6 {
        "windowActivated"@
    } else {
        "clientActivated"@
    }) + ".connect(notifyFocus);\nnotifyFocus(workspace."@ + (if is_kde6 {
        "activeWindow"@
    } else {
        "activeClient"@
    }) + ");\n"@
}

/// Builds the persistent focus-reporting window-manager script.
pub fn build_kde_focus_script(is_kde6: bool) -> (r: String)
    ensures
        r@ == kde_focus_script_spec(is_kde6),
{
    let mut out = String::from_str(
        "function notifyFocus(client) {\n  callDBus(\n    \"com.github.kanata.Switcher\",\n    \"/com/github/kanata/Switcher\",\n    \"com.github.kanata.Switcher\",\n    \"WindowFocus\",\n    client ? (client.resourceClass || \"\") : \"\",\n    client ? (client.caption || \"\") : \"\"\n  );\n}\nworkspace.",
    );
    if is_kde6 {
        out.append("windowActivated");
    } else {
        out.append("clientActivated");
    }
    out.append(".connect(notifyFocus);\nnotifyFocus(workspace.");
    if is_kde6 {
        out.append("activeWindow");
    } else {
        out.append("activeClient");
    }
    out.append(");\n");
    out
}

/// The shell extension's state names, as its manager reports them.
pub fn gnome_state_name(state: u8) -> (r: &'static str)
    ensures
        state == 1 ==> r@ == "enabled"@,
        state == 2 ==> r@ == "disabled"@,
        state == 3 ==> r@ == "error"@,
        state == 4 ==> r@ == "out_of_date"@,
        state == 5 ==> r@ == "downloading"@,
        state == 6 ==> r@ == "initialized"@,
        !(1 <= state <= 6) ==> r@ == "unknown"@,
{
    if state == 1 {
        "enabled"
    } else if state == 2 {
        "disabled"
    } else if state == 3 {
        "error"
    } else if state == 4 {
        "out_of_date"
    } else if state == 5 {
        "downloading"
    } else if state == 6 {
        "initialized"
    } else {
        "unknown"
    }
}

/// Whether a settings-backend error means the backend is absent (as
/// opposed to a missing schema): the tooling or its files were not
/// found at all.
pub fn is_gsettings_unavailable(error: &str) -> (b: bool)
    ensures
        b == (contains_substring(lower_of(error@), "no such file or directory"@)
            || contains_substring(lower_of(error@), "not found"@)),
{
    let lowered = to_lowercase_owned(error);
    str_contains_str(lowered.as_str(), "no such file or directory") || str_contains_str(
        lowered.as_str(),
        "not found",
    )
}

} // verus!
