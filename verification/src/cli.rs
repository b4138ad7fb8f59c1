//! Command-line surface: the one-shot control verbs, the tray
//! focus-only override, and the autostart desktop entry — which
//! arguments are carried over into it and how they are escaped.

use vstd::prelude::*;
use crate::strings::chars_to_string;
use crate::strings::str_to_chars;
use crate::window::strs_view;

verus! {

/// A one-shot verb sent to a running daemon.
#[derive(Debug, Clone, Copy, PartialEq, Eq)]
pub enum ControlCommand {
    Restart,
    Pause,
    Unpause,
}

impl ControlCommand {
    /// The bus method this verb invokes.
    pub fn dbus_method(self) -> (r: &'static str)
        ensures
            self is Restart ==> r@ == "Restart"@,
            self is Pause ==> r@ == "Pause"@,
            self is Unpause ==> r@ == "Unpause"@,
    {
        match self {
            ControlCommand::Restart => "Restart",
            ControlCommand::Pause => "Pause",
            ControlCommand::Unpause => "Unpause",
        }
    }

    /// The verb's name for messages.
    pub fn label(self) -> (r: &'static str)
        ensures
            self is Restart ==> r@ == "restart"@,
            self is Pause ==> r@ == "pause"@,
            self is Unpause ==> r@ == "unpause"@,
    {
        match self {
            ControlCommand::Restart => "restart",
            ControlCommand::Pause => "pause",
            ControlCommand::Unpause => "unpause",
        }
    }
}

/// The tray focus-only override.
#[derive(Debug, Clone, Copy, PartialEq, Eq)]
pub enum TrayFocusOnly {
    True,
    False,
}

impl TrayFocusOnly {
    /// The flag's boolean value.
    pub fn as_bool(self) -> (r: bool)
        ensures
            r == (self is True),
    {
        match self {
            TrayFocusOnly::True => true,
            TrayFocusOnly::False => false,
        }
    }

    /// The flag's command-line token.
    pub fn as_arg(self) -> (r: &'static str)
        ensures
            self is True ==> r@ == "true"@,
            self is False ==> r@ == "false"@,
    {
        match self {
            TrayFocusOnly::True => "true",
            TrayFocusOnly::False => "false",
        }
    }
}

/// The parsed command-line options, as plain values.
#[derive(Debug)]
pub struct CliOptions {
    pub port: u16,
    pub host: String,
    pub config: Option<String>,
    pub quiet: bool,
    pub quiet_focus: bool,
    pub install_gnome_extension: bool,
    pub no_install_gnome_extension: bool,
    pub no_indicator: bool,
    pub indicator_focus_only: Option<TrayFocusOnly>,
    pub install_autostart: bool,
    pub uninstall_autostart: bool,
    pub restart: bool,
    pub pause: bool,
    pub unpause: bool,
}

/// Which options were given on the command line (as opposed to
/// defaulted), for the ones the autostart entry carries over.
#[derive(Debug, Clone, Copy)]
pub struct CliGiven {
    pub port: bool,
    pub host: bool,
    pub config: bool,
    pub quiet: bool,
    pub quiet_focus: bool,
    pub install_gnome_extension: bool,
    pub no_install_gnome_extension: bool,
    pub no_indicator: bool,
    pub indicator_focus_only: bool,
}

/// The one-shot verb the options ask for, if any; the verbs are
/// mutually exclusive and checked in restart, pause, unpause order.
pub fn resolve_control_command(opts: &CliOptions) -> (r: Option<ControlCommand>)
    ensures
        opts.restart ==> r == Some(ControlCommand::Restart),
        !opts.restart && opts.pause ==> r == Some(ControlCommand::Pause),
        !opts.restart && !opts.pause && opts.unpause ==> r == Some(ControlCommand::Unpause),
        !opts.restart && !opts.pause && !opts.unpause ==> r is None,
{
    if opts.restart {
        return Some(ControlCommand::Restart);
    }
    if opts.pause {
        return Some(ControlCommand::Pause);
    }
    if opts.unpause {
        return Some(ControlCommand::Unpause);
    }
    None
}

/// Whether the GNOME extension is auto-installed: on by default, the
/// explicit flags override it, and when both flags were given the
/// later one on the command line wins.
pub fn resolve_install_gnome_extension(
    install_from_cli: bool,
    no_install_from_cli: bool,
    install_index: Option<usize>,
    no_install_index: Option<usize>,
) -> (r: bool)
    ensures
        !install_from_cli && !no_install_from_cli ==> r,
        install_from_cli && !no_install_from_cli ==> r,
        !install_from_cli && no_install_from_cli ==> !r,
        install_from_cli && no_install_from_cli ==> r == (match (install_index, no_install_index) {
            (Some(i), Some(n)) => i > n,
            _ => true,
        }),
{
    match (install_from_cli, no_install_from_cli) {
        (false, false) => true,
        (true, false) => true,
        (false, true) => false,
        (true, true) => match (install_index, no_install_index) {
            (Some(i), Some(n)) => i > n,
            _ => true,
        },
    }
}

/// Decimal digit for a value below ten.
pub open spec fn digit_char(v: int) -> char {
    (48 + v) as char
}

/// Decimal rendering of a non-negative number.
pub open spec fn dec_str(n: int) -> Seq<char>
    decreases n,
{
    if n < 10 {
        seq![digit_char(n)]
    } else {
        dec_str(n / 10).push(digit_char(n % 10))
    }
}

/// Renders a port number in decimal.
pub fn u16_to_string(n: u16) -> (r: String)
    ensures
        r@ == dec_str(n as int),
    decreases n,
{
    if n < 10 {
        let c = (48 + n as u8) as char;
        let mut s = String::new();
        s.push(c);
        proof {
            assert(s@ =~= seq![digit_char(n as int)]);
        }
        s
    } else {
        let mut s = u16_to_string(n / 10);
        let c = (48 + (n % 10) as u8) as char;
        s.push(c);
        s
    }
}

/// The escape of one character inside a quoted desktop-entry Exec
/// argument.
pub open spec fn desktop_escape_char(c: char) -> Seq<char> {
    if c == '\\' {
        seq!['\\', '\\']
    } else if c == '"' {
        seq!['\\', '"']
    } else if c == '%' {
        seq!['%', '%']
    } else if c == '\n' {
        seq!['\\', 'n']
    } else if c == '\r' {
        seq!['\\', 'r']
    } else if c == '\t' {
        seq!['\\', 't']
    } else {
        seq![c]
    }
}

/// The escape of a whole Exec argument, without its quotes.
pub open spec fn desktop_escape(s: Seq<char>) -> Seq<char>
    decreases s.len(),
{
    if s.len() == 0 {
        Seq::empty()
    } else {
        desktop_escape_char(s[0]) + desktop_escape(s.drop_first())
    }
}

/// A quoted, escaped Exec argument.
pub open spec fn desktop_quoted(s: Seq<char>) -> Seq<char> {
    seq!['"'] + desktop_escape(s) + seq!['"']
}

/// Quotes and escapes one Exec argument of the autostart desktop
/// entry.
pub fn escape_desktop_exec_arg(value: &str) -> (r: String)
    ensures
        r@ == desktop_quoted(value@),
{
    let chars = str_to_chars(value);
    let mut out: Vec<char> = Vec::new();
    out.push('"');
    let ghost head = out@;
    proof {
        assert(head =~= seq!['"']);
        assert(chars@.skip(0) =~= chars@);
        assert(head + desktop_escape(chars@.skip(0)) =~= head + desktop_escape(chars@));
    }
    let mut i: usize = 0;
    while i < chars.len()
        invariant
            i <= chars@.len(),
            chars@ == value@,
            seq!['"'] + desktop_escape(chars@) == out@ + desktop_escape(chars@.skip(i as int)),
        decreases chars@.len() - i,
    {
        let ghost rest = chars@.skip(i as int);
        let ghost pre = out@;
        proof {
            assert(rest[0] == chars@[i as int]);
            assert(rest.drop_first() =~= chars@.skip(i as int + 1));
        }
        let c = chars[i];
        if c == '\\' {
            out.push('\\');
            out.push('\\');
        } else if c == '"' {
            out.push('\\');
            out.push('"');
        } else if c == '%' {
            out.push('%');
            out.push('%');
        } else if c == '\n' {
            out.push('\\');
            out.push('n');
        } else if c == '\r' {
            out.push('\\');
            out.push('r');
        } else if c == '\t' {
            out.push('\\');
            out.push('t');
        } else {
            out.push(c);
        }
        proof {
            assert(out@ =~= pre + desktop_escape_char(chars@[i as int]));
            assert(pre + desktop_escape(rest) =~= out@ + desktop_escape(chars@.skip(i as int + 1)));
        }
        i = i + 1;
    }
    proof {
        assert(chars@.skip(i as int) =~= Seq::<char>::empty());
        assert(out@ + desktop_escape(chars@.skip(i as int)) =~= out@);
    }
    out.push('"');
    proof {
        assert(out@ =~= desktop_quoted(value@));
    }
    chars_to_string(&out)
}

/// The quoted arguments appended to the Exec line, each preceded by a
/// space.
pub open spec fn exec_args_part(args: Seq<Seq<char>>) -> Seq<char>
    decreases args.len(),
{
    if args.len() == 0 {
        Seq::empty()
    } else {
        seq![' '] + desktop_quoted(args[0]) + exec_args_part(args.drop_first())
    }
}

/// The whole autostart desktop entry for an executable path and its
/// carried-over arguments.
pub open spec fn desktop_content_spec(path: Seq<char>, args: Seq<Seq<char>>) -> Seq<char> {
    "[Desktop Entry]\nType=Application\nName=Kanata Switcher\nExec="@ + desktop_quoted(path)
        + exec_args_part(args) + "\nTryExec="@ + desktop_quoted(path)
        + "\nX-GNOME-Autostart-enabled=true\n"@
}

/// Builds the autostart desktop entry.
pub fn build_autostart_desktop_content(exec_path: &str, exec_args: &Vec<String>) -> (r: String)
    ensures
        r@ == desktop_content_spec(exec_path@, strs_view(exec_args@)),
{
    let ghost argsv = strs_view(exec_args@);
    let mut out: String = String::from_str(
        "[Desktop Entry]\nType=Application\nName=Kanata Switcher\nExec=",
    );
    let quoted_path = escape_desktop_exec_arg(exec_path);
    out.append(quoted_path.as_str());
    let ghost before_args = out@;
    proof {
        assert(argsv.skip(0) =~= argsv);
        assert(before_args + exec_args_part(argsv.skip(0)) =~= before_args + exec_args_part(
            argsv,
        ));
    }
    let mut i: usize = 0;
    while i < exec_args.len()
        invariant
            i <= exec_args@.len(),
            argsv == strs_view(exec_args@),
            before_args + exec_args_part(argsv) == out@ + exec_args_part(argsv.skip(i as int)),
        decreases exec_args@.len() - i,
    {
        let ghost rest = argsv.skip(i as int);
        let ghost pre = out@;
        proof {
            assert(rest[0] == argsv[i as int]);
            assert(rest.drop_first() =~= argsv.skip(i as int + 1));
        }
        out.append(" ");
        let quoted = escape_desktop_exec_arg(exec_args[i].as_str());
        out.append(quoted.as_str());
        proof {
            reveal_strlit(" ");
            assert(" "@ =~= seq![' ']);
            assert(out@ =~= pre + (seq![' '] + desktop_quoted(argsv[i as int])));
            assert(pre + exec_args_part(rest) =~= out@ + exec_args_part(argsv.skip(i as int + 1)));
        }
        i = i + 1;
    }
    proof {
        assert(argsv.skip(i as int) =~= Seq::<Seq<char>>::empty());
        assert(out@ + exec_args_part(argsv.skip(i as int)) =~= out@);
    }
    out.append("\nTryExec=");
    let quoted_path_again = escape_desktop_exec_arg(exec_path);
    out.append(quoted_path_again.as_str());
    out.append("\nX-GNOME-Autostart-enabled=true\n");
    proof {
        assert(out@ =~= desktop_content_spec(exec_path@, argsv));
    }
    out
}

/// The first half of the carried-over arguments: port, host,
/// configuration file, quiet flags.
pub open spec fn passthrough_a(opts: CliOptions, given: CliGiven) -> Seq<Seq<char>> {
    (if given.port {
        seq!["-p"@, dec_str(opts.port as int)]
    } else {
        Seq::empty()
    }) + (if given.host {
        seq!["-H"@, opts.host@]
    } else {
        Seq::empty()
    }) + (if given.config {
        seq!["-c"@, opts.config->Some_0@]
    } else {
        Seq::empty()
    }) + (if given.quiet {
        seq!["-q"@]
    } else {
        Seq::empty()
    }) + (if given.quiet_focus {
        seq!["--quiet-focus"@]
    } else {
        Seq::empty()
    })
}

/// The second half of the carried-over arguments: extension and
/// indicator flags.
pub open spec fn passthrough_b(opts: CliOptions, given: CliGiven) -> Seq<Seq<char>> {
    (if given.install_gnome_extension {
        seq!["--install-gnome-extension"@]
    } else {
        Seq::empty()
    }) + (if given.no_install_gnome_extension {
        seq!["--no-install-gnome-extension"@]
    } else {
        Seq::empty()
    }) + (if given.no_indicator {
        seq!["--no-indicator"@]
    } else {
        Seq::empty()
    }) + (if given.indicator_focus_only {
        seq![
            "--indicator-focus-only"@,
            (if opts.indicator_focus_only->Some_0 is True {
                "true"@
            } else {
                "false"@
            }),
        ]
    } else {
        Seq::empty()
    })
}

/// The arguments the autostart entry carries over, in the fixed option
/// order; one-shot verbs are never carried.
pub open spec fn passthrough_spec(opts: CliOptions, given: CliGiven) -> Seq<Seq<char>> {
    passthrough_a(opts, given) + passthrough_b(opts, given)
}

/// Appends the first half of the carried-over arguments.
fn push_passthrough_a(opts: &CliOptions, given: &CliGiven, out: &mut Vec<String>)
    requires
        given.config ==> opts.config is Some,
    ensures
        strs_view(final(out)@) == strs_view(old(out)@) + passthrough_a(*opts, *given),
{
    let ghost base = strs_view(out@);
    if given.port {
        out.push(String::from_str("-p"));
        out.push(u16_to_string(opts.port));
    }
    let ghost s1 = strs_view(out@);
    proof {
        assert(s1 =~= base + (if given.port {
            seq!["-p"@, dec_str(opts.port as int)]
        } else {
            Seq::<Seq<char>>::empty()
        }));
    }
    if given.host {
        out.push(String::from_str("-H"));
        out.push(crate::window::clone_string(&opts.host));
    }
    let ghost s2 = strs_view(out@);
    proof {
        assert(s2 =~= s1 + (if given.host {
            seq!["-H"@, opts.host@]
        } else {
            Seq::<Seq<char>>::empty()
        }));
    }
    if given.config {
        out.push(String::from_str("-c"));
        match &opts.config {
            Some(c) => out.push(crate::window::clone_string(c)),
            None => {},
        }
    }
    let ghost s3 = strs_view(out@);
    proof {
        assert(s3 =~= s2 + (if given.config {
            seq!["-c"@, opts.config->Some_0@]
        } else {
            Seq::<Seq<char>>::empty()
        }));
    }
    if given.quiet {
        out.push(String::from_str("-q"));
    }
    let ghost s4 = strs_view(out@);
    proof {
        assert(s4 =~= s3 + (if given.quiet {
            seq!["-q"@]
        } else {
            Seq::<Seq<char>>::empty()
        }));
    }
    if given.quiet_focus {
        out.push(String::from_str("--quiet-focus"));
    }
    proof {
        assert(strs_view(out@) =~= s4 + (if given.quiet_focus {
            seq!["--quiet-focus"@]
        } else {
            Seq::<Seq<char>>::empty()
        }));
        assert(strs_view(out@) =~= base + passthrough_a(*opts, *given));
    }
}

/// Appends the second half of the carried-over arguments.
fn push_passthrough_b(opts: &CliOptions, given: &CliGiven, out: &mut Vec<String>)
    requires
        given.indicator_focus_only ==> opts.indicator_focus_only is Some,
    ensures
        strs_view(final(out)@) == strs_view(old(out)@) + passthrough_b(*opts, *given),
{
    let ghost base = strs_view(out@);
    if given.install_gnome_extension {
        out.push(String::from_str("--install-gnome-extension"));
    }
    let ghost s1 = strs_view(out@);
    proof {
        assert(s1 =~= base + (if given.install_gnome_extension {
            seq!["--install-gnome-extension"@]
        } else {
            Seq::<Seq<char>>::empty()
        }));
    }
    if given.no_install_gnome_extension {
        out.push(String::from_str("--no-install-gnome-extension"));
    }
    let ghost s2 = strs_view(out@);
    proof {
        assert(s2 =~= s1 + (if given.no_install_gnome_extension {
            seq!["--no-install-gnome-extension"@]
        } else {
            Seq::<Seq<char>>::empty()
        }));
    }
    if given.no_indicator {
        out.push(String::from_str("--no-indicator"));
    }
    let ghost s3 = strs_view(out@);
    proof {
        assert(s3 =~= s2 + (if given.no_indicator {
            seq!["--no-indicator"@]
        } else {
            Seq::<Seq<char>>::empty()
        }));
    }
    if given.indicator_focus_only {
        out.push(String::from_str("--indicator-focus-only"));
        match opts.indicator_focus_only {
            Some(v) => out.push(v.as_arg().to_owned()),
            None => {},
        }
    }
    proof {
        assert(strs_view(out@) =~= s3 + (if given.indicator_focus_only {
            seq![
                "--indicator-focus-only"@,
                (if opts.indicator_focus_only->Some_0 is True {
                    "true"@
                } else {
                    "false"@
                }),
            ]
        } else {
            Seq::<Seq<char>>::empty()
        }));
        assert(strs_view(out@) =~= base + passthrough_b(*opts, *given));
    }
}

/// Collects the arguments the autostart entry carries over.
pub fn autostart_passthrough_args(opts: &CliOptions, given: &CliGiven) -> (r: Vec<String>)
    requires
        given.config ==> opts.config is Some,
        given.indicator_focus_only ==> opts.indicator_focus_only is Some,
    ensures
        strs_view(r@) == passthrough_spec(*opts, *given),
{
    let mut out: Vec<String> = Vec::new();
    proof {
        assert(strs_view(out@) =~= Seq::<Seq<char>>::empty());
    }
    push_passthrough_a(opts, given, &mut out);
    proof {
        assert(strs_view(out@) =~= passthrough_a(*opts, *given));
    }
    push_passthrough_b(opts, given, &mut out);
    out
}

/// The tray's focus-only setting: a command-line override wins and
/// skips the stored setting; otherwise the stored value, defaulting to
/// on.
pub fn resolve_sni_focus_only(override_value: Option<TrayFocusOnly>, stored: Option<bool>) -> (r:
    bool)
    ensures
        override_value matches Some(v) ==> r == (v is True),
        override_value is None ==> r == (match stored {
            Some(b) => b,
            None => true,
        }),
{
    match override_value {
        Some(v) => v.as_bool(),
        None => match stored {
            Some(b) => b,
            None => true,
        },
    }
}

} // verus!
