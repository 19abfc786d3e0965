//! Remote-access core: the terminal-emulator catalog and its detection
//! strategies, verified assembly of the remote-access command line, probe
//! classification, and the connection-launch decision procedure.
use vstd::prelude::*;
use vstd::string::*;

use crate::models::{
    AuthMethod, AuthView, ConnView, HealthStatus, SecurityStatus, ServerConnection, now_millis,
    same_target,
};
use crate::text::{dec_str, str_eq, u16_to_string};

verus! {

/// Connection timeout in seconds for explicit, on-demand verification.
pub const CONNECTION_TIMEOUT: u64 = 10;

/// Connection timeout in seconds for periodic background checks.
pub const QUICK_CHECK_TIMEOUT: u64 = 5;

/// Terminal emulators the launcher knows how to drive. `NoTerminal` is the
/// sentinel for "no usable terminal found": the launcher then falls back to
/// taking over the current terminal.
#[derive(Debug, Clone, Copy, PartialEq, Eq, Structural)]
pub enum AvailableTerminal {
    GnomeTerminal,
    XTerm,
    Konsole,
    XfceTerminal,
    WindowsTerminal,
    MacTerminal,
    Alacritty,
    Kitty,
    Wezterm,
    Ghostty,
    Warp,
    NoTerminal,
}

/// How a launch should be performed, fixed for the process lifetime.
#[derive(Debug, Clone, Copy, PartialEq, Eq, Structural)]
pub enum ConnectionMode {
    /// Prefer a new terminal window, fall back to the current terminal.
    Auto,
    /// Spawn a new terminal window or fail.
    NewTerminal,
    /// Always take over the current terminal.
    Direct,
}

/// How the presence of one terminal emulator is established.
#[derive(Debug, Clone, Copy, PartialEq, Eq, Structural)]
pub enum DetectionStrategy {
    /// Look its command up on the executable search path.
    PathLookup,
    /// Look for a running process by name, since its invocation model
    /// differs from the others.
    ProcessQuery,
    /// Built into exactly one platform; presence is a platform check.
    PlatformBuiltin,
    /// Cannot spawn new windows; never counted as available.
    NotSpawnable,
}

/// What an environment marker that self-identifies the running terminal
/// says, before any process is spawned.
#[derive(Debug, Clone, Copy, PartialEq, Eq, Structural)]
pub enum EnvHint {
    /// The marker names a terminal the launcher can use directly.
    Identified(AvailableTerminal),
    /// The marker names a terminal that cannot spawn new windows: detection
    /// must report none rather than fall through to path lookup.
    Excluded,
    /// No usable marker.
    NoHint,
}

pub open spec fn command_name_spec(t: AvailableTerminal) -> Seq<char> {
    match t {
        AvailableTerminal::GnomeTerminal => "gnome-terminal"@,
        AvailableTerminal::XTerm => "xterm"@,
        AvailableTerminal::Konsole => "konsole"@,
        AvailableTerminal::XfceTerminal => "xfce4-terminal"@,
        AvailableTerminal::WindowsTerminal => "wt"@,
        AvailableTerminal::MacTerminal => "osascript"@,
        AvailableTerminal::Alacritty => "alacritty"@,
        AvailableTerminal::Kitty => "kitty"@,
        AvailableTerminal::Wezterm => "wezterm"@,
        AvailableTerminal::Ghostty => "ghostty"@,
        AvailableTerminal::Warp => "warp"@,
        AvailableTerminal::NoTerminal => Seq::empty(),
    }
}

impl AvailableTerminal {
    /// The executable this terminal is invoked as, if it has one.
    pub fn command_name(&self) -> (r: Option<&'static str>)
        ensures
            r is Some <==> !(self is NoTerminal),
            r matches Some(name) ==> name@ == command_name_spec(*self),
    {
        match self {
            AvailableTerminal::GnomeTerminal => Some("gnome-terminal"),
            AvailableTerminal::XTerm => Some("xterm"),
            AvailableTerminal::Konsole => Some("konsole"),
            AvailableTerminal::XfceTerminal => Some("xfce4-terminal"),
            AvailableTerminal::WindowsTerminal => Some("wt"),
            AvailableTerminal::MacTerminal => Some("osascript"),
            AvailableTerminal::Alacritty => Some("alacritty"),
            AvailableTerminal::Kitty => Some("kitty"),
            AvailableTerminal::Wezterm => Some("wezterm"),
            AvailableTerminal::Ghostty => Some("ghostty"),
            AvailableTerminal::Warp => Some("warp"),
            AvailableTerminal::NoTerminal => None,
        }
    }

    /// How presence of this terminal is checked on a host.
    pub fn detection_strategy(&self) -> (r: DetectionStrategy)
        ensures
            self is Warp ==> r is ProcessQuery,
            self is MacTerminal ==> r is PlatformBuiltin,
            self is NoTerminal ==> r is NotSpawnable,
            !(self is Warp || self is MacTerminal || self is NoTerminal) ==> r is PathLookup,
    {
        match self {
            AvailableTerminal::Warp => DetectionStrategy::ProcessQuery,
            AvailableTerminal::MacTerminal => DetectionStrategy::PlatformBuiltin,
            AvailableTerminal::NoTerminal => DetectionStrategy::NotSpawnable,
            _ => DetectionStrategy::PathLookup,
        }
    }

    /// The process name to look for when the strategy is a process query.
    pub fn process_query_name(&self) -> (r: Option<&'static str>)
        ensures
            r is Some <==> self is Warp,
            r matches Some(name) ==> name@ == "warp-terminal"@,
    {
        match self {
            AvailableTerminal::Warp => Some("warp-terminal"),
            _ => None,
        }
    }
}

/// Reads the terminal self-identification marker (the `TERM_PROGRAM`
/// environment variable, handed in by the caller): either it names a
/// terminal the launcher can use, or it names one that cannot spawn
/// windows, or it says nothing usable.
pub fn env_terminal_hint(term_program: &Option<String>) -> (r: EnvHint)
    ensures
        term_program is None ==> r is NoHint,
        term_program matches Some(s) ==> {
            if s@ == "Apple_Terminal"@ {
                r == EnvHint::Identified(AvailableTerminal::MacTerminal)
            } else if s@ == "Alacritty"@ {
                r == EnvHint::Identified(AvailableTerminal::Alacritty)
            } else if s@ == "kitty"@ {
                r == EnvHint::Identified(AvailableTerminal::Kitty)
            } else if s@ == "WezTerm"@ {
                r == EnvHint::Identified(AvailableTerminal::Wezterm)
            } else if s@ == "ghostty"@ {
                r == EnvHint::Identified(AvailableTerminal::Ghostty)
            } else if s@ == "WarpTerminal"@ {
                r is Excluded
            } else {
                r is NoHint
            }
        },
{
    match term_program {
        None => EnvHint::NoHint,
        Some(s) => {
            if str_eq(s.as_str(), "Apple_Terminal") {
                EnvHint::Identified(AvailableTerminal::MacTerminal)
            } else if str_eq(s.as_str(), "Alacritty") {
                EnvHint::Identified(AvailableTerminal::Alacritty)
            } else if str_eq(s.as_str(), "kitty") {
                EnvHint::Identified(AvailableTerminal::Kitty)
            } else if str_eq(s.as_str(), "WezTerm") {
                EnvHint::Identified(AvailableTerminal::Wezterm)
            } else if str_eq(s.as_str(), "ghostty") {
                EnvHint::Identified(AvailableTerminal::Ghostty)
            } else if str_eq(s.as_str(), "WarpTerminal") {
                EnvHint::Excluded
            } else {
                EnvHint::NoHint
            }
        },
    }
}

/// The candidate order tried when no environment marker decides: most
/// capable first, with the one process-checked terminal excluded because it
/// cannot spawn windows.
pub open spec fn detection_order_spec() -> Seq<AvailableTerminal> {
    seq![
        AvailableTerminal::Ghostty,
        AvailableTerminal::Alacritty,
        AvailableTerminal::Kitty,
        AvailableTerminal::Wezterm,
        AvailableTerminal::GnomeTerminal,
        AvailableTerminal::Konsole,
        AvailableTerminal::XfceTerminal,
        AvailableTerminal::XTerm,
        AvailableTerminal::MacTerminal,
    ]
}

pub fn detection_order() -> (r: Vec<AvailableTerminal>)
    ensures
        r@ == detection_order_spec(),
{
    let mut r: Vec<AvailableTerminal> = Vec::new();
    r.push(AvailableTerminal::Ghostty);
    r.push(AvailableTerminal::Alacritty);
    r.push(AvailableTerminal::Kitty);
    r.push(AvailableTerminal::Wezterm);
    r.push(AvailableTerminal::GnomeTerminal);
    r.push(AvailableTerminal::Konsole);
    r.push(AvailableTerminal::XfceTerminal);
    r.push(AvailableTerminal::XTerm);
    r.push(AvailableTerminal::MacTerminal);
    proof {
        assert(r@ =~= detection_order_spec());
    }
    r
}

/// Picks the first candidate marked available, or the none-sentinel when no
/// candidate is. `available[i]` reports the presence check for `order[i]`.
pub fn first_available(order: &Vec<AvailableTerminal>, available: &Vec<bool>) -> (r:
    AvailableTerminal)
    requires
        order@.len() == available@.len(),
    ensures
        (exists|i: int| 0 <= i < available@.len() && available@[i]) ==> exists|i: int|
            {
                &&& 0 <= i < available@.len()
                &&& #[trigger] available@[i]
                &&& r == order@[i]
                &&& forall|k: int| 0 <= k < i ==> !available@[k]
            },
        !(exists|i: int| 0 <= i < available@.len() && available@[i]) ==> r is NoTerminal,
{
    let n: usize = order.len();
    let mut i: usize = 0;
    while i < n
        invariant
            0 <= i <= n == order@.len() == available@.len(),
            forall|k: int| 0 <= k < i ==> !available@[k],
        decreases n - i,
    {
        if available[i] {
            return order[i];
        }
        i = i + 1;
    }
    AvailableTerminal::NoTerminal
}

/// `user@host` for a host record.
pub open spec fn user_at_host(c: ConnView) -> Seq<char> {
    c.username + "@"@ + c.host
}

/// The bare remote-access invocation a terminal wraps: `ssh user@host`.
pub open spec fn simple_ssh_cmd(c: ConnView) -> Seq<char> {
    "ssh "@ + user_at_host(c)
}

/// The arguments each terminal needs to run the bare invocation, before any
/// options are folded in.
pub open spec fn base_terminal_args(t: AvailableTerminal, c: ConnView) -> Seq<Seq<char>> {
    match t {
        AvailableTerminal::GnomeTerminal => seq!["--"@, "bash"@, "-c"@, simple_ssh_cmd(c)],
        AvailableTerminal::XTerm => seq!["-e"@, simple_ssh_cmd(c)],
        AvailableTerminal::Konsole => seq!["-e"@, simple_ssh_cmd(c)],
        AvailableTerminal::XfceTerminal => seq!["-e"@, simple_ssh_cmd(c)],
        AvailableTerminal::WindowsTerminal => seq!["ssh"@, user_at_host(c)],
        AvailableTerminal::MacTerminal => seq![
            "-e"@,
            "tell application \"Terminal\" to do script \""@ + simple_ssh_cmd(c) + "\""@,
        ],
        AvailableTerminal::Alacritty => seq!["-e"@, "ssh"@, user_at_host(c)],
        AvailableTerminal::Kitty => seq!["ssh"@, user_at_host(c)],
        AvailableTerminal::Wezterm => seq!["start"@, "--"@, "ssh"@, user_at_host(c)],
        AvailableTerminal::Ghostty => seq!["-e"@, "ssh"@, user_at_host(c)],
        AvailableTerminal::Warp => seq!["ssh"@, user_at_host(c)],
        AvailableTerminal::NoTerminal => Seq::empty(),
    }
}

impl AvailableTerminal {
    /// The terminal-specific arguments that run the bare remote-access
    /// command; the none-sentinel has no invocation.
    pub fn get_ssh_command(&self, connection: &ServerConnection) -> (r: Option<Vec<String>>)
        ensures
            r is Some <==> !(self is NoTerminal),
            r matches Some(args) ==> args.deep_view() == base_terminal_args(*self, connection@),
    {
        if let AvailableTerminal::NoTerminal = self {
            return None;
        }
        let ssh_cmd = build_simple_ssh_cmd(connection);
        let uh = build_user_at_host(connection);
        let mut args: Vec<String> = Vec::new();
        match self {
            AvailableTerminal::GnomeTerminal => {
                args.push(String::from_str("--"));
                args.push(String::from_str("bash"));
                args.push(String::from_str("-c"));
                args.push(ssh_cmd);
            },
            AvailableTerminal::XTerm | AvailableTerminal::Konsole
                | AvailableTerminal::XfceTerminal => {
                args.push(String::from_str("-e"));
                args.push(ssh_cmd);
            },
            AvailableTerminal::WindowsTerminal | AvailableTerminal::Kitty
                | AvailableTerminal::Warp => {
                args.push(String::from_str("ssh"));
                args.push(uh);
            },
            AvailableTerminal::MacTerminal => {
                args.push(String::from_str("-e"));
                let mut script = String::from_str("tell application \"Terminal\" to do script \"");
                script.append(ssh_cmd.as_str());
                script.append("\"");
                args.push(script);
            },
            AvailableTerminal::Alacritty | AvailableTerminal::Ghostty => {
                args.push(String::from_str("-e"));
                args.push(String::from_str("ssh"));
                args.push(uh);
            },
            AvailableTerminal::Wezterm => {
                args.push(String::from_str("start"));
                args.push(String::from_str("--"));
                args.push(String::from_str("ssh"));
                args.push(uh);
            },
            AvailableTerminal::NoTerminal => {},
        }
        proof {
            assert(args.deep_view() =~= base_terminal_args(*self, connection@));
        }
        Some(args)
    }
}

fn build_user_at_host(connection: &ServerConnection) -> (r: String)
    ensures
        r@ == user_at_host(connection@),
{
    let mut s = String::from_str(connection.username.as_str());
    s.append("@");
    s.append(connection.host.as_str());
    s
}

fn build_simple_ssh_cmd(connection: &ServerConnection) -> (r: String)
    ensures
        r@ == simple_ssh_cmd(connection@),
{
    let mut s = String::from_str("ssh ");
    let uh = build_user_at_host(connection);
    s.append(uh.as_str());
    s
}

/// A path begins with the home-directory shorthand.
pub open spec fn starts_tilde(s: Seq<char>) -> bool {
    s.len() > 0 && s[0] == '~'
}

/// Relies on `shellexpand::tilde`: a path that does not begin with `~`
/// comes back unchanged; a leading `~` alone or before a separator is
/// replaced by the home directory, so that part of the result depends on
/// the environment and is left unstated.
#[verifier::external_body]
fn expand_tilde(path: &str) -> (r: String)
    ensures
        !starts_tilde(path@) ==> r@ == path@,
{
    shellexpand::tilde(path).to_string()
}

/// The authentication-specific options: an identity file for key-based
/// auth (`k` is the key path after home-directory expansion), a preferred
/// authentication hint for the password and interactive variants.
pub open spec fn auth_options_spec(auth: AuthView, k: Seq<char>) -> Seq<Seq<char>> {
    match auth {
        AuthView::PublicKey { key_path } => seq!["-i"@, k],
        AuthView::Agent => Seq::empty(),
        AuthView::Password => seq!["-o"@, "PreferredAuthentications=password"@],
        AuthView::Interactive => seq!["-o"@, "PreferredAuthentications=keyboard-interactive"@],
    }
}

/// The keepalive and timeout options every launched session carries.
pub open spec fn keepalive_options() -> Seq<Seq<char>> {
    seq![
        "-o"@,
        "ServerAliveInterval=60"@,
        "-o"@,
        "ServerAliveCountMax=3"@,
        "-o"@,
        "ConnectTimeout=10"@,
        "-o"@,
        "BatchMode=no"@,
    ]
}

/// The option list for a spawned terminal: the port when it is not the
/// conventional one, then auth options, then keepalive options.
pub open spec fn ssh_options_spec(port: u16, auth: AuthView, k: Seq<char>) -> Seq<Seq<char>> {
    (if port != 22 {
        seq!["-p"@, dec_str(port as int)]
    } else {
        Seq::empty()
    }) + auth_options_spec(auth, k) + keepalive_options()
}

/// Relates an expanded key path `k` to the configured one: where the
/// configured path does not begin with `~`, expansion leaves it unchanged;
/// a `~` path expands to an environment-dependent value. For the other
/// auth variants `k` is unused.
pub open spec fn key_expansion_ok(auth: AuthView, k: Seq<char>) -> bool {
    auth matches AuthView::PublicKey { key_path } ==> (!starts_tilde(key_path) ==> k == key_path)
}

/// Builds the option list for a spawned terminal session.
pub fn build_ssh_options(port: u16, auth: &AuthMethod) -> (r: Vec<String>)
    ensures
        exists|k: Seq<char>|
            #[trigger] ssh_options_spec(port, auth@, k) == r.deep_view() && key_expansion_ok(
                auth@,
                k,
            ),
{
    let mut opts: Vec<String> = Vec::new();
    if port != 22 {
        opts.push(String::from_str("-p"));
        opts.push(u16_to_string(port));
    }
    let ghost mut kk: Seq<char> = Seq::empty();
    match auth {
        AuthMethod::PublicKey { key_path } => {
            let expanded = expand_tilde(key_path.as_str());
            proof {
                kk = expanded@;
            }
            opts.push(String::from_str("-i"));
            opts.push(expanded);
        },
        AuthMethod::Agent => {},
        AuthMethod::Password => {
            opts.push(String::from_str("-o"));
            opts.push(String::from_str("PreferredAuthentications=password"));
        },
        AuthMethod::Interactive => {
            opts.push(String::from_str("-o"));
            opts.push(String::from_str("PreferredAuthentications=keyboard-interactive"));
        },
    }
    opts.push(String::from_str("-o"));
    opts.push(String::from_str("ServerAliveInterval=60"));
    opts.push(String::from_str("-o"));
    opts.push(String::from_str("ServerAliveCountMax=3"));
    opts.push(String::from_str("-o"));
    opts.push(String::from_str("ConnectTimeout=10"));
    opts.push(String::from_str("-o"));
    opts.push(String::from_str("BatchMode=no"));
    proof {
        assert(opts.deep_view() =~= ssh_options_spec(port, auth@, kk));
        assert(key_expansion_ok(auth@, kk));
    }
    opts
}

/// The option words joined by single spaces.
pub open spec fn join_spaces(parts: Seq<Seq<char>>) -> Seq<char>
    decreases parts.len(),
{
    if parts.len() == 0 {
        Seq::empty()
    } else if parts.len() == 1 {
        parts[0]
    } else {
        parts[0] + " "@ + join_spaces(parts.skip(1))
    }
}

proof fn lemma_join_push(parts: Seq<Seq<char>>, x: Seq<char>)
    ensures
        join_spaces(parts.push(x)) == if parts.len() == 0 {
            x
        } else {
            join_spaces(parts) + " "@ + x
        },
    decreases parts.len(),
{
    if parts.len() == 0 {
        assert(parts.push(x)[0] == x);
    } else {
        assert(parts.push(x).skip(1) =~= parts.skip(1).push(x));
        lemma_join_push(parts.skip(1), x);
        if parts.len() == 1 {
            assert(parts.skip(1).len() == 0);
        }
    }
}

/// Joins strings with single spaces between them.
pub fn join_with_spaces(parts: &Vec<String>) -> (r: String)
    ensures
        r@ == join_spaces(parts.deep_view()),
{
    let mut s = String::new();
    let n: usize = parts.len();
    let mut i: usize = 0;
    while i < n
        invariant
            0 <= i <= n == parts@.len(),
            s@ == join_spaces(parts.deep_view().take(i as int)),
        decreases n - i,
    {
        if i > 0 {
            s.append(" ");
        }
        s.append(parts[i].as_str());
        proof {
            assert(parts.deep_view().take(i + 1) =~= parts.deep_view().take(i as int).push(
                parts.deep_view()[i as int],
            ));
            lemma_join_push(parts.deep_view().take(i as int), parts.deep_view()[i as int]);
        }
        i = i + 1;
    }
    proof {
        assert(parts.deep_view().take(n as int) =~= parts.deep_view());
    }
    s
}

/// The rebuilt invocation handed to wrapper-style terminals:
/// `ssh <options> user@host` as one shell word list.
pub open spec fn full_ssh_cmd(c: ConnView, k: Seq<char>) -> Seq<char> {
    "ssh "@ + join_spaces(ssh_options_spec(c.port, c.auth_method, k)) + " "@ + user_at_host(c)
}

/// The final argument list for a spawned terminal window.
pub open spec fn terminal_args_spec(t: AvailableTerminal, c: ConnView, k: Seq<char>) -> Seq<
    Seq<char>,
> {
    if t is GnomeTerminal {
        seq!["--"@, "bash"@, "-c"@, full_ssh_cmd(c, k)]
    } else if t is XTerm || t is Konsole || t is XfceTerminal {
        seq!["-e"@, full_ssh_cmd(c, k)]
    } else {
        base_terminal_args(t, c) + ssh_options_spec(c.port, c.auth_method, k)
    }
}

/// Builds the program and argument list that opens a new terminal window
/// running the remote-access command for this host. The none-sentinel has
/// no invocation.
pub fn new_terminal_command(terminal: &AvailableTerminal, server: &ServerConnection) -> (r:
    Option<(String, Vec<String>)>)
    ensures
        r is Some <==> !(terminal is NoTerminal),
        r matches Some((prog, args)) ==> prog@ == command_name_spec(*terminal) && exists|
            k: Seq<char>,
        |
            #[trigger] terminal_args_spec(*terminal, server@, k) == args.deep_view()
                && key_expansion_ok(server@.auth_method, k),
{
    let name = match terminal.command_name() {
        Some(n) => n,
        None => {
            return None;
        },
    };
    let prog = String::from_str(name);
    let opts = build_ssh_options(server.port, &server.auth_method);
    let ghost k: Seq<char> = choose|k: Seq<char>|
        #[trigger] ssh_options_spec(server.port, server.auth_method@, k) == opts.deep_view()
            && key_expansion_ok(server.auth_method@, k);
    let wraps = match terminal {
        AvailableTerminal::GnomeTerminal | AvailableTerminal::XTerm | AvailableTerminal::Konsole
            | AvailableTerminal::XfceTerminal => true,
        _ => false,
    };
    if wraps {
        let mut cmd = String::from_str("ssh ");
        let joined = join_with_spaces(&opts);
        cmd.append(joined.as_str());
        cmd.append(" ");
        let uh = build_user_at_host(server);
        cmd.append(uh.as_str());
        proof {
            assert(cmd@ == full_ssh_cmd(server@, k));
        }
        let mut args: Vec<String> = Vec::new();
        match terminal {
            AvailableTerminal::GnomeTerminal => {
                args.push(String::from_str("--"));
                args.push(String::from_str("bash"));
                args.push(String::from_str("-c"));
                args.push(cmd);
            },
            _ => {
                args.push(String::from_str("-e"));
                args.push(cmd);
            },
        }
        proof {
            assert(args.deep_view() =~= terminal_args_spec(*terminal, server@, k));
        }
        Some((prog, args))
    } else {
        let mut args = match terminal.get_ssh_command(server) {
            Some(a) => a,
            None => {
                return None;
            },
        };
        let ghost opts_view = opts.deep_view();
        let mut opts = opts;
        args.append(&mut opts);
        proof {
            assert(args.deep_view() =~= terminal_args_spec(*terminal, server@, k));
        }
        Some((prog, args))
    }
}

/// The argument list for taking over the current terminal: the port is
/// always passed explicitly, then `user@host`, then auth and keepalive
/// options.
pub open spec fn direct_args_spec(c: ConnView, k: Seq<char>) -> Seq<Seq<char>> {
    seq!["-p"@, dec_str(c.port as int), user_at_host(c)] + auth_options_spec(c.auth_method, k)
        + keepalive_options()
}

/// Builds the argument list for running the remote-access command in the
/// current terminal.
pub fn direct_ssh_args(server: &ServerConnection) -> (r: Vec<String>)
    ensures
        exists|k: Seq<char>|
            #[trigger] direct_args_spec(server@, k) == r.deep_view() && key_expansion_ok(
                server@.auth_method,
                k,
            ),
{
    let mut args: Vec<String> = Vec::new();
    args.push(String::from_str("-p"));
    args.push(u16_to_string(server.port));
    args.push(build_user_at_host(server));
    let ghost mut kk: Seq<char> = Seq::empty();
    match &server.auth_method {
        AuthMethod::PublicKey { key_path } => {
            let expanded = expand_tilde(key_path.as_str());
            proof {
                kk = expanded@;
            }
            args.push(String::from_str("-i"));
            args.push(expanded);
        },
        AuthMethod::Agent => {},
        AuthMethod::Password => {
            args.push(String::from_str("-o"));
            args.push(String::from_str("PreferredAuthentications=password"));
        },
        AuthMethod::Interactive => {
            args.push(String::from_str("-o"));
            args.push(String::from_str("PreferredAuthentications=keyboard-interactive"));
        },
    }
    args.push(String::from_str("-o"));
    args.push(String::from_str("ServerAliveInterval=60"));
    args.push(String::from_str("-o"));
    args.push(String::from_str("ServerAliveCountMax=3"));
    args.push(String::from_str("-o"));
    args.push(String::from_str("ConnectTimeout=10"));
    args.push(String::from_str("-o"));
    args.push(String::from_str("BatchMode=no"));
    proof {
        assert(args.deep_view() =~= direct_args_spec(server@, kk));
        assert(key_expansion_ok(server@.auth_method, kk));
    }
    args
}

/// What one bounded attempt to open a raw connection to `host:port` came
/// to. The caller performs the network side and hands the outcome in.
#[derive(Debug)]
pub enum TcpProbeOutcome {
    /// The connection was accepted within the budget.
    Connected,
    /// The connection failed outright; the payload is the cause.
    ConnectFailed(String),
    /// The timeout budget elapsed first.
    TimedOut,
}

/// Mathematical image of a probe outcome.
#[verifier::ext_equal]
pub enum OutcomeView {
    Connected,
    ConnectFailed(Seq<char>),
    TimedOut,
}

impl View for TcpProbeOutcome {
    type V = OutcomeView;

    open spec fn view(&self) -> OutcomeView {
        match self {
            TcpProbeOutcome::Connected => OutcomeView::Connected,
            TcpProbeOutcome::ConnectFailed(m) => OutcomeView::ConnectFailed(m@),
            TcpProbeOutcome::TimedOut => OutcomeView::TimedOut,
        }
    }
}

/// The outcome of one reachability and security assessment. All failure
/// modes are encoded in the value: probing never raises.
#[derive(Debug)]
pub struct ConnectionTestResult {
    pub status: HealthStatus,
    pub security_status: SecurityStatus,
    pub latency_ms: Option<u64>,
    pub error_message: Option<String>,
}

/// Mathematical image of a probe result.
#[verifier::ext_equal]
pub struct ResultView {
    pub status: HealthStatus,
    pub security_status: SecurityStatus,
    pub latency_ms: Option<u64>,
    pub error_message: Option<Seq<char>>,
}

impl View for ConnectionTestResult {
    type V = ResultView;

    open spec fn view(&self) -> ResultView {
        ResultView {
            status: self.status,
            security_status: self.security_status,
            latency_ms: self.latency_ms,
            error_message: match self.error_message {
                Some(m) => Some(m@),
                None => None,
            },
        }
    }
}

impl Clone for ConnectionTestResult {
    fn clone(&self) -> (r: Self)
        ensures
            r@ == self@,
    {
        let r = ConnectionTestResult {
            status: self.status,
            security_status: self.security_status,
            latency_ms: self.latency_ms,
            error_message: match &self.error_message {
                Some(m) => Some(m.clone()),
                None => None,
            },
        };
        proof {
            assert(r@ =~= self@);
        }
        r
    }
}

/// The security posture assigned to a reachable host: a pure function of
/// the auth variant and the port. Key-based and agent-based auth are
/// secure; password auth is vulnerable exactly on the conventional
/// remote-access port and secure elsewhere; interactive auth is unknown.
pub open spec fn security_classification(auth: AuthView, port: u16) -> SecurityStatus {
    match auth {
        AuthView::PublicKey { key_path } => SecurityStatus::Secure,
        AuthView::Agent => SecurityStatus::Secure,
        AuthView::Password => if port != 22 {
            SecurityStatus::Secure
        } else {
            SecurityStatus::Vulnerable
        },
        AuthView::Interactive => SecurityStatus::Unknown,
    }
}

/// The security classification is a pure function of the auth variant and
/// the port, spelled out case by case for every port.
pub proof fn lemma_security_classification_table()
    ensures
        forall|k: Seq<char>, port: u16|
            security_classification(AuthView::PublicKey { key_path: k }, port)
                == SecurityStatus::Secure,
        forall|port: u16|
            security_classification(AuthView::Agent, port) == SecurityStatus::Secure,
        forall|port: u16|
            port == 22 ==> security_classification(AuthView::Password, port)
                == SecurityStatus::Vulnerable,
        forall|port: u16|
            port != 22 ==> security_classification(AuthView::Password, port)
                == SecurityStatus::Secure,
        forall|port: u16|
            security_classification(AuthView::Interactive, port) == SecurityStatus::Unknown,
{
}

/// The message attached to a probe that failed outright.
pub open spec fn connect_failed_msg(cause: Seq<char>) -> Seq<char> {
    "Connection failed: "@ + cause
}

/// The result a short-budget background probe classifies to: success is
/// online with the security classification and the measured latency; any
/// failure is offline with an unknown posture and a cause.
pub open spec fn quick_result_spec(c: ConnView, outcome: OutcomeView, latency_ms: u64)
    -> ResultView {
    match outcome {
        OutcomeView::Connected => ResultView {
            status: HealthStatus::Online,
            security_status: security_classification(c.auth_method, c.port),
            latency_ms: Some(latency_ms),
            error_message: None,
        },
        OutcomeView::ConnectFailed(cause) => ResultView {
            status: HealthStatus::Offline,
            security_status: SecurityStatus::Unknown,
            latency_ms: Some(latency_ms),
            error_message: Some(connect_failed_msg(cause)),
        },
        OutcomeView::TimedOut => ResultView {
            status: HealthStatus::Offline,
            security_status: SecurityStatus::Unknown,
            latency_ms: Some(latency_ms),
            error_message: Some("Connection timeout"@),
        },
    }
}

/// The result a long-budget on-demand verification classifies to; it
/// carries its own fixed cause texts.
pub open spec fn test_result_spec(c: ConnView, outcome: OutcomeView, latency_ms: u64)
    -> ResultView {
    match outcome {
        OutcomeView::Connected => ResultView {
            status: HealthStatus::Online,
            security_status: security_classification(c.auth_method, c.port),
            latency_ms: Some(latency_ms),
            error_message: None,
        },
        OutcomeView::ConnectFailed(cause) => ResultView {
            status: HealthStatus::Offline,
            security_status: SecurityStatus::Unknown,
            latency_ms: Some(latency_ms),
            error_message: Some("Failed to establish TCP connection"@),
        },
        OutcomeView::TimedOut => ResultView {
            status: HealthStatus::Offline,
            security_status: SecurityStatus::Unknown,
            latency_ms: Some(latency_ms),
            error_message: Some("Connection timeout"@),
        },
    }
}

/// Classifies one short-budget probe outcome: success yields an online
/// result carrying the security classification and the measured latency;
/// any failure yields an offline result with an unknown posture and a
/// human-readable cause.
pub fn classify_quick_check(server: &ServerConnection, outcome: &TcpProbeOutcome, latency_ms: u64)
    -> (r: ConnectionTestResult)
    ensures
        r@ == quick_result_spec(server@, outcome@, latency_ms),
        !(outcome@ is Connected) ==> ({
            &&& r@.error_message matches Some(e)
            &&& e.len() > 0
        }),
{
    proof {
        reveal_strlit("Connection failed: ");
        reveal_strlit("Connection timeout");
    }
    match outcome {
        TcpProbeOutcome::Connected => {
            let r = ConnectionTestResult {
                status: HealthStatus::Online,
                security_status: assess_security(server),
                latency_ms: Some(latency_ms),
                error_message: None,
            };
            proof {
                assert(r@ =~= (ResultView {
                    status: HealthStatus::Online,
                    security_status: security_classification(server@.auth_method, server@.port),
                    latency_ms: Some(latency_ms),
                    error_message: None,
                }));
            }
            r
        },
        TcpProbeOutcome::ConnectFailed(cause) => {
            let mut msg = String::from_str("Connection failed: ");
            msg.append(cause.as_str());
            ConnectionTestResult {
                status: HealthStatus::Offline,
                security_status: SecurityStatus::Unknown,
                latency_ms: Some(latency_ms),
                error_message: Some(msg),
            }
        },
        TcpProbeOutcome::TimedOut => {
            ConnectionTestResult {
                status: HealthStatus::Offline,
                security_status: SecurityStatus::Unknown,
                latency_ms: Some(latency_ms),
                error_message: Some(String::from_str("Connection timeout")),
            }
        },
    }
}

/// Computes the security classification of a host record.
fn assess_security(server: &ServerConnection) -> (r: SecurityStatus)
    ensures
        r == security_classification(server@.auth_method, server@.port),
{
    match &server.auth_method {
        AuthMethod::PublicKey { key_path } => SecurityStatus::Secure,
        AuthMethod::Agent => SecurityStatus::Secure,
        AuthMethod::Password => {
            if server.port != 22 {
                SecurityStatus::Secure
            } else {
                SecurityStatus::Vulnerable
            }
        },
        AuthMethod::Interactive => SecurityStatus::Unknown,
    }
}

/// A connection-launch decision: spawn a detached terminal process, or
/// take over the current terminal for the duration of the session.
#[derive(Debug)]
pub enum LaunchPlan {
    /// Spawn `program` with `args` as a fully detached child.
    SpawnTerminal { program: String, args: Vec<String> },
    /// Suspend the caller's terminal state and run the remote-access
    /// command with inherited standard streams until it exits.
    TakeOver { args: Vec<String> },
}

/// Recording a connected host id: ids are kept unique.
pub open spec fn record_id_spec(ids: Seq<Seq<char>>, id: Seq<char>) -> Seq<Seq<char>> {
    if ids.contains(id) {
        ids
    } else {
        ids.push(id)
    }
}

/// The failure reported when a new window is required but no terminal
/// emulator is available, naming the supported set.
pub open spec fn no_terminal_msg() -> Seq<char> {
    "No terminal emulator available for new terminal mode. Available terminals: Ghostty, Alacritty, Kitty, Wezterm, GNOME Terminal, Konsole, XFCE Terminal, XTerm"@
}

/// The failure reported when the target is unreachable: the probe's cause
/// text, or a generic cause when the probe carried none.
pub open spec fn cannot_connect_msg(probe: ResultView) -> Seq<char> {
    "Cannot connect: "@ + (match probe.error_message {
        Some(e) => e,
        None => "Connection failed"@,
    })
}

/// Manages launch decisions and remembers which hosts connected.
#[derive(Debug)]
pub struct SSHManager {
    /// Ids of hosts that have had a successful connection, each at most
    /// once.
    connections: Vec<String>,
}

impl View for SSHManager {
    type V = Seq<Seq<char>>;

    closed spec fn view(&self) -> Seq<Seq<char>> {
        self.connections.deep_view()
    }
}

impl SSHManager {
    pub fn new() -> (r: Self)
        ensures
            r@ == Seq::<Seq<char>>::empty(),
    {
        let r = SSHManager { connections: Vec::new() };
        proof {
            assert(r@ =~= Seq::<Seq<char>>::empty());
        }
        r
    }

    /// The security posture this manager assigns to a host, independent of
    /// reachability.
    pub fn assess_security_status(&self, server: &ServerConnection) -> (r: SecurityStatus)
        ensures
            r == security_classification(server@.auth_method, server@.port),
    {
        assess_security(server)
    }

    /// Classifies a short-budget background probe outcome.
    pub fn quick_health_check(&self, server: &ServerConnection, outcome: &TcpProbeOutcome,
        latency_ms: u64) -> (r: ConnectionTestResult)
        ensures
            outcome@ is Connected ==> r@ == (ResultView {
                status: HealthStatus::Online,
                security_status: security_classification(server@.auth_method, server@.port),
                latency_ms: Some(latency_ms),
                error_message: None,
            }),
            outcome@ matches OutcomeView::ConnectFailed(cause) ==> r@ == (ResultView {
                status: HealthStatus::Offline,
                security_status: SecurityStatus::Unknown,
                latency_ms: Some(latency_ms),
                error_message: Some(connect_failed_msg(cause)),
            }),
            outcome@ is TimedOut ==> r@ == (ResultView {
                status: HealthStatus::Offline,
                security_status: SecurityStatus::Unknown,
                latency_ms: Some(latency_ms),
                error_message: Some("Connection timeout"@),
            }),
            !(outcome@ is Connected) ==> ({
            &&& r@.error_message matches Some(e)
            &&& e.len() > 0
        }),
    {
        classify_quick_check(server, outcome, latency_ms)
    }

    /// Classifies a long-budget on-demand verification outcome. The cause
    /// texts differ from the background check's: failure and timeout each
    /// carry their fixed description.
    pub fn test_connection(&self, server: &ServerConnection, outcome: &TcpProbeOutcome,
        latency_ms: u64) -> (r: ConnectionTestResult)
        ensures
            outcome@ is Connected ==> r@ == (ResultView {
                status: HealthStatus::Online,
                security_status: security_classification(server@.auth_method, server@.port),
                latency_ms: Some(latency_ms),
                error_message: None,
            }),
            outcome@ is ConnectFailed ==> r@ == (ResultView {
                status: HealthStatus::Offline,
                security_status: SecurityStatus::Unknown,
                latency_ms: Some(latency_ms),
                error_message: Some("Failed to establish TCP connection"@),
            }),
            outcome@ is TimedOut ==> r@ == (ResultView {
                status: HealthStatus::Offline,
                security_status: SecurityStatus::Unknown,
                latency_ms: Some(latency_ms),
                error_message: Some("Connection timeout"@),
            }),
            !(outcome@ is Connected) ==> ({
            &&& r@.error_message matches Some(e)
            &&& e.len() > 0
        }),
    {
        proof {
            reveal_strlit("Failed to establish TCP connection");
            reveal_strlit("Connection timeout");
        }
        match outcome {
            TcpProbeOutcome::Connected => {
                let r = ConnectionTestResult {
                    status: HealthStatus::Online,
                    security_status: assess_security(server),
                    latency_ms: Some(latency_ms),
                    error_message: None,
                };
                proof {
                    assert(r@ =~= (ResultView {
                        status: HealthStatus::Online,
                        security_status: security_classification(
                            server@.auth_method,
                            server@.port,
                        ),
                        latency_ms: Some(latency_ms),
                        error_message: None,
                    }));
                }
                r
            },
            TcpProbeOutcome::ConnectFailed(_) => {
                ConnectionTestResult {
                    status: HealthStatus::Offline,
                    security_status: SecurityStatus::Unknown,
                    latency_ms: Some(latency_ms),
                    error_message: Some(String::from_str("Failed to establish TCP connection")),
                }
            },
            TcpProbeOutcome::TimedOut => {
                ConnectionTestResult {
                    status: HealthStatus::Offline,
                    security_status: SecurityStatus::Unknown,
                    latency_ms: Some(latency_ms),
                    error_message: Some(String::from_str("Connection timeout")),
                }
            },
        }
    }

    /// Decides how a connection is launched. The probe result always comes
    /// first: an unreachable target fails with the probe's cause and no
    /// spawn is planned. On a reachable target the mode decides: `Auto`
    /// spawns a new window when a terminal was detected and otherwise
    /// takes over the current one; `NewTerminal` spawns or fails naming
    /// the supported terminal set; `Direct` always takes over. A reachable
    /// target's id is recorded.
    pub fn plan_connection(&mut self, server: &ServerConnection, mode: ConnectionMode,
        probe: &ConnectionTestResult, detected: AvailableTerminal) -> (r: Result<
        LaunchPlan,
        String,
    >)
        ensures
            !(probe@.status is Online) ==> {
                &&& r matches Err(m) && m@ == cannot_connect_msg(probe@)
                &&& final(self)@ == old(self)@
            },
            probe@.status is Online ==> final(self)@ == record_id_spec(old(self)@, server@.id),
            probe@.status is Online && (mode is Auto || mode is NewTerminal) && !(detected
                is NoTerminal) ==> ({
                &&& r matches Ok(p)
                &&& p matches LaunchPlan::SpawnTerminal { program, args }
                &&& program@ == command_name_spec(detected)
                &&& exists|k: Seq<char>|
                    #[trigger] terminal_args_spec(detected, server@, k) == args.deep_view()
                        && key_expansion_ok(server@.auth_method, k)
            }),
            probe@.status is Online && (mode is Direct || (mode is Auto && detected
                is NoTerminal)) ==> ({
                &&& r matches Ok(p)
                &&& p matches LaunchPlan::TakeOver { args }
                &&& exists|k: Seq<char>|
                    #[trigger] direct_args_spec(server@, k) == args.deep_view()
                        && key_expansion_ok(server@.auth_method, k)
            }),
            probe@.status is Online && mode is NewTerminal && detected is NoTerminal ==> ({
                &&& r matches Err(m)
                &&& m@ == no_terminal_msg()
            }),
    {
        match probe.status {
            HealthStatus::Online => {
                self.record_connection(&server.id);
                match mode {
                    ConnectionMode::Auto => {
                        match new_terminal_command(&detected, server) {
                            Some((program, args)) => Ok(LaunchPlan::SpawnTerminal {
                                program,
                                args,
                            }),
                            None => Ok(LaunchPlan::TakeOver { args: direct_ssh_args(server) }),
                        }
                    },
                    ConnectionMode::NewTerminal => {
                        match new_terminal_command(&detected, server) {
                            Some((program, args)) => Ok(LaunchPlan::SpawnTerminal {
                                program,
                                args,
                            }),
                            None => {
                                proof {
                                    reveal_strlit(
                                        "No terminal emulator available for new terminal mode. Available terminals: Ghostty, Alacritty, Kitty, Wezterm, GNOME Terminal, Konsole, XFCE Terminal, XTerm",
                                    );
                                }
                                Err(String::from_str(
                                    "No terminal emulator available for new terminal mode. Available terminals: Ghostty, Alacritty, Kitty, Wezterm, GNOME Terminal, Konsole, XFCE Terminal, XTerm",
                                ))
                            },
                        }
                    },
                    ConnectionMode::Direct => Ok(LaunchPlan::TakeOver {
                        args: direct_ssh_args(server),
                    }),
                }
            },
            _ => {
                let mut msg = String::from_str("Cannot connect: ");
                match &probe.error_message {
                    Some(e) => {
                        msg.append(e.as_str());
                    },
                    None => {
                        msg.append("Connection failed");
                    },
                }
                Err(msg)
            },
        }
    }

    /// Remembers that a host connected, keeping recorded ids unique.
    fn record_connection(&mut self, id: &String)
        ensures
            final(self)@ == record_id_spec(old(self)@, id@),
    {
        let n: usize = self.connections.len();
        let mut i: usize = 0;
        while i < n
            invariant
                0 <= i <= n == self.connections@.len(),
                *self == *old(self),
                forall|k: int| 0 <= k < i ==> self@[k] != id@,
            decreases n - i,
        {
            if str_eq(self.connections[i].as_str(), id.as_str()) {
                proof {
                    assert(self@[i as int] == id@);
                    assert(self@.contains(id@));
                }
                return;
            }
            i = i + 1;
        }
        proof {
            assert(forall|k: int| 0 <= k < self@.len() ==> self@[k] != id@);
            assert(!old(self)@.contains(id@));
        }
        self.connections.push(id.clone());
        proof {
            assert(final(self)@ =~= old(self)@.push(id@));
        }
    }
}

/// A counter bumped by one, capped at its maximum rather than wrapping.
pub open spec fn sat_inc(c: u32) -> u32 {
    if c < u32::MAX {
        (c + 1) as u32
    } else {
        c
    }
}

impl ConnectionTestResult {
    /// Applies this probe result to a host record: the health and security
    /// classifications and the measured latency are taken over, the
    /// last-connected instant is stamped from the clock, and the success or
    /// failure counter advances with the health outcome. Identity, tags,
    /// sessions, and the remaining counters are untouched.
    pub fn update_server_stats(&self, server: &mut ServerConnection)
        ensures
            same_target(final(server)@, old(server)@),
            final(server)@.health_status == self@.status,
            final(server)@.security_status == self@.security_status,
            final(server)@.active_sessions == old(server)@.active_sessions,
            final(server)@.stats.latency_ms == self@.latency_ms,
            final(server)@.stats.last_connected_ms is Some,
            final(server)@.stats.latency_history == old(server)@.stats.latency_history,
            final(server)@.stats.total_session_secs == old(server)@.stats.total_session_secs,
            final(server)@.stats.average_session_secs == old(server)@.stats.average_session_secs,
            final(server)@.stats.peak_usage_hour == old(server)@.stats.peak_usage_hour,
            final(server)@.stats.connection_count == if self@.status is Online {
                sat_inc(old(server)@.stats.connection_count)
            } else {
                old(server)@.stats.connection_count
            },
            final(server)@.stats.failed_attempts == if self@.status is Offline {
                sat_inc(old(server)@.stats.failed_attempts)
            } else {
                old(server)@.stats.failed_attempts
            },
    {
        server.health_status = self.status;
        server.security_status = self.security_status;
        server.stats.latency_ms = self.latency_ms;
        server.stats.last_connected_ms = Some(now_millis());
        match self.status {
            HealthStatus::Online => {
                if server.stats.connection_count < u32::MAX {
                    server.stats.connection_count = server.stats.connection_count + 1;
                }
            },
            HealthStatus::Offline => {
                if server.stats.failed_attempts < u32::MAX {
                    server.stats.failed_attempts = server.stats.failed_attempts + 1;
                }
            },
            _ => {},
        }
    }
}

} // verus!
