//! The command-line verbs and their parsing: up to four positional
//! arguments become one of a closed set of subcommands, or nothing
//! when the verb is unknown and usage must be shown.

use vstd::prelude::*;
use vstd::string::StringExecFns;

use crate::registry::opt_str_view;
use crate::registry::string_eq;

verus! {

/// A parsed subcommand. Only `install` consumes the remaining
/// positional arguments; every other verb carries none here.
#[derive(Debug)]
pub enum Command {
    Install { candidate: Option<String>, version: Option<String>, local_path: Option<String> },
    Initialise,
    Uninstall,
    List,
    Use,
    Default,
    Home,
    Env,
    Current,
    Config,
    Upgrade,
    Version,
    Broadcast,
    Help,
    Offline,
    SelfUpdate,
    Update,
    Flush,
}

/// Mathematical image of a `Command`.
pub enum CommandV {
    Install {
        candidate: Option<Seq<char>>,
        version: Option<Seq<char>>,
        local_path: Option<Seq<char>>,
    },
    Initialise,
    Uninstall,
    List,
    Use,
    Default,
    Home,
    Env,
    Current,
    Config,
    Upgrade,
    Version,
    Broadcast,
    Help,
    Offline,
    SelfUpdate,
    Update,
    Flush,
}

impl View for Command {
    type V = CommandV;

    open spec fn view(&self) -> CommandV {
        match self {
            Command::Install { candidate, version, local_path } => CommandV::Install {
                candidate: opt_str_view(*candidate),
                version: opt_str_view(*version),
                local_path: opt_str_view(*local_path),
            },
            Command::Initialise => CommandV::Initialise,
            Command::Uninstall => CommandV::Uninstall,
            Command::List => CommandV::List,
            Command::Use => CommandV::Use,
            Command::Default => CommandV::Default,
            Command::Home => CommandV::Home,
            Command::Env => CommandV::Env,
            Command::Current => CommandV::Current,
            Command::Config => CommandV::Config,
            Command::Upgrade => CommandV::Upgrade,
            Command::Version => CommandV::Version,
            Command::Broadcast => CommandV::Broadcast,
            Command::Help => CommandV::Help,
            Command::Offline => CommandV::Offline,
            Command::SelfUpdate => CommandV::SelfUpdate,
            Command::Update => CommandV::Update,
            Command::Flush => CommandV::Flush,
        }
    }
}

/// A `String` holding the given text.
pub fn text(s: &str) -> (r: String)
    ensures
        r@ == s@,
{
    <String as StringExecFns>::from_str(s)
}

/// Which subcommand a verb names, with the install arguments carried
/// through.
pub open spec fn spec_parse(
    cmd: Seq<char>,
    cand: Option<Seq<char>>,
    ver: Option<Seq<char>>,
    lp: Option<Seq<char>>,
) -> Option<CommandV> {
    if cmd == "init"@ {
        Some(CommandV::Initialise)
    } else if cmd == "i"@ || cmd == "install"@ {
        Some(CommandV::Install { candidate: cand, version: ver, local_path: lp })
    } else if cmd == "rm"@ || cmd == "uninstall"@ {
        Some(CommandV::Uninstall)
    } else if cmd == "ls"@ || cmd == "list"@ {
        Some(CommandV::List)
    } else if cmd == "u"@ || cmd == "use"@ {
        Some(CommandV::Use)
    } else if cmd == "config"@ {
        Some(CommandV::Config)
    } else if cmd == "d"@ || cmd == "default"@ {
        Some(CommandV::Default)
    } else if cmd == "h"@ || cmd == "home"@ {
        Some(CommandV::Home)
    } else if cmd == "e"@ || cmd == "env"@ {
        Some(CommandV::Env)
    } else if cmd == "c"@ || cmd == "current"@ {
        Some(CommandV::Current)
    } else if cmd == "ug"@ || cmd == "upgrade"@ {
        Some(CommandV::Upgrade)
    } else if cmd == "v"@ || cmd == "version"@ {
        Some(CommandV::Version)
    } else if cmd == "b"@ || cmd == "broadcast"@ {
        Some(CommandV::Broadcast)
    } else if cmd == "help"@ {
        Some(CommandV::Help)
    } else if cmd == "offline"@ {
        Some(CommandV::Offline)
    } else if cmd == "selfupdate"@ {
        Some(CommandV::SelfUpdate)
    } else if cmd == "update"@ {
        Some(CommandV::Update)
    } else if cmd == "flush"@ {
        Some(CommandV::Flush)
    } else {
        None
    }
}

/// Parses the verb into its subcommand, handing the remaining
/// positional arguments to `install` and dropping them elsewhere, as
/// the usage text documents. An unknown verb parses to nothing.
pub fn parse_command(
    cmd: &String,
    candidate: Option<String>,
    version: Option<String>,
    local_path: Option<String>,
) -> (r: Option<Command>)
    ensures
        (match r {
            Some(c) => Some(c@),
            None => None::<CommandV>,
        }) == spec_parse(cmd@, opt_str_view(candidate), opt_str_view(version), opt_str_view(
            local_path,
        )),
{
    if string_eq(cmd, &text("init")) {
        Some(Command::Initialise)
    } else if string_eq(cmd, &text("i")) || string_eq(cmd, &text("install")) {
        Some(Command::Install { candidate, version, local_path })
    } else if string_eq(cmd, &text("rm")) || string_eq(cmd, &text("uninstall")) {
        Some(Command::Uninstall)
    } else if string_eq(cmd, &text("ls")) || string_eq(cmd, &text("list")) {
        Some(Command::List)
    } else if string_eq(cmd, &text("u")) || string_eq(cmd, &text("use")) {
        Some(Command::Use)
    } else if string_eq(cmd, &text("config")) {
        Some(Command::Config)
    } else if string_eq(cmd, &text("d")) || string_eq(cmd, &text("default")) {
        Some(Command::Default)
    } else if string_eq(cmd, &text("h")) || string_eq(cmd, &text("home")) {
        Some(Command::Home)
    } else if string_eq(cmd, &text("e")) || string_eq(cmd, &text("env")) {
        Some(Command::Env)
    } else if string_eq(cmd, &text("c")) || string_eq(cmd, &text("current")) {
        Some(Command::Current)
    } else if string_eq(cmd, &text("ug")) || string_eq(cmd, &text("upgrade")) {
        Some(Command::Upgrade)
    } else if string_eq(cmd, &text("v")) || string_eq(cmd, &text("version")) {
        Some(Command::Version)
    } else if string_eq(cmd, &text("b")) || string_eq(cmd, &text("broadcast")) {
        Some(Command::Broadcast)
    } else if string_eq(cmd, &text("help")) {
        Some(Command::Help)
    } else if string_eq(cmd, &text("offline")) {
        Some(Command::Offline)
    } else if string_eq(cmd, &text("selfupdate")) {
        Some(Command::SelfUpdate)
    } else if string_eq(cmd, &text("update")) {
        Some(Command::Update)
    } else if string_eq(cmd, &text("flush")) {
        Some(Command::Flush)
    } else {
        None
    }
}

} // verus!
