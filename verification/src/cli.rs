//! The commands that need no window.

use crate::app;
use crate::backend::openconnect;
use crate::backend::openconnect::Group;
use crate::backend::ActionResult;
use crate::model;
use crate::model::{Profile, ProfileText};
use crate::number;
use crate::scan;
use crate::secrets;
use crate::strings;
use crate::sys::{Host, Invocation, InvocationText};
use crate::text;
use crate::tunnel;
use crate::tunnel::Tunnels;
use vstd::prelude::*;

verus! {

broadcast use strings::lemma_texts_push;

/// What a command line asks for.
#[derive(Debug)]
pub enum Task {
    /// Show the tray and the windows.
    Gui,
    List,
    Connect(Profile, Option<String>),
    Disconnect(Profile),
    Info(Profile),
    /// Ask a server for its groups, with a pin for its certificate where there is one.
    Groups(String, Option<String>),
    /// Keep a secret.
    SetSecret(Invocation),
    /// Show what vpnc would be given.
    Config(Profile),
    /// Show what openconnect would be given.
    Arguments(Profile),
    /// Say how a command is used.
    Usage(&'static str),
}

/// What a command line asks for, as texts.
pub enum TaskText {
    Gui,
    List,
    Connect(ProfileText, Option<Seq<char>>),
    Disconnect(ProfileText),
    Info(ProfileText),
    Groups(Seq<char>, Option<Seq<char>>),
    SetSecret(InvocationText),
    Config(ProfileText),
    Arguments(ProfileText),
    Usage(Seq<char>),
}

impl View for Task {
    type V = TaskText;

    open spec fn view(&self) -> TaskText {
        match *self {
            Task::Gui => TaskText::Gui,
            Task::List => TaskText::List,
            Task::Connect(p, code) => TaskText::Connect(p@, strings::opt(code)),
            Task::Disconnect(p) => TaskText::Disconnect(p@),
            Task::Info(p) => TaskText::Info(p@),
            Task::Groups(s, pin) => TaskText::Groups(s@, strings::opt(pin)),
            Task::SetSecret(c) => TaskText::SetSecret(c@),
            Task::Config(p) => TaskText::Config(p@),
            Task::Arguments(p) => TaskText::Arguments(p@),
            Task::Usage(s) => TaskText::Usage(s@),
        }
    }
}

/// The argument at a place.
pub open spec fn arg(args: Seq<Seq<char>>, i: int) -> Option<Seq<char>> {
    if 0 <= i < args.len() {
        Some(args[i])
    } else {
        None
    }
}

/// The profile that the argument at a place names.
pub open spec fn named(
    args: Seq<Seq<char>>,
    i: int,
    profiles: Seq<ProfileText>,
) -> Option<ProfileText> {
    match arg(args, i) {
        Some(name) => match app::place_of(profiles, name) {
            Some(k) => Some(profiles[k]),
            None => None,
        },
        None => None,
    }
}

/// The account that a secret of a kind is kept for: the group for the group secret, else the user.
pub open spec fn account(p: ProfileText, kind: Seq<char>) -> Seq<char> {
    if kind == "secret"@ {
        p.id
    } else {
        p.username
    }
}

/// What a command line asks for. The first argument is the program's own name.
pub open spec fn task(args: Seq<Seq<char>>, profiles: Seq<ProfileText>) -> TaskText {
    let p = named(args, 2, profiles);
    match arg(args, 1) {
        None => TaskText::Gui,
        Some(c) => if c == "list"@ {
            TaskText::List
        } else if c == "connect"@ {
            match p {
                Some(p) => TaskText::Connect(p, arg(args, 3)),
                None => TaskText::Usage("usage: vpncbar connect <name> [otp]"@),
            }
        } else if c == "disconnect"@ {
            match p {
                Some(p) => TaskText::Disconnect(p),
                None => TaskText::Usage("usage: vpncbar disconnect <name>"@),
            }
        } else if c == "info"@ {
            match p {
                Some(p) => TaskText::Info(p),
                None => TaskText::Usage("usage: vpncbar info <name>"@),
            }
        } else if c == "groups"@ {
            match arg(args, 2) {
                Some(s) => TaskText::Groups(s, arg(args, 3)),
                None => TaskText::Usage("usage: vpncbar groups <server> [servercert-pin]"@),
            }
        } else if c == "set-secret"@ {
            match (p, arg(args, 3), arg(args, 4)) {
                (Some(p), Some(kind), Some(value)) => TaskText::SetSecret(
                    secrets::store_text(secrets::service_text(p, kind), account(p, kind), value),
                ),
                _ => TaskText::Usage(
                    "usage: vpncbar set-secret <name> <secret|password> <value>"@,
                ),
            }
        } else if c == "config"@ {
            match p {
                Some(p) => if model::openconnect_kind(p.kind) {
                    TaskText::Arguments(p)
                } else {
                    TaskText::Config(p)
                },
                None => TaskText::Usage("usage: vpncbar config <name>"@),
            }
        } else {
            TaskText::Gui
        },
    }
}

fn arg_at(args: &Vec<String>, i: usize) -> (r: Option<String>)
    ensures
        strings::opt(r) == arg(strings::texts(args@), i as int),
{
    if i < args.len() {
        assert(strings::texts(args@)[i as int] == args@[i as int]@);
        Some(args[i].clone())
    } else {
        None
    }
}

fn profile_at(args: &Vec<String>, i: usize, profiles: &Vec<Profile>) -> (r: Option<Profile>)
    ensures
        match r {
            Some(p) => named(strings::texts(args@), i as int, model::profile_texts(profiles@))
                == Some(p@),
            None => named(strings::texts(args@), i as int, model::profile_texts(profiles@)) is None,
        },
{
    match arg_at(args, i) {
        Some(name) => match app::find(profiles, &name) {
            Some(p) => Some(p.clone()),
            None => None,
        },
        None => None,
    }
}

fn set_secret(args: &Vec<String>, profile: Option<Profile>) -> (r: Task)
    ensures
        r@ == match (
            match profile {
                Some(p) => Some(p@),
                None => None,
            },
            arg(strings::texts(args@), 3),
            arg(strings::texts(args@), 4),
        ) {
            (Some(p), Some(kind), Some(value)) => TaskText::SetSecret(
                secrets::store_text(secrets::service_text(p, kind), account(p, kind), value),
            ),
            _ => TaskText::Usage("usage: vpncbar set-secret <name> <secret|password> <value>"@),
        },
{
    match (profile, arg_at(args, 3), arg_at(args, 4)) {
        (Some(p), Some(kind), Some(value)) => {
            let service = secrets::kc_service(&p, &kind);
            let account: &str = if text::equal(&kind, "secret") {
                &p.id
            } else {
                &p.username
            };
            Task::SetSecret(secrets::store(&service, account, &value))
        },
        _ => Task::Usage("usage: vpncbar set-secret <name> <secret|password> <value>"),
    }
}

/// What a command line asks for, its first argument being the program's own name.
pub fn run(args: &Vec<String>, profiles: &Vec<Profile>) -> (r: Task)
    ensures
        r@ == task(strings::texts(args@), model::profile_texts(profiles@)),
{
    let c = match arg_at(args, 1) {
        Some(c) => c,
        None => return Task::Gui,
    };
    let p = profile_at(args, 2, profiles);
    if text::equal(&c, "list") {
        Task::List
    } else if text::equal(&c, "connect") {
        match p {
            Some(p) => Task::Connect(p, arg_at(args, 3)),
            None => Task::Usage("usage: vpncbar connect <name> [otp]"),
        }
    } else if text::equal(&c, "disconnect") {
        match p {
            Some(p) => Task::Disconnect(p),
            None => Task::Usage("usage: vpncbar disconnect <name>"),
        }
    } else if text::equal(&c, "info") {
        match p {
            Some(p) => Task::Info(p),
            None => Task::Usage("usage: vpncbar info <name>"),
        }
    } else if text::equal(&c, "groups") {
        match arg_at(args, 2) {
            Some(s) => Task::Groups(s, arg_at(args, 3)),
            None => Task::Usage("usage: vpncbar groups <server> [servercert-pin]"),
        }
    } else if text::equal(&c, "set-secret") {
        set_secret(args, p)
    } else if text::equal(&c, "config") {
        match p {
            Some(p) => if p.is_openconnect() {
                Task::Arguments(p)
            } else {
                Task::Config(p)
            },
            None => Task::Usage("usage: vpncbar config <name>"),
        }
    } else {
        Task::Gui
    }
}

// ---- what is printed ----

/// As many spaces.
pub open spec fn spaces(n: nat) -> Seq<char> {
    Seq::new(n, |i: int| ' ')
}

/// A text with spaces before it, to a width.
pub open spec fn right(s: Seq<char>, width: nat) -> Seq<char> {
    if s.len() < width {
        spaces((width - s.len()) as nat) + s
    } else {
        s
    }
}

/// A text with spaces behind it, to a width.
pub open spec fn left(s: Seq<char>, width: nat) -> Seq<char> {
    if s.len() < width {
        s + spaces((width - s.len()) as nat)
    } else {
        s
    }
}

fn blanks(n: usize) -> (r: String)
    ensures
        r@ == spaces(n as nat),
{
    let mut s = String::new();
    let mut i: usize = 0;
    assert(s@ =~= spaces(0));
    while i < n
        invariant
            i <= n,
            s@ == spaces(i as nat),
        decreases n - i,
    {
        s.push(' ');
        i += 1;
        assert(s@ =~= spaces(i as nat));
    }
    s
}

fn pad_left(s: &str, width: usize) -> (r: String)
    ensures
        r@ == right(s@, width as nat),
{
    let n: usize = text::chars(s).len();
    if n < width {
        text::cat(&blanks(width - n), s)
    } else {
        s.to_owned()
    }
}

fn pad_right(s: &str, width: usize) -> (r: String)
    ensures
        r@ == left(s@, width as nat),
{
    let n: usize = text::chars(s).len();
    if n < width {
        text::cat(s, &blanks(width - n))
    } else {
        s.to_owned()
    }
}

/// The state of a profile's tunnel.
pub open spec fn state_text(name: Seq<char>, live: Map<Seq<char>, (u32, u64)>) -> Seq<char> {
    if live.contains_key(name) {
        "UP pid="@ + number::decimal(live[name].0 as nat) + " "@ + tunnel::elapsed_text(
            live[name].1 as nat,
        )
    } else {
        "down"@
    }
}

/// A profile's line in the list.
pub open spec fn entry_text(p: ProfileText, live: Map<Seq<char>, (u32, u64)>) -> Seq<char> {
    "  ["@ + right(
        if model::openconnect_kind(p.kind) {
            "oc"@
        } else {
            "vpnc"@
        },
        4,
    ) + "] "@ + left(p.name, 20) + " "@ + p.gateway + "  ("@ + state_text(p.name, live) + ")"@
}

/// The profile's line in the list.
pub fn list_entry(p: &Profile, live: &Tunnels) -> (r: String)
    ensures
        r@ == entry_text(p@, live@),
{
    let kind = if p.is_openconnect() {
        "oc"
    } else {
        "vpnc"
    };
    let state = match live.get(&p.name) {
        Some(entry) => {
            let mut s = text::cat3("UP pid=", &number::to_decimal(entry.0 as u64), " ");
            s.append(&tunnel::format_elapsed(entry.1));
            s
        },
        None => "down".to_owned(),
    };
    let mut s = text::cat3("  [", &pad_left(kind, 4), "] ");
    s.append(&pad_right(&p.name, 20));
    s.append(" ");
    s.append(&p.gateway);
    s.append("  (");
    s.append(&state);
    s.append(")");
    s
}

/// The line above the list.
pub fn list_head(count: usize, path: &str) -> (r: String)
    ensures
        r@ == number::decimal(count as nat) + " profile(s) in "@ + path@,
{
    text::cat3(&number::to_decimal(count as u64), " profile(s) in ", path)
}

/// A group's line.
pub fn group_line(g: &Group) -> (r: String)
    ensures
        r@ == (if g.1 {
            g.0@ + "  (2FA)"@
        } else {
            g.0@
        }),
{
    if g.1 {
        text::cat(&g.0, "  (2FA)")
    } else {
        g.0.clone()
    }
}

/// The command that openconnect would be run with.
pub fn arguments_line(h: &Host, p: &Profile) -> (r: String)
    ensures
        r@ == "pkexec "@ + scan::joined(openconnect::args_text(*h, p@), " "@),
{
    text::cat("pkexec ", &scan::join(&openconnect::build_args(h, p), " "))
}

/// What is printed of how something ended, and whether it is a complaint.
pub fn result_line(r: ActionResult) -> (line: (String, bool))
    ensures
        match r {
            ActionResult::Done => line.0@ == "ok"@ && !line.1,
            ActionResult::Message(m) => line.0 == m && line.1,
        },
{
    match r {
        ActionResult::Done => ("ok".to_owned(), false),
        ActionResult::Message(m) => (m, true),
    }
}

/// What is printed of whether a secret was kept.
pub fn stored_line(stored: bool) -> (r: &'static str)
    ensures
        r@ == (if stored {
            "stored"@
        } else {
            "failed"@
        }),
{
    if stored {
        "stored"
    } else {
        "failed"
    }
}

} // verus!
