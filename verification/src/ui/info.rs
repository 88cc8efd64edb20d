//! What the editor shows of a profile's tunnel: its state, its details and its log.

use crate::args;
use crate::backend;
use crate::model;
use crate::model::{Profile, ProfileText};
use crate::number;
use crate::scan;
use crate::strings;
use crate::sys;
use crate::sys::{Host, Invocation, InvocationText};
use crate::text;
use crate::tunnel;
use crate::tunnel::{Counters, TunnelInfo, TunnelText, Tunnels};
use vstd::prelude::*;

verus! {

broadcast use strings::lemma_texts_push;

// ---- the state ----

/// Whether a profile counts as connected: it has been saved, and its label has a live tunnel.
pub open spec fn connected(p: ProfileText, live: Map<Seq<char>, (u32, u64)>) -> bool {
    p.uuid is Some && live.contains_key(p.name)
}

/// Whether the profile counts as connected.
pub fn is_connected(p: &Profile, live: &Tunnels) -> (r: bool)
    ensures
        r == connected(p@, live@),
{
    p.uuid.is_some() && live.contains_key(&p.name)
}

/// For how many seconds a state that was asked for is waited for.
pub const PATIENCE: u64 = 20;

/// The state that is still waited for: the one that was asked for, until it is there or its time
/// is over.
pub open spec fn awaited(asked: Option<(bool, u64)>, up: bool) -> Option<bool> {
    match asked {
        Some((target, secs)) => if up != target && secs < PATIENCE {
            Some(target)
        } else {
            None
        },
        None => None,
    }
}

/// The state that is still waited for. `asked` is the state that was asked for, and how many
/// seconds ago.
pub fn settle(asked: Option<(bool, u64)>, up: bool) -> (r: Option<bool>)
    ensures
        r == awaited(asked, up),
{
    match asked {
        Some((target, secs)) => if up != target && secs < PATIENCE {
            Some(target)
        } else {
            None
        },
        None => None,
    }
}

/// A state that is there is not waited for, and none is waited for beyond its time.
pub proof fn law_waiting_ends(target: bool, secs: u64, up: bool)
    ensures
        up == target || secs >= PATIENCE ==> awaited(Some((target, secs)), up) is None,
{
}

/// What the state is called.
pub open spec fn status_text(up: bool, waiting: Option<bool>) -> Seq<char> {
    match waiting {
        Some(true) => "Connecting\u{2026}"@,
        Some(false) => "Disconnecting\u{2026}"@,
        None => if up {
            "Connected"@
        } else {
            "Not connected"@
        },
    }
}

fn status(up: bool, waiting: Option<bool>) -> (r: &'static str)
    ensures
        r@ == status_text(up, waiting),
{
    match waiting {
        Some(target) => if target {
            "Connecting\u{2026}"
        } else {
            "Disconnecting\u{2026}"
        },
        None => if up {
            "Connected"
        } else {
            "Not connected"
        },
    }
}

// ---- the details ----

/// A line of the details, where there is something to say.
pub open spec fn line_text(label: Seq<char>, value: Option<Seq<char>>) -> Seq<char> {
    match value {
        Some(v) => label + v + "\n"@,
        None => Seq::empty(),
    }
}

fn line(label: &str, value: &Option<String>) -> (r: String)
    ensures
        r@ == line_text(label@, strings::opt(*value)),
{
    match value {
        Some(v) => text::cat3(label, v, "\n"),
        None => String::new(),
    }
}

/// A line on the traffic in one direction.
pub open spec fn traffic_line(label: Seq<char>, bytes: u64, packets: u64) -> Seq<char> {
    label + sys::bytes_text(bytes as nat) + " ("@ + number::decimal(packets as nat) + " pkts)\n"@
}

fn traffic(label: &str, bytes: u64, packets: u64) -> (r: String)
    ensures
        r@ == traffic_line(label@, bytes, packets),
{
    let mut s = text::cat3(label, &sys::human_bytes(bytes), " (");
    s.append(&number::to_decimal(packets));
    s.append(" pkts)\n");
    s
}

/// What is said of the interface and its traffic, as far as they are known.
pub open spec fn interface_text(iface: Option<Seq<char>>, c: Option<Counters>) -> Seq<char> {
    match iface {
        Some(i) => match c {
            Some(c) => "Interface:     "@ + i + "\n"@ + traffic_line(
                "Traffic in:    "@,
                c.rx_bytes,
                c.rx_pkts,
            ) + traffic_line("Traffic out:   "@, c.tx_bytes, c.tx_pkts),
            None => "Interface:     "@ + i + "\n"@,
        },
        None => Seq::empty(),
    }
}

fn interface(iface: &Option<String>, c: Option<&Counters>) -> (r: String)
    ensures
        r@ == interface_text(
            strings::opt(*iface),
            match c {
                Some(c) => Some(*c),
                None => None,
            },
        ),
{
    match iface {
        Some(i) => {
            let mut s = text::cat3("Interface:     ", i, "\n");
            if let Some(c) = c {
                s.append(&traffic("Traffic in:    ", c.rx_bytes, c.rx_pkts));
                s.append(&traffic("Traffic out:   ", c.tx_bytes, c.tx_pkts));
            }
            s
        },
        None => String::new(),
    }
}

/// The routes in one line, where there are any.
pub open spec fn routes_text(routes: Seq<Seq<char>>) -> Option<Seq<char>> {
    if routes.len() == 0 {
        None
    } else {
        Some(scan::joined(routes, ", "@))
    }
}

/// The details of a tunnel: how long it is up, and what the network script and the kernel know.
pub open spec fn details_text(secs: nat, t: TunnelText, c: Option<Counters>) -> Seq<char> {
    "Uptime:        "@ + tunnel::elapsed_text(secs) + "\n"@ + interface_text(t.iface, c) + line_text(
        "Internal IP:   "@,
        t.internal_ip,
    ) + line_text("Gateway:       "@, t.gateway) + line_text("DNS:           "@, t.dns) + line_text(
        "Match domains: "@,
        t.match_domains,
    ) + line_text("Routes:        "@, routes_text(t.routes))
}

fn details(secs: u64, t: &TunnelInfo, c: Option<&Counters>) -> (r: String)
    ensures
        r@ == details_text(
            secs as nat,
            t@,
            match c {
                Some(c) => Some(*c),
                None => None,
            },
        ),
{
    let mut s = text::cat3("Uptime:        ", &tunnel::format_elapsed(secs), "\n");
    s.append(&interface(&t.iface, c));
    s.append(&line("Internal IP:   ", &t.internal_ip));
    s.append(&line("Gateway:       ", &t.gateway));
    s.append(&line("DNS:           ", &t.dns));
    s.append(&line("Match domains: ", &t.match_domains));
    let routes = if t.routes.len() == 0 {
        None
    } else {
        Some(scan::join(&t.routes, ", "))
    };
    assert(strings::texts(t.routes@).len() == t.routes@.len());
    s.append(&line("Routes:        ", &routes));
    s
}

/// The command of a profile, with the process that runs it where there is one.
pub open spec fn command_text(h: Host, p: ProfileText, live: Option<(u32, u64)>) -> Seq<char> {
    match live {
        Some((pid, _)) => "\nCommand (PID "@ + number::decimal(pid as nat) + "):\n"@
            + backend::command_line_text(h, p) + "\n"@,
        None => "\nCommand:\n"@ + backend::command_line_text(h, p) + "\n"@,
    }
}

/// What the tab for information shows. The details stand there while the tunnel is up, also while
/// it is being taken down.
pub open spec fn info_text(
    h: Host,
    p: ProfileText,
    live: Option<(u32, u64)>,
    waiting: Option<bool>,
    t: TunnelText,
    c: Option<Counters>,
) -> Seq<char> {
    let up = p.uuid is Some && live is Some;
    let head = "Status:        "@ + status_text(up, waiting) + "\n"@;
    let middle = match live {
        Some((_, secs)) => if up && waiting != Some(true) {
            details_text(secs as nat, t, c)
        } else {
            Seq::empty()
        },
        None => Seq::empty(),
    };
    head + middle + command_text(h, p, live)
}

/// What the tab for information shows. `live` is the tunnel of the profile's label, `waiting` the
/// state that is waited for, `t` what the network script recorded and `c` the interface's counters.
pub fn info(
    h: &Host,
    p: &Profile,
    live: Option<(u32, u64)>,
    waiting: Option<bool>,
    t: &TunnelInfo,
    c: Option<&Counters>,
) -> (r: String)
    ensures
        r@ == info_text(
            *h,
            p@,
            live,
            waiting,
            t@,
            match c {
                Some(c) => Some(*c),
                None => None,
            },
        ),
{
    let up: bool = p.uuid.is_some() && live.is_some();
    let mut s = text::cat3("Status:        ", status(up, waiting), "\n");
    let connecting: bool = match waiting {
        Some(target) => target,
        None => false,
    };
    let middle = match live {
        Some((_, secs)) => if up && !connecting {
            details(secs, t, c)
        } else {
            String::new()
        },
        None => String::new(),
    };
    s.append(&middle);
    let command = backend::command_line(h, p);
    let end = match live {
        Some((pid, _)) => {
            let mut e = text::cat3("\nCommand (PID ", &number::to_decimal(pid as u64), "):\n");
            e.append(&command);
            e.append("\n");
            e
        },
        None => text::cat3("\nCommand:\n", &command, "\n"),
    };
    s.append(&end);
    s
}

// ---- the log ----

/// What is done for the tab with the log.
#[derive(Clone, Copy, Debug, PartialEq, Eq, Structural)]
pub enum LogStep {
    /// Show what is in the log file.
    ShowLog,
    /// Rebuild vpnc's log from what this process wrote.
    Rebuild(u32),
    /// Show what is in the log file of the last session.
    ShowLast,
    /// A log is being rebuilt already.
    Wait,
}

/// What is done for the tab with the log. openconnect writes to its file itself. vpnc's log is
/// rebuilt for as long as it is up, and once more when it has gone down, for its last lines.
/// `last` is the process that was last seen up.
pub open spec fn log_step(oc: bool, live: Option<u32>, last: Option<u32>, busy: bool) -> LogStep {
    if oc {
        LogStep::ShowLog
    } else {
        match live {
            Some(pid) => if busy {
                LogStep::Wait
            } else {
                LogStep::Rebuild(pid)
            },
            None => match last {
                Some(pid) => if busy {
                    LogStep::Wait
                } else {
                    LogStep::Rebuild(pid)
                },
                None => LogStep::ShowLast,
            },
        }
    }
}

/// The process that was last seen up, after the tab was brought up to date.
pub open spec fn last_after(oc: bool, live: Option<u32>, last: Option<u32>, busy: bool) -> Option<
    u32,
> {
    if oc {
        last
    } else {
        match live {
            Some(pid) => Some(pid),
            None => if busy {
                last
            } else {
                None
            },
        }
    }
}

/// What is done for the tab with the log. `busy` says whether a log is being rebuilt.
pub fn debug_step(oc: bool, live: Option<u32>, last: &mut Option<u32>, busy: bool) -> (r: LogStep)
    ensures
        r == log_step(oc, live, *old(last), busy),
        *final(last) == last_after(oc, live, *old(last), busy),
{
    if oc {
        return LogStep::ShowLog;
    }
    if let Some(pid) = live {
        *last = Some(pid);
        if busy {
            return LogStep::Wait;
        }
        return LogStep::Rebuild(pid);
    }
    match *last {
        Some(pid) => if busy {
            LogStep::Wait
        } else {
            *last = None;
            LogStep::Rebuild(pid)
        },
        None => LogStep::ShowLast,
    }
}

/// When vpnc has gone down, its log is rebuilt once more, as soon as none is being rebuilt, and
/// from then on the last session's log is shown.
pub proof fn law_log_is_rebuilt_once_more(pid: u32, busy: bool)
    ensures
        log_step(false, None, Some(pid), false) == LogStep::Rebuild(pid),
        last_after(false, None, Some(pid), true) == Some(pid),
        log_step(false, None, last_after(false, None, Some(pid), false), busy)
            == LogStep::ShowLast,
{
}

/// What is shown of the last session's log.
pub open spec fn last_log_text(log: Seq<char>) -> Seq<char> {
    if text::trim(log).len() == 0 {
        "No session log yet \u{2014} connect to capture one."@
    } else {
        log
    }
}

/// What is shown of the last session's log.
pub fn last_log(log: &str) -> (r: String)
    ensures
        r@ == last_log_text(log@),
{
    if text::is_blank(log) {
        "No session log yet \u{2014} connect to capture one.".to_owned()
    } else {
        log.to_owned()
    }
}

/// What is shown of a log that was rebuilt, or where it could not be.
pub open spec fn rebuilt_text(log: Option<Seq<char>>) -> Seq<char> {
    match log {
        Some(t) => if text::trim(t).len() == 0 {
            "No vpnc output yet. At Debug 1 vpnc only logs steady-state packets; raise Debug to 2 or 3 in Options for the handshake."@
        } else {
            t
        },
        None => "Can't read the system journal \u{2014} your user needs to be in the 'systemd-journal' (or 'wheel') group.\nView manually with:  journalctl -t vpnc"@,
    }
}

/// What is shown of a log that was rebuilt, or where it could not be.
pub fn rebuilt(log: Option<&str>) -> (r: String)
    ensures
        r@ == rebuilt_text(strings::opt_str(log)),
{
    match log {
        Some(t) => if text::is_blank(t) {
            "No vpnc output yet. At Debug 1 vpnc only logs steady-state packets; raise Debug to 2 or 3 in Options for the handshake.".to_owned()
        } else {
            t.to_owned()
        },
        None => "Can't read the system journal \u{2014} your user needs to be in the 'systemd-journal' (or 'wheel') group.\nView manually with:  journalctl -t vpnc".to_owned(),
    }
}

/// The files that are emptied to clear the log. The journal cannot be: vpnc's lines count from now
/// on only, which is the second part of the answer.
pub fn clear_log(config: &str, p: &Profile) -> (r: (Vec<String>, bool))
    ensures
        strings::texts(r.0@) == (if model::openconnect_kind(p@.kind) {
            seq![model::log_path(config@, p@)]
        } else {
            seq![model::log_path(config@, p@), model::boot_log_path(config@, p@)]
        }),
        r.1 == !model::openconnect_kind(p@.kind),
{
    let log = model::log_file(config, p);
    if p.is_openconnect() {
        (args::list1(&log), false)
    } else {
        (args::list2(&log, &model::boot_log_file(config, p)), true)
    }
}

/// The process whose lines the log is rebuilt from before it is revealed, where it has to be.
pub fn reveal_rebuilds(p: &Profile, live: &Tunnels) -> (r: Option<u32>)
    ensures
        r == (if !model::openconnect_kind(p@.kind) && live@.contains_key(p@.name) {
            Some(live@[p@.name].0)
        } else {
            None
        }),
{
    if p.is_openconnect() {
        return None;
    }
    match live.get(&p.name) {
        Some(entry) => Some(entry.0),
        None => None,
    }
}

/// The command that reveals the log file.
pub fn reveal_log(config: &str, p: &Profile) -> (r: Invocation)
    ensures
        r@ == (InvocationText {
            program: "/usr/bin/xdg-open"@,
            args: seq![model::log_path(config@, p@)],
            stdin: None,
        }),
{
    Invocation {
        program: "/usr/bin/xdg-open".to_owned(),
        args: args::list1(&model::log_file(config, p)),
        stdin: None,
    }
}

} // verus!
