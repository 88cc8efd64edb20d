//! Bringing tunnels up and down, with vpnc (Cisco IPSec) or openconnect (AnyConnect SSL).

pub mod openconnect;
pub mod vpnc;

use crate::args;
use crate::model;
use crate::model::{Profile, ProfileText};
use crate::number;
use crate::privilege;
use crate::scan;
use crate::strings;
use crate::sys;
use crate::sys::{Host, Invocation, InvocationText, Output, KILL, PKEXEC, VPNC, VPNCBAR_DISCONNECT};
use crate::text;
use crate::tunnel;
use crate::tunnel::Tunnels;
use vstd::prelude::*;

verus! {

broadcast use strings::lemma_texts_push;

/// How connecting or disconnecting ended; a message tells the user what went wrong.
#[derive(Debug)]
pub enum ActionResult {
    Done,
    Message(String),
}

/// The message of a result, where there is one.
pub open spec fn message(r: ActionResult) -> Option<Seq<char>> {
    match r {
        ActionResult::Done => None,
        ActionResult::Message(m) => Some(m@),
    }
}

/// A program to run as root, and the file that what it prints goes to, for as long as it runs.
#[derive(Debug)]
pub struct Launch {
    pub command: Invocation,
    /// The file, below the program's directory.
    pub log: String,
}

// ---- the network script ----

/// Whether a character may stand in the list of scoped domains.
pub open spec fn domain_char(c: char) -> bool {
    text::alphanumeric(c) || c == '.' || c == ' ' || c == '-' || c == '_'
}

/// A text with its commas made spaces, and without what may not stand in the list of domains.
pub open spec fn domain_chars(s: Seq<char>) -> Seq<char>
    decreases s.len(),
{
    if s.len() == 0 {
        Seq::empty()
    } else {
        let before = domain_chars(s.drop_last());
        if s.last() == ',' {
            before.push(' ')
        } else if domain_char(s.last()) {
            before.push(s.last())
        } else {
            before
        }
    }
}

/// The scoped domains of a text, with one space between.
pub open spec fn domains_text(s: Seq<char>) -> Seq<char> {
    scan::joined(scan::words(domain_chars(s)), " "@)
}

/// The variables that the network script reads, as assignments before its name: which tunnel it
/// serves, and the scoped domains where there are any.
pub open spec fn env_prefix_text(p: ProfileText) -> Seq<char> {
    let pin = "VPNPID='"@ + model::ident_text(p) + "'"@;
    match model::given(p.dns_match_domains) {
        Some(raw) => if domains_text(raw).len() > 0 {
            pin + " VPNC_MATCH_DOMAINS='"@ + domains_text(raw) + "'"@
        } else {
            pin
        },
        None => pin,
    }
}

fn keep_domain_chars(s: &str) -> (r: String)
    ensures
        r@ == domain_chars(s@),
{
    let v = text::chars(s);
    let mut out = String::new();
    let mut i: usize = 0;
    while i < v.len()
        invariant
            i <= v@.len(),
            out@ == domain_chars(v@.take(i as int)),
        decreases v.len() - i,
    {
        proof {
            let t = v@.take(i + 1);
            assert(t.drop_last() =~= v@.take(i as int));
            assert(t.last() == v@[i as int]);
        }
        let c = v[i];
        if c == ',' {
            out.push(' ');
        } else if text::is_alphanumeric(c) || c == '.' || c == ' ' || c == '-' || c == '_' {
            out.push(c);
        }
        i += 1;
    }
    assert(v@.take(v@.len() as int) =~= v@);
    out
}

/// The variables that the network script reads, as assignments before its name.
pub fn script_env_prefix(p: &Profile) -> (r: String)
    ensures
        r@ == env_prefix_text(p@),
{
    let mut s = text::cat3("VPNPID='", p.ident(), "'");
    if let Some(raw) = model::ne_field(&p.dns_match_domains) {
        let words = scan::word_list(&keep_domain_chars(&raw));
        let joined = scan::join(&words, " ");
        if !joined.as_str().is_empty() {
            s.append(" VPNC_MATCH_DOMAINS='");
            s.append(&joined);
            s.append("'");
        }
    }
    s
}

/// The network script behind its variables.
pub open spec fn invocation_text(h: Host, p: ProfileText) -> Seq<char> {
    env_prefix_text(p) + " "@ + sys::script_path(h)
}

/// The network script behind its variables, for either backend.
pub fn script_invocation(h: &Host, p: &Profile) -> (r: String)
    ensures
        r@ == invocation_text(*h, p@),
{
    text::cat3(&script_env_prefix(p), " ", &sys::vpnc_script(h))
}

/// In the list of domains stand only letters, digits, dots, hyphens, underscores and spaces. No
/// quote is among them, so the quoted value ends where it should.
pub proof fn law_domains_are_quotable(s: Seq<char>)
    ensures
        forall|i: int| 0 <= i < domains_text(s).len() ==> domain_char(#[trigger] domains_text(s)[i]),
        !domains_text(s).contains('\''),
{
    reveal_strlit(" ");
    let d = domain_chars(s);
    lemma_domain_chars(s);
    scan::lemma_words_part(d, |c: char| domain_char(c));
    scan::lemma_joined_part(scan::words(d), " "@, |c: char| domain_char(c));
    assert(!domain_char('\''));
}

proof fn lemma_domain_chars(s: Seq<char>)
    ensures
        forall|i: int| 0 <= i < domain_chars(s).len() ==> domain_char(#[trigger] domain_chars(s)[i]),
    decreases s.len(),
{
    if s.len() > 0 {
        lemma_domain_chars(s.drop_last());
        let before = domain_chars(s.drop_last());
        assert forall|i: int| 0 <= i < domain_chars(s).len() implies domain_char(
            #[trigger] domain_chars(s)[i],
        ) by {
            if i < before.len() {
                assert(domain_chars(s)[i] == before[i]);
            }
        }
    }
}

// ---- connecting ----

/// Which way a profile is brought up.
#[derive(Debug, PartialEq, Eq, Structural)]
pub enum Route {
    /// It is up already: there is nothing to do.
    Up,
    Openconnect,
    Vpnc,
}

/// Which way a profile is brought up, where `live` are its live tunnels. No second daemon is
/// launched for a profile that is up.
pub fn connect(p: &Profile, live: &Tunnels) -> (r: Route)
    ensures
        r == Route::Up <==> live@ != Map::<Seq<char>, (u32, u64)>::empty(),
        r == Route::Openconnect <==> live@ == Map::<Seq<char>, (u32, u64)>::empty()
            && model::openconnect_kind(p@.kind),
        r == Route::Vpnc <==> live@ == Map::<Seq<char>, (u32, u64)>::empty()
            && !model::openconnect_kind(p@.kind),
{
    if !live.is_empty() {
        Route::Up
    } else if p.is_openconnect() {
        Route::Openconnect
    } else {
        Route::Vpnc
    }
}

/// The command that is run as root, as it is shown to the user. Secrets are read from the standard
/// input, so they are no part of it.
pub open spec fn command_line_text(h: Host, p: ProfileText) -> Seq<char> {
    if model::openconnect_kind(p.kind) {
        PKEXEC@ + " "@ + scan::joined(openconnect::args_text(h, p), " "@)
    } else {
        PKEXEC@ + " "@ + VPNC@ + " --non-inter --pid-file "@ + model::pid_path(h.config@, p)
            + " -"@
    }
}

/// The command that is run as root, as it is shown to the user.
pub fn command_line(h: &Host, p: &Profile) -> (r: String)
    ensures
        r@ == command_line_text(*h, p@),
{
    if p.is_openconnect() {
        text::cat3(PKEXEC, " ", &scan::join(&openconnect::build_args(h, p), " "))
    } else {
        let mut s = text::cat3(PKEXEC, " ", VPNC);
        s.append(" --non-inter --pid-file ");
        s.append(&model::pid_file(&h.config, p));
        s.append(" -");
        s
    }
}

// ---- disconnecting ----

/// What ends the tunnel of a process: the installed helper, which checks its target, or else a
/// plain signal.
pub open spec fn end_command(h: Host, pid: u32) -> InvocationText {
    if h.helper_installed {
        privilege::as_root(VPNCBAR_DISCONNECT@, seq![number::decimal(pid as nat)], None)
    } else {
        privilege::as_root(KILL@, seq!["-TERM"@, number::decimal(pid as nat)], None)
    }
}

/// What ends the profile's tunnel, where `live` holds one; nothing is to be done where it holds
/// none.
pub fn disconnect(h: &Host, p: &Profile, live: &Tunnels) -> (r: Option<Invocation>)
    ensures
        match r {
            Some(c) => live@.contains_key(p@.name) && c@ == end_command(*h, live@[p@.name].0),
            None => !live@.contains_key(p@.name),
        },
{
    match live.get(&p.name) {
        Some(entry) => {
            let pid = number::to_decimal(entry.0 as u64);
            let c = match sys::disconnect_helper(h) {
                Some(helper) => privilege::run_root(helper, &args::list1(&pid), None),
                None => privilege::run_root(KILL, &args::list2("-TERM", &pid), None),
            };
            Some(c)
        },
        None => None,
    }
}

/// What is said where the user refused to authorize.
pub open spec fn cancelled() -> Seq<char> {
    "Authorization was cancelled."@
}

/// How disconnecting ended, by what its command left behind.
pub open spec fn disconnect_message(o: Output) -> Option<Seq<char>> {
    if o.status == 0 {
        None
    } else if privilege::dismissed(o.status, o.err@) {
        Some(cancelled())
    } else {
        Some(
            "disconnect failed (status "@ + number::signed_decimal(o.status as int) + "):\n"@ + (
            if o.err@.len() == 0 {
                o.out@
            } else {
                o.err@
            }),
        )
    }
}

/// How disconnecting ended, by what its command left behind.
pub fn disconnect_result(o: &Output) -> (r: ActionResult)
    ensures
        message(r) == disconnect_message(*o),
{
    if o.ok() {
        return ActionResult::Done;
    }
    if privilege::was_dismissed(o) {
        return ActionResult::Message("Authorization was cancelled.".to_owned());
    }
    let mut s = text::cat3(
        "disconnect failed (status ",
        &number::to_signed_decimal(o.status),
        "):\n",
    );
    if o.err.as_str().is_empty() {
        s.append(&o.out);
    } else {
        s.append(&o.err);
    }
    ActionResult::Message(s)
}

// ---- laws ----

/// The process that vpnc's launch starts is recognised as the tunnel of the profile it was launched
/// for, among all the profiles there are, where the profile can be told by its pid file.
pub proof fn law_launched_vpnc_is_recognised(
    h: Host,
    profiles: Seq<ProfileText>,
    i: int,
    config: Seq<char>,
)
    requires
        model::told_by_stem(profiles, i),
    ensures
        tunnel::owner(profiles, vpnc::launch_text(h, profiles[i], config).args) == Some(i),
{
    let argv = vpnc::launch_text(h, profiles[i], config).args;
    reveal_strlit("/usr/bin/vpnc");
    reveal_strlit("vpnc");
    reveal_strlit("--non-inter");
    reveal_strlit("--pid-file");
    let dir = VPNC@.take(8);
    assert(VPNC@ =~= dir.push('/') + "vpnc"@);
    scan::lemma_base_name(dir, "vpnc"@);
    assert(argv[0] == VPNC@);
    assert(argv[0].len() != "--pid-file"@.len());
    assert(argv[1] == "--non-inter"@);
    assert(argv[1].len() != "--pid-file"@.len());
    tunnel::lemma_owner(profiles, i, h.config@, argv);
}

/// The process that openconnect's launch starts is recognised as the tunnel of the profile it was
/// launched for, among all the profiles there are, where the profile can be told by its pid file.
pub proof fn law_launched_openconnect_is_recognised(h: Host, profiles: Seq<ProfileText>, i: int)
    requires
        model::told_by_stem(profiles, i),
    ensures
        tunnel::owner(profiles, openconnect::args_text(h, profiles[i])) == Some(i),
{
    let argv = openconnect::args_text(h, profiles[i]);
    reveal_strlit("/usr/bin/openconnect");
    reveal_strlit("/usr/local/bin/openconnect");
    reveal_strlit("openconnect");
    reveal_strlit("--background");
    reveal_strlit("--pid-file");
    let bin = sys::OPENCONNECT@.take(8);
    assert(sys::OPENCONNECT@ =~= bin.push('/') + "openconnect"@);
    scan::lemma_base_name(bin, "openconnect"@);
    let local = sys::OPENCONNECT_LOCAL@.take(14);
    assert(sys::OPENCONNECT_LOCAL@ =~= local.push('/') + "openconnect"@);
    scan::lemma_base_name(local, "openconnect"@);
    scan::lemma_base_name_free("openconnect"@);
    let base = openconnect::base_args(h, profiles[i]);
    assert(argv[0] == base[0] && argv[1] == base[1] && argv[2] == base[2] && argv[3] == base[3]);
    assert(argv[0].len() != "--pid-file"@.len());
    assert(argv[1].len() != "--pid-file"@.len());
    tunnel::lemma_owner(profiles, i, h.config@, argv);
}

/// No second daemon is launched for a profile: while the process of its first launch runs, the
/// profile has a live tunnel, and [`connect`] finds it up.
pub proof fn law_no_second_daemon(
    h: Host,
    p: ProfileText,
    config: Seq<char>,
    procs: Seq<tunnel::ProcessText>,
    named: Seq<Option<tunnel::ProcessText>>,
    k: int,
)
    requires
        p.uuid matches Some(u) && !u.contains('/'),
        0 <= k < procs.len(),
        procs[k].elapsed is Some,
        procs[k].argv == vpnc::launch_text(h, p, config).args || procs[k].argv
            == openconnect::args_text(h, p),
    ensures
        tunnel::live(seq![p], procs, named).contains_key(p.name),
        tunnel::live(seq![p], procs, named) != Map::<Seq<char>, (u32, u64)>::empty(),
{
    let profiles = seq![p];
    law_launched_vpnc_is_recognised(h, profiles, 0, config);
    law_launched_openconnect_is_recognised(h, profiles, 0);
    tunnel::law_owned_process_is_live(profiles, procs, named, k, 0);
}

} // verus!
