//! vpnc: Cisco IPSec with IKEv1 and XAUTH.

use crate::args;
use crate::backend;
use crate::backend::{ActionResult, Launch};
use crate::model;
use crate::model::{Profile, ProfileText};
use crate::number;
use crate::privilege;
use crate::scan;
use crate::strings;
use crate::sys;
use crate::sys::{Host, Invocation, InvocationText, Output, JOURNALCTL, VPNC};
use crate::text;
use vstd::prelude::*;

verus! {

broadcast use strings::lemma_texts_push;

// ---- the configuration ----

/// The authentication mode of a profile; `psk` where it does not say.
pub open spec fn auth_mode(p: ProfileText) -> Seq<char> {
    match model::given(p.authmode) {
        Some(m) => m,
        None => "psk"@,
    }
}

/// Whether a profile's authentication mode needs a certificate authority in place of a group
/// secret.
pub open spec fn uses_cert(p: ProfileText) -> bool {
    auth_mode(p) == "cert"@ || auth_mode(p) == "hybrid"@
}

/// The login domain: the one before the user name, else the one that the profile keeps apart.
pub open spec fn login_domain(p: ProfileText) -> Option<Seq<char>> {
    match model::domain_and_user(p.username).0 {
        Some(d) => Some(d),
        None => model::given(p.domain),
    }
}

fn mode_of(p: &Profile) -> (r: String)
    ensures
        r@ == auth_mode(p@),
{
    match model::ne_field(&p.authmode) {
        Some(m) => m,
        None => "psk".to_owned(),
    }
}

/// Whether the profile logs in with a group secret, which has to be looked up then.
pub fn needs_secret(p: &Profile) -> (r: bool)
    ensures
        r == !uses_cert(p@),
{
    let mode = mode_of(p);
    !(text::equal(&mode, "cert") || text::equal(&mode, "hybrid"))
}

/// What is said where a profile lacks its certificate authority.
pub open spec fn no_ca_text(p: ProfileText) -> Seq<char> {
    auth_mode(p) + " auth needs a CA file.\nOpen the profile editor and set it."@
}

/// What is said where a profile lacks its group secret.
pub open spec fn no_secret_text(p: ProfileText) -> Seq<char> {
    "Group secret not found for \u{201c}"@ + p.name
        + "\u{201d}.\nOpen the profile editor and set it."@
}

/// The directive by which a profile authenticates its group, or what is said where it cannot.
pub open spec fn credential(p: ProfileText, secret: Option<Seq<char>>) -> Result<
    Seq<char>,
    Seq<char>,
> {
    if uses_cert(p) {
        match model::given(p.ca_file) {
            Some(ca) => Ok("CA-File "@ + ca),
            None => Err(no_ca_text(p)),
        }
    } else {
        match secret {
            Some(s) => Ok("IPSec secret "@ + s),
            None => Err(no_secret_text(p)),
        }
    }
}

/// The directive by which the profile authenticates its group. `secret` is the group secret as it
/// was found, which counts only where the profile uses one.
pub fn group_credential(p: &Profile, secret: Option<&str>) -> (r: Result<String, ActionResult>)
    ensures
        match r {
            Ok(line) => credential(p@, strings::opt_str(secret)) == Ok::<Seq<char>, Seq<char>>(
                line@,
            ),
            Err(e) => match credential(p@, strings::opt_str(secret)) {
                Ok(_) => false,
                Err(m) => backend::message(e) == Some(m),
            },
        },
{
    if needs_secret(p) {
        match secret {
            Some(s) => Ok(text::cat("IPSec secret ", s)),
            None => Err(
                ActionResult::Message(
                    text::cat3(
                        "Group secret not found for \u{201c}",
                        &p.name,
                        "\u{201d}.\nOpen the profile editor and set it.",
                    ),
                ),
            ),
        }
    } else {
        match model::ne_field(&p.ca_file) {
            Some(ca) => Ok(text::cat("CA-File ", &ca)),
            None => Err(
                ActionResult::Message(
                    text::cat(
                        &mode_of(p),
                        " auth needs a CA file.\nOpen the profile editor and set it.",
                    ),
                ),
            ),
        }
    }
}

/// The directives that say whom to connect to and as whom.
pub open spec fn login_lines(p: ProfileText, ip: Seq<char>) -> Seq<Seq<char>> {
    seq![
        "IPSec gateway "@ + ip,
        "IPSec ID "@ + p.id,
        "IKE Authmode "@ + auth_mode(p),
        "Xauth username "@ + model::domain_and_user(p.username).1,
    ]
}

/// The directives that give a value, where the profile has one.
pub open spec fn value_lines(p: ProfileText) -> Seq<Seq<char>> {
    args::prefixed("IKE DH Group "@, p.dh_group) + args::prefixed(
        "Perfect Forward Secrecy "@,
        p.pfs,
    ) + args::prefixed("NAT Traversal Mode "@, p.nat_mode) + args::prefixed("Vendor "@, p.vendor)
        + args::prefixed("Interface MTU "@, p.mtu) + args::prefixed(
        "DPD idle timeout (our side) "@,
        p.dpd_timeout,
    ) + args::prefixed("Debug "@, p.debug)
}

/// The directives that switch something on. Weak encryption is on where the profile does not say,
/// the others are off.
pub open spec fn switch_lines(p: ProfileText) -> Seq<Seq<char>> {
    args::if_set(p.enable_weak != Some(false), "Enable weak encryption"@) + args::if_set(
        p.single_des == Some(true),
        "Enable Single DES"@,
    ) + args::if_set(p.no_encryption == Some(true), "Enable no encryption"@) + args::if_set(
        p.weak_auth == Some(true),
        "Enable weak authentication"@,
    )
}

/// vpnc's directives for a profile, one to a line.
pub open spec fn config_lines(
    h: Host,
    p: ProfileText,
    ip: Seq<char>,
    credential: Seq<char>,
    password: Option<Seq<char>>,
) -> Seq<Seq<char>> {
    (login_lines(p, ip).push(credential) + args::with_value("Domain "@, login_domain(p))
        + args::with_value("Xauth password "@, password) + value_lines(p) + switch_lines(p)).push(
        "Script "@ + backend::invocation_text(h, p),
    ) + args::any(p.extra)
}

fn all_login_lines(p: &Profile, ip: &str, user: &str) -> (v: Vec<String>)
    requires
        user@ == model::domain_and_user(p@.username).1,
    ensures
        strings::texts(v@) == login_lines(p@, ip@),
{
    let mut v = args::list3(
        &text::cat("IPSec gateway ", ip),
        &text::cat("IPSec ID ", &p.id),
        &text::cat("IKE Authmode ", &mode_of(p)),
    );
    args::push(&mut v, &text::cat("Xauth username ", user));
    v
}

fn all_value_lines(p: &Profile) -> (v: Vec<String>)
    ensures
        strings::texts(v@) == value_lines(p@),
{
    let mut v = args::empty();
    args::push_prefixed(&mut v, "IKE DH Group ", &p.dh_group);
    args::push_prefixed(&mut v, "Perfect Forward Secrecy ", &p.pfs);
    args::push_prefixed(&mut v, "NAT Traversal Mode ", &p.nat_mode);
    args::push_prefixed(&mut v, "Vendor ", &p.vendor);
    args::push_prefixed(&mut v, "Interface MTU ", &p.mtu);
    args::push_prefixed(&mut v, "DPD idle timeout (our side) ", &p.dpd_timeout);
    args::push_prefixed(&mut v, "Debug ", &p.debug);
    v
}

fn all_switch_lines(p: &Profile) -> (v: Vec<String>)
    ensures
        strings::texts(v@) == switch_lines(p@),
{
    let weak: bool = match p.enable_weak {
        Some(b) => b,
        None => true,
    };
    let mut v = args::empty();
    args::push_if(&mut v, weak, "Enable weak encryption");
    args::push_if(&mut v, is_on(p.single_des), "Enable Single DES");
    args::push_if(&mut v, is_on(p.no_encryption), "Enable no encryption");
    args::push_if(&mut v, is_on(p.weak_auth), "Enable weak authentication");
    v
}

fn is_on(o: Option<bool>) -> (r: bool)
    ensures
        r == (o == Some(true)),
{
    match o {
        Some(b) => b,
        None => false,
    }
}

/// The configuration that vpnc reads from its standard input, secrets in it. `ip` is the gateway's
/// address; `secret` and `password` are what was found under the profile's services.
pub fn build_config(
    h: &Host,
    p: &Profile,
    ip: &str,
    secret: Option<&str>,
    password: Option<&str>,
) -> (r: Result<String, ActionResult>)
    ensures
        match r {
            Ok(config) => match credential(p@, strings::opt_str(secret)) {
                Ok(line) => config@ == scan::joined(
                    config_lines(*h, p@, ip@, line, strings::opt_str(password)),
                    "\n"@,
                ) + "\n"@,
                Err(_) => false,
            },
            Err(e) => match credential(p@, strings::opt_str(secret)) {
                Ok(_) => false,
                Err(m) => backend::message(e) == Some(m),
            },
        },
{
    let line = match group_credential(p, secret) {
        Ok(line) => line,
        Err(e) => return Err(e),
    };
    let (own_domain, user) = model::split_domain_user(&p.username);
    let domain = match own_domain {
        Some(d) => Some(d),
        None => model::ne_field(&p.domain),
    };
    let found: Option<&str> = match &domain {
        Some(d) => Some(d.as_str()),
        None => None,
    };
    let mut v = all_login_lines(p, ip, &user);
    args::push(&mut v, &line);
    args::push_with_value(&mut v, "Domain ", found);
    args::push_with_value(&mut v, "Xauth password ", password);
    args::extend(&mut v, &all_value_lines(p));
    args::extend(&mut v, &all_switch_lines(p));
    args::push(&mut v, &text::cat("Script ", &backend::script_invocation(h, p)));
    args::extend_any(&mut v, &p.extra);
    Ok(text::cat(&scan::join(&v, "\n"), "\n"))
}

// ---- connecting ----

/// What brings a profile up: vpnc as root, with its configuration on its standard input.
pub open spec fn launch_text(h: Host, p: ProfileText, config: Seq<char>) -> InvocationText {
    privilege::as_root(
        VPNC@,
        seq!["--non-inter"@, "--pid-file"@, model::pid_path(h.config@, p), "-"@],
        Some(config),
    )
}

/// What brings the profile up. What vpnc prints until it goes to the background belongs in the
/// boot log.
pub fn connect(h: &Host, p: &Profile, config: String) -> (r: Launch)
    ensures
        r.command@ == launch_text(*h, p@, config@),
        r.log@ == model::boot_log_path(""@, p@),
{
    let mut v = args::list3("--non-inter", "--pid-file", &model::pid_file(&h.config, p));
    args::push(&mut v, "-");
    Launch {
        command: privilege::run_root(VPNC, &v, Some(config)),
        log: model::boot_log_file("", p),
    }
}

/// How connecting ended, by what vpnc left behind.
pub open spec fn connect_message(o: Output) -> Option<Seq<char>> {
    if o.status == 0 {
        None
    } else if privilege::dismissed(o.status, o.err@) {
        Some(backend::cancelled())
    } else {
        let tail = sys::tail_text(text::trim(o.out@), 600);
        Some(
            "vpnc failed (status "@ + number::signed_decimal(o.status as int) + "):\n"@ + (
            if tail.len() == 0 {
                o.out@
            } else {
                tail
            }),
        )
    }
}

/// How connecting ended, by what vpnc left behind.
pub fn connect_result(o: &Output) -> (r: ActionResult)
    ensures
        backend::message(r) == connect_message(*o),
{
    if o.ok() {
        return ActionResult::Done;
    }
    if privilege::was_dismissed(o) {
        return ActionResult::Message("Authorization was cancelled.".to_owned());
    }
    let mut s = text::cat3(
        "vpnc failed (status ",
        &number::to_signed_decimal(o.status),
        "):\n",
    );
    let tail = sys::tail_chars(&text::trimmed(&o.out), 600);
    if tail.as_str().is_empty() {
        s.append(&o.out);
    } else {
        s.append(&tail);
    }
    ActionResult::Message(s)
}

/// The command that is shown and run names no secret: it is the same whatever the configuration.
pub proof fn law_config_is_not_an_argument(
    h: Host,
    p: ProfileText,
    one: Seq<char>,
    other: Seq<char>,
)
    ensures
        launch_text(h, p, one).args == launch_text(h, p, other).args,
        launch_text(h, p, one).stdin == Some(one),
{
}

// ---- the session log ----

/// The command that asks the journal for what a vpnc process wrote, at most its last 2000 lines,
/// and only those since a time where one is given.
pub open spec fn journal_text(pid: u32, since: Option<u64>) -> InvocationText {
    InvocationText {
        program: JOURNALCTL@,
        args: seq![
            "-t"@,
            "vpnc"@,
            "_PID="@ + number::decimal(pid as nat),
            "-o"@,
            "cat"@,
            "--no-pager"@,
            "-n"@,
            "2000"@,
        ] + match since {
            Some(s) => seq!["--since=@"@ + number::decimal(s as nat)],
            None => Seq::empty(),
        },
        stdin: None,
    }
}

/// The command that asks the journal for what a vpnc process wrote.
pub fn journal_log(pid: u32, since: Option<u64>) -> (r: Invocation)
    ensures
        r@ == journal_text(pid, since),
{
    let mut v = args::list3("-t", "vpnc", &text::cat("_PID=", &number::to_decimal(pid as u64)));
    args::push(&mut v, "-o");
    args::push(&mut v, "cat");
    args::push(&mut v, "--no-pager");
    args::push(&mut v, "-n");
    args::push(&mut v, "2000");
    if let Some(s) = since {
        args::push(&mut v, &text::cat("--since=@", &number::to_decimal(s)));
    }
    let r = Invocation { program: JOURNALCTL.to_owned(), args: v, stdin: None };
    assert(r@ =~= journal_text(pid, since));
    r
}

/// A session's log: what vpnc printed while it connected, without white space at its end and where
/// there is any, and then what it wrote to the journal.
pub open spec fn session_text(boot: Seq<char>, journal: Seq<char>) -> Seq<char> {
    if text::trim(boot).len() == 0 {
        journal
    } else {
        text::trim_end(boot) + "\n"@ + journal
    }
}

/// The session's log, from the journal's answer and the boot log; nothing where the journal could
/// not be read.
pub fn session_log(journal: &Output, boot: &str) -> (r: Result<String, ()>)
    ensures
        match r {
            Ok(s) => journal.status == 0 && s@ == session_text(boot@, journal.out@),
            Err(_) => journal.status != 0,
        },
{
    if !journal.ok() {
        return Err(());
    }
    if text::is_blank(boot) {
        Ok(journal.out.clone())
    } else {
        Ok(text::cat3(&text::trimmed_end(boot), "\n", &journal.out))
    }
}

} // verus!
