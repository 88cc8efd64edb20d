//! What the editor shows of a tunnel, and other texts for the user.

use crate::backend;
use crate::laws::rows;
use crate::laws::texts;
use crate::model::ProfileText;
use crate::number;
use crate::scan;
use crate::sys;
use crate::sys::{Host, Output};
use crate::text;
use crate::tunnel;
use crate::tunnel::{Counters, TunnelText};
use crate::ui::about;
use crate::ui::editor;
use crate::ui::info;
use crate::ui::info::LogStep;
use crate::ui::pages;
use crate::ui::pages::Field;
use vstd::prelude::*;

verus! {

// ---- the state ----

/// A profile counts as connected where it has been saved and its label has a live tunnel.
pub proof fn law_saved_and_live_is_connected(p: ProfileText, live: Map<Seq<char>, (u32, u64)>)
    ensures
        info::connected(p, live) <==> p.uuid is Some && live.contains_key(p.name),
{
}

/// What was asked for is waited for until it is there, and for no more than twenty seconds.
pub proof fn law_state_is_waited_for(target: bool, secs: u64, up: bool)
    ensures
        up != target && secs < 20 ==> info::awaited(Some((target, secs)), up) == Some(target),
        up == target || secs >= 20 ==> info::awaited(Some((target, secs)), up) is None,
        info::awaited(None, up) is None,
{
}

/// The state is called by what is waited for, and else by what it is.
pub proof fn law_state_is_named(up: bool)
    ensures
        info::status_text(up, Some(true)) == "Connecting\u{2026}"@,
        info::status_text(up, Some(false)) == "Disconnecting\u{2026}"@,
        info::status_text(true, None) == "Connected"@,
        info::status_text(false, None) == "Not connected"@,
{
}

// ---- the details ----

/// Of a tunnel that nothing more is known of, the details say for how long it is up.
pub proof fn law_details_say_the_uptime(secs: nat, t: TunnelText, c: Option<Counters>)
    requires
        t.iface is None,
        t.internal_ip is None,
        t.gateway is None,
        t.dns is None,
        t.match_domains is None,
        t.routes.len() == 0,
    ensures
        info::details_text(secs, t, c) == "Uptime:        "@ + tunnel::elapsed_text(secs) + "\n"@,
{
    assert(info::details_text(secs, t, c) =~= "Uptime:        "@ + tunnel::elapsed_text(secs)
        + "\n"@);
}

/// Whether more being known adds a line to the details, behind the first, and changes nothing else.
pub open spec fn adds_text(
    secs: nat,
    with: TunnelText,
    without: TunnelText,
    c: Option<Counters>,
    more: Seq<char>,
) -> bool {
    rows::inserted(
        info::details_text(secs, with, c),
        info::details_text(secs, without, c),
        more,
        ("Uptime:        "@ + tunnel::elapsed_text(secs) + "\n"@).len() as int,
        info::details_text(secs, without, c).len() as int,
    )
}

proof fn lemma_adds_text(
    secs: nat,
    with: TunnelText,
    without: TunnelText,
    c: Option<Counters>,
    pre: Seq<char>,
    more: Seq<char>,
    post: Seq<char>,
)
    requires
        info::details_text(secs, with, c) == pre + more + post,
        info::details_text(secs, without, c) == pre + post,
        pre.len() >= ("Uptime:        "@ + tunnel::elapsed_text(secs) + "\n"@).len(),
    ensures
        adds_text(secs, with, without, c, more),
{
    rows::lemma_inserted(
        info::details_text(secs, with, c),
        info::details_text(secs, without, c),
        pre,
        more,
        post,
        ("Uptime:        "@ + tunnel::elapsed_text(secs) + "\n"@).len() as int,
        info::details_text(secs, without, c).len() as int,
    );
}

/// The address inside the tunnel is shown on a line of its own, where it is known.
pub proof fn law_details_say_internal_ip(
    secs: nat,
    t: TunnelText,
    c: Option<Counters>,
    value: Seq<char>,
)
    ensures
        adds_text(
            secs,
            (TunnelText { internal_ip: Some(value), ..t }),
            (TunnelText { internal_ip: None, ..t }),
            c,
            "Internal IP:   "@ + value + "\n"@,
        ),
{
    let with = TunnelText { internal_ip: Some(value), ..t };
    let without = TunnelText { internal_ip: None, ..t };
    let s0 = "Uptime:        "@ + tunnel::elapsed_text(secs) + "\n"@;
    let s1 = info::interface_text(t.iface, c);
    let s3 = info::line_text("Gateway:       "@, t.gateway);
    let s4 = info::line_text("DNS:           "@, t.dns);
    let s5 = info::line_text("Match domains: "@, t.match_domains);
    let s6 = info::line_text("Routes:        "@, info::routes_text(t.routes));
    let more = "Internal IP:   "@ + value + "\n"@;
    let pre = s0 + s1;
    rows::lemma_empty(pre);
    rows::lemma_empty(pre + more);
    rows::lemma_assoc(pre + more, s3, s4);
    rows::lemma_assoc(pre, s3, s4);
    rows::lemma_assoc(pre + more, s3 + s4, s5);
    rows::lemma_assoc(pre, s3 + s4, s5);
    rows::lemma_assoc(pre + more, s3 + s4 + s5, s6);
    rows::lemma_assoc(pre, s3 + s4 + s5, s6);
    let post = s3 + s4 + s5 + s6;
    assert(info::details_text(secs, with, c) == pre + more + post);
    assert(info::details_text(secs, without, c) == pre + post);
    lemma_adds_text(secs, with, without, c, pre, more, post);
}

/// The gateway is shown on a line of its own, where it is known.
pub proof fn law_details_say_gateway(
    secs: nat,
    t: TunnelText,
    c: Option<Counters>,
    value: Seq<char>,
)
    ensures
        adds_text(
            secs,
            (TunnelText { gateway: Some(value), ..t }),
            (TunnelText { gateway: None, ..t }),
            c,
            "Gateway:       "@ + value + "\n"@,
        ),
{
    let with = TunnelText { gateway: Some(value), ..t };
    let without = TunnelText { gateway: None, ..t };
    let s0 = "Uptime:        "@ + tunnel::elapsed_text(secs) + "\n"@;
    let s1 = info::interface_text(t.iface, c);
    let s2 = info::line_text("Internal IP:   "@, t.internal_ip);
    let s4 = info::line_text("DNS:           "@, t.dns);
    let s5 = info::line_text("Match domains: "@, t.match_domains);
    let s6 = info::line_text("Routes:        "@, info::routes_text(t.routes));
    let more = "Gateway:       "@ + value + "\n"@;
    let pre = s0 + s1 + s2;
    rows::lemma_empty(pre);
    rows::lemma_empty(pre + more);
    rows::lemma_assoc(pre + more, s4, s5);
    rows::lemma_assoc(pre, s4, s5);
    rows::lemma_assoc(pre + more, s4 + s5, s6);
    rows::lemma_assoc(pre, s4 + s5, s6);
    let post = s4 + s5 + s6;
    assert(info::details_text(secs, with, c) == pre + more + post);
    assert(info::details_text(secs, without, c) == pre + post);
    lemma_adds_text(secs, with, without, c, pre, more, post);
}

/// The resolvers is shown on a line of its own, where it is known.
pub proof fn law_details_say_dns(
    secs: nat,
    t: TunnelText,
    c: Option<Counters>,
    value: Seq<char>,
)
    ensures
        adds_text(
            secs,
            (TunnelText { dns: Some(value), ..t }),
            (TunnelText { dns: None, ..t }),
            c,
            "DNS:           "@ + value + "\n"@,
        ),
{
    let with = TunnelText { dns: Some(value), ..t };
    let without = TunnelText { dns: None, ..t };
    let s0 = "Uptime:        "@ + tunnel::elapsed_text(secs) + "\n"@;
    let s1 = info::interface_text(t.iface, c);
    let s2 = info::line_text("Internal IP:   "@, t.internal_ip);
    let s3 = info::line_text("Gateway:       "@, t.gateway);
    let s5 = info::line_text("Match domains: "@, t.match_domains);
    let s6 = info::line_text("Routes:        "@, info::routes_text(t.routes));
    let more = "DNS:           "@ + value + "\n"@;
    let pre = s0 + s1 + s2 + s3;
    rows::lemma_empty(pre);
    rows::lemma_empty(pre + more);
    rows::lemma_assoc(pre + more, s5, s6);
    rows::lemma_assoc(pre, s5, s6);
    let post = s5 + s6;
    assert(info::details_text(secs, with, c) == pre + more + post);
    assert(info::details_text(secs, without, c) == pre + post);
    lemma_adds_text(secs, with, without, c, pre, more, post);
}

/// The scoped domains is shown on a line of its own, where it is known.
pub proof fn law_details_say_match_domains(
    secs: nat,
    t: TunnelText,
    c: Option<Counters>,
    value: Seq<char>,
)
    ensures
        adds_text(
            secs,
            (TunnelText { match_domains: Some(value), ..t }),
            (TunnelText { match_domains: None, ..t }),
            c,
            "Match domains: "@ + value + "\n"@,
        ),
{
    let with = TunnelText { match_domains: Some(value), ..t };
    let without = TunnelText { match_domains: None, ..t };
    let s0 = "Uptime:        "@ + tunnel::elapsed_text(secs) + "\n"@;
    let s1 = info::interface_text(t.iface, c);
    let s2 = info::line_text("Internal IP:   "@, t.internal_ip);
    let s3 = info::line_text("Gateway:       "@, t.gateway);
    let s4 = info::line_text("DNS:           "@, t.dns);
    let s6 = info::line_text("Routes:        "@, info::routes_text(t.routes));
    let more = "Match domains: "@ + value + "\n"@;
    let pre = s0 + s1 + s2 + s3 + s4;
    rows::lemma_empty(pre);
    rows::lemma_empty(pre + more);
    let post = s6;
    assert(info::details_text(secs, with, c) == pre + more + post);
    assert(info::details_text(secs, without, c) == pre + post);
    lemma_adds_text(secs, with, without, c, pre, more, post);
}

/// The routes are shown on one line with commas between, where there are any.
pub proof fn law_details_say_the_routes(
    secs: nat,
    t: TunnelText,
    c: Option<Counters>,
    routes: Seq<Seq<char>>,
)
    requires
        routes.len() > 0,
    ensures
        adds_text(
            secs,
            (TunnelText { routes, ..t }),
            (TunnelText { routes: Seq::empty(), ..t }),
            c,
            "Routes:        "@ + scan::joined(routes, ", "@) + "\n"@,
        ),
{
    let with = TunnelText { routes, ..t };
    let without = TunnelText { routes: Seq::empty(), ..t };
    let s0 = "Uptime:        "@ + tunnel::elapsed_text(secs) + "\n"@;
    let s1 = info::interface_text(t.iface, c);
    let s2 = info::line_text("Internal IP:   "@, t.internal_ip);
    let s3 = info::line_text("Gateway:       "@, t.gateway);
    let s4 = info::line_text("DNS:           "@, t.dns);
    let s5 = info::line_text("Match domains: "@, t.match_domains);
    let more = "Routes:        "@ + scan::joined(routes, ", "@) + "\n"@;
    let pre = s0 + s1 + s2 + s3 + s4 + s5;
    rows::lemma_empty(pre);
    rows::lemma_empty(pre + more);
    let post = Seq::<char>::empty();
    assert(info::details_text(secs, with, c) == pre + more + post);
    assert(info::details_text(secs, without, c) == pre + post);
    lemma_adds_text(secs, with, without, c, pre, more, post);
}

/// The interface is shown on a line of its own, where it is known, and then what came in and what
/// went out, where the counters are known.
pub proof fn law_details_say_the_interface(
    secs: nat,
    t: TunnelText,
    iface: Seq<char>,
    n: Counters,
)
    ensures
        ({
            let with = TunnelText { iface: Some(iface), ..t };
            let without = TunnelText { iface: None, ..t };
            let name = "Interface:     "@ + iface + "\n"@;
            let came = "Traffic in:    "@ + sys::bytes_text(n.rx_bytes as nat) + " ("@
                + number::decimal(n.rx_pkts as nat) + " pkts)\n"@;
            let went = "Traffic out:   "@ + sys::bytes_text(n.tx_bytes as nat) + " ("@
                + number::decimal(n.tx_pkts as nat) + " pkts)\n"@;
            &&& adds_text(secs, with, without, None, name)
            &&& adds_text(secs, with, without, Some(n), name + came + went)
        }),
{
    let with = TunnelText { iface: Some(iface), ..t };
    let without = TunnelText { iface: None, ..t };
    lemma_interface(secs, t, with, without, None, info::interface_text(Some(iface), None));
    lemma_interface(secs, t, with, without, Some(n), info::interface_text(Some(iface), Some(n)));
}

proof fn lemma_interface(
    secs: nat,
    t: TunnelText,
    with: TunnelText,
    without: TunnelText,
    c: Option<Counters>,
    more: Seq<char>,
)
    requires
        without == (TunnelText { iface: None, ..t }),
        with == (TunnelText { iface: with.iface, ..t }),
        more == info::interface_text(with.iface, c),
    ensures
        adds_text(secs, with, without, c, more),
{
    let s0 = "Uptime:        "@ + tunnel::elapsed_text(secs) + "\n"@;
    let s2 = info::line_text("Internal IP:   "@, t.internal_ip);
    let s3 = info::line_text("Gateway:       "@, t.gateway);
    let s4 = info::line_text("DNS:           "@, t.dns);
    let s5 = info::line_text("Match domains: "@, t.match_domains);
    let s6 = info::line_text("Routes:        "@, info::routes_text(t.routes));
    let pre = s0;
    rows::lemma_empty(pre);
    rows::lemma_empty(pre + more);
    rows::lemma_assoc(pre + more, s2, s3);
    rows::lemma_assoc(pre, s2, s3);
    rows::lemma_assoc(pre + more, s2 + s3, s4);
    rows::lemma_assoc(pre, s2 + s3, s4);
    rows::lemma_assoc(pre + more, s2 + s3 + s4, s5);
    rows::lemma_assoc(pre, s2 + s3 + s4, s5);
    rows::lemma_assoc(pre + more, s2 + s3 + s4 + s5, s6);
    rows::lemma_assoc(pre, s2 + s3 + s4 + s5, s6);
    let post = s2 + s3 + s4 + s5 + s6;
    assert(info::details_text(secs, with, c) == pre + more + post);
    assert(info::details_text(secs, without, c) == pre + post);
    lemma_adds_text(secs, with, without, c, pre, more, post);
}

/// The tab says the state, then the details for as long as the tunnel is up and not still being
/// brought up, and then the command, with the process that runs it where there is one.
pub proof fn law_tab_says_state_details_and_command(
    h: Host,
    p: ProfileText,
    pid: u32,
    secs: u64,
    waiting: Option<bool>,
    t: TunnelText,
    c: Option<Counters>,
)
    ensures
        ({
            let line = backend::command_line_text(h, p);
            let state = |up: bool| "Status:        "@ + info::status_text(up, waiting) + "\n"@;
            let running = "\nCommand (PID "@ + number::decimal(pid as nat) + "):\n"@ + line + "\n"@;
            &&& info::info_text(h, p, None, waiting, t, c) == state(false) + ("\nCommand:\n"@ + line
                + "\n"@)
            &&& p.uuid is Some && waiting != Some(true) ==> info::info_text(
                h,
                p,
                Some((pid, secs)),
                waiting,
                t,
                c,
            ) == state(true) + info::details_text(secs as nat, t, c) + running
            &&& p.uuid is Some && waiting == Some(true) ==> info::info_text(
                h,
                p,
                Some((pid, secs)),
                waiting,
                t,
                c,
            ) == state(true) + running
            &&& p.uuid is None ==> info::info_text(h, p, Some((pid, secs)), waiting, t, c) == state(
                false,
            ) + running
        }),
{
    rows::lemma_empty("Status:        "@ + info::status_text(false, waiting) + "\n"@);
    rows::lemma_empty("Status:        "@ + info::status_text(true, waiting) + "\n"@);
}

// ---- the log ----

/// openconnect's log is shown as it is; vpnc's is rebuilt while it is up, from the process that
/// runs, unless one is being rebuilt, and the process is remembered for when it is gone.
pub proof fn law_log_of_a_live_session_is_rebuilt(pid: u32, last: Option<u32>, live: Option<u32>)
    ensures
        info::log_step(false, Some(pid), last, false) == LogStep::Rebuild(pid),
        info::log_step(false, Some(pid), last, true) == LogStep::Wait,
        info::last_after(false, Some(pid), last, false) == Some(pid),
        info::last_after(false, Some(pid), last, true) == Some(pid),
        info::log_step(false, None, Some(pid), true) == LogStep::Wait,
        info::log_step(true, live, last, true) == LogStep::ShowLog,
        info::log_step(true, live, last, false) == LogStep::ShowLog,
        info::last_after(true, live, last, false) == last,
        info::log_step(false, None, None, false) == LogStep::ShowLast,
{
}

/// A log that says something is shown as it is; for one that says nothing, or cannot be read, the
/// user is told so.
pub proof fn law_log_is_shown_as_it_is(log: Seq<char>)
    ensures
        !texts::all_white(log) ==> info::last_log_text(log) == log,
        !texts::all_white(log) ==> info::rebuilt_text(Some(log)) == log,
        texts::all_white(log) ==> info::last_log_text(log)
            == "No session log yet \u{2014} connect to capture one."@,
        texts::all_white(log) ==> info::rebuilt_text(Some(log))
            == "No vpnc output yet. At Debug 1 vpnc only logs steady-state packets; raise Debug to 2 or 3 in Options for the handshake."@,
        info::rebuilt_text(None)
            == "Can't read the system journal \u{2014} your user needs to be in the 'systemd-journal' (or 'wheel') group.\nView manually with:  journalctl -t vpnc"@,
{
    text::lemma_trim_blank(log);
}

// ---- the editor ----

/// An editor is found again by its profile's uuid; new profiles share one.
pub proof fn law_editor_is_found_by_uuid(p: ProfileText, uuid: Seq<char>)
    ensures
        p.uuid == Some(uuid) ==> editor::key_text(Some(p)) == uuid,
        p.uuid is None ==> editor::key_text(Some(p)) == editor::key_text(None),
        editor::key_text(None) == "__new__"@,
{
}

/// Two modes need a certificate, and the user is told of the one that was chosen where vpnc cannot
/// do it.
pub proof fn law_certificate_modes(mode: Seq<char>)
    ensures
        editor::cert_mode(mode) <==> mode == "cert"@ || mode == "hybrid"@,
        !editor::cert_mode("psk"@),
        editor::note_text(mode)
            == "This vpnc build has no certificate support (not linked against GnuTLS), so \u{201c}"@
            + mode
            + "\u{201d} mode won\u{2019}t take effect. Rebuild vpnc with GnuTLS to use it."@,
{
    reveal_strlit("psk");
    reveal_strlit("cert");
    reveal_strlit("hybrid");
    assert("psk"@.len() == 3 && "cert"@.len() == 4 && "hybrid"@.len() == 6);
}

/// The question whether to trust a certificate names the gateway and shows the fingerprint.
pub proof fn law_question_shows_the_fingerprint(gateway: Seq<char>, pin: Seq<char>)
    ensures
        scan::has(editor::trust_text(gateway, pin), text::trim(gateway)),
        scan::has(editor::trust_text(gateway, pin), "Fingerprint:\n"@ + pin),
{
    let a = "The gateway \u{201c}"@;
    let b = "\u{201d} presented a certificate that isn't trusted (self-signed, or from a private CA).\n\nFingerprint:\n"@;
    let d = "\n\nTrust and pin this certificate? It's saved to the profile and required on every future connection \u{2014} you'll be warned if it ever changes."@;
    let g = text::trim(gateway);
    let s = editor::trust_text(gateway, pin);
    texts::law_held_text_is_found(a, g, b + pin + d);
    assert(s =~= a + g + (b + pin + d));
    reveal_strlit(
        "\u{201d} presented a certificate that isn't trusted (self-signed, or from a private CA).\n\nFingerprint:\n",
    );
    reveal_strlit("Fingerprint:\n");
    let n = b.len() - "Fingerprint:\n"@.len();
    assert(b.skip(n) =~= "Fingerprint:\n"@);
    texts::law_held_text_is_found(a + g + b.take(n), "Fingerprint:\n"@ + pin, d);
    assert(s =~= a + g + b.take(n) + ("Fingerprint:\n"@ + pin) + d);
}

/// Every entry stands on a page of one of the kinds.
pub proof fn law_every_entry_has_its_place(f: Field)
    ensures
        pages::fields(true).contains(f) || pages::fields(false).contains(f),
{
    let a = pages::fields(true);
    let b = pages::fields(false);
    assert(a[0] is Name && a[1] is Gateway && a[2] is OcAuthgroup && a[3] is Username && a[4]
        is Password && a[5] is Domains && a[6] is OcOtp && a[7] is OcServerCert && a[8]
        is ClientCert && a[9] is OcProtocol && a[10] is OcDpd && a[11] is OcMtu && a[12]
        is OcReconnect && a[13] is OcDebug && a[14] is OcNoDtls);
    assert(b[2] is Id && b[3] is Secret && b[7] is Authmode && b[8] is CaFile && b[10] is AuthNote
        && b[11] is DhGroup && b[12] is Pfs && b[13] is NatMode && b[14] is Vendor && b[15] is Mtu
        && b[16] is DpdTimeout && b[17] is Debug && b[18] is EnableWeak && b[19] is SingleDes
        && b[20] is NoEncryption && b[21] is WeakAuth);
}

/// What stands before an entry: a word for it, or nothing where it has its own.
pub open spec fn label_of(f: Field) -> Option<Seq<char>> {
    match f {
        Field::Name => Some("Name"@),
        Field::Gateway => Some("Gateway"@),
        Field::Username => Some("Username"@),
        Field::Password => Some("Password"@),
        Field::Domains => Some("VPN domains"@),
        Field::ClientCert => Some("Client cert"@),
        Field::Id => Some("Group name"@),
        Field::Secret => Some("Group secret"@),
        Field::Authmode => Some("IKE Authmode"@),
        Field::CaFile => Some("CA file"@),
        Field::DhGroup => Some("DH Group"@),
        Field::Pfs => Some("PFS"@),
        Field::NatMode => Some("NAT-T Mode"@),
        Field::Vendor => Some("Vendor"@),
        Field::Mtu => Some("Interface MTU"@),
        Field::DpdTimeout => Some("DPD timeout (s)"@),
        Field::Debug => Some("Debug"@),
        Field::OcAuthgroup => Some("Auth group"@),
        Field::OcServerCert => Some("Server cert"@),
        Field::OcProtocol => Some("Protocol"@),
        Field::OcDpd => Some("DPD (s)"@),
        Field::OcMtu => Some("MTU"@),
        Field::OcReconnect => Some("Reconnect (s)"@),
        Field::OcDebug => Some("Verbosity"@),
        _ => None,
    }
}

/// Each entry stands behind the word for it, on whichever page and for whichever kind.
pub proof fn law_entries_have_their_labels(oc: bool, i: int)
    ensures
        0 <= i < pages::credentials_text(oc).len() ==> pages::credentials_text(oc)[i].0 == label_of(
            pages::credentials_text(oc)[i].1,
        ),
        0 <= i < pages::advanced_text(oc).len() ==> pages::advanced_text(oc)[i].0 == label_of(
            pages::advanced_text(oc)[i].1,
        ),
        0 <= i < pages::options_text(oc).len() ==> pages::options_text(oc)[i].0 == label_of(
            pages::options_text(oc)[i].1,
        ),
{
}

// ---- about the program ----

/// A backend that is there is shown with its version and its licence; one that is not is said to be
/// missing.
pub proof fn law_backends_are_shown(version: Seq<char>)
    ensures
        about::vpnc_text(Some(version)) == version + " \u{b7} GPLv2"@,
        about::vpnc_text(None) == "vpnc: not installed"@,
        about::openconnect_text(true, Some(version)) == version + " \u{b7} LGPLv2.1"@,
        about::openconnect_text(true, None) == "openconnect: installed"@,
        about::openconnect_text(false, Some(version)) == "openconnect: not installed"@,
        about::openconnect_text(false, None) == "openconnect: not installed"@,
{
}

/// Removing the program says nothing where it succeeded, that nothing was removed where the user
/// refused, and else the status and the complaints.
pub proof fn law_failed_removal_is_told(o: Output)
    ensures
        o.status == 0 <==> about::failure_text(o) is None,
        o.status == 126 ==> about::failure_text(o) == Some(
            "Authorization was cancelled \u{2014} nothing was removed."@,
        ),
        o.status != 0 && !crate::privilege::dismissed(o.status, o.err@) && o.err@.len() > 0
            ==> about::failure_text(o) == Some(
            "Removal failed (status "@ + number::signed_decimal(o.status as int) + "):\n"@ + o.err@,
        ),
{
}

// ---- the machine ----

/// A tool's version is the first line that it prints, passing over blank ones; what it complains of
/// counts where it prints nothing.
pub proof fn law_version_is_the_first_line(
    line: Seq<char>,
    rest: Seq<Seq<char>>,
    out: Seq<char>,
    err: Seq<char>,
)
    ensures
        !texts::all_white(line) ==> sys::first_given(seq![line] + rest) == Some(text::trim(line)),
        texts::all_white(line) ==> sys::first_given(seq![line] + rest) == sys::first_given(rest),
        sys::first_given(Seq::empty()) is None,
        !texts::all_white(out) ==> sys::version_text(out, err) == sys::first_given(
            scan::lines(out),
        ),
        texts::all_white(out) ==> sys::version_text(out, err) == sys::first_given(scan::lines(err)),
{
    assert((seq![line] + rest).skip(1) =~= rest);
    assert((seq![line] + rest)[0] == line);
    texts::lemma_given(line);
    text::lemma_trim_blank(out);
}

/// Four numbers up to 255 with dots between are an address.
pub proof fn law_four_numbers_are_an_address(a: nat, b: nat, c: nat, d: nat)
    requires
        a <= 255,
        b <= 255,
        c <= 255,
        d <= 255,
    ensures
        sys::ipv4(
            number::decimal(a) + seq!['.'] + number::decimal(b) + seq!['.'] + number::decimal(c)
                + seq!['.'] + number::decimal(d),
        ),
{
    let (p, q, r, s) = (
        number::decimal(a),
        number::decimal(b),
        number::decimal(c),
        number::decimal(d),
    );
    lemma_octet(a);
    lemma_octet(b);
    lemma_octet(c);
    lemma_octet(d);
    let rs = r + seq!['.'] + s;
    let qs = q + seq!['.'] + rs;
    texts::law_pieces_add_up(r, s, '.');
    texts::law_pieces_add_up(s, s, '.');
    texts::law_pieces_add_up(q, rs, '.');
    texts::law_pieces_add_up(p, qs, '.');
    assert(p + seq!['.'] + q + seq!['.'] + r + seq!['.'] + s =~= p + seq!['.'] + qs);
    let all = scan::split(p + seq!['.'] + qs, '.');
    assert(all =~= seq![p, q, r, s]);
}

proof fn lemma_octet(n: nat)
    requires
        n <= 255,
    ensures
        sys::octet(number::decimal(n)),
        !number::decimal(n).contains('.'),
{
    number::lemma_decimal(n);
    texts::law_digits_count_tens(n / 10, n % 10);
    if n >= 10 {
        texts::law_digits_count_tens((n / 10) / 10, (n / 10) % 10);
        texts::law_digits_count_tens(n, 0);
        assert(n / 10 < 26);
        if n >= 100 {
            assert(number::decimal((n / 10) / 10).len() == 1);
        }
    }
    let s = number::decimal(n);
    if s.contains('.') {
        let i = choose|i: int| 0 <= i < s.len() && s[i] == '.';
        assert(text::ascii_digit(s[i]));
    }
}

/// An address has four parts, each a number up to 255 in digits; nothing else is one.
pub proof fn law_address_has_four_numbers(s: Seq<char>)
    ensures
        sys::ipv4(s) ==> scan::split(s, '.').len() == 4 && forall|i: int|
            0 <= i < 4 ==> {
                let o = #[trigger] scan::split(s, '.')[i];
                1 <= o.len() <= 3 && number::all_digits(o) && number::value(o) <= 255
            },
{
}

/// An address is used as it is; a name by what it resolves to, else by what it last resolved to,
/// else as it is.
pub proof fn law_gateway_resolves(host: Seq<char>, found: Seq<char>, last: Option<Seq<char>>)
    ensures
        sys::ipv4(host) ==> sys::gateway_text(host, Some(found), last) == host,
        sys::ipv4(host) ==> sys::gateway_text(host, None, last) == host,
        !sys::ipv4(host) ==> sys::gateway_text(host, Some(found), last) == found,
        !sys::ipv4(host) ==> sys::gateway_text(host, None, Some(found)) == found,
        sys::gateway_text(host, None, None) == host,
{
}

/// How many bytes a unit has, and its name.
pub open spec fn unit(k: nat) -> (nat, Seq<char>) {
    if k == 1 {
        (1024, "KB"@)
    } else if k == 2 {
        (1024 * 1024, "MB"@)
    } else if k == 3 {
        (1024 * 1024 * 1024, "GB"@)
    } else {
        (1024 * 1024 * 1024 * 1024, "TB"@)
    }
}

/// Whether some tenths are the nearest to a number of bytes in a unit, the even ones of two.
pub open spec fn nearest(n: nat, size: nat, tenths: nat) -> bool {
    let off = 20 * n - 2 * tenths * size;
    &&& -size <= off <= size
    &&& off == size || off == -size ==> tenths % 2 == 0
}

/// Fewer than 1024 bytes are counted; more are shown in the largest unit that they fill, to the
/// nearest tenth.
pub proof fn law_bytes_are_shown_in_the_largest_unit(n: nat, k: nat)
    requires
        n < 0x20_0000_0000_0000,
        1 <= k <= 4,
    ensures
        n < 1024 ==> sys::bytes_text(n) == number::decimal(n) + " B"@,
        unit(k).0 <= n && (k == 4 || n < 1024 * unit(k).0) ==> exists|tenths: nat|
            #[trigger] nearest(n, unit(k).0, tenths) && sys::bytes_text(n) == number::decimal(
                tenths / 10,
            ) + "."@ + number::decimal(tenths % 10) + " "@ + unit(k).1,
{
    if unit(k).0 <= n && (k == 4 || n < 1024 * unit(k).0) {
        let size = unit(k).0;
        assert(sys::spacing(n) == 1);
        assert(sys::round_even(n, 1) == n);
        assert(sys::to_53_bits(n) == n);
        assert(sys::unit_size(n) == size && sys::unit_name(n) == unit(k).1);
        let tenths = sys::round_even(10 * n, size);
        let q = (10 * n) / size;
        let r = (10 * n) % size;
        assert(10 * n == size * q + r) by (nonlinear_arith)
            requires
                q == (10 * n) / size,
                r == (10 * n) % size,
                size > 0,
        ;
        assert(0 <= r < size) by (nonlinear_arith)
            requires
                r == (10 * n) % size,
                size > 0,
        ;
        assert(2 * q * size == 2 * (size * q)) by (nonlinear_arith);
        assert(2 * (q + 1) * size == 2 * (size * q) + 2 * size) by (nonlinear_arith);
        assert(nearest(n, size, tenths));
    }
}

/// A number that 53 binary digits cannot hold is brought to the nearest that they can: one of the
/// multiples of a distance that leaves it 53 digits.
pub proof fn law_large_numbers_are_rounded(n: nat)
    ensures
        ({
            let g = sys::spacing(n);
            let off = 2 * sys::to_53_bits(n) - 2 * n;
            &&& g >= 1
            &&& n < 0x20_0000_0000_0000 ==> sys::to_53_bits(n) == n
            &&& n >= 0x20_0000_0000_0000 ==> 0x10_0000_0000_0000 * g <= n < 0x20_0000_0000_0000 * g
            &&& sys::to_53_bits(n) % g == 0
            &&& -g <= off <= g
        }),
{
    lemma_spacing(n);
    let g = sys::spacing(n);
    let q = n / g;
    let r = n % g;
    assert(n == g * q + r && 0 <= r < g) by (nonlinear_arith)
        requires
            q == n / g,
            r == n % g,
            g >= 1,
    ;
    let k = sys::round_even(n, g);
    assert(g * (q + 1) == g * q + g) by (nonlinear_arith);
    assert((g * k) % g == 0) by (nonlinear_arith)
        requires
            g >= 1,
    ;
}

proof fn lemma_spacing(n: nat)
    ensures
        sys::spacing(n) >= 1,
        n >= 0x20_0000_0000_0000 ==> 0x10_0000_0000_0000 * sys::spacing(n) <= n
            < 0x20_0000_0000_0000 * sys::spacing(n),
    decreases n,
{
    if n >= 0x20_0000_0000_0000 {
        lemma_spacing(n / 2);
    }
}

} // verus!
