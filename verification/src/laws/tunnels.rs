//! Live tunnels: how they are recognised, and what is read of them.

use crate::laws::rows;
use crate::laws::texts;
use crate::model;
use crate::model::ProfileText;
use crate::number;
use crate::scan;
use crate::tunnel;
use crate::tunnel::{Counters, ProcessText, TunnelText};
use vstd::prelude::*;

verus! {

// ---- arguments ----

proof fn lemma_zero_pieces(a: Seq<u8>, b: Seq<u8>)
    ensures
        tunnel::split_zero(a + seq![0u8] + b) == tunnel::split_zero(a) + tunnel::split_zero(b),
        tunnel::split_zero(b).len() >= 1,
    decreases b.len(),
{
    let s = a + seq![0u8] + b;
    if b.len() == 0 {
        assert(s.drop_last() =~= a);
        assert(tunnel::split_zero(s) =~= tunnel::split_zero(a) + tunnel::split_zero(b));
    } else {
        let t = b.drop_last();
        lemma_zero_pieces(a, t);
        assert(s.drop_last() =~= a + seq![0u8] + t);
        assert(s.last() == b.last());
        assert(tunnel::split_zero(s) =~= tunnel::split_zero(a) + tunnel::split_zero(b));
    }
}

proof fn lemma_zero_free(a: Seq<u8>)
    requires
        !a.contains(0u8),
    ensures
        tunnel::split_zero(a) == seq![a],
    decreases a.len(),
{
    if a.len() > 0 {
        let t = a.drop_last();
        assert(!t.contains(0u8)) by {
            if t.contains(0u8) {
                let i = choose|i: int| 0 <= i < t.len() && t[i] == 0u8;
                assert(a[i] == 0u8);
            }
        }
        lemma_zero_free(t);
        assert(a.contains(a.last()));
        assert(t.push(a.last()) =~= a);
        assert(tunnel::split_zero(a) =~= seq![a]);
    } else {
        assert(a =~= Seq::empty());
    }
}

proof fn lemma_decoded_concat(p: Seq<Seq<u8>>, q: Seq<Seq<u8>>)
    ensures
        tunnel::decoded(p + q) == tunnel::decoded(p) + tunnel::decoded(q),
    decreases q.len(),
{
    if q.len() == 0 {
        assert(p + q =~= p);
        rows::lemma_empty(tunnel::decoded(p));
    } else {
        lemma_decoded_concat(p, q.drop_last());
        assert((p + q).drop_last() =~= p + q.drop_last());
        assert((p + q).last() == q.last());
        assert(tunnel::decoded(p + q) =~= tunnel::decoded(p) + tunnel::decoded(q));
    }
}

/// The arguments of a process are read in turn: the first up to its zero byte, and then those
/// behind it. An empty one is left out.
pub proof fn law_arguments_are_read_in_turn(first: Seq<u8>, rest: Seq<u8>)
    requires
        !first.contains(0u8),
    ensures
        first.len() > 0 ==> tunnel::decoded(tunnel::split_zero(first + seq![0u8] + rest)) == seq![
            tunnel::utf8_lossy(first),
        ] + tunnel::decoded(tunnel::split_zero(rest)),
        first.len() == 0 ==> tunnel::decoded(tunnel::split_zero(first + seq![0u8] + rest))
            == tunnel::decoded(tunnel::split_zero(rest)),
        tunnel::decoded(tunnel::split_zero(Seq::empty())).len() == 0,
{
    lemma_zero_pieces(first, rest);
    lemma_zero_free(first);
    lemma_decoded_concat(seq![first], tunnel::split_zero(rest));
    let one = seq![first];
    assert(one.drop_last() =~= Seq::empty());
    assert(tunnel::decoded(one.drop_last()) =~= Seq::empty());
    if first.len() > 0 {
        assert(tunnel::decoded(one) =~= seq![tunnel::utf8_lossy(first)]);
    } else {
        assert(tunnel::decoded(one) =~= Seq::empty());
        rows::lemma_empty(tunnel::decoded(tunnel::split_zero(rest)));
    }
    let none = Seq::<u8>::empty();
    let p = tunnel::split_zero(none);
    assert(p.drop_last() =~= Seq::empty());
    assert(tunnel::decoded(p.drop_last()) =~= Seq::empty());
}

// ---- recognition ----

/// A program is one of a backend by its own name, wherever it lies.
pub proof fn law_backend_is_told_by_its_name(dir: Seq<char>, name: Seq<char>)
    requires
        !name.contains('/'),
    ensures
        tunnel::backend_bin(name) <==> name == "vpnc"@ || name == "openconnect"@,
        tunnel::backend_bin(dir + seq!['/'] + name) <==> name == "vpnc"@ || name
            == "openconnect"@,
{
    scan::lemma_base_name(dir, name);
    scan::lemma_base_name_free(name);
    assert(dir.push('/') + name =~= dir + seq!['/'] + name);
}

/// A process is one of a backend where any of its arguments names one.
pub proof fn law_any_argument_names_the_backend(argv: Seq<Seq<char>>, i: int)
    ensures
        0 <= i < argv.len() && tunnel::backend_bin(argv[i]) ==> tunnel::runs_backend(argv),
        argv.len() == 0 ==> !tunnel::runs_backend(argv),
        (forall|j: int| 0 <= j < argv.len() ==> !tunnel::backend_bin(#[trigger] argv[j]))
            ==> !tunnel::runs_backend(argv),
{
}

/// The stem of a process is the name of the file that follows the option for it, without directory
/// and extension; a process without the option, or whose file has another extension, has none.
pub proof fn law_stem_is_read_from_the_arguments(
    before: Seq<Seq<char>>,
    dir: Seq<char>,
    stem: Seq<char>,
    behind: Seq<Seq<char>>,
)
    requires
        !before.contains("--pid-file"@),
        !stem.contains('/'),
    ensures
        tunnel::stem_of(
            before + seq!["--pid-file"@, dir + seq!['/'] + stem + ".pid"@] + behind,
        ) == Some(stem),
        tunnel::stem_of(before) is None,
        tunnel::stem_of(before.push("--pid-file"@)) is None,
{
    reveal_strlit(".pid");
    let argv = before + seq!["--pid-file"@, dir + seq!['/'] + stem + ".pid"@] + behind;
    let f = |a: Seq<char>| a == "--pid-file"@;
    let n = before.len() as int;
    scan::lemma_first_where(argv, f);
    assert(argv[n] == "--pid-file"@);
    assert(f(argv[n]));
    assert forall|j: int| 0 <= j < n implies !f(#[trigger] argv[j]) by {
        assert(before.contains(before[j]));
    }
    assert(scan::first_where(argv, f) == Some(n)) by {
        let k = scan::first_where(argv, f).unwrap();
        if k < n {
            assert(f(argv[k]));
        }
        if n < k {
            assert(!f(argv[n]));
        }
    }
    let file = stem + ".pid"@;
    assert(argv[n + 1] =~= dir.push('/') + file);
    assert(!file.contains('/')) by {
        if file.contains('/') {
            let i = choose|i: int| 0 <= i < file.len() && file[i] == '/';
            if i < stem.len() {
                assert(stem.contains(stem[i]));
            } else {
                assert(file[i] == ".pid"@[i - stem.len()]);
            }
        }
    }
    scan::lemma_base_name(dir, file);
    texts::law_held_text_is_found(stem, ".pid"@, Seq::empty());
    scan::lemma_first_where(before, f);
    if let Some(k) = scan::first_where(before, f) {
        assert(before.contains(before[k]));
    }
    let last = before.push("--pid-file"@);
    scan::lemma_first_where(last, f);
    if let Some(k) = scan::first_where(last, f) {
        if k < n {
            assert(before.contains(before[k]));
        }
    }
}

/// A process belongs to the first profile whose uuid and label make its stem; where there is none,
/// to the first whose label is the stem; and to none where it is no process of a backend, has no
/// stem, or the stem is that of no profile.
pub proof fn law_process_belongs_by_its_stem(
    profiles: Seq<ProfileText>,
    argv: Seq<Seq<char>>,
    stem: Seq<char>,
    i: int,
)
    ensures
        !tunnel::runs_backend(argv) ==> tunnel::owner(profiles, argv) is None,
        tunnel::stem_of(argv) is None ==> tunnel::owner(profiles, argv) is None,
        tunnel::runs_backend(argv) && tunnel::stem_of(argv) == Some(stem) ==> {
            let by_uuid = |k: int| 0 <= k < profiles.len() && stems(profiles[k], stem);
            let by_label = |k: int| 0 <= k < profiles.len() && profiles[k].name == stem;
            &&& by_uuid(i) && (forall|k: int| 0 <= k < i ==> !stems(#[trigger] profiles[k], stem))
                ==> tunnel::owner(profiles, argv) == Some(i)
            &&& (forall|k: int| 0 <= k < profiles.len() ==> !stems(#[trigger] profiles[k], stem))
                && by_label(i) && (forall|k: int|
                0 <= k < i ==> (#[trigger] profiles[k]).name != stem) ==> tunnel::owner(
                profiles,
                argv,
            ) == Some(i)
            &&& (forall|k: int|
                0 <= k < profiles.len() ==> !stems(#[trigger] profiles[k], stem)
                    && profiles[k].name != stem) ==> tunnel::owner(profiles, argv) is None
        },
{
    if tunnel::runs_backend(argv) && tunnel::stem_of(argv) == Some(stem) {
        let f = |p: ProfileText| tunnel::stem_is_uuids(p, stem);
        let g = |p: ProfileText| p.name == stem;
        scan::lemma_first_where(profiles, f);
        scan::lemma_first_where(profiles, g);
        assert forall|k: int| 0 <= k < profiles.len() implies f(profiles[k]) == stems(
            #[trigger] profiles[k],
            stem,
        ) by {}
        if 0 <= i < profiles.len() && stems(profiles[i], stem) && (forall|k: int|
            0 <= k < i ==> !stems(#[trigger] profiles[k], stem)) {
            assert(f(profiles[i]));
            let k = scan::first_where(profiles, f).unwrap();
            if k < i {
                assert(stems(profiles[k], stem));
            }
            if i < k {
                assert(!f(profiles[i]));
            }
        }
        if forall|k: int| 0 <= k < profiles.len() ==> !stems(#[trigger] profiles[k], stem) {
            if let Some(k) = scan::first_where(profiles, f) {
                assert(stems(profiles[k], stem));
            }
            if let Some(k) = scan::first_where(profiles, g) {
                assert(profiles[k].name == stem);
                if 0 <= i < k && profiles[i].name == stem {
                    assert(!g(profiles[i]));
                }
            } else if 0 <= i < profiles.len() {
                assert(!g(profiles[i]));
            }
        }
    }
}

/// Whether a stem is made of a profile's uuid and its label.
pub open spec fn stems(p: ProfileText, stem: Seq<char>) -> bool {
    p.uuid matches Some(u) && stem == u + "-"@ + model::safe_text(p.name)
}

// ---- live tunnels ----

/// A process more in the list is the tunnel of the profile that it belongs to, with its number and
/// its age, whatever was there before; it is nothing where it belongs to none or has ended.
pub proof fn law_process_is_the_tunnel(
    profiles: Seq<ProfileText>,
    procs: Seq<ProcessText>,
    p: ProcessText,
    i: int,
    secs: u64,
)
    ensures
        tunnel::owner(profiles, p.argv) == Some(i) && p.elapsed == Some(secs) ==> tunnel::listed(
            profiles,
            procs.push(p),
        ) == tunnel::listed(profiles, procs).insert(profiles[i].name, (p.pid, secs)),
        tunnel::owner(profiles, p.argv) is None || p.elapsed is None ==> tunnel::listed(
            profiles,
            procs.push(p),
        ) == tunnel::listed(profiles, procs),
        tunnel::listed(profiles, Seq::empty()) == Map::<Seq<char>, (u32, u64)>::empty(),
{
    assert(procs.push(p).drop_last() =~= procs);
}

/// A live tunnel is a process that runs: one of the list that belongs to a profile of that label, or
/// one of a backend that such a profile's pid file names. Its number and its age are those of the
/// process.
pub proof fn law_tunnel_is_a_running_process(
    profiles: Seq<ProfileText>,
    procs: Seq<ProcessText>,
    named: Seq<Option<ProcessText>>,
    name: Seq<char>,
)
    requires
        tunnel::live(profiles, procs, named).contains_key(name),
        named.len() == profiles.len(),
    ensures
        is_listed(profiles, procs, name, tunnel::live(profiles, procs, named)[name]) || is_named(
            profiles,
            named,
            name,
            tunnel::live(profiles, procs, named)[name],
        ),
{
    assert(profiles.take(profiles.len() as int) =~= profiles);
    lemma_named(tunnel::listed(profiles, procs), profiles, profiles.len() as int, named, name);
    if tunnel::listed(profiles, procs).contains_key(name) {
        lemma_listed(profiles, procs, name);
    }
}

/// Whether a tunnel is a process of the list that belongs to a profile of a label.
pub open spec fn is_listed(
    profiles: Seq<ProfileText>,
    procs: Seq<ProcessText>,
    name: Seq<char>,
    t: (u32, u64),
) -> bool {
    exists|k: int|
        0 <= k < procs.len() && (#[trigger] procs[k]).pid == t.0 && procs[k].elapsed == Some(t.1)
            && (tunnel::owner(profiles, procs[k].argv) matches Some(i) && profiles[i].name == name)
}

/// Whether a tunnel is a process of a backend that the pid file of a profile of a label names.
pub open spec fn is_named(
    profiles: Seq<ProfileText>,
    named: Seq<Option<ProcessText>>,
    name: Seq<char>,
    t: (u32, u64),
) -> bool {
    exists|i: int|
        0 <= i < profiles.len() && (#[trigger] profiles[i]).name == name && (
        named[i] matches Some(p) && p.pid == t.0 && p.elapsed == Some(t.1)
            && tunnel::runs_backend(p.argv))
}

proof fn lemma_listed(profiles: Seq<ProfileText>, procs: Seq<ProcessText>, name: Seq<char>)
    requires
        tunnel::listed(profiles, procs).contains_key(name),
    ensures
        is_listed(profiles, procs, name, tunnel::listed(profiles, procs)[name]),
    decreases procs.len(),
{
    let t = procs.drop_last();
    let p = procs.last();
    let v = tunnel::listed(profiles, procs)[name];
    let fresh = tunnel::owner(profiles, p.argv) matches Some(i) && p.elapsed is Some
        && profiles[i].name == name;
    if fresh {
        assert(procs[procs.len() - 1].pid == v.0);
    } else {
        lemma_listed(profiles, t, name);
        let k = choose|k: int|
            0 <= k < t.len() && (#[trigger] t[k]).pid == v.0 && t[k].elapsed == Some(v.1) && (
            tunnel::owner(profiles, t[k].argv) matches Some(i) && profiles[i].name == name);
        assert(procs[k] == t[k]);
        assert(procs[k].pid == v.0);
    }
}

proof fn lemma_named(
    found: Map<Seq<char>, (u32, u64)>,
    profiles: Seq<ProfileText>,
    n: int,
    named: Seq<Option<ProcessText>>,
    name: Seq<char>,
)
    requires
        0 <= n <= profiles.len(),
        named.len() == profiles.len(),
        tunnel::with_named(found, profiles.take(n), named).contains_key(name),
    ensures
        ({
            let v = tunnel::with_named(found, profiles.take(n), named)[name];
            (found.contains_key(name) && v == found[name]) || is_named(profiles, named, name, v)
        }),
    decreases n,
{
    if n > 0 {
        assert(profiles.take(n).drop_last() =~= profiles.take(n - 1));
        assert(profiles.take(n).last() == profiles[n - 1]);
        let before = tunnel::with_named(found, profiles.take(n - 1), named);
        if before.contains_key(name) {
            lemma_named(found, profiles, n - 1, named, name);
        } else {
            assert(profiles[n - 1].name == name);
        }
    }
}

/// A profile more adds its tunnel by its pid file: the process that the file names, where it is one
/// of a backend, still runs, and nothing is known yet of the label.
pub proof fn law_pid_file_adds_its_tunnel(
    found: Map<Seq<char>, (u32, u64)>,
    profiles: Seq<ProfileText>,
    p: ProfileText,
    named: Seq<Option<ProcessText>>,
    q: ProcessText,
    secs: u64,
)
    requires
        named.len() == profiles.len() + 1,
    ensures
        ({
            let before = tunnel::with_named(found, profiles, named);
            let after = tunnel::with_named(found, profiles.push(p), named);
            let runs = named.last() == Some(q) && q.elapsed == Some(secs) && tunnel::runs_backend(
                q.argv,
            );
            &&& runs && !before.contains_key(p.name) ==> after == before.insert(
                p.name,
                (q.pid, secs),
            )
            &&& before.contains_key(p.name) || named.last() is None || (named.last() == Some(q) && (
            q.elapsed is None || !tunnel::runs_backend(q.argv))) ==> after == before
        }),
        tunnel::with_named(found, Seq::empty(), named) == found,
{
    assert(profiles.push(p).drop_last() =~= profiles);
}

// ---- the kernel's files ----

/// The start of a process is the twentieth word behind the last closing bracket of its stat line.
pub proof fn law_start_is_the_twentieth_word(a: Seq<char>, rest: Seq<char>)
    requires
        !rest.contains(')'),
    ensures
        scan::words(rest).len() >= 20 ==> tunnel::start_field_text(a + seq![')'] + rest) == Some(
            scan::words(rest)[19],
        ),
        scan::words(rest).len() < 20 ==> tunnel::start_field_text(a + seq![')'] + rest) is None,
        tunnel::start_field_text(rest) is None,
        scan::words(rest).len() > 0 ==> tunnel::first_word(rest) == Some(scan::words(rest)[0]),
        scan::words(rest).len() == 0 ==> tunnel::first_word(rest) is None,
{
    texts::law_pieces_add_up(a, rest, ')');
    scan::lemma_split_none(rest, ')');
    let s = a + seq![')'] + rest;
    assert(s[a.len() as int] == ')');
    assert(s.contains(')'));
}

/// A time is shown in days and hours from a day on, else in hours, minutes and seconds from an hour
/// on, else in minutes and seconds; minutes and seconds behind a colon have two digits.
pub proof fn law_time_is_shown_in_its_units(d: nat, h: nat, m: nat, s: nat)
    requires
        h < 24,
        m < 60,
        s < 60,
    ensures
        ({
            let secs = 86400 * d + 3600 * h + 60 * m + s;
            &&& d > 0 ==> tunnel::elapsed_text(secs) == number::decimal(d) + "d "@
                + number::decimal(h) + "h"@
            &&& d == 0 && h > 0 ==> tunnel::elapsed_text(secs) == number::decimal(h) + ":"@
                + number::two_digits(m) + ":"@ + number::two_digits(s)
            &&& d == 0 && h == 0 ==> tunnel::elapsed_text(secs) == number::decimal(m) + ":"@
                + number::two_digits(s)
        }),
{
    let secs = 86400 * d + 3600 * h + 60 * m + s;
    assert(secs / 86400 == d);
    assert(secs % 86400 == 3600 * h + 60 * m + s);
    assert((secs % 86400) / 3600 == h);
    assert(secs % 3600 == 60 * m + s) by {
        assert(secs == 3600 * (24 * d + h) + (60 * m + s));
    }
    assert((secs % 3600) / 60 == m);
    assert(secs % 60 == s) by {
        assert(secs == 60 * (1440 * d + 60 * h + m) + s);
    }
}

/// The words that spell a row of numbers are read as those numbers.
pub proof fn lemma_numbers_read(n: Seq<u64>)
    ensures
        tunnel::numbers(Seq::new(n.len(), |i: int| number::decimal(n[i] as nat))) == n,
    decreases n.len(),
{
    let w = Seq::new(n.len(), |i: int| number::decimal(n[i] as nat));
    if n.len() > 0 {
        let t = n.drop_last();
        lemma_numbers_read(t);
        assert(w.drop_last() =~= Seq::new(t.len(), |i: int| number::decimal(t[i] as nat)));
        number::law_written_number_reads_back(n.last() as nat, u64::MAX as nat);
        assert(t.push(n.last()) =~= n);
    } else {
        assert(tunnel::numbers(w) =~= n);
    }
}

/// The counters of an interface are the first, second, ninth and tenth number behind its name and a
/// colon: bytes and packets that came, and bytes and packets that went. Another interface's line
/// has none of it.
pub proof fn law_counters_are_read_from_the_line(
    pre: Seq<char>,
    name: Seq<char>,
    rest: Seq<char>,
    n: Seq<u64>,
    iface: Seq<char>,
)
    requires
        texts::all_white(pre),
        texts::bare(name),
        !pre.contains(':'),
        !name.contains(':'),
        scan::words(rest) == Seq::new(n.len(), |i: int| number::decimal(n[i] as nat)),
        n.len() >= 10,
    ensures
        tunnel::counters_in(pre + name + seq![':'] + rest, name) == Some(
            (Counters { rx_bytes: n[0], rx_pkts: n[1], tx_bytes: n[8], tx_pkts: n[9] }),
        ),
        iface != name ==> tunnel::counters_in(pre + name + seq![':'] + rest, iface) is None,
        tunnel::counters_in(name, name) is None,
{
    let front = pre + name;
    assert(!front.contains(':')) by {
        if front.contains(':') {
            let i = choose|i: int| 0 <= i < front.len() && front[i] == ':';
            if i < pre.len() {
                assert(pre.contains(pre[i]));
            } else {
                assert(name.contains(name[i - pre.len()]));
            }
        }
    }
    texts::law_cut_at_the_first(front, ':', rest);
    texts::law_cut_at_the_first(name, ':', rest);
    texts::law_trim_leaves_the_text(pre, name, Seq::empty());
    rows::lemma_empty(front);
    lemma_numbers_read(n);
}

/// The first line with an interface's counters counts.
pub proof fn law_first_line_counts(line: Seq<char>, rest: Seq<Seq<char>>, iface: Seq<char>)
    ensures
        tunnel::counters_in(line, iface) matches Some(c) ==> tunnel::first_counters(
            seq![line] + rest,
            iface,
        ) == Some(c),
        tunnel::counters_in(line, iface) is None ==> tunnel::first_counters(
            seq![line] + rest,
            iface,
        ) == tunnel::first_counters(rest, iface),
        tunnel::first_counters(Seq::empty(), iface) is None,
{
    assert((seq![line] + rest).skip(1) =~= rest);
}

// ---- the record ----

/// What a value comes to in the record: nothing where it is empty.
pub open spec fn recorded_as(field: Option<Seq<char>>, value: Seq<char>) -> bool {
    field == (if value.len() > 0 {
        Some(value)
    } else {
        None
    })
}

/// A line of the record sets what its key stands for and leaves the rest; routes are added to those
/// before. A line without an equals sign, or with another key, changes nothing.
pub proof fn law_record_is_read_line_by_line(
    lines: Seq<Seq<char>>,
    key: Seq<char>,
    value: Seq<char>,
)
    requires
        !key.contains('='),
    ensures
        ({
            let t = tunnel::record_of(lines);
            let r = tunnel::record_of(lines.push(key + seq!['='] + value));
            &&& key == "TUNDEV"@ ==> recorded_as(r.iface, value) && r == (TunnelText {
                iface: r.iface,
                ..t
            })
            &&& key == "INTERNAL_IP4_ADDRESS"@ ==> recorded_as(r.internal_ip, value) && r == (
            TunnelText { internal_ip: r.internal_ip, ..t })
            &&& key == "INTERNAL_IP4_DNS"@ ==> recorded_as(r.dns, value) && r == (TunnelText {
                dns: r.dns,
                ..t
            })
            &&& key == "VPNGATEWAY"@ ==> recorded_as(r.gateway, value) && r == (TunnelText {
                gateway: r.gateway,
                ..t
            })
            &&& key == "CISCO_DEF_DOMAIN"@ ==> recorded_as(r.def_domain, value) && r == (TunnelText {
                def_domain: r.def_domain,
                ..t
            })
            &&& key == "CISCO_SPLIT_DNS"@ ==> recorded_as(r.split_dns, value) && r == (TunnelText {
                split_dns: r.split_dns,
                ..t
            })
            &&& key == "VPNC_MATCH_DOMAINS"@ ==> recorded_as(r.match_domains, value) && r == (
            TunnelText { match_domains: r.match_domains, ..t })
            &&& key == "ROUTE"@ && value.len() > 0 ==> r.routes == t.routes.push(value) && r == (
            TunnelText { routes: r.routes, ..t })
            &&& key == "ROUTE"@ && value.len() == 0 ==> r == t
        }),
        tunnel::record_of(lines.push(key)) == tunnel::record_of(lines),
        ({
            let b = tunnel::record_of(Seq::empty());
            &&& b.iface is None && b.internal_ip is None && b.dns is None && b.gateway is None
            &&& b.def_domain is None && b.split_dns is None && b.match_domains is None
            &&& b.routes.len() == 0
        }),
{
    let line = key + seq!['='] + value;
    texts::law_cut_at_the_first(key, '=', value);
    assert(lines.push(line).drop_last() =~= lines);
    assert(lines.push(key).drop_last() =~= lines);
    reveal_strlit("TUNDEV");
    reveal_strlit("INTERNAL_IP4_ADDRESS");
    reveal_strlit("INTERNAL_IP4_DNS");
    reveal_strlit("VPNGATEWAY");
    reveal_strlit("CISCO_DEF_DOMAIN");
    reveal_strlit("CISCO_SPLIT_DNS");
    reveal_strlit("VPNC_MATCH_DOMAINS");
    reveal_strlit("ROUTE");
    assert("TUNDEV"@.len() == 6 && "INTERNAL_IP4_ADDRESS"@.len() == 20 && "INTERNAL_IP4_DNS"@.len()
        == 16 && "VPNGATEWAY"@.len() == 10 && "CISCO_DEF_DOMAIN"@.len() == 16
        && "CISCO_SPLIT_DNS"@.len() == 15 && "VPNC_MATCH_DOMAINS"@.len() == 18 && "ROUTE"@.len()
        == 5);
    assert("INTERNAL_IP4_DNS"@[0] == 'I' && "CISCO_DEF_DOMAIN"@[0] == 'C');
}

/// A word that is no number is passed over, and one that is counts behind those before it.
pub proof fn law_words_that_are_no_numbers_do_not_count(words: Seq<Seq<char>>, w: Seq<char>, n: u64)
    ensures
        number::parse(w, u64::MAX as nat) is None ==> tunnel::numbers(words.push(w))
            == tunnel::numbers(words),
        number::parse(w, u64::MAX as nat) == Some(n as nat) ==> tunnel::numbers(words.push(w))
            == tunnel::numbers(words).push(n),
{
    assert(words.push(w).drop_last() =~= words);
}

} // verus!
