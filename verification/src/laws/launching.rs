//! Bringing tunnels up and down: what is run, and what is said of how it ended.

use crate::app;
use crate::backend;
use crate::backend::openconnect;
use crate::backend::vpnc;
use crate::laws::rows;
use crate::laws::texts;
use crate::model;
use crate::model::ProfileText;
use crate::number;
use crate::privilege;
use crate::scan;
use crate::sys;
use crate::sys::{Host, Output};
use crate::text;
use vstd::prelude::*;

verus! {

// ---- as root ----

/// What is run as root is `pkexec` with the program and its arguments, in their order, and reads
/// what the program is to read.
pub proof fn law_root_runs_the_program(
    program: Seq<char>,
    arguments: Seq<Seq<char>>,
    stdin: Option<Seq<char>>,
)
    ensures
        ({
            let c = privilege::as_root(program, arguments, stdin);
            &&& c.program == "/usr/bin/pkexec"@
            &&& c.args.len() == arguments.len() + 1
            &&& c.args[0] == program
            &&& c.args.skip(1) == arguments
            &&& c.stdin == stdin
        }),
{
    assert((seq![program] + arguments).skip(1) =~= arguments);
}

/// A failure is the user's refusal where `pkexec` says so by its status, or by one of two wordings
/// anywhere in its complaints and in any case; it is none otherwise.
pub proof fn law_refusal_is_told_by_status_or_words(
    status: i32,
    a: Seq<char>,
    word: Seq<char>,
    b: Seq<char>,
)
    ensures
        privilege::dismissed(126, a),
        text::fold(word) == "not authorized"@ ==> privilege::dismissed(status, a + word + b),
        text::fold(word) == "dismissed"@ ==> privilege::dismissed(status, a + word + b),
        status != 126 && privilege::dismissed(status, a) ==> scan::has(
            text::fold(a),
            "not authorized"@,
        ) || scan::has(text::fold(a), "dismissed"@),
        status != 126 && a.len() == 0 ==> !privilege::dismissed(status, a),
{
    texts::law_fold_goes_piece_by_piece(a + word, b);
    texts::law_fold_goes_piece_by_piece(a, word);
    texts::law_held_text_is_found(text::fold(a), text::fold(word), text::fold(b));
    reveal_strlit("not authorized");
    reveal_strlit("dismissed");
}

// ---- vpnc ----

/// vpnc is run without questions, with the profile's pid file, and reads its configuration from its
/// standard input.
pub proof fn law_vpnc_reads_its_configuration(h: Host, p: ProfileText, config: Seq<char>)
    ensures
        ({
            let c = vpnc::launch_text(h, p, config);
            &&& c.program == "/usr/bin/pkexec"@
            &&& c.args == seq![
                "/usr/bin/vpnc"@,
                "--non-inter"@,
                "--pid-file"@,
                model::pid_path(h.config@, p),
                "-"@,
            ]
            &&& c.stdin == Some(config)
        }),
{
    assert(vpnc::launch_text(h, p, config).args =~= seq![
        "/usr/bin/vpnc"@,
        "--non-inter"@,
        "--pid-file"@,
        model::pid_path(h.config@, p),
        "-"@,
    ]);
}

/// The command that is shown to the user is the one that is run: its words with spaces between.
pub proof fn law_shown_command_is_the_one_run(h: Host, p: ProfileText, config: Seq<char>)
    ensures
        !model::openconnect_kind(p.kind) ==> backend::command_line_text(h, p) == scan::joined(
            seq!["/usr/bin/pkexec"@] + vpnc::launch_text(h, p, config).args,
            " "@,
        ),
        model::openconnect_kind(p.kind) ==> backend::command_line_text(h, p) == scan::joined(
            seq!["/usr/bin/pkexec"@] + openconnect::args_text(h, p),
            " "@,
        ),
{
    law_vpnc_reads_its_configuration(h, p, config);
    let a = seq!["/usr/bin/pkexec"@];
    if model::openconnect_kind(p.kind) {
        let b = openconnect::args_text(h, p);
        texts::law_joined_texts_stand_in_a_row(a, b, " "@);
    } else {
        let path = model::pid_path(h.config@, p);
        let b = seq!["/usr/bin/vpnc"@];
        let c = seq!["--non-inter"@];
        let d = seq!["--pid-file"@];
        let e = seq![path];
        let f = seq!["-"@];
        let ef = e + f;
        let df = d + ef;
        let cf = c + df;
        let bf = b + cf;
        texts::law_joined_texts_stand_in_a_row(e, f, " "@);
        texts::law_joined_texts_stand_in_a_row(f, f, " "@);
        texts::law_joined_texts_stand_in_a_row(d, ef, " "@);
        texts::law_joined_texts_stand_in_a_row(c, df, " "@);
        texts::law_joined_texts_stand_in_a_row(b, cf, " "@);
        texts::law_joined_texts_stand_in_a_row(a, bf, " "@);
        assert(vpnc::launch_text(h, p, config).args =~= bf);
        reveal_strlit(" ");
        reveal_strlit("--non-inter");
        reveal_strlit("--pid-file");
        reveal_strlit("-");
        reveal_strlit(" -");
        reveal_strlit(" --non-inter --pid-file ");
        assert(" --non-inter --pid-file "@ =~= " "@ + "--non-inter"@ + " "@ + "--pid-file"@ + " "@);
        assert(" -"@ =~= " "@ + "-"@);
        assert(backend::command_line_text(h, p) =~= scan::joined(a + bf, " "@));
    }
}

/// Success says nothing. A refusal is told as such. Any other failure tells the status and the end
/// of what vpnc printed, trimmed.
pub proof fn law_vpnc_failure_is_told(o: Output, printed: Seq<char>)
    requires
        0 < printed.len() <= 600,
    ensures
        o.status == 0 <==> vpnc::connect_message(o) is None,
        o.status == 126 ==> vpnc::connect_message(o) == Some("Authorization was cancelled."@),
        o.status != 0 && o.status != 126 && o.err@.len() == 0 && text::trim(o.out@) == printed
            ==> vpnc::connect_message(o) == Some(
            "vpnc failed (status "@ + number::signed_decimal(o.status as int) + "):\n"@ + printed,
        ),
{
    law_refusal_is_told_by_status_or_words(o.status, o.err@, Seq::empty(), Seq::empty());
    assert(sys::tail_text(printed, 600) =~= printed);
}

/// Success says nothing. A refusal is told as such. Any other failure tells the status and the end
/// of what openconnect printed on either stream, trimmed.
pub proof fn law_openconnect_failure_is_told(o: Output, printed: Seq<char>)
    requires
        0 < printed.len() <= 600,
    ensures
        o.status == 0 <==> openconnect::connect_message(o) is None,
        o.status == 126 ==> openconnect::connect_message(o) == Some("Authorization was cancelled."@),
        o.status != 0 && !privilege::dismissed(o.status, o.err@) && text::trim(o.out@ + o.err@)
            == printed ==> openconnect::connect_message(o) == Some(
            "openconnect failed (status "@ + number::signed_decimal(o.status as int) + "):\n"@
                + printed,
        ),
{
    law_refusal_is_told_by_status_or_words(o.status, o.err@, Seq::empty(), Seq::empty());
    assert(sys::tail_text(printed, 600) =~= printed);
}

/// The tail of a text is its last characters, and all of it where there are no more.
pub proof fn law_tail_is_the_end(a: Seq<char>, b: Seq<char>, n: nat)
    ensures
        b.len() == n ==> sys::tail_text(a + b, n) == b,
        b.len() <= n ==> sys::tail_text(b, n) == b,
{
    if b.len() == n {
        assert(sys::tail_text(a + b, n) =~= b);
    }
    if b.len() <= n {
        assert(sys::tail_text(b, n) =~= b);
    }
}

/// Success says nothing. A refusal is told as such. Any other failure tells the status and the
/// complaints, or what was printed where there are none.
pub proof fn law_disconnect_failure_is_told(o: Output)
    ensures
        o.status == 0 <==> backend::disconnect_message(o) is None,
        o.status == 126 ==> backend::disconnect_message(o) == Some("Authorization was cancelled."@),
        o.status != 0 && !privilege::dismissed(o.status, o.err@) && o.err@.len() > 0
            ==> backend::disconnect_message(o) == Some(
            "disconnect failed (status "@ + number::signed_decimal(o.status as int) + "):\n"@
                + o.err@,
        ),
        o.status != 0 && o.status != 126 && o.err@.len() == 0 ==> backend::disconnect_message(o)
            == Some(
            "disconnect failed (status "@ + number::signed_decimal(o.status as int) + "):\n"@
                + o.out@,
        ),
{
    law_refusal_is_told_by_status_or_words(o.status, o.err@, Seq::empty(), Seq::empty());
}

/// A tunnel is ended by its process: with the installed helper where it is there, else with the
/// signal to terminate. Both are run as root.
pub proof fn law_process_is_ended(h: Host, pid: u32)
    ensures
        backend::end_command(h, pid).program == "/usr/bin/pkexec"@,
        h.helper_installed ==> backend::end_command(h, pid).args == seq![
            "/usr/lib/vpncbar/vpncbar-disconnect"@,
            number::decimal(pid as nat),
        ],
        !h.helper_installed ==> backend::end_command(h, pid).args == seq![
            "/usr/bin/kill"@,
            "-TERM"@,
            number::decimal(pid as nat),
        ],
        backend::end_command(h, pid).stdin is None,
{
    let d = number::decimal(pid as nat);
    assert(seq!["/usr/lib/vpncbar/vpncbar-disconnect"@] + seq![d]
        =~= seq!["/usr/lib/vpncbar/vpncbar-disconnect"@, d]);
    assert(seq!["/usr/bin/kill"@] + seq!["-TERM"@, d] =~= seq!["/usr/bin/kill"@, "-TERM"@, d]);
}

/// Stale state is swept with the installed helper, where it is there and something has gone down.
pub proof fn law_sweep_needs_the_helper(h: Host, any: bool)
    ensures
        app::sweep_text(h, any) is Some <==> any && h.helper_installed,
        app::sweep_text(h, any) matches Some(c) ==> c.program == "/usr/bin/pkexec"@ && c.args
            == seq!["/usr/lib/vpncbar/vpncbar-disconnect"@, "sweep"@],
{
    assert(seq!["/usr/lib/vpncbar/vpncbar-disconnect"@] + seq!["sweep"@]
        =~= seq!["/usr/lib/vpncbar/vpncbar-disconnect"@, "sweep"@]);
}

// ---- the network script ----

/// The script of the environment comes before the installed one, and that before the
/// distribution's.
pub proof fn law_own_script_comes_first(h: Host)
    ensures
        h.script matches Some(s) ==> sys::script_path(h) == s@,
        h.script is None && h.script_installed ==> sys::script_path(h)
            == "/usr/lib/vpncbar/vpncbar-script"@,
        h.script is None && !h.script_installed ==> sys::script_path(h)
            == "/etc/vpnc/vpnc-script"@,
{
}

/// The script is told which tunnel it serves, by the uuid or else the label of its profile, and the
/// scoped domains where there are any.
pub proof fn law_script_is_told_tunnel_and_domains(h: Host, p: ProfileText, uuid: Seq<char>)
    requires
        p.uuid == Some(uuid) || (p.uuid is None && p.name == uuid),
    ensures
        p.dns_match_domains is None ==> backend::invocation_text(h, p) == "VPNPID='"@ + uuid + "'"@
            + " "@ + sys::script_path(h),
        p.dns_match_domains matches Some(d) ==> (backend::domains_text(text::trim(d)).len() > 0
            ==> backend::invocation_text(h, p) == "VPNPID='"@ + uuid + "'"@
            + " VPNC_MATCH_DOMAINS='"@ + backend::domains_text(text::trim(d)) + "'"@ + " "@
            + sys::script_path(h)),
        p.dns_match_domains matches Some(d) ==> (backend::domains_text(text::trim(d)).len() == 0
            ==> backend::invocation_text(h, p) == "VPNPID='"@ + uuid + "'"@ + " "@
            + sys::script_path(h)),
{
    if let Some(d) = p.dns_match_domains {
        if text::trim(d).len() == 0 {
            assert(text::trim(d) =~= Seq::empty());
            texts::law_words_add_up(Seq::empty(), ' ', Seq::empty());
            assert(backend::domain_chars(text::trim(d)) =~= Seq::empty());
        }
    }
}

proof fn lemma_domain_chars_concat(a: Seq<char>, b: Seq<char>)
    ensures
        backend::domain_chars(a + b) == backend::domain_chars(a) + backend::domain_chars(b),
    decreases b.len(),
{
    if b.len() == 0 {
        assert(a + b =~= a);
        rows::lemma_empty(backend::domain_chars(a));
    } else {
        lemma_domain_chars_concat(a, b.drop_last());
        assert((a + b).drop_last() =~= a + b.drop_last());
        assert((a + b).last() == b.last());
        assert(backend::domain_chars(a + b) =~= backend::domain_chars(a) + backend::domain_chars(b));
    }
}

proof fn lemma_domain_chars_clean(s: Seq<char>)
    requires
        forall|i: int| 0 <= i < s.len() ==> backend::domain_char(#[trigger] s[i]),
    ensures
        backend::domain_chars(s) == s,
    decreases s.len(),
{
    if s.len() > 0 {
        let t = s.drop_last();
        assert forall|i: int| 0 <= i < t.len() implies backend::domain_char(#[trigger] t[i]) by {
            assert(t[i] == s[i]);
        }
        lemma_domain_chars_clean(t);
        assert(backend::domain_char(s[s.len() - 1]));
        assert(t.push(s.last()) =~= s);
    } else {
        assert(s =~= Seq::empty());
    }
}

/// Whether a text is a domain's name: letters, digits, dots, hyphens and underscores.
pub open spec fn domain_name(s: Seq<char>) -> bool {
    &&& s.len() > 0
    &&& forall|i: int|
        0 <= i < s.len() ==> {
            let c = #[trigger] s[i];
            !text::white_space(c) && (text::alphanumeric(c) || c == '.' || c == '-' || c == '_')
        }
}

/// A name in the list of domains is kept as it is, with one space to the next, whether a comma or
/// white space stands between them.
pub proof fn law_domains_are_kept(name: Seq<char>, rest: Seq<char>)
    requires
        domain_name(name),
    ensures
        backend::domains_text(name) == name,
        backend::domains_text(rest).len() > 0 ==> backend::domains_text(name + seq![','] + rest)
            == name + " "@ + backend::domains_text(rest),
        backend::domains_text(rest).len() > 0 ==> backend::domains_text(name + seq![' '] + rest)
            == name + " "@ + backend::domains_text(rest),
        backend::domains_text(rest).len() == 0 ==> backend::domains_text(name + seq![','] + rest)
            == name,
{
    assert forall|i: int| 0 <= i < name.len() implies backend::domain_char(#[trigger] name[i]) by {}
    lemma_domain_chars_clean(name);
    assert(texts::solid(name));
    let r = backend::domain_chars(rest);
    let comma = seq![','];
    let space = seq![' '];
    assert(comma.drop_last() =~= Seq::empty() && space.drop_last() =~= Seq::empty());
    assert(backend::domain_chars(Seq::empty()) =~= Seq::empty());
    assert(backend::domain_chars(comma) =~= space);
    assert(backend::domain_chars(space) =~= space);
    lemma_domain_chars_concat(name + comma, rest);
    lemma_domain_chars_concat(name, comma);
    lemma_domain_chars_concat(name + space, rest);
    lemma_domain_chars_concat(name, space);
    texts::law_words_add_up(name, ' ', r);
    let w = scan::words(r);
    texts::law_joined_texts_stand_in_a_row(seq![name], w, " "@);
    if w.len() == 0 {
        rows::lemma_empty(seq![name]);
        assert(w =~= Seq::empty());
        assert(scan::joined(w, " "@) =~= Seq::empty());
    }
    if backend::domains_text(rest).len() == 0 && w.len() > 0 {
        lemma_words_say_something(r);
        lemma_joined_is_as_long(w, " "@);
        assert(false);
    }
}

proof fn lemma_words_say_something(s: Seq<char>)
    ensures
        forall|i: int| 0 <= i < scan::words(s).len() ==> (#[trigger] scan::words(s)[i]).len() > 0,
{
    lemma_non_empty(scan::split_space(s));
}

proof fn lemma_non_empty(p: Seq<Seq<char>>)
    ensures
        forall|i: int|
            0 <= i < scan::non_empty(p).len() ==> (#[trigger] scan::non_empty(p)[i]).len() > 0,
    decreases p.len(),
{
    if p.len() > 0 {
        lemma_non_empty(p.drop_last());
        assert forall|i: int| 0 <= i < scan::non_empty(p).len() implies (#[trigger] scan::non_empty(
            p,
        )[i]).len() > 0 by {
            if i < scan::non_empty(p.drop_last()).len() {
                assert(scan::non_empty(p)[i] == scan::non_empty(p.drop_last())[i]);
            }
        }
    }
}

proof fn lemma_joined_is_as_long(w: Seq<Seq<char>>, sep: Seq<char>)
    requires
        w.len() > 0,
    ensures
        scan::joined(w, sep).len() >= w.last().len(),
        w.last().len() > 0 ==> scan::joined(w, sep).len() > 0,
{
}

// ---- the log ----

/// The journal is asked for what one process wrote, and for no more than what came since a time
/// where one is given.
pub proof fn law_journal_is_asked_for_one_process(pid: u32, since: u64)
    ensures
        vpnc::journal_text(pid, None).program == "/usr/bin/journalctl"@,
        vpnc::journal_text(pid, None).args == seq![
            "-t"@,
            "vpnc"@,
            "_PID="@ + number::decimal(pid as nat),
            "-o"@,
            "cat"@,
            "--no-pager"@,
            "-n"@,
            "2000"@,
        ],
        vpnc::journal_text(pid, None).stdin is None,
        vpnc::journal_text(pid, Some(since)).args == vpnc::journal_text(pid, None).args.push(
            "--since=@"@ + number::decimal(since as nat),
        ),
{
    let a = vpnc::journal_text(pid, None).args;
    assert(a =~= seq![
        "-t"@,
        "vpnc"@,
        "_PID="@ + number::decimal(pid as nat),
        "-o"@,
        "cat"@,
        "--no-pager"@,
        "-n"@,
        "2000"@,
    ]);
    assert(vpnc::journal_text(pid, Some(since)).args =~= a.push(
        "--since=@"@ + number::decimal(since as nat),
    ));
}

/// A session's log begins with what vpnc printed while it connected and ends with what it wrote to
/// the journal; it is the latter alone where it printed nothing.
pub proof fn law_log_is_boot_and_journal(boot: Seq<char>, post: Seq<char>, journal: Seq<char>)
    requires
        texts::all_white(post),
    ensures
        boot.len() > 0 && !text::white_space(boot.last()) ==> vpnc::session_text(
            boot + post,
            journal,
        ) == boot + "\n"@ + journal,
        vpnc::session_text(post, journal) == journal,
{
    texts::law_blank_says_nothing(post);
    if boot.len() > 0 && !text::white_space(boot.last()) {
        texts::lemma_trim_end_before(boot, post);
        text::lemma_trim_blank(boot + post);
        assert((boot + post)[boot.len() - 1] == boot.last());
    }
}

/// Of a long account of a failure, the last six hundred characters are told.
pub proof fn law_vpnc_failure_tells_the_end(o: Output, start: Seq<char>, end: Seq<char>)
    requires
        end.len() == 600,
        o.status != 0,
        !privilege::dismissed(o.status, o.err@),
        text::trim(o.out@) == start + end,
    ensures
        vpnc::connect_message(o) == Some(
            "vpnc failed (status "@ + number::signed_decimal(o.status as int) + "):\n"@ + end,
        ),
{
    law_tail_is_the_end(start, end, 600);
}

/// Of a long account of a failure, the last six hundred characters are told.
pub proof fn law_openconnect_failure_tells_the_end(o: Output, start: Seq<char>, end: Seq<char>)
    requires
        end.len() == 600,
        o.status != 0,
        !privilege::dismissed(o.status, o.err@),
        text::trim(o.out@ + o.err@) == start + end,
    ensures
        openconnect::connect_message(o) == Some(
            "openconnect failed (status "@ + number::signed_decimal(o.status as int) + "):\n"@ + end,
        ),
{
    law_tail_is_the_end(start, end, 600);
}

} // verus!
