//! openconnect: its arguments and what it reads.

use crate::args;
use crate::backend;
use crate::backend::openconnect;
use crate::laws::rows;
use crate::laws::texts;
use crate::model;
use crate::model::ProfileText;
use crate::sys;
use crate::sys::Host;
use crate::text;
use vstd::prelude::*;

verus! {

/// Whether a change of a profile adds something to its arguments, between what every connection has
/// and the server, and changes nothing else.
pub open spec fn adds_args(
    h: Host,
    with: ProfileText,
    without: ProfileText,
    more: Seq<Seq<char>>,
) -> bool {
    rows::inserted(
        openconnect::args_text(h, with),
        openconnect::args_text(h, without),
        more,
        9,
        openconnect::args_text(h, without).len() - 1,
    )
}

/// The protocol is the one that a profile says, and AnyConnect's where it says none.
pub open spec fn protocol_of(p: ProfileText) -> Seq<char> {
    match model::given(p.oc_protocol) {
        Some(s) => s,
        None => "anyconnect"@,
    }
}

/// Of a profile that says nothing more, openconnect is told to go to the background, the pid file,
/// the network script, the protocol, to read the password, the user and the server.
pub proof fn law_arguments_name_the_login(h: Host, p: ProfileText, program: Seq<char>)
    requires
        sys::openconnect_program(h) == Some(program),
        p.oc_debug == Some("0"@),
        p.oc_no_dtls != Some(true),
        p.oc_dpd is None,
        p.oc_mtu is None,
        p.oc_reconnect is None,
        p.oc_authgroup is None,
        p.oc_server_cert is None,
        p.client_cert is None,
    ensures
        openconnect::args_text(h, p) == seq![
            program,
            "--background"@,
            "--pid-file"@,
            model::pid_path(h.config@, p),
            "--script"@,
            backend::invocation_text(h, p),
            "--protocol="@ + protocol_of(p),
            "--passwd-on-stdin"@,
            "--user="@ + model::domain_and_user(p.username).1,
            p.gateway,
        ],
{
    reveal_strlit("0");
    reveal_strlit("1");
    reveal_strlit("2");
    reveal_strlit("3");
    reveal_strlit("99");
    texts::law_trim_leaves_the_text(Seq::empty(), "0"@, Seq::empty());
    assert("0"@[0] != "1"@[0] && "0"@[0] != "2"@[0] && "0"@[0] != "3"@[0] && "0"@[0] != "99"@[0]);
    assert(openconnect::verbosity(p.oc_debug) =~= Seq::empty());
    assert(openconnect::args_text(h, p) =~= seq![
        program,
        "--background"@,
        "--pid-file"@,
        model::pid_path(h.config@, p),
        "--script"@,
        backend::invocation_text(h, p),
        "--protocol="@ + protocol_of(p),
        "--passwd-on-stdin"@,
        "--user="@ + model::domain_and_user(p.username).1,
        p.gateway,
    ]);
}

/// The first openconnect that is there is run, the distribution's before a local one.
pub proof fn law_distribution_program_comes_first(h: Host)
    ensures
        h.openconnect ==> sys::openconnect_program(h) == Some("/usr/bin/openconnect"@),
        !h.openconnect && h.openconnect_local ==> sys::openconnect_program(h) == Some(
            "/usr/local/bin/openconnect"@,
        ),
        sys::openconnect_program(h) is None <==> !h.openconnect && !h.openconnect_local,
{
}

/// The protocol is told as the profile says it, without white space around it.
pub proof fn law_protocol_is_told(h: Host, p: ProfileText, protocol: Seq<char>)
    ensures
        p.oc_protocol == Some(protocol) && !texts::all_white(protocol) ==> openconnect::args_text(
            h,
            p,
        )[6] == "--protocol="@ + text::trim(protocol),
        p.oc_protocol == Some(protocol) && texts::all_white(protocol) ==> openconnect::args_text(
            h,
            p,
        )[6] == "--protocol="@ + "anyconnect"@,
        p.oc_protocol is None ==> openconnect::args_text(h, p)[6] == "--protocol="@ + "anyconnect"@,
{
    texts::lemma_given(protocol);
}

/// The user is told as typed, and without the domain where one is typed before it.
pub proof fn law_user_is_told(h: Host, p: ProfileText, d: Seq<char>, u: Seq<char>)
    ensures
        !p.username.contains('\\') ==> openconnect::args_text(h, p)[8] == "--user="@ + p.username,
        !d.contains('\\') && p.username == d + seq!['\\'] + u ==> openconnect::args_text(h, p)[8]
            == "--user="@ + text::trim(u),
{
    if !p.username.contains('\\') {
        texts::law_cut_at_the_first(p.username, '\\', Seq::empty());
    }
    if !d.contains('\\') {
        texts::law_cut_at_the_first(d, '\\', u);
    }
}

/// The server stands last, as the profile has it.
pub proof fn law_server_stands_last(h: Host, p: ProfileText)
    ensures
        openconnect::args_text(h, p).len() >= 10,
        openconnect::args_text(h, p).last() == p.gateway,
{
}

proof fn lemma_adds_args(
    h: Host,
    with: ProfileText,
    without: ProfileText,
    pre: Seq<Seq<char>>,
    more: Seq<Seq<char>>,
    post: Seq<Seq<char>>,
)
    requires
        openconnect::args_text(h, with) == pre + more + post,
        openconnect::args_text(h, without) == pre + post,
        pre.len() >= 9,
        post.len() >= 1,
    ensures
        adds_args(h, with, without, more),
{
    rows::lemma_inserted(
        openconnect::args_text(h, with),
        openconnect::args_text(h, without),
        pre,
        more,
        post,
        9,
        openconnect::args_text(h, without).len() - 1,
    );
}

/// The seconds between probes: the option is told with its value, trimmed, and neither where the
/// value is blank or absent.
pub proof fn law_arguments_say_oc_dpd(h: Host, p: ProfileText, value: Seq<char>)
    ensures
        !texts::all_white(value) ==> adds_args(
            h,
            (ProfileText { oc_dpd: Some(value), ..p }),
            (ProfileText { oc_dpd: None, ..p }),
            seq!["--dpd"@, text::trim(value)],
        ),
        texts::all_white(value) ==> openconnect::args_text(
            h,
            (ProfileText { oc_dpd: Some(value), ..p }),
        ) == openconnect::args_text(h, (ProfileText { oc_dpd: None, ..p })),
{
    let with = ProfileText { oc_dpd: Some(value), ..p };
    let without = ProfileText { oc_dpd: None, ..p };
    assert(openconnect::base_args(h, with) == openconnect::base_args(h, p));
    assert(openconnect::base_args(h, without) == openconnect::base_args(h, p));
    if texts::all_white(value) {
        texts::law_blank_says_nothing(value);
    }
    if !texts::all_white(value) {
        texts::lemma_given(value);
        let s0 = openconnect::base_args(h, p);
        let s1 = openconnect::verbosity(p.oc_debug);
        let s2 = args::if_set(p.oc_no_dtls == Some(true), "--no-dtls"@);
        let s4 = args::flagged("--mtu"@, p.oc_mtu);
        let s5 = args::flagged("--reconnect-timeout"@, p.oc_reconnect);
        let s6 = args::prefixed("--authgroup="@, p.oc_authgroup);
        let s7 = args::prefixed("--servercert="@, p.oc_server_cert);
        let s8 = args::prefixed("--certificate="@, p.client_cert);
        let s9 = seq![p.gateway];
        let more = seq!["--dpd"@, text::trim(value)];
        let pre = s0 + s1 + s2;
        rows::lemma_empty(pre);
        rows::lemma_assoc(pre + more, s4, s5);
        rows::lemma_assoc(pre, s4, s5);
        rows::lemma_assoc(pre + more, s4 + s5, s6);
        rows::lemma_assoc(pre, s4 + s5, s6);
        rows::lemma_assoc(pre + more, s4 + s5 + s6, s7);
        rows::lemma_assoc(pre, s4 + s5 + s6, s7);
        rows::lemma_assoc(pre + more, s4 + s5 + s6 + s7, s8);
        rows::lemma_assoc(pre, s4 + s5 + s6 + s7, s8);
        rows::lemma_assoc(pre + more, s4 + s5 + s6 + s7 + s8, s9);
        rows::lemma_assoc(pre, s4 + s5 + s6 + s7 + s8, s9);
        let post = s4 + s5 + s6 + s7 + s8 + s9;
        assert(openconnect::args_text(h, with) == pre + more + post);
        assert(openconnect::args_text(h, without) == pre + post);
        lemma_adds_args(h, with, without, pre, more, post);
    }
}

/// The packet size: the option is told with its value, trimmed, and neither where the
/// value is blank or absent.
pub proof fn law_arguments_say_oc_mtu(h: Host, p: ProfileText, value: Seq<char>)
    ensures
        !texts::all_white(value) ==> adds_args(
            h,
            (ProfileText { oc_mtu: Some(value), ..p }),
            (ProfileText { oc_mtu: None, ..p }),
            seq!["--mtu"@, text::trim(value)],
        ),
        texts::all_white(value) ==> openconnect::args_text(
            h,
            (ProfileText { oc_mtu: Some(value), ..p }),
        ) == openconnect::args_text(h, (ProfileText { oc_mtu: None, ..p })),
{
    let with = ProfileText { oc_mtu: Some(value), ..p };
    let without = ProfileText { oc_mtu: None, ..p };
    assert(openconnect::base_args(h, with) == openconnect::base_args(h, p));
    assert(openconnect::base_args(h, without) == openconnect::base_args(h, p));
    if texts::all_white(value) {
        texts::law_blank_says_nothing(value);
    }
    if !texts::all_white(value) {
        texts::lemma_given(value);
        let s0 = openconnect::base_args(h, p);
        let s1 = openconnect::verbosity(p.oc_debug);
        let s2 = args::if_set(p.oc_no_dtls == Some(true), "--no-dtls"@);
        let s3 = args::flagged("--dpd"@, p.oc_dpd);
        let s5 = args::flagged("--reconnect-timeout"@, p.oc_reconnect);
        let s6 = args::prefixed("--authgroup="@, p.oc_authgroup);
        let s7 = args::prefixed("--servercert="@, p.oc_server_cert);
        let s8 = args::prefixed("--certificate="@, p.client_cert);
        let s9 = seq![p.gateway];
        let more = seq!["--mtu"@, text::trim(value)];
        let pre = s0 + s1 + s2 + s3;
        rows::lemma_empty(pre);
        rows::lemma_assoc(pre + more, s5, s6);
        rows::lemma_assoc(pre, s5, s6);
        rows::lemma_assoc(pre + more, s5 + s6, s7);
        rows::lemma_assoc(pre, s5 + s6, s7);
        rows::lemma_assoc(pre + more, s5 + s6 + s7, s8);
        rows::lemma_assoc(pre, s5 + s6 + s7, s8);
        rows::lemma_assoc(pre + more, s5 + s6 + s7 + s8, s9);
        rows::lemma_assoc(pre, s5 + s6 + s7 + s8, s9);
        let post = s5 + s6 + s7 + s8 + s9;
        assert(openconnect::args_text(h, with) == pre + more + post);
        assert(openconnect::args_text(h, without) == pre + post);
        lemma_adds_args(h, with, without, pre, more, post);
    }
}

/// The seconds for reconnecting: the option is told with its value, trimmed, and neither where the
/// value is blank or absent.
pub proof fn law_arguments_say_oc_reconnect(h: Host, p: ProfileText, value: Seq<char>)
    ensures
        !texts::all_white(value) ==> adds_args(
            h,
            (ProfileText { oc_reconnect: Some(value), ..p }),
            (ProfileText { oc_reconnect: None, ..p }),
            seq!["--reconnect-timeout"@, text::trim(value)],
        ),
        texts::all_white(value) ==> openconnect::args_text(
            h,
            (ProfileText { oc_reconnect: Some(value), ..p }),
        ) == openconnect::args_text(h, (ProfileText { oc_reconnect: None, ..p })),
{
    let with = ProfileText { oc_reconnect: Some(value), ..p };
    let without = ProfileText { oc_reconnect: None, ..p };
    assert(openconnect::base_args(h, with) == openconnect::base_args(h, p));
    assert(openconnect::base_args(h, without) == openconnect::base_args(h, p));
    if texts::all_white(value) {
        texts::law_blank_says_nothing(value);
    }
    if !texts::all_white(value) {
        texts::lemma_given(value);
        let s0 = openconnect::base_args(h, p);
        let s1 = openconnect::verbosity(p.oc_debug);
        let s2 = args::if_set(p.oc_no_dtls == Some(true), "--no-dtls"@);
        let s3 = args::flagged("--dpd"@, p.oc_dpd);
        let s4 = args::flagged("--mtu"@, p.oc_mtu);
        let s6 = args::prefixed("--authgroup="@, p.oc_authgroup);
        let s7 = args::prefixed("--servercert="@, p.oc_server_cert);
        let s8 = args::prefixed("--certificate="@, p.client_cert);
        let s9 = seq![p.gateway];
        let more = seq!["--reconnect-timeout"@, text::trim(value)];
        let pre = s0 + s1 + s2 + s3 + s4;
        rows::lemma_empty(pre);
        rows::lemma_assoc(pre + more, s6, s7);
        rows::lemma_assoc(pre, s6, s7);
        rows::lemma_assoc(pre + more, s6 + s7, s8);
        rows::lemma_assoc(pre, s6 + s7, s8);
        rows::lemma_assoc(pre + more, s6 + s7 + s8, s9);
        rows::lemma_assoc(pre, s6 + s7 + s8, s9);
        let post = s6 + s7 + s8 + s9;
        assert(openconnect::args_text(h, with) == pre + more + post);
        assert(openconnect::args_text(h, without) == pre + post);
        lemma_adds_args(h, with, without, pre, more, post);
    }
}

/// The group: the option is told with its value, trimmed, and neither where the
/// value is blank or absent.
pub proof fn law_arguments_say_oc_authgroup(h: Host, p: ProfileText, value: Seq<char>)
    ensures
        !texts::all_white(value) ==> adds_args(
            h,
            (ProfileText { oc_authgroup: Some(value), ..p }),
            (ProfileText { oc_authgroup: None, ..p }),
            seq!["--authgroup="@ + text::trim(value)],
        ),
        texts::all_white(value) ==> openconnect::args_text(
            h,
            (ProfileText { oc_authgroup: Some(value), ..p }),
        ) == openconnect::args_text(h, (ProfileText { oc_authgroup: None, ..p })),
{
    let with = ProfileText { oc_authgroup: Some(value), ..p };
    let without = ProfileText { oc_authgroup: None, ..p };
    assert(openconnect::base_args(h, with) == openconnect::base_args(h, p));
    assert(openconnect::base_args(h, without) == openconnect::base_args(h, p));
    if texts::all_white(value) {
        texts::law_blank_says_nothing(value);
    }
    if !texts::all_white(value) {
        texts::lemma_given(value);
        let s0 = openconnect::base_args(h, p);
        let s1 = openconnect::verbosity(p.oc_debug);
        let s2 = args::if_set(p.oc_no_dtls == Some(true), "--no-dtls"@);
        let s3 = args::flagged("--dpd"@, p.oc_dpd);
        let s4 = args::flagged("--mtu"@, p.oc_mtu);
        let s5 = args::flagged("--reconnect-timeout"@, p.oc_reconnect);
        let s7 = args::prefixed("--servercert="@, p.oc_server_cert);
        let s8 = args::prefixed("--certificate="@, p.client_cert);
        let s9 = seq![p.gateway];
        let more = seq!["--authgroup="@ + text::trim(value)];
        let pre = s0 + s1 + s2 + s3 + s4 + s5;
        rows::lemma_empty(pre);
        rows::lemma_assoc(pre + more, s7, s8);
        rows::lemma_assoc(pre, s7, s8);
        rows::lemma_assoc(pre + more, s7 + s8, s9);
        rows::lemma_assoc(pre, s7 + s8, s9);
        let post = s7 + s8 + s9;
        assert(openconnect::args_text(h, with) == pre + more + post);
        assert(openconnect::args_text(h, without) == pre + post);
        lemma_adds_args(h, with, without, pre, more, post);
    }
}

/// The pin of the server's certificate: the option is told with its value, trimmed, and neither where the
/// value is blank or absent.
pub proof fn law_arguments_say_oc_server_cert(h: Host, p: ProfileText, value: Seq<char>)
    ensures
        !texts::all_white(value) ==> adds_args(
            h,
            (ProfileText { oc_server_cert: Some(value), ..p }),
            (ProfileText { oc_server_cert: None, ..p }),
            seq!["--servercert="@ + text::trim(value)],
        ),
        texts::all_white(value) ==> openconnect::args_text(
            h,
            (ProfileText { oc_server_cert: Some(value), ..p }),
        ) == openconnect::args_text(h, (ProfileText { oc_server_cert: None, ..p })),
{
    let with = ProfileText { oc_server_cert: Some(value), ..p };
    let without = ProfileText { oc_server_cert: None, ..p };
    assert(openconnect::base_args(h, with) == openconnect::base_args(h, p));
    assert(openconnect::base_args(h, without) == openconnect::base_args(h, p));
    if texts::all_white(value) {
        texts::law_blank_says_nothing(value);
    }
    if !texts::all_white(value) {
        texts::lemma_given(value);
        let s0 = openconnect::base_args(h, p);
        let s1 = openconnect::verbosity(p.oc_debug);
        let s2 = args::if_set(p.oc_no_dtls == Some(true), "--no-dtls"@);
        let s3 = args::flagged("--dpd"@, p.oc_dpd);
        let s4 = args::flagged("--mtu"@, p.oc_mtu);
        let s5 = args::flagged("--reconnect-timeout"@, p.oc_reconnect);
        let s6 = args::prefixed("--authgroup="@, p.oc_authgroup);
        let s8 = args::prefixed("--certificate="@, p.client_cert);
        let s9 = seq![p.gateway];
        let more = seq!["--servercert="@ + text::trim(value)];
        let pre = s0 + s1 + s2 + s3 + s4 + s5 + s6;
        rows::lemma_empty(pre);
        rows::lemma_assoc(pre + more, s8, s9);
        rows::lemma_assoc(pre, s8, s9);
        let post = s8 + s9;
        assert(openconnect::args_text(h, with) == pre + more + post);
        assert(openconnect::args_text(h, without) == pre + post);
        lemma_adds_args(h, with, without, pre, more, post);
    }
}

/// The client's certificate: the option is told with its value, trimmed, and neither where the
/// value is blank or absent.
pub proof fn law_arguments_say_client_cert(h: Host, p: ProfileText, value: Seq<char>)
    ensures
        !texts::all_white(value) ==> adds_args(
            h,
            (ProfileText { client_cert: Some(value), ..p }),
            (ProfileText { client_cert: None, ..p }),
            seq!["--certificate="@ + text::trim(value)],
        ),
        texts::all_white(value) ==> openconnect::args_text(
            h,
            (ProfileText { client_cert: Some(value), ..p }),
        ) == openconnect::args_text(h, (ProfileText { client_cert: None, ..p })),
{
    let with = ProfileText { client_cert: Some(value), ..p };
    let without = ProfileText { client_cert: None, ..p };
    assert(openconnect::base_args(h, with) == openconnect::base_args(h, p));
    assert(openconnect::base_args(h, without) == openconnect::base_args(h, p));
    if texts::all_white(value) {
        texts::law_blank_says_nothing(value);
    }
    if !texts::all_white(value) {
        texts::lemma_given(value);
        let s0 = openconnect::base_args(h, p);
        let s1 = openconnect::verbosity(p.oc_debug);
        let s2 = args::if_set(p.oc_no_dtls == Some(true), "--no-dtls"@);
        let s3 = args::flagged("--dpd"@, p.oc_dpd);
        let s4 = args::flagged("--mtu"@, p.oc_mtu);
        let s5 = args::flagged("--reconnect-timeout"@, p.oc_reconnect);
        let s6 = args::prefixed("--authgroup="@, p.oc_authgroup);
        let s7 = args::prefixed("--servercert="@, p.oc_server_cert);
        let s9 = seq![p.gateway];
        let more = seq!["--certificate="@ + text::trim(value)];
        let pre = s0 + s1 + s2 + s3 + s4 + s5 + s6 + s7;
        rows::lemma_empty(pre);
        let post = s9;
        assert(openconnect::args_text(h, with) == pre + more + post);
        assert(openconnect::args_text(h, without) == pre + post);
        lemma_adds_args(h, with, without, pre, more, post);
    }
}

/// TLS only is asked for where the profile says so, and only there.
pub proof fn law_arguments_say_no_dtls(h: Host, p: ProfileText)
    ensures
        adds_args(
            h,
            (ProfileText { oc_no_dtls: Some(true), ..p }),
            (ProfileText { oc_no_dtls: Some(false), ..p }),
            seq!["--no-dtls"@],
        ),
        openconnect::args_text(h, (ProfileText { oc_no_dtls: None, ..p }))
            == openconnect::args_text(h, (ProfileText { oc_no_dtls: Some(false), ..p })),
{
    let with = ProfileText { oc_no_dtls: Some(true), ..p };
    let without = ProfileText { oc_no_dtls: Some(false), ..p };
    let silent = ProfileText { oc_no_dtls: None, ..p };
    assert(openconnect::base_args(h, with) == openconnect::base_args(h, p));
    assert(openconnect::base_args(h, without) == openconnect::base_args(h, p));
    assert(openconnect::base_args(h, silent) == openconnect::base_args(h, p));
    let s0 = openconnect::base_args(h, p);
    let s1 = openconnect::verbosity(p.oc_debug);
    let s3 = args::flagged("--dpd"@, p.oc_dpd);
    let s4 = args::flagged("--mtu"@, p.oc_mtu);
    let s5 = args::flagged("--reconnect-timeout"@, p.oc_reconnect);
    let s6 = args::prefixed("--authgroup="@, p.oc_authgroup);
    let s7 = args::prefixed("--servercert="@, p.oc_server_cert);
    let s8 = args::prefixed("--certificate="@, p.client_cert);
    let s9 = seq![p.gateway];
    let more = seq!["--no-dtls"@];
    let pre = s0 + s1;
    rows::lemma_empty(pre);
    rows::lemma_assoc(pre + more, s3, s4);
    rows::lemma_assoc(pre, s3, s4);
    rows::lemma_assoc(pre + more, s3 + s4, s5);
    rows::lemma_assoc(pre, s3 + s4, s5);
    rows::lemma_assoc(pre + more, s3 + s4 + s5, s6);
    rows::lemma_assoc(pre, s3 + s4 + s5, s6);
    rows::lemma_assoc(pre + more, s3 + s4 + s5 + s6, s7);
    rows::lemma_assoc(pre, s3 + s4 + s5 + s6, s7);
    rows::lemma_assoc(pre + more, s3 + s4 + s5 + s6 + s7, s8);
    rows::lemma_assoc(pre, s3 + s4 + s5 + s6 + s7, s8);
    rows::lemma_assoc(pre + more, s3 + s4 + s5 + s6 + s7 + s8, s9);
    rows::lemma_assoc(pre, s3 + s4 + s5 + s6 + s7 + s8, s9);
    let post = s3 + s4 + s5 + s6 + s7 + s8 + s9;
    assert(openconnect::args_text(h, with) == pre + more + post);
    assert(openconnect::args_text(h, without) == pre + post);
    lemma_adds_args(h, with, without, pre, more, post);
}

/// As many letters ask for detail as the level says, from one to three; the highest level asks for
/// the traffic too, level zero for nothing, and where nothing is said it is the first.
pub proof fn law_arguments_say_verbosity(h: Host, p: ProfileText)
    ensures
        ({
            let none = ProfileText { oc_debug: Some("0"@), ..p };
            &&& adds_args(h, (ProfileText { oc_debug: Some("1"@), ..p }), none, seq!["-v"@])
            &&& adds_args(h, (ProfileText { oc_debug: None, ..p }), none, seq!["-v"@])
            &&& adds_args(h, (ProfileText { oc_debug: Some("2"@), ..p }), none, seq!["-vv"@])
            &&& adds_args(h, (ProfileText { oc_debug: Some("3"@), ..p }), none, seq!["-vvv"@])
            &&& adds_args(
                h,
                (ProfileText { oc_debug: Some("99"@), ..p }),
                none,
                seq!["-vvv"@, "--dump-http-traffic"@],
            )
        }),
{
    reveal_strlit("0");
    reveal_strlit("1");
    reveal_strlit("2");
    reveal_strlit("3");
    reveal_strlit("99");
    let none = Seq::<char>::empty();
    texts::law_trim_leaves_the_text(none, "0"@, none);
    texts::law_trim_leaves_the_text(none, "1"@, none);
    texts::law_trim_leaves_the_text(none, "2"@, none);
    texts::law_trim_leaves_the_text(none, "3"@, none);
    texts::law_trim_leaves_the_text(none, "99"@, none);
    assert("0"@[0] != "1"@[0] && "0"@[0] != "2"@[0] && "0"@[0] != "3"@[0] && "0"@[0] != "99"@[0]);
    assert("1"@[0] != "2"@[0] && "1"@[0] != "3"@[0] && "1"@[0] != "99"@[0]);
    assert("2"@[0] != "3"@[0] && "2"@[0] != "99"@[0] && "3"@[0] != "99"@[0]);
    lemma_verbosity(h, p, Some("1"@), seq!["-v"@]);
    lemma_verbosity(h, p, None, seq!["-v"@]);
    lemma_verbosity(h, p, Some("2"@), seq!["-vv"@]);
    lemma_verbosity(h, p, Some("3"@), seq!["-vvv"@]);
    lemma_verbosity(h, p, Some("99"@), seq!["-vvv"@, "--dump-http-traffic"@]);
}

proof fn lemma_verbosity(h: Host, p: ProfileText, level: Option<Seq<char>>, more: Seq<Seq<char>>)
    requires
        openconnect::verbosity(level) == more,
        openconnect::verbosity(Some("0"@)) == Seq::<Seq<char>>::empty(),
    ensures
        adds_args(
            h,
            (ProfileText { oc_debug: level, ..p }),
            (ProfileText { oc_debug: Some("0"@), ..p }),
            more,
        ),
{
    let with = ProfileText { oc_debug: level, ..p };
    let without = ProfileText { oc_debug: Some("0"@), ..p };
    assert(openconnect::base_args(h, with) == openconnect::base_args(h, p));
    assert(openconnect::base_args(h, without) == openconnect::base_args(h, p));
    let s0 = openconnect::base_args(h, p);
    let s2 = args::if_set(p.oc_no_dtls == Some(true), "--no-dtls"@);
    let s3 = args::flagged("--dpd"@, p.oc_dpd);
    let s4 = args::flagged("--mtu"@, p.oc_mtu);
    let s5 = args::flagged("--reconnect-timeout"@, p.oc_reconnect);
    let s6 = args::prefixed("--authgroup="@, p.oc_authgroup);
    let s7 = args::prefixed("--servercert="@, p.oc_server_cert);
    let s8 = args::prefixed("--certificate="@, p.client_cert);
    let s9 = seq![p.gateway];
    let pre = s0;
    rows::lemma_empty(pre);
    rows::lemma_assoc(pre + more, s2, s3);
    rows::lemma_assoc(pre, s2, s3);
    rows::lemma_assoc(pre + more, s2 + s3, s4);
    rows::lemma_assoc(pre, s2 + s3, s4);
    rows::lemma_assoc(pre + more, s2 + s3 + s4, s5);
    rows::lemma_assoc(pre, s2 + s3 + s4, s5);
    rows::lemma_assoc(pre + more, s2 + s3 + s4 + s5, s6);
    rows::lemma_assoc(pre, s2 + s3 + s4 + s5, s6);
    rows::lemma_assoc(pre + more, s2 + s3 + s4 + s5 + s6, s7);
    rows::lemma_assoc(pre, s2 + s3 + s4 + s5 + s6, s7);
    rows::lemma_assoc(pre + more, s2 + s3 + s4 + s5 + s6 + s7, s8);
    rows::lemma_assoc(pre, s2 + s3 + s4 + s5 + s6 + s7, s8);
    rows::lemma_assoc(pre + more, s2 + s3 + s4 + s5 + s6 + s7 + s8, s9);
    rows::lemma_assoc(pre, s2 + s3 + s4 + s5 + s6 + s7 + s8, s9);
    let post = s2 + s3 + s4 + s5 + s6 + s7 + s8 + s9;
    assert(openconnect::args_text(h, with) == pre + more + post);
    assert(openconnect::args_text(h, without) == pre + post);
    lemma_adds_args(h, with, without, pre, more, post);
}

/// openconnect reads the password and then the one-time code, each on its line; there is a line for
/// a password that is missing, and none for a code that is missing or blank.
pub proof fn law_password_is_read_before_the_code(password: Seq<char>, code: Seq<char>)
    ensures
        openconnect::input_text(Some(password), None) == password + "\n"@,
        openconnect::input_text(None, None) == "\n"@,
        !texts::all_white(code) ==> openconnect::input_text(Some(password), Some(code)) == password
            + "\n"@ + text::trim(code) + "\n"@,
        texts::all_white(code) ==> openconnect::input_text(Some(password), Some(code)) == password
            + "\n"@,
{
    rows::lemma_empty("\n"@);
    texts::lemma_given(code);
}

} // verus!
