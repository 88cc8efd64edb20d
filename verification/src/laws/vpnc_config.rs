//! vpnc: the configuration that it reads.

use crate::args;
use crate::backend;
use crate::backend::vpnc;
use crate::laws::rows;
use crate::laws::texts;
use crate::model;
use crate::model::ProfileText;
use crate::sys::Host;
use crate::text;
use vstd::prelude::*;

verus! {

/// The mode is the one that a profile says, and a shared key where it says none.
pub proof fn law_shared_key_is_the_default(p: ProfileText, mode: Seq<char>)
    ensures
        p.authmode == Some(mode) && !texts::all_white(mode) ==> vpnc::auth_mode(p) == text::trim(
            mode,
        ),
        p.authmode == Some(mode) && texts::all_white(mode) ==> vpnc::auth_mode(p) == "psk"@,
        p.authmode is None ==> vpnc::auth_mode(p) == "psk"@,
        vpnc::uses_cert(p) <==> vpnc::auth_mode(p) == "cert"@ || vpnc::auth_mode(p) == "hybrid"@,
{
    texts::lemma_given(mode);
}

/// A profile that uses certificates shows its certificate authority and needs it, whatever secret
/// there is; any other shows its group secret as it is and needs that.
pub proof fn law_group_is_shown_by_mode(p: ProfileText, secret: Option<Seq<char>>, ca: Seq<char>)
    ensures
        ({
            let certs = vpnc::auth_mode(p) == "cert"@ || vpnc::auth_mode(p) == "hybrid"@;
            let r = vpnc::credential(p, secret);
            &&& certs && p.ca_file == Some(ca) && !texts::all_white(ca) ==> r == Ok::<
                Seq<char>,
                Seq<char>,
            >("CA-File "@ + text::trim(ca))
            &&& certs && (p.ca_file is None || (p.ca_file == Some(ca) && texts::all_white(ca)))
                ==> r == Err::<Seq<char>, Seq<char>>(
                vpnc::auth_mode(p) + " auth needs a CA file.\nOpen the profile editor and set it."@,
            )
            &&& !certs && secret is Some ==> r == Ok::<Seq<char>, Seq<char>>(
                "IPSec secret "@ + secret.unwrap(),
            )
            &&& !certs && secret is None ==> r == Err::<Seq<char>, Seq<char>>(
                "Group secret not found for \u{201c}"@ + p.name
                    + "\u{201d}.\nOpen the profile editor and set it."@,
            )
        }),
{
    texts::lemma_given(ca);
}

/// What is typed before a backslash is the login domain and not part of the user's name; without
/// it the domain is the one that the profile keeps apart.
pub proof fn law_domain_is_not_the_user(p: ProfileText, d: Seq<char>, u: Seq<char>)
    ensures
        !d.contains('\\') && !texts::all_white(d) && p.username == d + seq!['\\'] + u
            ==> vpnc::login_domain(p) == Some(text::trim(d)) && model::domain_and_user(p.username)
            == (Some(text::trim(d)), text::trim(u)),
        !d.contains('\\') && texts::all_white(d) && p.username == d + seq!['\\'] + u
            ==> vpnc::login_domain(p) == model::given(p.domain) && model::domain_and_user(p.username)
            == (None::<Seq<char>>, text::trim(u)),
        !p.username.contains('\\') ==> model::domain_and_user(p.username) == (
            None::<Seq<char>>,
            p.username,
        ),
        !p.username.contains('\\') && p.domain == Some(d) && !texts::all_white(d)
            ==> vpnc::login_domain(p) == Some(text::trim(d)),
        !p.username.contains('\\') && p.domain == Some(d) && texts::all_white(d)
            ==> vpnc::login_domain(p) is None,
        !p.username.contains('\\') && p.domain is None ==> vpnc::login_domain(p) is None,
{
    texts::lemma_given(d);
    if !d.contains('\\') {
        texts::law_cut_at_the_first(d, '\\', u);
    }
    if !p.username.contains('\\') {
        texts::law_cut_at_the_first(p.username, '\\', u);
    }
}

/// Of a profile that says nothing more, vpnc is told the gateway, the group, the mode, the user,
/// what authenticates the group, and the network script, a line each.
pub proof fn law_config_names_the_login(
    h: Host,
    p: ProfileText,
    ip: Seq<char>,
    credential: Seq<char>,
)
    requires
        vpnc::login_domain(p) is None,
        p.dh_group is None,
        p.pfs is None,
        p.nat_mode is None,
        p.vendor is None,
        p.mtu is None,
        p.dpd_timeout is None,
        p.debug is None,
        p.enable_weak == Some(false),
        p.single_des != Some(true),
        p.no_encryption != Some(true),
        p.weak_auth != Some(true),
        p.extra is None,
    ensures
        vpnc::config_lines(h, p, ip, credential, None) == seq![
            "IPSec gateway "@ + ip,
            "IPSec ID "@ + p.id,
            "IKE Authmode "@ + vpnc::auth_mode(p),
            "Xauth username "@ + model::domain_and_user(p.username).1,
            credential,
            "Script "@ + backend::invocation_text(h, p),
        ],
{
    assert(vpnc::config_lines(h, p, ip, credential, None) =~= seq![
        "IPSec gateway "@ + ip,
        "IPSec ID "@ + p.id,
        "IKE Authmode "@ + vpnc::auth_mode(p),
        "Xauth username "@ + model::domain_and_user(p.username).1,
        credential,
        "Script "@ + backend::invocation_text(h, p),
    ]);
}

/// Where the directives end that say what a profile is: the network script follows, and then what
/// the profile adds word for word.
pub open spec fn script_at(
    h: Host,
    p: ProfileText,
    ip: Seq<char>,
    credential: Seq<char>,
    password: Option<Seq<char>>,
) -> int {
    vpnc::config_lines(h, p, ip, credential, password).len() - 1 - match p.extra {
        Some(x) => x.len() as int,
        None => 0,
    }
}

/// What a profile adds word for word stands behind the network script, as it is.
pub proof fn law_extra_lines_come_last(
    h: Host,
    p: ProfileText,
    ip: Seq<char>,
    credential: Seq<char>,
    password: Option<Seq<char>>,
    extra: Seq<Seq<char>>,
)
    ensures
        vpnc::config_lines(
            h,
            (ProfileText { extra: Some(extra), ..p }),
            ip,
            credential,
            password,
        ) == vpnc::config_lines(h, (ProfileText { extra: None, ..p }), ip, credential, password)
            + extra,
        vpnc::config_lines(h, p, ip, credential, password)[script_at(
            h,
            p,
            ip,
            credential,
            password,
        )] == "Script "@ + backend::invocation_text(h, p),
{
    let q = ProfileText { extra: Some(extra), ..p };
    let r = ProfileText { extra: None, ..p };
    assert(vpnc::config_lines(h, q, ip, credential, password) =~= vpnc::config_lines(
        h,
        r,
        ip,
        credential,
        password,
    ) + extra);
}

/// Whether a change of a profile adds one directive to its configuration, between what
/// authenticates the group and the network script, and changes nothing else.
pub open spec fn adds_line(
    h: Host,
    with: ProfileText,
    without: ProfileText,
    ip: Seq<char>,
    credential: Seq<char>,
    password: Option<Seq<char>>,
    line: Seq<char>,
) -> bool {
    rows::inserted(
        vpnc::config_lines(h, with, ip, credential, password),
        vpnc::config_lines(h, without, ip, credential, password),
        seq![line],
        5,
        script_at(h, without, ip, credential, password),
    )
}

proof fn lemma_frame<T>(h: Seq<T>, v: Seq<T>, s: Seq<T>, x: T, e: Seq<T>)
    ensures
        (h + v + s).push(x) + e == h + v + (s + seq![x] + e),
        (h + v + s).push(x) + e == (h + v) + s + (seq![x] + e),
{
    assert((h + v + s).push(x) + e =~= h + v + (s + seq![x] + e));
    assert((h + v + s).push(x) + e =~= (h + v) + s + (seq![x] + e));
}

/// A directive more among the values or the switches of a profile is one more in its configuration.
proof fn lemma_adds_line(
    h: Host,
    with: ProfileText,
    without: ProfileText,
    ip: Seq<char>,
    credential: Seq<char>,
    password: Option<Seq<char>>,
    line: Seq<char>,
)
    requires
        with.id == without.id,
        with.authmode == without.authmode,
        with.username == without.username,
        with.domain == without.domain,
        with.uuid == without.uuid,
        with.name == without.name,
        with.dns_match_domains == without.dns_match_domains,
        with.extra == without.extra,
        ({
            ||| vpnc::switch_lines(with) == vpnc::switch_lines(without) && rows::inserted(
                vpnc::value_lines(with),
                vpnc::value_lines(without),
                seq![line],
                0,
                vpnc::value_lines(without).len() as int,
            )
            ||| vpnc::value_lines(with) == vpnc::value_lines(without) && rows::inserted(
                vpnc::switch_lines(with),
                vpnc::switch_lines(without),
                seq![line],
                0,
                vpnc::switch_lines(without).len() as int,
            )
        }),
    ensures
        adds_line(h, with, without, ip, credential, password, line),
{
    let head = vpnc::login_lines(with, ip).push(credential) + args::with_value(
        "Domain "@,
        vpnc::login_domain(with),
    ) + args::with_value("Xauth password "@, password);
    let script = "Script "@ + backend::invocation_text(h, with);
    let extra = args::any(with.extra);
    let (va, vb) = (vpnc::value_lines(with), vpnc::value_lines(without));
    let (sa, sb) = (vpnc::switch_lines(with), vpnc::switch_lines(without));
    lemma_frame(head, va, sa, script, extra);
    lemma_frame(head, vb, sb, script, extra);
    let to = script_at(h, without, ip, credential, password);
    if sa == sb && rows::inserted(va, vb, seq![line], 0, vb.len() as int) {
        rows::lemma_inserted_within(va, vb, seq![line], head, sa + seq![script] + extra, 5, to);
    } else {
        rows::lemma_inserted_within(sa, sb, seq![line], head + va, seq![script] + extra, 5, to);
    }
}

/// A value of the profile adds its directive to the configuration; without one, or a blank one, the
/// directive is left out.
pub proof fn law_config_says_dh_group(
    h: Host,
    p: ProfileText,
    ip: Seq<char>,
    credential: Seq<char>,
    password: Option<Seq<char>>,
    value: Seq<char>,
)
    ensures
        !texts::all_white(value) ==> adds_line(
            h,
            (ProfileText { dh_group: Some(value), ..p }),
            (ProfileText { dh_group: None, ..p }),
            ip,
            credential,
            password,
            "IKE DH Group "@ + text::trim(value),
        ),
        texts::all_white(value) ==> vpnc::config_lines(
            h,
            (ProfileText { dh_group: Some(value), ..p }),
            ip,
            credential,
            password,
        ) == vpnc::config_lines(h, (ProfileText { dh_group: None, ..p }), ip, credential, password),
{
    let with = ProfileText { dh_group: Some(value), ..p };
    let without = ProfileText { dh_group: None, ..p };
    if texts::all_white(value) {
        texts::law_blank_says_nothing(value);
        assert(vpnc::value_lines(with) == vpnc::value_lines(without));
    }
    if !texts::all_white(value) {
        texts::lemma_given(value);
        let line = "IKE DH Group "@ + text::trim(value);
        let a = vpnc::value_lines(with);
        let b = vpnc::value_lines(without);
        let s1 = args::prefixed("Perfect Forward Secrecy "@, p.pfs);
        let s2 = args::prefixed("NAT Traversal Mode "@, p.nat_mode);
        let s3 = args::prefixed("Vendor "@, p.vendor);
        let s4 = args::prefixed("Interface MTU "@, p.mtu);
        let s5 = args::prefixed("DPD idle timeout (our side) "@, p.dpd_timeout);
        let s6 = args::prefixed("Debug "@, p.debug);
        let more = seq![line];
        let pre = Seq::<Seq<char>>::empty();
        rows::lemma_empty(pre);
        rows::lemma_empty(more);
        rows::lemma_empty(s1);
        rows::lemma_assoc(pre + more, s1, s2);
        rows::lemma_assoc(pre, s1, s2);
        rows::lemma_empty(s1 + s2);
        rows::lemma_assoc(pre + more, s1 + s2, s3);
        rows::lemma_assoc(pre, s1 + s2, s3);
        rows::lemma_empty(s1 + s2 + s3);
        rows::lemma_assoc(pre + more, s1 + s2 + s3, s4);
        rows::lemma_assoc(pre, s1 + s2 + s3, s4);
        rows::lemma_empty(s1 + s2 + s3 + s4);
        rows::lemma_assoc(pre + more, s1 + s2 + s3 + s4, s5);
        rows::lemma_assoc(pre, s1 + s2 + s3 + s4, s5);
        rows::lemma_empty(s1 + s2 + s3 + s4 + s5);
        rows::lemma_assoc(pre + more, s1 + s2 + s3 + s4 + s5, s6);
        rows::lemma_assoc(pre, s1 + s2 + s3 + s4 + s5, s6);
        rows::lemma_empty(s1 + s2 + s3 + s4 + s5 + s6);
        let post = s1 + s2 + s3 + s4 + s5 + s6;
        assert(a == pre + more + post);
        assert(b == pre + post);
        rows::lemma_inserted(a, b, pre, more, post, 0, b.len() as int);
        lemma_adds_line(h, with, without, ip, credential, password, line);
    }
}

/// A value of the profile adds its directive to the configuration; without one, or a blank one, the
/// directive is left out.
pub proof fn law_config_says_pfs(
    h: Host,
    p: ProfileText,
    ip: Seq<char>,
    credential: Seq<char>,
    password: Option<Seq<char>>,
    value: Seq<char>,
)
    ensures
        !texts::all_white(value) ==> adds_line(
            h,
            (ProfileText { pfs: Some(value), ..p }),
            (ProfileText { pfs: None, ..p }),
            ip,
            credential,
            password,
            "Perfect Forward Secrecy "@ + text::trim(value),
        ),
        texts::all_white(value) ==> vpnc::config_lines(
            h,
            (ProfileText { pfs: Some(value), ..p }),
            ip,
            credential,
            password,
        ) == vpnc::config_lines(h, (ProfileText { pfs: None, ..p }), ip, credential, password),
{
    let with = ProfileText { pfs: Some(value), ..p };
    let without = ProfileText { pfs: None, ..p };
    if texts::all_white(value) {
        texts::law_blank_says_nothing(value);
        assert(vpnc::value_lines(with) == vpnc::value_lines(without));
    }
    if !texts::all_white(value) {
        texts::lemma_given(value);
        let line = "Perfect Forward Secrecy "@ + text::trim(value);
        let a = vpnc::value_lines(with);
        let b = vpnc::value_lines(without);
        let s0 = args::prefixed("IKE DH Group "@, p.dh_group);
        let s2 = args::prefixed("NAT Traversal Mode "@, p.nat_mode);
        let s3 = args::prefixed("Vendor "@, p.vendor);
        let s4 = args::prefixed("Interface MTU "@, p.mtu);
        let s5 = args::prefixed("DPD idle timeout (our side) "@, p.dpd_timeout);
        let s6 = args::prefixed("Debug "@, p.debug);
        let more = seq![line];
        let pre = s0;
        rows::lemma_empty(pre);
        rows::lemma_empty(more);
        rows::lemma_empty(s2);
        rows::lemma_assoc(pre + more, s2, s3);
        rows::lemma_assoc(pre, s2, s3);
        rows::lemma_assoc(pre + more, s2 + s3, s4);
        rows::lemma_assoc(pre, s2 + s3, s4);
        rows::lemma_assoc(pre + more, s2 + s3 + s4, s5);
        rows::lemma_assoc(pre, s2 + s3 + s4, s5);
        rows::lemma_assoc(pre + more, s2 + s3 + s4 + s5, s6);
        rows::lemma_assoc(pre, s2 + s3 + s4 + s5, s6);
        let post = s2 + s3 + s4 + s5 + s6;
        assert(a == pre + more + post);
        assert(b == pre + post);
        rows::lemma_inserted(a, b, pre, more, post, 0, b.len() as int);
        lemma_adds_line(h, with, without, ip, credential, password, line);
    }
}

/// A value of the profile adds its directive to the configuration; without one, or a blank one, the
/// directive is left out.
pub proof fn law_config_says_nat_mode(
    h: Host,
    p: ProfileText,
    ip: Seq<char>,
    credential: Seq<char>,
    password: Option<Seq<char>>,
    value: Seq<char>,
)
    ensures
        !texts::all_white(value) ==> adds_line(
            h,
            (ProfileText { nat_mode: Some(value), ..p }),
            (ProfileText { nat_mode: None, ..p }),
            ip,
            credential,
            password,
            "NAT Traversal Mode "@ + text::trim(value),
        ),
        texts::all_white(value) ==> vpnc::config_lines(
            h,
            (ProfileText { nat_mode: Some(value), ..p }),
            ip,
            credential,
            password,
        ) == vpnc::config_lines(h, (ProfileText { nat_mode: None, ..p }), ip, credential, password),
{
    let with = ProfileText { nat_mode: Some(value), ..p };
    let without = ProfileText { nat_mode: None, ..p };
    if texts::all_white(value) {
        texts::law_blank_says_nothing(value);
        assert(vpnc::value_lines(with) == vpnc::value_lines(without));
    }
    if !texts::all_white(value) {
        texts::lemma_given(value);
        let line = "NAT Traversal Mode "@ + text::trim(value);
        let a = vpnc::value_lines(with);
        let b = vpnc::value_lines(without);
        let s0 = args::prefixed("IKE DH Group "@, p.dh_group);
        let s1 = args::prefixed("Perfect Forward Secrecy "@, p.pfs);
        let s3 = args::prefixed("Vendor "@, p.vendor);
        let s4 = args::prefixed("Interface MTU "@, p.mtu);
        let s5 = args::prefixed("DPD idle timeout (our side) "@, p.dpd_timeout);
        let s6 = args::prefixed("Debug "@, p.debug);
        let more = seq![line];
        let pre = s0 + s1;
        rows::lemma_empty(pre);
        rows::lemma_empty(more);
        rows::lemma_empty(s3);
        rows::lemma_assoc(pre + more, s3, s4);
        rows::lemma_assoc(pre, s3, s4);
        rows::lemma_assoc(pre + more, s3 + s4, s5);
        rows::lemma_assoc(pre, s3 + s4, s5);
        rows::lemma_assoc(pre + more, s3 + s4 + s5, s6);
        rows::lemma_assoc(pre, s3 + s4 + s5, s6);
        let post = s3 + s4 + s5 + s6;
        assert(a == pre + more + post);
        assert(b == pre + post);
        rows::lemma_inserted(a, b, pre, more, post, 0, b.len() as int);
        lemma_adds_line(h, with, without, ip, credential, password, line);
    }
}

/// A value of the profile adds its directive to the configuration; without one, or a blank one, the
/// directive is left out.
pub proof fn law_config_says_vendor(
    h: Host,
    p: ProfileText,
    ip: Seq<char>,
    credential: Seq<char>,
    password: Option<Seq<char>>,
    value: Seq<char>,
)
    ensures
        !texts::all_white(value) ==> adds_line(
            h,
            (ProfileText { vendor: Some(value), ..p }),
            (ProfileText { vendor: None, ..p }),
            ip,
            credential,
            password,
            "Vendor "@ + text::trim(value),
        ),
        texts::all_white(value) ==> vpnc::config_lines(
            h,
            (ProfileText { vendor: Some(value), ..p }),
            ip,
            credential,
            password,
        ) == vpnc::config_lines(h, (ProfileText { vendor: None, ..p }), ip, credential, password),
{
    let with = ProfileText { vendor: Some(value), ..p };
    let without = ProfileText { vendor: None, ..p };
    if texts::all_white(value) {
        texts::law_blank_says_nothing(value);
        assert(vpnc::value_lines(with) == vpnc::value_lines(without));
    }
    if !texts::all_white(value) {
        texts::lemma_given(value);
        let line = "Vendor "@ + text::trim(value);
        let a = vpnc::value_lines(with);
        let b = vpnc::value_lines(without);
        let s0 = args::prefixed("IKE DH Group "@, p.dh_group);
        let s1 = args::prefixed("Perfect Forward Secrecy "@, p.pfs);
        let s2 = args::prefixed("NAT Traversal Mode "@, p.nat_mode);
        let s4 = args::prefixed("Interface MTU "@, p.mtu);
        let s5 = args::prefixed("DPD idle timeout (our side) "@, p.dpd_timeout);
        let s6 = args::prefixed("Debug "@, p.debug);
        let more = seq![line];
        let pre = s0 + s1 + s2;
        rows::lemma_empty(pre);
        rows::lemma_empty(more);
        rows::lemma_empty(s4);
        rows::lemma_assoc(pre + more, s4, s5);
        rows::lemma_assoc(pre, s4, s5);
        rows::lemma_assoc(pre + more, s4 + s5, s6);
        rows::lemma_assoc(pre, s4 + s5, s6);
        let post = s4 + s5 + s6;
        assert(a == pre + more + post);
        assert(b == pre + post);
        rows::lemma_inserted(a, b, pre, more, post, 0, b.len() as int);
        lemma_adds_line(h, with, without, ip, credential, password, line);
    }
}

/// A value of the profile adds its directive to the configuration; without one, or a blank one, the
/// directive is left out.
pub proof fn law_config_says_mtu(
    h: Host,
    p: ProfileText,
    ip: Seq<char>,
    credential: Seq<char>,
    password: Option<Seq<char>>,
    value: Seq<char>,
)
    ensures
        !texts::all_white(value) ==> adds_line(
            h,
            (ProfileText { mtu: Some(value), ..p }),
            (ProfileText { mtu: None, ..p }),
            ip,
            credential,
            password,
            "Interface MTU "@ + text::trim(value),
        ),
        texts::all_white(value) ==> vpnc::config_lines(
            h,
            (ProfileText { mtu: Some(value), ..p }),
            ip,
            credential,
            password,
        ) == vpnc::config_lines(h, (ProfileText { mtu: None, ..p }), ip, credential, password),
{
    let with = ProfileText { mtu: Some(value), ..p };
    let without = ProfileText { mtu: None, ..p };
    if texts::all_white(value) {
        texts::law_blank_says_nothing(value);
        assert(vpnc::value_lines(with) == vpnc::value_lines(without));
    }
    if !texts::all_white(value) {
        texts::lemma_given(value);
        let line = "Interface MTU "@ + text::trim(value);
        let a = vpnc::value_lines(with);
        let b = vpnc::value_lines(without);
        let s0 = args::prefixed("IKE DH Group "@, p.dh_group);
        let s1 = args::prefixed("Perfect Forward Secrecy "@, p.pfs);
        let s2 = args::prefixed("NAT Traversal Mode "@, p.nat_mode);
        let s3 = args::prefixed("Vendor "@, p.vendor);
        let s5 = args::prefixed("DPD idle timeout (our side) "@, p.dpd_timeout);
        let s6 = args::prefixed("Debug "@, p.debug);
        let more = seq![line];
        let pre = s0 + s1 + s2 + s3;
        rows::lemma_empty(pre);
        rows::lemma_empty(more);
        rows::lemma_empty(s5);
        rows::lemma_assoc(pre + more, s5, s6);
        rows::lemma_assoc(pre, s5, s6);
        let post = s5 + s6;
        assert(a == pre + more + post);
        assert(b == pre + post);
        rows::lemma_inserted(a, b, pre, more, post, 0, b.len() as int);
        lemma_adds_line(h, with, without, ip, credential, password, line);
    }
}

/// A value of the profile adds its directive to the configuration; without one, or a blank one, the
/// directive is left out.
pub proof fn law_config_says_dpd_timeout(
    h: Host,
    p: ProfileText,
    ip: Seq<char>,
    credential: Seq<char>,
    password: Option<Seq<char>>,
    value: Seq<char>,
)
    ensures
        !texts::all_white(value) ==> adds_line(
            h,
            (ProfileText { dpd_timeout: Some(value), ..p }),
            (ProfileText { dpd_timeout: None, ..p }),
            ip,
            credential,
            password,
            "DPD idle timeout (our side) "@ + text::trim(value),
        ),
        texts::all_white(value) ==> vpnc::config_lines(
            h,
            (ProfileText { dpd_timeout: Some(value), ..p }),
            ip,
            credential,
            password,
        ) == vpnc::config_lines(h, (ProfileText { dpd_timeout: None, ..p }), ip, credential, password),
{
    let with = ProfileText { dpd_timeout: Some(value), ..p };
    let without = ProfileText { dpd_timeout: None, ..p };
    if texts::all_white(value) {
        texts::law_blank_says_nothing(value);
        assert(vpnc::value_lines(with) == vpnc::value_lines(without));
    }
    if !texts::all_white(value) {
        texts::lemma_given(value);
        let line = "DPD idle timeout (our side) "@ + text::trim(value);
        let a = vpnc::value_lines(with);
        let b = vpnc::value_lines(without);
        let s0 = args::prefixed("IKE DH Group "@, p.dh_group);
        let s1 = args::prefixed("Perfect Forward Secrecy "@, p.pfs);
        let s2 = args::prefixed("NAT Traversal Mode "@, p.nat_mode);
        let s3 = args::prefixed("Vendor "@, p.vendor);
        let s4 = args::prefixed("Interface MTU "@, p.mtu);
        let s6 = args::prefixed("Debug "@, p.debug);
        let more = seq![line];
        let pre = s0 + s1 + s2 + s3 + s4;
        rows::lemma_empty(pre);
        rows::lemma_empty(more);
        rows::lemma_empty(s6);
        let post = s6;
        assert(a == pre + more + post);
        assert(b == pre + post);
        rows::lemma_inserted(a, b, pre, more, post, 0, b.len() as int);
        lemma_adds_line(h, with, without, ip, credential, password, line);
    }
}

/// A value of the profile adds its directive to the configuration; without one, or a blank one, the
/// directive is left out.
pub proof fn law_config_says_debug(
    h: Host,
    p: ProfileText,
    ip: Seq<char>,
    credential: Seq<char>,
    password: Option<Seq<char>>,
    value: Seq<char>,
)
    ensures
        !texts::all_white(value) ==> adds_line(
            h,
            (ProfileText { debug: Some(value), ..p }),
            (ProfileText { debug: None, ..p }),
            ip,
            credential,
            password,
            "Debug "@ + text::trim(value),
        ),
        texts::all_white(value) ==> vpnc::config_lines(
            h,
            (ProfileText { debug: Some(value), ..p }),
            ip,
            credential,
            password,
        ) == vpnc::config_lines(h, (ProfileText { debug: None, ..p }), ip, credential, password),
{
    let with = ProfileText { debug: Some(value), ..p };
    let without = ProfileText { debug: None, ..p };
    if texts::all_white(value) {
        texts::law_blank_says_nothing(value);
        assert(vpnc::value_lines(with) == vpnc::value_lines(without));
    }
    if !texts::all_white(value) {
        texts::lemma_given(value);
        let line = "Debug "@ + text::trim(value);
        let a = vpnc::value_lines(with);
        let b = vpnc::value_lines(without);
        let s0 = args::prefixed("IKE DH Group "@, p.dh_group);
        let s1 = args::prefixed("Perfect Forward Secrecy "@, p.pfs);
        let s2 = args::prefixed("NAT Traversal Mode "@, p.nat_mode);
        let s3 = args::prefixed("Vendor "@, p.vendor);
        let s4 = args::prefixed("Interface MTU "@, p.mtu);
        let s5 = args::prefixed("DPD idle timeout (our side) "@, p.dpd_timeout);
        let more = seq![line];
        let pre = s0 + s1 + s2 + s3 + s4 + s5;
        rows::lemma_empty(pre);
        rows::lemma_empty(more);
        let post = Seq::<Seq<char>>::empty();
        rows::lemma_empty(pre + more);
        assert(a == pre + more + post);
        assert(b == pre + post);
        rows::lemma_inserted(a, b, pre, more, post, 0, b.len() as int);
        lemma_adds_line(h, with, without, ip, credential, password, line);
    }
}

/// Weak encryption is switched on where the profile says so or says nothing, and only there.
pub proof fn law_config_switches_enable_weak(
    h: Host,
    p: ProfileText,
    ip: Seq<char>,
    credential: Seq<char>,
    password: Option<Seq<char>>,
)
    ensures
        adds_line(
            h,
            (ProfileText { enable_weak: Some(true), ..p }),
            (ProfileText { enable_weak: Some(false), ..p }),
            ip,
            credential,
            password,
            "Enable weak encryption"@,
        ),
        vpnc::config_lines(h, (ProfileText { enable_weak: None, ..p }), ip, credential, password)
            == vpnc::config_lines(
            h,
            (ProfileText { enable_weak: Some(true), ..p }),
            ip,
            credential,
            password,
        ),
{
    let with = ProfileText { enable_weak: Some(true), ..p };
    let without = ProfileText { enable_weak: Some(false), ..p };
    let silent = ProfileText { enable_weak: None, ..p };
    assert(vpnc::switch_lines(silent) == vpnc::switch_lines(
        ProfileText { enable_weak: Some(true), ..p },
    ));
    let line = "Enable weak encryption"@;
    let a = vpnc::switch_lines(with);
    let b = vpnc::switch_lines(without);
    let s1 = args::if_set(p.single_des == Some(true), "Enable Single DES"@);
    let s2 = args::if_set(p.no_encryption == Some(true), "Enable no encryption"@);
    let s3 = args::if_set(p.weak_auth == Some(true), "Enable weak authentication"@);
    let more = seq![line];
    let pre = Seq::<Seq<char>>::empty();
    rows::lemma_empty(pre);
    rows::lemma_empty(more);
    rows::lemma_empty(s1);
    rows::lemma_assoc(pre + more, s1, s2);
    rows::lemma_assoc(pre, s1, s2);
    rows::lemma_empty(s1 + s2);
    rows::lemma_assoc(pre + more, s1 + s2, s3);
    rows::lemma_assoc(pre, s1 + s2, s3);
    rows::lemma_empty(s1 + s2 + s3);
    let post = s1 + s2 + s3;
    assert(a == pre + more + post);
    assert(b == pre + post);
    rows::lemma_inserted(a, b, pre, more, post, 0, b.len() as int);
    lemma_adds_line(h, with, without, ip, credential, password, line);
}

/// The switch is set where the profile says so, and only there.
pub proof fn law_config_switches_single_des(
    h: Host,
    p: ProfileText,
    ip: Seq<char>,
    credential: Seq<char>,
    password: Option<Seq<char>>,
)
    ensures
        adds_line(
            h,
            (ProfileText { single_des: Some(true), ..p }),
            (ProfileText { single_des: Some(false), ..p }),
            ip,
            credential,
            password,
            "Enable Single DES"@,
        ),
        vpnc::config_lines(h, (ProfileText { single_des: None, ..p }), ip, credential, password)
            == vpnc::config_lines(
            h,
            (ProfileText { single_des: Some(false), ..p }),
            ip,
            credential,
            password,
        ),
{
    let with = ProfileText { single_des: Some(true), ..p };
    let without = ProfileText { single_des: Some(false), ..p };
    let silent = ProfileText { single_des: None, ..p };
    assert(vpnc::switch_lines(silent) == vpnc::switch_lines(
        ProfileText { single_des: Some(false), ..p },
    ));
    let line = "Enable Single DES"@;
    let a = vpnc::switch_lines(with);
    let b = vpnc::switch_lines(without);
    let s0 = args::if_set(p.enable_weak != Some(false), "Enable weak encryption"@);
    let s2 = args::if_set(p.no_encryption == Some(true), "Enable no encryption"@);
    let s3 = args::if_set(p.weak_auth == Some(true), "Enable weak authentication"@);
    let more = seq![line];
    let pre = s0;
    rows::lemma_empty(pre);
    rows::lemma_empty(more);
    rows::lemma_empty(s2);
    rows::lemma_assoc(pre + more, s2, s3);
    rows::lemma_assoc(pre, s2, s3);
    let post = s2 + s3;
    assert(a == pre + more + post);
    assert(b == pre + post);
    rows::lemma_inserted(a, b, pre, more, post, 0, b.len() as int);
    lemma_adds_line(h, with, without, ip, credential, password, line);
}

/// The switch is set where the profile says so, and only there.
pub proof fn law_config_switches_no_encryption(
    h: Host,
    p: ProfileText,
    ip: Seq<char>,
    credential: Seq<char>,
    password: Option<Seq<char>>,
)
    ensures
        adds_line(
            h,
            (ProfileText { no_encryption: Some(true), ..p }),
            (ProfileText { no_encryption: Some(false), ..p }),
            ip,
            credential,
            password,
            "Enable no encryption"@,
        ),
        vpnc::config_lines(h, (ProfileText { no_encryption: None, ..p }), ip, credential, password)
            == vpnc::config_lines(
            h,
            (ProfileText { no_encryption: Some(false), ..p }),
            ip,
            credential,
            password,
        ),
{
    let with = ProfileText { no_encryption: Some(true), ..p };
    let without = ProfileText { no_encryption: Some(false), ..p };
    let silent = ProfileText { no_encryption: None, ..p };
    assert(vpnc::switch_lines(silent) == vpnc::switch_lines(
        ProfileText { no_encryption: Some(false), ..p },
    ));
    let line = "Enable no encryption"@;
    let a = vpnc::switch_lines(with);
    let b = vpnc::switch_lines(without);
    let s0 = args::if_set(p.enable_weak != Some(false), "Enable weak encryption"@);
    let s1 = args::if_set(p.single_des == Some(true), "Enable Single DES"@);
    let s3 = args::if_set(p.weak_auth == Some(true), "Enable weak authentication"@);
    let more = seq![line];
    let pre = s0 + s1;
    rows::lemma_empty(pre);
    rows::lemma_empty(more);
    rows::lemma_empty(s3);
    let post = s3;
    assert(a == pre + more + post);
    assert(b == pre + post);
    rows::lemma_inserted(a, b, pre, more, post, 0, b.len() as int);
    lemma_adds_line(h, with, without, ip, credential, password, line);
}

/// The switch is set where the profile says so, and only there.
pub proof fn law_config_switches_weak_auth(
    h: Host,
    p: ProfileText,
    ip: Seq<char>,
    credential: Seq<char>,
    password: Option<Seq<char>>,
)
    ensures
        adds_line(
            h,
            (ProfileText { weak_auth: Some(true), ..p }),
            (ProfileText { weak_auth: Some(false), ..p }),
            ip,
            credential,
            password,
            "Enable weak authentication"@,
        ),
        vpnc::config_lines(h, (ProfileText { weak_auth: None, ..p }), ip, credential, password)
            == vpnc::config_lines(
            h,
            (ProfileText { weak_auth: Some(false), ..p }),
            ip,
            credential,
            password,
        ),
{
    let with = ProfileText { weak_auth: Some(true), ..p };
    let without = ProfileText { weak_auth: Some(false), ..p };
    let silent = ProfileText { weak_auth: None, ..p };
    assert(vpnc::switch_lines(silent) == vpnc::switch_lines(
        ProfileText { weak_auth: Some(false), ..p },
    ));
    let line = "Enable weak authentication"@;
    let a = vpnc::switch_lines(with);
    let b = vpnc::switch_lines(without);
    let s0 = args::if_set(p.enable_weak != Some(false), "Enable weak encryption"@);
    let s1 = args::if_set(p.single_des == Some(true), "Enable Single DES"@);
    let s2 = args::if_set(p.no_encryption == Some(true), "Enable no encryption"@);
    let more = seq![line];
    let pre = s0 + s1 + s2;
    rows::lemma_empty(pre);
    rows::lemma_empty(more);
    let post = Seq::<Seq<char>>::empty();
    rows::lemma_empty(pre + more);
    assert(a == pre + more + post);
    assert(b == pre + post);
    rows::lemma_inserted(a, b, pre, more, post, 0, b.len() as int);
    lemma_adds_line(h, with, without, ip, credential, password, line);
}

proof fn lemma_head<T>(
    head: Seq<T>,
    d: Seq<T>,
    p: Seq<T>,
    v: Seq<T>,
    s: Seq<T>,
    x: T,
    e: Seq<T>,
)
    ensures
        (head + d + p + v + s).push(x) + e == head + d + (p + v + s + seq![x] + e),
        (head + d + p + v + s).push(x) + e == (head + d) + p + (v + s + seq![x] + e),
{
    assert((head + d + p + v + s).push(x) + e =~= head + d + (p + v + s + seq![x] + e));
    assert((head + d + p + v + s).push(x) + e =~= (head + d) + p + (v + s + seq![x] + e));
}

/// A login domain that the profile keeps apart is told on a line of its own.
pub proof fn law_config_tells_the_domain(
    h: Host,
    p: ProfileText,
    ip: Seq<char>,
    credential: Seq<char>,
    password: Option<Seq<char>>,
    domain: Seq<char>,
)
    requires
        !texts::all_white(domain),
        !p.username.contains('\\'),
    ensures
        adds_line(
            h,
            (ProfileText { domain: Some(domain), ..p }),
            (ProfileText { domain: None, ..p }),
            ip,
            credential,
            password,
            "Domain "@ + text::trim(domain),
        ),
{
    texts::lemma_given(domain);
    texts::law_cut_at_the_first(p.username, '\\', Seq::empty());
    let with = ProfileText { domain: Some(domain), ..p };
    let without = ProfileText { domain: None, ..p };
    let head = vpnc::login_lines(p, ip).push(credential);
    let pw = args::with_value("Xauth password "@, password);
    let v = vpnc::value_lines(p);
    let s = vpnc::switch_lines(p);
    let x = "Script "@ + backend::invocation_text(h, p);
    let e = args::any(p.extra);
    let more = seq!["Domain "@ + text::trim(domain)];
    let less = Seq::<Seq<char>>::empty();
    lemma_head(head, more, pw, v, s, x, e);
    lemma_head(head, less, pw, v, s, x, e);
    rows::lemma_empty(head);
    let post = pw + v + s + seq![x] + e;
    let a = vpnc::config_lines(h, with, ip, credential, password);
    let b = vpnc::config_lines(h, without, ip, credential, password);
    assert(a == head + more + post);
    assert(b == head + post);
    rows::lemma_inserted(
        a,
        b,
        head,
        more,
        post,
        5,
        script_at(h, without, ip, credential, password),
    );
}

/// The password is told as it is, on a line of its own, where there is one.
pub proof fn law_config_tells_the_password(
    h: Host,
    p: ProfileText,
    ip: Seq<char>,
    credential: Seq<char>,
    password: Seq<char>,
)
    ensures
        rows::inserted(
            vpnc::config_lines(h, p, ip, credential, Some(password)),
            vpnc::config_lines(h, p, ip, credential, None),
            seq!["Xauth password "@ + password],
            5,
            script_at(h, p, ip, credential, None),
        ),
{
    let head = vpnc::login_lines(p, ip).push(credential);
    let d = args::with_value("Domain "@, vpnc::login_domain(p));
    let v = vpnc::value_lines(p);
    let s = vpnc::switch_lines(p);
    let x = "Script "@ + backend::invocation_text(h, p);
    let e = args::any(p.extra);
    let more = seq!["Xauth password "@ + password];
    let less = Seq::<Seq<char>>::empty();
    lemma_head(head, d, more, v, s, x, e);
    lemma_head(head, d, less, v, s, x, e);
    rows::lemma_empty(head + d);
    let post = v + s + seq![x] + e;
    let a = vpnc::config_lines(h, p, ip, credential, Some(password));
    let b = vpnc::config_lines(h, p, ip, credential, None);
    assert(a == head + d + more + post);
    assert(b == head + d + post);
    rows::lemma_inserted(a, b, head + d, more, post, 5, script_at(h, p, ip, credential, None));
}

} // verus!
