//! The form: what it shows of a profile, the profile that is made of it, and what is kept.

use crate::args;
use crate::laws::profiles;
use crate::laws::texts;
use crate::model;
use crate::model::ProfileText;
use crate::secrets;
use crate::text;
use crate::ui::drop_down;
use crate::ui::form;
use crate::ui::form::{FormText, Saved};
use vstd::prelude::*;

verus! {

// ---- from the form to the profile ----

/// What is typed and chosen in the form stands in the profile that is made of it, for vpnc: texts
/// trimmed, nothing for an entry that is blank or a line that stands for the backend's own choice,
/// and the switches as they are set.
pub proof fn law_vpnc_profile_is_made_of_the_form(e: FormText, p: ProfileText)
    requires
        p.kind != Some("openconnect"@),
    ensures
        ({
            let q = form::gathered(e, p);
            &&& q.kind == Some("vpnc"@)
            &&& q.name == text::trim(e.name)
            &&& q.gateway == text::trim(e.gateway)
            &&& q.username == text::trim(e.username)
            &&& q.id == text::trim(e.id)
            &&& is_entered(q.dns_match_domains, e.domains)
            &&& is_entered(q.client_cert, e.client_cert)
            &&& is_entered(q.ca_file, e.ca_file)
            &&& is_entered(q.mtu, e.mtu)
            &&& is_entered(q.dpd_timeout, e.dpd_timeout)
            &&& is_chosen(q.dh_group, e.dh_group)
            &&& is_chosen(q.pfs, e.pfs)
            &&& is_chosen(q.nat_mode, e.nat_mode)
            &&& is_chosen(q.vendor, e.vendor)
            &&& q.authmode == e.authmode
            &&& q.debug == e.debug
            &&& q.enable_weak == Some(e.enable_weak)
            &&& q.single_des == Some(e.single_des)
            &&& q.no_encryption == Some(e.no_encryption)
            &&& q.weak_auth == Some(e.weak_auth)
            &&& q.uuid == p.uuid
        }),
{
    lemma_entered(e.domains);
    lemma_entered(e.client_cert);
    lemma_entered(e.ca_file);
    lemma_entered(e.mtu);
    lemma_entered(e.dpd_timeout);
    lemma_chosen(e.dh_group);
    lemma_chosen(e.pfs);
    lemma_chosen(e.nat_mode);
    lemma_chosen(e.vendor);
}

/// What is typed and chosen in the form stands in the profile that is made of it, for openconnect.
pub proof fn law_openconnect_profile_is_made_of_the_form(e: FormText, p: ProfileText)
    requires
        p.kind == Some("openconnect"@),
    ensures
        ({
            let q = form::gathered(e, p);
            &&& q.kind == Some("openconnect"@)
            &&& q.name == text::trim(e.name)
            &&& q.gateway == text::trim(e.gateway)
            &&& q.username == text::trim(e.username)
            &&& is_entered(q.dns_match_domains, e.domains)
            &&& is_entered(q.client_cert, e.client_cert)
            &&& is_entered(q.oc_server_cert, e.oc_server_cert)
            &&& is_entered(q.oc_dpd, e.oc_dpd)
            &&& is_entered(q.oc_mtu, e.oc_mtu)
            &&& is_entered(q.oc_reconnect, e.oc_reconnect)
            &&& is_chosen(q.oc_authgroup, e.oc_authgroup)
            &&& q.oc_protocol == e.oc_protocol
            &&& q.oc_debug == e.oc_debug
            &&& q.oc_otp == Some(e.oc_otp)
            &&& q.oc_no_dtls == Some(e.oc_no_dtls)
            &&& q.uuid == p.uuid
        }),
{
    lemma_entered(e.domains);
    lemma_entered(e.client_cert);
    lemma_entered(e.oc_server_cert);
    lemma_entered(e.oc_dpd);
    lemma_entered(e.oc_mtu);
    lemma_entered(e.oc_reconnect);
    lemma_chosen(e.oc_authgroup);
}

/// Whether a value is what was typed into an entry: trimmed, and none where it is blank.
pub open spec fn is_entered(value: Option<Seq<char>>, entry: Seq<char>) -> bool {
    &&& texts::all_white(entry) ==> value is None
    &&& !texts::all_white(entry) ==> value == Some(text::trim(entry))
}

/// Whether a value is what was chosen: trimmed, and none where it is blank or nothing is chosen.
pub open spec fn is_chosen(value: Option<Seq<char>>, choice: Option<Seq<char>>) -> bool {
    &&& choice is None ==> value is None
    &&& choice matches Some(c) ==> is_entered(value, c)
}

proof fn lemma_entered(entry: Seq<char>)
    ensures
        is_entered(model::given(Some(entry)), entry),
{
    text::lemma_trim_blank(entry);
    if texts::all_white(entry) {
        texts::law_blank_says_nothing(entry);
    }
}

proof fn lemma_chosen(choice: Option<Seq<char>>)
    ensures
        is_chosen(model::given(choice), choice),
{
    if let Some(c) = choice {
        lemma_entered(c);
    }
}

// ---- from the profile to the form ----

/// Whether an entry shows a value: the value, or nothing where there is none.
pub open spec fn shows(entry: Seq<char>, value: Option<Seq<char>>) -> bool {
    &&& value is None ==> entry == Seq::<char>::empty()
    &&& value matches Some(v) ==> entry == v
}

/// Whether a list shows a value: the value where the list has it, and the first line where the value
/// is not on the list or there is none.
pub open spec fn picks(
    choice: Option<Seq<char>>,
    ids: Seq<Seq<char>>,
    value: Option<Seq<char>>,
) -> bool {
    &&& value matches Some(v) ==> (ids.contains(v) ==> choice == Some(v)) && (!ids.contains(v)
        ==> choice == Some(ids[0]))
    &&& value is None ==> choice == Some(ids[0])
}

proof fn lemma_picks(ids: Seq<Seq<char>>, value: Option<Seq<char>>)
    requires
        ids.len() > 0,
    ensures
        picks(drop_down::chosen(ids, value), ids, value),
{
    if let Some(v) = value {
        drop_down::law_known_id_is_chosen(ids, v);
    }
}

/// The form shows what the profile holds, and the secrets that are kept. Where the profile does not
/// say, a shared key, no log, AnyConnect's protocol, the first level of detail and weak encryption
/// are shown.
pub proof fn law_form_shows_the_profile(p: ProfileText, secret: Seq<char>, password: Seq<char>)
    ensures
        ({
            let f = form::filled(p, secret, password);
            &&& f.name == p.name
            &&& f.gateway == p.gateway
            &&& f.username == p.username
            &&& f.id == p.id
            &&& f.secret == secret
            &&& f.password == password
            &&& shows(f.domains, p.dns_match_domains)
            &&& shows(f.client_cert, p.client_cert)
            &&& shows(f.ca_file, p.ca_file)
            &&& shows(f.mtu, p.mtu)
            &&& shows(f.dpd_timeout, p.dpd_timeout)
            &&& shows(f.oc_server_cert, p.oc_server_cert)
            &&& shows(f.oc_dpd, p.oc_dpd)
            &&& shows(f.oc_mtu, p.oc_mtu)
            &&& shows(f.oc_reconnect, p.oc_reconnect)
            &&& is_chosen(f.oc_authgroup, p.oc_authgroup)
            &&& f.enable_weak == !(p.enable_weak matches Some(b) && !b)
            &&& f.single_des == (p.single_des matches Some(b) && b)
            &&& f.no_encryption == (p.no_encryption matches Some(b) && b)
            &&& f.weak_auth == (p.weak_auth matches Some(b) && b)
            &&& f.oc_otp == (p.oc_otp matches Some(b) && b)
            &&& f.oc_no_dtls == (p.oc_no_dtls matches Some(b) && b)
        }),
{
    lemma_chosen(p.oc_authgroup);
}

/// The lists of the form show what the profile holds; what is not on a list shows as its first line,
/// which for four of them stands for the backend's own choice.
pub proof fn law_lists_show_the_profile(p: ProfileText, secret: Seq<char>, password: Seq<char>)
    ensures
        ({
            let f = form::filled(p, secret, password);
            &&& picks(f.dh_group, seq![""@] + form::dh_group_texts(), p.dh_group)
            &&& picks(f.pfs, seq![""@] + form::pfs_texts(), p.pfs)
            &&& picks(f.nat_mode, seq![""@] + form::nat_mode_texts(), p.nat_mode)
            &&& picks(f.vendor, seq![""@] + form::vendor_texts(), p.vendor)
            &&& picks(f.authmode, form::authmode_texts(), p.authmode)
            &&& picks(f.debug, form::debug_texts(), p.debug)
            &&& picks(f.oc_protocol, form::protocol_texts(), p.oc_protocol)
            &&& p.oc_debug is Some ==> picks(f.oc_debug, form::debug_texts(), p.oc_debug)
            &&& p.oc_debug is None ==> f.oc_debug == Some("1"@)
            &&& p.authmode is None ==> f.authmode == Some("psk"@)
            &&& p.debug is None ==> f.debug == Some("0"@)
            &&& p.oc_protocol is None ==> f.oc_protocol == Some("anyconnect"@)
        }),
{
    lemma_picks(drop_down::with_default(form::dh_group_texts()), p.dh_group);
    lemma_picks(drop_down::with_default(form::pfs_texts()), p.pfs);
    lemma_picks(drop_down::with_default(form::nat_mode_texts()), p.nat_mode);
    lemma_picks(drop_down::with_default(form::vendor_texts()), p.vendor);
    lemma_picks(form::authmode_texts(), p.authmode);
    lemma_picks(form::debug_texts(), p.debug);
    lemma_picks(form::protocol_texts(), p.oc_protocol);
    lemma_picks(form::debug_texts(), p.oc_debug);
    assert(form::authmode_texts()[0] == "psk"@);
    assert(form::debug_texts()[0] == "0"@);
    assert(form::debug_texts()[1] == "1"@);
    assert(form::protocol_texts()[0] == "anyconnect"@);
    drop_down::law_known_id_is_chosen(form::authmode_texts(), "psk"@);
    drop_down::law_known_id_is_chosen(form::debug_texts(), "0"@);
    drop_down::law_known_id_is_chosen(form::debug_texts(), "1"@);
    drop_down::law_known_id_is_chosen(form::protocol_texts(), "anyconnect"@);
}

/// What can be chosen in the form.
pub proof fn law_form_offers_the_choices()
    ensures
        form::authmode_texts() == seq!["psk"@, "hybrid"@, "cert"@],
        form::vendor_texts() == seq!["cisco"@, "netscreen"@, "fortigate"@],
        form::nat_mode_texts() == seq!["natt"@, "none"@, "force-natt"@, "cisco-udp"@],
        form::pfs_texts() == seq!["nopfs"@] + form::dh_group_texts() + seq!["server"@],
        form::debug_texts() == seq!["0"@, "1"@, "2"@, "3"@, "99"@],
        form::protocol_texts().len() == 7,
        form::protocol_texts().contains("anyconnect"@),
        form::protocol_texts().contains("gp"@),
        form::protocol_texts().contains("pulse"@),
        form::protocol_texts().contains("f5"@),
        form::protocol_texts().contains("fortinet"@),
        form::protocol_texts().contains("nc"@),
        form::protocol_texts().contains("array"@),
{
    assert(form::pfs_texts() =~= seq!["nopfs"@] + form::dh_group_texts() + seq!["server"@]);
    let t = form::protocol_texts();
    assert(t[0] == "anyconnect"@ && t[1] == "gp"@ && t[2] == "pulse"@ && t[3] == "f5"@ && t[4]
        == "fortinet"@ && t[5] == "nc"@ && t[6] == "array"@);
}

// ---- there and back ----

/// Whether a value is none, or says something without white space around it.
pub open spec fn tidy(o: Option<Seq<char>>) -> bool {
    o matches Some(v) ==> texts::bare(v)
}

/// Whether a value is on a list, or none where the list may be left at the backend's own choice.
pub open spec fn listed(ids: Seq<Seq<char>>, o: Option<Seq<char>>, may_lack: bool) -> bool {
    match o {
        Some(v) => ids.contains(v) && texts::bare(v),
        None => may_lack,
    }
}

proof fn lemma_entry_back(value: Option<Seq<char>>)
    requires
        tidy(value),
    ensures
        model::given(Some(form::shown(value))) == value,
{
    match value {
        Some(v) => {
            texts::law_trim_leaves_the_text(Seq::empty(), v, Seq::empty());
        },
        None => {
            texts::law_blank_says_nothing(Seq::empty());
        },
    }
}

proof fn lemma_switch_back(value: Option<bool>)
    requires
        value is Some,
    ensures
        Some(value == Some(true)) == value,
        Some(value != Some(false)) == value,
{
    let b = value.unwrap();
    assert(value == Some(b));
    if b {
        assert(value == Some(true));
    } else {
        assert(value == Some(false));
    }
}

proof fn lemma_list_back(ids: Seq<Seq<char>>, value: Option<Seq<char>>)
    requires
        listed(ids, value, true),
    ensures
        model::given(drop_down::chosen(drop_down::with_default(ids), value)) == value,
{
    let all = drop_down::with_default(ids);
    lemma_picks(all, value);
    match value {
        Some(v) => {
            let i = choose|i: int| 0 <= i < ids.len() && ids[i] == v;
            assert(all[i + 1] == v);
            texts::law_trim_leaves_the_text(Seq::empty(), v, Seq::empty());
        },
        None => {
            reveal_strlit("");
            assert(all[0] == ""@);
            texts::law_blank_says_nothing(""@);
        },
    }
}

/// A vpnc profile that is shown and saved comes back whole, whatever profile of its kind it is saved
/// over: what the form shows of the one is what the other then holds.
pub proof fn law_vpnc_profile_goes_through_the_form(
    q: ProfileText,
    p: ProfileText,
    secret: Seq<char>,
    password: Seq<char>,
)
    requires
        p.kind != Some("openconnect"@),
        texts::bare(q.name),
        texts::bare(q.gateway),
        texts::bare(q.username),
        texts::bare(q.id),
        tidy(q.dns_match_domains),
        tidy(q.client_cert),
        tidy(q.ca_file),
        tidy(q.mtu),
        tidy(q.dpd_timeout),
        listed(form::dh_group_texts(), q.dh_group, true),
        listed(form::pfs_texts(), q.pfs, true),
        listed(form::nat_mode_texts(), q.nat_mode, true),
        listed(form::vendor_texts(), q.vendor, true),
        listed(form::authmode_texts(), q.authmode, false),
        listed(form::debug_texts(), q.debug, false),
        q.enable_weak is Some,
        q.single_des is Some,
        q.no_encryption is Some,
        q.weak_auth is Some,
    ensures
        ({
            let r = form::gathered(form::filled(q, secret, password), p);
            &&& r.name == q.name
            &&& r.gateway == q.gateway
            &&& r.username == q.username
            &&& r.dns_match_domains == q.dns_match_domains
            &&& r.client_cert == q.client_cert
            &&& form::same_vpnc(r, q)
        }),
{
    let none = Seq::<char>::empty();
    texts::law_trim_leaves_the_text(none, q.name, none);
    texts::law_trim_leaves_the_text(none, q.gateway, none);
    texts::law_trim_leaves_the_text(none, q.username, none);
    texts::law_trim_leaves_the_text(none, q.id, none);
    lemma_entry_back(q.dns_match_domains);
    lemma_entry_back(q.client_cert);
    lemma_entry_back(q.ca_file);
    lemma_entry_back(q.mtu);
    lemma_entry_back(q.dpd_timeout);
    lemma_list_back(form::dh_group_texts(), q.dh_group);
    lemma_list_back(form::pfs_texts(), q.pfs);
    lemma_list_back(form::nat_mode_texts(), q.nat_mode);
    lemma_list_back(form::vendor_texts(), q.vendor);
    lemma_picks(form::authmode_texts(), q.authmode);
    lemma_picks(form::debug_texts(), q.debug);
    assert(form::or(q.authmode, "psk"@) == q.authmode);
    assert(form::or(q.debug, "0"@) == q.debug);
    lemma_switch_back(q.enable_weak);
    lemma_switch_back(q.single_des);
    lemma_switch_back(q.no_encryption);
    lemma_switch_back(q.weak_auth);
}

/// An openconnect profile that is shown and saved comes back whole, whatever profile of its kind it
/// is saved over.
pub proof fn law_openconnect_profile_goes_through_the_form(
    q: ProfileText,
    p: ProfileText,
    secret: Seq<char>,
    password: Seq<char>,
)
    requires
        p.kind == Some("openconnect"@),
        texts::bare(q.name),
        texts::bare(q.gateway),
        texts::bare(q.username),
        tidy(q.dns_match_domains),
        tidy(q.client_cert),
        tidy(q.oc_authgroup),
        tidy(q.oc_server_cert),
        tidy(q.oc_dpd),
        tidy(q.oc_mtu),
        tidy(q.oc_reconnect),
        listed(form::protocol_texts(), q.oc_protocol, false),
        listed(form::debug_texts(), q.oc_debug, false),
        q.oc_otp is Some,
        q.oc_no_dtls is Some,
    ensures
        ({
            let r = form::gathered(form::filled(q, secret, password), p);
            &&& r.name == q.name
            &&& r.gateway == q.gateway
            &&& r.username == q.username
            &&& r.dns_match_domains == q.dns_match_domains
            &&& r.client_cert == q.client_cert
            &&& form::same_oc(r, q)
        }),
{
    let none = Seq::<char>::empty();
    texts::law_trim_leaves_the_text(none, q.name, none);
    texts::law_trim_leaves_the_text(none, q.gateway, none);
    texts::law_trim_leaves_the_text(none, q.username, none);
    lemma_entry_back(q.dns_match_domains);
    lemma_entry_back(q.client_cert);
    lemma_entry_back(q.oc_server_cert);
    lemma_entry_back(q.oc_dpd);
    lemma_entry_back(q.oc_mtu);
    lemma_entry_back(q.oc_reconnect);
    if let Some(g) = q.oc_authgroup {
        texts::law_trim_leaves_the_text(none, g, none);
    }
    lemma_picks(form::protocol_texts(), q.oc_protocol);
    lemma_picks(form::debug_texts(), q.oc_debug);
    assert(form::or(q.oc_protocol, "anyconnect"@) == q.oc_protocol);
    assert(form::or(q.oc_debug, "1"@) == q.oc_debug);
    lemma_switch_back(q.oc_otp);
    lemma_switch_back(q.oc_no_dtls);
}

// ---- what has to be filled in ----

/// An entry is named as missing exactly where it has to be filled in and is blank; the group only
/// for vpnc.
pub proof fn law_missing_entries_are_named(e: FormText, oc: bool)
    ensures
        form::missing(e, oc).len() == 0 <==> {
            &&& !texts::all_white(e.name)
            &&& !texts::all_white(e.gateway)
            &&& !texts::all_white(e.username)
            &&& oc || !texts::all_white(e.id)
        },
        form::missing(e, oc).contains("Name"@) <==> texts::all_white(e.name),
        form::missing(e, oc).contains("Gateway"@) <==> texts::all_white(e.gateway),
        form::missing(e, oc).contains("Username"@) <==> texts::all_white(e.username),
        form::missing(e, oc).contains("Group name"@) <==> !oc && texts::all_white(e.id),
{
    text::lemma_trim_blank(e.name);
    text::lemma_trim_blank(e.gateway);
    text::lemma_trim_blank(e.username);
    text::lemma_trim_blank(e.id);
    reveal_strlit("Name");
    reveal_strlit("Gateway");
    reveal_strlit("Username");
    reveal_strlit("Group name");
    let (a, b, c, d) = ("Name"@, "Gateway"@, "Username"@, "Group name"@);
    assert(a.len() == 4 && b.len() == 7 && c.len() == 8 && d.len() == 10);
    let ma = args::if_set(text::trim(e.name).len() == 0, a);
    let mb = args::if_set(text::trim(e.gateway).len() == 0, b);
    let mc = args::if_set(text::trim(e.username).len() == 0, c);
    let md = args::if_set(!oc && text::trim(e.id).len() == 0, d);
    let m = form::missing(e, oc);
    assert(m == ma + mb + mc + md);
    if ma.len() > 0 {
        assert(m[0] == a);
    }
    if mb.len() > 0 {
        assert(m[ma.len() as int] == b);
    }
    if mc.len() > 0 {
        assert(m[(ma.len() + mb.len()) as int] == c);
    }
    if md.len() > 0 {
        assert(m[(ma.len() + mb.len() + mc.len()) as int] == d);
    }
}

// ---- keeping ----

/// A secret that was entered is kept, the group secret for the group and the password for the user,
/// each under a service of its own that carries the profile's uuid; what was left empty is not
/// touched.
pub proof fn law_entered_secrets_are_kept(
    p: ProfileText,
    uuid: Seq<char>,
    s: Seq<char>,
    w: Seq<char>,
)
    requires
        p.uuid == Some(uuid),
        s.len() > 0,
        w.len() > 0,
    ensures
        ({
            let group = secrets::store_text("vpnc-"@ + uuid + "-"@ + "secret"@, p.id, s);
            let own = secrets::store_text("vpnc-"@ + uuid + "-"@ + "password"@, p.username, w);
            &&& form::stores_text(p, form::entered(s), form::entered(w)) == seq![group, own]
            &&& form::stores_text(p, form::entered(s), form::entered(Seq::empty())) == seq![group]
            &&& form::stores_text(p, form::entered(Seq::empty()), form::entered(w)) == seq![own]
            &&& form::stores_text(
                p,
                form::entered(Seq::empty()),
                form::entered(Seq::empty()),
            ).len() == 0
        }),
{
    let group = secrets::store_text("vpnc-"@ + uuid + "-"@ + "secret"@, p.id, s);
    let own = secrets::store_text("vpnc-"@ + uuid + "-"@ + "password"@, p.username, w);
    assert(form::stores_text(p, Some(s), Some(w)) =~= seq![group, own]);
    assert(form::stores_text(p, Some(s), None) =~= seq![group]);
    assert(form::stores_text(p, None, Some(w)) =~= seq![own]);
}

/// What is saved stands in the list, once under its uuid, and is the profile that was made of the
/// form but for a uuid that it had not yet; every other profile is still there.
pub proof fn law_saved_profile_stands_in_the_list(
    s: Saved,
    list: Seq<ProfileText>,
    p: ProfileText,
    uuid: Seq<char>,
    secret: Option<Seq<char>>,
    password: Option<Seq<char>>,
    other: ProfileText,
)
    requires
        form::saves(s, list, p, uuid, secret, password),
    ensures
        model::profile_texts(s.list@).contains(s.profile@),
        (ProfileText { uuid: p.uuid, ..s.profile@ }) == p,
        p.uuid is Some ==> s.profile@ == p,
        p.uuid is None ==> s.profile@.uuid == Some(uuid),
        forall|i: int|
            0 <= i < s.list@.len() && (#[trigger] model::profile_texts(s.list@)[i]).uuid
                == s.profile@.uuid ==> model::profile_texts(s.list@)[i] == s.profile@,
        list.contains(other) && other.uuid != s.profile@.uuid ==> model::profile_texts(
            s.list@,
        ).contains(other),
{
    let r = model::profile_texts(s.list@);
    model::law_upsert_leaves_one(list, s.profile@, r);
    if list.contains(other) && other.uuid != s.profile@.uuid {
        profiles::law_upsert_keeps_the_others(list, s.profile@, r, other);
    }
    assert((ProfileText { uuid: p.uuid, ..s.profile@ }) =~= p);
}

/// The missing entries are named in the order of the form.
pub proof fn law_missing_entries_are_named_in_order(e: FormText)
    requires
        texts::all_white(e.name),
        texts::all_white(e.gateway),
        texts::all_white(e.username),
        texts::all_white(e.id),
    ensures
        form::missing(e, false) == seq!["Name"@, "Gateway"@, "Username"@, "Group name"@],
        form::missing(e, true) == seq!["Name"@, "Gateway"@, "Username"@],
{
    texts::law_blank_says_nothing(e.name);
    texts::law_blank_says_nothing(e.gateway);
    texts::law_blank_says_nothing(e.username);
    texts::law_blank_says_nothing(e.id);
    assert(form::missing(e, false) =~= seq!["Name"@, "Gateway"@, "Username"@, "Group name"@]);
    assert(form::missing(e, true) =~= seq!["Name"@, "Gateway"@, "Username"@]);
}

} // verus!
