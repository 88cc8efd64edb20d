//! What values hold, as texts.

use crate::backend::openconnect::{Group, OptionTag};
use crate::config_import::{Sealed, SealedConfig};
use crate::model;
use crate::model::Profile;
use crate::strings;
use crate::sys::Invocation;
use crate::tunnel::{Process, TunnelInfo};
use crate::ui::drop_down::IdDropDown;
use crate::ui::form::Form;
use vstd::prelude::*;

verus! {

/// The text of a string that may be missing is that of the string, and a list of strings has their
/// texts in their order.
pub proof fn law_strings_are_their_texts(s: String, v: Seq<String>, i: int)
    ensures
        strings::opt(Some(s)) == Some(s@),
        strings::opt(None) is None,
        strings::texts(v).len() == v.len(),
        0 <= i < v.len() ==> strings::texts(v)[i] == v[i]@,
{
}

/// A profile holds what its fields do, and a list of profiles what they do, in their order.
pub proof fn law_profile_is_its_fields(p: Profile, v: Seq<Profile>, i: int)
    ensures
        p@.uuid == strings::opt(p.uuid),
        p@.name == p.name@,
        p@.gateway == p.gateway@,
        p@.id == p.id@,
        p@.username == p.username@,
        p@.authmode == strings::opt(p.authmode),
        p@.dh_group == strings::opt(p.dh_group),
        p@.pfs == strings::opt(p.pfs),
        p@.nat_mode == strings::opt(p.nat_mode),
        p@.vendor == strings::opt(p.vendor),
        p@.if_mode == strings::opt(p.if_mode),
        p@.domain == strings::opt(p.domain),
        p@.dns_match_domains == strings::opt(p.dns_match_domains),
        p@.ca_file == strings::opt(p.ca_file),
        p@.client_cert == strings::opt(p.client_cert),
        p@.app_version == strings::opt(p.app_version),
        p@.local_addr == strings::opt(p.local_addr),
        p@.local_port == strings::opt(p.local_port),
        p@.udp_port == strings::opt(p.udp_port),
        p@.mtu == strings::opt(p.mtu),
        p@.dpd_timeout == strings::opt(p.dpd_timeout),
        p@.debug == strings::opt(p.debug),
        p@.enable_weak == p.enable_weak,
        p@.single_des == p.single_des,
        p@.no_encryption == p.no_encryption,
        p@.weak_auth == p.weak_auth,
        p.extra is None ==> p@.extra is None,
        p.extra matches Some(v) ==> p@.extra == Some(strings::texts(v@)),
        p@.kind == strings::opt(p.kind),
        p@.oc_authgroup == strings::opt(p.oc_authgroup),
        p@.oc_server_cert == strings::opt(p.oc_server_cert),
        p@.oc_otp == p.oc_otp,
        p@.oc_protocol == strings::opt(p.oc_protocol),
        p@.oc_no_dtls == p.oc_no_dtls,
        p@.oc_dpd == strings::opt(p.oc_dpd),
        p@.oc_mtu == strings::opt(p.oc_mtu),
        p@.oc_reconnect == strings::opt(p.oc_reconnect),
        p@.oc_debug == strings::opt(p.oc_debug),
        model::profile_texts(v).len() == v.len(),
        0 <= i < v.len() ==> model::profile_texts(v)[i] == v[i]@,
{
}

/// The form holds what its entries do, and of each list the line that is chosen.
pub proof fn law_form_is_its_entries(f: Form, d: IdDropDown)
    ensures
        f@.name == f.name@,
        f@.gateway == f.gateway@,
        f@.username == f.username@,
        f@.password == f.password@,
        f@.domains == f.domains@,
        f@.client_cert == f.client_cert@,
        f@.id == f.id@,
        f@.secret == f.secret@,
        f@.authmode == f.authmode.active(),
        f@.ca_file == f.ca_file@,
        f@.dh_group == f.dh_group.active(),
        f@.pfs == f.pfs.active(),
        f@.nat_mode == f.nat_mode.active(),
        f@.vendor == f.vendor.active(),
        f@.mtu == f.mtu@,
        f@.dpd_timeout == f.dpd_timeout@,
        f@.debug == f.debug.active(),
        f@.enable_weak == f.enable_weak,
        f@.single_des == f.single_des,
        f@.no_encryption == f.no_encryption,
        f@.weak_auth == f.weak_auth,
        f@.oc_authgroup == strings::opt(f.oc_authgroup),
        f@.oc_server_cert == f.oc_server_cert@,
        f@.oc_otp == f.oc_otp,
        f@.oc_protocol == f.oc_protocol.active(),
        f@.oc_no_dtls == f.oc_no_dtls,
        f@.oc_dpd == f.oc_dpd@,
        f@.oc_mtu == f.oc_mtu@,
        f@.oc_reconnect == f.oc_reconnect@,
        f@.oc_debug == f.oc_debug.active(),
        (d.selected as int) < d.ids@.len() ==> d.active() == Some(d.ids@[d.selected as int]@),
        d.selected as int >= d.ids@.len() ==> d.active() is None,
{
}

/// A command holds its program, its arguments and what it reads.
pub proof fn law_command_is_its_parts(c: Invocation, p: Process, t: OptionTag)
    ensures
        c@.program == c.program@,
        c@.args == strings::texts(c.args@),
        c@.stdin == strings::opt(c.stdin),
        p@.pid == p.pid,
        p@.argv == strings::texts(p.argv@),
        p@.elapsed == p.elapsed,
        t@.attrs == t.attrs@,
        t@.label == t.label@,
{
}

/// A file's account holds the profile and both secrets, and the record of a tunnel its entries.
pub proof fn law_accounts_are_their_parts(c: SealedConfig, s: Sealed, t: TunnelInfo)
    ensures
        c@.profile == c.profile@,
        c@.secret == c.secret@,
        c@.password == c.password@,
        s@.plain == strings::opt(s.plain),
        s@.encoded == strings::opt(s.encoded),
        t@.iface == strings::opt(t.iface),
        t@.internal_ip == strings::opt(t.internal_ip),
        t@.dns == strings::opt(t.dns),
        t@.gateway == strings::opt(t.gateway),
        t@.def_domain == strings::opt(t.def_domain),
        t@.split_dns == strings::opt(t.split_dns),
        t@.match_domains == strings::opt(t.match_domains),
        t@.routes == strings::texts(t.routes@),
{
}

/// A group is its label and whether it asks for a code.
pub proof fn law_groups_are_labels_and_flags(v: Seq<Group>, i: int)
    ensures
        crate::backend::openconnect::group_texts(v).len() == v.len(),
        0 <= i < v.len() ==> crate::backend::openconnect::group_texts(v)[i] == (v[i].0@, v[i].1),
{
}

} // verus!
