//! The form in which a profile is edited: what it shows of a profile, and the profile that is made
//! of it.

use crate::args;
use crate::config_import::ParsedConfig;
use crate::model;
use crate::model::{Profile, ProfileText};
use crate::scan;
use crate::secrets;
use crate::strings;
use crate::sys::{Invocation, InvocationText};
use crate::text;
use crate::ui::drop_down;
use crate::ui::drop_down::IdDropDown;
use vstd::prelude::*;

verus! {

broadcast use strings::lemma_texts_push;

// ---- what can be chosen ----

/// The authentication modes of vpnc.
pub open spec fn authmode_texts() -> Seq<Seq<char>> {
    seq!["psk"@, "hybrid"@, "cert"@]
}

/// The authentication modes of vpnc.
pub fn authmode_ids() -> (r: Vec<String>)
    ensures
        strings::texts(r@) == authmode_texts(),
{
    let mut v = args::list3("psk", "hybrid", "cert");
    v
}

/// The groups for the key exchange.
pub open spec fn dh_group_texts() -> Seq<Seq<char>> {
    seq!["dh1"@, "dh2"@, "dh5"@, "dh14"@, "dh15"@, "dh16"@, "dh17"@, "dh18"@]
}

/// The groups for the key exchange.
pub fn dh_group_ids() -> (r: Vec<String>)
    ensures
        strings::texts(r@) == dh_group_texts(),
{
    let mut v = args::list3("dh1", "dh2", "dh5");
    args::push(&mut v, "dh14");
    args::push(&mut v, "dh15");
    args::push(&mut v, "dh16");
    args::push(&mut v, "dh17");
    args::push(&mut v, "dh18");
    v
}

/// The groups for perfect forward secrecy.
pub open spec fn pfs_texts() -> Seq<Seq<char>> {
    seq!["nopfs"@, "dh1"@, "dh2"@, "dh5"@, "dh14"@, "dh15"@, "dh16"@, "dh17"@, "dh18"@, "server"@]
}

/// The groups for perfect forward secrecy.
pub fn pfs_ids() -> (r: Vec<String>)
    ensures
        strings::texts(r@) == pfs_texts(),
{
    let mut v = args::list3("nopfs", "dh1", "dh2");
    args::push(&mut v, "dh5");
    args::push(&mut v, "dh14");
    args::push(&mut v, "dh15");
    args::push(&mut v, "dh16");
    args::push(&mut v, "dh17");
    args::push(&mut v, "dh18");
    args::push(&mut v, "server");
    v
}

/// The ways through an address translation.
pub open spec fn nat_mode_texts() -> Seq<Seq<char>> {
    seq!["natt"@, "none"@, "force-natt"@, "cisco-udp"@]
}

/// The ways through an address translation.
pub fn nat_mode_ids() -> (r: Vec<String>)
    ensures
        strings::texts(r@) == nat_mode_texts(),
{
    let mut v = args::list3("natt", "none", "force-natt");
    args::push(&mut v, "cisco-udp");
    v
}

/// The makers of gateways.
pub open spec fn vendor_texts() -> Seq<Seq<char>> {
    seq!["cisco"@, "netscreen"@, "fortigate"@]
}

/// The makers of gateways.
pub fn vendor_ids() -> (r: Vec<String>)
    ensures
        strings::texts(r@) == vendor_texts(),
{
    let mut v = args::list3("cisco", "netscreen", "fortigate");
    v
}

/// The levels of detail in a log.
pub open spec fn debug_texts() -> Seq<Seq<char>> {
    seq!["0"@, "1"@, "2"@, "3"@, "99"@]
}

/// The levels of detail in a log.
pub fn debug_ids() -> (r: Vec<String>)
    ensures
        strings::texts(r@) == debug_texts(),
{
    let mut v = args::list3("0", "1", "2");
    args::push(&mut v, "3");
    args::push(&mut v, "99");
    v
}

/// The protocols of openconnect.
pub open spec fn protocol_texts() -> Seq<Seq<char>> {
    seq!["anyconnect"@, "gp"@, "pulse"@, "f5"@, "fortinet"@, "nc"@, "array"@]
}

/// The protocols of openconnect.
pub fn protocol_ids() -> (r: Vec<String>)
    ensures
        strings::texts(r@) == protocol_texts(),
{
    let mut v = args::list3("anyconnect", "gp", "pulse");
    args::push(&mut v, "f5");
    args::push(&mut v, "fortinet");
    args::push(&mut v, "nc");
    args::push(&mut v, "array");
    v
}

// ---- the form ----

/// What stands in the form.
#[derive(Debug)]
pub struct Form {
    pub name: String,
    pub gateway: String,
    pub username: String,
    pub password: String,
    pub domains: String,
    pub client_cert: String,
    pub id: String,
    pub secret: String,
    pub authmode: IdDropDown,
    pub ca_file: String,
    pub dh_group: IdDropDown,
    pub pfs: IdDropDown,
    pub nat_mode: IdDropDown,
    pub vendor: IdDropDown,
    pub mtu: String,
    pub dpd_timeout: String,
    pub debug: IdDropDown,
    pub enable_weak: bool,
    pub single_des: bool,
    pub no_encryption: bool,
    pub weak_auth: bool,
    pub oc_authgroup: Option<String>,
    pub oc_server_cert: String,
    pub oc_otp: bool,
    pub oc_protocol: IdDropDown,
    pub oc_no_dtls: bool,
    pub oc_dpd: String,
    pub oc_mtu: String,
    pub oc_reconnect: String,
    pub oc_debug: IdDropDown,
}

/// What stands in the form, as texts; of a list to choose from, the id that is chosen.
#[verifier::ext_equal]
pub struct FormText {
    pub name: Seq<char>,
    pub gateway: Seq<char>,
    pub username: Seq<char>,
    pub password: Seq<char>,
    pub domains: Seq<char>,
    pub client_cert: Seq<char>,
    pub id: Seq<char>,
    pub secret: Seq<char>,
    pub authmode: Option<Seq<char>>,
    pub ca_file: Seq<char>,
    pub dh_group: Option<Seq<char>>,
    pub pfs: Option<Seq<char>>,
    pub nat_mode: Option<Seq<char>>,
    pub vendor: Option<Seq<char>>,
    pub mtu: Seq<char>,
    pub dpd_timeout: Seq<char>,
    pub debug: Option<Seq<char>>,
    pub enable_weak: bool,
    pub single_des: bool,
    pub no_encryption: bool,
    pub weak_auth: bool,
    pub oc_authgroup: Option<Seq<char>>,
    pub oc_server_cert: Seq<char>,
    pub oc_otp: bool,
    pub oc_protocol: Option<Seq<char>>,
    pub oc_no_dtls: bool,
    pub oc_dpd: Seq<char>,
    pub oc_mtu: Seq<char>,
    pub oc_reconnect: Seq<char>,
    pub oc_debug: Option<Seq<char>>,
}

impl View for Form {
    type V = FormText;

    open spec fn view(&self) -> FormText {
        FormText {
            name: self.name@,
            gateway: self.gateway@,
            username: self.username@,
            password: self.password@,
            domains: self.domains@,
            client_cert: self.client_cert@,
            id: self.id@,
            secret: self.secret@,
            authmode: self.authmode.active(),
            ca_file: self.ca_file@,
            dh_group: self.dh_group.active(),
            pfs: self.pfs.active(),
            nat_mode: self.nat_mode.active(),
            vendor: self.vendor.active(),
            mtu: self.mtu@,
            dpd_timeout: self.dpd_timeout@,
            debug: self.debug.active(),
            enable_weak: self.enable_weak,
            single_des: self.single_des,
            no_encryption: self.no_encryption,
            weak_auth: self.weak_auth,
            oc_authgroup: strings::opt(self.oc_authgroup),
            oc_server_cert: self.oc_server_cert@,
            oc_otp: self.oc_otp,
            oc_protocol: self.oc_protocol.active(),
            oc_no_dtls: self.oc_no_dtls,
            oc_dpd: self.oc_dpd@,
            oc_mtu: self.oc_mtu@,
            oc_reconnect: self.oc_reconnect@,
            oc_debug: self.oc_debug.active(),
        }
    }
}

// ---- from a profile to the form ----

/// What an entry shows of a value.
pub open spec fn shown(o: Option<Seq<char>>) -> Seq<char> {
    match o {
        Some(s) => s,
        None => Seq::empty(),
    }
}

/// A value, or the one that stands for none.
pub open spec fn or(o: Option<Seq<char>>, other: Seq<char>) -> Option<Seq<char>> {
    match o {
        Some(s) => Some(s),
        None => Some(other),
    }
}

/// What the form shows of a profile and its secrets.
pub open spec fn filled(p: ProfileText, secret: Seq<char>, password: Seq<char>) -> FormText {
    FormText {
        name: p.name,
        gateway: p.gateway,
        username: p.username,
        password,
        domains: shown(p.dns_match_domains),
        client_cert: shown(p.client_cert),
        id: p.id,
        secret,
        authmode: drop_down::chosen(authmode_texts(), or(p.authmode, "psk"@)),
        ca_file: shown(p.ca_file),
        dh_group: drop_down::chosen(drop_down::with_default(dh_group_texts()), p.dh_group),
        pfs: drop_down::chosen(drop_down::with_default(pfs_texts()), p.pfs),
        nat_mode: drop_down::chosen(drop_down::with_default(nat_mode_texts()), p.nat_mode),
        vendor: drop_down::chosen(drop_down::with_default(vendor_texts()), p.vendor),
        mtu: shown(p.mtu),
        dpd_timeout: shown(p.dpd_timeout),
        debug: drop_down::chosen(debug_texts(), or(p.debug, "0"@)),
        enable_weak: p.enable_weak != Some(false),
        single_des: p.single_des == Some(true),
        no_encryption: p.no_encryption == Some(true),
        weak_auth: p.weak_auth == Some(true),
        oc_authgroup: model::given(p.oc_authgroup),
        oc_server_cert: shown(p.oc_server_cert),
        oc_otp: p.oc_otp == Some(true),
        oc_protocol: drop_down::chosen(protocol_texts(), or(p.oc_protocol, "anyconnect"@)),
        oc_no_dtls: p.oc_no_dtls == Some(true),
        oc_dpd: shown(p.oc_dpd),
        oc_mtu: shown(p.oc_mtu),
        oc_reconnect: shown(p.oc_reconnect),
        oc_debug: drop_down::chosen(debug_texts(), or(p.oc_debug, "1"@)),
    }
}

fn show(o: &Option<String>) -> (r: String)
    ensures
        r@ == shown(strings::opt(*o)),
{
    match o {
        Some(s) => s.clone(),
        None => String::new(),
    }
}

/// Whether a list has these lines, each showing its id.
pub open spec fn lists(d: IdDropDown, ids: Seq<Seq<char>>) -> bool {
    strings::texts(d.ids@) == ids && strings::texts(d.labels@) == ids
}

/// Whether a list has these lines, each showing its id, behind one that stands for the backend's
/// own choice.
pub open spec fn lists_default(d: IdDropDown, ids: Seq<Seq<char>>) -> bool {
    strings::texts(d.ids@) == drop_down::with_default(ids) && strings::texts(d.labels@)
        == seq!["(default)"@] + ids
}

/// Whether the lists of a form offer what there is to choose from.
pub open spec fn lists_all(f: Form) -> bool {
    &&& lists(f.authmode, authmode_texts())
    &&& lists_default(f.dh_group, dh_group_texts())
    &&& lists_default(f.pfs, pfs_texts())
    &&& lists_default(f.nat_mode, nat_mode_texts())
    &&& lists_default(f.vendor, vendor_texts())
    &&& lists(f.debug, debug_texts())
    &&& lists(f.oc_protocol, protocol_texts())
    &&& lists(f.oc_debug, debug_texts())
}

fn combo_or(ids: Vec<String>, o: &Option<String>, other: &str) -> (r: IdDropDown)
    ensures
        r.active() == drop_down::chosen(strings::texts(ids@), or(strings::opt(*o), other@)),
        lists(r, strings::texts(ids@)),
{
    match o {
        Some(s) => drop_down::combo(ids, Some(s)),
        None => drop_down::combo(ids, Some(other)),
    }
}

fn combo_default(ids: &Vec<String>, o: &Option<String>) -> (r: IdDropDown)
    ensures
        r.active() == drop_down::chosen(
            drop_down::with_default(strings::texts(ids@)),
            strings::opt(*o),
        ),
        lists_default(r, strings::texts(ids@)),
{
    match o {
        Some(s) => drop_down::combo_default(ids, Some(s)),
        None => drop_down::combo_default(ids, None),
    }
}

fn is_on(o: Option<bool>) -> (r: bool)
    ensures
        r == (o == Some(true)),
{
    match o {
        Some(b) => b,
        None => false,
    }
}

/// The form for a profile. `secret` and `password` are what is kept under the profile's services,
/// empty where there is nothing.
pub fn fill(p: &Profile, secret: &str, password: &str) -> (r: Form)
    ensures
        r@ == filled(p@, secret@, password@),
        lists_all(r),
{
    Form {
        name: p.name.clone(),
        gateway: p.gateway.clone(),
        username: p.username.clone(),
        password: password.to_owned(),
        domains: show(&p.dns_match_domains),
        client_cert: show(&p.client_cert),
        id: p.id.clone(),
        secret: secret.to_owned(),
        authmode: combo_or(authmode_ids(), &p.authmode, "psk"),
        ca_file: show(&p.ca_file),
        dh_group: combo_default(&dh_group_ids(), &p.dh_group),
        pfs: combo_default(&pfs_ids(), &p.pfs),
        nat_mode: combo_default(&nat_mode_ids(), &p.nat_mode),
        vendor: combo_default(&vendor_ids(), &p.vendor),
        mtu: show(&p.mtu),
        dpd_timeout: show(&p.dpd_timeout),
        debug: combo_or(debug_ids(), &p.debug, "0"),
        enable_weak: match p.enable_weak {
            Some(b) => b,
            None => true,
        },
        single_des: is_on(p.single_des),
        no_encryption: is_on(p.no_encryption),
        weak_auth: is_on(p.weak_auth),
        oc_authgroup: model::ne_field(&p.oc_authgroup),
        oc_server_cert: show(&p.oc_server_cert),
        oc_otp: is_on(p.oc_otp),
        oc_protocol: combo_or(protocol_ids(), &p.oc_protocol, "anyconnect"),
        oc_no_dtls: is_on(p.oc_no_dtls),
        oc_dpd: show(&p.oc_dpd),
        oc_mtu: show(&p.oc_mtu),
        oc_reconnect: show(&p.oc_reconnect),
        oc_debug: combo_or(debug_ids(), &p.oc_debug, "1"),
    }
}

// ---- from the form to a profile ----

/// The names of the entries that have to be filled in and are not. vpnc needs a group.
pub open spec fn missing(e: FormText, oc: bool) -> Seq<Seq<char>> {
    args::if_set(text::trim(e.name).len() == 0, "Name"@) + args::if_set(
        text::trim(e.gateway).len() == 0,
        "Gateway"@,
    ) + args::if_set(text::trim(e.username).len() == 0, "Username"@) + args::if_set(
        !oc && text::trim(e.id).len() == 0,
        "Group name"@,
    )
}

/// The names of the entries that have to be filled in and are not, where there are any.
pub fn missing_required(e: &Form, oc: bool) -> (r: Option<String>)
    ensures
        match r {
            Some(s) => missing(e@, oc).len() > 0 && s@ == scan::joined(missing(e@, oc), ", "@),
            None => missing(e@, oc).len() == 0,
        },
{
    let mut v = args::empty();
    args::push_if(&mut v, text::is_blank(&e.name), "Name");
    args::push_if(&mut v, text::is_blank(&e.gateway), "Gateway");
    args::push_if(&mut v, text::is_blank(&e.username), "Username");
    args::push_if(&mut v, !oc && text::is_blank(&e.id), "Group name");
    assert(strings::texts(v@) =~= missing(e@, oc));
    assert(v@.len() == strings::texts(v@).len());
    if v.len() > 0 {
        Some(scan::join(&v, ", "))
    } else {
        None
    }
}

/// A profile with what both kinds have from the form.
pub open spec fn gathered_shared(e: FormText, p: ProfileText) -> ProfileText {
    ProfileText {
        kind: Some(
            if model::openconnect_kind(p.kind) {
                "openconnect"@
            } else {
                "vpnc"@
            },
        ),
        name: text::trim(e.name),
        gateway: text::trim(e.gateway),
        username: text::trim(e.username),
        dns_match_domains: model::given(Some(e.domains)),
        client_cert: model::given(Some(e.client_cert)),
        ..p
    }
}

/// A profile with what only vpnc has from the form.
pub open spec fn gathered_vpnc(e: FormText, p: ProfileText) -> ProfileText {
    ProfileText {
        id: text::trim(e.id),
        authmode: e.authmode,
        ca_file: model::given(Some(e.ca_file)),
        dh_group: model::given(e.dh_group),
        pfs: model::given(e.pfs),
        nat_mode: model::given(e.nat_mode),
        vendor: model::given(e.vendor),
        mtu: model::given(Some(e.mtu)),
        dpd_timeout: model::given(Some(e.dpd_timeout)),
        debug: e.debug,
        enable_weak: Some(e.enable_weak),
        single_des: Some(e.single_des),
        no_encryption: Some(e.no_encryption),
        weak_auth: Some(e.weak_auth),
        ..p
    }
}

/// A profile with what only openconnect has from the form.
pub open spec fn gathered_oc(e: FormText, p: ProfileText) -> ProfileText {
    ProfileText {
        oc_authgroup: model::given(e.oc_authgroup),
        oc_server_cert: model::given(Some(e.oc_server_cert)),
        oc_otp: Some(e.oc_otp),
        oc_protocol: e.oc_protocol,
        oc_no_dtls: Some(e.oc_no_dtls),
        oc_dpd: model::given(Some(e.oc_dpd)),
        oc_mtu: model::given(Some(e.oc_mtu)),
        oc_reconnect: model::given(Some(e.oc_reconnect)),
        oc_debug: e.oc_debug,
        ..p
    }
}

/// A profile with what the form has for its kind; what belongs to the other kind stays.
pub open spec fn gathered(e: FormText, p: ProfileText) -> ProfileText {
    let q = gathered_shared(e, p);
    if model::openconnect_kind(p.kind) {
        gathered_oc(e, q)
    } else {
        gathered_vpnc(e, q)
    }
}

/// The profile with what the form has for its kind.
pub fn gather(e: &Form, p: &Profile) -> (r: Profile)
    ensures
        r@ == gathered(e@, p@),
{
    let oc: bool = p.is_openconnect();
    let mut q = p.clone();
    q.kind = Some(
        if oc {
            "openconnect".to_owned()
        } else {
            "vpnc".to_owned()
        },
    );
    q.name = text::trimmed(&e.name);
    q.gateway = text::trimmed(&e.gateway);
    q.username = text::trimmed(&e.username);
    q.dns_match_domains = model::ne(Some(&e.domains));
    q.client_cert = model::ne(Some(&e.client_cert));
    if !oc {
        q.id = text::trimmed(&e.id);
        q.authmode = e.authmode.active_id();
        q.ca_file = model::ne(Some(&e.ca_file));
        q.dh_group = model::ne_field(&e.dh_group.active_id());
        q.pfs = model::ne_field(&e.pfs.active_id());
        q.nat_mode = model::ne_field(&e.nat_mode.active_id());
        q.vendor = model::ne_field(&e.vendor.active_id());
        q.mtu = model::ne(Some(&e.mtu));
        q.dpd_timeout = model::ne(Some(&e.dpd_timeout));
        q.debug = e.debug.active_id();
        q.enable_weak = Some(e.enable_weak);
        q.single_des = Some(e.single_des);
        q.no_encryption = Some(e.no_encryption);
        q.weak_auth = Some(e.weak_auth);
    } else {
        q.oc_authgroup = model::ne_field(&e.oc_authgroup);
        q.oc_server_cert = model::ne(Some(&e.oc_server_cert));
        q.oc_otp = Some(e.oc_otp);
        q.oc_protocol = e.oc_protocol.active_id();
        q.oc_no_dtls = Some(e.oc_no_dtls);
        q.oc_dpd = model::ne(Some(&e.oc_dpd));
        q.oc_mtu = model::ne(Some(&e.oc_mtu));
        q.oc_reconnect = model::ne(Some(&e.oc_reconnect));
        q.oc_debug = e.oc_debug.active_id();
    }
    q
}

// ---- saving ----

/// What is to be kept: the list of profiles, the profile as it stands there, and what keeps its
/// secrets.
#[derive(Debug)]
pub struct Saved {
    pub list: Vec<Profile>,
    pub profile: Profile,
    pub stores: Vec<Invocation>,
}

/// What invocations hold.
pub open spec fn invocation_texts(v: Seq<Invocation>) -> Seq<InvocationText> {
    v.map_values(|i: Invocation| i@)
}

/// What keeps a secret, where there is one.
pub open spec fn store_if(
    service: Seq<char>,
    account: Seq<char>,
    value: Option<Seq<char>>,
) -> Seq<InvocationText> {
    match value {
        Some(v) => seq![secrets::store_text(service, account, v)],
        None => Seq::empty(),
    }
}

/// What keeps a profile's secrets: the group secret under the group, the password under the user
/// name.
pub open spec fn stores_text(
    p: ProfileText,
    secret: Option<Seq<char>>,
    password: Option<Seq<char>>,
) -> Seq<InvocationText> {
    store_if(secrets::service_text(p, "secret"@), p.id, secret) + store_if(
        secrets::service_text(p, "password"@),
        p.username,
        password,
    )
}

fn stores(p: &Profile, secret: Option<&str>, password: Option<&str>) -> (r: Vec<Invocation>)
    ensures
        invocation_texts(r@) == stores_text(
            p@,
            strings::opt_str(secret),
            strings::opt_str(password),
        ),
{
    let mut v: Vec<Invocation> = Vec::new();
    if let Some(s) = secret {
        v.push(secrets::store(&secrets::kc_service(p, "secret"), &p.id, s));
    }
    if let Some(s) = password {
        v.push(secrets::store(&secrets::kc_service(p, "password"), &p.username, s));
    }
    assert(invocation_texts(v@) =~= stores_text(
        p@,
        strings::opt_str(secret),
        strings::opt_str(password),
    ));
    v
}

/// A secret as it was entered: an empty entry is none.
pub open spec fn entered(s: Seq<char>) -> Option<Seq<char>> {
    if s.len() == 0 {
        None
    } else {
        Some(s)
    }
}

fn enter(s: &str) -> (r: Option<&str>)
    ensures
        strings::opt_str(r) == entered(s@),
{
    if s.is_empty() {
        None
    } else {
        Some(s)
    }
}

/// Whether a saved state is the one that a profile gives, put into a list.
pub open spec fn saves(
    s: Saved,
    list: Seq<ProfileText>,
    p: ProfileText,
    uuid: Seq<char>,
    secret: Option<Seq<char>>,
    password: Option<Seq<char>>,
) -> bool {
    &&& s.profile@ == model::with_uuid(p, uuid)
    &&& model::ordering_of(
        model::profile_texts(s.list@),
        model::others(list, s.profile@.uuid).push(s.profile@),
    )
    &&& invocation_texts(s.stores@) == stores_text(s.profile@, secret, password)
}

/// Saves the form: makes the profile of it, puts it into the list and keeps its secrets. Where an
/// entry is missing, nothing is saved and the user is told which. A new profile gets its uuid from
/// `random`.
pub fn save(e: &Form, p: &Profile, list: &Vec<Profile>, random: [u8; 16]) -> (r: Result<
    Saved,
    String,
>)
    ensures
        match r {
            Ok(s) => {
                &&& missing(e@, model::openconnect_kind(p@.kind)).len() == 0
                &&& saves(
                    s,
                    model::profile_texts(list@),
                    gathered(e@, p@),
                    model::uuid_text(random@),
                    entered(e@.secret),
                    entered(e@.password),
                )
            },
            Err(m) => {
                let names = missing(e@, model::openconnect_kind(p@.kind));
                &&& names.len() > 0
                &&& m@ == "Please fill in: "@ + scan::joined(names, ", "@) + "."@
            },
        },
{
    if let Some(names) = missing_required(e, p.is_openconnect()) {
        return Err(text::cat3("Please fill in: ", &names, "."));
    }
    let (list, profile) = model::upsert(list, gather(e, p), random);
    let stores = stores(&profile, enter(&e.secret), enter(&e.password));
    Ok(Saved { list, profile, stores })
}

/// Saves what was read from a file.
pub fn import(parsed: ParsedConfig, list: &Vec<Profile>, random: [u8; 16]) -> (r: Saved)
    ensures
        saves(
            r,
            model::profile_texts(list@),
            parsed.profile@,
            model::uuid_text(random@),
            strings::opt(parsed.secret),
            strings::opt(parsed.password),
        ),
{
    let secret: Option<&str> = match &parsed.secret {
        Some(s) => Some(s.as_str()),
        None => None,
    };
    let password: Option<&str> = match &parsed.password {
        Some(s) => Some(s.as_str()),
        None => None,
    };
    let (list, profile) = model::upsert(list, parsed.profile, random);
    let stores = stores(&profile, secret, password);
    Saved { list, profile, stores }
}

// ---- laws ----

/// Whether what is chosen is what can be chosen.
pub open spec fn offers(ids: Seq<Seq<char>>, id: Option<Seq<char>>) -> bool {
    id matches Some(x) && ids.contains(x)
}

/// Whether everything that is chosen in a form can be chosen there.
pub open spec fn offered(e: FormText) -> bool {
    &&& offers(authmode_texts(), e.authmode)
    &&& offers(drop_down::with_default(dh_group_texts()), e.dh_group)
    &&& offers(drop_down::with_default(pfs_texts()), e.pfs)
    &&& offers(drop_down::with_default(nat_mode_texts()), e.nat_mode)
    &&& offers(drop_down::with_default(vendor_texts()), e.vendor)
    &&& offers(debug_texts(), e.debug)
    &&& offers(protocol_texts(), e.oc_protocol)
    &&& offers(debug_texts(), e.oc_debug)
}

/// In a form that was filled from a profile, everything that is chosen can be chosen.
pub proof fn law_form_offers_what_it_shows(
    p: ProfileText,
    secret: Seq<char>,
    password: Seq<char>,
)
    ensures
        offered(filled(p, secret, password)),
{
    drop_down::law_choice_is_offered(authmode_texts(), or(p.authmode, "psk"@));
    drop_down::law_choice_is_offered(drop_down::with_default(dh_group_texts()), p.dh_group);
    drop_down::law_choice_is_offered(drop_down::with_default(pfs_texts()), p.pfs);
    drop_down::law_choice_is_offered(drop_down::with_default(nat_mode_texts()), p.nat_mode);
    drop_down::law_choice_is_offered(drop_down::with_default(vendor_texts()), p.vendor);
    drop_down::law_choice_is_offered(debug_texts(), or(p.debug, "0"@));
    drop_down::law_choice_is_offered(protocol_texts(), or(p.oc_protocol, "anyconnect"@));
    drop_down::law_choice_is_offered(debug_texts(), or(p.oc_debug, "1"@));
}

/// An entry that shows what was made of an entry gives the same again.
proof fn lemma_entry_stays(s: Seq<char>)
    ensures
        model::given(Some(shown(model::given(Some(s))))) == model::given(Some(s)),
{
    model::law_ne_is_idempotent(Some(s));
    text::lemma_trim_blank(Seq::empty());
    text::lemma_trim(Seq::empty());
}

/// A text that neither begins nor ends with white space is trimmed as it is.
proof fn lemma_trimmed(s: Seq<char>)
    requires
        s.len() == 0 || (!text::white_space(s[0]) && !text::white_space(s.last())),
    ensures
        text::trim(s) == s,
{
    if s.len() == 0 {
        text::lemma_trim(s);
    }
}

/// What is chosen where the first line stands for none is chosen again from what was made of it.
proof fn lemma_choice_stays(ids: Seq<Seq<char>>, x: Seq<char>)
    requires
        drop_down::with_default(ids).contains(x),
        forall|i: int| 0 <= i < ids.len() ==> text::trim(#[trigger] ids[i]) == ids[i],
    ensures
        model::given(
            drop_down::chosen(drop_down::with_default(ids), model::given(Some(x))),
        ) == model::given(Some(x)),
{
    let all = drop_down::with_default(ids);
    let i = choose|i: int| 0 <= i < all.len() && all[i] == x;
    reveal_strlit("");
    lemma_trimmed(""@);
    if i > 0 {
        assert(x == ids[i - 1]);
    } else {
        assert(x == ""@);
    }
    assert(text::trim(x) == x);
    if x.len() == 0 {
        assert(x =~= ""@);
        assert(drop_down::chosen(all, None) == Some(""@));
    } else {
        drop_down::law_known_id_is_chosen(all, x);
    }
}

proof fn lemma_ids_are_trimmed()
    ensures
        forall|i: int|
            0 <= i < dh_group_texts().len() ==> text::trim(#[trigger] dh_group_texts()[i])
                == dh_group_texts()[i],
        forall|i: int|
            0 <= i < pfs_texts().len() ==> text::trim(#[trigger] pfs_texts()[i]) == pfs_texts()[i],
        forall|i: int|
            0 <= i < nat_mode_texts().len() ==> text::trim(#[trigger] nat_mode_texts()[i])
                == nat_mode_texts()[i],
        forall|i: int|
            0 <= i < vendor_texts().len() ==> text::trim(#[trigger] vendor_texts()[i])
                == vendor_texts()[i],
{
    reveal_strlit("dh1");
    lemma_trimmed("dh1"@);
    reveal_strlit("dh2");
    lemma_trimmed("dh2"@);
    reveal_strlit("dh5");
    lemma_trimmed("dh5"@);
    reveal_strlit("dh14");
    lemma_trimmed("dh14"@);
    reveal_strlit("dh15");
    lemma_trimmed("dh15"@);
    reveal_strlit("dh16");
    lemma_trimmed("dh16"@);
    reveal_strlit("dh17");
    lemma_trimmed("dh17"@);
    reveal_strlit("dh18");
    lemma_trimmed("dh18"@);
    reveal_strlit("nopfs");
    lemma_trimmed("nopfs"@);
    reveal_strlit("server");
    lemma_trimmed("server"@);
    reveal_strlit("natt");
    lemma_trimmed("natt"@);
    reveal_strlit("none");
    lemma_trimmed("none"@);
    reveal_strlit("force-natt");
    lemma_trimmed("force-natt"@);
    reveal_strlit("cisco-udp");
    lemma_trimmed("cisco-udp"@);
    reveal_strlit("cisco");
    lemma_trimmed("cisco"@);
    reveal_strlit("netscreen");
    lemma_trimmed("netscreen"@);
    reveal_strlit("fortigate");
    lemma_trimmed("fortigate"@);
}

/// What was saved shows in the form as it was saved: saving it again as it stands there changes
/// nothing.
pub proof fn law_saved_form_shows_again(
    e: FormText,
    p: ProfileText,
    secret: Seq<char>,
    password: Seq<char>,
)
    requires
        offered(e),
    ensures
        gathered(filled(gathered(e, p), secret, password), gathered(e, p)) == gathered(e, p),
{
    let q = gathered(e, p);
    let f = filled(q, secret, password);
    text::lemma_trim_idempotent(e.name);
    text::lemma_trim_idempotent(e.gateway);
    text::lemma_trim_idempotent(e.username);
    lemma_entry_stays(e.domains);
    lemma_entry_stays(e.client_cert);
    if model::openconnect_kind(p.kind) {
        model::law_ne_is_idempotent(e.oc_authgroup);
        lemma_entry_stays(e.oc_server_cert);
        lemma_entry_stays(e.oc_dpd);
        lemma_entry_stays(e.oc_mtu);
        lemma_entry_stays(e.oc_reconnect);
        drop_down::law_known_id_is_chosen(protocol_texts(), e.oc_protocol.unwrap());
        drop_down::law_known_id_is_chosen(debug_texts(), e.oc_debug.unwrap());
    } else {
        reveal_strlit("vpnc");
        reveal_strlit("openconnect");
        assert("vpnc"@.len() != "openconnect"@.len());
        text::lemma_trim_idempotent(e.id);
        lemma_entry_stays(e.ca_file);
        lemma_entry_stays(e.mtu);
        lemma_entry_stays(e.dpd_timeout);
        lemma_ids_are_trimmed();
        lemma_choice_stays(dh_group_texts(), e.dh_group.unwrap());
        lemma_choice_stays(pfs_texts(), e.pfs.unwrap());
        lemma_choice_stays(nat_mode_texts(), e.nat_mode.unwrap());
        lemma_choice_stays(vendor_texts(), e.vendor.unwrap());
        drop_down::law_known_id_is_chosen(authmode_texts(), e.authmode.unwrap());
        drop_down::law_known_id_is_chosen(debug_texts(), e.debug.unwrap());
    }
    assert(gathered(f, q) =~= q);
}

/// Whether two profiles agree in what only vpnc has from the form.
pub open spec fn same_vpnc(a: ProfileText, b: ProfileText) -> bool {
    &&& a.id == b.id
    &&& a.authmode == b.authmode
    &&& a.ca_file == b.ca_file
    &&& a.dh_group == b.dh_group
    &&& a.pfs == b.pfs
    &&& a.nat_mode == b.nat_mode
    &&& a.vendor == b.vendor
    &&& a.mtu == b.mtu
    &&& a.dpd_timeout == b.dpd_timeout
    &&& a.debug == b.debug
    &&& a.enable_weak == b.enable_weak
    &&& a.single_des == b.single_des
    &&& a.no_encryption == b.no_encryption
    &&& a.weak_auth == b.weak_auth
}

/// Whether two profiles agree in what only openconnect has from the form.
pub open spec fn same_oc(a: ProfileText, b: ProfileText) -> bool {
    &&& a.oc_authgroup == b.oc_authgroup
    &&& a.oc_server_cert == b.oc_server_cert
    &&& a.oc_otp == b.oc_otp
    &&& a.oc_protocol == b.oc_protocol
    &&& a.oc_no_dtls == b.oc_no_dtls
    &&& a.oc_dpd == b.oc_dpd
    &&& a.oc_mtu == b.oc_mtu
    &&& a.oc_reconnect == b.oc_reconnect
    &&& a.oc_debug == b.oc_debug
}

/// Whether two profiles agree in what the form does not show.
pub open spec fn same_unseen(a: ProfileText, b: ProfileText) -> bool {
    &&& a.uuid == b.uuid
    &&& a.if_mode == b.if_mode
    &&& a.domain == b.domain
    &&& a.app_version == b.app_version
    &&& a.local_addr == b.local_addr
    &&& a.local_port == b.local_port
    &&& a.udp_port == b.udp_port
    &&& a.extra == b.extra
}

/// Saving leaves the kind, what belongs to the other kind and what the form does not show as they
/// were.
pub proof fn law_saving_keeps_what_is_not_shown(e: FormText, p: ProfileText)
    ensures
        same_unseen(gathered(e, p), p),
        model::openconnect_kind(gathered(e, p).kind) == model::openconnect_kind(p.kind),
        model::openconnect_kind(p.kind) ==> same_vpnc(gathered(e, p), p),
        !model::openconnect_kind(p.kind) ==> same_oc(gathered(e, p), p),
{
    reveal_strlit("vpnc");
    reveal_strlit("openconnect");
    assert("vpnc"@.len() != "openconnect"@.len());
}

/// No secret goes into the profile: it is the same whatever the secrets in the form are.
pub proof fn law_secrets_stay_out_of_the_profile(
    e: FormText,
    p: ProfileText,
    secret: Seq<char>,
    password: Seq<char>,
)
    ensures
        gathered(FormText { secret, password, ..e }, p) == gathered(e, p),
{
}

} // verus!
