//! Profiles: what they hold, where their files lie, and the list that they are kept in.

use crate::number;
use crate::scan;
use crate::strings;
use crate::text;
use vstd::prelude::*;

verus! {

broadcast use strings::lemma_texts_push;

/// A VPN profile. An optional field that is absent or blank leaves its directive out, so that the
/// backend's own default holds. Secrets are never part of a profile.
#[derive(Debug)]
pub struct Profile {
    /// Stable identity; the secret store keys off it, so a new name is cosmetic.
    pub uuid: Option<String>,
    /// The label shown to the user.
    pub name: String,
    /// The IPSec gateway, or the openconnect server.
    pub gateway: String,
    /// The IPSec group name.
    pub id: String,
    /// The user name, which may be `DOMAIN\\user`.
    pub username: String,
    /// IKE authentication mode: `psk`, `cert` or `hybrid`.
    pub authmode: Option<String>,
    /// IKE Diffie-Hellman group.
    pub dh_group: Option<String>,
    /// Perfect forward secrecy.
    pub pfs: Option<String>,
    /// NAT traversal mode.
    pub nat_mode: Option<String>,
    /// Gateway vendor.
    pub vendor: Option<String>,
    /// Interface mode.
    pub if_mode: Option<String>,
    /// Login domain of profiles that keep it apart from the user name.
    pub domain: Option<String>,
    /// The domains whose names the tunnel's resolver answers.
    pub dns_match_domains: Option<String>,
    /// Certificate authority file.
    pub ca_file: Option<String>,
    /// Client certificate.
    pub client_cert: Option<String>,
    /// Version that the client claims.
    pub app_version: Option<String>,
    /// Local address.
    pub local_addr: Option<String>,
    /// Local port.
    pub local_port: Option<String>,
    /// UDP port of the encapsulation.
    pub udp_port: Option<String>,
    /// Interface MTU.
    pub mtu: Option<String>,
    /// Idle seconds before a dead peer is probed for.
    pub dpd_timeout: Option<String>,
    /// vpnc's debug level.
    pub debug: Option<String>,
    /// Weak encryption; on where nothing is said.
    pub enable_weak: Option<bool>,
    /// Single DES.
    pub single_des: Option<bool>,
    /// No encryption.
    pub no_encryption: Option<bool>,
    /// Weak authentication.
    pub weak_auth: Option<bool>,
    /// Further vpnc directives, word for word.
    pub extra: Option<Vec<String>>,
    /// The backend: `vpnc`, which is the default, or `openconnect`.
    pub kind: Option<String>,
    /// The gateway's group, by its label.
    pub oc_authgroup: Option<String>,
    /// The pin of the server's certificate.
    pub oc_server_cert: Option<String>,
    /// Whether to ask for a one-time code.
    pub oc_otp: Option<bool>,
    /// openconnect's protocol.
    pub oc_protocol: Option<String>,
    /// TLS only.
    pub oc_no_dtls: Option<bool>,
    /// Seconds between openconnect's dead peer probes.
    pub oc_dpd: Option<String>,
    /// openconnect's MTU.
    pub oc_mtu: Option<String>,
    /// Seconds for which openconnect tries to reconnect.
    pub oc_reconnect: Option<String>,
    /// openconnect's verbosity.
    pub oc_debug: Option<String>,
}

/// What a profile holds, as texts.
#[verifier::ext_equal]
pub struct ProfileText {
    pub uuid: Option<Seq<char>>,
    pub name: Seq<char>,
    pub gateway: Seq<char>,
    pub id: Seq<char>,
    pub username: Seq<char>,
    pub authmode: Option<Seq<char>>,
    pub dh_group: Option<Seq<char>>,
    pub pfs: Option<Seq<char>>,
    pub nat_mode: Option<Seq<char>>,
    pub vendor: Option<Seq<char>>,
    pub if_mode: Option<Seq<char>>,
    pub domain: Option<Seq<char>>,
    pub dns_match_domains: Option<Seq<char>>,
    pub ca_file: Option<Seq<char>>,
    pub client_cert: Option<Seq<char>>,
    pub app_version: Option<Seq<char>>,
    pub local_addr: Option<Seq<char>>,
    pub local_port: Option<Seq<char>>,
    pub udp_port: Option<Seq<char>>,
    pub mtu: Option<Seq<char>>,
    pub dpd_timeout: Option<Seq<char>>,
    pub debug: Option<Seq<char>>,
    pub enable_weak: Option<bool>,
    pub single_des: Option<bool>,
    pub no_encryption: Option<bool>,
    pub weak_auth: Option<bool>,
    pub extra: Option<Seq<Seq<char>>>,
    pub kind: Option<Seq<char>>,
    pub oc_authgroup: Option<Seq<char>>,
    pub oc_server_cert: Option<Seq<char>>,
    pub oc_otp: Option<bool>,
    pub oc_protocol: Option<Seq<char>>,
    pub oc_no_dtls: Option<bool>,
    pub oc_dpd: Option<Seq<char>>,
    pub oc_mtu: Option<Seq<char>>,
    pub oc_reconnect: Option<Seq<char>>,
    pub oc_debug: Option<Seq<char>>,
}

impl View for Profile {
    type V = ProfileText;

    open spec fn view(&self) -> ProfileText {
        ProfileText {
            uuid: strings::opt(self.uuid),
            name: self.name@,
            gateway: self.gateway@,
            id: self.id@,
            username: self.username@,
            authmode: strings::opt(self.authmode),
            dh_group: strings::opt(self.dh_group),
            pfs: strings::opt(self.pfs),
            nat_mode: strings::opt(self.nat_mode),
            vendor: strings::opt(self.vendor),
            if_mode: strings::opt(self.if_mode),
            domain: strings::opt(self.domain),
            dns_match_domains: strings::opt(self.dns_match_domains),
            ca_file: strings::opt(self.ca_file),
            client_cert: strings::opt(self.client_cert),
            app_version: strings::opt(self.app_version),
            local_addr: strings::opt(self.local_addr),
            local_port: strings::opt(self.local_port),
            udp_port: strings::opt(self.udp_port),
            mtu: strings::opt(self.mtu),
            dpd_timeout: strings::opt(self.dpd_timeout),
            debug: strings::opt(self.debug),
            enable_weak: self.enable_weak,
            single_des: self.single_des,
            no_encryption: self.no_encryption,
            weak_auth: self.weak_auth,
            extra: list_text(self.extra),
            kind: strings::opt(self.kind),
            oc_authgroup: strings::opt(self.oc_authgroup),
            oc_server_cert: strings::opt(self.oc_server_cert),
            oc_otp: self.oc_otp,
            oc_protocol: strings::opt(self.oc_protocol),
            oc_no_dtls: self.oc_no_dtls,
            oc_dpd: strings::opt(self.oc_dpd),
            oc_mtu: strings::opt(self.oc_mtu),
            oc_reconnect: strings::opt(self.oc_reconnect),
            oc_debug: strings::opt(self.oc_debug),
        }
    }
}

/// The texts of an optional list of strings.
pub open spec fn list_text(o: Option<Vec<String>>) -> Option<Seq<Seq<char>>> {
    match o {
        Some(v) => Some(strings::texts(v@)),
        None => None,
    }
}

/// A profile with nothing filled in.
pub open spec fn blank_profile() -> ProfileText {
    ProfileText {
        uuid: None,
        name: Seq::empty(),
        gateway: Seq::empty(),
        id: Seq::empty(),
        username: Seq::empty(),
        authmode: None,
        dh_group: None,
        pfs: None,
        nat_mode: None,
        vendor: None,
        if_mode: None,
        domain: None,
        dns_match_domains: None,
        ca_file: None,
        client_cert: None,
        app_version: None,
        local_addr: None,
        local_port: None,
        udp_port: None,
        mtu: None,
        dpd_timeout: None,
        debug: None,
        enable_weak: None,
        single_des: None,
        no_encryption: None,
        weak_auth: None,
        extra: None,
        kind: None,
        oc_authgroup: None,
        oc_server_cert: None,
        oc_otp: None,
        oc_protocol: None,
        oc_no_dtls: None,
        oc_dpd: None,
        oc_mtu: None,
        oc_reconnect: None,
        oc_debug: None,
    }
}

impl Default for Profile {
    /// A profile with nothing filled in.
    fn default() -> (r: Self)
        ensures
            r@ == blank_profile(),
    {
        Profile {
            uuid: None,
            name: String::new(),
            gateway: String::new(),
            id: String::new(),
            username: String::new(),
            authmode: None,
            dh_group: None,
            pfs: None,
            nat_mode: None,
            vendor: None,
            if_mode: None,
            domain: None,
            dns_match_domains: None,
            ca_file: None,
            client_cert: None,
            app_version: None,
            local_addr: None,
            local_port: None,
            udp_port: None,
            mtu: None,
            dpd_timeout: None,
            debug: None,
            enable_weak: None,
            single_des: None,
            no_encryption: None,
            weak_auth: None,
            extra: None,
            kind: None,
            oc_authgroup: None,
            oc_server_cert: None,
            oc_otp: None,
            oc_protocol: None,
            oc_no_dtls: None,
            oc_dpd: None,
            oc_mtu: None,
            oc_reconnect: None,
            oc_debug: None,
        }
    }
}

impl Clone for Profile {
    /// A profile with the same contents.
    fn clone(&self) -> (r: Self)
        ensures
            r@ == self@,
    {
        let extra = match &self.extra {
            Some(v) => Some(text::copy_list(v)),
            None => None,
        };
        Profile {
            uuid: text::copy_opt(&self.uuid),
            name: self.name.clone(),
            gateway: self.gateway.clone(),
            id: self.id.clone(),
            username: self.username.clone(),
            authmode: text::copy_opt(&self.authmode),
            dh_group: text::copy_opt(&self.dh_group),
            pfs: text::copy_opt(&self.pfs),
            nat_mode: text::copy_opt(&self.nat_mode),
            vendor: text::copy_opt(&self.vendor),
            if_mode: text::copy_opt(&self.if_mode),
            domain: text::copy_opt(&self.domain),
            dns_match_domains: text::copy_opt(&self.dns_match_domains),
            ca_file: text::copy_opt(&self.ca_file),
            client_cert: text::copy_opt(&self.client_cert),
            app_version: text::copy_opt(&self.app_version),
            local_addr: text::copy_opt(&self.local_addr),
            local_port: text::copy_opt(&self.local_port),
            udp_port: text::copy_opt(&self.udp_port),
            mtu: text::copy_opt(&self.mtu),
            dpd_timeout: text::copy_opt(&self.dpd_timeout),
            debug: text::copy_opt(&self.debug),
            enable_weak: self.enable_weak,
            single_des: self.single_des,
            no_encryption: self.no_encryption,
            weak_auth: self.weak_auth,
            extra,
            kind: text::copy_opt(&self.kind),
            oc_authgroup: text::copy_opt(&self.oc_authgroup),
            oc_server_cert: text::copy_opt(&self.oc_server_cert),
            oc_otp: self.oc_otp,
            oc_protocol: text::copy_opt(&self.oc_protocol),
            oc_no_dtls: self.oc_no_dtls,
            oc_dpd: text::copy_opt(&self.oc_dpd),
            oc_mtu: text::copy_opt(&self.oc_mtu),
            oc_reconnect: text::copy_opt(&self.oc_reconnect),
            oc_debug: text::copy_opt(&self.oc_debug),
        }
    }
}
// ---- reading a profile ----

/// The backend that a profile asks for; vpnc where it does not say.
pub open spec fn openconnect_kind(kind: Option<Seq<char>>) -> bool {
    kind == Some("openconnect"@)
}

/// The name that stays with a profile: its uuid, or else its label.
pub open spec fn ident_text(p: ProfileText) -> Seq<char> {
    match p.uuid {
        Some(u) => u,
        None => p.name,
    }
}

/// Whether a character may stand in a file name.
pub open spec fn safe_char(c: char) -> bool {
    text::alphanumeric(c) || c == '-' || c == '_'
}

/// The characters of a text that may stand in a file name, in their order.
pub open spec fn safe_text(s: Seq<char>) -> Seq<char>
    decreases s.len(),
{
    if s.len() == 0 {
        Seq::empty()
    } else if safe_char(s.last()) {
        safe_text(s.drop_last()).push(s.last())
    } else {
        safe_text(s.drop_last())
    }
}

/// Only letters, digits, hyphens and underscores are left: no slash and no dot among them.
pub proof fn law_safe_text_is_safe(s: Seq<char>)
    ensures
        forall|i: int| 0 <= i < safe_text(s).len() ==> safe_char(#[trigger] safe_text(s)[i]),
        !safe_text(s).contains('/'),
        !safe_text(s).contains('.'),
    decreases s.len(),
{
    if s.len() > 0 {
        law_safe_text_is_safe(s.drop_last());
    }
    assert(!safe_char('/') && !safe_char('.'));
}

impl Profile {
    /// Whether the profile is one for openconnect; vpnc where it does not say.
    pub fn is_openconnect(&self) -> (r: bool)
        ensures
            r == openconnect_kind(self@.kind),
    {
        match &self.kind {
            Some(k) => text::equal(k, "openconnect"),
            None => false,
        }
    }

    /// The name that stays with the profile: its uuid, or else its label.
    pub fn ident(&self) -> (r: &str)
        ensures
            r@ == ident_text(self@),
    {
        match &self.uuid {
            Some(u) => u.as_str(),
            None => self.name.as_str(),
        }
    }

    /// The label without the characters that should not stand in a file name.
    pub fn safe_name(&self) -> (r: String)
        ensures
            r@ == safe_text(self@.name),
    {
        let v = text::chars(&self.name);
        let mut out = String::new();
        let mut i: usize = 0;
        while i < v.len()
            invariant
                i <= v@.len(),
                out@ == safe_text(v@.take(i as int)),
            decreases v.len() - i,
        {
            proof {
                let t = v@.take(i + 1);
                assert(t.drop_last() =~= v@.take(i as int));
                assert(t.last() == v@[i as int]);
            }
            let c = v[i];
            if text::is_alphanumeric(c) || c == '-' || c == '_' {
                out.push(c);
            }
            i += 1;
        }
        assert(v@.take(v@.len() as int) =~= v@);
        out
    }
}

/// A value that says something: trimmed, and absent where nothing is left.
pub open spec fn given(s: Option<Seq<char>>) -> Option<Seq<char>> {
    match s {
        Some(t) => if text::trim(t).len() == 0 {
            None
        } else {
            Some(text::trim(t))
        },
        None => None,
    }
}

/// The value trimmed, or `None` where nothing is left of it.
pub fn ne(s: Option<&str>) -> (r: Option<String>)
    ensures
        strings::opt(r) == given(strings::opt_str(s)),
{
    match s {
        Some(t) => {
            let v = text::trimmed(t);
            if v.as_str().is_empty() {
                None
            } else {
                Some(v)
            }
        },
        None => None,
    }
}

/// `ne` of a field.
pub fn ne_field(o: &Option<String>) -> (r: Option<String>)
    ensures
        strings::opt(r) == given(strings::opt(*o)),
{
    match o {
        Some(s) => ne(Some(s)),
        None => None,
    }
}

/// `ne` leaves a value that it gave as it is.
pub proof fn law_ne_is_idempotent(s: Option<Seq<char>>)
    ensures
        given(given(s)) == given(s),
{
    if let Some(t) = s {
        text::lemma_trim_idempotent(t);
    }
}

/// A user name taken apart at its first backslash. The domain is absent where there is no
/// backslash or nothing before it.
pub open spec fn domain_and_user(s: Seq<char>) -> (Option<Seq<char>>, Seq<char>) {
    match crate::scan::cut_at(s, '\\') {
        Some((d, u)) => (given(Some(d)), text::trim(u)),
        None => (None, s),
    }
}

/// Takes `DOMAIN\user` apart; a plain `user` has no domain.
pub fn split_domain_user(s: &str) -> (r: (Option<String>, String))
    ensures
        (strings::opt(r.0), r.1@) == domain_and_user(s@),
{
    match crate::scan::split_once(s, '\\') {
        Some((d, u)) => (ne(Some(&d)), text::trimmed(&u)),
        None => (None, s.to_owned()),
    }
}

// ---- paths ----

/// A path and a name below it. A name that starts with a slash is a path of its own.
pub open spec fn below(dir: Seq<char>, name: Seq<char>) -> Seq<char> {
    if name.len() > 0 && name[0] == '/' {
        name
    } else if dir.len() == 0 || dir.last() == '/' {
        dir + name
    } else {
        dir.push('/') + name
    }
}

/// A path and a name below it.
pub fn join_path(dir: &str, name: &str) -> (r: String)
    ensures
        r@ == below(dir@, name@),
{
    let n = text::chars(name);
    let d = text::chars(dir);
    if n.len() > 0 && n[0] == '/' {
        name.to_owned()
    } else {
        let mut out = dir.to_owned();
        if d.len() > 0 && d[d.len() - 1] != '/' {
            out.push('/');
        }
        out.append(name);
        out
    }
}

/// The user's configuration directory, as `dirs::config_dir` finds it in the environment, as text:
/// what of it is not UTF-8 becomes replacement characters. What it returns depends on the
/// environment, so nothing is said of it.
#[verifier::external_body]
fn user_config_dir() -> (r: Option<String>) {
    dirs::config_dir().map(|d| d.to_string_lossy().into_owned())
}

/// The program's own directory in the user's configuration directory, or in `/tmp` where there is
/// none.
pub open spec fn config_dir_text(base: Option<Seq<char>>) -> Seq<char> {
    match base {
        Some(b) => below(b, "vpncbar"@),
        None => below("/tmp"@, "vpncbar"@),
    }
}

/// The program's own directory in `base`, or in `/tmp` where there is none.
pub fn config_dir_in(base: Option<&str>) -> (r: String)
    ensures
        r@ == config_dir_text(strings::opt_str(base)),
{
    match base {
        Some(b) => join_path(b, "vpncbar"),
        None => join_path("/tmp", "vpncbar"),
    }
}

/// The program's own directory as text, for arguments and for the user, wherever the user's
/// configuration directory is. A file in it is opened by its path below the directory, which the
/// functions on files give where `config` is empty.
pub fn config_dir() -> (r: String)
    ensures
        exists|base: Option<Seq<char>>| r@ == #[trigger] config_dir_text(base),
{
    let base = user_config_dir();
    let r = match &base {
        Some(b) => config_dir_in(Some(b)),
        None => config_dir_in(None),
    };
    assert(r@ == config_dir_text(strings::opt(base)));
    r
}

/// The file of the profile list, in the program's directory `config`.
pub fn profiles_path(config: &str) -> (r: String)
    ensures
        r@ == below(config@, "profiles.json"@),
{
    join_path(config, "profiles.json")
}

/// The directory of pid files and session logs.
pub open spec fn run_dir_text(config: Seq<char>) -> Seq<char> {
    below(config, "run"@)
}

/// The directory of pid files and session logs, in the program's directory `config`.
pub fn run_dir(config: &str) -> (r: String)
    ensures
        r@ == run_dir_text(config@),
{
    join_path(config, "run")
}

/// The stem of a profile's pid file: its lasting name, a hyphen and its safe label.
pub open spec fn pid_stem(p: ProfileText) -> Seq<char> {
    ident_text(p) + "-"@ + safe_text(p.name)
}

/// A profile's pid file.
pub open spec fn pid_path(config: Seq<char>, p: ProfileText) -> Seq<char> {
    below(run_dir_text(config), pid_stem(p) + ".pid"@)
}

/// A profile's session log.
pub open spec fn log_path(config: Seq<char>, p: ProfileText) -> Seq<char> {
    below(run_dir_text(config), ident_text(p) + "_"@ + safe_text(p.name) + ".log"@)
}

/// What a profile's vpnc printed while it connected.
pub open spec fn boot_log_path(config: Seq<char>, p: ProfileText) -> Seq<char> {
    below(run_dir_text(config), ident_text(p) + "_"@ + safe_text(p.name) + ".boot.log"@)
}

/// What the network script recorded of a profile's tunnel.
pub open spec fn info_path(p: ProfileText) -> Seq<char> {
    below("/run/vpncbar"@, ident_text(p) + ".info"@)
}

/// The profile's pid file: `<uuid>-<name>.pid`.
pub fn pid_file(config: &str, p: &Profile) -> (r: String)
    ensures
        r@ == pid_path(config@, p@),
{
    let name = text::cat(&text::cat3(p.ident(), "-", &p.safe_name()), ".pid");
    join_path(&run_dir(config), &name)
}

/// The profile's session log: `<uuid>_<name>.log`.
pub fn log_file(config: &str, p: &Profile) -> (r: String)
    ensures
        r@ == log_path(config@, p@),
{
    let name = text::cat(&text::cat3(p.ident(), "_", &p.safe_name()), ".log");
    join_path(&run_dir(config), &name)
}

/// What the profile's vpnc printed before it went to the background.
pub fn boot_log_file(config: &str, p: &Profile) -> (r: String)
    ensures
        r@ == boot_log_path(config@, p@),
{
    let name = text::cat(&text::cat3(p.ident(), "_", &p.safe_name()), ".boot.log");
    join_path(&run_dir(config), &name)
}

/// What the network script recorded of the profile's tunnel.
pub fn info_file(p: &Profile) -> (r: String)
    ensures
        r@ == info_path(p@),
{
    join_path("/run/vpncbar", &text::cat(p.ident(), ".info"))
}

// ---- the list of profiles ----

/// What the profiles of a list hold.
pub open spec fn profile_texts(v: Seq<Profile>) -> Seq<ProfileText> {
    v.map_values(|p: Profile| p@)
}

/// What a profile is ordered by: its label in lower case.
pub open spec fn sort_key(p: ProfileText) -> Seq<char> {
    text::lowercase(p.name)
}

/// Whether a list is in the order of its labels.
pub open spec fn sorted(s: Seq<ProfileText>) -> bool {
    forall|i: int, j: int|
        0 <= i <= j < s.len() ==> text::at_most(sort_key(#[trigger] s[i]), sort_key(#[trigger] s[j]))
}

/// The profiles with a given sort key, in their order.
pub open spec fn keyed(s: Seq<ProfileText>, key: Seq<char>) -> Seq<ProfileText>
    decreases s.len(),
{
    if s.len() == 0 {
        Seq::empty()
    } else if sort_key(s.last()) == key {
        keyed(s.drop_last(), key).push(s.last())
    } else {
        keyed(s.drop_last(), key)
    }
}

/// Whether `r` is the list `s` put in order, with profiles of one key left in the order that they
/// had.
pub open spec fn ordering_of(r: Seq<ProfileText>, s: Seq<ProfileText>) -> bool {
    &&& sorted(r)
    &&& forall|key: Seq<char>| #[trigger] keyed(r, key) == keyed(s, key)
}

/// The profiles with another uuid than the given one, in their order.
pub open spec fn others(s: Seq<ProfileText>, uuid: Option<Seq<char>>) -> Seq<ProfileText>
    decreases s.len(),
{
    if s.len() == 0 {
        Seq::empty()
    } else if s.last().uuid == uuid {
        others(s.drop_last(), uuid)
    } else {
        others(s.drop_last(), uuid).push(s.last())
    }
}

proof fn lemma_keyed_concat(a: Seq<ProfileText>, b: Seq<ProfileText>, key: Seq<char>)
    ensures
        keyed(a + b, key) == keyed(a, key) + keyed(b, key),
    decreases b.len(),
{
    if b.len() == 0 {
        assert(a + b =~= a);
        assert(keyed(a, key) + keyed(b, key) =~= keyed(a, key));
    } else {
        lemma_keyed_concat(a, b.drop_last(), key);
        assert((a + b).drop_last() =~= a + b.drop_last());
        assert((a + b).last() == b.last());
        assert(keyed(a + b, key) =~= keyed(a, key) + keyed(b, key));
    }
}

proof fn lemma_keyed_none(s: Seq<ProfileText>, key: Seq<char>)
    requires
        forall|i: int| 0 <= i < s.len() ==> sort_key(#[trigger] s[i]) != key,
    ensures
        keyed(s, key) == Seq::<ProfileText>::empty(),
    decreases s.len(),
{
    if s.len() > 0 {
        assert(sort_key(s[s.len() - 1]) != key);
        lemma_keyed_none(s.drop_last(), key);
    }
}

proof fn lemma_keyed_member(s: Seq<ProfileText>, key: Seq<char>, i: int)
    requires
        0 <= i < s.len(),
        sort_key(s[i]) == key,
    ensures
        keyed(s, key).contains(s[i]),
    decreases s.len(),
{
    let k = keyed(s, key);
    if i == s.len() - 1 {
        assert(k.last() == s[i]);
    } else {
        lemma_keyed_member(s.drop_last(), key, i);
        let j = choose|j: int|
            0 <= j < keyed(s.drop_last(), key).len() && keyed(s.drop_last(), key)[j] == s[i];
        assert(k[j] == s[i]);
    }
}

proof fn lemma_keyed_part(s: Seq<ProfileText>, key: Seq<char>)
    ensures
        forall|i: int|
            0 <= i < keyed(s, key).len() ==> sort_key(#[trigger] keyed(s, key)[i]) == key
                && s.contains(keyed(s, key)[i]),
    decreases s.len(),
{
    if s.len() > 0 {
        let t = s.drop_last();
        lemma_keyed_part(t, key);
        assert forall|i: int| 0 <= i < keyed(s, key).len() implies sort_key(
            #[trigger] keyed(s, key)[i],
        ) == key && s.contains(keyed(s, key)[i]) by {
            if i < keyed(t, key).len() {
                assert(keyed(s, key)[i] == keyed(t, key)[i]);
                let j = choose|j: int| 0 <= j < t.len() && t[j] == keyed(t, key)[i];
                assert(s[j] == t[j]);
            } else {
                assert(s[s.len() - 1] == s.last());
            }
        }
    }
}

proof fn lemma_others_keyed(s: Seq<ProfileText>, uuid: Option<Seq<char>>, key: Seq<char>)
    ensures
        keyed(others(s, uuid), key) == others(keyed(s, key), uuid),
    decreases s.len(),
{
    if s.len() > 0 {
        let t = s.drop_last();
        lemma_others_keyed(t, uuid, key);
        assert(keyed(t, key).push(s.last()).drop_last() =~= keyed(t, key));
        assert(others(t, uuid).push(s.last()).drop_last() =~= others(t, uuid));
    }
}

proof fn lemma_others_idempotent(s: Seq<ProfileText>, uuid: Option<Seq<char>>)
    ensures
        others(others(s, uuid), uuid) == others(s, uuid),
        forall|i: int| 0 <= i < others(s, uuid).len() ==> (#[trigger] others(s, uuid)[i]).uuid != uuid,
    decreases s.len(),
{
    if s.len() > 0 {
        let t = s.drop_last();
        lemma_others_idempotent(t, uuid);
        assert(others(t, uuid).push(s.last()).drop_last() =~= others(t, uuid));
    }
}

/// A list has one ordering only.
pub proof fn lemma_ordering_unique(a: Seq<ProfileText>, b: Seq<ProfileText>)
    requires
        sorted(a),
        sorted(b),
        forall|key: Seq<char>| #[trigger] keyed(a, key) == keyed(b, key),
    ensures
        a == b,
    decreases a.len(),
{
    if a.len() == 0 {
        if b.len() > 0 {
            lemma_keyed_member(b, sort_key(b[0]), 0);
            assert(keyed(a, sort_key(b[0])) == keyed(b, sort_key(b[0])));
        }
        assert(a =~= b);
    } else {
        let ka = sort_key(a[0]);
        lemma_keyed_member(a, ka, 0);
        assert(keyed(a, ka) == keyed(b, ka));
        lemma_keyed_part(b, ka);
        assert(b.len() > 0);
        let kb = sort_key(b[0]);
        lemma_keyed_member(b, kb, 0);
        assert(keyed(a, kb) == keyed(b, kb));
        lemma_keyed_part(a, kb);
        let i = choose|i: int| 0 <= i < a.len() && a[i] == keyed(a, kb)[0];
        let j = choose|j: int| 0 <= j < b.len() && b[j] == keyed(b, ka)[0];
        assert(text::at_most(sort_key(a[0]), sort_key(a[i])));
        assert(text::at_most(sort_key(b[0]), sort_key(b[j])));
        text::lemma_at_most_antisymmetric(ka, kb);
        let ta = a.skip(1);
        let tb = b.skip(1);
        let ha = seq![a[0]];
        let hb = seq![b[0]];
        assert(a =~= ha + ta);
        assert(b =~= hb + tb);
        assert forall|key: Seq<char>| #[trigger] keyed(ta, key) == keyed(tb, key) by {
            lemma_keyed_concat(ha, ta, key);
            lemma_keyed_concat(hb, tb, key);
            lemma_keyed_one(a[0], key);
            lemma_keyed_one(b[0], key);
            assert(keyed(a, key) == keyed(b, key));
            let n = keyed(ha, key).len() as int;
            assert(keyed(a, key).skip(n) =~= keyed(ta, key));
            assert(keyed(b, key).skip(n) =~= keyed(tb, key));
        }
        lemma_keyed_concat(ha, ta, ka);
        lemma_keyed_concat(hb, tb, ka);
        lemma_keyed_one(a[0], ka);
        lemma_keyed_one(b[0], ka);
        assert((keyed(ha, ka) + keyed(ta, ka))[0] == a[0]);
        assert((keyed(hb, ka) + keyed(tb, ka))[0] == b[0]);
        assert(sorted(ta)) by {
            assert forall|i: int, j: int| 0 <= i <= j < ta.len() implies text::at_most(
                sort_key(#[trigger] ta[i]),
                sort_key(#[trigger] ta[j]),
            ) by {
                assert(ta[i] == a[i + 1] && ta[j] == a[j + 1]);
            }
        }
        assert(sorted(tb)) by {
            assert forall|i: int, j: int| 0 <= i <= j < tb.len() implies text::at_most(
                sort_key(#[trigger] tb[i]),
                sort_key(#[trigger] tb[j]),
            ) by {
                assert(tb[i] == b[i + 1] && tb[j] == b[j + 1]);
            }
        }
        lemma_ordering_unique(ta, tb);
    }
}

proof fn lemma_keyed_one(p: ProfileText, key: Seq<char>)
    ensures
        keyed(seq![p], key) == (if sort_key(p) == key {
            seq![p]
        } else {
            Seq::empty()
        }),
{
    let s = seq![p];
    assert(s.drop_last() =~= Seq::empty());
    assert(keyed(s.drop_last(), key) =~= Seq::empty());
    assert(keyed(s, key) =~= (if sort_key(p) == key {
        seq![p]
    } else {
        Seq::empty()
    }));
}

/// Putting a profile between those that come no later and those that come later keeps the order,
/// and is the ordering of the list with the profile at its end.
proof fn lemma_insert_in_order(s: Seq<ProfileText>, i: int, p: ProfileText)
    requires
        sorted(s),
        0 <= i <= s.len(),
        forall|j: int| 0 <= j < i ==> text::at_most(sort_key(#[trigger] s[j]), sort_key(p)),
        forall|j: int| i <= j < s.len() ==> !text::at_most(sort_key(#[trigger] s[j]), sort_key(p)),
    ensures
        ordering_of(s.insert(i, p), s.push(p)),
{
    let r = s.insert(i, p);
    let a = s.take(i);
    let b = s.skip(i);
    assert(r =~= a + seq![p] + b);
    assert(s.push(p) =~= a + b + seq![p]);
    assert forall|key: Seq<char>| #[trigger] keyed(r, key) == keyed(s.push(p), key) by {
        lemma_keyed_concat(a + seq![p], b, key);
        lemma_keyed_concat(a, seq![p], key);
        lemma_keyed_concat(a + b, seq![p], key);
        lemma_keyed_concat(a, b, key);
        lemma_keyed_one(p, key);
        if key == sort_key(p) {
            assert forall|j: int| 0 <= j < b.len() implies sort_key(#[trigger] b[j]) != key by {
                assert(b[j] == s[i + j]);
                text::lemma_at_most_total(key, key);
            }
            lemma_keyed_none(b, key);
        }
        assert(keyed(r, key) =~= keyed(s.push(p), key));
    }
    assert forall|x: int, y: int| 0 <= x <= y < r.len() implies text::at_most(
        sort_key(#[trigger] r[x]),
        sort_key(#[trigger] r[y]),
    ) by {
        if x == y {
            text::lemma_at_most_total(sort_key(r[x]), sort_key(r[y]));
        } else if y < i {
            assert(r[x] == s[x] && r[y] == s[y]);
        } else if y == i {
            assert(r[x] == s[x] && r[y] == p);
        } else if x < i {
            assert(r[x] == s[x] && r[y] == s[y - 1]);
        } else if x == i {
            assert(r[x] == p && r[y] == s[y - 1]);
            text::lemma_at_most_total(sort_key(s[y - 1]), sort_key(p));
        } else {
            assert(r[x] == s[x - 1] && r[y] == s[y - 1]);
        }
    }
}

/// Puts a profile in its place in a list that is in order.
fn insert_in_order(list: &mut Vec<Profile>, p: Profile)
    requires
        sorted(profile_texts(old(list)@)),
    ensures
        ordering_of(profile_texts(final(list)@), profile_texts(old(list)@).push(p@)),
{
    let key = text::to_lowercase(&p.name);
    let ghost s = profile_texts(list@);
    let mut i: usize = 0;
    while i < list.len()
        invariant
            i <= list@.len(),
            key@ == sort_key(p@),
            s == profile_texts(list@),
            forall|j: int| 0 <= j < i ==> text::at_most(sort_key(#[trigger] s[j]), key@),
        ensures
            i == list@.len() || !text::at_most(sort_key(s[i as int]), key@),
        decreases list.len() - i,
    {
        let other = text::to_lowercase(&list[i].name);
        assert(s[i as int] == list@[i as int]@);
        if !text::is_at_most(&other, &key) {
            break;
        }
        i += 1;
    }
    proof {
        assert forall|j: int| i <= j < s.len() implies !text::at_most(
            sort_key(#[trigger] s[j]),
            key@,
        ) by {
            if text::at_most(sort_key(s[j]), key@) {
                assert(text::at_most(sort_key(s[i as int]), sort_key(s[j])));
                text::lemma_at_most_transitive(sort_key(s[i as int]), sort_key(s[j]), key@);
            }
        }
        lemma_insert_in_order(s, i as int, p@);
    }
    list.insert(i, p);
    assert(profile_texts(list@) =~= s.insert(i as int, p@));
}

/// The profiles of a list in the order of their labels; those of one key keep their order.
pub fn sort_by_name(list: &Vec<Profile>) -> (r: Vec<Profile>)
    ensures
        ordering_of(profile_texts(r@), profile_texts(list@)),
{
    let mut out: Vec<Profile> = Vec::new();
    let ghost s = profile_texts(list@);
    let mut i: usize = 0;
    assert(profile_texts(out@) =~= s.take(0));
    while i < list.len()
        invariant
            i <= list@.len(),
            s == profile_texts(list@),
            ordering_of(profile_texts(out@), s.take(i as int)),
        decreases list.len() - i,
    {
        let ghost before = profile_texts(out@);
        let p = list[i].clone();
        assert(p@ == s[i as int]);
        insert_in_order(&mut out, p);
        proof {
            let t = s.take(i + 1);
            assert(t.drop_last() =~= s.take(i as int));
            assert(t.last() == p@);
            assert forall|key: Seq<char>| #[trigger] keyed(profile_texts(out@), key) == keyed(
                t,
                key,
            ) by {
                assert(before.push(p@).drop_last() =~= before);
                assert(keyed(before, key) == keyed(s.take(i as int), key));
            }
        }
        i += 1;
    }
    assert(s.take(s.len() as int) =~= s);
    out
}

/// The profiles of a list with another uuid than the given one.
fn without_uuid(list: &Vec<Profile>, uuid: &Option<String>) -> (r: Vec<Profile>)
    ensures
        profile_texts(r@) == others(profile_texts(list@), strings::opt(*uuid)),
{
    let mut out: Vec<Profile> = Vec::new();
    let ghost s = profile_texts(list@);
    let mut i: usize = 0;
    assert(profile_texts(out@) =~= others(s.take(0), strings::opt(*uuid)));
    while i < list.len()
        invariant
            i <= list@.len(),
            s == profile_texts(list@),
            profile_texts(out@) == others(s.take(i as int), strings::opt(*uuid)),
        decreases list.len() - i,
    {
        proof {
            let t = s.take(i + 1);
            assert(t.drop_last() =~= s.take(i as int));
            assert(t.last() == list@[i as int]@);
        }
        if !text::equal_opt(&list[i].uuid, uuid) {
            let ghost before = out@;
            let p = list[i].clone();
            out.push(p);
            assert(profile_texts(out@) =~= profile_texts(before).push(p@));
        }
        i += 1;
    }
    assert(s.take(s.len() as int) =~= s);
    out
}

/// A profile with a uuid: its own, or else a fresh one.
pub open spec fn with_uuid(p: ProfileText, fresh: Seq<char>) -> ProfileText {
    match p.uuid {
        Some(_) => p,
        None => ProfileText { uuid: Some(fresh), ..p },
    }
}

/// Puts a profile into the list, in the place of the one with its uuid where there is one. A
/// profile without a uuid gets one, made from `random`. The list stays in the order of its labels.
/// Returns the list and the profile as it stands there.
pub fn upsert(list: &Vec<Profile>, p: Profile, random: [u8; 16]) -> (r: (Vec<Profile>, Profile))
    ensures
        r.1@ == with_uuid(p@, uuid_text(random@)),
        ordering_of(
            profile_texts(r.0@),
            others(profile_texts(list@), r.1@.uuid).push(r.1@),
        ),
{
    let mut p = p;
    if p.uuid.is_none() {
        p.uuid = Some(uuid_v4(random));
    }
    let mut rest = without_uuid(list, &p.uuid);
    let ghost before = rest@;
    let entry = p.clone();
    rest.push(entry);
    assert(profile_texts(rest@) =~= profile_texts(before).push(p@));
    (sort_by_name(&rest), p)
}

/// Takes the profiles with `p`'s uuid out of the list; the others keep their order.
pub fn remove_profile(list: &Vec<Profile>, p: &Profile) -> (r: Vec<Profile>)
    ensures
        profile_texts(r@) == others(profile_texts(list@), p@.uuid),
{
    without_uuid(list, &p.uuid)
}

/// Putting the same profile in a second time changes nothing.
pub proof fn law_upsert_is_idempotent(
    list: Seq<ProfileText>,
    p: ProfileText,
    once: Seq<ProfileText>,
    twice: Seq<ProfileText>,
)
    requires
        ordering_of(once, others(list, p.uuid).push(p)),
        ordering_of(twice, others(once, p.uuid).push(p)),
    ensures
        twice == once,
{
    assert forall|key: Seq<char>| #[trigger] keyed(twice, key) == keyed(once, key) by {
        let a = others(list, p.uuid);
        let b = others(once, p.uuid);
        assert(keyed(twice, key) == keyed(b.push(p), key));
        assert(keyed(once, key) == keyed(a.push(p), key));
        assert(a.push(p).drop_last() =~= a);
        assert(b.push(p).drop_last() =~= b);
        lemma_others_keyed(once, p.uuid, key);
        lemma_others_keyed(list, p.uuid, key);
        lemma_others_idempotent(keyed(list, key), p.uuid);
        assert(keyed(a, key).push(p).drop_last() =~= keyed(a, key));
    }
    lemma_ordering_unique(twice, once);
}

/// After a profile was put in, it is the only one with its uuid.
pub proof fn law_upsert_leaves_one(list: Seq<ProfileText>, p: ProfileText, r: Seq<ProfileText>)
    requires
        ordering_of(r, others(list, p.uuid).push(p)),
    ensures
        r.contains(p),
        forall|i: int| 0 <= i < r.len() && (#[trigger] r[i]).uuid == p.uuid ==> r[i] == p,
{
    let s = others(list, p.uuid).push(p);
    let key = sort_key(p);
    lemma_keyed_member(s, key, s.len() - 1);
    assert(keyed(r, key) == keyed(s, key));
    lemma_keyed_part(r, key);
    let j = choose|j: int| 0 <= j < keyed(s, key).len() && keyed(s, key)[j] == p;
    assert(keyed(r, key)[j] == p);
    assert forall|i: int| 0 <= i < r.len() && (#[trigger] r[i]).uuid == p.uuid implies r[i]
        == p by {
        let k = sort_key(r[i]);
        lemma_keyed_member(r, k, i);
        assert(keyed(r, k) == keyed(s, k));
        lemma_keyed_part(s, k);
        let m = choose|m: int| 0 <= m < keyed(s, k).len() && keyed(s, k)[m] == r[i];
        assert(s.contains(keyed(s, k)[m]));
        let n = choose|n: int| 0 <= n < s.len() && s[n] == r[i];
        lemma_others_idempotent(list, p.uuid);
    }
}

/// Taking a profile out after it was put in leaves the ordering of the others.
pub proof fn law_remove_undoes_upsert(list: Seq<ProfileText>, p: ProfileText, r: Seq<ProfileText>)
    requires
        ordering_of(r, others(list, p.uuid).push(p)),
    ensures
        ordering_of(others(r, p.uuid), others(list, p.uuid)),
{
    let a = others(list, p.uuid);
    assert forall|key: Seq<char>| #[trigger] keyed(others(r, p.uuid), key) == keyed(a, key) by {
        lemma_others_keyed(r, p.uuid, key);
        assert(keyed(r, key) == keyed(a.push(p), key));
        assert(a.push(p).drop_last() =~= a);
        lemma_others_keyed(list, p.uuid, key);
        lemma_others_idempotent(keyed(list, key), p.uuid);
        assert(keyed(a, key).push(p).drop_last() =~= keyed(a, key));
    }
    lemma_others_sorted(r, p.uuid);
}

proof fn lemma_others_part(s: Seq<ProfileText>, uuid: Option<Seq<char>>)
    ensures
        forall|i: int| 0 <= i < others(s, uuid).len() ==> s.contains(#[trigger] others(s, uuid)[i]),
    decreases s.len(),
{
    if s.len() > 0 {
        let t = s.drop_last();
        lemma_others_part(t, uuid);
        assert forall|i: int| 0 <= i < others(s, uuid).len() implies s.contains(
            #[trigger] others(s, uuid)[i],
        ) by {
            if i < others(t, uuid).len() {
                assert(t.contains(others(t, uuid)[i]));
                let j = choose|j: int| 0 <= j < t.len() && t[j] == others(t, uuid)[i];
                assert(s[j] == t[j]);
            } else {
                assert(s[s.len() - 1] == s.last());
            }
        }
    }
}

proof fn lemma_others_sorted(s: Seq<ProfileText>, uuid: Option<Seq<char>>)
    requires
        sorted(s),
    ensures
        sorted(others(s, uuid)),
    decreases s.len(),
{
    if s.len() > 0 {
        let t = s.drop_last();
        assert(sorted(t)) by {
            assert forall|i: int, j: int| 0 <= i <= j < t.len() implies text::at_most(
                sort_key(#[trigger] t[i]),
                sort_key(#[trigger] t[j]),
            ) by {
                assert(t[i] == s[i] && t[j] == s[j]);
            }
        }
        lemma_others_sorted(t, uuid);
        lemma_others_part(t, uuid);
        let o = others(s, uuid);
        assert forall|i: int, j: int| 0 <= i <= j < o.len() implies text::at_most(
            sort_key(#[trigger] o[i]),
            sort_key(#[trigger] o[j]),
        ) by {
            if i == j {
                text::lemma_at_most_total(sort_key(o[i]), sort_key(o[j]));
            } else if j < others(t, uuid).len() {
                assert(o[i] == others(t, uuid)[i] && o[j] == others(t, uuid)[j]);
            } else {
                assert(o[i] == others(t, uuid)[i]);
                let k = choose|k: int| 0 <= k < t.len() && t[k] == others(t, uuid)[i];
                assert(s[k] == t[k] && s[s.len() - 1] == o[j]);
            }
        }
    }
}

// ---- uuids ----

/// The bytes of a version 4 uuid: random but for the version and the variant.
pub open spec fn uuid_bytes(b: Seq<u8>) -> Seq<u8> {
    b.update(6, (b[6] & 0x0f) | 0x40).update(8, (b[8] & 0x3f) | 0x80)
}

/// Bytes in hexadecimal.
pub open spec fn hex_text(b: Seq<u8>) -> Seq<char>
    decreases b.len(),
{
    if b.len() == 0 {
        Seq::empty()
    } else {
        hex_text(b.drop_last()) + number::hex(b.last())
    }
}

/// The uuid that sixteen random bytes make: groups of four, two, two, two and six bytes in
/// hexadecimal, with hyphens between.
pub open spec fn uuid_text(random: Seq<u8>) -> Seq<char> {
    let b = uuid_bytes(random);
    hex_text(b.subrange(0, 4)) + "-"@ + hex_text(b.subrange(4, 6)) + "-"@ + hex_text(
        b.subrange(6, 8),
    ) + "-"@ + hex_text(b.subrange(8, 10)) + "-"@ + hex_text(b.subrange(10, 16))
}

/// Appends the bytes from `from` up to `to` in hexadecimal.
fn push_hex_range(s: &mut String, b: &[u8; 16], from: usize, to: usize)
    requires
        from <= to <= 16,
    ensures
        final(s)@ == old(s)@ + hex_text(b@.subrange(from as int, to as int)),
{
    let ghost start = s@;
    let mut i: usize = from;
    assert(s@ =~= start + hex_text(b@.subrange(from as int, from as int)));
    while i < to
        invariant
            from <= i <= to <= 16,
            s@ == start + hex_text(b@.subrange(from as int, i as int)),
        decreases to - i,
    {
        proof {
            let t = b@.subrange(from as int, i + 1);
            assert(t.drop_last() =~= b@.subrange(from as int, i as int));
            assert(t.last() == b@[i as int]);
        }
        number::push_hex(s, b[i]);
        i += 1;
        assert(s@ =~= start + hex_text(b@.subrange(from as int, i as int)));
    }
}

/// A version 4 uuid of the variant of RFC 4122, made from sixteen random bytes.
pub fn uuid_v4(random: [u8; 16]) -> (r: String)
    ensures
        r@ == uuid_text(random@),
{
    let mut b = random;
    b[6] = (b[6] & 0x0f) | 0x40;
    b[8] = (b[8] & 0x3f) | 0x80;
    assert(b@ =~= uuid_bytes(random@));
    let mut s = String::new();
    push_hex_range(&mut s, &b, 0, 4);
    s.append("-");
    push_hex_range(&mut s, &b, 4, 6);
    s.append("-");
    push_hex_range(&mut s, &b, 6, 8);
    s.append("-");
    push_hex_range(&mut s, &b, 8, 10);
    s.append("-");
    push_hex_range(&mut s, &b, 10, 16);
    s
}

/// Each byte has two digits, in the order of the bytes.
pub proof fn lemma_hex_text(b: Seq<u8>)
    ensures
        hex_text(b).len() == 2 * b.len(),
        forall|i: int|
            0 <= i < b.len() ==> #[trigger] hex_text(b)[2 * i] == number::hex_digit(b[i] as int / 16),
        forall|i: int|
            0 <= i < b.len() ==> #[trigger] hex_text(b)[2 * i + 1] == number::hex_digit(
                b[i] as int % 16,
            ),
    decreases b.len(),
{
    if b.len() > 0 {
        lemma_hex_text(b.drop_last());
        let t = hex_text(b.drop_last());
        assert(hex_text(b) == t + number::hex(b.last()));
        assert forall|i: int| 0 <= i < b.len() implies #[trigger] hex_text(b)[2 * i]
            == number::hex_digit(b[i] as int / 16) by {
            if i < b.len() - 1 {
                assert(hex_text(b)[2 * i] == t[2 * i]);
            }
        }
        assert forall|i: int| 0 <= i < b.len() implies #[trigger] hex_text(b)[2 * i + 1]
            == number::hex_digit(b[i] as int % 16) by {
            if i < b.len() - 1 {
                assert(hex_text(b)[2 * i + 1] == t[2 * i + 1]);
            }
        }
    }
}

/// A lower-case hexadecimal digit.
pub open spec fn is_hex(c: char) -> bool {
    ('0' <= c && c <= '9') || ('a' <= c && c <= 'f')
}

proof fn lemma_hex_text_is_hex(b: Seq<u8>)
    ensures
        forall|i: int| 0 <= i < hex_text(b).len() ==> is_hex(#[trigger] hex_text(b)[i]),
{
    lemma_hex_text(b);
    assert forall|i: int| 0 <= i < hex_text(b).len() implies is_hex(#[trigger] hex_text(b)[i]) by {
        if i % 2 == 0 {
            assert(hex_text(b)[2 * (i / 2)] == number::hex_digit(b[i / 2] as int / 16));
        } else {
            assert(hex_text(b)[2 * (i / 2) + 1] == number::hex_digit(b[i / 2] as int % 16));
        }
    }
}

/// A uuid is thirty-six characters: hyphens at four places, elsewhere lower-case hexadecimal
/// digits, among them the version digit 4 and a variant digit from 8 to b.
pub proof fn law_uuid_shape(random: Seq<u8>)
    requires
        random.len() == 16,
    ensures
        uuid_text(random).len() == 36,
        forall|i: int|
            0 <= i < 36 ==> if i == 8 || i == 13 || i == 18 || i == 23 {
                (#[trigger] uuid_text(random)[i]) == '-'
            } else {
                is_hex(uuid_text(random)[i])
            },
        uuid_text(random)[14] == '4',
        ('8' <= uuid_text(random)[19] && uuid_text(random)[19] <= '9') || uuid_text(random)[19]
            == 'a' || uuid_text(random)[19] == 'b',
{
    reveal_strlit("-");
    let b = uuid_bytes(random);
    let g0 = b.subrange(0, 4);
    let g1 = b.subrange(4, 6);
    let g2 = b.subrange(6, 8);
    let g3 = b.subrange(8, 10);
    let g4 = b.subrange(10, 16);
    lemma_hex_text(g0);
    lemma_hex_text(g1);
    lemma_hex_text(g2);
    lemma_hex_text(g3);
    lemma_hex_text(g4);
    lemma_hex_text_is_hex(g0);
    lemma_hex_text_is_hex(g1);
    lemma_hex_text_is_hex(g2);
    lemma_hex_text_is_hex(g3);
    lemma_hex_text_is_hex(g4);
    let u = uuid_text(random);
    assert forall|i: int| 0 <= i < 36 implies if i == 8 || i == 13 || i == 18 || i == 23 {
        (#[trigger] u[i]) == '-'
    } else {
        is_hex(u[i])
    } by {
        if i < 8 {
            assert(u[i] == hex_text(g0)[i]);
        } else if 8 < i < 13 {
            assert(u[i] == hex_text(g1)[i - 9]);
        } else if 13 < i < 18 {
            assert(u[i] == hex_text(g2)[i - 14]);
        } else if 18 < i < 23 {
            assert(u[i] == hex_text(g3)[i - 19]);
        } else if i > 23 {
            assert(u[i] == hex_text(g4)[i - 24]);
        }
    }
    let v = random[6];
    let w = random[8];
    assert(((v & 0x0f) | 0x40) / 16 == 4) by (bit_vector);
    assert(8 <= ((w & 0x3f) | 0x80) / 16 <= 11) by (bit_vector);
    assert(g2[0] == b[6] && g3[0] == b[8]);
    assert(u[14] == hex_text(g2)[2 * 0int]);
    assert(u[19] == hex_text(g3)[2 * 0int]);
}

// ---- bytes where the system gives no random ones ----

/// One step of the generator.
pub open spec fn xorshift(x: u64) -> u64 {
    let a = x ^ (x << 13);
    let b = a ^ (a >> 7);
    b ^ (b << 17)
}

/// The generator's state after `n` steps from `seed`.
pub open spec fn xorshift_after(seed: u64, n: nat) -> u64
    decreases n,
{
    if n == 0 {
        seed
    } else {
        xorshift(xorshift_after(seed, (n - 1) as nat))
    }
}

/// Sixteen bytes from a seed, for where the system gives no random ones: the low byte of the
/// generator's state after each step.
pub fn fallback_bytes(seed: u64) -> (r: [u8; 16])
    ensures
        forall|i: int|
            0 <= i < 16 ==> #[trigger] r@[i] == (xorshift_after(seed, (i + 1) as nat) & 0xff) as u8,
{
    let mut out: [u8; 16] = [0; 16];
    let mut x: u64 = seed;
    let mut i: usize = 0;
    while i < 16
        invariant
            i <= 16,
            x == xorshift_after(seed, i as nat),
            forall|j: int|
                0 <= j < i ==> #[trigger] out@[j] == (xorshift_after(seed, (j + 1) as nat) & 0xff) as u8,
        decreases 16 - i,
    {
        x = x ^ (x << 13);
        x = x ^ (x >> 7);
        x = x ^ (x << 17);
        out[i] = (x & 0xff) as u8;
        i += 1;
    }
    out
}

/// Whether the uuids of profiles are of the length that uuids have, could stand in a file name, and
/// are all different.
pub open spec fn uuids_apart(profiles: Seq<ProfileText>) -> bool {
    &&& forall|i: int|
        0 <= i < profiles.len() ==> ((#[trigger] profiles[i]).uuid matches Some(u) ==> u.len()
            == 36 && !u.contains('/'))
    &&& forall|i: int, j: int|
        0 <= i < j < profiles.len() && (#[trigger] profiles[i]).uuid is Some ==> profiles[i].uuid
            != (#[trigger] profiles[j]).uuid
}

/// A uuid of this library's making is of that length, and could stand in a file name and between
/// quotes.
pub proof fn law_uuid_fits_names_and_quotes(random: Seq<u8>)
    requires
        random.len() == 16,
    ensures
        uuid_text(random).len() == 36,
        !uuid_text(random).contains('/'),
        !uuid_text(random).contains('\''),
{
    law_uuid_shape(random);
    let u = uuid_text(random);
    if u.contains('/') {
        let i = choose|i: int| 0 <= i < u.len() && u[i] == '/';
        assert(u[i] == '/');
    }
    if u.contains('\'') {
        let i = choose|i: int| 0 <= i < u.len() && u[i] == '\'';
        assert(u[i] == '\'');
    }
}

/// Profiles with different uuids of one length have pid files with different stems, whatever their
/// labels.
pub proof fn law_pid_files_are_apart(p: ProfileText, q: ProfileText)
    requires
        p.uuid is Some,
        q.uuid is Some,
        p.uuid.unwrap().len() == q.uuid.unwrap().len(),
        p.uuid != q.uuid,
    ensures
        pid_stem(p) != pid_stem(q),
{
    if pid_stem(p) == pid_stem(q) {
        let n = ident_text(p).len() as int;
        assert(pid_stem(p).take(n) =~= ident_text(p));
        assert(pid_stem(q).take(n) =~= ident_text(q));
    }
}

/// Whether a profile can be told by its pid file: it has a uuid that could stand in a file name,
/// and no profile before it has the same stem.
pub open spec fn told_by_stem(profiles: Seq<ProfileText>, i: int) -> bool {
    &&& 0 <= i < profiles.len()
    &&& profiles[i].uuid matches Some(u) && !u.contains('/')
    &&& forall|j: int|
        0 <= j < i && (#[trigger] profiles[j]).uuid is Some ==> pid_stem(profiles[j]) != pid_stem(
            profiles[i],
        )
}

/// Every profile with a uuid can be told by its pid file where the uuids are of this library's
/// making and all different.
pub proof fn law_uuids_tell_profiles(profiles: Seq<ProfileText>, i: int)
    requires
        0 <= i < profiles.len(),
        profiles[i].uuid is Some,
        uuids_apart(profiles),
    ensures
        told_by_stem(profiles, i),
{
    assert forall|j: int| 0 <= j < i && (#[trigger] profiles[j]).uuid is Some implies pid_stem(
        profiles[j],
    ) != pid_stem(profiles[i]) by {
        law_pid_files_are_apart(profiles[j], profiles[i]);
    }
}

/// The pid file of a profile lies in the directory for pid files, and its name is its stem with the
/// extension.
pub proof fn lemma_pid_path(config: Seq<char>, p: ProfileText)
    requires
        p.uuid matches Some(u) && !u.contains('/'),
    ensures
        scan::base_name(pid_path(config, p)) == pid_stem(p) + ".pid"@,
{
    let name = pid_stem(p) + ".pid"@;
    let dir = run_dir_text(config);
    reveal_strlit("run");
    reveal_strlit("-");
    reveal_strlit(".pid");
    law_safe_text_is_safe(p.name);
    assert(dir.last() == 'n');
    assert forall|i: int| 0 <= i < name.len() implies name[i] != '/' by {
        let u = ident_text(p);
        let safe = safe_text(p.name);
        if i < u.len() {
            assert(name[i] == u[i]);
            assert(u.contains(u[i]));
        } else if i == u.len() {
            assert(name[i] == '-');
        } else if i < u.len() + 1 + safe.len() {
            assert(name[i] == safe[i - u.len() - 1]);
            assert(safe.contains(safe[i - u.len() - 1]));
        } else {
            assert(name[i] == ".pid"@[i - u.len() - 1 - safe.len()]);
        }
    }
    assert(name[0] != '/');
    scan::lemma_base_name(dir, name);
}

} // verus!
