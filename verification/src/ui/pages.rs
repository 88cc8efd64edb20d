//! The pages of the editor: which entries stand where.

use crate::strings;
use crate::text;
use vstd::prelude::*;

verus! {

/// An entry of the editor.
#[derive(Clone, Copy, Debug, PartialEq, Eq, Structural)]
pub enum Field {
    Name,
    Gateway,
    Username,
    Password,
    Domains,
    ClientCert,
    Id,
    Secret,
    Authmode,
    AuthNote,
    CaFile,
    DhGroup,
    Pfs,
    NatMode,
    Vendor,
    Mtu,
    DpdTimeout,
    Debug,
    EnableWeak,
    SingleDes,
    NoEncryption,
    WeakAuth,
    OcAuthgroup,
    OcServerCert,
    OcOtp,
    OcProtocol,
    OcNoDtls,
    OcDpd,
    OcMtu,
    OcReconnect,
    OcDebug,
}

/// A line of a page: an entry, and what stands before it.
#[derive(Clone, Copy, Debug)]
pub struct Row {
    pub label: Option<&'static str>,
    pub field: Field,
}

/// The editor's entries, page by page. What is rarely needed stands apart on the first page.
#[derive(Debug)]
pub struct Pages {
    pub credentials: Vec<Row>,
    pub advanced: Vec<Row>,
    pub options: Vec<Row>,
}

/// A line, as texts.
pub open spec fn row_text(r: Row) -> (Option<Seq<char>>, Field) {
    (strings::opt_str(r.label), r.field)
}

/// What lines hold.
pub open spec fn row_texts(v: Seq<Row>) -> Seq<(Option<Seq<char>>, Field)> {
    v.map_values(|r: Row| row_text(r))
}

/// The first page.
pub open spec fn credentials_text(oc: bool) -> Seq<(Option<Seq<char>>, Field)> {
    if oc {
        seq![
            (Some("Name"@), Field::Name),
            (Some("Gateway"@), Field::Gateway),
            (Some("Auth group"@), Field::OcAuthgroup),
            (Some("Username"@), Field::Username),
            (Some("Password"@), Field::Password),
            (Some("VPN domains"@), Field::Domains),
            (None, Field::OcOtp),
        ]
    } else {
        seq![
            (Some("Name"@), Field::Name),
            (Some("Gateway"@), Field::Gateway),
            (Some("Group name"@), Field::Id),
            (Some("Group secret"@), Field::Secret),
            (Some("Username"@), Field::Username),
            (Some("Password"@), Field::Password),
            (Some("VPN domains"@), Field::Domains),
            (Some("IKE Authmode"@), Field::Authmode),
            (Some("CA file"@), Field::CaFile),
            (Some("Client cert"@), Field::ClientCert),
            (None, Field::AuthNote),
        ]
    }
}

/// What stands apart on the first page.
pub open spec fn advanced_text(oc: bool) -> Seq<(Option<Seq<char>>, Field)> {
    if oc {
        seq![
            (Some("Server cert"@), Field::OcServerCert),
            (Some("Client cert"@), Field::ClientCert),
        ]
    } else {
        Seq::empty()
    }
}

/// The second page.
pub open spec fn options_text(oc: bool) -> Seq<(Option<Seq<char>>, Field)> {
    if oc {
        seq![
            (Some("Protocol"@), Field::OcProtocol),
            (Some("DPD (s)"@), Field::OcDpd),
            (Some("MTU"@), Field::OcMtu),
            (Some("Reconnect (s)"@), Field::OcReconnect),
            (Some("Verbosity"@), Field::OcDebug),
            (None, Field::OcNoDtls),
        ]
    } else {
        seq![
            (Some("DH Group"@), Field::DhGroup),
            (Some("PFS"@), Field::Pfs),
            (Some("NAT-T Mode"@), Field::NatMode),
            (Some("Vendor"@), Field::Vendor),
            (Some("Interface MTU"@), Field::Mtu),
            (Some("DPD timeout (s)"@), Field::DpdTimeout),
            (Some("Debug"@), Field::Debug),
            (None, Field::EnableWeak),
            (None, Field::SingleDes),
            (None, Field::NoEncryption),
            (None, Field::WeakAuth),
        ]
    }
}

fn push_row(v: &mut Vec<Row>, label: Option<&'static str>, field: Field)
    ensures
        row_texts(final(v)@) == row_texts(old(v)@).push((strings::opt_str(label), field)),
{
    let ghost before = v@;
    v.push(Row { label, field });
    assert(row_texts(v@) =~= row_texts(before).push((strings::opt_str(label), field)));
}

fn no_rows() -> (v: Vec<Row>)
    ensures
        row_texts(v@) == Seq::<(Option<Seq<char>>, Field)>::empty(),
{
    let v: Vec<Row> = Vec::new();
    assert(row_texts(v@) =~= Seq::empty());
    v
}

fn credentials(oc: bool) -> (v: Vec<Row>)
    ensures
        row_texts(v@) == credentials_text(oc),
{
    let mut v = no_rows();
    push_row(&mut v, Some("Name"), Field::Name);
    push_row(&mut v, Some("Gateway"), Field::Gateway);
    if oc {
        push_row(&mut v, Some("Auth group"), Field::OcAuthgroup);
    } else {
        push_row(&mut v, Some("Group name"), Field::Id);
        push_row(&mut v, Some("Group secret"), Field::Secret);
    }
    push_row(&mut v, Some("Username"), Field::Username);
    push_row(&mut v, Some("Password"), Field::Password);
    push_row(&mut v, Some("VPN domains"), Field::Domains);
    if oc {
        push_row(&mut v, None, Field::OcOtp);
    } else {
        push_row(&mut v, Some("IKE Authmode"), Field::Authmode);
        push_row(&mut v, Some("CA file"), Field::CaFile);
        push_row(&mut v, Some("Client cert"), Field::ClientCert);
        push_row(&mut v, None, Field::AuthNote);
    }
    v
}

fn options(oc: bool) -> (v: Vec<Row>)
    ensures
        row_texts(v@) == options_text(oc),
{
    let mut v = no_rows();
    if oc {
        push_row(&mut v, Some("Protocol"), Field::OcProtocol);
        push_row(&mut v, Some("DPD (s)"), Field::OcDpd);
        push_row(&mut v, Some("MTU"), Field::OcMtu);
        push_row(&mut v, Some("Reconnect (s)"), Field::OcReconnect);
        push_row(&mut v, Some("Verbosity"), Field::OcDebug);
        push_row(&mut v, None, Field::OcNoDtls);
    } else {
        push_row(&mut v, Some("DH Group"), Field::DhGroup);
        push_row(&mut v, Some("PFS"), Field::Pfs);
        push_row(&mut v, Some("NAT-T Mode"), Field::NatMode);
        push_row(&mut v, Some("Vendor"), Field::Vendor);
        push_row(&mut v, Some("Interface MTU"), Field::Mtu);
        push_row(&mut v, Some("DPD timeout (s)"), Field::DpdTimeout);
        push_row(&mut v, Some("Debug"), Field::Debug);
        push_row(&mut v, None, Field::EnableWeak);
        push_row(&mut v, None, Field::SingleDes);
        push_row(&mut v, None, Field::NoEncryption);
        push_row(&mut v, None, Field::WeakAuth);
    }
    v
}

/// The pages for a kind of profile.
pub fn build_pages(kind: &str) -> (r: Pages)
    ensures
        row_texts(r.credentials@) == credentials_text(kind@ == "openconnect"@),
        row_texts(r.advanced@) == advanced_text(kind@ == "openconnect"@),
        row_texts(r.options@) == options_text(kind@ == "openconnect"@),
{
    let oc: bool = text::equal(kind, "openconnect");
    let mut advanced = no_rows();
    if oc {
        push_row(&mut advanced, Some("Server cert"), Field::OcServerCert);
        push_row(&mut advanced, Some("Client cert"), Field::ClientCert);
    }
    Pages { credentials: credentials(oc), advanced, options: options(oc) }
}

/// Whether what stands apart is shown at once: it is where something is filled in there.
pub fn advanced_expanded(server_cert: &str, client_cert: &str) -> (r: bool)
    ensures
        r == (server_cert@.len() > 0 || client_cert@.len() > 0),
{
    !server_cert.is_empty() || !client_cert.is_empty()
}

/// All entries of a kind of profile, in the order of the pages.
pub open spec fn fields(oc: bool) -> Seq<Field> {
    (credentials_text(oc) + advanced_text(oc) + options_text(oc)).map_values(
        |r: (Option<Seq<char>>, Field)| r.1,
    )
}

/// No entry stands in two places.
pub proof fn law_no_entry_twice(oc: bool)
    ensures
        fields(oc).no_duplicates(),
{
}

/// Both kinds have the entries for what profiles share, and apart from these no entry in common.
pub proof fn law_kinds_share_only_what_profiles_share(f: Field)
    ensures
        fields(true).contains(f) && fields(false).contains(f) <==> f is Name || f is Gateway
            || f is Username || f is Password || f is Domains || f is ClientCert,
{
    let a = fields(true);
    let b = fields(false);
    assert(a[0] is Name && a[1] is Gateway && a[3] is Username && a[4] is Password && a[5]
        is Domains && a[8] is ClientCert);
    assert(b[0] is Name && b[1] is Gateway && b[4] is Username && b[5] is Password && b[6]
        is Domains && b[9] is ClientCert);
}

} // verus!
