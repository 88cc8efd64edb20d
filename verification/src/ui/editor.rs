//! The editor of a profile: its title, its buttons, and what follows from what is chosen in it.

use crate::app::Cmd;
use crate::backend::openconnect;
use crate::backend::openconnect::Group;
use crate::model;
use crate::model::{Profile, ProfileText};
use crate::strings;
use crate::text;
use vstd::prelude::*;

verus! {

broadcast use strings::lemma_texts_push;

/// The key under which an editor is open: the profile's uuid. New profiles share one.
pub open spec fn key_text(p: Option<ProfileText>) -> Seq<char> {
    match p {
        Some(p) => match p.uuid {
            Some(u) => u,
            None => "__new__"@,
        },
        None => "__new__"@,
    }
}

/// The key under which an editor is open.
pub fn editor_key(p: Option<&Profile>) -> (r: String)
    ensures
        r@ == key_text(
            match p {
                Some(p) => Some(p@),
                None => None,
            },
        ),
{
    match p {
        Some(p) => match &p.uuid {
            Some(u) => u.clone(),
            None => "__new__".to_owned(),
        },
        None => "__new__".to_owned(),
    }
}

/// An editor stays the same one however its profile is edited, once it has a uuid.
pub proof fn law_one_editor_for_a_profile(before: ProfileText, after: ProfileText)
    requires
        before.uuid is Some,
        before.uuid == after.uuid,
    ensures
        key_text(Some(before)) == key_text(Some(after)),
{
}

/// The title of the window.
pub fn title(p: Option<&Profile>) -> (r: String)
    ensures
        r@ == match p {
            Some(p) => "Edit \u{201c}"@ + p@.name + "\u{201d}"@,
            None => "New VPN"@,
        },
{
    match p {
        Some(p) => text::cat3("Edit \u{201c}", &p.name, "\u{201d}"),
        None => "New VPN".to_owned(),
    }
}

/// The name of a profile's kind.
pub fn kind(p: &Profile) -> (r: &'static str)
    ensures
        r@ == (if model::openconnect_kind(p@.kind) {
            "openconnect"@
        } else {
            "vpnc"@
        }),
{
    if p.is_openconnect() {
        "openconnect"
    } else {
        "vpnc"
    }
}

// ---- the credentials that apply ----

/// Which entries for credentials can be filled in, and what is said to the choice.
#[derive(Debug)]
pub struct Credentials {
    pub secret: bool,
    pub ca_file: bool,
    pub client_cert: bool,
    pub note: Option<String>,
}

/// Whether an authentication mode needs a certificate.
pub open spec fn cert_mode(mode: Seq<char>) -> bool {
    mode == "cert"@ || mode == "hybrid"@
}

/// What is said where vpnc cannot do what was chosen.
pub open spec fn note_text(mode: Seq<char>) -> Seq<char> {
    "This vpnc build has no certificate support (not linked against GnuTLS), so \u{201c}"@ + mode
        + "\u{201d} mode won\u{2019}t take effect. Rebuild vpnc with GnuTLS to use it."@
}

/// Whether it matters for a choice what vpnc supports.
pub fn asks_support(oc: bool, mode: Option<&str>) -> (r: bool)
    ensures
        r == (!oc && match mode {
            Some(m) => cert_mode(m@),
            None => false,
        }),
{
    match mode {
        Some(m) => !oc && (text::equal(m, "cert") || text::equal(m, "hybrid")),
        None => false,
    }
}

/// Which entries for credentials apply to a kind and an authentication mode; openconnect has none
/// of these modes, and leaves them all open. `supported` says whether vpnc handles certificates.
pub fn apply_authmode(oc: bool, mode: Option<&str>, supported: bool) -> (r: Credentials)
    ensures
        ({
            let m = match mode {
                Some(m) => m@,
                None => "psk"@,
            };
            &&& r.secret == (oc || m == "psk"@)
            &&& r.ca_file == (oc || cert_mode(m))
            &&& r.client_cert == (oc || m == "cert"@)
            &&& strings::opt(r.note) == (if !oc && cert_mode(m) && !supported {
                Some(note_text(m))
            } else {
                None
            })
        }),
{
    if oc {
        return Credentials { secret: true, ca_file: true, client_cert: true, note: None };
    }
    let m: &str = match mode {
        Some(m) => m,
        None => "psk",
    };
    let cert: bool = text::equal(m, "cert");
    let hybrid: bool = text::equal(m, "hybrid");
    let note = if (cert || hybrid) && !supported {
        Some(
            text::cat3(
                "This vpnc build has no certificate support (not linked against GnuTLS), so \u{201c}",
                m,
                "\u{201d} mode won\u{2019}t take effect. Rebuild vpnc with GnuTLS to use it.",
            ),
        )
    } else {
        None
    };
    Credentials {
        secret: text::equal(m, "psk"),
        ca_file: cert || hybrid,
        client_cert: cert,
        note,
    }
}

// ---- the groups ----

/// The group that is chosen from those that were found: the one that was chosen before where it is
/// among them, else the first.
pub open spec fn group_choice(
    groups: Seq<(Seq<char>, bool)>,
    current: Option<Seq<char>>,
) -> Option<Seq<char>> {
    match current {
        Some(c) => if openconnect::labelled(groups, c) {
            Some(c)
        } else {
            first_label(groups)
        },
        None => first_label(groups),
    }
}

/// The label of the first group.
pub open spec fn first_label(groups: Seq<(Seq<char>, bool)>) -> Option<Seq<char>> {
    if groups.len() == 0 {
        None
    } else {
        Some(groups[0].0)
    }
}

/// Whether a group asks for a one-time code, where it is known.
pub open spec fn group_code(groups: Seq<(Seq<char>, bool)>, label: Seq<char>) -> Option<bool>
    decreases groups.len(),
{
    if groups.len() == 0 {
        None
    } else if groups.last().0 == label {
        Some(groups.last().1)
    } else {
        group_code(groups.drop_last(), label)
    }
}

/// Whether the group asks for a one-time code, where it is known.
pub fn needs_code(groups: &Vec<Group>, label: &str) -> (r: Option<bool>)
    ensures
        r == group_code(openconnect::group_texts(groups@), label@),
{
    let ghost all = openconnect::group_texts(groups@);
    let mut n: usize = groups.len();
    assert(all.take(n as int) =~= all);
    while n > 0
        invariant
            n <= groups@.len(),
            all == openconnect::group_texts(groups@),
            group_code(all, label@) == group_code(all.take(n as int), label@),
        decreases n,
    {
        let ghost t = all.take(n as int);
        assert(t.last() == (groups@[n - 1].0@, groups@[n - 1].1));
        assert(t.drop_last() =~= all.take(n - 1));
        if text::equal(&groups[n - 1].0, label) {
            return Some(groups[n - 1].1);
        }
        n -= 1;
    }
    None
}

/// The group that is chosen from those that were found. `current` is the one chosen before.
pub fn choose_group(groups: &Vec<Group>, current: Option<&str>) -> (r: Option<String>)
    ensures
        strings::opt(r) == group_choice(
            openconnect::group_texts(groups@),
            strings::opt_str(current),
        ),
{
    let ghost all = openconnect::group_texts(groups@);
    if let Some(c) = current {
        let mut i: usize = 0;
        while i < groups.len()
            invariant
                i <= groups@.len(),
                all == openconnect::group_texts(groups@),
                current == Some(c),
                forall|j: int| 0 <= j < i ==> (#[trigger] all[j]).0 != c@,
            decreases groups.len() - i,
        {
            assert(all[i as int].0 == groups@[i as int].0@);
            if text::equal(&groups[i].0, c) {
                return Some(c.to_owned());
            }
            i += 1;
        }
    }
    if groups.len() > 0 {
        assert(all[0].0 == groups@[0].0@);
        Some(groups[0].0.clone())
    } else {
        None
    }
}

/// A group that was chosen stays chosen for as long as the gateway has it, and what is chosen is
/// always one of the gateway's.
pub proof fn law_group_choice_stays(groups: Seq<(Seq<char>, bool)>, current: Option<Seq<char>>)
    ensures
        current matches Some(c) ==> openconnect::labelled(groups, c) ==> group_choice(
            groups,
            current,
        ) == current,
        group_choice(groups, current) matches Some(g) ==> openconnect::labelled(groups, g),
        group_choice(groups, current) is None <==> groups.len() == 0,
{
    if groups.len() > 0 {
        assert(groups[0].0 == groups[0].0);
    }
}

/// What is done with what a gateway told.
#[derive(Debug)]
pub enum Fetched {
    /// Its certificate is not trusted: ask whether to pin it, and fetch again where the user does.
    Trust { pin: String, question: String },
    /// Show its groups, with this one chosen.
    Show { group: Option<String> },
    /// Say that it told none.
    NoGroups,
}

/// The question whether to trust a gateway's certificate from now on.
pub open spec fn trust_text(gateway: Seq<char>, pin: Seq<char>) -> Seq<char> {
    "The gateway \u{201c}"@ + text::trim(gateway)
        + "\u{201d} presented a certificate that isn't trusted (self-signed, or from a private CA).\n\nFingerprint:\n"@
        + pin
        + "\n\nTrust and pin this certificate? It's saved to the profile and required on every future connection \u{2014} you'll be warned if it ever changes."@
}

/// What is done with what a gateway told: its groups, or the pin of a certificate that is not
/// trusted. `current` is the group chosen before.
pub fn fetched(
    gateway: &str,
    pin: Option<&str>,
    groups: &Vec<Group>,
    current: Option<&str>,
) -> (r: Fetched)
    ensures
        match r {
            Fetched::Trust { pin: p, question } => pin is Some && p@ == pin.unwrap()@ && question@
                == trust_text(gateway@, p@),
            Fetched::Show { group } => pin is None && groups@.len() > 0 && strings::opt(group)
                == group_choice(openconnect::group_texts(groups@), strings::opt_str(current)),
            Fetched::NoGroups => pin is None && groups@.len() == 0,
        },
{
    if let Some(p) = pin {
        let mut s = text::cat3(
            "The gateway \u{201c}",
            &text::trimmed(gateway),
            "\u{201d} presented a certificate that isn't trusted (self-signed, or from a private CA).\n\nFingerprint:\n",
        );
        s.append(p);
        s.append(
            "\n\nTrust and pin this certificate? It's saved to the profile and required on every future connection \u{2014} you'll be warned if it ever changes.",
        );
        return Fetched::Trust { pin: p.to_owned(), question: s };
    }
    if groups.len() == 0 {
        return Fetched::NoGroups;
    }
    Fetched::Show { group: choose_group(groups, current) }
}

// ---- the buttons ----

/// What the button for the connection says, and whether it can be pressed: there has to be a
/// profile, or a name for one.
pub fn connect_button(p: &Profile, up: bool, name: &str) -> (r: (&'static str, bool))
    ensures
        r.0@ == (if up {
            "Disconnect"@
        } else {
            "Connect"@
        }),
        r.1 == (p@.uuid is Some || name@.len() > 0),
{
    (
        if up {
            "Disconnect"
        } else {
            "Connect"
        },
        p.uuid.is_some() || !name.is_empty(),
    )
}

/// What pressing the button for the connection asks for, and the state that is waited for then.
pub fn toggle_connection(p: &Profile, up: bool) -> (r: (Cmd, bool))
    ensures
        match r.0 {
            Cmd::Disconnect(n) => up && n@ == p@.name,
            Cmd::Connect(n) => !up && n@ == p@.name,
            _ => false,
        },
        r.1 == !up,
{
    if up {
        (Cmd::Disconnect(p.name.clone()), false)
    } else {
        (Cmd::Connect(p.name.clone()), true)
    }
}

} // verus!
