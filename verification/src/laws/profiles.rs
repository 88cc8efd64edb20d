//! Profiles: their names, their files, and the list that they are kept in.

use crate::laws::rows;
use crate::laws::texts;
use crate::model;
use crate::model::ProfileText;
use crate::number;
use crate::secrets;
use crate::text;
use vstd::prelude::*;

verus! {

// ---- the list ----

/// What is left of a list without the profiles of a uuid are those with another one, in their
/// order.
pub proof fn law_only_the_uuid_is_taken_out(s: Seq<ProfileText>, uuid: Option<Seq<char>>)
    ensures
        model::others(s, uuid) == s.filter(|p: ProfileText| p.uuid != uuid),
    decreases s.len(),
{
    reveal(Seq::filter);
    if s.len() > 0 {
        law_only_the_uuid_is_taken_out(s.drop_last(), uuid);
    } else {
        assert(model::others(s, uuid) =~= s.filter(|p: ProfileText| p.uuid != uuid));
    }
}

proof fn lemma_keyed_count(s: Seq<ProfileText>, x: ProfileText)
    ensures
        s.to_multiset().count(x) == model::keyed(s, model::sort_key(x)).to_multiset().count(x),
    decreases s.len(),
{
    broadcast use vstd::seq_lib::group_to_multiset_ensures;

    let key = model::sort_key(x);
    if s.len() > 0 {
        let t = s.drop_last();
        lemma_keyed_count(t, x);
        assert(t.push(s.last()) =~= s);
    } else {
        assert(s =~= Seq::empty());
        assert(model::keyed(s, key) =~= Seq::empty());
    }
}

/// Putting a list in order neither adds nor loses a profile, and orders the labels without regard to
/// case.
pub proof fn law_ordering_keeps_every_profile(r: Seq<ProfileText>, s: Seq<ProfileText>)
    requires
        model::ordering_of(r, s),
    ensures
        r.to_multiset() == s.to_multiset(),
        r.len() == s.len(),
        forall|x: ProfileText| r.contains(x) <==> s.contains(x),
        forall|i: int, j: int|
            0 <= i <= j < r.len() ==> text::at_most(
                text::lowercase((#[trigger] r[i]).name),
                text::lowercase((#[trigger] r[j]).name),
            ),
{
    broadcast use vstd::seq_lib::group_to_multiset_ensures;

    assert forall|x: ProfileText| r.to_multiset().count(x) == s.to_multiset().count(x) by {
        lemma_keyed_count(r, x);
        lemma_keyed_count(s, x);
        assert(model::keyed(r, model::sort_key(x)) == model::keyed(s, model::sort_key(x)));
    }
    assert(r.to_multiset() =~= s.to_multiset());
    assert(r.to_multiset().len() == r.len() && s.to_multiset().len() == s.len());
    assert forall|x: ProfileText| r.contains(x) <==> s.contains(x) by {
        assert(r.to_multiset().count(x) == s.to_multiset().count(x));
    }
    assert forall|i: int, j: int| 0 <= i <= j < r.len() implies text::at_most(
        text::lowercase((#[trigger] r[i]).name),
        text::lowercase((#[trigger] r[j]).name),
    ) by {
        assert(text::at_most(model::sort_key(r[i]), model::sort_key(r[j])));
    }
}

proof fn lemma_others_hold(s: Seq<ProfileText>, uuid: Option<Seq<char>>, x: ProfileText)
    ensures
        model::others(s, uuid).contains(x) <==> s.contains(x) && x.uuid != uuid,
    decreases s.len(),
{
    if s.len() > 0 {
        let t = s.drop_last();
        lemma_others_hold(t, uuid, x);
        let o = model::others(t, uuid);
        assert(t.push(s.last()) =~= s);
        rows::lemma_push_holds(t, s.last(), x);
        rows::lemma_push_holds(o, s.last(), x);
    }
}

/// Putting a profile into the list leaves every profile with another uuid there.
pub proof fn law_upsert_keeps_the_others(
    list: Seq<ProfileText>,
    p: ProfileText,
    r: Seq<ProfileText>,
    other: ProfileText,
)
    requires
        model::ordering_of(r, model::others(list, p.uuid).push(p)),
    ensures
        other.uuid != p.uuid ==> (r.contains(other) <==> list.contains(other)),
        r.contains(p),
{
    let s = model::others(list, p.uuid).push(p);
    law_ordering_keeps_every_profile(r, s);
    lemma_others_hold(list, p.uuid, other);
    rows::lemma_push_holds(model::others(list, p.uuid), p, other);
    rows::lemma_push_holds(model::others(list, p.uuid), p, p);
    assert(r.contains(other) <==> s.contains(other));
    assert(r.contains(p) <==> s.contains(p));
}

/// Taking a profile out of the list takes its uuid out and leaves every other profile.
pub proof fn law_remove_keeps_the_others(list: Seq<ProfileText>, p: ProfileText, x: ProfileText)
    ensures
        model::others(list, p.uuid).contains(x) <==> list.contains(x) && x.uuid != p.uuid,
{
    lemma_others_hold(list, p.uuid, x);
}

/// A profile gets a uuid where it has none, and nothing else of it changes.
pub proof fn law_uuid_is_given_once(p: ProfileText, fresh: Seq<char>, other: Seq<char>)
    ensures
        ({
            let q = model::with_uuid(p, fresh);
            &&& q.uuid is Some
            &&& p.uuid is None ==> q.uuid == Some(fresh)
            &&& p.uuid is Some ==> q == p
            &&& (ProfileText { uuid: p.uuid, ..q }) == p
            &&& model::with_uuid(q, other) == q
        }),
{
    assert((ProfileText { uuid: p.uuid, ..model::with_uuid(p, fresh) }) =~= p);
}

// ---- uuids ----

/// The digits of a uuid are those of the bytes that it is made of, two to a byte and in their order,
/// but for the six bits that say what kind of uuid it is.
pub proof fn law_uuid_spells_its_bytes(random: Seq<u8>, i: int)
    requires
        random.len() == 16,
        0 <= i < 16,
    ensures
        ({
            let at = 2 * i + (if i < 4 {
                0int
            } else if i < 6 {
                1
            } else if i < 8 {
                2
            } else if i < 10 {
                3
            } else {
                4
            });
            let u = model::uuid_text(random);
            &&& i != 6 && i != 8 ==> u.subrange(at, at + 2) == number::hex(random[i])
            &&& i == 6 ==> u[at + 1] == number::hex(random[i])[1]
            &&& i == 8 ==> u[at + 1] == number::hex(random[i])[1]
        }),
{
    reveal_strlit("-");
    let b = model::uuid_bytes(random);
    let g0 = b.subrange(0, 4);
    let g1 = b.subrange(4, 6);
    let g2 = b.subrange(6, 8);
    let g3 = b.subrange(8, 10);
    let g4 = b.subrange(10, 16);
    model::lemma_hex_text(g0);
    model::lemma_hex_text(g1);
    model::lemma_hex_text(g2);
    model::lemma_hex_text(g3);
    model::lemma_hex_text(g4);
    let u = model::uuid_text(random);
    let v = random[6];
    let w = random[8];
    assert(((v & 0x0f) | 0x40) % 16 == v % 16) by (bit_vector);
    assert(((w & 0x3f) | 0x80) % 16 == w % 16) by (bit_vector);
    if i < 4 {
        assert(u[2 * i] == model::hex_text(g0)[2 * i]);
        assert(u[2 * i + 1] == model::hex_text(g0)[2 * i + 1]);
        assert(u.subrange(2 * i, 2 * i + 2) =~= number::hex(b[i]));
    } else if i < 6 {
        let k = i - 4;
        assert(u[2 * i + 1] == model::hex_text(g1)[2 * k]);
        assert(u[2 * i + 2] == model::hex_text(g1)[2 * k + 1]);
        assert(u.subrange(2 * i + 1, 2 * i + 3) =~= number::hex(b[i]));
    } else if i < 8 {
        let k = i - 6;
        assert(u[2 * i + 2] == model::hex_text(g2)[2 * k]);
        assert(u[2 * i + 3] == model::hex_text(g2)[2 * k + 1]);
        assert(g2[k] == b[i]);
        assert(u.subrange(2 * i + 2, 2 * i + 4) =~= number::hex(b[i]));
    } else if i < 10 {
        let k = i - 8;
        assert(u[2 * i + 3] == model::hex_text(g3)[2 * k]);
        assert(u[2 * i + 4] == model::hex_text(g3)[2 * k + 1]);
        assert(g3[k] == b[i]);
        assert(u.subrange(2 * i + 3, 2 * i + 5) =~= number::hex(b[i]));
    } else {
        let k = i - 10;
        assert(u[2 * i + 4] == model::hex_text(g4)[2 * k]);
        assert(u[2 * i + 5] == model::hex_text(g4)[2 * k + 1]);
        assert(u.subrange(2 * i + 4, 2 * i + 6) =~= number::hex(b[i]));
    }
}

/// The digits of a byte spell it in base sixteen.
pub proof fn law_hexadecimal_spells_the_byte(b: u8, d: int)
    requires
        0 <= d < 16,
    ensures
        number::hex(b).len() == 2,
        d == b as int / 16 ==> number::hex(b)[0] == number::hex_digit(d),
        d == b as int % 16 ==> number::hex(b)[1] == number::hex_digit(d),
        d < 10 ==> number::hex_digit(d) as int == '0' as int + d,
        d >= 10 ==> number::hex_digit(d) as int == 'a' as int + d - 10,
{
}

// ---- names and files ----

/// Only a profile of that kind is one for openconnect; vpnc's where it does not say.
pub proof fn law_vpnc_is_the_default_kind(kind: Seq<char>)
    ensures
        model::openconnect_kind(Some("openconnect"@)),
        !model::openconnect_kind(None),
        !model::openconnect_kind(Some("vpnc"@)),
        model::openconnect_kind(Some(kind)) ==> kind == "openconnect"@,
{
    reveal_strlit("vpnc");
    reveal_strlit("openconnect");
    assert("vpnc"@.len() != "openconnect"@.len());
}

/// Of a label, letters, digits, hyphens and underscores go into a file's name, in their order, and
/// nothing else.
pub proof fn law_label_is_filtered(s: Seq<char>)
    ensures
        model::safe_text(s) == s.filter(
            |c: char| text::alphanumeric(c) || c == '-' || c == '_',
        ),
    decreases s.len(),
{
    let f = |c: char| text::alphanumeric(c) || c == '-' || c == '_';
    reveal(Seq::filter);
    if s.len() > 0 {
        law_label_is_filtered(s.drop_last());
    } else {
        assert(model::safe_text(s) =~= s.filter(f));
    }
}

/// The files of a profile lie in one directory below the program's, and carry the uuid, or the label
/// in its place, and the label.
pub proof fn law_files_carry_uuid_and_label(config: Seq<char>, p: ProfileText, uuid: Seq<char>)
    requires
        p.uuid == Some(uuid) || (p.uuid is None && p.name == uuid),
        uuid.len() > 0,
        uuid[0] != '/',
        config.len() > 0,
        config.last() != '/',
    ensures
        model::pid_path(config, p) == config + "/run/"@ + uuid + "-"@ + model::safe_text(p.name)
            + ".pid"@,
        model::log_path(config, p) == config + "/run/"@ + uuid + "_"@ + model::safe_text(p.name)
            + ".log"@,
        model::boot_log_path(config, p) == config + "/run/"@ + uuid + "_"@ + model::safe_text(
            p.name,
        ) + ".boot.log"@,
        model::info_path(p) == "/run/vpncbar/"@ + uuid + ".info"@,
{
    reveal_strlit("run");
    reveal_strlit("/run/");
    reveal_strlit("/run/vpncbar");
    reveal_strlit("/run/vpncbar/");
    let dir = model::run_dir_text(config);
    assert(dir.last() == 'n');
    assert(dir.push('/') =~= config + "/run/"@);
    let safe = model::safe_text(p.name);
    assert((uuid + "-"@ + safe + ".pid"@)[0] == uuid[0]);
    assert((uuid + "_"@ + safe + ".log"@)[0] == uuid[0]);
    assert((uuid + "_"@ + safe + ".boot.log"@)[0] == uuid[0]);
    assert((uuid + ".info"@)[0] == uuid[0]);
    assert("/run/vpncbar"@.push('/') =~= "/run/vpncbar/"@);
    assert(model::pid_path(config, p) =~= config + "/run/"@ + uuid + "-"@ + safe + ".pid"@);
    assert(model::log_path(config, p) =~= config + "/run/"@ + uuid + "_"@ + safe + ".log"@);
    assert(model::boot_log_path(config, p) =~= config + "/run/"@ + uuid + "_"@ + safe
        + ".boot.log"@);
    assert(model::info_path(p) =~= "/run/vpncbar/"@ + uuid + ".info"@);
}

/// The program's directory lies in the user's configuration directory, or in the one for temporary
/// files where there is none, and the list of profiles in it.
pub proof fn law_program_has_its_directory(base: Seq<char>)
    requires
        base.len() > 0,
        base.last() != '/',
    ensures
        model::config_dir_text(Some(base)) == base + "/vpncbar"@,
        model::config_dir_text(None) == "/tmp/vpncbar"@,
        model::below(base, "profiles.json"@) == base + "/profiles.json"@,
        model::run_dir_text(base) == base + "/run"@,
{
    reveal_strlit("vpncbar");
    reveal_strlit("/vpncbar");
    reveal_strlit("/tmp");
    reveal_strlit("/tmp/vpncbar");
    reveal_strlit("profiles.json");
    reveal_strlit("/profiles.json");
    reveal_strlit("run");
    reveal_strlit("/run");
    assert(model::config_dir_text(Some(base)) =~= base + "/vpncbar"@);
    assert(model::config_dir_text(None) =~= "/tmp/vpncbar"@);
    assert(model::below(base, "profiles.json"@) =~= base + "/profiles.json"@);
    assert(model::run_dir_text(base) =~= base + "/run"@);
}

/// A name lies below a directory with one slash between, and a path from the root is not below
/// anything.
pub proof fn law_one_slash_stands_between(dir: Seq<char>, name: Seq<char>)
    requires
        name.len() > 0,
        name[0] != '/',
        dir.len() > 0,
        dir.last() != '/',
    ensures
        model::below(dir, name) == dir + seq!['/'] + name,
        model::below(dir + seq!['/'], name) == dir + seq!['/'] + name,
        model::below(Seq::empty(), name) == name,
        model::below(dir, seq!['/'] + name) == seq!['/'] + name,
{
    assert(dir.push('/') + name =~= dir + seq!['/'] + name);
    rows::lemma_empty(name);
}

// ---- secrets ----

/// The secrets of a profile are kept under services that carry its uuid, or its label where it has
/// none, and what they are; those of two kinds are apart.
pub proof fn law_service_carries_the_uuid(p: ProfileText, kind: Seq<char>, uuid: Seq<char>)
    ensures
        p.uuid == Some(uuid) ==> secrets::service_text(p, kind) == "vpnc-"@ + uuid + "-"@ + kind,
        p.uuid is None ==> secrets::service_text(p, kind) == "vpnc-"@ + p.name + "-"@ + kind,
        secrets::service_text(p, "secret"@) != secrets::service_text(p, "password"@),
{
    reveal_strlit("secret");
    reveal_strlit("password");
    assert(secrets::service_text(p, "secret"@).len() + 2 == secrets::service_text(
        p,
        "password"@,
    ).len());
}

/// What keeps a secret and what forgets it name the same service, to the same tool.
pub proof fn law_kept_secret_can_be_forgotten(
    service: Seq<char>,
    account: Seq<char>,
    value: Seq<char>,
)
    ensures
        ({
            let s = secrets::store_text(service, account, value);
            let d = secrets::delete_text(service);
            &&& s.program == "/usr/bin/secret-tool"@ && d.program == "/usr/bin/secret-tool"@
            &&& s.args == seq![
                "store"@,
                "--label"@,
                service,
                "service"@,
                service,
                "account"@,
                account,
            ]
            &&& d.args == seq!["clear"@, "service"@, service]
            &&& s.stdin == Some(value) && d.stdin is None
        }),
{
}

/// A lookup that failed, or found nothing but line feeds, gives no secret; any other gives what it
/// found without the line feeds at its end.
pub proof fn law_secret_is_what_was_found(status: i32, value: Seq<char>, n: nat)
    requires
        value.len() > 0 ==> value.last() != '\n',
    ensures
        status != 0 ==> secrets::secret_text(status, value) is None,
        value.len() > 0 ==> secrets::secret_text(0, value + Seq::new(n, |i: int| '\n')) == Some(
            value,
        ),
        value.len() == 0 ==> secrets::secret_text(0, value + Seq::new(n, |i: int| '\n')) is None,
{
    texts::law_end_is_taken_off(value, '\n', n);
}

/// Profiles whose labels differ in case alone keep the order that they had.
pub proof fn law_equal_labels_keep_their_order(
    r: Seq<ProfileText>,
    s: Seq<ProfileText>,
    key: Seq<char>,
)
    requires
        model::ordering_of(r, s),
    ensures
        r.filter(|p: ProfileText| text::lowercase(p.name) == key) == s.filter(
            |p: ProfileText| text::lowercase(p.name) == key,
        ),
{
    lemma_keyed_filter(r, key);
    lemma_keyed_filter(s, key);
    assert(model::keyed(r, key) == model::keyed(s, key));
}

proof fn lemma_keyed_filter(s: Seq<ProfileText>, key: Seq<char>)
    ensures
        model::keyed(s, key) == s.filter(|p: ProfileText| text::lowercase(p.name) == key),
    decreases s.len(),
{
    reveal(Seq::filter);
    if s.len() > 0 {
        lemma_keyed_filter(s.drop_last(), key);
    } else {
        assert(model::keyed(s, key) =~= s.filter(
            |p: ProfileText| text::lowercase(p.name) == key,
        ));
    }
}

} // verus!
