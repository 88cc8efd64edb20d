//! Reading `.pcf` and `.conf` files.

use crate::config_import;
use crate::config_import::SealedText;
use crate::laws::rows;
use crate::laws::texts;
use crate::model;
use crate::model::ProfileText;
use crate::scan;
use crate::sys::Output;
use crate::text;
use vstd::prelude::*;

verus! {

// ---- lines ----

/// The lines of a file are read in turn, whether they end in a line feed or in a carriage return
/// and a line feed.
pub proof fn law_file_is_read_line_by_line(line: Seq<char>, rest: Seq<char>)
    requires
        !line.contains('\n'),
        !line.contains('\r'),
    ensures
        config_import::file_lines(line + seq!['\n'] + rest) == seq![line]
            + config_import::file_lines(rest),
        config_import::file_lines(line + seq!['\r', '\n'] + rest) == seq![line]
            + config_import::file_lines(rest),
        config_import::file_lines(line) == seq![line],
{
    let r = scan::without(rest, '\r');
    let feed = seq!['\n'];
    let both = seq!['\r', '\n'];
    texts::law_characters_change_one_by_one(line + feed, rest, '\r', ' ');
    texts::law_characters_change_one_by_one(line, feed, '\r', ' ');
    scan::lemma_without_none(line, '\r');
    assert(!feed.contains('\r'));
    scan::lemma_without_none(feed, '\r');
    texts::law_characters_change_one_by_one(line + both, rest, '\r', ' ');
    texts::law_characters_change_one_by_one(line, both, '\r', ' ');
    texts::law_characters_change_one_by_one(seq!['\r'], feed, '\r', ' ');
    assert(seq!['\r'] + feed =~= both);
    rows::lemma_empty(feed);
    texts::law_pieces_add_up(line, r, '\n');
    scan::lemma_split_none(line, '\n');
}

/// Whether a line has a key, whatever the case of its letters.
pub open spec fn has_key(line: Seq<char>, key: Seq<char>) -> bool {
    key.len() <= line.len() && text::fold(line.take(key.len() as int)) == key
}

/// Whether lines say a value of a key: it is what follows the key on the first line that has it.
pub open spec fn says(lines: Seq<Seq<char>>, key: Seq<char>, value: Option<Seq<char>>) -> bool {
    match value {
        Some(v) => exists|i: int|
            0 <= i < lines.len() && has_key(#[trigger] lines[i], key) && lines[i].skip(
                key.len() as int,
            ) == v && (forall|j: int| 0 <= j < i ==> !has_key(#[trigger] lines[j], key)),
        None => forall|j: int| 0 <= j < lines.len() ==> !has_key(#[trigger] lines[j], key),
    }
}

proof fn lemma_has_key(line: Seq<char>, key: Seq<char>)
    ensures
        config_import::begins_with(key)(line) == has_key(line, key),
{
    if key.len() <= line.len() {
        assert(text::fold(line).subrange(0, key.len() as int) =~= text::fold(
            line.take(key.len() as int),
        ));
    }
}

proof fn lemma_says(lines: Seq<Seq<char>>, key: Seq<char>, value: Option<Seq<char>>)
    requires
        says(lines, key, value),
    ensures
        config_import::rest_of(lines, key) == value,
{
    let f = config_import::begins_with(key);
    scan::lemma_first_where(lines, f);
    assert forall|j: int| 0 <= j < lines.len() implies f(lines[j]) == has_key(
        #[trigger] lines[j],
        key,
    ) by {
        lemma_has_key(lines[j], key);
    }
    if let Some(v) = value {
        let i = choose|i: int|
            0 <= i < lines.len() && has_key(#[trigger] lines[i], key) && lines[i].skip(
                key.len() as int,
            ) == v && (forall|j: int| 0 <= j < i ==> !has_key(#[trigger] lines[j], key));
        assert(f(lines[i]));
        let k = scan::first_where(lines, f).unwrap();
        if k < i {
            assert(has_key(lines[k], key));
        }
        if i < k {
            assert(!f(lines[i]));
        }
    } else if let Some(k) = scan::first_where(lines, f) {
        assert(has_key(lines[k], key));
    }
}

// ---- secrets ----

/// What a secret comes to: a plain one that is not empty as it is, whatever else there is; else what
/// the decoder says of the obfuscated one, where it succeeds and says something; else none.
pub open spec fn comes_to(
    plain: Option<Seq<char>>,
    encoded: Option<Seq<char>>,
    answer: Option<Output>,
    r: Option<Seq<char>>,
) -> bool {
    let stands = plain matches Some(v) && v.len() > 0;
    &&& stands ==> r == plain
    &&& !stands && encoded is None ==> r is None
    &&& !stands && encoded is Some && answer is None ==> r is None
    &&& !stands && encoded is Some && (answer matches Some(o) && o.status != 0) ==> r is None
    &&& !stands && encoded is Some && (answer matches Some(o) && o.status == 0) ==> r
        == model::given(Some(answer.unwrap().out@))
}

/// What is handed to the decoder: the obfuscated secret, where there is no plain one.
pub open spec fn is_decoded(
    plain: Option<Seq<char>>,
    encoded: Option<Seq<char>>,
    s: SealedText,
) -> bool {
    let stands = plain matches Some(v) && v.len() > 0;
    s.encoded == (if stands {
        None
    } else {
        encoded
    })
}

// ---- files ----

/// A profile that has nothing but what a file gives.
pub open spec fn made_of(
    p: ProfileText,
    name: Seq<char>,
    gateway: Seq<char>,
    id: Seq<char>,
    username: Seq<char>,
) -> bool {
    &&& p.name == name
    &&& p.gateway == gateway
    &&& p.id == id
    &&& p.username == username
    &&& p.uuid is None
    &&& p.kind is None
    &&& p.authmode is None
    &&& p.domain is None
    &&& p.extra is None
    &&& p.enable_weak is None
    &&& (ProfileText {
        name: Seq::empty(),
        gateway: Seq::empty(),
        id: Seq::empty(),
        username: Seq::empty(),
        ..p
    }) == model::blank_profile()
}

/// A text that may be missing, or an empty one.
pub open spec fn or_nothing(o: Option<Seq<char>>) -> Seq<char> {
    if o is Some {
        o.unwrap()
    } else {
        Seq::empty()
    }
}

/// A file that names a host, and no gateway in the other form, gives what it says of the host, the
/// group, the user and both secrets, as it stands there.
pub proof fn law_pcf_file_is_read(
    raw: Seq<char>,
    path: Seq<char>,
    host: Seq<char>,
    group: Option<Seq<char>>,
    user: Option<Seq<char>>,
    secret: Option<Seq<char>>,
    sealed_secret: Option<Seq<char>>,
    password: Option<Seq<char>>,
    sealed_password: Option<Seq<char>>,
    answer: Option<Output>,
)
    requires
        says(config_import::file_lines(raw), "ipsec gateway "@, None),
        says(config_import::file_lines(raw), "host="@, Some(host)),
        says(config_import::file_lines(raw), "groupname="@, group),
        says(config_import::file_lines(raw), "username="@, user),
        says(config_import::file_lines(raw), "grouppwd="@, secret),
        says(config_import::file_lines(raw), "enc_grouppwd="@, sealed_secret),
        says(config_import::file_lines(raw), "userpassword="@, password),
        says(config_import::file_lines(raw), "enc_userpassword="@, sealed_password),
    ensures
        config_import::config_text(raw, path) matches Some(c) && {
            &&& made_of(
                c.profile,
                config_import::import_name(path),
                host,
                or_nothing(group),
                or_nothing(user),
            )
            &&& comes_to(
                secret,
                sealed_secret,
                answer,
                config_import::unsealed(c.secret, answer),
            )
            &&& is_decoded(secret, sealed_secret, c.secret)
            &&& comes_to(
                password,
                sealed_password,
                answer,
                config_import::unsealed(c.password, answer),
            )
            &&& is_decoded(password, sealed_password, c.password)
        },
{
    let lines = config_import::file_lines(raw);
    lemma_says(lines, "ipsec gateway "@, None);
    lemma_says(lines, "host="@, Some(host));
    lemma_says(lines, "groupname="@, group);
    lemma_says(lines, "username="@, user);
    lemma_says(lines, "grouppwd="@, secret);
    lemma_says(lines, "enc_grouppwd="@, sealed_secret);
    lemma_says(lines, "userpassword="@, password);
    lemma_says(lines, "enc_userpassword="@, sealed_password);
    lemma_given_says_something(answer);
}

proof fn lemma_given_says_something(answer: Option<Output>)
    ensures
        answer matches Some(o) ==> (model::given(Some(o.out@)) matches Some(t) ==> t.len() > 0),
{
}

/// What a value comes to where it is trimmed.
pub open spec fn trimmed(o: Option<Seq<char>>) -> Option<Seq<char>> {
    if o is Some {
        Some(text::trim(o.unwrap()))
    } else {
        None
    }
}

/// A file that names a gateway gives what it says of the gateway, the group, the user and both
/// secrets, trimmed. The password is never obfuscated there.
pub proof fn law_conf_file_is_read(
    raw: Seq<char>,
    path: Seq<char>,
    gateway: Seq<char>,
    group: Option<Seq<char>>,
    user: Option<Seq<char>>,
    secret: Option<Seq<char>>,
    sealed_secret: Option<Seq<char>>,
    password: Option<Seq<char>>,
    answer: Option<Output>,
)
    requires
        says(config_import::file_lines(raw), "ipsec gateway "@, Some(gateway)),
        says(config_import::file_lines(raw), "ipsec id "@, group),
        says(config_import::file_lines(raw), "xauth username "@, user),
        says(config_import::file_lines(raw), "ipsec secret "@, secret),
        says(config_import::file_lines(raw), "ipsec obfuscated secret "@, sealed_secret),
        says(config_import::file_lines(raw), "xauth password "@, password),
    ensures
        config_import::config_text(raw, path) matches Some(c) && {
            &&& made_of(
                c.profile,
                config_import::import_name(path),
                text::trim(gateway),
                or_nothing(trimmed(group)),
                or_nothing(trimmed(user)),
            )
            &&& comes_to(
                trimmed(secret),
                trimmed(sealed_secret),
                answer,
                config_import::unsealed(c.secret, answer),
            )
            &&& is_decoded(trimmed(secret), trimmed(sealed_secret), c.secret)
            &&& comes_to(
                trimmed(password),
                None,
                answer,
                config_import::unsealed(c.password, answer),
            )
            &&& c.password.encoded is None
        },
{
    let lines = config_import::file_lines(raw);
    lemma_says(lines, "ipsec gateway "@, Some(gateway));
    lemma_says(lines, "ipsec id "@, group);
    lemma_says(lines, "xauth username "@, user);
    lemma_says(lines, "ipsec secret "@, secret);
    lemma_says(lines, "ipsec obfuscated secret "@, sealed_secret);
    lemma_says(lines, "xauth password "@, password);
    lemma_given_says_something(answer);
}

/// A file that names neither a gateway nor a host is not read.
pub proof fn law_other_files_are_not_read(raw: Seq<char>, path: Seq<char>)
    requires
        says(config_import::file_lines(raw), "ipsec gateway "@, None),
        says(config_import::file_lines(raw), "host="@, None),
    ensures
        config_import::config_text(raw, path) is None,
{
    let lines = config_import::file_lines(raw);
    lemma_says(lines, "ipsec gateway "@, None);
    lemma_says(lines, "host="@, None);
}

/// An imported profile is named like its file, without the directory and the extension, in lower
/// case and with hyphens for spaces.
pub proof fn law_import_is_named_like_the_file(
    dir: Seq<char>,
    name: Seq<char>,
    ext: Seq<char>,
    i: int,
)
    requires
        0 <= i < name.len(),
        ext.len() > 0,
        !name.contains('/'),
        !ext.contains('/'),
        !ext.contains('.'),
        vstd::utf8::is_ascii_chars(name),
    ensures
        ({
            let n = config_import::import_name(dir + seq!['/'] + name + seq!['.'] + ext);
            &&& n.len() == name.len()
            &&& name[i] == ' ' ==> n[i] == '-'
            &&& 'A' <= name[i] && name[i] <= 'Z' ==> n[i] as int == name[i] as int + 32
            &&& name[i] != ' ' && !('A' <= name[i] && name[i] <= 'Z') ==> n[i] == name[i]
        }),
{
    texts::law_stem_is_the_name_before_the_dot(dir, name, ext);
    texts::law_ascii_is_put_in_lower_case(name);
    texts::law_characters_change_one_by_one(text::lowercase(name), Seq::empty(), ' ', '-');
}

/// A profile whose file has no name is called imported.
pub proof fn law_import_without_a_name(path: Seq<char>)
    requires
        scan::file_stem_text(path) is None,
    ensures
        config_import::import_name(path) == "imported"@,
{
    reveal_strlit("imported");
    let s = "imported"@;
    assert(vstd::utf8::is_ascii_chars(s));
    texts::law_ascii_is_put_in_lower_case(s);
    texts::law_characters_change_one_by_one(text::lowercase(s), Seq::empty(), ' ', '-');
    assert(config_import::import_name(path) =~= s);
}

} // verus!
