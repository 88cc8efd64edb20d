//! Reading Cisco `.pcf` and vpnc `.conf` files.

use crate::args;
use crate::backend::vpnc;
use crate::model;
use crate::model::{Profile, ProfileText};
use crate::scan;
use crate::strings;
use crate::sys::{Host, Invocation, InvocationText, Output, CISCO_DECRYPT};
use crate::text;
use vstd::prelude::*;

verus! {

broadcast use strings::lemma_texts_push;

/// What a file says of a connection.
#[derive(Debug)]
pub struct ParsedConfig {
    pub profile: Profile,
    pub secret: Option<String>,
    pub password: Option<String>,
}

/// A secret in a file, which may be there obfuscated and then has to be decoded.
#[derive(Debug)]
pub struct Sealed {
    pub plain: Option<String>,
    pub encoded: Option<String>,
}

/// What a sealed secret holds, as texts.
#[verifier::ext_equal]
pub struct SealedText {
    pub plain: Option<Seq<char>>,
    pub encoded: Option<Seq<char>>,
}

impl View for Sealed {
    type V = SealedText;

    open spec fn view(&self) -> SealedText {
        SealedText { plain: strings::opt(self.plain), encoded: strings::opt(self.encoded) }
    }
}

/// What a file says of a connection, its secrets not decoded yet.
#[derive(Debug)]
pub struct SealedConfig {
    pub profile: Profile,
    pub secret: Sealed,
    pub password: Sealed,
}

/// What a file with sealed secrets says, as texts.
#[verifier::ext_equal]
pub struct ConfigText {
    pub profile: ProfileText,
    pub secret: SealedText,
    pub password: SealedText,
}

impl View for SealedConfig {
    type V = ConfigText;

    open spec fn view(&self) -> ConfigText {
        ConfigText {
            profile: self.profile@,
            secret: self.secret@,
            password: self.password@,
        }
    }
}

// ---- keys and values ----

/// The lines of a file; carriage returns do not count.
pub open spec fn file_lines(raw: Seq<char>) -> Seq<Seq<char>> {
    scan::split(scan::without(raw, '\r'), '\n')
}

/// Whether a line begins with a prefix, whatever the case of its letters.
pub open spec fn begins_with(prefix: Seq<char>) -> spec_fn(Seq<char>) -> bool {
    |l: Seq<char>| scan::begins(text::fold(l), prefix)
}

/// What follows a prefix on the first line that begins with it.
pub open spec fn rest_of(lines: Seq<Seq<char>>, prefix: Seq<char>) -> Option<Seq<char>> {
    match scan::first_where(lines, begins_with(prefix)) {
        Some(i) => Some(lines[i].skip(prefix.len() as int)),
        None => None,
    }
}

/// The value of a key in a `.pcf` file, as it stands there.
pub open spec fn pcf_value(lines: Seq<Seq<char>>, prefix: Seq<char>) -> Option<Seq<char>> {
    rest_of(lines, prefix)
}

/// The value of a key in a `.conf` file, trimmed.
pub open spec fn conf_value(lines: Seq<Seq<char>>, prefix: Seq<char>) -> Option<Seq<char>> {
    match rest_of(lines, prefix) {
        Some(v) => Some(text::trim(v)),
        None => None,
    }
}

/// A text, or the empty one.
pub open spec fn or_empty(o: Option<Seq<char>>) -> Seq<char> {
    match o {
        Some(s) => s,
        None => Seq::empty(),
    }
}

fn string_or_empty(o: Option<String>) -> (r: String)
    ensures
        r@ == or_empty(strings::opt(o)),
{
    match o {
        Some(s) => s,
        None => String::new(),
    }
}

fn pcf(lines: &Vec<String>, prefix: &str) -> (r: Option<String>)
    ensures
        strings::opt(r) == pcf_value(strings::texts(lines@), prefix@),
{
    let ghost all = strings::texts(lines@);
    let ghost f = begins_with(prefix@);
    proof {
        scan::lemma_first_where(all, f);
    }
    let pat = text::chars(prefix);
    let mut i: usize = 0;
    while i < lines.len()
        invariant
            i <= lines@.len(),
            all == strings::texts(lines@),
            f == begins_with(prefix@),
            pat@ == prefix@,
            forall|j: int| 0 <= j < i ==> !f(#[trigger] all[j]),
            match scan::first_where(all, f) {
                Some(k) => 0 <= k < all.len() && f(all[k]) && (forall|j: int|
                    0 <= j < k ==> !f(#[trigger] all[j])),
                None => forall|j: int| 0 <= j < all.len() ==> !f(#[trigger] all[j]),
            },
        decreases lines.len() - i,
    {
        assert(all[i as int] == lines@[i as int]@);
        let low = scan::folded(&lines[i]);
        if scan::starts_at(&low, &pat, 0) {
            assert(f(all[i as int]));
            let v = text::chars(&lines[i]);
            let n: usize = pat.len();
            assert(v@.subrange(n as int, v@.len() as int) =~= v@.skip(n as int));
            return Some(text::slice(&v, n, v.len()));
        }
        i += 1;
    }
    None
}

fn conf(lines: &Vec<String>, prefix: &str) -> (r: Option<String>)
    ensures
        strings::opt(r) == conf_value(strings::texts(lines@), prefix@),
{
    match pcf(lines, prefix) {
        Some(v) => Some(text::trimmed(&v)),
        None => None,
    }
}

// ---- secrets ----

/// Whether there is no text, or none in it.
pub open spec fn blank(o: Option<Seq<char>>) -> bool {
    match o {
        Some(s) => s.len() == 0,
        None => true,
    }
}

fn is_empty(o: &Option<String>) -> (r: bool)
    ensures
        r == blank(strings::opt(*o)),
{
    match o {
        Some(s) => s.as_str().is_empty(),
        None => true,
    }
}

/// A secret as it stands in a file; the obfuscated form counts where there is no plain one.
pub open spec fn sealed(plain: Option<Seq<char>>, encoded: Option<Seq<char>>) -> SealedText {
    SealedText {
        plain,
        encoded: if blank(plain) {
            encoded
        } else {
            None
        },
    }
}

fn seal(plain: Option<String>, encoded: Option<String>) -> (r: Sealed)
    ensures
        r@ == sealed(strings::opt(plain), strings::opt(encoded)),
{
    if is_empty(&plain) {
        Sealed { plain, encoded }
    } else {
        Sealed { plain, encoded: None }
    }
}

/// The command that decodes an obfuscated secret.
pub fn decrypt(encoded: &str) -> (r: Invocation)
    ensures
        r@ == (InvocationText { program: CISCO_DECRYPT@, args: seq![encoded@], stdin: None }),
{
    Invocation { program: CISCO_DECRYPT.to_owned(), args: args::list1(encoded), stdin: None }
}

/// A decoded secret: the decoder's trimmed output, where it succeeded and said something.
pub open spec fn decoded_text(o: Output) -> Option<Seq<char>> {
    if o.status == 0 {
        model::given(Some(o.out@))
    } else {
        None
    }
}

/// The decoded secret.
pub fn decrypted(o: &Output) -> (r: Option<String>)
    ensures
        strings::opt(r) == decoded_text(*o),
{
    if o.ok() {
        model::ne(Some(&o.out))
    } else {
        None
    }
}

/// A secret without its seal: the plain one, or what the decoder answered on the obfuscated one.
/// An empty secret is none.
pub open spec fn unsealed(s: SealedText, answer: Option<Output>) -> Option<Seq<char>> {
    let found = if s.encoded is Some {
        match answer {
            Some(o) => decoded_text(o),
            None => None,
        }
    } else {
        s.plain
    };
    if blank(found) {
        None
    } else {
        found
    }
}

fn unseal(s: &Sealed, answer: Option<&Output>) -> (r: Option<String>)
    ensures
        strings::opt(r) == unsealed(
            s@,
            match answer {
                Some(o) => Some(*o),
                None => None,
            },
        ),
{
    let found = match &s.encoded {
        Some(_) => match answer {
            Some(o) => decrypted(o),
            None => None,
        },
        None => text::copy_opt(&s.plain),
    };
    if is_empty(&found) {
        None
    } else {
        found
    }
}

// ---- the file ----

/// The name of an imported profile: the file's, in lower case and with hyphens for spaces.
pub open spec fn import_name(path: Seq<char>) -> Seq<char> {
    scan::exchanged(
        text::lowercase(
            match scan::file_stem_text(path) {
                Some(s) => s,
                None => "imported"@,
            },
        ),
        ' ',
        '-',
    )
}

/// A blank profile with what a file gives.
pub open spec fn import_profile(
    name: Seq<char>,
    gateway: Seq<char>,
    id: Seq<char>,
    username: Seq<char>,
) -> ProfileText {
    ProfileText { name, gateway, id, username, ..model::blank_profile() }
}

/// What a `.conf` file says.
pub open spec fn from_conf(lines: Seq<Seq<char>>, name: Seq<char>) -> ConfigText {
    ConfigText {
        profile: import_profile(
            name,
            or_empty(conf_value(lines, "ipsec gateway "@)),
            or_empty(conf_value(lines, "ipsec id "@)),
            or_empty(conf_value(lines, "xauth username "@)),
        ),
        secret: sealed(
            conf_value(lines, "ipsec secret "@),
            conf_value(lines, "ipsec obfuscated secret "@),
        ),
        password: SealedText { plain: conf_value(lines, "xauth password "@), encoded: None },
    }
}

/// What a `.pcf` file says.
pub open spec fn from_pcf(lines: Seq<Seq<char>>, name: Seq<char>) -> ConfigText {
    ConfigText {
        profile: import_profile(
            name,
            or_empty(pcf_value(lines, "host="@)),
            or_empty(pcf_value(lines, "groupname="@)),
            or_empty(pcf_value(lines, "username="@)),
        ),
        secret: sealed(pcf_value(lines, "grouppwd="@), pcf_value(lines, "enc_grouppwd="@)),
        password: sealed(
            pcf_value(lines, "userpassword="@),
            pcf_value(lines, "enc_userpassword="@),
        ),
    }
}

/// What a file says: it is a `.conf` file where it names a gateway in that form, else a `.pcf`
/// file where it names a host, else none of ours.
pub open spec fn config_text(raw: Seq<char>, path: Seq<char>) -> Option<ConfigText> {
    let lines = file_lines(raw);
    if rest_of(lines, "ipsec gateway "@) is Some {
        Some(from_conf(lines, import_name(path)))
    } else if rest_of(lines, "host="@) is Some {
        Some(from_pcf(lines, import_name(path)))
    } else {
        None
    }
}

fn imported(name: String, gateway: String, id: String, username: String) -> (r: Profile)
    ensures
        r@ == import_profile(name@, gateway@, id@, username@),
{
    let mut p = Profile::default();
    p.name = name;
    p.gateway = gateway;
    p.id = id;
    p.username = username;
    p
}

/// What the file at `path` says, which holds `raw`; nothing where it is neither kind of file.
/// What is sealed in it is for [`decrypt`].
pub fn parse_config_file(path: &str, raw: &str) -> (r: Option<SealedConfig>)
    ensures
        match r {
            Some(c) => config_text(raw@, path@) == Some(c@),
            None => config_text(raw@, path@) is None,
        },
{
    let lines = scan::pieces(&scan::remove_all(raw, '\r'), '\n');
    let base = match scan::file_stem(path) {
        Some(s) => s,
        None => "imported".to_owned(),
    };
    let name = scan::exchange(&text::to_lowercase(&base), ' ', '-');
    if pcf(&lines, "ipsec gateway ").is_some() {
        let profile = imported(
            name,
            string_or_empty(conf(&lines, "ipsec gateway ")),
            string_or_empty(conf(&lines, "ipsec id ")),
            string_or_empty(conf(&lines, "xauth username ")),
        );
        let secret = seal(conf(&lines, "ipsec secret "), conf(&lines, "ipsec obfuscated secret "));
        let password = Sealed { plain: conf(&lines, "xauth password "), encoded: None };
        Some(SealedConfig { profile, secret, password })
    } else if pcf(&lines, "host=").is_some() {
        let profile = imported(
            name,
            string_or_empty(pcf(&lines, "host=")),
            string_or_empty(pcf(&lines, "groupname=")),
            string_or_empty(pcf(&lines, "username=")),
        );
        let secret = seal(pcf(&lines, "grouppwd="), pcf(&lines, "enc_grouppwd="));
        let password = seal(pcf(&lines, "userpassword="), pcf(&lines, "enc_userpassword="));
        Some(SealedConfig { profile, secret, password })
    } else {
        None
    }
}

impl SealedConfig {
    /// What the file says, given the decoder's answers on what is sealed in it.
    pub fn unseal(self, secret: Option<&Output>, password: Option<&Output>) -> (r: ParsedConfig)
        ensures
            r.profile == self.profile,
            strings::opt(r.secret) == unsealed(
                self@.secret,
                match secret {
                    Some(o) => Some(*o),
                    None => None,
                },
            ),
            strings::opt(r.password) == unsealed(
                self@.password,
                match password {
                    Some(o) => Some(*o),
                    None => None,
                },
            ),
    {
        let secret = unseal(&self.secret, secret);
        let password = unseal(&self.password, password);
        ParsedConfig { profile: self.profile, secret, password }
    }
}

/// No secret comes out of a file empty.
pub proof fn law_no_secret_is_empty(s: SealedText, answer: Option<Output>)
    ensures
        unsealed(s, answer) matches Some(t) ==> t.len() > 0,
{
}

/// The decoder's answer counts only where a file has no plain secret.
pub proof fn law_plain_secret_wins(
    plain: Seq<char>,
    encoded: Option<Seq<char>>,
    answer: Option<Output>,
)
    requires
        plain.len() > 0,
    ensures
        unsealed(sealed(Some(plain), encoded), answer) == Some(plain),
{
}

/// Whether a text is one line.
pub open spec fn one_line(s: Seq<char>) -> bool {
    !s.contains('\n') && !s.contains('\r')
}

/// The lines of a file that was written line by line, each with its end, are those lines and an
/// empty one.
proof fn lemma_file_lines(lines: Seq<Seq<char>>)
    requires
        lines.len() > 0,
        forall|i: int| 0 <= i < lines.len() ==> one_line(#[trigger] lines[i]),
    ensures
        file_lines(scan::joined(lines, "\n"@) + "\n"@) == lines.push(Seq::empty()),
{
    reveal_strlit("\n");
    let all = lines.push(Seq::empty());
    let raw = scan::joined(lines, "\n"@) + "\n"@;
    assert("\n"@ =~= seq!['\n']);
    assert(all.drop_last() =~= lines);
    assert(scan::joined(all, "\n"@) =~= raw);
    let f = |c: char| c != '\r';
    assert forall|i: int, j: int| 0 <= i < all.len() && 0 <= j < all[i].len() implies f(
        #[trigger] all[i][j],
    ) by {
        assert(lines[i].contains(lines[i][j]));
    }
    scan::lemma_joined_part(all, "\n"@, f);
    assert(!raw.contains('\r')) by {
        if raw.contains('\r') {
            let i = choose|i: int| 0 <= i < raw.len() && raw[i] == '\r';
            assert(f(scan::joined(all, "\n"@)[i]));
        }
    }
    scan::lemma_without_none(raw, '\r');
    assert forall|i: int| 0 <= i < all.len() implies !(#[trigger] all[i]).contains('\n') by {
        if i < lines.len() {
            assert(all[i] == lines[i]);
        }
    }
    scan::law_joined_parts_split_back(all, '\n');
}

/// A line with another letter where the prefix has its own does not begin with the prefix.
proof fn lemma_other_key(line: Seq<char>, prefix: Seq<char>, k: int)
    requires
        0 <= k < prefix.len(),
        k < line.len(),
        text::ascii_lower(line[k]) != prefix[k],
    ensures
        !begins_with(prefix)(line),
{
    if scan::begins(text::fold(line), prefix) {
        assert(text::fold(line).take(prefix.len() as int)[k] == text::fold(line)[k]);
    }
}

/// A key on the first line that has it gives its value.
proof fn lemma_key(
    lines: Seq<Seq<char>>,
    i: int,
    key: Seq<char>,
    prefix: Seq<char>,
    value: Seq<char>,
)
    requires
        0 <= i < lines.len(),
        lines[i] == key + value,
        text::fold(key) == prefix,
        forall|j: int| 0 <= j < i ==> !begins_with(prefix)(#[trigger] lines[j]),
    ensures
        rest_of(lines, prefix) == Some(value),
{
    let f = begins_with(prefix);
    scan::lemma_first_where(lines, f);
    assert(text::fold(lines[i]).take(prefix.len() as int) =~= prefix) by {
        assert forall|j: int| 0 <= j < prefix.len() implies text::fold(lines[i])[j] == prefix[j] by {
            assert(lines[i][j] == key[j]);
            assert(text::fold(key)[j] == prefix[j]);
        }
    }
    assert(f(lines[i]));
    assert(key.len() == prefix.len());
    assert(lines[i].skip(prefix.len() as int) =~= value);
}

/// What vpnc is given for a profile with a group secret reads back from a file: the gateway's
/// address, the group, the user and both secrets, trimmed. Each directive has to be one line.
pub proof fn law_written_config_reads_back(
    h: Host,
    p: ProfileText,
    ip: Seq<char>,
    secret: Seq<char>,
    password: Seq<char>,
    path: Seq<char>,
)
    requires
        forall|i: int|
            #![trigger vpnc::config_lines(h, p, ip, "IPSec secret "@ + secret, Some(password))[i]]
            0 <= i < vpnc::config_lines(
                h,
                p,
                ip,
                "IPSec secret "@ + secret,
                Some(password),
            ).len() ==> one_line(
                vpnc::config_lines(h, p, ip, "IPSec secret "@ + secret, Some(password))[i],
            ),
    ensures
        ({
            let raw = scan::joined(
                vpnc::config_lines(h, p, ip, "IPSec secret "@ + secret, Some(password)),
                "\n"@,
            ) + "\n"@;
            let c = config_text(raw, path);
            &&& c is Some
            &&& c.unwrap().profile == import_profile(
                import_name(path),
                text::trim(ip),
                text::trim(p.id),
                text::trim(model::domain_and_user(p.username).1),
            )
            &&& c.unwrap().secret.plain == Some(text::trim(secret))
            &&& c.unwrap().password.plain == Some(text::trim(password))
        }),
{
    let lines = vpnc::config_lines(h, p, ip, "IPSec secret "@ + secret, Some(password));
    let login = vpnc::login_lines(p, ip);
    let domain = args::with_value("Domain "@, vpnc::login_domain(p));
    let at = 5 + domain.len() as int;
    lemma_file_lines(lines);
    let all = lines.push(Seq::empty());
    reveal_strlit("IPSec gateway ");
    reveal_strlit("IPSec ID ");
    reveal_strlit("IKE Authmode ");
    reveal_strlit("Xauth username ");
    reveal_strlit("IPSec secret ");
    reveal_strlit("Domain ");
    reveal_strlit("Xauth password ");
    reveal_strlit("ipsec gateway ");
    reveal_strlit("ipsec id ");
    reveal_strlit("xauth username ");
    reveal_strlit("ipsec secret ");
    reveal_strlit("xauth password ");
    assert(all[0] == login[0] && all[1] == login[1] && all[2] == login[2] && all[3] == login[3]);
    assert(all[4] == "IPSec secret "@ + secret);
    assert(domain.len() == 1 ==> all[5] == domain[0]);
    assert(all[at] == "Xauth password "@ + password);

    assert(text::fold("IPSec gateway "@) =~= "ipsec gateway "@);
    lemma_key(all, 0, "IPSec gateway "@, "ipsec gateway "@, ip);

    assert(text::fold("IPSec ID "@) =~= "ipsec id "@);
    lemma_other_key(all[0], "ipsec id "@, 6);
    lemma_key(all, 1, "IPSec ID "@, "ipsec id "@, p.id);

    assert(text::fold("Xauth username "@) =~= "xauth username "@);
    lemma_other_key(all[0], "xauth username "@, 0);
    lemma_other_key(all[1], "xauth username "@, 0);
    lemma_other_key(all[2], "xauth username "@, 0);
    lemma_key(
        all,
        3,
        "Xauth username "@,
        "xauth username "@,
        model::domain_and_user(p.username).1,
    );

    assert(text::fold("IPSec secret "@) =~= "ipsec secret "@);
    lemma_other_key(all[0], "ipsec secret "@, 6);
    lemma_other_key(all[1], "ipsec secret "@, 6);
    lemma_other_key(all[2], "ipsec secret "@, 1);
    lemma_other_key(all[3], "ipsec secret "@, 0);
    lemma_key(all, 4, "IPSec secret "@, "ipsec secret "@, secret);

    assert(text::fold("Xauth password "@) =~= "xauth password "@);
    lemma_other_key(all[0], "xauth password "@, 0);
    lemma_other_key(all[1], "xauth password "@, 0);
    lemma_other_key(all[2], "xauth password "@, 0);
    lemma_other_key(all[3], "xauth password "@, 6);
    lemma_other_key(all[4], "xauth password "@, 0);
    if domain.len() == 1 {
        lemma_other_key(all[5], "xauth password "@, 0);
    }
    lemma_key(all, at, "Xauth password "@, "xauth password "@, password);
}

} // verus!
