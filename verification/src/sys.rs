//! The machine that the program runs on: its tools, what they are asked and what they answer.

use crate::args;
use crate::model;
use crate::number;
use crate::scan;
use crate::strings;
use crate::text;
use crate::text_map::TextMap;
use vstd::prelude::*;

verus! {

broadcast use strings::lemma_texts_push;

// ---- the tools ----

pub const VPNC: &'static str = "/usr/bin/vpnc";

pub const PKEXEC: &'static str = "/usr/bin/pkexec";

pub const SECRET_TOOL: &'static str = "/usr/bin/secret-tool";

pub const KILL: &'static str = "/usr/bin/kill";

pub const CISCO_DECRYPT: &'static str = "/usr/bin/cisco-decrypt";

pub const JOURNALCTL: &'static str = "/usr/bin/journalctl";

pub const LDD: &'static str = "/usr/bin/ldd";

/// The installed network script, which records the tunnel's details and folds in the scoped
/// domains.
pub const VPNCBAR_SCRIPT: &'static str = "/usr/lib/vpncbar/vpncbar-script";

/// The installed helper that ends a tunnel after it has checked that its target is one.
pub const VPNCBAR_DISCONNECT: &'static str = "/usr/lib/vpncbar/vpncbar-disconnect";

/// The network script that the distribution brings.
pub const DISTRO_SCRIPT: &'static str = "/etc/vpnc/vpnc-script";

pub const OPENCONNECT: &'static str = "/usr/bin/openconnect";

pub const OPENCONNECT_LOCAL: &'static str = "/usr/local/bin/openconnect";

/// What the library has to know of the machine.
#[derive(Debug)]
pub struct Host {
    /// The program's own configuration directory, as text.
    pub config: String,
    /// The network script that the environment asks for.
    pub script: Option<String>,
    /// Whether the installed network script is there.
    pub script_installed: bool,
    /// Whether the installed disconnect helper is there.
    pub helper_installed: bool,
    /// Whether there is an openconnect among the distribution's programs.
    pub openconnect: bool,
    /// Whether there is an openconnect among the local programs.
    pub openconnect_local: bool,
}

/// The network script: the one that the environment asks for, else the installed one, else the
/// distribution's.
pub open spec fn script_path(h: Host) -> Seq<char> {
    match h.script {
        Some(s) => s@,
        None => if h.script_installed {
            VPNCBAR_SCRIPT@
        } else {
            DISTRO_SCRIPT@
        },
    }
}

/// The network script for vpnc and openconnect.
pub fn vpnc_script(h: &Host) -> (r: String)
    ensures
        r@ == script_path(*h),
{
    match &h.script {
        Some(s) => s.clone(),
        None => if h.script_installed {
            VPNCBAR_SCRIPT.to_owned()
        } else {
            DISTRO_SCRIPT.to_owned()
        },
    }
}

/// The installed disconnect helper, where it is there.
pub fn disconnect_helper(h: &Host) -> (r: Option<&'static str>)
    ensures
        r == (if h.helper_installed {
            Some(VPNCBAR_DISCONNECT)
        } else {
            None
        }),
{
    if h.helper_installed {
        Some(VPNCBAR_DISCONNECT)
    } else {
        None
    }
}

/// The openconnect to run: the distribution's, else a local one.
pub open spec fn openconnect_program(h: Host) -> Option<Seq<char>> {
    if h.openconnect {
        Some(OPENCONNECT@)
    } else if h.openconnect_local {
        Some(OPENCONNECT_LOCAL@)
    } else {
        None
    }
}

/// The first openconnect that is there.
pub fn openconnect_path(h: &Host) -> (r: Option<&'static str>)
    ensures
        strings::opt_str(r) == openconnect_program(*h),
{
    if h.openconnect {
        Some(OPENCONNECT)
    } else if h.openconnect_local {
        Some(OPENCONNECT_LOCAL)
    } else {
        None
    }
}

// ---- running a program ----

/// A program to run, with its arguments and what it reads.
#[derive(Debug)]
pub struct Invocation {
    pub program: String,
    pub args: Vec<String>,
    pub stdin: Option<String>,
}

/// What an invocation holds, as texts.
#[verifier::ext_equal]
pub struct InvocationText {
    pub program: Seq<char>,
    pub args: Seq<Seq<char>>,
    pub stdin: Option<Seq<char>>,
}

impl View for Invocation {
    type V = InvocationText;

    open spec fn view(&self) -> InvocationText {
        InvocationText {
            program: self.program@,
            args: strings::texts(self.args@),
            stdin: strings::opt(self.stdin),
        }
    }
}

/// What a program left behind: its exit status, its output and its complaints.
#[derive(Debug)]
pub struct Output {
    pub status: i32,
    pub out: String,
    pub err: String,
}

impl Output {
    /// Whether the program succeeded.
    pub fn ok(&self) -> (r: bool)
        ensures
            r == (self.status == 0),
    {
        self.status == 0
    }
}

/// What is asked of the machine to learn whether vpnc handles certificates.
pub fn certs_query() -> (r: Invocation)
    ensures
        r@ == (InvocationText { program: LDD@, args: seq![VPNC@], stdin: None }),
{
    Invocation { program: LDD.to_owned(), args: args::list1(VPNC), stdin: None }
}

/// Whether vpnc handles certificates: it does where it is linked against GnuTLS, as `ldd`'s answer
/// shows.
pub fn vpnc_supports_certs(ldd: &Output) -> (r: bool)
    ensures
        r == scan::has(text::fold(ldd.out@ + ldd.err@), "gnutls"@),
{
    scan::has_folded(&text::cat(&ldd.out, &ldd.err), "gnutls")
}

/// What is asked of a tool to learn its version.
pub fn version_query(bin: &str) -> (r: Invocation)
    ensures
        r@ == (InvocationText { program: bin@, args: seq!["--version"@], stdin: None }),
{
    Invocation { program: bin.to_owned(), args: args::list1("--version"), stdin: None }
}

/// The first line that says something, trimmed.
pub open spec fn first_given(lines: Seq<Seq<char>>) -> Option<Seq<char>>
    decreases lines.len(),
{
    if lines.len() == 0 {
        None
    } else if model::given(Some(lines[0])) is Some {
        model::given(Some(lines[0]))
    } else {
        first_given(lines.skip(1))
    }
}

/// A tool's version, from its answer; the complaints count where there is no output.
pub open spec fn version_text(out: Seq<char>, err: Seq<char>) -> Option<Seq<char>> {
    if text::trim(out).len() == 0 {
        first_given(scan::lines(err))
    } else {
        first_given(scan::lines(out))
    }
}

/// A tool's version: the first line that it says. Nothing where the tool is not there.
pub fn tool_version(answer: Option<&Output>) -> (r: Option<String>)
    ensures
        strings::opt(r) == match answer {
            Some(o) => version_text(o.out@, o.err@),
            None => None,
        },
{
    match answer {
        Some(o) => {
            let lines = if text::is_blank(&o.out) {
                scan::line_list(&o.err)
            } else {
                scan::line_list(&o.out)
            };
            let ghost all = strings::texts(lines@);
            let mut i: usize = 0;
            assert(all.skip(0) =~= all);
            while i < lines.len()
                invariant
                    i <= lines@.len(),
                    all == strings::texts(lines@),
                    answer == Some(o),
                    version_text(o.out@, o.err@) == first_given(all.skip(i as int)),
                decreases lines.len() - i,
            {
                assert(all.skip(i as int)[0] == lines@[i as int]@);
                assert(all.skip(i as int).skip(1) =~= all.skip(i + 1));
                let line = model::ne(Some(&lines[i]));
                if line.is_some() {
                    return line;
                }
                i += 1;
            }
            None
        },
        None => None,
    }
}

// ---- the gateway's address ----

/// A number from 0 to 255 in decimal, without needless zeros.
pub open spec fn octet(s: Seq<char>) -> bool {
    &&& 1 <= s.len() <= 3
    &&& number::all_digits(s)
    &&& number::value(s) <= 255
    &&& s.len() > 1 ==> s[0] != '0'
}

/// An IPv4 address: four such numbers with dots between.
pub open spec fn ipv4(s: Seq<char>) -> bool {
    let p = scan::split(s, '.');
    p.len() == 4 && octet(p[0]) && octet(p[1]) && octet(p[2]) && octet(p[3])
}

fn is_octet(s: &str) -> (r: bool)
    ensures
        r == octet(s@),
{
    let v = text::chars(s);
    if v.len() < 1 || v.len() > 3 || (v.len() > 1 && v[0] == '0') {
        return false;
    }
    if v[0] == '+' {
        assert(!text::ascii_digit(s@[0]));
        return false;
    }
    match number::parse_u32(s) {
        Some(n) => n <= 255,
        None => {
            proof {
                if number::all_digits(s@) && number::value(s@) <= 255 {
                    assert(number::parse(s@, u32::MAX as nat) is Some);
                }
            }
            false
        },
    }
}

/// Whether the string is an IPv4 address.
pub fn is_ipv4(s: &str) -> (r: bool)
    ensures
        r == ipv4(s@),
{
    let p = scan::pieces(s, '.');
    let ghost t = strings::texts(p@);
    assert(t == scan::split(s@, '.'));
    if p.len() != 4 {
        return false;
    }
    assert(t[0] == p@[0]@ && t[1] == p@[1]@ && t[2] == p@[2]@ && t[3] == p@[3]@);
    is_octet(&p[0]) && is_octet(&p[1]) && is_octet(&p[2]) && is_octet(&p[3])
}

/// The address to give vpnc: an address as it is, else what was found, else what was found last,
/// else the name.
pub open spec fn gateway_text(
    host: Seq<char>,
    found: Option<Seq<char>>,
    last: Option<Seq<char>>,
) -> Seq<char> {
    if ipv4(host) {
        host
    } else if let Some(ip) = found {
        ip
    } else if let Some(ip) = last {
        ip
    } else {
        host
    }
}

/// The address that a name had when it was last found.
pub open spec fn last_found(cache: Map<Seq<char>, String>, host: Seq<char>) -> Option<Seq<char>> {
    if cache.contains_key(host) {
        Some(cache[host]@)
    } else {
        None
    }
}

/// The gateway's address, so that a tunnel never depends on its own resolver. `found` is what a
/// lookup of the name gave; it is remembered for the time when a lookup fails.
pub fn resolve_gateway_ip(cache: &mut TextMap<String>, host: &str, found: Option<&str>) -> (r:
    String)
    ensures
        r@ == gateway_text(host@, strings::opt_str(found), last_found(old(cache)@, host@)),
        ipv4(host@) || found is None ==> final(cache)@ == old(cache)@,
        !ipv4(host@) && found is Some ==> {
            &&& last_found(final(cache)@, host@) == strings::opt_str(found)
            &&& final(cache)@.remove(host@) == old(cache)@.remove(host@)
        },
{
    if is_ipv4(host) {
        return host.to_owned();
    }
    match found {
        Some(ip) => {
            let ghost before = cache@;
            cache.insert(host.to_owned(), ip.to_owned());
            assert(cache@.remove(host@) =~= before.remove(host@));
            ip.to_owned()
        },
        None => match cache.get(host) {
            Some(ip) => ip.clone(),
            None => host.to_owned(),
        },
    }
}

/// A name that was found once resolves to that address for as long as lookups fail.
pub proof fn law_last_address_stays(host: Seq<char>, ip: Seq<char>, last: Option<Seq<char>>)
    requires
        !ipv4(host),
    ensures
        gateway_text(host, Some(ip), last) == ip,
        gateway_text(host, None, Some(ip)) == ip,
{
}

// ---- texts for the user ----

/// The last `n` characters of a text, or all of it where it has no more.
pub open spec fn tail_text(s: Seq<char>, n: nat) -> Seq<char> {
    s.skip(
        if s.len() > n {
            s.len() - n
        } else {
            0
        },
    )
}

/// The last `n` characters of the string.
pub fn tail_chars(s: &str, n: usize) -> (r: String)
    ensures
        r@ == tail_text(s@, n as nat),
        r@.len() <= n,
{
    let v = text::chars(s);
    let len: usize = v.len();
    let from: usize = if len > n {
        len - n
    } else {
        0
    };
    assert(v@.subrange(from as int, len as int) =~= v@.skip(from as int));
    text::slice(&v, from, len)
}

/// A quotient rounded to the nearest whole number, to the even one where two are as near.
pub open spec fn round_even(n: nat, d: nat) -> nat {
    let q = n / d;
    let r = n % d;
    if 2 * r < d || (2 * r == d && q % 2 == 0) {
        q
    } else {
        q + 1
    }
}

/// The distance between the numbers of 53 binary digits near `n`.
pub open spec fn spacing(n: nat) -> nat
    decreases n,
{
    if n < 0x20_0000_0000_0000 {
        1
    } else {
        2 * spacing(n / 2)
    }
}

/// `n` rounded to 53 binary digits.
pub open spec fn to_53_bits(n: nat) -> nat {
    spacing(n) * round_even(n, spacing(n))
}

/// The largest unit that `n` bytes fill, up to the fourth: how many bytes it has.
pub open spec fn unit_size(n: nat) -> nat {
    if n < 0x10_0000 {
        0x400
    } else if n < 0x4000_0000 {
        0x10_0000
    } else if n < 0x100_0000_0000 {
        0x4000_0000
    } else {
        0x100_0000_0000
    }
}

/// The name of the largest unit that `n` bytes fill.
pub open spec fn unit_name(n: nat) -> Seq<char> {
    if n < 0x10_0000 {
        "KB"@
    } else if n < 0x4000_0000 {
        "MB"@
    } else if n < 0x100_0000_0000 {
        "GB"@
    } else {
        "TB"@
    }
}

/// A number of bytes for the user: whole bytes below 1024, else with one decimal in the largest
/// unit that is filled, the nearest tenth to what 53 binary digits keep of the number.
pub open spec fn bytes_text(n: nat) -> Seq<char> {
    if n < 0x400 {
        number::decimal(n) + " B"@
    } else {
        let tenths = round_even(10 * to_53_bits(n), unit_size(n));
        number::decimal(tenths / 10) + "."@ + number::decimal(tenths % 10) + " "@ + unit_name(n)
    }
}

fn rounded(n: u128, d: u128) -> (r: u128)
    requires
        0 < d,
        d < 0x1_0000_0000_0000_0000,
        n < 0x1_0000_0000_0000_0000_0000,
    ensures
        r == round_even(n as nat, d as nat),
{
    let q: u128 = n / d;
    let r: u128 = n % d;
    assert(q <= n) by (nonlinear_arith)
        requires
            q == n / d,
            0 < d,
    ;
    if 2 * r < d || (2 * r == d && q % 2 == 0) {
        q
    } else {
        q + 1
    }
}

fn spacing_of(n: u64) -> (r: u64)
    ensures
        r == spacing(n as nat),
        1 <= r,
        r == 1 || 0x10_0000_0000_0000 * r <= n,
    decreases n,
{
    if n < 0x20_0000_0000_0000 {
        1
    } else {
        2 * spacing_of(n / 2)
    }
}

fn keep_53_bits(n: u64) -> (r: u128)
    ensures
        r == to_53_bits(n as nat),
        r <= 0x1_0000_0000_0000_1000,
{
    let g: u64 = spacing_of(n);
    let q: u128 = rounded(n as u128, g as u128);
    proof {
        assert(g <= 0x1000);
        assert(g * (n as nat / g as nat) <= n) by (nonlinear_arith)
            requires
                g >= 1,
        ;
        assert(g as int * (n as int / g as int + 1) == g as int * (n as int / g as int) + g)
            by (nonlinear_arith);
        assert(q * g == g * q) by (nonlinear_arith);
        if q == n as nat / g as nat {
            assert(g * q <= n);
        } else {
            assert(q == n as nat / g as nat + 1);
            assert(g * q <= n + g) by (nonlinear_arith)
                requires
                    q == n as int / g as int + 1,
                    g as int * (n as int / g as int) <= n,
            ;
        }
    }
    q * (g as u128)
}

/// A number of bytes for the user.
pub fn human_bytes(n: u64) -> (r: String)
    ensures
        r@ == bytes_text(n as nat),
{
    if n < 0x400 {
        return text::cat(&number::to_decimal(n), " B");
    }
    let (size, name): (u128, &str) = if n < 0x10_0000 {
        (0x400, "KB")
    } else if n < 0x4000_0000 {
        (0x10_0000, "MB")
    } else if n < 0x100_0000_0000 {
        (0x4000_0000, "GB")
    } else {
        (0x100_0000_0000, "TB")
    };
    let kept: u128 = keep_53_bits(n);
    let tenths: u128 = rounded(10 * kept, size);
    proof {
        let n10 = 10 * kept as int;
        let d = size as int;
        assert(tenths <= n10 / d + 1);
        assert(n10 / d <= n10 / 0x400) by (nonlinear_arith)
            requires
                d >= 0x400,
                n10 >= 0,
        ;
    }
    let t: u64 = tenths as u64;
    let mut s = number::to_decimal(t / 10);
    s.append(".");
    s.append(&number::to_decimal(t % 10));
    s.append(" ");
    s.append(name);
    s
}

} // verus!
