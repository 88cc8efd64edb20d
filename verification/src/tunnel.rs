//! Live tunnels, as the process list and the kernel's files show them. A tunnel is a vpnc or
//! openconnect process; it is known to a profile by the pid file among its arguments.

use crate::model;
use crate::model::{Profile, ProfileText};
use crate::number;
use crate::scan;
use crate::strings;
use crate::text;
use crate::text_map::TextMap;
use vstd::prelude::*;

verus! {

broadcast use strings::lemma_texts_push;

// ---- processes ----

/// A process: its number, its arguments, and for how many seconds it has run where that is known.
#[derive(Debug)]
pub struct Process {
    pub pid: u32,
    pub argv: Vec<String>,
    pub elapsed: Option<u64>,
}

/// What a process holds, as texts.
pub struct ProcessText {
    pub pid: u32,
    pub argv: Seq<Seq<char>>,
    pub elapsed: Option<u64>,
}

impl View for Process {
    type V = ProcessText;

    open spec fn view(&self) -> ProcessText {
        ProcessText { pid: self.pid, argv: strings::texts(self.argv@), elapsed: self.elapsed }
    }
}

/// The text of bytes, with replacement characters where they are not UTF-8, as
/// `String::from_utf8_lossy` gives it.
pub uninterp spec fn utf8_lossy(b: Seq<u8>) -> Seq<char>;

/// Calls `String::from_utf8_lossy`. Its result is a function of the bytes alone, and their text
/// where they are UTF-8.
#[verifier::external_body]
fn decode_lossy(b: &Vec<u8>) -> (r: String)
    ensures
        r@ == utf8_lossy(b@),
        vstd::utf8::valid_utf8(b@) ==> r@ == vstd::utf8::decode_utf8(b@),
{
    String::from_utf8_lossy(b).into_owned()
}

/// The runs of bytes between zero bytes.
pub open spec fn split_zero(raw: Seq<u8>) -> Seq<Seq<u8>>
    decreases raw.len(),
{
    if raw.len() == 0 {
        seq![Seq::<u8>::empty()]
    } else {
        let before = split_zero(raw.drop_last());
        if raw.last() == 0 {
            before.push(Seq::empty())
        } else {
            before.drop_last().push(before.last().push(raw.last()))
        }
    }
}

/// The texts of the runs of bytes that are not empty, in their order.
pub open spec fn decoded(parts: Seq<Seq<u8>>) -> Seq<Seq<char>>
    decreases parts.len(),
{
    if parts.len() == 0 {
        Seq::empty()
    } else if parts.last().len() == 0 {
        decoded(parts.drop_last())
    } else {
        decoded(parts.drop_last()).push(utf8_lossy(parts.last()))
    }
}

/// The arguments of a process, from the bytes in which the kernel keeps them: each ends in a zero
/// byte, and empty ones are left out.
pub fn read_cmdline(raw: &Vec<u8>) -> (r: Vec<String>)
    ensures
        strings::texts(r@) == decoded(split_zero(raw@)),
{
    let mut out: Vec<String> = Vec::new();
    let mut part: Vec<u8> = Vec::new();
    let ghost mut done = Seq::<Seq<u8>>::empty();
    let mut i: usize = 0;
    assert(done.push(part@) =~= split_zero(raw@.take(0)));
    assert(strings::texts(out@) =~= decoded(done));
    while i < raw.len()
        invariant
            i <= raw@.len(),
            done.push(part@) == split_zero(raw@.take(i as int)),
            strings::texts(out@) == decoded(done),
        decreases raw.len() - i,
    {
        proof {
            let t = raw@.take(i + 1);
            assert(t.drop_last() =~= raw@.take(i as int));
            assert(t.last() == raw@[i as int]);
            assert(done.push(part@).drop_last() =~= done);
        }
        if raw[i] == 0 {
            let ghost grown = done.push(part@);
            if part.len() > 0 {
                out.push(decode_lossy(&part));
            }
            part = Vec::new();
            proof {
                assert(grown.drop_last() =~= done);
                done = grown;
            }
            assert(done.push(part@) =~= split_zero(raw@.take(i + 1)));
        } else {
            part.push(raw[i]);
        }
        i += 1;
    }
    assert(raw@.take(raw@.len() as int) =~= raw@);
    assert(done.push(part@).drop_last() =~= done);
    if part.len() > 0 {
        out.push(decode_lossy(&part));
    }
    out
}

/// Whether an argument names vpnc or openconnect.
pub open spec fn backend_bin(s: Seq<char>) -> bool {
    scan::base_name(s) == "vpnc"@ || scan::base_name(s) == "openconnect"@
}

/// Whether the argument names vpnc or openconnect.
pub fn is_backend_bin(arg: &str) -> (r: bool)
    ensures
        r == backend_bin(arg@),
{
    let base = scan::base(arg);
    text::equal(&base, "vpnc") || text::equal(&base, "openconnect")
}

/// Whether a process is one of a backend: an argument names it.
pub open spec fn runs_backend(argv: Seq<Seq<char>>) -> bool {
    exists|i: int| 0 <= i < argv.len() && backend_bin(#[trigger] argv[i])
}

/// Whether a process is one of a backend.
pub fn is_backend(argv: &Vec<String>) -> (r: bool)
    ensures
        r == runs_backend(strings::texts(argv@)),
{
    let ghost all = strings::texts(argv@);
    let mut i: usize = 0;
    while i < argv.len()
        invariant
            i <= argv@.len(),
            all == strings::texts(argv@),
            forall|j: int| 0 <= j < i ==> !backend_bin(#[trigger] all[j]),
        decreases argv.len() - i,
    {
        assert(all[i as int] == argv@[i as int]@);
        if is_backend_bin(&argv[i]) {
            return true;
        }
        i += 1;
    }
    false
}

/// The stem of the pid file among a process's arguments: the base name of what follows the first
/// `--pid-file`, without `.pid`.
pub open spec fn stem_of(argv: Seq<Seq<char>>) -> Option<Seq<char>> {
    match scan::first_where(argv, |a: Seq<char>| a == "--pid-file"@) {
        Some(i) => if i + 1 < argv.len() {
            scan::without_suffix(scan::base_name(argv[i + 1]), ".pid"@)
        } else {
            None
        },
        None => None,
    }
}

/// The stem of the pid file among the arguments.
fn pid_file_stem(argv: &Vec<String>) -> (r: Option<String>)
    ensures
        strings::opt(r) == stem_of(strings::texts(argv@)),
{
    let ghost all = strings::texts(argv@);
    let ghost f = |a: Seq<char>| a == "--pid-file"@;
    proof {
        scan::lemma_first_where(all, f);
    }
    let n: usize = argv.len();
    let mut i: usize = 0;
    while i < n
        invariant
            i <= n,
            n == argv@.len(),
            all == strings::texts(argv@),
            forall|j: int| 0 <= j < i ==> (#[trigger] all[j]) != "--pid-file"@,
        ensures
            i <= n,
            forall|j: int| 0 <= j < i ==> (#[trigger] all[j]) != "--pid-file"@,
            i < n ==> all[i as int] == "--pid-file"@,
        decreases n - i,
    {
        assert(all[i as int] == argv@[i as int]@);
        if text::equal(&argv[i], "--pid-file") {
            break;
        }
        i += 1;
    }
    assert(i < n ==> f(all[i as int]));
    assert(scan::first_where(all, f) == (if i < n {
        Some(i as int)
    } else {
        None::<int>
    })) by {
        if let Some(k) = scan::first_where(all, f) {
            assert(f(all[k]));
        }
    }
    if i < n && i + 1 < n {
        assert(all[i + 1] == argv@[i + 1]@);
        scan::strip_suffix(&scan::base(&argv[i + 1]), ".pid")
    } else {
        None
    }
}

/// Whether a stem is that of a profile's pid file.
pub open spec fn stem_is_uuids(p: ProfileText, stem: Seq<char>) -> bool {
    p.uuid is Some && stem == model::pid_stem(p)
}

/// The profile that a pid file's stem belongs to: the first whose uuid and label make the stem,
/// or else the first whose label is the stem.
pub open spec fn match_stem(profiles: Seq<ProfileText>, stem: Seq<char>) -> Option<int> {
    match scan::first_where(profiles, |p: ProfileText| stem_is_uuids(p, stem)) {
        Some(i) => Some(i),
        None => scan::first_where(profiles, |p: ProfileText| p.name == stem),
    }
}

/// The profile that a process is the tunnel of.
pub open spec fn owner(profiles: Seq<ProfileText>, argv: Seq<Seq<char>>) -> Option<int> {
    if runs_backend(argv) {
        match stem_of(argv) {
            Some(stem) => match_stem(profiles, stem),
            None => None,
        }
    } else {
        None
    }
}

fn find_stem(profiles: &Vec<Profile>, stem: &str) -> (r: Option<usize>)
    ensures
        r.is_some() == match_stem(model::profile_texts(profiles@), stem@).is_some(),
        r matches Some(i) ==> match_stem(model::profile_texts(profiles@), stem@) == Some(i as int)
            && i < profiles@.len(),
{
    let ghost all = model::profile_texts(profiles@);
    let ghost f = |p: ProfileText| stem_is_uuids(p, stem@);
    let ghost g = |p: ProfileText| p.name == stem@;
    proof {
        scan::lemma_first_where(all, f);
        scan::lemma_first_where(all, g);
    }
    let mut i: usize = 0;
    while i < profiles.len()
        invariant
            i <= profiles@.len(),
            all == model::profile_texts(profiles@),
            f == |p: ProfileText| stem_is_uuids(p, stem@),
            forall|j: int| 0 <= j < i ==> !f(#[trigger] all[j]),
            match scan::first_where(all, f) {
                Some(k) => 0 <= k < all.len() && f(all[k]) && (forall|j: int|
                    0 <= j < k ==> !f(#[trigger] all[j])),
                None => forall|j: int| 0 <= j < all.len() ==> !f(#[trigger] all[j]),
            },
        decreases profiles.len() - i,
    {
        let p = &profiles[i];
        assert(all[i as int] == p@);
        if p.uuid.is_some() {
            let own = text::cat3(p.ident(), "-", &p.safe_name());
            if text::equal(&own, stem) {
                assert(f(all[i as int]));
                return Some(i);
            }
        }
        assert(!f(all[i as int]));
        i += 1;
    }
    assert(scan::first_where(all, f) is None);
    let mut i: usize = 0;
    while i < profiles.len()
        invariant
            i <= profiles@.len(),
            all == model::profile_texts(profiles@),
            f == |p: ProfileText| stem_is_uuids(p, stem@),
            g == |p: ProfileText| p.name == stem@,
            scan::first_where(all, f) is None,
            forall|j: int| 0 <= j < i ==> !g(#[trigger] all[j]),
            match scan::first_where(all, g) {
                Some(k) => 0 <= k < all.len() && g(all[k]) && (forall|j: int|
                    0 <= j < k ==> !g(#[trigger] all[j])),
                None => forall|j: int| 0 <= j < all.len() ==> !g(#[trigger] all[j]),
            },
        decreases profiles.len() - i,
    {
        assert(all[i as int] == profiles@[i as int]@);
        if text::equal(&profiles[i].name, stem) {
            assert(g(all[i as int]));
            return Some(i);
        }
        assert(!g(all[i as int]));
        i += 1;
    }
    None
}

/// The profile that a process is the tunnel of, by its place in the list.
pub fn owner_of(profiles: &Vec<Profile>, argv: &Vec<String>) -> (r: Option<usize>)
    ensures
        r.is_some() == owner(model::profile_texts(profiles@), strings::texts(argv@)).is_some(),
        r matches Some(i) ==> owner(model::profile_texts(profiles@), strings::texts(argv@)) == Some(
            i as int,
        ) && i < profiles@.len(),
{
    if !is_backend(argv) {
        return None;
    }
    match pid_file_stem(argv) {
        Some(stem) => find_stem(profiles, &stem),
        None => None,
    }
}

// ---- the live tunnels ----

/// The live tunnels: process number and seconds up, by the label of the profile.
pub type Tunnels = TextMap<(u32, u64)>;

/// What processes hold.
pub open spec fn process_texts(v: Seq<Process>) -> Seq<ProcessText> {
    v.map_values(|p: Process| p@)
}

/// What the processes that pid files name hold.
pub open spec fn named_texts(v: Seq<Option<Process>>) -> Seq<Option<ProcessText>> {
    v.map_values(
        |o: Option<Process>|
            match o {
                Some(p) => Some(p@),
                None => None,
            },
    )
}

/// The tunnels that the process list shows. A process counts where it belongs to a profile and is
/// still there to tell its age; of two for one label the later counts.
pub open spec fn listed(profiles: Seq<ProfileText>, procs: Seq<ProcessText>) -> Map<
    Seq<char>,
    (u32, u64),
>
    decreases procs.len(),
{
    if procs.len() == 0 {
        Map::empty()
    } else {
        let before = listed(profiles, procs.drop_last());
        let p = procs.last();
        match (owner(profiles, p.argv), p.elapsed) {
            (Some(i), Some(secs)) => before.insert(profiles[i].name, (p.pid, secs)),
            _ => before,
        }
    }
}

/// The tunnels with those added that only a pid file shows: for each profile in turn whose label
/// has none yet, the process that its pid file names, where that is one of a backend.
pub open spec fn with_named(
    found: Map<Seq<char>, (u32, u64)>,
    profiles: Seq<ProfileText>,
    named: Seq<Option<ProcessText>>,
) -> Map<Seq<char>, (u32, u64)>
    decreases profiles.len(),
{
    if profiles.len() == 0 {
        found
    } else {
        let before = with_named(found, profiles.drop_last(), named);
        let name = profiles.last().name;
        match named[profiles.len() - 1] {
            Some(p) => match p.elapsed {
                Some(secs) => if !before.contains_key(name) && runs_backend(p.argv) {
                    before.insert(name, (p.pid, secs))
                } else {
                    before
                },
                None => before,
            },
            None => before,
        }
    }
}

/// The live tunnels that the process list and the pid files show.
pub open spec fn live(
    profiles: Seq<ProfileText>,
    procs: Seq<ProcessText>,
    named: Seq<Option<ProcessText>>,
) -> Map<Seq<char>, (u32, u64)> {
    with_named(listed(profiles, procs), profiles, named)
}

/// The live tunnels. `procs` are the processes that run, and `named` is for each profile the
/// process that its pid file names.
pub fn connected_tunnels(
    profiles: &Vec<Profile>,
    procs: &Vec<Process>,
    named: &Vec<Option<Process>>,
) -> (r: Tunnels)
    requires
        named@.len() == profiles@.len(),
    ensures
        r@ == live(
            model::profile_texts(profiles@),
            process_texts(procs@),
            named_texts(named@),
        ),
{
    let mut found: Tunnels = TextMap::new();
    let ghost ps = model::profile_texts(profiles@);
    let ghost all = process_texts(procs@);
    let ghost ns = named_texts(named@);
    let mut i: usize = 0;
    assert(all.take(0) =~= Seq::empty());
    while i < procs.len()
        invariant
            i <= procs@.len(),
            ps == model::profile_texts(profiles@),
            all == process_texts(procs@),
            found@ == listed(ps, all.take(i as int)),
        decreases procs.len() - i,
    {
        let p = &procs[i];
        proof {
            let t = all.take(i + 1);
            assert(t.drop_last() =~= all.take(i as int));
            assert(t.last() == p@);
        }
        if let Some(k) = owner_of(profiles, &p.argv) {
            assert(ps[k as int] == profiles@[k as int]@);
            if let Some(secs) = p.elapsed {
                found.insert(profiles[k].name.clone(), (p.pid, secs));
            }
        }
        i += 1;
    }
    assert(all.take(all.len() as int) =~= all);
    let ghost base = found@;
    let mut i: usize = 0;
    assert(ps.take(0) =~= Seq::empty());
    while i < profiles.len()
        invariant
            i <= profiles@.len(),
            named@.len() == profiles@.len(),
            ps == model::profile_texts(profiles@),
            ns == named_texts(named@),
            found@ == with_named(base, ps.take(i as int), ns),
        decreases profiles.len() - i,
    {
        proof {
            let t = ps.take(i + 1);
            assert(t.drop_last() =~= ps.take(i as int));
            assert(t.last() == profiles@[i as int]@);
            assert(ns[i as int] == match named@[i as int] {
                Some(p) => Some(p@),
                None => None,
            });
        }
        if let Some(p) = &named[i] {
            if let Some(secs) = p.elapsed {
                if !found.contains_key(&profiles[i].name) && is_backend(&p.argv) {
                    found.insert(profiles[i].name.clone(), (p.pid, secs));
                }
            }
        }
        i += 1;
    }
    assert(ps.take(ps.len() as int) =~= ps);
    found
}

/// Whether the profile has a live tunnel.
pub fn is_connected(p: &Profile, procs: &Vec<Process>, named: Option<Process>) -> (r: bool)
    ensures
        r == (live(
            seq![p@],
            process_texts(procs@),
            seq![
                match named {
                    Some(n) => Some(n@),
                    None => None,
                },
            ],
        ) != Map::<Seq<char>, (u32, u64)>::empty()),
{
    let mut profiles: Vec<Profile> = Vec::new();
    profiles.push(p.clone());
    let mut pid_files: Vec<Option<Process>> = Vec::new();
    pid_files.push(named);
    assert(model::profile_texts(profiles@) =~= seq![p@]);
    assert(named_texts(pid_files@) =~= seq![
        match named {
            Some(n) => Some(n@),
            None => None,
        },
    ]);
    !connected_tunnels(&profiles, procs, &pid_files).is_empty()
}

/// Every tunnel is that of a profile: it stands under the label of one.
pub proof fn law_tunnels_are_profiles(
    profiles: Seq<ProfileText>,
    procs: Seq<ProcessText>,
    named: Seq<Option<ProcessText>>,
    name: Seq<char>,
)
    requires
        live(profiles, procs, named).contains_key(name),
    ensures
        exists|i: int| 0 <= i < profiles.len() && (#[trigger] profiles[i]).name == name,
{
    assert(profiles.take(profiles.len() as int) =~= profiles);
    lemma_named_are_profiles(listed(profiles, procs), profiles, profiles.len() as int, named, name);
    if listed(profiles, procs).contains_key(name) {
        lemma_listed_are_profiles(profiles, procs, name);
    }
}

proof fn lemma_named_are_profiles(
    found: Map<Seq<char>, (u32, u64)>,
    profiles: Seq<ProfileText>,
    n: int,
    named: Seq<Option<ProcessText>>,
    name: Seq<char>,
)
    requires
        0 <= n <= profiles.len(),
        with_named(found, profiles.take(n), named).contains_key(name),
    ensures
        found.contains_key(name) || exists|i: int|
            0 <= i < profiles.len() && (#[trigger] profiles[i]).name == name,
    decreases n,
{
    if n > 0 {
        assert(profiles.take(n).drop_last() =~= profiles.take(n - 1));
        assert(profiles.take(n).last() == profiles[n - 1]);
        if with_named(found, profiles.take(n - 1), named).contains_key(name) {
            lemma_named_are_profiles(found, profiles, n - 1, named, name);
        } else {
            assert(profiles[n - 1].name == name);
        }
    }
}

proof fn lemma_listed_are_profiles(
    profiles: Seq<ProfileText>,
    procs: Seq<ProcessText>,
    name: Seq<char>,
)
    requires
        listed(profiles, procs).contains_key(name),
    ensures
        exists|i: int| 0 <= i < profiles.len() && (#[trigger] profiles[i]).name == name,
    decreases procs.len(),
{
    let before = listed(profiles, procs.drop_last());
    if before.contains_key(name) {
        lemma_listed_are_profiles(profiles, procs.drop_last(), name);
    } else {
        let argv = procs.last().argv;
        let i = owner(profiles, argv).unwrap();
        let stem = stem_of(argv).unwrap();
        scan::lemma_first_where(profiles, |p: ProfileText| stem_is_uuids(p, stem));
        scan::lemma_first_where(profiles, |p: ProfileText| p.name == stem);
        assert(profiles[i].name == name);
    }
}

/// The number in a pid file.
pub fn pid_in(content: &str) -> (r: Option<u32>)
    ensures
        r.is_some() == number::parse(text::trim(content@), u32::MAX as nat).is_some(),
        r matches Some(n) ==> number::parse(text::trim(content@), u32::MAX as nat) == Some(
            n as nat,
        ),
{
    number::parse_u32(&text::trimmed(content))
}

// ---- the kernel's files ----

/// The start time of a process in its stat line, as it is written: the twentieth field behind the
/// last closing bracket. The name in brackets may hold spaces and brackets of its own.
pub open spec fn start_field_text(stat: Seq<char>) -> Option<Seq<char>> {
    let fields = scan::words(scan::split(stat, ')').last());
    if stat.contains(')') && fields.len() > 19 {
        Some(fields[19])
    } else {
        None
    }
}

/// The start time of a process in its stat line, as it is written.
pub fn start_field(stat: &str) -> (r: Option<String>)
    ensures
        strings::opt(r) == start_field_text(stat@),
{
    let v = text::chars(stat);
    proof {
        scan::lemma_first_of(stat@, ')');
        if let Some(i) = scan::first_of(stat@, ')') {
            assert(stat@.contains(stat@[i]));
        }
    }
    if scan::position(&v, ')').is_none() {
        return None;
    }
    let p = scan::pieces(stat, ')');
    let last: usize = p.len() - 1;
    assert(strings::texts(p@)[last as int] == p@[last as int]@);
    let fields = scan::word_list(&p[last]);
    if fields.len() > 19 {
        assert(strings::texts(fields@)[19] == fields@[19]@);
        Some(fields[19].clone())
    } else {
        None
    }
}

/// The first word of a text, as it is written.
pub open spec fn first_word(s: Seq<char>) -> Option<Seq<char>> {
    if scan::words(s).len() > 0 {
        Some(scan::words(s)[0])
    } else {
        None
    }
}

/// The seconds since the machine started, as they are written in the kernel's uptime.
pub fn uptime_field(content: &str) -> (r: Option<String>)
    ensures
        strings::opt(r) == first_word(content@),
{
    let fields = scan::word_list(content);
    if fields.len() > 0 {
        assert(strings::texts(fields@)[0] == fields@[0]@);
        Some(fields[0].clone())
    } else {
        None
    }
}

/// A time for the user: days and hours, hours, minutes and seconds, or minutes and seconds.
pub open spec fn elapsed_text(secs: nat) -> Seq<char> {
    let d = secs / 86400;
    let h = (secs % 86400) / 3600;
    let m = (secs % 3600) / 60;
    let s = secs % 60;
    if d > 0 {
        number::decimal(d) + "d "@ + number::decimal(h) + "h"@
    } else if h > 0 {
        number::decimal(h) + ":"@ + number::two_digits(m) + ":"@ + number::two_digits(s)
    } else {
        number::decimal(m) + ":"@ + number::two_digits(s)
    }
}

/// A time for the user.
pub fn format_elapsed(secs: u64) -> (r: String)
    ensures
        r@ == elapsed_text(secs as nat),
{
    let d: u64 = secs / 86400;
    let h: u64 = (secs % 86400) / 3600;
    let m: u64 = (secs % 3600) / 60;
    let s: u64 = secs % 60;
    if d > 0 {
        text::cat(&text::cat3(&number::to_decimal(d), "d ", &number::to_decimal(h)), "h")
    } else if h > 0 {
        let hm = text::cat3(&number::to_decimal(h), ":", &number::to_two_digits(m));
        text::cat3(&hm, ":", &number::to_two_digits(s))
    } else {
        text::cat3(&number::to_decimal(m), ":", &number::to_two_digits(s))
    }
}

/// What went through an interface.
#[derive(Debug, Clone, Copy)]
pub struct Counters {
    pub rx_bytes: u64,
    pub tx_bytes: u64,
    pub rx_pkts: u64,
    pub tx_pkts: u64,
}

impl Default for Counters {
    fn default() -> (r: Self)
        ensures
            r == (Counters { rx_bytes: 0, tx_bytes: 0, rx_pkts: 0, tx_pkts: 0 }),
    {
        Counters { rx_bytes: 0, tx_bytes: 0, rx_pkts: 0, tx_pkts: 0 }
    }
}

/// The words that are numbers, in their order.
pub open spec fn numbers(words: Seq<Seq<char>>) -> Seq<u64>
    decreases words.len(),
{
    if words.len() == 0 {
        Seq::empty()
    } else {
        match number::parse(words.last(), u64::MAX as nat) {
            Some(n) => numbers(words.drop_last()).push(n as u64),
            None => numbers(words.drop_last()),
        }
    }
}

fn number_list(words: &Vec<String>) -> (r: Vec<u64>)
    ensures
        r@ == numbers(strings::texts(words@)),
{
    let ghost all = strings::texts(words@);
    let mut out: Vec<u64> = Vec::new();
    let mut i: usize = 0;
    assert(all.take(0) =~= Seq::empty());
    while i < words.len()
        invariant
            i <= words@.len(),
            all == strings::texts(words@),
            out@ == numbers(all.take(i as int)),
        decreases words.len() - i,
    {
        proof {
            let t = all.take(i + 1);
            assert(t.drop_last() =~= all.take(i as int));
            assert(t.last() == words@[i as int]@);
        }
        if let Some(n) = number::parse_u64(&words[i]) {
            out.push(n);
        }
        i += 1;
    }
    assert(all.take(all.len() as int) =~= all);
    out
}

/// The counters in a line of the kernel's interface list, where it is that of `iface`: the line
/// has the name, a colon and at least ten numbers, of which the first two are received bytes and
/// packets, and the ninth and tenth sent ones.
pub open spec fn counters_in(line: Seq<char>, iface: Seq<char>) -> Option<Counters> {
    match scan::cut_at(line, ':') {
        Some((name, rest)) => {
            let f = numbers(scan::words(rest));
            if text::trim(name) == iface && f.len() >= 10 {
                Some(
                    Counters { rx_bytes: f[0], rx_pkts: f[1], tx_bytes: f[8], tx_pkts: f[9] },
                )
            } else {
                None
            }
        },
        None => None,
    }
}

/// The counters in the first line that has them.
pub open spec fn first_counters(lines: Seq<Seq<char>>, iface: Seq<char>) -> Option<Counters>
    decreases lines.len(),
{
    if lines.len() == 0 {
        None
    } else if counters_in(lines[0], iface) is Some {
        counters_in(lines[0], iface)
    } else {
        first_counters(lines.skip(1), iface)
    }
}

fn line_counters(line: &str, iface: &str) -> (r: Option<Counters>)
    ensures
        r == counters_in(line@, iface@),
{
    match scan::split_once(line, ':') {
        Some((name, rest)) => {
            let f = number_list(&scan::word_list(&rest));
            if text::equal(&text::trimmed(&name), iface) && f.len() >= 10 {
                Some(
                    Counters { rx_bytes: f[0], rx_pkts: f[1], tx_bytes: f[8], tx_pkts: f[9] },
                )
            } else {
                None
            }
        },
        None => None,
    }
}

/// What went through an interface, from the kernel's interface list.
pub fn interface_counters(data: &str, iface: &str) -> (r: Option<Counters>)
    ensures
        r == first_counters(scan::lines(data@), iface@),
{
    let lines = scan::line_list(data);
    let ghost all = strings::texts(lines@);
    let mut i: usize = 0;
    assert(all.skip(0) =~= all);
    while i < lines.len()
        invariant
            i <= lines@.len(),
            all == strings::texts(lines@),
            first_counters(scan::lines(data@), iface@) == first_counters(
                all.skip(i as int),
                iface@,
            ),
        decreases lines.len() - i,
    {
        assert(all.skip(i as int)[0] == lines@[i as int]@);
        assert(all.skip(i as int).skip(1) =~= all.skip(i + 1));
        let c = line_counters(&lines[i], iface);
        if c.is_some() {
            return c;
        }
        i += 1;
    }
    None
}

// ---- what the network script recorded ----

/// What the network script recorded of a tunnel.
#[derive(Debug)]
pub struct TunnelInfo {
    pub iface: Option<String>,
    pub internal_ip: Option<String>,
    pub dns: Option<String>,
    pub gateway: Option<String>,
    pub def_domain: Option<String>,
    pub split_dns: Option<String>,
    pub match_domains: Option<String>,
    pub routes: Vec<String>,
}

/// What the record of a tunnel holds, as texts.
#[verifier::ext_equal]
pub struct TunnelText {
    pub iface: Option<Seq<char>>,
    pub internal_ip: Option<Seq<char>>,
    pub dns: Option<Seq<char>>,
    pub gateway: Option<Seq<char>>,
    pub def_domain: Option<Seq<char>>,
    pub split_dns: Option<Seq<char>>,
    pub match_domains: Option<Seq<char>>,
    pub routes: Seq<Seq<char>>,
}

impl View for TunnelInfo {
    type V = TunnelText;

    open spec fn view(&self) -> TunnelText {
        TunnelText {
            iface: strings::opt(self.iface),
            internal_ip: strings::opt(self.internal_ip),
            dns: strings::opt(self.dns),
            gateway: strings::opt(self.gateway),
            def_domain: strings::opt(self.def_domain),
            split_dns: strings::opt(self.split_dns),
            match_domains: strings::opt(self.match_domains),
            routes: strings::texts(self.routes@),
        }
    }
}

/// A record with nothing in it.
pub open spec fn blank_record() -> TunnelText {
    TunnelText {
        iface: None,
        internal_ip: None,
        dns: None,
        gateway: None,
        def_domain: None,
        split_dns: None,
        match_domains: None,
        routes: Seq::empty(),
    }
}

impl Default for TunnelInfo {
    fn default() -> (r: Self)
        ensures
            r@ == blank_record(),
    {
        let r = TunnelInfo {
            iface: None,
            internal_ip: None,
            dns: None,
            gateway: None,
            def_domain: None,
            split_dns: None,
            match_domains: None,
            routes: Vec::new(),
        };
        assert(r@ =~= blank_record());
        r
    }
}

/// A value that is not empty.
pub open spec fn filled(v: Seq<char>) -> Option<Seq<char>> {
    if v.len() == 0 {
        None
    } else {
        Some(v)
    }
}

fn fill(v: String) -> (r: Option<String>)
    ensures
        strings::opt(r) == filled(v@),
{
    if v.as_str().is_empty() {
        None
    } else {
        Some(v)
    }
}

/// A record with one more entry in it. A later value takes the place of an earlier one, but routes
/// add up.
pub open spec fn recorded(t: TunnelText, k: Seq<char>, v: Seq<char>) -> TunnelText {
    if k == "TUNDEV"@ {
        TunnelText { iface: filled(v), ..t }
    } else if k == "INTERNAL_IP4_ADDRESS"@ {
        TunnelText { internal_ip: filled(v), ..t }
    } else if k == "INTERNAL_IP4_DNS"@ {
        TunnelText { dns: filled(v), ..t }
    } else if k == "VPNGATEWAY"@ {
        TunnelText { gateway: filled(v), ..t }
    } else if k == "CISCO_DEF_DOMAIN"@ {
        TunnelText { def_domain: filled(v), ..t }
    } else if k == "CISCO_SPLIT_DNS"@ {
        TunnelText { split_dns: filled(v), ..t }
    } else if k == "VPNC_MATCH_DOMAINS"@ {
        TunnelText { match_domains: filled(v), ..t }
    } else if k == "ROUTE"@ && v.len() > 0 {
        TunnelText { routes: t.routes.push(v), ..t }
    } else {
        t
    }
}

/// The record that lines of the form `key=value` make; other lines count for nothing.
pub open spec fn record_of(lines: Seq<Seq<char>>) -> TunnelText
    decreases lines.len(),
{
    if lines.len() == 0 {
        blank_record()
    } else {
        let before = record_of(lines.drop_last());
        match scan::cut_at(lines.last(), '=') {
            Some((k, v)) => recorded(before, k, v),
            None => before,
        }
    }
}

fn record(t: &mut TunnelInfo, k: &str, v: String)
    ensures
        final(t)@ == recorded(old(t)@, k@, v@),
{
    if text::equal(k, "TUNDEV") {
        t.iface = fill(v);
    } else if text::equal(k, "INTERNAL_IP4_ADDRESS") {
        t.internal_ip = fill(v);
    } else if text::equal(k, "INTERNAL_IP4_DNS") {
        t.dns = fill(v);
    } else if text::equal(k, "VPNGATEWAY") {
        t.gateway = fill(v);
    } else if text::equal(k, "CISCO_DEF_DOMAIN") {
        t.def_domain = fill(v);
    } else if text::equal(k, "CISCO_SPLIT_DNS") {
        t.split_dns = fill(v);
    } else if text::equal(k, "VPNC_MATCH_DOMAINS") {
        t.match_domains = fill(v);
    } else if text::equal(k, "ROUTE") && !v.as_str().is_empty() {
        t.routes.push(v);
    }
}

/// The record that the network script wrote on connecting; a blank one where there is none.
pub fn read_tunnel_info(raw: Option<&str>) -> (r: TunnelInfo)
    ensures
        r@ == match raw {
            Some(s) => record_of(scan::lines(s@)),
            None => blank_record(),
        },
{
    let mut t = TunnelInfo::default();
    match raw {
        Some(s) => {
            let lines = scan::line_list(s);
            let ghost all = strings::texts(lines@);
            let mut i: usize = 0;
            assert(all.take(0) =~= Seq::empty());
            while i < lines.len()
                invariant
                    i <= lines@.len(),
                    all == strings::texts(lines@),
                    t@ == record_of(all.take(i as int)),
                decreases lines.len() - i,
            {
                proof {
                    let u = all.take(i + 1);
                    assert(u.drop_last() =~= all.take(i as int));
                    assert(u.last() == lines@[i as int]@);
                }
                if let Some((k, v)) = scan::split_once(&lines[i], '=') {
                    record(&mut t, &k, v);
                }
                i += 1;
            }
            assert(all.take(all.len() as int) =~= all);
        },
        None => {},
    }
    t
}

// ---- laws of recognition ----

/// A process that names a backend and then, as its second option, a profile's pid file belongs to
/// that profile.
pub proof fn lemma_owner(
    profiles: Seq<ProfileText>,
    i: int,
    config: Seq<char>,
    argv: Seq<Seq<char>>,
)
    requires
        model::told_by_stem(profiles, i),
        argv.len() >= 4,
        backend_bin(argv[0]),
        argv[0] != "--pid-file"@,
        argv[1] != "--pid-file"@,
        argv[2] == "--pid-file"@,
        argv[3] == model::pid_path(config, profiles[i]),
    ensures
        owner(profiles, argv) == Some(i),
{
    let p = profiles[i];
    let f = |a: Seq<char>| a == "--pid-file"@;
    scan::lemma_first_where(argv, f);
    assert(f(argv[2]));
    assert(!f(argv[0]) && !f(argv[1]));
    assert(scan::first_where(argv, f) == Some(2int));
    model::lemma_pid_path(config, p);
    let stem = model::pid_stem(p);
    let name = stem + ".pid"@;
    assert(name.take(name.len() - ".pid"@.len()) =~= stem);
    assert(name.skip(name.len() - ".pid"@.len()) =~= ".pid"@);
    assert(scan::without_suffix(name, ".pid"@) == Some(stem));
    let g = |q: ProfileText| stem_is_uuids(q, stem);
    scan::lemma_first_where(profiles, g);
    assert(g(profiles[i]));
    assert forall|j: int| 0 <= j < i implies !g(#[trigger] profiles[j]) by {
        if profiles[j].uuid is Some {
            assert(model::pid_stem(profiles[j]) != stem);
        }
    }
    assert(scan::first_where(profiles, g) == Some(i));
    assert(backend_bin(argv[0]));
}

proof fn lemma_listed(profiles: Seq<ProfileText>, procs: Seq<ProcessText>, k: int, i: int)
    requires
        0 <= k < procs.len(),
        owner(profiles, procs[k].argv) == Some(i),
        procs[k].elapsed is Some,
    ensures
        listed(profiles, procs).contains_key(profiles[i].name),
    decreases procs.len(),
{
    let t = procs.drop_last();
    if k < t.len() {
        assert(t[k] == procs[k]);
        lemma_listed(profiles, t, k, i);
    }
}

/// What the process list shows of a label counts, whatever the pid files name.
pub proof fn law_process_list_comes_first(
    found: Map<Seq<char>, (u32, u64)>,
    profiles: Seq<ProfileText>,
    named: Seq<Option<ProcessText>>,
    name: Seq<char>,
)
    requires
        found.contains_key(name),
    ensures
        with_named(found, profiles, named).contains_key(name),
        with_named(found, profiles, named)[name] == found[name],
    decreases profiles.len(),
{
    if profiles.len() > 0 {
        law_process_list_comes_first(found, profiles.drop_last(), named, name);
    }
}

/// Where a profile's pid file names a running process of a backend, the profile's label has a live
/// tunnel, though the process list may show none.
pub proof fn law_pid_file_is_a_fallback(
    found: Map<Seq<char>, (u32, u64)>,
    profiles: Seq<ProfileText>,
    named: Seq<Option<ProcessText>>,
    i: int,
)
    requires
        0 <= i < profiles.len(),
        named[i] matches Some(p) && runs_backend(p.argv) && p.elapsed is Some,
    ensures
        with_named(found, profiles, named).contains_key(profiles[i].name),
    decreases profiles.len(),
{
    if i < profiles.len() - 1 {
        let t = profiles.drop_last();
        assert(t[i] == profiles[i]);
        law_pid_file_is_a_fallback(found, t, named, i);
    }
}

/// Where a running process belongs to a profile, that profile's label has a live tunnel.
pub proof fn law_owned_process_is_live(
    profiles: Seq<ProfileText>,
    procs: Seq<ProcessText>,
    named: Seq<Option<ProcessText>>,
    k: int,
    i: int,
)
    requires
        0 <= k < procs.len(),
        owner(profiles, procs[k].argv) == Some(i),
        procs[k].elapsed is Some,
    ensures
        live(profiles, procs, named).contains_key(profiles[i].name),
{
    lemma_listed(profiles, procs, k, i);
    law_process_list_comes_first(listed(profiles, procs), profiles, named, profiles[i].name);
}

} // verus!
