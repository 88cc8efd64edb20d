//! The controller between the tray, the windows and the backends: what it knows, and what is to be
//! done on each command and each look at the machine.

use crate::args;
use crate::model;
use crate::model::{Profile, ProfileText};
use crate::privilege;
use crate::scan;
use crate::strings;
use crate::sys::{Host, Invocation, InvocationText, VPNCBAR_DISCONNECT};
use crate::text;
use crate::text_map::TextMap;
use crate::tunnel::Tunnels;
use vstd::prelude::*;

verus! {

broadcast use strings::lemma_texts_push;

/// The commands that the tray and the windows give.
#[derive(Debug)]
pub enum Cmd {
    Connect(String),
    Disconnect(String),
    DisconnectAll,
    OpenWindow,
    About,
    Refresh,
    Quit,
    /// No tray can be shown: nothing on this desktop hosts one.
    TrayUnavailable,
    /// A tray can be shown again.
    TrayRestored,
}

/// A notification for the user.
#[derive(Debug)]
pub struct Notice {
    pub summary: String,
    pub body: String,
}

/// What is to be done on a command.
#[derive(Debug)]
pub enum Action {
    Nothing,
    /// Ask for a one-time code for the profile; see [`prompted`].
    AskCode(Profile),
    /// Bring the profile up, with a one-time code where there is one; then look again.
    Connect(Profile, Option<String>),
    /// Take the profiles down; then look again.
    Disconnect(Vec<Profile>),
    OpenWindow,
    About,
    Refresh,
    /// Show the window in place of the tray, and say why.
    Fallback(Notice),
    /// Take all down and end.
    Quit,
}

/// What a question for a one-time code came to.
#[derive(Debug)]
pub enum Prompt {
    /// There is nothing to ask with.
    Absent,
    Cancelled,
    Code(String),
}

/// What the controller knows.
pub struct App {
    profiles: Vec<Profile>,
    connected: Tunnels,
    looked: bool,
    watches: Vec<u32>,
    fallback_shown: bool,
}

/// What the controller knows, as values.
#[verifier::ext_equal]
pub struct AppText {
    pub profiles: Seq<ProfileText>,
    /// The live tunnels, by the labels of their profiles.
    pub connected: Map<Seq<char>, (u32, u64)>,
    /// Whether it has looked at the machine before.
    pub looked: bool,
    /// The processes whose end it is waiting for.
    pub watched: Set<u32>,
    /// Whether the window has been shown in place of the tray since there was none.
    pub fallback_shown: bool,
}

impl View for App {
    type V = AppText;

    closed spec fn view(&self) -> AppText {
        AppText {
            profiles: model::profile_texts(self.profiles@),
            connected: self.connected@,
            looked: self.looked,
            watched: self.watches@.to_set(),
            fallback_shown: self.fallback_shown,
        }
    }
}

// ---- looking at the machine ----

/// What has changed since the last look.
#[derive(Debug)]
pub struct Changes {
    /// The labels of the tunnels that have come up.
    pub opened: Vec<String>,
    /// The labels of the tunnels that have gone down.
    pub closed: Vec<String>,
    /// What clears away the state that a dead tunnel may have left.
    pub sweep: Option<Invocation>,
    /// The processes whose end is to be waited for.
    pub watch: Vec<u32>,
    /// The processes whose end need not be waited for any longer.
    pub unwatch: Vec<u32>,
}

/// Whether a list holds what a set does, each once.
pub open spec fn lists<T>(v: Seq<T>, s: Set<T>) -> bool {
    &&& v.no_duplicates()
    &&& forall|x: T| #[trigger] v.contains(x) <==> s.contains(x)
}

/// The processes of tunnels.
pub open spec fn pids(m: Map<Seq<char>, (u32, u64)>) -> Set<u32> {
    m.dom().map(|k: Seq<char>| m[k].0)
}

/// The labels of the tunnels that have come up since the last look. At the first there are none.
pub open spec fn opened(s: AppText, now: Map<Seq<char>, (u32, u64)>) -> Set<Seq<char>> {
    if s.looked {
        now.dom().difference(s.connected.dom())
    } else {
        Set::empty()
    }
}

/// The labels of the tunnels that have gone down since the last look. At the first there are none.
pub open spec fn closed(s: AppText, now: Map<Seq<char>, (u32, u64)>) -> Set<Seq<char>> {
    if s.looked {
        s.connected.dom().difference(now.dom())
    } else {
        Set::empty()
    }
}

/// What the controller knows after a look.
pub open spec fn refreshed(
    s: AppText,
    profiles: Seq<ProfileText>,
    now: Map<Seq<char>, (u32, u64)>,
) -> AppText {
    AppText {
        profiles,
        connected: now,
        looked: true,
        watched: s.watched.intersect(pids(now)),
        fallback_shown: s.fallback_shown,
    }
}

/// What clears away stale state: it is due where a tunnel has gone down, and only where the helper
/// is installed.
pub open spec fn sweep_text(h: Host, any_closed: bool) -> Option<InvocationText> {
    if any_closed && h.helper_installed {
        Some(privilege::as_root(VPNCBAR_DISCONNECT@, seq!["sweep"@], None))
    } else {
        None
    }
}

/// The strings of `a` that are not in `b`.
fn minus(a: &Vec<String>, b: &Vec<String>) -> (r: Vec<String>)
    requires
        strings::texts(a@).no_duplicates(),
    ensures
        lists(
            strings::texts(r@),
            strings::texts(a@).to_set().difference(strings::texts(b@).to_set()),
        ),
{
    let ghost all = strings::texts(a@);
    let ghost not = strings::texts(b@);
    let mut out: Vec<String> = Vec::new();
    let mut i: usize = 0;
    assert(strings::texts(out@) =~= Seq::empty());
    while i < a.len()
        invariant
            i <= a@.len(),
            all == strings::texts(a@),
            not == strings::texts(b@),
            all.no_duplicates(),
            strings::texts(out@).no_duplicates(),
            forall|x: Seq<char>| #[trigger]
                strings::texts(out@).contains(x) <==> all.take(i as int).contains(x)
                    && !not.contains(x),
        decreases a.len() - i,
    {
        let ghost before = strings::texts(out@);
        let ghost x = all[i as int];
        assert(x == a@[i as int]@);
        assert(all.take(i + 1) =~= all.take(i as int).push(x));
        assert(!all.take(i as int).contains(x));
        assert forall|y: Seq<char>| #[trigger]
            all.take(i + 1).contains(y) <==> all.take(i as int).contains(y) || y == x by {
            lemma_push_contains(all.take(i as int), x, y);
        }
        if !holds(b, &a[i]) {
            out.push(a[i].clone());
            proof {
                assert(strings::texts(out@) =~= before.push(x));
                assert(!before.contains(x));
                assert forall|y: Seq<char>| #[trigger]
                    strings::texts(out@).contains(y) <==> before.contains(y) || y == x by {
                    lemma_push_contains(before, x, y);
                }
            }
        }
        i += 1;
    }
    assert(all.take(all.len() as int) =~= all);
    out
}

proof fn lemma_push_contains<T>(s: Seq<T>, x: T, y: T)
    ensures
        s.push(x).contains(y) <==> s.contains(y) || y == x,
{
    if s.contains(y) {
        let i = choose|i: int| 0 <= i < s.len() && s[i] == y;
        assert(s.push(x)[i] == y);
    }
    assert(s.push(x)[s.len() as int] == x);
}

fn holds(v: &Vec<String>, s: &str) -> (r: bool)
    ensures
        r == strings::texts(v@).contains(s@),
{
    let ghost all = strings::texts(v@);
    let mut i: usize = 0;
    while i < v.len()
        invariant
            i <= v@.len(),
            all == strings::texts(v@),
            forall|j: int| 0 <= j < i ==> #[trigger] all[j] != s@,
        decreases v.len() - i,
    {
        assert(all[i as int] == v@[i as int]@);
        if text::equal(&v[i], s) {
            return true;
        }
        i += 1;
    }
    false
}

fn holds_pid(v: &Vec<u32>, p: u32) -> (r: bool)
    ensures
        r == v@.contains(p),
{
    let mut i: usize = 0;
    while i < v.len()
        invariant
            i <= v@.len(),
            forall|j: int| 0 <= j < i ==> #[trigger] v@[j] != p,
        decreases v.len() - i,
    {
        if v[i] == p {
            return true;
        }
        i += 1;
    }
    false
}

/// The processes of tunnels, each once.
fn pid_list(t: &Tunnels) -> (r: Vec<u32>)
    ensures
        lists(r@, pids(t@)),
{
    let mut out: Vec<u32> = Vec::new();
    let mut i: usize = 0;
    let n: usize = t.len();
    let ghost ks = t.key_texts();
    while i < n
        invariant
            i <= n,
            n == ks.len(),
            ks == t.key_texts(),
            forall|k: Seq<char>| t@.contains_key(k) <==> #[trigger] ks.contains(k),
            out@.no_duplicates(),
            forall|x: u32| #[trigger]
                out@.contains(x) <==> exists|j: int| 0 <= j < i && t@[#[trigger] ks[j]].0 == x,
        decreases n - i,
    {
        let ghost before = out@;
        let (_, entry) = t.entry(i);
        let pid: u32 = entry.0;
        assert(t@[ks[i as int]].0 == pid);
        if !holds_pid(&out, pid) {
            out.push(pid);
            proof {
                assert forall|y: u32| #[trigger]
                    out@.contains(y) <==> before.contains(y) || y == pid by {
                    lemma_push_contains(before, pid, y);
                }
            }
        }
        proof {
            assert forall|x: u32| #[trigger] out@.contains(x) implies exists|j: int|
                0 <= j < i + 1 && t@[#[trigger] ks[j]].0 == x by {
                if before.contains(x) {
                    let j = choose|j: int| 0 <= j < i && t@[#[trigger] ks[j]].0 == x;
                    assert(t@[ks[j]].0 == x);
                }
            }
            assert forall|x: u32|
                (exists|j: int| 0 <= j < i + 1 && t@[#[trigger] ks[j]].0 == x) implies #[trigger] out@.contains(
                x,
            ) by {
                let j = choose|j: int| 0 <= j < i + 1 && t@[#[trigger] ks[j]].0 == x;
                if j < i {
                    assert(before.contains(x));
                }
            }
        }
        i += 1;
    }
    proof {
        assert forall|x: u32| #[trigger] out@.contains(x) <==> pids(t@).contains(x) by {
            if out@.contains(x) {
                let j = choose|j: int| 0 <= j < n && t@[#[trigger] ks[j]].0 == x;
                assert(ks.contains(ks[j]));
                assert(t@.dom().contains(ks[j]));
            }
            if pids(t@).contains(x) {
                let k = choose|k: Seq<char>| t@.dom().contains(k) && t@[k].0 == x;
                assert(ks.contains(k));
                let j = choose|j: int| 0 <= j < ks.len() && ks[j] == k;
                assert(t@[ks[j]].0 == x);
            }
        }
    }
    out
}

/// The processes of `a` that are in `b`, or that are not.
fn among(a: &Vec<u32>, b: &Vec<u32>, inside: bool) -> (r: Vec<u32>)
    ensures
        a@.no_duplicates() ==> r@.no_duplicates(),
        forall|x: u32| #[trigger]
            r@.contains(x) <==> a@.contains(x) && b@.contains(x) == inside,
{
    let mut out: Vec<u32> = Vec::new();
    let mut i: usize = 0;
    while i < a.len()
        invariant
            i <= a@.len(),
            a@.no_duplicates() ==> out@.no_duplicates(),
            forall|x: u32| #[trigger]
                out@.contains(x) <==> a@.take(i as int).contains(x) && b@.contains(x) == inside,
        decreases a.len() - i,
    {
        let ghost before = out@;
        let x: u32 = a[i];
        assert(a@.take(i + 1) =~= a@.take(i as int).push(x));
        assert(a@.no_duplicates() ==> !a@.take(i as int).contains(x));
        assert forall|y: u32| #[trigger]
            a@.take(i + 1).contains(y) <==> a@.take(i as int).contains(y) || y == x by {
            lemma_push_contains(a@.take(i as int), x, y);
        }
        if holds_pid(b, x) == inside {
            out.push(x);
            proof {
                assert(a@.no_duplicates() ==> !before.contains(x));
                assert forall|y: u32| #[trigger]
                    out@.contains(y) <==> before.contains(y) || y == x by {
                    lemma_push_contains(before, x, y);
                }
            }
        }
        i += 1;
    }
    assert(a@.take(a@.len() as int) =~= a@);
    out
}

impl App {
    /// A controller that knows the profiles and has not looked yet.
    pub fn new(profiles: Vec<Profile>) -> (r: App)
        ensures
            r@ == (AppText {
                profiles: model::profile_texts(profiles@),
                connected: Map::empty(),
                looked: false,
                watched: Set::empty(),
                fallback_shown: false,
            }),
    {
        let watches: Vec<u32> = Vec::new();
        assert(watches@.to_set() =~= Set::empty());
        App {
            profiles,
            connected: TextMap::new(),
            looked: false,
            watches,
            fallback_shown: false,
        }
    }

    /// Takes in a look at the machine: the profiles there are and the tunnels that are live. What
    /// is to be watched is watched once [`App::watching`] says so.
    pub fn refresh(&mut self, h: &Host, profiles: Vec<Profile>, now: Tunnels) -> (r: Changes)
        ensures
            final(self)@ == refreshed(old(self)@, model::profile_texts(profiles@), now@),
            lists(strings::texts(r.opened@), opened(old(self)@, now@)),
            lists(strings::texts(r.closed@), closed(old(self)@, now@)),
            match r.sweep {
                Some(c) => Some(c@),
                None => None,
            } == sweep_text(*h, closed(old(self)@, now@) != Set::<Seq<char>>::empty()),
            lists(r.watch@, pids(now@).difference(old(self)@.watched)),
            forall|p: u32| #[trigger]
                r.unwatch@.contains(p) <==> old(self)@.watched.contains(p) && !pids(now@).contains(p),
    {
        let ghost s = self@;
        let ghost before = self.connected@.dom();
        let ghost after = now@.dom();
        let new_keys = now.keys();
        let old_keys = self.connected.keys();
        assert(strings::texts(new_keys@).to_set() =~= after);
        assert(strings::texts(old_keys@).to_set() =~= before);
        let (up, down) = if self.looked {
            (minus(&new_keys, &old_keys), minus(&old_keys, &new_keys))
        } else {
            (args::empty(), args::empty())
        };
        assert(lists(strings::texts(up@), opened(s, now@)));
        assert(lists(strings::texts(down@), closed(s, now@)));
        let any_down: bool = down.len() > 0;
        proof {
            let t = strings::texts(down@);
            let c = closed(s, now@);
            if any_down {
                assert(t.contains(t[0]));
                assert(c.contains(t[0]));
            } else {
                assert forall|x: Seq<char>| !c.contains(x) by {
                    assert(!t.contains(x));
                }
                assert(c =~= Set::empty());
            }
        }
        let sweep = if any_down && h.helper_installed {
            Some(privilege::run_root(VPNCBAR_DISCONNECT, &args::list1("sweep"), None))
        } else {
            None
        };
        let pids_now = pid_list(&now);
        let watch = among(&pids_now, &self.watches, false);
        let unwatch = among(&self.watches, &pids_now, false);
        let kept = among(&self.watches, &pids_now, true);
        assert(kept@.to_set() =~= s.watched.intersect(pids(now@)));
        self.watches = kept;
        self.profiles = profiles;
        self.connected = now;
        self.looked = true;
        Changes { opened: up, closed: down, sweep, watch, unwatch }
    }

    /// Notes that the end of a process is being waited for.
    pub fn watching(&mut self, pid: u32)
        ensures
            final(self)@ == (AppText { watched: old(self)@.watched.insert(pid), ..old(self)@ }),
    {
        let ghost s = self@;
        if !holds_pid(&self.watches, pid) {
            let ghost before = self.watches@;
            self.watches.push(pid);
            proof {
                assert forall|y: u32| #[trigger]
                    self.watches@.contains(y) <==> before.contains(y) || y == pid by {
                    lemma_push_contains(before, pid, y);
                }
                assert(self.watches@.to_set() =~= s.watched.insert(pid));
            }
        }
        assert(self@ =~= (AppText { watched: s.watched.insert(pid), ..s }));
    }

    /// Whether the end of a process is being waited for.
    pub fn is_watched(&self, pid: u32) -> (r: bool)
        ensures
            r == self@.watched.contains(pid),
    {
        holds_pid(&self.watches, pid)
    }
}

/// The notification that a tunnel has come up.
pub fn opened_notice(name: &str) -> (r: Notice)
    ensures
        r.summary@ == "VPN connected"@,
        r.body@ == "Connected to "@ + name@ + "."@,
{
    Notice {
        summary: "VPN connected".to_owned(),
        body: text::cat3("Connected to ", name, "."),
    }
}

/// The notification that a tunnel has gone down.
pub fn closed_notice(name: &str) -> (r: Notice)
    ensures
        r.summary@ == "VPN disconnected"@,
        r.body@ == "Disconnected from "@ + name@ + "."@,
{
    Notice {
        summary: "VPN disconnected".to_owned(),
        body: text::cat3("Disconnected from ", name, "."),
    }
}

// ---- the passing of time ----

/// Tunnels with new ages, where there are any.
pub open spec fn aged(m: Map<Seq<char>, (u32, u64)>, ages: Map<Seq<char>, u64>) -> Map<
    Seq<char>,
    (u32, u64),
> {
    Map::new(
        |k: Seq<char>| m.contains_key(k),
        |k: Seq<char>|
            if ages.contains_key(k) {
                (m[k].0, ages[k])
            } else {
                m[k]
            },
    )
}

fn with_ages(t: &Tunnels, ages: &TextMap<u64>) -> (r: Tunnels)
    ensures
        r@ == aged(t@, ages@),
        r.key_texts() == t.key_texts(),
{
    let mut out: Tunnels = TextMap::new();
    let mut i: usize = 0;
    let n: usize = t.len();
    let ghost ks = t.key_texts();
    let ghost whole = aged(t@, ages@);
    assert(ks.take(0) =~= Seq::empty());
    while i < n
        invariant
            i <= n,
            n == ks.len(),
            ks == t.key_texts(),
            ks.no_duplicates(),
            whole == aged(t@, ages@),
            forall|k: Seq<char>| t@.contains_key(k) <==> #[trigger] ks.contains(k),
            out.key_texts() == ks.take(i as int),
            forall|k: Seq<char>| #[trigger]
                out@.contains_key(k) <==> ks.take(i as int).contains(k),
            forall|k: Seq<char>| #[trigger] out@.contains_key(k) ==> out@[k] == whole[k],
        decreases n - i,
    {
        let (name, entry) = t.entry(i);
        let secs: u64 = match ages.get(name) {
            Some(s) => *s,
            None => entry.1,
        };
        let ghost before = out@;
        let ghost x = name@;
        assert(ks.take(i + 1) =~= ks.take(i as int).push(x));
        assert(!ks.take(i as int).contains(x));
        out.insert(name.to_owned(), (entry.0, secs));
        proof {
            assert(whole[x] == (entry.0, secs));
            assert forall|k: Seq<char>| #[trigger]
                out@.contains_key(k) <==> ks.take(i + 1).contains(k) by {
                lemma_push_contains(ks.take(i as int), x, k);
            }
        }
        i += 1;
    }
    proof {
        assert(ks.take(n as int) =~= ks);
        assert forall|k: Seq<char>| out@.contains_key(k) <==> whole.contains_key(k) by {
            assert(out@.contains_key(k) <==> ks.contains(k));
        }
        assert(out@ =~= whole);
    }
    out
}

// ---- commands ----

/// The place of the first profile with a label.
pub open spec fn place_of(profiles: Seq<ProfileText>, name: Seq<char>) -> Option<int> {
    scan::first_where(profiles, |p: ProfileText| p.name == name)
}

/// The profiles whose labels have live tunnels.
pub open spec fn up(profiles: Seq<ProfileText>, live: Map<Seq<char>, (u32, u64)>) -> Seq<
    ProfileText,
>
    decreases profiles.len(),
{
    if profiles.len() == 0 {
        Seq::empty()
    } else {
        let before = up(profiles.drop_last(), live);
        if live.contains_key(profiles.last().name) {
            before.push(profiles.last())
        } else {
            before
        }
    }
}

/// Whether a profile asks for a one-time code before it is brought up.
pub open spec fn asks_code(p: ProfileText) -> bool {
    model::openconnect_kind(p.kind) && p.oc_otp == Some(true)
}

/// What an action is, as values.
pub enum ActionText {
    Nothing,
    AskCode(ProfileText),
    Connect(ProfileText, Option<Seq<char>>),
    Disconnect(Seq<ProfileText>),
    OpenWindow,
    About,
    Refresh,
    Fallback(Seq<char>, Seq<char>),
    Quit,
}

impl View for Action {
    type V = ActionText;

    open spec fn view(&self) -> ActionText {
        match *self {
            Action::Nothing => ActionText::Nothing,
            Action::AskCode(p) => ActionText::AskCode(p@),
            Action::Connect(p, code) => ActionText::Connect(p@, strings::opt(code)),
            Action::Disconnect(v) => ActionText::Disconnect(model::profile_texts(v@)),
            Action::OpenWindow => ActionText::OpenWindow,
            Action::About => ActionText::About,
            Action::Refresh => ActionText::Refresh,
            Action::Fallback(n) => ActionText::Fallback(n.summary@, n.body@),
            Action::Quit => ActionText::Quit,
        }
    }
}

/// What the user is told where there is no tray.
pub open spec fn no_tray_text() -> Seq<char> {
    "No status-tray host was found, so the tray icon can't be shown. The VpncBar window is open instead. On GNOME, enable the AppIndicator/KStatusNotifierItem extension to get the tray icon."@
}

/// What is to be done on a command.
pub open spec fn action_on(s: AppText, cmd: Cmd) -> ActionText {
    match cmd {
        Cmd::Connect(name) => match place_of(s.profiles, name@) {
            Some(i) => if asks_code(s.profiles[i]) {
                ActionText::AskCode(s.profiles[i])
            } else {
                ActionText::Connect(s.profiles[i], None)
            },
            None => ActionText::Nothing,
        },
        Cmd::Disconnect(name) => match place_of(s.profiles, name@) {
            Some(i) => ActionText::Disconnect(seq![s.profiles[i]]),
            None => ActionText::Nothing,
        },
        Cmd::DisconnectAll => ActionText::Disconnect(up(s.profiles, s.connected)),
        Cmd::OpenWindow => ActionText::OpenWindow,
        Cmd::About => ActionText::About,
        Cmd::Refresh => ActionText::Refresh,
        Cmd::Quit => ActionText::Quit,
        Cmd::TrayUnavailable => if s.fallback_shown {
            ActionText::Nothing
        } else {
            ActionText::Fallback("VpncBar: no system tray"@, no_tray_text())
        },
        Cmd::TrayRestored => ActionText::Nothing,
    }
}

/// Whether the window has been shown in place of the tray, after a command.
pub open spec fn fallback_after(shown: bool, cmd: Cmd) -> bool {
    match cmd {
        Cmd::TrayUnavailable => true,
        Cmd::TrayRestored => false,
        _ => shown,
    }
}

/// What is to be done once the user was asked for a one-time code. Without a way to ask, the
/// profile is brought up without one.
pub fn prompted(p: Profile, answer: Prompt) -> (r: Action)
    ensures
        r@ == match answer {
            Prompt::Absent => ActionText::Connect(p@, None),
            Prompt::Cancelled => ActionText::Nothing,
            Prompt::Code(c) => ActionText::Connect(p@, Some(c@)),
        },
{
    match answer {
        Prompt::Absent => Action::Connect(p, None),
        Prompt::Cancelled => Action::Nothing,
        Prompt::Code(c) => Action::Connect(p, Some(c)),
    }
}

/// The profile with a label.
pub fn find<'a>(profiles: &'a Vec<Profile>, name: &str) -> (r: Option<&'a Profile>)
    ensures
        match r {
            Some(p) => match place_of(model::profile_texts(profiles@), name@) {
                Some(i) => p@ == model::profile_texts(profiles@)[i],
                None => false,
            },
            None => place_of(model::profile_texts(profiles@), name@) is None,
        },
{
    let ghost all = model::profile_texts(profiles@);
    let ghost f = |p: ProfileText| p.name == name@;
    proof {
        scan::lemma_first_where(all, f);
    }
    let mut i: usize = 0;
    while i < profiles.len()
        invariant
            i <= profiles@.len(),
            all == model::profile_texts(profiles@),
            f == (|p: ProfileText| p.name == name@),
            forall|j: int| 0 <= j < i ==> !f(#[trigger] all[j]),
            match scan::first_where(all, f) {
                Some(k) => 0 <= k < all.len() && f(all[k]) && (forall|j: int|
                    0 <= j < k ==> !f(#[trigger] all[j])),
                None => forall|j: int| 0 <= j < all.len() ==> !f(#[trigger] all[j]),
            },
        decreases profiles.len() - i,
    {
        assert(all[i as int] == profiles@[i as int]@);
        if text::equal(&profiles[i].name, name) {
            assert(f(all[i as int]));
            return Some(&profiles[i]);
        }
        i += 1;
    }
    None
}

fn list_up(profiles: &Vec<Profile>, live: &Tunnels) -> (r: Vec<Profile>)
    ensures
        model::profile_texts(r@) == up(model::profile_texts(profiles@), live@),
{
    let ghost all = model::profile_texts(profiles@);
    let mut out: Vec<Profile> = Vec::new();
    let mut i: usize = 0;
    assert(model::profile_texts(out@) =~= up(all.take(0), live@));
    while i < profiles.len()
        invariant
            i <= profiles@.len(),
            all == model::profile_texts(profiles@),
            model::profile_texts(out@) == up(all.take(i as int), live@),
        decreases profiles.len() - i,
    {
        let ghost before = out@;
        let ghost t = all.take(i + 1);
        assert(t.drop_last() =~= all.take(i as int));
        assert(t.last() == profiles@[i as int]@);
        if live.contains_key(&profiles[i].name) {
            let p = profiles[i].clone();
            out.push(p);
            assert(model::profile_texts(out@) =~= model::profile_texts(before).push(p@));
        }
        i += 1;
    }
    assert(all.take(all.len() as int) =~= all);
    out
}

impl App {
    /// Gives the live tunnels their new ages. `ages` has them by the labels of the profiles.
    pub fn tick(&mut self, ages: &TextMap<u64>)
        ensures
            final(self)@ == (AppText {
                connected: aged(old(self)@.connected, ages@),
                ..old(self)@
            }),
    {
        self.connected = with_ages(&self.connected, ages);
    }

    /// The profiles.
    pub fn profiles(&self) -> (r: &Vec<Profile>)
        ensures
            model::profile_texts(r@) == self@.profiles,
    {
        &self.profiles
    }

    /// The live tunnels.
    pub fn connected(&self) -> (r: &Tunnels)
        ensures
            r@ == self@.connected,
    {
        &self.connected
    }

    /// Takes a command in, and says what is to be done.
    pub fn handle(&mut self, cmd: Cmd) -> (r: Action)
        ensures
            r@ == action_on(old(self)@, cmd),
            final(self)@ == (AppText {
                fallback_shown: fallback_after(old(self)@.fallback_shown, cmd),
                ..old(self)@
            }),
    {
        match cmd {
            Cmd::Connect(name) => match find(&self.profiles, &name) {
                Some(p) => {
                    let code: bool = match p.oc_otp {
                        Some(b) => b,
                        None => false,
                    };
                    if p.is_openconnect() && code {
                        Action::AskCode(p.clone())
                    } else {
                        Action::Connect(p.clone(), None)
                    }
                },
                None => Action::Nothing,
            },
            Cmd::Disconnect(name) => match find(&self.profiles, &name) {
                Some(p) => {
                    let mut v: Vec<Profile> = Vec::new();
                    let p = p.clone();
                    v.push(p);
                    assert(model::profile_texts(v@) =~= seq![p@]);
                    Action::Disconnect(v)
                },
                None => Action::Nothing,
            },
            Cmd::DisconnectAll => Action::Disconnect(list_up(&self.profiles, &self.connected)),
            Cmd::OpenWindow => Action::OpenWindow,
            Cmd::About => Action::About,
            Cmd::Refresh => Action::Refresh,
            Cmd::Quit => Action::Quit,
            Cmd::TrayUnavailable => {
                let shown: bool = self.fallback_shown;
                self.fallback_shown = true;
                if shown {
                    Action::Nothing
                } else {
                    Action::Fallback(
                        Notice {
                            summary: "VpncBar: no system tray".to_owned(),
                            body: "No status-tray host was found, so the tray icon can't be shown. The VpncBar window is open instead. On GNOME, enable the AppIndicator/KStatusNotifierItem extension to get the tray icon.".to_owned(),
                        },
                    )
                }
            },
            Cmd::TrayRestored => {
                self.fallback_shown = false;
                Action::Nothing
            },
        }
    }

    /// The profiles to take down before the program ends, from a last look at the machine.
    pub fn disconnect_all_sync(profiles: &Vec<Profile>, live: &Tunnels) -> (r: Vec<Profile>)
        ensures
            model::profile_texts(r@) == up(model::profile_texts(profiles@), live@),
    {
        list_up(profiles, live)
    }
}

// ---- laws ----

/// How often the window is shown in place of the tray in the course of commands.
pub open spec fn fallbacks(shown: bool, cmds: Seq<Cmd>) -> nat
    decreases cmds.len(),
{
    if cmds.len() == 0 {
        0
    } else {
        let first: nat = if cmds[0] is TrayUnavailable && !shown {
            1
        } else {
            0
        };
        first + fallbacks(fallback_after(shown, cmds[0]), cmds.skip(1))
    }
}

/// For as long as no tray comes back, the window is shown in its place once, at the first command
/// that says that there is none, and never again.
pub proof fn law_fallback_is_shown_once(shown: bool, cmds: Seq<Cmd>)
    requires
        forall|i: int| 0 <= i < cmds.len() ==> !(#[trigger] cmds[i] is TrayRestored),
    ensures
        fallbacks(shown, cmds) == (if !shown && (exists|i: int|
            0 <= i < cmds.len() && #[trigger] cmds[i] is TrayUnavailable) {
            1nat
        } else {
            0nat
        }),
    decreases cmds.len(),
{
    if cmds.len() > 0 {
        let rest = cmds.skip(1);
        assert forall|i: int| 0 <= i < rest.len() implies !(#[trigger] rest[i] is TrayRestored) by {
            assert(rest[i] == cmds[i + 1]);
        }
        law_fallback_is_shown_once(fallback_after(shown, cmds[0]), rest);
        if exists|i: int| 0 <= i < rest.len() && #[trigger] rest[i] is TrayUnavailable {
            let i = choose|i: int| 0 <= i < rest.len() && #[trigger] rest[i] is TrayUnavailable;
            assert(cmds[i + 1] is TrayUnavailable);
        }
        if exists|i: int| 0 <= i < cmds.len() && #[trigger] cmds[i] is TrayUnavailable {
            let i = choose|i: int| 0 <= i < cmds.len() && #[trigger] cmds[i] is TrayUnavailable;
            if i > 0 {
                assert(rest[i - 1] is TrayUnavailable);
            }
        }
    }
}

/// The window is shown in place of the tray exactly where [`fallbacks`] counts it.
pub proof fn law_fallback_is_counted(s: AppText, cmd: Cmd)
    ensures
        action_on(s, cmd) is Fallback <==> fallbacks(s.fallback_shown, seq![cmd]) == 1,
{
    assert(seq![cmd].skip(1) =~= Seq::empty());
    assert(fallbacks(fallback_after(s.fallback_shown, cmd), Seq::<Cmd>::empty()) == 0);
}

/// The first look tells of nothing, however many tunnels it finds.
pub proof fn law_first_look_is_silent(s: AppText, now: Map<Seq<char>, (u32, u64)>)
    requires
        !s.looked,
    ensures
        opened(s, now) == Set::<Seq<char>>::empty(),
        closed(s, now) == Set::<Seq<char>>::empty(),
{
}

/// A second look that finds the same tunnels tells of nothing, whatever their ages are by then.
pub proof fn law_second_look_is_silent(
    s: AppText,
    profiles: Seq<ProfileText>,
    now: Map<Seq<char>, (u32, u64)>,
    ages: Map<Seq<char>, u64>,
)
    ensures
        opened(refreshed(s, profiles, now), aged(now, ages)) == Set::<Seq<char>>::empty(),
        closed(refreshed(s, profiles, now), aged(now, ages)) == Set::<Seq<char>>::empty(),
{
    assert(aged(now, ages).dom() =~= now.dom());
    assert(now.dom().difference(now.dom()) =~= Set::empty());
}

/// Between two looks, a tunnel is told of as up or as down and never as both, and exactly where
/// only one of the looks found it.
pub proof fn law_each_change_is_told(s: AppText, now: Map<Seq<char>, (u32, u64)>, name: Seq<char>)
    requires
        s.looked,
    ensures
        !(opened(s, now).contains(name) && closed(s, now).contains(name)),
        opened(s, now).contains(name) || closed(s, now).contains(name)
            <==> s.connected.contains_key(name) != now.contains_key(name),
{
}

/// After a look, only processes of live tunnels are waited for, and none of them is left out once
/// those that were asked for are.
pub proof fn law_live_processes_are_watched(
    s: AppText,
    profiles: Seq<ProfileText>,
    now: Map<Seq<char>, (u32, u64)>,
)
    ensures
        refreshed(s, profiles, now).watched.subset_of(pids(now)),
        refreshed(s, profiles, now).watched.union(pids(now).difference(s.watched)) == pids(now),
{
    assert(s.watched.intersect(pids(now)).union(pids(now).difference(s.watched)) =~= pids(now));
}

/// What is taken down together is what is up: each profile whose label has a live tunnel, and no
/// other.
pub proof fn law_all_that_is_up_goes_down(
    profiles: Seq<ProfileText>,
    live: Map<Seq<char>, (u32, u64)>,
    p: ProfileText,
)
    ensures
        up(profiles, live).contains(p) <==> profiles.contains(p) && live.contains_key(p.name),
    decreases profiles.len(),
{
    if profiles.len() > 0 {
        let t = profiles.drop_last();
        law_all_that_is_up_goes_down(t, live, p);
        assert(t.push(profiles.last()) =~= profiles);
        lemma_push_contains(t, profiles.last(), p);
        lemma_push_contains(up(t, live), profiles.last(), p);
    }
}

} // verus!
