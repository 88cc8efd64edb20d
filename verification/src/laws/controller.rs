//! The controller, the tray and the main window.

use crate::app;
use crate::app::{ActionText, AppText, Cmd};
use crate::model::ProfileText;
use crate::number;
use crate::scan;
use crate::tray;
use crate::tray::ItemText;
use crate::tunnel;
use crate::ui::window;
use vstd::prelude::*;

verus! {

// ---- looks ----

/// Between two looks, what is there only now has come up, and what was there only before has gone
/// down.
pub proof fn law_change_is_told_as_what_it_is(
    s: AppText,
    now: Map<Seq<char>, (u32, u64)>,
    name: Seq<char>,
)
    requires
        s.looked,
    ensures
        app::opened(s, now).contains(name) <==> now.contains_key(name)
            && !s.connected.contains_key(name),
        app::closed(s, now).contains(name) <==> s.connected.contains_key(name)
            && !now.contains_key(name),
{
}

/// After a look the controller knows the profiles and the tunnels that it was shown, and waits for
/// no process that is gone; what it knows of the tray is as before.
pub proof fn law_look_is_remembered(
    s: AppText,
    profiles: Seq<ProfileText>,
    now: Map<Seq<char>, (u32, u64)>,
    pid: u32,
)
    ensures
        ({
            let r = app::refreshed(s, profiles, now);
            &&& r.profiles == profiles
            &&& r.connected == now
            &&& r.looked
            &&& r.fallback_shown == s.fallback_shown
            &&& r.watched.contains(pid) <==> s.watched.contains(pid) && exists|k: Seq<char>|
                now.contains_key(k) && (#[trigger] now[k]).0 == pid
        }),
{
    assert(app::pids(now).contains(pid) <==> exists|k: Seq<char>|
        now.contains_key(k) && (#[trigger] now[k]).0 == pid) by {
        if app::pids(now).contains(pid) {
            let k = choose|k: Seq<char>| now.dom().contains(k) && now[k].0 == pid;
            assert(now.contains_key(k) && now[k].0 == pid);
        }
        if exists|k: Seq<char>| now.contains_key(k) && (#[trigger] now[k]).0 == pid {
            let k = choose|k: Seq<char>| now.contains_key(k) && (#[trigger] now[k]).0 == pid;
            assert(now.dom().contains(k));
        }
    }
}

/// A tunnel that gets older keeps its process; one that no age is known of keeps its own.
pub proof fn law_tunnels_grow_older(
    m: Map<Seq<char>, (u32, u64)>,
    ages: Map<Seq<char>, u64>,
    name: Seq<char>,
)
    ensures
        app::aged(m, ages).contains_key(name) <==> m.contains_key(name),
        m.contains_key(name) && ages.contains_key(name) ==> app::aged(m, ages)[name] == (
            m[name].0,
            ages[name],
        ),
        m.contains_key(name) && !ages.contains_key(name) ==> app::aged(m, ages)[name] == m[name],
{
}

// ---- commands ----

/// A command that names a profile is for the first of that label.
pub proof fn law_label_names_the_first(profiles: Seq<ProfileText>, name: Seq<char>, i: int)
    ensures
        0 <= i < profiles.len() && profiles[i].name == name && (forall|j: int|
            0 <= j < i ==> (#[trigger] profiles[j]).name != name) ==> app::place_of(profiles, name)
            == Some(i),
        (forall|j: int| 0 <= j < profiles.len() ==> (#[trigger] profiles[j]).name != name)
            ==> app::place_of(profiles, name) is None,
        app::place_of(profiles, name) matches Some(k) ==> 0 <= k < profiles.len()
            && profiles[k].name == name,
{
    let f = |p: ProfileText| p.name == name;
    scan::lemma_first_where(profiles, f);
    if 0 <= i < profiles.len() && profiles[i].name == name {
        assert(f(profiles[i]));
        if let Some(k) = scan::first_where(profiles, f) {
            if i < k {
                assert(!f(profiles[i]));
            }
            assert(f(profiles[k]));
        }
    }
    if let Some(k) = scan::first_where(profiles, f) {
        assert(f(profiles[k]));
        assert(profiles[k].name == name);
    }
}

/// Asked to connect, the controller brings the named profile up; it asks for a code before where the
/// profile is one for openconnect and says so. Asked to disconnect, it takes that one profile down.
/// A label that no profile has asks for nothing.
pub proof fn law_named_profile_is_acted_on(s: AppText, name: String, i: int)
    ensures
        ({
            let up = app::action_on(s, Cmd::Connect(name));
            let down = app::action_on(s, Cmd::Disconnect(name));
            let p = s.profiles[i];
            let coded = p.kind == Some("openconnect"@) && p.oc_otp == Some(true);
            let first = 0 <= i < s.profiles.len() && p.name == name@ && (forall|j: int|
                0 <= j < i ==> (#[trigger] s.profiles[j]).name != name@);
            let unknown = forall|j: int|
                0 <= j < s.profiles.len() ==> (#[trigger] s.profiles[j]).name != name@;
            &&& first && coded ==> up == ActionText::AskCode(p)
            &&& first && !coded ==> up == ActionText::Connect(p, None)
            &&& first ==> down == ActionText::Disconnect(seq![p])
            &&& unknown ==> up is Nothing && down is Nothing
        }),
{
    law_label_names_the_first(s.profiles, name@, i);
}

/// What is taken down together are the profiles whose labels have live tunnels, in their order.
pub proof fn law_those_up_go_down_in_order(
    profiles: Seq<ProfileText>,
    live: Map<Seq<char>, (u32, u64)>,
)
    ensures
        app::up(profiles, live) == profiles.filter(|p: ProfileText| live.contains_key(p.name)),
    decreases profiles.len(),
{
    reveal(Seq::filter);
    if profiles.len() > 0 {
        law_those_up_go_down_in_order(profiles.drop_last(), live);
    } else {
        assert(app::up(profiles, live) =~= profiles.filter(
            |p: ProfileText| live.contains_key(p.name),
        ));
    }
}

/// The other commands ask for what they are called; a tray that is lost shows the window and says
/// why, unless that was done, and one that is back asks for nothing.
pub proof fn law_commands_ask_for_what_they_say(s: AppText)
    ensures
        app::action_on(s, Cmd::DisconnectAll) == ActionText::Disconnect(
            s.profiles.filter(|p: ProfileText| s.connected.contains_key(p.name)),
        ),
        app::action_on(s, Cmd::OpenWindow) is OpenWindow,
        app::action_on(s, Cmd::About) is About,
        app::action_on(s, Cmd::Refresh) is Refresh,
        app::action_on(s, Cmd::Quit) is Quit,
        s.fallback_shown ==> app::action_on(s, Cmd::TrayUnavailable) is Nothing,
        !s.fallback_shown ==> app::action_on(s, Cmd::TrayUnavailable) == ActionText::Fallback(
            "VpncBar: no system tray"@,
            app::no_tray_text(),
        ),
        app::action_on(s, Cmd::TrayRestored) is Nothing,
        app::fallback_after(s.fallback_shown, Cmd::TrayUnavailable),
        !app::fallback_after(s.fallback_shown, Cmd::TrayRestored),
        app::fallback_after(s.fallback_shown, Cmd::Refresh) == s.fallback_shown,
        app::fallback_after(s.fallback_shown, Cmd::OpenWindow) == s.fallback_shown,
{
    law_those_up_go_down_in_order(s.profiles, s.connected);
}

// ---- the tray ----

/// A profile's line in the menu says its label, and behind it in brackets for how long it is up.
pub proof fn law_menu_says_how_long(
    names: Seq<Seq<char>>,
    live: Map<Seq<char>, (u32, u64)>,
    i: int,
)
    requires
        0 <= i < names.len(),
    ensures
        live.contains_key(names[i]) ==> tray::menu_text(names, live)[i] == (ItemText::Profile {
            name: names[i],
            label: names[i] + " ("@ + tunnel::elapsed_text(live[names[i]].1 as nat) + ")"@,
            up: true,
        }),
        !live.contains_key(names[i]) ==> tray::menu_text(names, live)[i] == (ItemText::Profile {
            name: names[i],
            label: names[i],
            up: false,
        }),
{
}

/// Under the profiles, or a line that says that there are none, the menu has the commands: all can
/// be taken down where something is up, the window and the word about the program can be had, and
/// at the end the program can be left. There is nothing else in it.
pub proof fn law_menu_has_the_commands(names: Seq<Seq<char>>, live: Map<Seq<char>, (u32, u64)>)
    ensures
        ({
            let m = tray::menu_text(names, live);
            let n = if names.len() == 0 {
                1int
            } else {
                names.len() as int
            };
            let open = ItemText::Command { label: "Open VpncBar\u{2026}"@, cmd: Cmd::OpenWindow };
            let about = ItemText::Command { label: "About"@, cmd: Cmd::About };
            let quit = ItemText::Command { label: "Quit"@, cmd: Cmd::Quit };
            let all = ItemText::Command { label: "Disconnect All"@, cmd: Cmd::DisconnectAll };
            let bar = ItemText::Separator;
            &&& names.len() == 0 ==> m[0] == (ItemText::Disabled { label: "No VPNs"@ })
            &&& live.dom() =~= Set::empty() ==> m.skip(n) == seq![bar, open, about, bar, quit]
            &&& !(live.dom() =~= Set::empty()) ==> m.skip(n) == seq![
                bar,
                all,
                open,
                about,
                bar,
                quit,
            ]
        }),
{
    let none = Map::<Seq<char>, (u32, u64)>::empty();
    if live.dom() =~= Set::empty() {
        assert(live =~= none);
    } else if live == none {
        assert(live.dom() =~= Set::empty());
    }
    let m = tray::menu_text(names, live);
    let r = tray::rows(names, live);
    let c = tray::commands(live != none);
    assert(m.skip(r.len() as int) =~= c);
}

/// The tool tip counts the tunnels, in words that fit the number.
pub proof fn law_tip_counts_the_tunnels(n: nat)
    ensures
        n >= 2 ==> tray::tip_text(n) == number::decimal(n) + " tunnels up"@,
        n == 1 ==> tray::tip_text(n) == "1 tunnel up"@,
        n == 0 ==> tray::tip_text(n) == "No tunnels up"@,
{
}

// ---- the window ----

/// A profile's line in the window says its label, its backend and for how many seconds it is up.
pub proof fn law_line_says_backend_and_age(
    p: ProfileText,
    live: Map<Seq<char>, (u32, u64)>,
)
    ensures
        ({
            let l = window::line_text(p, live);
            &&& l.name == p.name
            &&& p.kind == Some("openconnect"@) ==> l.backend == "AnyConnect (openconnect)"@
            &&& p.kind != Some("openconnect"@) ==> l.backend == "Cisco IPSec (vpnc)"@
            &&& live.contains_key(p.name) ==> l.up == Some(live[p.name].1)
            &&& !live.contains_key(p.name) ==> l.up is None
        }),
{
}

} // verus!
