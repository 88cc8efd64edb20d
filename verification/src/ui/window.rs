//! The main window: a line for each profile, with a timer for each that is up.

use crate::app::Cmd;
use crate::model;
use crate::model::{Profile, ProfileText};
use crate::secrets;
use crate::sys::Invocation;
use crate::text;
use crate::tunnel;
use crate::tunnel::Tunnels;
use vstd::prelude::*;

verus! {

/// A profile's line.
#[derive(Debug)]
pub struct Line {
    pub name: String,
    pub backend: &'static str,
    /// How long it is up, in seconds.
    pub up: Option<u64>,
}

/// A profile's line, as texts.
pub struct LineText {
    pub name: Seq<char>,
    pub backend: Seq<char>,
    pub up: Option<u64>,
}

impl View for Line {
    type V = LineText;

    open spec fn view(&self) -> LineText {
        LineText { name: self.name@, backend: self.backend@, up: self.up }
    }
}

/// What lines hold.
pub open spec fn line_texts(v: Seq<Line>) -> Seq<LineText> {
    v.map_values(|l: Line| l@)
}

/// What a profile's line shows.
pub open spec fn line_text(p: ProfileText, live: Map<Seq<char>, (u32, u64)>) -> LineText {
    LineText {
        name: p.name,
        backend: if model::openconnect_kind(p.kind) {
            "AnyConnect (openconnect)"@
        } else {
            "Cisco IPSec (vpnc)"@
        },
        up: if live.contains_key(p.name) {
            Some(live[p.name].1)
        } else {
            None
        },
    }
}

/// The lines of the profiles.
pub fn lines(profiles: &Vec<Profile>, live: &Tunnels) -> (r: Vec<Line>)
    ensures
        line_texts(r@) == model::profile_texts(profiles@).map_values(
            |p: ProfileText| line_text(p, live@),
        ),
{
    let ghost all = model::profile_texts(profiles@).map_values(
        |p: ProfileText| line_text(p, live@),
    );
    let mut out: Vec<Line> = Vec::new();
    let mut i: usize = 0;
    assert(line_texts(out@) =~= all.take(0));
    while i < profiles.len()
        invariant
            i <= profiles@.len(),
            all == model::profile_texts(profiles@).map_values(
                |p: ProfileText| line_text(p, live@),
            ),
            line_texts(out@) == all.take(i as int),
        decreases profiles.len() - i,
    {
        let ghost before = out@;
        let p = &profiles[i];
        let backend = if p.is_openconnect() {
            "AnyConnect (openconnect)"
        } else {
            "Cisco IPSec (vpnc)"
        };
        let up = match live.get(&p.name) {
            Some(entry) => Some(entry.1),
            None => None,
        };
        let line = Line { name: p.name.clone(), backend, up };
        assert(line@ == line_text(p@, live@));
        assert(all[i as int] == line@);
        out.push(line);
        assert(line_texts(out@) =~= line_texts(before).push(line@));
        i += 1;
        assert(line_texts(out@) =~= all.take(i as int));
    }
    assert(all.take(all.len() as int) =~= all);
    out
}

/// What a timer shows some seconds after it was set.
pub fn timer(base: u64, since: u64) -> (r: String)
    requires
        base + since <= u64::MAX,
    ensures
        r@ == tunnel::elapsed_text((base + since) as nat),
{
    tunnel::format_elapsed(base + since)
}

/// What the button on a line says.
pub fn tooltip(up: bool) -> (r: &'static str)
    ensures
        r@ == (if up {
            "Disconnect"@
        } else {
            "Connect"@
        }),
{
    if up {
        "Disconnect"
    } else {
        "Connect"
    }
}

/// What pressing the button on a line asks for.
pub fn click(name: &str, up: bool) -> (r: Cmd)
    ensures
        match r {
            Cmd::Disconnect(n) => up && n@ == name@,
            Cmd::Connect(n) => !up && n@ == name@,
            _ => false,
        },
{
    if up {
        Cmd::Disconnect(name.to_owned())
    } else {
        Cmd::Connect(name.to_owned())
    }
}

/// Whether everything can be taken down from the window: where something is up.
pub fn shows_disconnect_all(live: &Tunnels) -> (r: bool)
    ensures
        r == (live@ != Map::<Seq<char>, (u32, u64)>::empty()),
{
    !live.is_empty()
}

/// What is asked before a profile is removed.
pub fn remove_question(p: &Profile) -> (r: String)
    ensures
        r@ == "Remove \u{201c}"@ + p@.name + "\u{201d}?"@,
{
    text::cat3("Remove \u{201c}", &p.name, "\u{201d}?")
}

/// Removes the profile: the list without it, and what forgets its secrets, both of them.
pub fn remove(p: &Profile, list: &Vec<Profile>) -> (r: (Vec<Profile>, Invocation, Invocation))
    ensures
        model::profile_texts(r.0@) == model::others(model::profile_texts(list@), p@.uuid),
        r.1@ == secrets::delete_text(secrets::service_text(p@, "secret"@)),
        r.2@ == secrets::delete_text(secrets::service_text(p@, "password"@)),
{
    let secret = secrets::delete(&secrets::kc_service(p, "secret"));
    let password = secrets::delete(&secrets::kc_service(p, "password"));
    (model::remove_profile(list, p), secret, password)
}

/// The lines show every profile once, in order.
pub proof fn law_each_profile_has_a_line(
    profiles: Seq<ProfileText>,
    live: Map<Seq<char>, (u32, u64)>,
    i: int,
)
    requires
        0 <= i < profiles.len(),
    ensures
        profiles.map_values(|p: ProfileText| line_text(p, live)).len() == profiles.len(),
        profiles.map_values(|p: ProfileText| line_text(p, live))[i].name == profiles[i].name,
        profiles.map_values(|p: ProfileText| line_text(p, live))[i].up is Some
            <==> live.contains_key(profiles[i].name),
{
}

} // verus!
