//! The tray: its menu and its tool tip, from the profiles and the live tunnels.

use crate::app::Cmd;
use crate::number;
use crate::strings;
use crate::text;
use crate::tunnel;
use crate::tunnel::Tunnels;
use vstd::prelude::*;

verus! {

/// What the tray shows: the labels of the profiles, and the live tunnels.
pub struct Tray {
    pub profiles: Vec<String>,
    pub connected: Tunnels,
}

/// An item of the menu.
#[derive(Debug)]
pub enum Item {
    Separator,
    /// A line that cannot be chosen.
    Disabled { label: String },
    /// A profile. What choosing it asks for is [`Tray::row_command`].
    Profile { name: String, label: String, up: bool },
    Command { label: String, cmd: Cmd },
}

/// An item of the menu, as texts.
pub enum ItemText {
    Separator,
    Disabled { label: Seq<char> },
    Profile { name: Seq<char>, label: Seq<char>, up: bool },
    Command { label: Seq<char>, cmd: Cmd },
}

impl View for Item {
    type V = ItemText;

    open spec fn view(&self) -> ItemText {
        match *self {
            Item::Separator => ItemText::Separator,
            Item::Disabled { label } => ItemText::Disabled { label: label@ },
            Item::Profile { name, label, up } => ItemText::Profile {
                name: name@,
                label: label@,
                up,
            },
            Item::Command { label, cmd } => ItemText::Command { label: label@, cmd },
        }
    }
}

/// What the items of a menu hold.
pub open spec fn item_texts(v: Seq<Item>) -> Seq<ItemText> {
    v.map_values(|i: Item| i@)
}

/// What a profile's line says: its label, and for how long it has been up where it is.
pub open spec fn row_label(name: Seq<char>, live: Map<Seq<char>, (u32, u64)>) -> Seq<char> {
    if live.contains_key(name) {
        name + " ("@ + tunnel::elapsed_text(live[name].1 as nat) + ")"@
    } else {
        name
    }
}

/// A profile's line.
pub open spec fn row(name: Seq<char>, live: Map<Seq<char>, (u32, u64)>) -> ItemText {
    ItemText::Profile { name, label: row_label(name, live), up: live.contains_key(name) }
}

/// The lines of the profiles.
pub open spec fn rows(names: Seq<Seq<char>>, live: Map<Seq<char>, (u32, u64)>) -> Seq<ItemText> {
    if names.len() == 0 {
        seq![ItemText::Disabled { label: "No VPNs"@ }]
    } else {
        names.map_values(|n: Seq<char>| row(n, live))
    }
}

/// The commands under the profiles. All can be taken down where something is up.
pub open spec fn commands(any_up: bool) -> Seq<ItemText> {
    let manager = ItemText::Command { label: "Open VpncBar\u{2026}"@, cmd: Cmd::OpenWindow };
    let about = ItemText::Command { label: "About"@, cmd: Cmd::About };
    let quit = ItemText::Command { label: "Quit"@, cmd: Cmd::Quit };
    let all = ItemText::Command { label: "Disconnect All"@, cmd: Cmd::DisconnectAll };
    if any_up {
        seq![ItemText::Separator, all, manager, about, ItemText::Separator, quit]
    } else {
        seq![ItemText::Separator, manager, about, ItemText::Separator, quit]
    }
}

/// The menu.
pub open spec fn menu_text(names: Seq<Seq<char>>, live: Map<Seq<char>, (u32, u64)>) -> Seq<
    ItemText,
> {
    rows(names, live) + commands(live != Map::<Seq<char>, (u32, u64)>::empty())
}

/// What the tool tip says for a number of tunnels.
pub open spec fn tip_text(n: nat) -> Seq<char> {
    if n == 0 {
        "No tunnels up"@
    } else if n == 1 {
        "1 tunnel up"@
    } else {
        number::decimal(n) + " tunnels up"@
    }
}

impl Tray {
    fn push_rows(&self, items: &mut Vec<Item>)
        requires
            old(items)@.len() == 0,
        ensures
            item_texts(final(items)@) == rows(strings::texts(self.profiles@), self.connected@),
    {
        let ghost names = strings::texts(self.profiles@);
        let ghost live = self.connected@;
        let n: usize = self.profiles.len();
        if n == 0 {
            items.push(Item::Disabled { label: "No VPNs".to_owned() });
            assert(item_texts(items@) =~= rows(names, live));
            return;
        }
        let mut i: usize = 0;
        while i < n
            invariant
                i <= n,
                n > 0,
                n == self.profiles@.len(),
                names == strings::texts(self.profiles@),
                live == self.connected@,
                item_texts(items@) == rows(names, live).take(i as int),
            decreases n - i,
        {
            let ghost before = items@;
            assert(names[i as int] == self.profiles@[i as int]@);
            let name = self.profiles[i].clone();
            let (label, up): (String, bool) = match self.connected.get(&name) {
                Some(entry) => {
                    let mut s = text::cat3(&name, " (", &tunnel::format_elapsed(entry.1));
                    s.append(")");
                    (s, true)
                },
                None => (name.clone(), false),
            };
            let item = Item::Profile { name, label, up };
            assert(item@ == row(names[i as int], live));
            assert(rows(names, live)[i as int] == row(names[i as int], live));
            items.push(item);
            assert(item_texts(items@) =~= item_texts(before).push(item@));
            i += 1;
            assert(item_texts(items@) =~= rows(names, live).take(i as int));
        }
        assert(rows(names, live).take(n as int) =~= rows(names, live));
    }

    /// The menu: a line for each profile, and the commands.
    pub fn menu(&self) -> (r: Vec<Item>)
        ensures
            item_texts(r@) == menu_text(strings::texts(self.profiles@), self.connected@),
    {
        let mut items: Vec<Item> = Vec::new();
        self.push_rows(&mut items);
        let ghost top = items@;
        items.push(Item::Separator);
        if !self.connected.is_empty() {
            items.push(Item::Command {
                label: "Disconnect All".to_owned(),
                cmd: Cmd::DisconnectAll,
            });
        }
        items.push(Item::Command {
            label: "Open VpncBar\u{2026}".to_owned(),
            cmd: Cmd::OpenWindow,
        });
        items.push(Item::Command { label: "About".to_owned(), cmd: Cmd::About });
        items.push(Item::Separator);
        items.push(Item::Command { label: "Quit".to_owned(), cmd: Cmd::Quit });
        assert(item_texts(items@) =~= item_texts(top) + commands(
            self.connected@ != Map::<Seq<char>, (u32, u64)>::empty(),
        ));
        items
    }

    /// What choosing a profile's line asks for: it goes by what is up at that time.
    pub fn row_command(&self, name: &str) -> (r: Cmd)
        ensures
            match r {
                Cmd::Disconnect(n) => self.connected@.contains_key(name@) && n@ == name@,
                Cmd::Connect(n) => !self.connected@.contains_key(name@) && n@ == name@,
                _ => false,
            },
    {
        if self.connected.contains_key(name) {
            Cmd::Disconnect(name.to_owned())
        } else {
            Cmd::Connect(name.to_owned())
        }
    }

    /// What a left click on the icon asks for.
    pub fn activate(&self) -> (r: Cmd)
        ensures
            r == Cmd::OpenWindow,
    {
        Cmd::OpenWindow
    }

    /// What the tool tip says.
    pub fn tool_tip(&self) -> (r: String)
        ensures
            r@ == tip_text(self.connected@.dom().len()),
    {
        let n: usize = self.connected.len();
        if n == 0 {
            "No tunnels up".to_owned()
        } else if n == 1 {
            "1 tunnel up".to_owned()
        } else {
            text::cat(&number::to_decimal(n as u64), " tunnels up")
        }
    }

    /// Whether the icon is the closed padlock.
    pub fn locked(&self) -> (r: bool)
        ensures
            r == (self.connected@ != Map::<Seq<char>, (u32, u64)>::empty()),
    {
        !self.connected.is_empty()
    }
}

/// What it asks for that the tray has lost its host. Where the desktop has no trays at all there is
/// a window instead; a host that only went away tends to come back.
pub fn watcher_offline(unsupported: bool) -> (r: Option<Cmd>)
    ensures
        r == (if unsupported {
            Some(Cmd::TrayUnavailable)
        } else {
            None
        }),
{
    if unsupported {
        Some(Cmd::TrayUnavailable)
    } else {
        None
    }
}

/// What it asks for that the tray has a host again.
pub fn watcher_online() -> (r: Cmd)
    ensures
        r == Cmd::TrayRestored,
{
    Cmd::TrayRestored
}

/// Everything can be taken down from the menu exactly where something is up.
pub proof fn law_all_can_go_down_where_something_is_up(
    names: Seq<Seq<char>>,
    live: Map<Seq<char>, (u32, u64)>,
)
    ensures
        menu_text(names, live).contains(
            ItemText::Command { label: "Disconnect All"@, cmd: Cmd::DisconnectAll },
        ) <==> live != Map::<Seq<char>, (u32, u64)>::empty(),
{
    let m = menu_text(names, live);
    let item = ItemText::Command { label: "Disconnect All"@, cmd: Cmd::DisconnectAll };
    let any = live != Map::<Seq<char>, (u32, u64)>::empty();
    let n = rows(names, live).len() as int;
    if any {
        assert(m[n + 1] == item);
    } else if m.contains(item) {
        let i = choose|i: int| 0 <= i < m.len() && m[i] == item;
        if i < n {
            assert(m[i] == rows(names, live)[i]);
        } else {
            assert(m[i] == commands(any)[i - n]);
        }
    }
}

/// The window can always be opened from the menu.
pub proof fn law_window_can_be_opened(names: Seq<Seq<char>>, live: Map<Seq<char>, (u32, u64)>)
    ensures
        menu_text(names, live).contains(
            ItemText::Command { label: "Open VpncBar\u{2026}"@, cmd: Cmd::OpenWindow },
        ),
{
    let m = menu_text(names, live);
    let item = ItemText::Command { label: "Open VpncBar\u{2026}"@, cmd: Cmd::OpenWindow };
    let n = rows(names, live).len() as int;
    if live != Map::<Seq<char>, (u32, u64)>::empty() {
        assert(m[n + 2] == item);
    } else {
        assert(m[n + 1] == item);
    }
}

/// Each profile has one line, in the order of the profiles, and its tick shows whether it is up.
pub proof fn law_ticks_show_what_is_up(
    names: Seq<Seq<char>>,
    live: Map<Seq<char>, (u32, u64)>,
    i: int,
)
    requires
        0 <= i < names.len(),
    ensures
        menu_text(names, live)[i] matches ItemText::Profile { name, up, .. } && name == names[i]
            && up == live.contains_key(names[i]),
{
}

} // verus!
