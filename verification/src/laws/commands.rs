//! The commands that need no window.

use crate::cli;
use crate::cli::TaskText;
use crate::laws::controller;
use crate::model::ProfileText;
use crate::number;
use crate::secrets;
use crate::tunnel;
use vstd::prelude::*;

verus! {

/// Whether a profile is the one that a label names: the first that has it.
pub open spec fn is_called(profiles: Seq<ProfileText>, name: Seq<char>, p: ProfileText) -> bool {
    exists|i: int|
        0 <= i < profiles.len() && #[trigger] profiles[i] == p && p.name == name && (forall|j: int|
            0 <= j < i ==> (#[trigger] profiles[j]).name != name)
}

/// Whether no profile has a label.
pub open spec fn is_unknown(profiles: Seq<ProfileText>, name: Seq<char>) -> bool {
    forall|j: int| 0 <= j < profiles.len() ==> (#[trigger] profiles[j]).name != name
}

proof fn lemma_named(args: Seq<Seq<char>>, profiles: Seq<ProfileText>, p: ProfileText)
    requires
        args.len() > 2,
    ensures
        is_called(profiles, args[2], p) ==> cli::named(args, 2, profiles) == Some(p),
        is_unknown(profiles, args[2]) ==> cli::named(args, 2, profiles) is None,
{
    let name = args[2];
    if is_called(profiles, name, p) {
        let i = choose|i: int|
            0 <= i < profiles.len() && #[trigger] profiles[i] == p && p.name == name && (forall|
                j: int,
            |
                0 <= j < i ==> (#[trigger] profiles[j]).name != name);
        controller::law_label_names_the_first(profiles, name, i);
    }
    if is_unknown(profiles, name) {
        controller::law_label_names_the_first(profiles, name, 0);
    }
}

proof fn lemma_words_differ()
    ensures
        "list"@.len() == 4,
        "connect"@.len() == 7,
        "disconnect"@.len() == 10,
        "info"@.len() == 4,
        "groups"@.len() == 6,
        "set-secret"@.len() == 10,
        "config"@.len() == 6,
        "list"@ != "info"@,
        "groups"@ != "config"@,
        "disconnect"@ != "set-secret"@,
{
    reveal_strlit("list");
    reveal_strlit("connect");
    reveal_strlit("disconnect");
    reveal_strlit("info");
    reveal_strlit("groups");
    reveal_strlit("set-secret");
    reveal_strlit("config");
    assert("list"@[0] != "info"@[0]);
    assert("groups"@[0] != "config"@[0]);
    assert("disconnect"@[0] != "set-secret"@[0]);
}

/// Without a word, or with one that is no command, the windows are shown; the list needs no more
/// words.
pub proof fn law_other_words_show_the_windows(args: Seq<Seq<char>>, profiles: Seq<ProfileText>)
    ensures
        args.len() < 2 ==> cli::task(args, profiles) is Gui,
        args.len() >= 2 && args[1] == "list"@ ==> cli::task(args, profiles) is List,
        args.len() >= 2 && args[1] != "list"@ && args[1] != "connect"@ && args[1] != "disconnect"@
            && args[1] != "info"@ && args[1] != "groups"@ && args[1] != "set-secret"@ && args[1]
            != "config"@ ==> cli::task(args, profiles) is Gui,
{
}

/// A command on a profile is for the one that its label names; a label that is missing or that no
/// profile has brings up how the command is used.
pub proof fn law_commands_are_for_the_named_profile(
    args: Seq<Seq<char>>,
    profiles: Seq<ProfileText>,
    p: ProfileText,
)
    requires
        args.len() >= 2,
    ensures
        ({
            let t = cli::task(args, profiles);
            let called = args.len() > 2 && is_called(profiles, args[2], p);
            let unknown = args.len() == 2 || is_unknown(profiles, args[2]);
            let code = if args.len() > 3 {
                Some(args[3])
            } else {
                None
            };
            &&& args[1] == "connect"@ && called ==> t == TaskText::Connect(p, code)
            &&& args[1] == "disconnect"@ && called ==> t == TaskText::Disconnect(p)
            &&& args[1] == "info"@ && called ==> t == TaskText::Info(p)
            &&& args[1] == "config"@ && called && p.kind == Some("openconnect"@) ==> t
                == TaskText::Arguments(p)
            &&& args[1] == "config"@ && called && p.kind != Some("openconnect"@) ==> t
                == TaskText::Config(p)
            &&& args[1] == "connect"@ && unknown ==> t == TaskText::Usage(
                "usage: vpncbar connect <name> [otp]"@,
            )
            &&& args[1] == "disconnect"@ && unknown ==> t == TaskText::Usage(
                "usage: vpncbar disconnect <name>"@,
            )
            &&& args[1] == "info"@ && unknown ==> t == TaskText::Usage("usage: vpncbar info <name>"@)
            &&& args[1] == "config"@ && unknown ==> t == TaskText::Usage(
                "usage: vpncbar config <name>"@,
            )
        }),
{
    lemma_words_differ();
    if args.len() > 2 {
        lemma_named(args, profiles, p);
    }
}

/// A server is asked for its groups with the pin behind it, where there is one.
pub proof fn law_groups_are_asked_of_the_server(args: Seq<Seq<char>>, profiles: Seq<ProfileText>)
    requires
        args.len() >= 2,
        args[1] == "groups"@,
    ensures
        args.len() == 2 ==> cli::task(args, profiles) == TaskText::Usage(
            "usage: vpncbar groups <server> [servercert-pin]"@,
        ),
        args.len() == 3 ==> cli::task(args, profiles) == TaskText::Groups(args[2], None),
        args.len() > 3 ==> cli::task(args, profiles) == TaskText::Groups(args[2], Some(args[3])),
{
    lemma_words_differ();
}

/// A secret is kept under the service of its kind for the named profile, the group secret for the
/// group and the password for the user; it takes all three words.
pub proof fn law_secret_is_kept_for_the_named_profile(
    args: Seq<Seq<char>>,
    profiles: Seq<ProfileText>,
    p: ProfileText,
    uuid: Seq<char>,
)
    requires
        args.len() >= 2,
        args[1] == "set-secret"@,
        p.uuid == Some(uuid),
    ensures
        ({
            let t = cli::task(args, profiles);
            let called = args.len() > 4 && is_called(profiles, args[2], p);
            &&& called && args[3] == "secret"@ ==> t == TaskText::SetSecret(
                secrets::store_text("vpnc-"@ + uuid + "-"@ + "secret"@, p.id, args[4]),
            )
            &&& called && args[3] == "password"@ ==> t == TaskText::SetSecret(
                secrets::store_text("vpnc-"@ + uuid + "-"@ + "password"@, p.username, args[4]),
            )
            &&& args.len() < 5 || is_unknown(profiles, args[2]) ==> t == TaskText::Usage(
                "usage: vpncbar set-secret <name> <secret|password> <value>"@,
            )
        }),
{
    lemma_words_differ();
    if args.len() > 2 {
        lemma_named(args, profiles, p);
    }
    reveal_strlit("secret");
    reveal_strlit("password");
    assert("secret"@.len() != "password"@.len());
}

// ---- what is printed ----

/// A text that is brought to a width keeps its characters, and gets spaces on one side only where it
/// is shorter.
pub proof fn law_padding_is_spaces(s: Seq<char>, width: nat, i: int)
    ensures
        s.len() >= width ==> cli::right(s, width) == s && cli::left(s, width) == s,
        s.len() < width ==> {
            &&& cli::right(s, width).len() == width && cli::left(s, width).len() == width
            &&& cli::right(s, width).skip(width - s.len()) == s
            &&& cli::left(s, width).take(s.len() as int) == s
            &&& 0 <= i < width - s.len() ==> cli::right(s, width)[i] == ' '
            &&& s.len() <= i < width ==> cli::left(s, width)[i] == ' '
        },
{
    if s.len() < width {
        assert(cli::right(s, width).skip(width - s.len()) =~= s);
        assert(cli::left(s, width).take(s.len() as int) =~= s);
    }
}

/// A line of the list says the backend, the label, the gateway, and the process and the time of the
/// tunnel where it is up.
pub proof fn law_list_says_what_is_up(p: ProfileText, live: Map<Seq<char>, (u32, u64)>)
    ensures
        ({
            let head = |kind: Seq<char>| "  ["@ + kind + "] "@ + cli::left(p.name, 20) + " "@
                + p.gateway + "  ("@;
            let state = if live.contains_key(p.name) {
                "UP pid="@ + number::decimal(live[p.name].0 as nat) + " "@ + tunnel::elapsed_text(
                    live[p.name].1 as nat,
                )
            } else {
                "down"@
            };
            &&& p.kind == Some("openconnect"@) ==> cli::entry_text(p, live) == head("  oc"@) + state
                + ")"@
            &&& p.kind != Some("openconnect"@) ==> cli::entry_text(p, live) == head("vpnc"@) + state
                + ")"@
        }),
{
    reveal_strlit("oc");
    reveal_strlit("  oc");
    reveal_strlit("vpnc");
    assert(cli::right("oc"@, 4) =~= "  oc"@);
}

} // verus!
