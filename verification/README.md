# VpncBar

A tray front-end for two VPN programs, `vpnc` (Cisco IPSec) and `openconnect` (AnyConnect SSL). It
lives in the system tray, keeps profiles, stores secrets in the Secret Service, and brings tunnels
up and down through polkit.

The logic is a library that is verified with Verus; what touches the machine is an ordinary
program around it.

| Where | What |
|-------|------|
| `src/text.rs`, `scan.rs`, `number.rs`, `strings.rs`, `text_map.rs`, `args.rs` | strings, searching and splitting, numbers, maps by text, lists of arguments |
| `src/model.rs` | profiles, their files, the sorted list of profiles, uuids |
| `src/sys.rs`, `privilege.rs`, `secrets.rs` | the machine's tools: what they are asked and what their answers mean |
| `src/tunnel.rs` | live tunnels, from the process list and the kernel's files |
| `src/backend/` | the command lines, configurations and results of both backends |
| `src/config_import.rs` | reading `.pcf` and `.conf` files |
| `src/app.rs` | the controller: commands and looks at the machine, and what is to be done on them |
| `src/tray.rs`, `tray_icon.rs` | the tray's menu; the path and the pixels of its icon |
| `src/ui/` | the windows: lines, forms, pages, information and logs |
| `src/cli.rs` | the commands that need no window |
| `app/` | the program: GTK, the tray's D-Bus service, processes, files and threads |
| `tests/` | tests of the library |

Contracts are stated over views: a string is a `Seq<char>`, a profile a `ProfileText`, a map by
text a `Map<Seq<char>, V>`. Functions that need something from the machine take it as an argument:
a program's `Output`, the content of a file, the list of processes. Functions that want something
done return it as a value, most often an `Invocation`. Proof functions whose names begin with
`law_` state what holds across functions.

Five things are taken on trust, each behind an item with a doc comment: `String::push`,
`char::is_alphanumeric` and `str::to_lowercase` outside ASCII, `String::from_utf8_lossy`, and
`dirs::config_dir`.
