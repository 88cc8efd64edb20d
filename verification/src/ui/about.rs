//! The window about the program, from which it can be uninstalled.

use crate::args;
use crate::number;
use crate::privilege;
use crate::strings;
use crate::sys::{Invocation, Output};
use crate::text;
use vstd::prelude::*;

verus! {

broadcast use strings::lemma_texts_push;

/// Where the program has its home.
pub const REPO_URL: &'static str = "https://github.com/bouncyball-git/vpncbar-linux";

/// What removes the installed files. It succeeds whatever of them is there.
pub const UNINSTALL_SCRIPT: &'static str = "rm -f /usr/bin/vpncbar /usr/lib/vpncbar/vpncbar-script /usr/lib/vpncbar/vpncbar-disconnect /etc/polkit-1/rules.d/10-vpncbar.rules /usr/share/applications/io.github.vpncbar.desktop /usr/share/applications/vpncbar.desktop /usr/share/icons/hicolor/scalable/apps/io.github.vpncbar.svg /usr/share/icons/hicolor/scalable/apps/vpncbar.svg; rmdir /usr/lib/vpncbar 2>/dev/null; exit 0";

/// What is said of vpnc, by its version.
pub open spec fn vpnc_text(version: Option<Seq<char>>) -> Seq<char> {
    match version {
        Some(v) => v + " \u{b7} GPLv2"@,
        None => "vpnc: not installed"@,
    }
}

/// What is said of openconnect, by its version where it is installed.
pub open spec fn openconnect_text(installed: bool, version: Option<Seq<char>>) -> Seq<char> {
    if !installed {
        "openconnect: not installed"@
    } else {
        match version {
            Some(v) => v + " \u{b7} LGPLv2.1"@,
            None => "openconnect: installed"@,
        }
    }
}

/// What is said of the backends, a line for each.
pub fn backends(vpnc: Option<&str>, installed: bool, openconnect: Option<&str>) -> (r: String)
    ensures
        r@ == vpnc_text(strings::opt_str(vpnc)) + "\n"@ + openconnect_text(
            installed,
            strings::opt_str(openconnect),
        ),
{
    let first = match vpnc {
        Some(v) => text::cat(v, " \u{b7} GPLv2"),
        None => "vpnc: not installed".to_owned(),
    };
    let second = if !installed {
        "openconnect: not installed".to_owned()
    } else {
        match openconnect {
            Some(v) => text::cat(v, " \u{b7} LGPLv2.1"),
            None => "openconnect: installed".to_owned(),
        }
    };
    text::cat3(&first, "\n", &second)
}

/// The user's own files that start the program, under the user's configuration directory.
pub fn autostart_files() -> (r: (&'static str, &'static str))
    ensures
        r.0@ == "autostart/io.github.vpncbar.desktop"@,
        r.1@ == "autostart/vpncbar.desktop"@,
{
    ("autostart/io.github.vpncbar.desktop", "autostart/vpncbar.desktop")
}

/// The command that removes the installed files.
pub fn uninstall() -> (r: Invocation)
    ensures
        r@ == privilege::as_root("/bin/sh"@, seq!["-c"@, UNINSTALL_SCRIPT@], None),
{
    privilege::run_root("/bin/sh", &args::list2("-c", UNINSTALL_SCRIPT), None)
}

/// What is said where removing the files failed; nothing where it succeeded.
pub open spec fn failure_text(o: Output) -> Option<Seq<char>> {
    if o.status == 0 {
        None
    } else if privilege::dismissed(o.status, o.err@) {
        Some("Authorization was cancelled \u{2014} nothing was removed."@)
    } else {
        Some(
            "Removal failed (status "@ + number::signed_decimal(o.status as int) + "):\n"@ + (
            if o.err@.len() == 0 {
                o.out@
            } else {
                o.err@
            }),
        )
    }
}

/// What is said where removing the files failed; nothing where it succeeded.
pub fn uninstall_failure(o: &Output) -> (r: Option<String>)
    ensures
        strings::opt(r) == failure_text(*o),
{
    if o.ok() {
        return None;
    }
    if privilege::was_dismissed(o) {
        return Some("Authorization was cancelled \u{2014} nothing was removed.".to_owned());
    }
    let mut s = text::cat3(
        "Removal failed (status ",
        &number::to_signed_decimal(o.status),
        "):\n",
    );
    if o.err.as_str().is_empty() {
        s.append(&o.out);
    } else {
        s.append(&o.err);
    }
    Some(s)
}

} // verus!
