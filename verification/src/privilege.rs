//! Running programs as root, through polkit's `pkexec`.

use crate::args;
use crate::scan;
use crate::strings;
use crate::sys::{Invocation, InvocationText, Output, PKEXEC};
use crate::text;
use vstd::prelude::*;

verus! {

/// A program to run as root: `pkexec` with the program as its first argument. What the program
/// reads stays as it is.
pub open spec fn as_root(
    program: Seq<char>,
    arguments: Seq<Seq<char>>,
    stdin: Option<Seq<char>>,
) -> InvocationText {
    InvocationText { program: PKEXEC@, args: seq![program] + arguments, stdin }
}

/// A program to run as root.
pub fn run_root(program: &str, arguments: &Vec<String>, stdin: Option<String>) -> (r: Invocation)
    ensures
        r@ == as_root(program@, strings::texts(arguments@), strings::opt(stdin)),
{
    let mut argv = args::list1(program);
    args::extend(&mut argv, arguments);
    Invocation { program: PKEXEC.to_owned(), args: argv, stdin }
}

/// Whether a failure was the user's refusal to authorize.
pub open spec fn dismissed(status: i32, err: Seq<char>) -> bool {
    ||| status == 126
    ||| scan::has(text::fold(err), "not authorized"@)
    ||| scan::has(text::fold(err), "dismissed"@)
}

/// Whether the failure looks like the user's refusal to authorize. `pkexec` exits with 126 where
/// the user is not authorized or dismissed the dialog.
pub fn was_dismissed(o: &Output) -> (r: bool)
    ensures
        r == dismissed(o.status, o.err@),
{
    o.status == 126 || scan::has_folded(&o.err, "not authorized") || scan::has_folded(
        &o.err,
        "dismissed",
    )
}

} // verus!
