//! Secrets, which are kept by the desktop's secret service and reached through `secret-tool`.

use crate::args;
use crate::model;
use crate::model::Profile;
use crate::strings;
use crate::sys::{Invocation, InvocationText, Output, SECRET_TOOL};
use crate::text;
use vstd::prelude::*;

verus! {

/// The service under which a profile's secret of a kind is kept.
pub open spec fn service_text(p: model::ProfileText, kind: Seq<char>) -> Seq<char> {
    "vpnc-"@ + model::ident_text(p) + "-"@ + kind
}

/// The service under which the profile's secret of a kind is kept.
pub fn kc_service(p: &Profile, kind: &str) -> (r: String)
    ensures
        r@ == service_text(p@, kind@),
{
    text::cat(&text::cat3("vpnc-", p.ident(), "-"), kind)
}

/// A profile with a uuid keeps its secrets whatever else of it changes, its label above all.
pub proof fn law_rename_keeps_secrets(
    before: model::ProfileText,
    after: model::ProfileText,
    kind: Seq<char>,
)
    requires
        before.uuid is Some,
        before.uuid == after.uuid,
    ensures
        service_text(before, kind) == service_text(after, kind),
{
}

/// Looks the secret of a service up.
pub fn lookup(service: &str) -> (r: Invocation)
    ensures
        r@ == (InvocationText {
            program: SECRET_TOOL@,
            args: seq!["lookup"@, "service"@, service@],
            stdin: None,
        }),
{
    Invocation {
        program: SECRET_TOOL.to_owned(),
        args: args::list3("lookup", "service", service),
        stdin: None,
    }
}

/// The secret in the answer to a lookup: the output without line feeds at its end.
pub open spec fn secret_text(status: i32, out: Seq<char>) -> Option<Seq<char>> {
    let v = text::trim_end_of(out, '\n');
    if status == 0 && v.len() > 0 {
        Some(v)
    } else {
        None
    }
}

/// The secret in the answer to a lookup; nothing where there is none or it is empty.
pub fn get(answer: &Output) -> (r: Option<String>)
    ensures
        strings::opt(r) == secret_text(answer.status, answer.out@),
{
    if !answer.ok() {
        return None;
    }
    let v = text::trimmed_end_of(&answer.out, '\n');
    if v.as_str().is_empty() {
        None
    } else {
        Some(v)
    }
}

/// What keeps a secret.
pub open spec fn store_text(
    service: Seq<char>,
    account: Seq<char>,
    value: Seq<char>,
) -> InvocationText {
    InvocationText {
        program: SECRET_TOOL@,
        args: seq!["store"@, "--label"@, service, "service"@, service, "account"@, account],
        stdin: Some(value),
    }
}

/// Keeps a secret. The account is recorded for the reader's sake.
pub fn store(service: &str, account: &str, value: &str) -> (r: Invocation)
    ensures
        r@ == store_text(service@, account@, value@),
{
    let mut argv = args::list3("store", "--label", service);
    args::push(&mut argv, "service");
    args::push(&mut argv, service);
    args::push(&mut argv, "account");
    args::push(&mut argv, account);
    Invocation { program: SECRET_TOOL.to_owned(), args: argv, stdin: Some(value.to_owned()) }
}

/// The arguments that keep a secret are the same whatever the secret: it is only read from the
/// standard input.
pub proof fn law_secret_is_not_an_argument(
    service: Seq<char>,
    account: Seq<char>,
    one: Seq<char>,
    other: Seq<char>,
)
    ensures
        store_text(service, account, one).program == store_text(service, account, other).program,
        store_text(service, account, one).args == store_text(service, account, other).args,
        store_text(service, account, one).stdin == Some(one),
{
}

/// A secret that was kept reads back as it is, whether or not the answer ends its line, unless it
/// ends in a line feed itself.
pub proof fn law_secret_reads_back(value: Seq<char>)
    requires
        value.len() > 0,
        value.last() != '\n',
    ensures
        secret_text(0, value) == Some(value),
        secret_text(0, value.push('\n')) == Some(value),
{
    assert(value.push('\n').drop_last() =~= value);
}

/// What forgets a secret.
pub open spec fn delete_text(service: Seq<char>) -> InvocationText {
    InvocationText {
        program: SECRET_TOOL@,
        args: seq!["clear"@, "service"@, service],
        stdin: None,
    }
}

/// Forgets the secret of a service.
pub fn delete(service: &str) -> (r: Invocation)
    ensures
        r@ == delete_text(service@),
{
    Invocation {
        program: SECRET_TOOL.to_owned(),
        args: args::list3("clear", "service", service),
        stdin: None,
    }
}

} // verus!
