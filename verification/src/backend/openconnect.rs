//! openconnect: Cisco AnyConnect SSL and what is compatible with it.

use crate::args;
use crate::backend;
use crate::backend::{ActionResult, Launch};
use crate::model;
use crate::model::{Profile, ProfileText};
use crate::number;
use crate::privilege;
use crate::scan;
use crate::strings;
use crate::sys;
use crate::sys::{Host, Invocation, InvocationText, Output};
use crate::text;
use vstd::prelude::*;

verus! {

broadcast use strings::lemma_texts_push;

// ---- connecting ----

/// The arguments for a verbosity: 1, 2 and 3 ask for that much, 99 for the most and the HTTP
/// traffic, anything else for nothing; 1 where nothing is said.
pub open spec fn verbosity(debug: Option<Seq<char>>) -> Seq<Seq<char>> {
    let level = match model::given(debug) {
        Some(d) => d,
        None => "1"@,
    };
    if level == "1"@ {
        seq!["-v"@]
    } else if level == "2"@ {
        seq!["-vv"@]
    } else if level == "3"@ {
        seq!["-vvv"@]
    } else if level == "99"@ {
        seq!["-vvv"@, "--dump-http-traffic"@]
    } else {
        Seq::empty()
    }
}

fn push_verbosity(v: &mut Vec<String>, debug: &Option<String>)
    ensures
        strings::texts(final(v)@) == strings::texts(old(v)@) + verbosity(strings::opt(*debug)),
{
    let level = match model::ne_field(debug) {
        Some(d) => d,
        None => "1".to_owned(),
    };
    if text::equal(&level, "1") {
        args::push(v, "-v");
    } else if text::equal(&level, "2") {
        args::push(v, "-vv");
    } else if text::equal(&level, "3") {
        args::push(v, "-vvv");
    } else if text::equal(&level, "99") {
        args::push(v, "-vvv");
        args::push(v, "--dump-http-traffic");
    }
}

/// The arguments that every connection has, the program first.
pub open spec fn base_args(h: Host, p: ProfileText) -> Seq<Seq<char>> {
    seq![
        match sys::openconnect_program(h) {
            Some(path) => path,
            None => "openconnect"@,
        },
        "--background"@,
        "--pid-file"@,
        model::pid_path(h.config@, p),
        "--script"@,
        backend::invocation_text(h, p),
        "--protocol="@ + match model::given(p.oc_protocol) {
            Some(s) => s,
            None => "anyconnect"@,
        },
        "--passwd-on-stdin"@,
        "--user="@ + model::domain_and_user(p.username).1,
    ]
}

/// openconnect's program and arguments for a profile, the server last. The password is none of
/// them.
pub open spec fn args_text(h: Host, p: ProfileText) -> Seq<Seq<char>> {
    base_args(h, p) + verbosity(p.oc_debug) + args::if_set(p.oc_no_dtls == Some(true), "--no-dtls"@)
        + args::flagged("--dpd"@, p.oc_dpd) + args::flagged("--mtu"@, p.oc_mtu) + args::flagged(
        "--reconnect-timeout"@,
        p.oc_reconnect,
    ) + args::prefixed("--authgroup="@, p.oc_authgroup) + args::prefixed(
        "--servercert="@,
        p.oc_server_cert,
    ) + args::prefixed("--certificate="@, p.client_cert) + seq![p.gateway]
}

fn build_base_args(h: &Host, p: &Profile) -> (r: Vec<String>)
    ensures
        strings::texts(r@) == base_args(*h, p@),
{
    let program = match sys::openconnect_path(h) {
        Some(path) => path,
        None => "openconnect",
    };
    let protocol = match model::ne_field(&p.oc_protocol) {
        Some(s) => s,
        None => "anyconnect".to_owned(),
    };
    let mut v = args::list3(program, "--background", "--pid-file");
    args::push(&mut v, &model::pid_file(&h.config, p));
    args::push(&mut v, "--script");
    args::push(&mut v, &backend::script_invocation(h, p));
    args::push(&mut v, &text::cat("--protocol=", &protocol));
    args::push(&mut v, "--passwd-on-stdin");
    args::push(&mut v, &text::cat("--user=", &model::split_domain_user(&p.username).1));
    v
}

/// openconnect's program and arguments for the profile.
pub fn build_args(h: &Host, p: &Profile) -> (r: Vec<String>)
    ensures
        strings::texts(r@) == args_text(*h, p@),
{
    let mut v = build_base_args(h, p);
    push_verbosity(&mut v, &p.oc_debug);
    let tls_only: bool = match p.oc_no_dtls {
        Some(b) => b,
        None => false,
    };
    args::push_if(&mut v, tls_only, "--no-dtls");
    args::push_flagged(&mut v, "--dpd", &p.oc_dpd);
    args::push_flagged(&mut v, "--mtu", &p.oc_mtu);
    args::push_flagged(&mut v, "--reconnect-timeout", &p.oc_reconnect);
    args::push_prefixed(&mut v, "--authgroup=", &p.oc_authgroup);
    args::push_prefixed(&mut v, "--servercert=", &p.oc_server_cert);
    args::push_prefixed(&mut v, "--certificate=", &p.client_cert);
    args::push(&mut v, &p.gateway);
    assert(strings::texts(v@) =~= args_text(*h, p@));
    v
}

/// What openconnect reads: the password, then the one-time code where there is one, each on a line.
pub open spec fn input_text(password: Option<Seq<char>>, otp: Option<Seq<char>>) -> Seq<char> {
    let first = match password {
        Some(s) => s,
        None => Seq::empty(),
    } + "\n"@;
    match model::given(otp) {
        Some(code) => first + code + "\n"@,
        None => first,
    }
}

/// What is said where there is no openconnect.
pub open spec fn not_installed() -> Seq<char> {
    "openconnect isn't installed.\nInstall it with your package manager (e.g. pacman -S openconnect)."@
}

/// What brings the profile up: openconnect as root, with the password and the one-time code on its
/// standard input. It writes to the session log for as long as it runs. A message where there is
/// no openconnect.
pub fn connect(h: &Host, p: &Profile, password: Option<&str>, otp: Option<&str>) -> (r: Result<
    Launch,
    ActionResult,
>)
    ensures
        match r {
            Ok(l) => {
                &&& sys::openconnect_program(*h) is Some
                &&& l.command@ == privilege::as_root(
                    args_text(*h, p@)[0],
                    args_text(*h, p@).skip(1),
                    Some(input_text(strings::opt_str(password), strings::opt_str(otp))),
                )
                &&& l.log@ == model::log_path(""@, p@)
            },
            Err(e) => sys::openconnect_program(*h) is None && backend::message(e) == Some(
                not_installed(),
            ),
        },
{
    if sys::openconnect_path(h).is_none() {
        return Err(
            ActionResult::Message(
                "openconnect isn't installed.\nInstall it with your package manager (e.g. pacman -S openconnect)."
                    .to_owned(),
            ),
        );
    }
    let mut input = match password {
        Some(s) => s.to_owned(),
        None => String::new(),
    };
    input.append("\n");
    if let Some(code) = model::ne(otp) {
        input.append(&code);
        input.append("\n");
    }
    let mut argv = build_args(h, p);
    let ghost all = strings::texts(argv@);
    let program = argv.remove(0);
    assert(program@ == all[0]);
    assert(strings::texts(argv@) =~= all.skip(1));
    Ok(
        Launch {
            command: privilege::run_root(&program, &argv, Some(input)),
            log: model::log_file("", p),
        },
    )
}

/// How connecting ended, by what openconnect left behind.
pub open spec fn connect_message(o: Output) -> Option<Seq<char>> {
    if o.status == 0 {
        None
    } else if privilege::dismissed(o.status, o.err@) {
        Some(backend::cancelled())
    } else {
        Some(
            "openconnect failed (status "@ + number::signed_decimal(o.status as int) + "):\n"@
                + sys::tail_text(text::trim(o.out@ + o.err@), 600),
        )
    }
}

/// How connecting ended, by what openconnect left behind. What it printed is in the session log
/// already.
pub fn connect_result(o: &Output) -> (r: ActionResult)
    ensures
        backend::message(r) == connect_message(*o),
{
    if o.ok() {
        return ActionResult::Done;
    }
    if privilege::was_dismissed(o) {
        return ActionResult::Message("Authorization was cancelled.".to_owned());
    }
    let head = text::cat3(
        "openconnect failed (status ",
        &number::to_signed_decimal(o.status),
        "):\n",
    );
    let printed = text::trimmed(&text::cat(&o.out, &o.err));
    ActionResult::Message(text::cat(&head, &sys::tail_chars(&printed, 600)))
}

/// A password is no argument: the arguments are the same whatever it is, and the one-time code too.
pub proof fn law_password_is_not_an_argument(
    h: Host,
    p: ProfileText,
    one: Option<Seq<char>>,
    other: Option<Seq<char>>,
    otp: Option<Seq<char>>,
    another: Option<Seq<char>>,
)
    ensures
        ({
            let a = args_text(h, p);
            privilege::as_root(a[0], a.skip(1), Some(input_text(one, otp))).args
                == privilege::as_root(a[0], a.skip(1), Some(input_text(other, another))).args
        }),
{
}

// ---- the gateway's groups ----

/// The command that asks a gateway for its groups. It needs no credentials and no root; what it
/// reads are stand-ins, so that the form with the groups is printed before the login fails.
pub open spec fn probe_text(
    program: Seq<char>,
    server: Seq<char>,
    server_cert: Option<Seq<char>>,
) -> InvocationText {
    InvocationText {
        program,
        args: seq![
            "--protocol=anyconnect"@,
            "--cookieonly"@,
            "--dump-http-traffic"@,
            "--user=probe"@,
            "--passwd-on-stdin"@,
        ] + args::prefixed("--servercert="@, server_cert) + seq![server],
        stdin: Some("x\ny\n"@),
    }
}

/// The command that asks a gateway for its groups; none where there is no openconnect or no server.
pub fn group_probe(h: &Host, server: &str, server_cert: Option<&str>) -> (r: Option<Invocation>)
    ensures
        match r {
            Some(c) => {
                &&& server@.len() > 0
                &&& sys::openconnect_program(*h) is Some
                &&& c@ == probe_text(
                    sys::openconnect_program(*h).unwrap(),
                    server@,
                    strings::opt_str(server_cert),
                )
            },
            None => server@.len() == 0 || sys::openconnect_program(*h) is None,
        },
{
    match sys::openconnect_path(h) {
        Some(program) => {
            if server.is_empty() {
                return None;
            }
            let cert = match server_cert {
                Some(c) => Some(c.to_owned()),
                None => None,
            };
            let mut v = args::list3(
                "--protocol=anyconnect",
                "--cookieonly",
                "--dump-http-traffic",
            );
            args::push(&mut v, "--user=probe");
            args::push(&mut v, "--passwd-on-stdin");
            args::push_prefixed(&mut v, "--servercert=", &cert);
            args::push(&mut v, server);
            let c = Invocation {
                program: program.to_owned(),
                args: v,
                stdin: Some("x\ny\n".to_owned()),
            };
            assert(c@.args =~= probe_text(program@, server@, strings::opt_str(server_cert)).args);
            Some(c)
        },
        None => None,
    }
}

/// An `<option ATTRS>LABEL</option>` in a text.
#[derive(Debug)]
pub struct OptionTag {
    pub attrs: String,
    pub label: String,
}

/// What an option holds, as texts.
pub struct TagText {
    pub attrs: Seq<char>,
    pub label: Seq<char>,
}

impl View for OptionTag {
    type V = TagText;

    open spec fn view(&self) -> TagText {
        TagText { attrs: self.attrs@, label: self.label@ }
    }
}

/// What a list of options holds.
pub open spec fn tag_texts(v: Seq<OptionTag>) -> Seq<TagText> {
    v.map_values(|t: OptionTag| t@)
}

/// The options in `s` at or after `from`, in any case: a tag, the label behind it, and the closing
/// tag. An option that is not closed is passed over.
pub open spec fn options_from(s: Seq<char>, from: int) -> Seq<TagText>
    decreases s.len() - from,
{
    proof {
        lemma_find_advances(s, from);
    }
    match scan::find_from(text::fold(s), "<option"@, from) {
        Some(start) => match scan::find_from(text::fold(s), ">"@, start) {
            Some(gt) => match scan::find_from(text::fold(s), "</option>"@, gt + 1) {
                Some(close) => seq![
                    TagText {
                        attrs: s.subrange(start + 7, gt),
                        label: text::trim(s.subrange(gt + 1, close)),
                    },
                ] + options_from(s, close + 9),
                None => options_from(s, gt + 1),
            },
            None => Seq::empty(),
        },
        None => Seq::empty(),
    }
}

/// Each search goes on behind where it started, and within the text.
pub proof fn lemma_find_advances(s: Seq<char>, from: int)
    ensures
        scan::find_from(text::fold(s), "<option"@, from) matches Some(start) ==> from <= start && (
        scan::find_from(text::fold(s), ">"@, start) matches Some(gt) ==> start <= gt < s.len() && (
        scan::find_from(text::fold(s), "</option>"@, gt + 1) matches Some(close) ==> gt < close
            && close + 9 <= s.len())),
{
    reveal_strlit("<option");
    reveal_strlit(">");
    reveal_strlit("</option>");
    let low = text::fold(s);
    if from >= 0 {
        scan::lemma_find(low, "<option"@, from);
        if let Some(start) = scan::find_from(low, "<option"@, from) {
            scan::lemma_find(low, ">"@, start);
            if let Some(gt) = scan::find_from(low, ">"@, start) {
                scan::lemma_find(low, "</option>"@, gt + 1);
            }
        }
    }
}

/// The options in the string, in their order: the attributes as they stand, the labels trimmed.
pub fn parse_options(s: &str) -> (r: Vec<OptionTag>)
    ensures
        tag_texts(r@) == options_from(s@, 0),
{
    let v = text::chars(s);
    let lower = scan::folded(s);
    let open = text::chars("<option");
    let gt_mark = text::chars(">");
    let closing = text::chars("</option>");
    proof {
        reveal_strlit("<option");
        reveal_strlit(">");
        reveal_strlit("</option>");
    }
    let n: usize = v.len();
    let mut out: Vec<OptionTag> = Vec::new();
    let mut from: usize = 0;
    assert(tag_texts(out@) + options_from(s@, 0) =~= options_from(s@, 0));
    while from <= n
        invariant
            from <= n,
            n == v@.len(),
            v@ == s@,
            lower@ == text::fold(s@),
            open@ == "<option"@,
            gt_mark@ == ">"@,
            closing@ == "</option>"@,
            open@.len() == 7,
            gt_mark@.len() == 1,
            closing@.len() == 9,
            open@[0] == '<' && open@[1] == 'o' && open@[2] == 'p' && open@[3] == 't' && open@[4]
                == 'i' && open@[5] == 'o' && open@[6] == 'n',
            gt_mark@[0] == '>',
            options_from(s@, 0) == tag_texts(out@) + options_from(s@, from as int),
        decreases n - from,
    {
        proof {
            scan::lemma_find(lower@, open@, from as int);
        }
        let start: usize = match scan::find(&lower, &open, from) {
            Some(i) => i,
            None => {
                assert(options_from(s@, 0) =~= tag_texts(out@));
                return out;
            },
        };
        proof {
            scan::lemma_find(lower@, gt_mark@, start as int);
        }
        let gt: usize = match scan::find(&lower, &gt_mark, start) {
            Some(i) => i,
            None => {
                assert(options_from(s@, 0) =~= tag_texts(out@));
                return out;
            },
        };
        proof {
            // The tag's name holds no bracket, so the bracket stands behind it.
            assert(scan::occurs_at(lower@, open@, start as int));
            assert(scan::occurs_at(lower@, gt_mark@, gt as int));
            assert(lower@.subrange(gt as int, gt + 1)[0] == '>');
            assert(lower@[gt as int] == '>');
            if gt < start + 7 {
                assert(lower@.subrange(start as int, start + 7)[gt - start] == lower@[gt as int]);
                assert(false);
            }
            scan::lemma_find(lower@, closing@, gt + 1);
        }
        match scan::find(&lower, &closing, gt + 1) {
            Some(close) => {
                let ghost before = out@;
                let tag = OptionTag {
                    attrs: text::slice(&v, start + 7, gt),
                    label: text::trimmed_slice(&v, gt + 1, close),
                };
                out.push(tag);
                assert(tag_texts(out@) =~= tag_texts(before).push(tag@));
                from = close + 9;
                assert(tag_texts(before).push(tag@) + options_from(s@, from as int) =~= tag_texts(
                    before,
                ) + (seq![tag@] + options_from(s@, from as int)));
            },
            None => {
                from = gt + 1;
            },
        }
    }
    out
}

/// A group of a gateway: its label, and whether it asks for a one-time code.
pub type Group = (String, bool);

/// What a list of groups holds.
pub open spec fn group_texts(v: Seq<Group>) -> Seq<(Seq<char>, bool)> {
    v.map_values(|g: Group| (g.0@, g.1))
}

/// Whether a group has a label.
pub open spec fn labelled(groups: Seq<(Seq<char>, bool)>, label: Seq<char>) -> bool {
    exists|i: int| 0 <= i < groups.len() && (#[trigger] groups[i]).0 == label
}

/// Whether an option's attributes say that its group asks for a one-time code.
pub open spec fn second_factor(attrs: Seq<char>) -> bool {
    scan::has(text::fold(attrs), "second-auth=\"1\""@)
}

/// The groups that options stand for: each label once, the first time that it comes, and none that
/// is empty.
pub open spec fn groups_of(tags: Seq<TagText>) -> Seq<(Seq<char>, bool)>
    decreases tags.len(),
{
    if tags.len() == 0 {
        Seq::empty()
    } else {
        let before = groups_of(tags.drop_last());
        let tag = tags.last();
        if tag.label.len() == 0 || labelled(before, tag.label) {
            before
        } else {
            before.push((tag.label, second_factor(tag.attrs)))
        }
    }
}

fn has_label(groups: &Vec<Group>, label: &str) -> (r: bool)
    ensures
        r == labelled(group_texts(groups@), label@),
{
    let ghost all = group_texts(groups@);
    let mut i: usize = 0;
    while i < groups.len()
        invariant
            i <= groups@.len(),
            all == group_texts(groups@),
            forall|j: int| 0 <= j < i ==> (#[trigger] all[j]).0 != label@,
        decreases groups.len() - i,
    {
        assert(all[i as int].0 == groups@[i as int].0@);
        if text::equal(&groups[i].0, label) {
            return true;
        }
        i += 1;
    }
    false
}

/// The gateway's groups, from what the probe printed: openconnect takes a group by its label.
pub fn group_list(answer: &Output) -> (r: Vec<Group>)
    ensures
        group_texts(r@) == groups_of(options_from(answer.out@ + "\n"@ + answer.err@, 0)),
{
    let tags = parse_options(&text::cat3(&answer.out, "\n", &answer.err));
    let ghost all = tag_texts(tags@);
    let mut out: Vec<Group> = Vec::new();
    let mut i: usize = 0;
    assert(all.take(0) =~= Seq::empty());
    assert(group_texts(out@) =~= groups_of(all.take(0)));
    while i < tags.len()
        invariant
            i <= tags@.len(),
            all == tag_texts(tags@),
            group_texts(out@) == groups_of(all.take(i as int)),
        decreases tags.len() - i,
    {
        let tag = &tags[i];
        proof {
            let t = all.take(i + 1);
            assert(t.drop_last() =~= all.take(i as int));
            assert(t.last() == tag@);
        }
        if !tag.label.as_str().is_empty() && !has_label(&out, &tag.label) {
            let ghost before = out@;
            let g: Group = (
                tag.label.clone(),
                scan::has_folded(&tag.attrs, "second-auth=\"1\""),
            );
            out.push(g);
            assert(group_texts(out@) =~= group_texts(before).push((g.0@, g.1)));
        }
        i += 1;
    }
    assert(all.take(all.len() as int) =~= all);
    out
}

/// Every group has a label, and no two have the same one.
pub proof fn law_groups_are_distinct(tags: Seq<TagText>)
    ensures
        forall|i: int| 0 <= i < groups_of(tags).len() ==> (#[trigger] groups_of(tags)[i]).0.len() > 0,
        forall|i: int, j: int|
            0 <= i < j < groups_of(tags).len() ==> (#[trigger] groups_of(tags)[i]).0 != (
            #[trigger] groups_of(tags)[j]).0,
    decreases tags.len(),
{
    if tags.len() > 0 {
        law_groups_are_distinct(tags.drop_last());
        let before = groups_of(tags.drop_last());
        let after = groups_of(tags);
        assert forall|i: int, j: int| 0 <= i < j < after.len() implies (#[trigger] after[i]).0 != (
        #[trigger] after[j]).0 by {
            if j == before.len() {
                assert(before[i] == after[i]);
            }
        }
    }
}

/// Every option with a label is a group.
pub proof fn law_every_label_is_a_group(tags: Seq<TagText>, i: int)
    requires
        0 <= i < tags.len(),
        tags[i].label.len() > 0,
    ensures
        labelled(groups_of(tags), tags[i].label),
    decreases tags.len(),
{
    let before = groups_of(tags.drop_last());
    let after = groups_of(tags);
    if i < tags.len() - 1 {
        law_every_label_is_a_group(tags.drop_last(), i);
        let j = choose|j: int| 0 <= j < before.len() && (#[trigger] before[j]).0 == tags[i].label;
        assert(after[j] == before[j]);
    } else if labelled(before, tags.last().label) {
    } else {
        assert(after[before.len() as int].0 == tags[i].label);
    }
}

proof fn lemma_first(s: Seq<char>, pat: Seq<char>, from: int, at: int)
    requires
        0 <= from <= at,
        scan::occurs_at(s, pat, at),
        forall|j: int| from <= j < at ==> !scan::occurs_at(s, pat, j),
    ensures
        scan::find_from(s, pat, from) == Some(at),
{
    scan::lemma_find(s, pat, from);
    if let Some(i) = scan::find_from(s, pat, from) {
        if i > at {
            assert(!scan::occurs_at(s, pat, at));
        }
    }
}

/// An option that stands in a text is read with its attributes and its trimmed label, and what
/// follows it is read as before: no other option opens before it, its attributes hold no bracket,
/// and its label does not hold the closing tag.
pub proof fn law_option_is_read(
    pre: Seq<char>,
    attrs: Seq<char>,
    label: Seq<char>,
    post: Seq<char>,
)
    requires
        ({
            let s = pre + "<option"@ + attrs + ">"@ + label + "</option>"@ + post;
            let at = pre.len() + 8 + attrs.len();
            &&& !attrs.contains('>')
            &&& forall|j: int|
                0 <= j < pre.len() ==> !(#[trigger] scan::occurs_at(text::fold(s), "<option"@, j))
            &&& forall|j: int|
                at <= j < at + label.len() ==> !(#[trigger] scan::occurs_at(
                    text::fold(s),
                    "</option>"@,
                    j,
                ))
        }),
    ensures
        ({
            let s = pre + "<option"@ + attrs + ">"@ + label + "</option>"@ + post;
            options_from(s, 0) == seq![TagText { attrs, label: text::trim(label) }] + options_from(
                s,
                s.len() - post.len(),
            )
        }),
{
    reveal_strlit("<option");
    reveal_strlit(">");
    reveal_strlit("</option>");
    let s = pre + "<option"@ + attrs + ">"@ + label + "</option>"@ + post;
    let low = text::fold(s);
    let start = pre.len() as int;
    let gt = start + 7 + attrs.len();
    let close = gt + 1 + label.len();
    assert(low.subrange(start, start + 7) =~= "<option"@) by {
        assert forall|j: int| 0 <= j < 7 implies low[start + j] == "<option"@[j] by {
            assert(s[start + j] == "<option"@[j]);
        }
    }
    lemma_first(low, "<option"@, 0, start);
    assert(s[gt] == '>');
    assert(low.subrange(gt, gt + 1) =~= ">"@);
    assert forall|j: int| start <= j < gt implies !scan::occurs_at(low, ">"@, j) by {
        assert(s[j] != '>') by {
            if j < start + 7 {
                assert(s[j] == "<option"@[j - start]);
            } else {
                assert(s[j] == attrs[j - start - 7]);
                assert(attrs.contains(attrs[j - start - 7]));
            }
        }
        assert(low[j] != '>');
        assert(low.subrange(j, j + 1)[0] == low[j]);
    }
    lemma_first(low, ">"@, start, gt);
    assert(low.subrange(close, close + 9) =~= "</option>"@) by {
        assert forall|j: int| 0 <= j < 9 implies low[close + j] == "</option>"@[j] by {
            assert(s[close + j] == "</option>"@[j]);
        }
    }
    lemma_first(low, "</option>"@, gt + 1, close);
    assert(s.subrange(start + 7, gt) =~= attrs);
    assert(s.subrange(gt + 1, close) =~= label);
}

} // verus!
