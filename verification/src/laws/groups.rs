//! A gateway's groups: how it is asked for them, and how they are read from its answer.

use crate::backend::openconnect;
use crate::backend::openconnect::TagText;
use crate::laws::rows;
use crate::laws::texts;
use crate::scan;
use crate::text;
use crate::ui::editor;
use vstd::prelude::*;

verus! {

// ---- asking ----

/// A gateway is asked for its groups without credentials and as nobody: the server stands last, and
/// a pin of its certificate before it where there is one.
pub proof fn law_groups_are_asked_for(program: Seq<char>, server: Seq<char>, pin: Seq<char>)
    ensures
        ({
            let plain = openconnect::probe_text(program, server, None);
            let pinned = openconnect::probe_text(program, server, Some(pin));
            &&& plain.program == program
            &&& plain.args == seq![
                "--protocol=anyconnect"@,
                "--cookieonly"@,
                "--dump-http-traffic"@,
                "--user=probe"@,
                "--passwd-on-stdin"@,
                server,
            ]
            &&& plain.stdin == Some("x\ny\n"@)
            &&& !texts::all_white(pin) ==> pinned.args == plain.args.drop_last() + seq![
                "--servercert="@ + text::trim(pin),
                server,
            ]
            &&& texts::all_white(pin) ==> pinned.args == plain.args
        }),
{
    let plain = openconnect::probe_text(program, server, None);
    let pinned = openconnect::probe_text(program, server, Some(pin));
    assert(plain.args =~= seq![
        "--protocol=anyconnect"@,
        "--cookieonly"@,
        "--dump-http-traffic"@,
        "--user=probe"@,
        "--passwd-on-stdin"@,
        server,
    ]);
    texts::lemma_given(pin);
    if !texts::all_white(pin) {
        assert(pinned.args =~= plain.args.drop_last() + seq![
            "--servercert="@ + text::trim(pin),
            server,
        ]);
    }
}

// ---- reading the answer ----

proof fn lemma_occurs_behind(a: Seq<char>, b: Seq<char>, pat: Seq<char>, k: int)
    requires
        0 <= k,
    ensures
        scan::occurs_at(a + b, pat, a.len() + k) == scan::occurs_at(b, pat, k),
{
    let s = a + b;
    let i = a.len() + k;
    if i + pat.len() <= s.len() {
        assert(s.subrange(i, i + pat.len()) =~= b.subrange(k, k + pat.len()));
    }
}

proof fn lemma_found_behind(a: Seq<char>, b: Seq<char>, pat: Seq<char>, k: int)
    requires
        0 <= k,
    ensures
        scan::find_from(a + b, pat, a.len() + k) == (match scan::find_from(b, pat, k) {
            Some(i) => Some(a.len() + i),
            None => None,
        }),
    decreases b.len() + 1 - k,
{
    if k + pat.len() <= b.len() {
        lemma_occurs_behind(a, b, pat, k);
        lemma_found_behind(a, b, pat, k + 1);
    }
}

/// The bracket that ends an option's tag stands behind the tag's name.
proof fn lemma_bracket_behind_tag(low: Seq<char>, k: int, start: int, gt: int)
    requires
        0 <= k,
        scan::find_from(low, "<option"@, k) == Some(start),
        scan::find_from(low, ">"@, start) == Some(gt),
    ensures
        start + 7 <= gt,
{
    reveal_strlit("<option");
    reveal_strlit(">");
    scan::lemma_find(low, "<option"@, k);
    scan::lemma_find(low, ">"@, start);
    assert(low.subrange(gt, gt + 1)[0] == '>');
    if gt < start + 7 {
        assert(low.subrange(start, start + 7)[gt - start] == low[gt]);
        assert("<option"@[gt - start] == '>');
    }
}

proof fn lemma_options_behind(a: Seq<char>, b: Seq<char>, k: int)
    requires
        0 <= k,
    ensures
        openconnect::options_from(a + b, a.len() + k) == openconnect::options_from(b, k),
    decreases b.len() - k,
{
    let s = a + b;
    let low = text::fold(b);
    texts::law_fold_goes_piece_by_piece(a, b);
    let fa = text::fold(a);
    openconnect::lemma_find_advances(b, k);
    lemma_found_behind(fa, low, "<option"@, k);
    if let Some(start) = scan::find_from(low, "<option"@, k) {
        lemma_found_behind(fa, low, ">"@, start);
        if let Some(gt) = scan::find_from(low, ">"@, start) {
            lemma_found_behind(fa, low, "</option>"@, gt + 1);
            match scan::find_from(low, "</option>"@, gt + 1) {
                Some(close) => {
                    lemma_options_behind(a, b, close + 9);
                    let n = a.len();
                    lemma_bracket_behind_tag(low, k, start, gt);
                    assert(s.subrange(n + start + 7, n + gt) =~= b.subrange(start + 7, gt));
                    assert(s.subrange(n + gt + 1, n + close) =~= b.subrange(gt + 1, close));
                },
                None => {
                    lemma_options_behind(a, b, gt + 1);
                },
            }
        }
    }
}

/// The options of a text are read in turn: the first, with its attributes and its trimmed label, and
/// then those of what follows it. A text without the tag has none.
pub proof fn law_options_are_read_in_turn(
    pre: Seq<char>,
    attrs: Seq<char>,
    label: Seq<char>,
    post: Seq<char>,
)
    requires
        ({
            let s = pre + "<option"@ + attrs + ">"@ + label + "</option>"@ + post;
            let at = pre.len() + 8 + attrs.len();
            &&& !attrs.contains('>')
            &&& forall|j: int|
                0 <= j < pre.len() ==> !(#[trigger] scan::occurs_at(text::fold(s), "<option"@, j))
            &&& forall|j: int|
                at <= j < at + label.len() ==> !(#[trigger] scan::occurs_at(
                    text::fold(s),
                    "</option>"@,
                    j,
                ))
        }),
    ensures
        ({
            let s = pre + "<option"@ + attrs + ">"@ + label + "</option>"@ + post;
            openconnect::options_from(s, 0) == seq![TagText { attrs, label: text::trim(label) }]
                + openconnect::options_from(post, 0)
        }),
        !scan::has(text::fold(post), "<option"@) ==> openconnect::options_from(post, 0) == Seq::<
            TagText,
        >::empty(),
{
    openconnect::law_option_is_read(pre, attrs, label, post);
    let front = pre + "<option"@ + attrs + ">"@ + label + "</option>"@;
    lemma_options_behind(front, post, 0);
    scan::lemma_find(text::fold(post), "<option"@, 0);
    if let Some(i) = scan::find_from(text::fold(post), "<option"@, 0) {
        assert(scan::occurs_at(text::fold(post), "<option"@, i));
    }
}

/// An option that asks for a second factor says so among its attributes, in any case; one that says
/// anything else does not ask.
pub proof fn law_second_factor_is_asked_for_by_one(a: Seq<char>, word: Seq<char>, b: Seq<char>)
    ensures
        text::fold(word) == "second-auth=\"1\""@ ==> openconnect::second_factor(a + word + b),
        openconnect::second_factor(a) ==> exists|x: Seq<char>, w: Seq<char>, y: Seq<char>|
            a == #[trigger] (x + w + y) && text::fold(w) == "second-auth=\"1\""@,
{
    texts::law_fold_goes_piece_by_piece(a + word, b);
    texts::law_fold_goes_piece_by_piece(a, word);
    texts::law_held_text_is_found(text::fold(a), text::fold(word), text::fold(b));
    if openconnect::second_factor(a) {
        let pat = "second-auth=\"1\""@;
        let i = choose|i: int| scan::occurs_at(text::fold(a), pat, i);
        let n = pat.len() as int;
        let x = a.take(i);
        let w = a.subrange(i, i + n);
        let y = a.skip(i + n);
        assert(a =~= x + w + y);
        assert(text::fold(w) =~= text::fold(a).subrange(i, i + n));
        assert(a == x + w + y && text::fold(w) == pat);
    }
}

/// The groups of a row of options: each label the first time that it comes, with what the option
/// there says of a second factor, in the order of the options. No other group is among them.
pub proof fn law_groups_come_as_first_seen(tags: Seq<TagText>, tag: TagText)
    ensures
        ({
            let before = openconnect::groups_of(tags);
            let after = openconnect::groups_of(tags.push(tag));
            let seen = exists|i: int|
                0 <= i < tags.len() && (#[trigger] tags[i]).label == tag.label;
            &&& tag.label.len() > 0 && !seen ==> after == before.push(
                (tag.label, scan::has(text::fold(tag.attrs), "second-auth=\"1\""@)),
            )
            &&& tag.label.len() == 0 || seen ==> after == before
        }),
        openconnect::groups_of(Seq::empty()) == Seq::<(Seq<char>, bool)>::empty(),
{
    assert(tags.push(tag).drop_last() =~= tags);
    let before = openconnect::groups_of(tags);
    lemma_groups_are_options(tags);
    if exists|i: int| 0 <= i < tags.len() && (#[trigger] tags[i]).label == tag.label {
        let i = choose|i: int| 0 <= i < tags.len() && (#[trigger] tags[i]).label == tag.label;
        if tag.label.len() > 0 {
            openconnect::law_every_label_is_a_group(tags, i);
        }
    } else if openconnect::labelled(before, tag.label) {
        let j = choose|j: int| 0 <= j < before.len() && (#[trigger] before[j]).0 == tag.label;
        let i = choose|i: int| 0 <= i < tags.len() && (#[trigger] tags[i]).label == before[j].0;
        assert(tags[i].label == tag.label);
    }
}

proof fn lemma_groups_are_options(tags: Seq<TagText>)
    ensures
        forall|j: int|
            0 <= j < openconnect::groups_of(tags).len() ==> exists|i: int|
                0 <= i < tags.len() && (#[trigger] tags[i]).label == (
                #[trigger] openconnect::groups_of(tags)[j]).0,
    decreases tags.len(),
{
    if tags.len() > 0 {
        let t = tags.drop_last();
        lemma_groups_are_options(t);
        let before = openconnect::groups_of(t);
        let after = openconnect::groups_of(tags);
        assert forall|j: int| 0 <= j < after.len() implies exists|i: int|
            0 <= i < tags.len() && (#[trigger] tags[i]).label == (#[trigger] after[j]).0 by {
            if j < before.len() {
                assert(after[j] == before[j]);
                let i = choose|i: int| 0 <= i < t.len() && (#[trigger] t[i]).label == before[j].0;
                assert(tags[i] == t[i]);
            } else {
                assert(tags[tags.len() - 1].label == after[j].0);
            }
        }
    }
}

/// An answer with one option gives one group: its trimmed label, which asks for a second factor
/// exactly where the attributes say so.
pub proof fn law_answer_gives_the_group(
    pre: Seq<char>,
    attrs: Seq<char>,
    label: Seq<char>,
    post: Seq<char>,
)
    requires
        ({
            let s = pre + "<option"@ + attrs + ">"@ + label + "</option>"@ + post;
            let at = pre.len() + 8 + attrs.len();
            &&& !attrs.contains('>')
            &&& forall|j: int|
                0 <= j < pre.len() ==> !(#[trigger] scan::occurs_at(text::fold(s), "<option"@, j))
            &&& forall|j: int|
                at <= j < at + label.len() ==> !(#[trigger] scan::occurs_at(
                    text::fold(s),
                    "</option>"@,
                    j,
                ))
        }),
        !scan::has(text::fold(post), "<option"@),
        !texts::all_white(label),
    ensures
        ({
            let s = pre + "<option"@ + attrs + ">"@ + label + "</option>"@ + post;
            openconnect::groups_of(openconnect::options_from(s, 0)) == seq![
                (text::trim(label), scan::has(text::fold(attrs), "second-auth=\"1\""@)),
            ]
        }),
{
    law_options_are_read_in_turn(pre, attrs, label, post);
    texts::lemma_given(label);
    let tag = TagText { attrs, label: text::trim(label) };
    rows::lemma_empty(seq![tag]);
    let none = Seq::<TagText>::empty();
    law_groups_come_as_first_seen(none, tag);
    assert(none.push(tag) =~= seq![tag]);
    assert(openconnect::groups_of(none) =~= Seq::empty());
    assert(Seq::<(Seq<char>, bool)>::empty().push(
        (tag.label, scan::has(text::fold(attrs), "second-auth=\"1\""@)),
    ) =~= seq![(tag.label, scan::has(text::fold(attrs), "second-auth=\"1\""@))]);
}

// ---- choosing ----

/// What is known of a group's second factor is what the gateway told of that group.
pub proof fn law_code_of_a_group_is_what_was_told(groups: Seq<(Seq<char>, bool)>, i: int)
    requires
        0 <= i < groups.len(),
        forall|j: int| 0 <= j < groups.len() && j != i ==> (#[trigger] groups[j]).0 != groups[i].0,
    ensures
        editor::group_code(groups, groups[i].0) == Some(groups[i].1),
    decreases groups.len(),
{
    if i < groups.len() - 1 {
        let t = groups.drop_last();
        assert forall|j: int| 0 <= j < t.len() && j != i implies (#[trigger] t[j]).0 != t[i].0 by {
            assert(t[j] == groups[j]);
        }
        assert(groups[groups.len() - 1].0 != groups[i].0);
        law_code_of_a_group_is_what_was_told(t, i);
    }
}

/// Nothing is known of a group that the gateway did not tell.
pub proof fn law_code_of_an_unknown_group_is_unknown(
    groups: Seq<(Seq<char>, bool)>,
    label: Seq<char>,
)
    requires
        forall|j: int| 0 <= j < groups.len() ==> (#[trigger] groups[j]).0 != label,
    ensures
        editor::group_code(groups, label) is None,
    decreases groups.len(),
{
    if groups.len() > 0 {
        let t = groups.drop_last();
        assert forall|j: int| 0 <= j < t.len() implies (#[trigger] t[j]).0 != label by {
            assert(t[j] == groups[j]);
        }
        assert(groups[groups.len() - 1].0 != label);
        law_code_of_an_unknown_group_is_unknown(t, label);
    }
}

/// Where no group was chosen, or one that the gateway no longer has, its first is chosen.
pub proof fn law_first_group_is_chosen(groups: Seq<(Seq<char>, bool)>, current: Option<Seq<char>>)
    requires
        groups.len() > 0,
        current matches Some(c) ==> (forall|j: int|
            0 <= j < groups.len() ==> (#[trigger] groups[j]).0 != c),
    ensures
        editor::group_choice(groups, current) == Some(groups[0].0),
{
}

/// An option that is not closed is none: without a closing tag there are no options.
pub proof fn law_open_option_is_passed_over(s: Seq<char>, from: int)
    requires
        !scan::has(text::fold(s), "</option>"@),
        0 <= from,
    ensures
        openconnect::options_from(s, from) == Seq::<TagText>::empty(),
    decreases s.len() - from,
{
    let low = text::fold(s);
    openconnect::lemma_find_advances(s, from);
    if let Some(start) = scan::find_from(low, "<option"@, from) {
        if let Some(gt) = scan::find_from(low, ">"@, start) {
            scan::lemma_find(low, "</option>"@, gt + 1);
            if let Some(close) = scan::find_from(low, "</option>"@, gt + 1) {
                assert(scan::occurs_at(low, "</option>"@, close));
            }
            law_open_option_is_passed_over(s, gt + 1);
        }
    }
}

} // verus!
