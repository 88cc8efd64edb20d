//! The icon: reading a drawing's path, and its pixels.

use crate::scan;
use crate::text;
use crate::tray_icon;
use crate::tray_icon::{SegmentText, TokText};
use vstd::prelude::*;

verus! {

/// The icon is dark where the environment asks for it in one of two words, and light otherwise.
pub proof fn law_icon_is_dark_on_demand(s: Seq<char>)
    ensures
        tray_icon::dark(Some(s)) <==> s == "dark"@ || s == "black"@,
        !tray_icon::dark(None),
{
}

// ---- the path in a drawing ----

proof fn lemma_first_element(s: Seq<char>, i: int, at: int)
    requires
        0 <= i <= at,
        at + 5 < s.len(),
        forall|j: int| i <= j < at ==> !scan::occurs_at(s, "<path"@, j),
        scan::occurs_at(s, "<path"@, at),
        tray_icon::ends_name(s[at + 5]),
    ensures
        tray_icon::element_from(s, i) == Some(at),
    decreases at - i,
{
    if i < at {
        lemma_first_element(s, i + 1, at);
    }
}

proof fn lemma_plain_tag(s: Seq<char>, i: int, to: int)
    requires
        0 <= i <= to < s.len(),
        forall|j: int|
            i <= j < to ==> {
                let c = #[trigger] s[j];
                c != '>' && c != '"' && c != '\'' && !text::white_space(c)
            },
    ensures
        tray_icon::attribute_from(s, i, None) == tray_icon::attribute_from(s, to, None),
    decreases to - i,
{
    if i < to {
        lemma_plain_tag(s, i + 1, to);
    }
}

/// The path of a drawing is what stands in quotes behind the name of the attribute, in the first
/// path element.
pub proof fn law_path_is_the_quoted_attribute(
    pre: Seq<char>,
    q: char,
    d: Seq<char>,
    post: Seq<char>,
)
    requires
        q == '"' || q == '\'',
        !d.contains(q),
        ({
            let s = pre + "<path"@ + seq![' ', 'd', '=', q] + d + seq![q] + post;
            forall|j: int|
                0 <= j < pre.len() ==> !(#[trigger] scan::occurs_at(s, "<path"@, j))
        }),
    ensures
        tray_icon::path_text(
            pre + "<path"@ + seq![' ', 'd', '=', q] + d + seq![q] + post,
        ) == Some(d),
{
    reveal_strlit("<path");
    let s = pre + "<path"@ + seq![' ', 'd', '=', q] + d + seq![q] + post;
    let at = pre.len() as int;
    assert(s.subrange(at, at + 5) =~= "<path"@);
    assert(s[at + 5] == ' ');
    lemma_first_element(s, 0, at);
    assert(s[at + 6] == 'd' && s[at + 7] == '=' && s[at + 8] == q);
    assert(tray_icon::space_end(s, at + 7) == at + 7);
    assert(tray_icon::space_end(s, at + 8) == at + 8);
    assert(tray_icon::value_at(s, at + 6) == Some(at + 8));
    assert(tray_icon::attribute_from(s, at + 5, None) == Some(at + 8));
    let rest = s.skip(at + 9);
    assert(rest =~= d + seq![q] + post);
    assert forall|j: int| 0 <= j < d.len() implies rest[j] != q by {
        assert(d.contains(d[j]));
    }
    scan::lemma_first_of_is(rest, q, d.len() as int);
    assert(s.subrange(at + 9, at + 9 + d.len()) =~= d);
}

/// A path element that ends without the attribute has none, whatever follows it; a drawing without
/// the element has no path.
pub proof fn law_path_of_another_element_does_not_count(pre: Seq<char>, post: Seq<char>)
    requires
        ({
            let s = pre + "<path"@ + seq!['/', '>'] + post;
            forall|j: int|
                0 <= j < pre.len() ==> !(#[trigger] scan::occurs_at(s, "<path"@, j))
        }),
    ensures
        tray_icon::path_text(pre + "<path"@ + seq!['/', '>'] + post) is None,
        !scan::has(pre, "<path"@) ==> tray_icon::path_text(pre) is None,
{
    reveal_strlit("<path");
    let s = pre + "<path"@ + seq!['/', '>'] + post;
    let at = pre.len() as int;
    assert(s.subrange(at, at + 5) =~= "<path"@);
    assert(s[at + 5] == '/' && s[at + 6] == '>');
    lemma_first_element(s, 0, at);
    lemma_plain_tag(s, at + 5, at + 6);
    if !scan::has(pre, "<path"@) {
        lemma_element_free(pre, 0);
    }
}

proof fn lemma_element_free(s: Seq<char>, i: int)
    requires
        !scan::has(s, "<path"@),
    ensures
        tray_icon::element_from(s, i) is None,
    decreases s.len() - i,
{
    if 0 <= i && i + 5 < s.len() {
        assert(!scan::occurs_at(s, "<path"@, i));
        lemma_element_free(s, i + 1);
    }
}

// ---- pieces ----

proof fn lemma_number_end_behind(a: Seq<char>, b: Seq<char>, k: int)
    requires
        0 <= k <= b.len(),
    ensures
        tray_icon::number_end(a + b, a.len() + k) == a.len() + tray_icon::number_end(b, k),
    decreases b.len() - k,
{
    let s = a + b;
    if k < b.len() {
        assert(s[a.len() + k] == b[k]);
        if text::ascii_digit(b[k]) || b[k] == '.' {
            lemma_number_end_behind(a, b, k + 1);
        } else if b[k] == 'e' || b[k] == 'E' {
            if k + 1 < b.len() {
                assert(s[a.len() + k + 1] == b[k + 1]);
            }
            lemma_number_end_behind(a, b, tray_icon::sign_end(b, k + 1));
        }
    }
}

proof fn lemma_tokens_behind(a: Seq<char>, b: Seq<char>, k: int)
    requires
        0 <= k <= b.len(),
    ensures
        tray_icon::tokens_from(a + b, a.len() + k) == tray_icon::tokens_from(b, k),
    decreases b.len() - k,
{
    let s = a + b;
    if k < b.len() {
        assert(s[a.len() + k] == b[k]);
        if text::ascii_letter(b[k]) {
            lemma_tokens_behind(a, b, k + 1);
        } else if tray_icon::starts_number(b[k]) {
            tray_icon::lemma_number_end(b, k + 1);
            lemma_number_end_behind(a, b, k + 1);
            let e = tray_icon::number_end(b, k + 1);
            assert(s.subrange(a.len() + k, a.len() + e) =~= b.subrange(k, e));
            lemma_tokens_behind(a, b, e);
        } else {
            lemma_tokens_behind(a, b, k + 1);
        }
    }
}

/// A letter of a path is a command, and what follows it is read for itself; a space or a comma is
/// nothing.
pub proof fn law_letters_are_commands(c: char, rest: Seq<char>)
    ensures
        text::ascii_letter(c) ==> tray_icon::tokens_from(seq![c] + rest, 0) == seq![TokText::Cmd(c)]
            + tray_icon::tokens_from(rest, 0),
        c == ' ' || c == ',' ==> tray_icon::tokens_from(seq![c] + rest, 0)
            == tray_icon::tokens_from(rest, 0),
        tray_icon::tokens_from(Seq::empty(), 0) == Seq::<TokText>::empty(),
{
    lemma_tokens_behind(seq![c], rest, 0);
    assert((seq![c] + rest)[0] == c);
}

/// Whether a text is nothing but digits, at least one.
pub open spec fn digits(s: Seq<char>) -> bool {
    s.len() > 0 && forall|i: int| 0 <= i < s.len() ==> text::ascii_digit(#[trigger] s[i])
}

proof fn lemma_run_over_digits(s: Seq<char>, i: int, to: int)
    requires
        0 <= i <= to <= s.len(),
        forall|j: int| i <= j < to ==> text::ascii_digit(#[trigger] s[j]),
        to < s.len() ==> !text::ascii_digit(s[to]),
    ensures
        tray_icon::run_end(s, i) == to,
    decreases to - i,
{
    if i < to {
        lemma_run_over_digits(s, i + 1, to);
    }
}

proof fn lemma_number_over_digits(s: Seq<char>, i: int, to: int)
    requires
        0 <= i <= to <= s.len(),
        forall|j: int| i <= j < to ==> text::ascii_digit(#[trigger] s[j]) || s[j] == '.',
        to < s.len() ==> !text::ascii_digit(s[to]) && s[to] != '.' && s[to] != 'e' && s[to] != 'E',
    ensures
        tray_icon::number_end(s, i) == to,
    decreases to - i,
{
    if i < to {
        assert(text::ascii_digit(s[i]) || s[i] == '.');
        lemma_number_over_digits(s, i + 1, to);
    }
}

/// Digits are a number, with or without a minus sign and with or without a point and more digits; a
/// sign that follows starts the next one.
pub proof fn law_digits_are_numbers(n: Seq<char>, f: Seq<char>, next: char, rest: Seq<char>)
    requires
        digits(n),
        digits(f),
        next == ' ' || next == ',' || next == '-',
    ensures
        ({
            let more = seq![next] + rest;
            let minus = seq!['-'] + n;
            let point = n + seq!['.'] + f;
            &&& tray_icon::tokens_from(n + more, 0) == seq![TokText::Num(n)]
                + tray_icon::tokens_from(more, 0)
            &&& tray_icon::tokens_from(minus + more, 0) == seq![TokText::Num(minus)]
                + tray_icon::tokens_from(more, 0)
            &&& tray_icon::tokens_from(point + more, 0) == seq![TokText::Num(point)]
                + tray_icon::tokens_from(more, 0)
        }),
{
    let more = seq![next] + rest;
    let minus = seq!['-'] + n;
    let point = n + seq!['.'] + f;
    assert forall|j: int| 0 <= j < minus.len() implies j == 0 || text::ascii_digit(
        #[trigger] minus[j],
    ) by {
        if j > 0 {
            assert(minus[j] == n[j - 1]);
        }
    }
    assert forall|j: int| 0 <= j < point.len() implies (text::ascii_digit(#[trigger] point[j]) && j
        != n.len()) || (j == n.len() && point[j] == '.') by {
        if j < n.len() {
            assert(point[j] == n[j]);
        } else if j > n.len() {
            assert(point[j] == f[j - n.len() - 1]);
        }
    }
    lemma_one_number(n, more);
    lemma_one_number(minus, more);
    lemma_one_number(point, more);
    lemma_run_over_digits(n, 0, n.len() as int);
    assert(text::ascii_digit(n[0]));
    lemma_run_over_digits(minus, 1, minus.len() as int);
    assert(text::ascii_digit(point[0]));
    lemma_run_over_digits(point, 0, n.len() as int);
    lemma_run_over_digits(point, n.len() as int + 1, point.len() as int);
}

proof fn lemma_one_number(t: Seq<char>, more: Seq<char>)
    requires
        t.len() > 0,
        text::ascii_digit(t[0]) || t[0] == '-',
        forall|j: int| 1 <= j < t.len() ==> text::ascii_digit(#[trigger] t[j]) || t[j] == '.',
        more.len() > 0,
        more[0] == ' ' || more[0] == ',' || more[0] == '-',
    ensures
        tray_icon::number_text(t) ==> tray_icon::tokens_from(t + more, 0) == seq![TokText::Num(t)]
            + tray_icon::tokens_from(more, 0),
{
    let s = t + more;
    let n = t.len() as int;
    assert(s[0] == t[0]);
    assert(!text::ascii_letter(s[0]));
    assert forall|j: int| 1 <= j < n implies text::ascii_digit(#[trigger] s[j]) || s[j] == '.' by {
        assert(s[j] == t[j]);
    }
    assert(s[n] == more[0]);
    lemma_number_over_digits(s, 1, n);
    assert(s.subrange(0, n) =~= t);
    lemma_tokens_behind(t, more, 0);
}

// ---- steps ----

/// How many numbers a command takes.
pub proof fn law_commands_take_their_numbers(op: char)
    ensures
        op == 'm' || op == 'l' ==> tray_icon::arity(op) == Some(2nat),
        op == 'h' || op == 'v' ==> tray_icon::arity(op) == Some(1nat),
        op == 'c' ==> tray_icon::arity(op) == Some(6nat),
        op == 'a' ==> tray_icon::arity(op) == Some(7nat),
        op == 'z' ==> tray_icon::arity(op) == Some(0nat),
        tray_icon::arity(op) is Some ==> op == 'm' || op == 'l' || op == 'h' || op == 'v' || op
            == 'c' || op == 'a' || op == 'z',
{
}

proof fn lemma_numbers_taken(toks: Seq<TokText>, k: int, args: Seq<Seq<char>>)
    requires
        0 <= k,
        k + args.len() <= toks.len(),
        forall|j: int| 0 <= j < args.len() ==> toks[k + j] == TokText::Num(#[trigger] args[j]),
    ensures
        tray_icon::numbers_at(toks, k, args.len()) == (args, k + args.len()),
    decreases args.len(),
{
    if args.len() > 0 {
        let t = args.drop_last();
        assert forall|j: int| 0 <= j < t.len() implies toks[k + j] == TokText::Num(
            #[trigger] t[j],
        ) by {
            assert(t[j] == args[j]);
        }
        lemma_numbers_taken(toks, k, t);
        assert(toks[k + t.len()] == TokText::Num(args[t.len() as int]));
        assert(t.push(args.last()) =~= args);
        assert((args.len() - 1) as nat == t.len());
    } else {
        assert(args =~= Seq::empty());
    }
}

/// A command with all its numbers is a step: in lower case, relative where the command is a small
/// letter, and with its numbers in their order. The same numbers again repeat it, but behind a move
/// they draw lines.
pub proof fn law_command_and_numbers_are_a_step(
    toks: Seq<TokText>,
    k: int,
    cmd: char,
    c: char,
    args: Seq<Seq<char>>,
)
    requires
        0 <= k < toks.len(),
        toks[k] == TokText::Cmd(c),
        tray_icon::arity(text::ascii_lower(c)) == Some(args.len()),
        k + 1 + args.len() <= toks.len(),
        forall|j: int| 0 <= j < args.len() ==> toks[k + 1 + j] == TokText::Num(#[trigger] args[j]),
    ensures
        ({
            let next = if c == 'M' {
                'L'
            } else if c == 'm' {
                'l'
            } else {
                c
            };
            tray_icon::segments_from(toks, k, cmd) == seq![
                SegmentText {
                    op: text::ascii_lower(c),
                    relative: 'a' <= c && c <= 'z',
                    args,
                },
            ] + tray_icon::segments_from(toks, k + 1 + args.len(), next)
        }),
{
    lemma_numbers_taken(toks, k + 1, args);
    let low = text::ascii_lower(c);
    assert(low == 'm' || low == 'l' || low == 'h' || low == 'v' || low == 'c' || low == 'a' || low
        == 'z');
    assert((c == low) <==> ('a' <= c && c <= 'z')) by {
        if 'A' <= c && c <= 'Z' {
            assert(low as int == c as int + 32);
        }
    }
}

/// Numbers without a command before them repeat the one that goes on; behind a closed path they are
/// passed over.
pub proof fn law_numbers_repeat_the_command(
    toks: Seq<TokText>,
    k: int,
    cmd: char,
    args: Seq<Seq<char>>,
)
    requires
        0 <= k < toks.len(),
        cmd == 'L' || cmd == 'l' || cmd == 'C' || cmd == 'c' || cmd == 'H' || cmd == 'h' || cmd
            == 'V' || cmd == 'v' || cmd == 'A' || cmd == 'a',
        tray_icon::arity(text::ascii_lower(cmd)) == Some(args.len()),
        k + args.len() <= toks.len(),
        forall|j: int| 0 <= j < args.len() ==> toks[k + j] == TokText::Num(#[trigger] args[j]),
    ensures
        tray_icon::segments_from(toks, k, cmd) == seq![
            SegmentText {
                op: text::ascii_lower(cmd),
                relative: 'a' <= cmd && cmd <= 'z',
                args,
            },
        ] + tray_icon::segments_from(toks, k + args.len(), cmd),
        tray_icon::segments_from(toks, k, 'Z') == tray_icon::segments_from(toks, k + 1, 'Z'),
        tray_icon::segments_from(toks, toks.len() as int, cmd) == Seq::<SegmentText>::empty(),
{
    assert(args.len() > 0);
    assert(toks[k + 0] == TokText::Num(args[0]));
    lemma_numbers_taken(toks, k, args);
    let low = text::ascii_lower(cmd);
    assert((cmd == low) <==> ('a' <= cmd && cmd <= 'z')) by {
        if 'A' <= cmd && cmd <= 'Z' {
            assert(low as int == cmd as int + 32);
        }
    }
}

/// A number that is missing is drawn as zero.
pub proof fn law_missing_number_is_zero(toks: Seq<TokText>, k: int)
    ensures
        k >= toks.len() ==> tray_icon::number_at(toks, k) == ("0"@, k),
        0 <= k < toks.len() && toks[k] is Cmd ==> tray_icon::number_at(toks, k) == ("0"@, k),
{
}

// ---- pixels ----

/// A pixel is turned round: its opacity comes first, and then red, green and blue, each divided by
/// the opacity.
pub proof fn law_pixel_is_turned_round(data: Seq<u8>, i: int)
    requires
        0 <= i,
        i + 3 < data.len(),
        data[i + 3] == 255u8,
    ensures
        tray_icon::pixel(data, i) == seq![255u8, data[i + 2], data[i + 1], data[i]],
{
    assert(tray_icon::pixel(data, i) =~= seq![255u8, data[i + 2], data[i + 1], data[i]]);
}

/// A colour under half the light is brought back to its own strength.
pub proof fn law_opacity_is_divided_out(c: u8, a: u8)
    requires
        0 < a,
        c <= a,
    ensures
        tray_icon::undone(c, a) as int == c as int * 255 / a as int,
        tray_icon::undone(a, a) == 255,
{
    assert(0 <= c as int * 255 / a as int <= 255) by (nonlinear_arith)
        requires
            0 < a,
            0 <= c <= a,
    ;
    assert(a as int * 255 / a as int == 255) by (nonlinear_arith)
        requires
            0 < a,
    ;
}

/// The pixels come out row by row and from left to right, each where its row and its column say.
pub proof fn law_pixels_keep_their_places(
    data: Seq<u8>,
    stride: nat,
    width: nat,
    n: nat,
    x: int,
    y: int,
)
    requires
        0 <= x < width,
        0 <= y < n,
    ensures
        ({
            let at = 4 * (width * y + x);
            tray_icon::pixel_rows(data, stride, width, n).subrange(at, at + 4) == tray_icon::pixel(
                data,
                stride * y + 4 * x,
            )
        }),
    decreases n,
{
    let before = tray_icon::pixel_rows(data, stride, width, (n - 1) as nat);
    let row = tray_icon::pixel_row(data, stride * (n - 1), width);
    let all = tray_icon::pixel_rows(data, stride, width, n);
    tray_icon::law_icon_has_four_bytes_a_pixel(data, stride, width, (n - 1) as nat);
    tray_icon::lemma_pixel_row(data, stride * (n - 1), width);
    let at = 4 * (width * y + x);
    if y < n - 1 {
        law_pixels_keep_their_places(data, stride, width, (n - 1) as nat, x, y);
        assert(width * y + x < width * (n - 1)) by (nonlinear_arith)
            requires
                y <= n - 2,
                0 <= x < width,
        ;
        assert(4 * width * (n - 1) == 4 * (width * (n - 1))) by (nonlinear_arith);
        assert(all.subrange(at, at + 4) =~= before.subrange(at, at + 4));
    } else {
        lemma_row_places(data, stride * y, width, x);
        assert(4 * width * (n - 1) == 4 * (width * (n - 1))) by (nonlinear_arith);
        assert(width * y == width * (n - 1));
        assert(all.subrange(at, at + 4) =~= row.subrange(4 * x, 4 * x + 4));
    }
}

proof fn lemma_row_places(data: Seq<u8>, at: int, n: nat, x: int)
    requires
        0 <= x < n,
    ensures
        tray_icon::pixel_row(data, at, n).subrange(4 * x, 4 * x + 4) == tray_icon::pixel(
            data,
            at + 4 * x,
        ),
    decreases n,
{
    let t = tray_icon::pixel_row(data, at, (n - 1) as nat);
    tray_icon::lemma_pixel_row(data, at, (n - 1) as nat);
    let all = tray_icon::pixel_row(data, at, n);
    if x < n - 1 {
        lemma_row_places(data, at, (n - 1) as nat, x);
        assert(all.subrange(4 * x, 4 * x + 4) =~= t.subrange(4 * x, 4 * x + 4));
    } else {
        assert(all.subrange(4 * x, 4 * x + 4) =~= tray_icon::pixel(data, at + 4 * x));
    }
}

/// What stands in the quotes of another attribute is passed over, brackets and all; a bracket
/// outside of quotes ends the element.
pub proof fn law_quoted_values_are_passed_over(s: Seq<char>, i: int, j: int)
    requires
        0 <= i < j < s.len(),
        s[i] == '"' || s[i] == '\'',
        s[j] == s[i],
        forall|k: int| i < k < j ==> #[trigger] s[k] != s[i],
    ensures
        tray_icon::attribute_from(s, i, None) == tray_icon::attribute_from(s, j + 1, None),
        forall|k: int|
            0 <= k < s.len() && s[k] == '>' ==> #[trigger] tray_icon::attribute_from(s, k, None)
                is None,
{
    lemma_within(s, i + 1, j, s[i]);
}

proof fn lemma_within(s: Seq<char>, i: int, j: int, q: char)
    requires
        0 <= i <= j < s.len(),
        s[j] == q,
        forall|k: int| i <= k < j ==> #[trigger] s[k] != q,
    ensures
        tray_icon::attribute_from(s, i, Some(q)) == tray_icon::attribute_from(s, j + 1, None),
    decreases j - i,
{
    if i < j {
        lemma_within(s, i + 1, j, q);
    }
}

} // verus!
