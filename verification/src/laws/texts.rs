//! Characters, strings and numbers.

use crate::model;
use crate::number;
use crate::scan;
use crate::text;
use vstd::prelude::*;

verus! {

// ---- characters ----

/// Of the ASCII characters, the space and the five controls from the tab to the carriage return are
/// white space.
pub proof fn law_ascii_white_space(c: char)
    requires
        (c as u32) < 128,
    ensures
        text::white_space(c) <==> c == ' ' || (9 <= c as u32 && c as u32 <= 13),
{
}

/// Of the ASCII characters, letters and digits count as such.
pub proof fn law_ascii_alphanumeric(c: char)
    requires
        (c as u32) < 128,
    ensures
        text::alphanumeric(c) <==> (48 <= c as u32 <= 57) || (65 <= c as u32 <= 90) || (97
            <= c as u32 <= 122),
{
}

/// Folding a text moves its ASCII capitals by the distance to the small letters, and leaves the
/// rest in its place.
pub proof fn law_fold_makes_capitals_small(s: Seq<char>, i: int)
    requires
        0 <= i < s.len(),
    ensures
        text::fold(s).len() == s.len(),
        65 <= s[i] as u32 <= 90 ==> text::fold(s)[i] as u32 == s[i] as u32 + 32,
        !(65 <= s[i] as u32 <= 90) ==> text::fold(s)[i] == s[i],
{
}

/// Two texts in a row fold each for itself, and folding twice changes nothing more.
pub proof fn law_fold_goes_piece_by_piece(a: Seq<char>, b: Seq<char>)
    ensures
        text::fold(a + b) == text::fold(a) + text::fold(b),
        text::fold(text::fold(a)) == text::fold(a),
{
    assert(text::fold(a + b) =~= text::fold(a) + text::fold(b));
    assert(text::fold(text::fold(a)) =~= text::fold(a));
}

// ---- trimming ----

/// Whether a text is nothing but white space.
pub open spec fn all_white(s: Seq<char>) -> bool {
    forall|i: int| 0 <= i < s.len() ==> text::white_space(#[trigger] s[i])
}

/// Whether a text says something and has no white space at its ends.
pub open spec fn bare(s: Seq<char>) -> bool {
    s.len() > 0 && !text::white_space(s[0]) && !text::white_space(s.last())
}

pub proof fn lemma_trim_start_behind(pre: Seq<char>, s: Seq<char>)
    requires
        all_white(pre),
        s.len() > 0,
        !text::white_space(s[0]),
    ensures
        text::trim_start(pre + s) == s,
    decreases pre.len(),
{
    if pre.len() == 0 {
        assert(pre + s =~= s);
    } else {
        let t = pre.skip(1);
        assert(pre[0] == (pre + s)[0]);
        assert forall|i: int| 0 <= i < t.len() implies text::white_space(#[trigger] t[i]) by {
            assert(t[i] == pre[i + 1]);
        }
        lemma_trim_start_behind(t, s);
        assert((pre + s).skip(1) =~= t + s);
    }
}

pub proof fn lemma_trim_end_before(s: Seq<char>, post: Seq<char>)
    requires
        all_white(post),
        s.len() > 0,
        !text::white_space(s.last()),
    ensures
        text::trim_end(s + post) == s,
    decreases post.len(),
{
    if post.len() == 0 {
        assert(s + post =~= s);
    } else {
        let t = post.drop_last();
        assert((s + post).last() == post[post.len() - 1]);
        assert forall|i: int| 0 <= i < t.len() implies text::white_space(#[trigger] t[i]) by {
            assert(t[i] == post[i]);
        }
        lemma_trim_end_before(s, t);
        assert((s + post).drop_last() =~= s + t);
    }
}

/// Trimming takes away the white space around a text and nothing of the text; a value says what is
/// left of it.
pub proof fn law_trim_leaves_the_text(pre: Seq<char>, s: Seq<char>, post: Seq<char>)
    requires
        all_white(pre),
        all_white(post),
        bare(s),
    ensures
        text::trim(pre + s + post) == s,
        text::trim(s) == s,
        text::trim_end(s + post) == s,
        model::given(Some(pre + s + post)) == Some(s),
        model::given(Some(s)) == Some(s),
{
    assert(pre + s + post =~= pre + (s + post));
    lemma_trim_start_behind(pre, s + post);
    lemma_trim_end_before(s, post);
    let none = Seq::<char>::empty();
    lemma_trim_end_before(s, none);
    assert(s + none =~= s);
}

/// Of nothing but white space nothing is left, and such a value says nothing, as one that is not
/// there.
pub proof fn law_blank_says_nothing(s: Seq<char>)
    requires
        all_white(s),
    ensures
        text::trim(s) == Seq::<char>::empty(),
        model::given(Some(s)) is None,
        model::given(None) is None,
{
    text::lemma_trim_blank(s);
    assert(text::trim(s) =~= Seq::empty());
}

/// A value that is not blank says its text without the white space around it.
pub proof fn lemma_given(s: Seq<char>)
    ensures
        !all_white(s) ==> model::given(Some(s)) == Some(text::trim(s)) && text::trim(s).len() > 0,
        all_white(s) ==> model::given(Some(s)) is None,
{
    text::lemma_trim_blank(s);
}

/// Where characters are taken off the end, all at the end go and nothing else.
pub proof fn law_end_is_taken_off(s: Seq<char>, c: char, n: nat)
    requires
        s.len() > 0 ==> s.last() != c,
    ensures
        text::trim_end_of(s + Seq::new(n, |i: int| c), c) == s,
    decreases n,
{
    let t = s + Seq::new(n, |i: int| c);
    if n == 0 {
        assert(t =~= s);
    } else {
        assert(t.last() == c);
        assert(t.drop_last() =~= s + Seq::new((n - 1) as nat, |i: int| c));
        law_end_is_taken_off(s, c, (n - 1) as nat);
    }
}

// ---- searching ----

/// A text stands in another exactly where the other is made of it and something before and behind.
pub proof fn law_text_is_found_where_it_stands(s: Seq<char>, pat: Seq<char>, i: int)
    ensures
        scan::occurs_at(s, pat, i) <==> exists|a: Seq<char>, b: Seq<char>|
            a.len() == i && s == #[trigger] (a + pat + b),
{
    if scan::occurs_at(s, pat, i) {
        let a = s.take(i);
        let b = s.skip(i + pat.len());
        assert(s =~= a + pat + b) by {
            assert forall|j: int| 0 <= j < s.len() implies s[j] == (a + pat + b)[j] by {
                if i <= j < i + pat.len() {
                    assert(s.subrange(i, i + pat.len())[j - i] == pat[j - i]);
                }
            }
        }
        assert(a.len() == i && s == a + pat + b);
    }
    if exists|a: Seq<char>, b: Seq<char>| a.len() == i && s == #[trigger] (a + pat + b) {
        let (a, b) = choose|a: Seq<char>, b: Seq<char>|
            a.len() == i && s == #[trigger] (a + pat + b);
        assert((a + pat + b).subrange(i, i + pat.len()) =~= pat);
    }
}

/// A text that holds another holds it wherever it stands.
pub proof fn law_held_text_is_found(a: Seq<char>, pat: Seq<char>, b: Seq<char>)
    ensures
        scan::has(a + pat + b, pat),
        scan::find_from(a + pat + b, pat, 0) matches Some(i) && i <= a.len(),
        scan::begins(pat + b, pat),
        scan::ends(a + pat, pat),
        scan::without_suffix(a + pat, pat) == Some(a),
{
    let s = a + pat + b;
    let i = a.len() as int;
    assert(s.subrange(i, i + pat.len()) =~= pat);
    assert(scan::occurs_at(s, pat, i));
    scan::lemma_find(s, pat, 0);
    if let Some(j) = scan::find_from(s, pat, 0) {
        if j > i {
            assert(!scan::occurs_at(s, pat, i));
        }
    }
    assert((pat + b).subrange(0, pat.len() as int) =~= pat);
    let t = a + pat;
    assert(t.subrange(i, i + pat.len()) =~= pat);
    assert(t.take(i) =~= a);
}

/// A text is cut at the first character of a kind, which is in neither part; without such a
/// character it is not cut.
pub proof fn law_cut_at_the_first(a: Seq<char>, c: char, b: Seq<char>)
    requires
        !a.contains(c),
    ensures
        scan::cut_at(a + seq![c] + b, c) == Some((a, b)),
        scan::cut_at(a, c) is None,
{
    let s = a + seq![c] + b;
    let i = a.len() as int;
    assert forall|j: int| 0 <= j < i implies s[j] != c by {
        assert(a.contains(a[j]));
    }
    scan::lemma_first_of_is(s, c, i);
    assert(s.take(i) =~= a);
    assert(s.skip(i + 1) =~= b);
    scan::lemma_first_of(a, c);
    if let Some(k) = scan::first_of(a, c) {
        assert(a.contains(a[k]));
    }
}

// ---- splitting and joining ----

/// Every character of the kind starts a piece of its own: the pieces of two texts with it between
/// are the pieces of the one and then of the other.
pub proof fn law_pieces_add_up(a: Seq<char>, b: Seq<char>, c: char)
    ensures
        scan::split(a + seq![c] + b, c) == scan::split(a, c) + scan::split(b, c),
        scan::split(b, c).len() >= 1,
        !a.contains(c) ==> scan::split(a, c) == seq![a],
    decreases b.len(),
{
    if !a.contains(c) {
        scan::lemma_split_none(a, c);
    }
    let s = a + seq![c] + b;
    if b.len() == 0 {
        assert(s.drop_last() =~= a);
        assert(scan::split(s, c) =~= scan::split(a, c) + scan::split(b, c));
    } else {
        let t = b.drop_last();
        law_pieces_add_up(a, t, c);
        assert(s.drop_last() =~= a + seq![c] + t);
        assert(s.last() == b.last());
        assert(scan::split(s, c) =~= scan::split(a, c) + scan::split(b, c));
    }
}

/// A line that ends in a line feed, with or without a carriage return before it, is read without
/// its end, and then what follows it; an empty text has no lines.
pub proof fn law_lines_are_read_in_turn(line: Seq<char>, rest: Seq<char>)
    requires
        !line.contains('\n'),
        line.len() > 0 ==> line.last() != '\r',
    ensures
        scan::lines(line + seq!['\n'] + rest) == seq![line] + scan::lines(rest),
        scan::lines(line + seq!['\r'] + seq!['\n'] + rest) == seq![line] + scan::lines(rest),
        line.len() > 0 ==> scan::lines(line) == seq![line],
        scan::lines(Seq::empty()) == Seq::<Seq<char>>::empty(),
{
    law_pieces_add_up(line, rest, '\n');
    let p = scan::split(rest, '\n');
    let f = |l: Seq<char>| scan::without_return(l);
    let all = seq![line] + p;
    assert(all.drop_last() =~= seq![line] + p.drop_last());
    assert(all.drop_last().map_values(f) =~= seq![line] + p.drop_last().map_values(f));
    assert(scan::lines(line + seq!['\n'] + rest) =~= seq![line] + scan::lines(rest));
    let wide = line + seq!['\r'];
    assert(!wide.contains('\n')) by {
        if wide.contains('\n') {
            let i = choose|i: int| 0 <= i < wide.len() && wide[i] == '\n';
            assert(i < line.len());
            assert(line.contains(line[i]));
        }
    }
    law_pieces_add_up(wide, rest, '\n');
    let every = seq![wide] + p;
    assert(every.drop_last() =~= seq![wide] + p.drop_last());
    assert(wide.drop_last() =~= line);
    assert(every.drop_last().map_values(f) =~= seq![line] + p.drop_last().map_values(f));
    assert(scan::lines(wide + seq!['\n'] + rest) =~= seq![line] + scan::lines(rest));
    let one = scan::split(line, '\n');
    assert(one.drop_last() =~= Seq::empty());
    assert(one.drop_last().map_values(f) =~= Seq::empty());
    if line.len() > 0 {
        assert(scan::lines(line) =~= seq![line]);
    }
    let none = Seq::<char>::empty();
    assert(scan::split(none, '\n').drop_last() =~= Seq::empty());
    assert(scan::lines(none) =~= Seq::empty());
}

/// Texts in a row are joined with the separator between each and the next, and only there.
pub proof fn law_joined_texts_stand_in_a_row(a: Seq<Seq<char>>, b: Seq<Seq<char>>, sep: Seq<char>)
    ensures
        a.len() > 0 && b.len() > 0 ==> scan::joined(a + b, sep) == scan::joined(a, sep) + sep
            + scan::joined(b, sep),
        a.len() == 1 ==> scan::joined(a, sep) == a[0],
        a.len() == 0 ==> scan::joined(a, sep) == Seq::<char>::empty(),
    decreases b.len(),
{
    if a.len() > 0 && b.len() > 0 {
        assert((a + b).drop_last() =~= a + b.drop_last());
        assert((a + b).last() == b.last());
        if b.len() > 1 {
            law_joined_texts_stand_in_a_row(a, b.drop_last(), sep);
            assert(scan::joined(a + b, sep) =~= scan::joined(a, sep) + sep + scan::joined(b, sep));
        } else {
            assert(a + b.drop_last() =~= a);
        }
    }
}

proof fn lemma_space_pieces(a: Seq<char>, w: char, b: Seq<char>)
    requires
        text::white_space(w),
    ensures
        scan::split_space(a + seq![w] + b) == scan::split_space(a) + scan::split_space(b),
        scan::split_space(b).len() >= 1,
    decreases b.len(),
{
    let s = a + seq![w] + b;
    if b.len() == 0 {
        assert(s.drop_last() =~= a);
        assert(scan::split_space(s) =~= scan::split_space(a) + scan::split_space(b));
    } else {
        let t = b.drop_last();
        lemma_space_pieces(a, w, t);
        assert(s.drop_last() =~= a + seq![w] + t);
        assert(s.last() == b.last());
        assert(scan::split_space(s) =~= scan::split_space(a) + scan::split_space(b));
    }
}

proof fn lemma_non_empty_concat(p: Seq<Seq<char>>, q: Seq<Seq<char>>)
    ensures
        scan::non_empty(p + q) == scan::non_empty(p) + scan::non_empty(q),
    decreases q.len(),
{
    if q.len() == 0 {
        assert(p + q =~= p);
        assert(scan::non_empty(p) + scan::non_empty(q) =~= scan::non_empty(p));
    } else {
        lemma_non_empty_concat(p, q.drop_last());
        assert((p + q).drop_last() =~= p + q.drop_last());
        assert((p + q).last() == q.last());
        assert(scan::non_empty(p + q) =~= scan::non_empty(p) + scan::non_empty(q));
    }
}

/// Whether a text holds no white space.
pub open spec fn solid(s: Seq<char>) -> bool {
    forall|i: int| 0 <= i < s.len() ==> !text::white_space(#[trigger] s[i])
}

proof fn lemma_solid_piece(s: Seq<char>)
    requires
        solid(s),
    ensures
        scan::split_space(s) == seq![s],
    decreases s.len(),
{
    if s.len() > 0 {
        let t = s.drop_last();
        assert(solid(t)) by {
            assert forall|i: int| 0 <= i < t.len() implies !text::white_space(#[trigger] t[i]) by {
                assert(t[i] == s[i]);
            }
        }
        lemma_solid_piece(t);
        assert(!text::white_space(s[s.len() - 1]));
        assert(t.push(s.last()) =~= s);
        assert(scan::split_space(s) =~= seq![s]);
    } else {
        assert(s =~= Seq::empty());
    }
}

/// The words of a text are what stands between white space: those before it and then those behind
/// it; a text without white space is one word, and an empty one none.
pub proof fn law_words_add_up(a: Seq<char>, w: char, b: Seq<char>)
    requires
        text::white_space(w),
    ensures
        scan::words(a + seq![w] + b) == scan::words(a) + scan::words(b),
        solid(a) && a.len() > 0 ==> scan::words(a) == seq![a],
        a.len() == 0 ==> scan::words(a) == Seq::<Seq<char>>::empty(),
{
    lemma_space_pieces(a, w, b);
    lemma_non_empty_concat(scan::split_space(a), scan::split_space(b));
    if solid(a) {
        lemma_solid_piece(a);
        let p = seq![a];
        assert(p.drop_last() =~= Seq::empty());
        assert(scan::non_empty(p.drop_last()) =~= Seq::empty());
        if a.len() > 0 {
            assert(scan::non_empty(p) =~= seq![a]);
        } else {
            assert(scan::non_empty(p) =~= Seq::empty());
        }
    }
    if a.len() == 0 {
        assert(solid(a));
    }
}

/// Where a character is taken out of a text, nothing else is, and where it is exchanged for another,
/// every other character stays in its place.
pub proof fn law_characters_change_one_by_one(a: Seq<char>, b: Seq<char>, c: char, to: char)
    ensures
        scan::without(a + b, c) == scan::without(a, c) + scan::without(b, c),
        !a.contains(c) ==> scan::without(a, c) == a,
        scan::without(seq![c], c) == Seq::<char>::empty(),
        scan::exchanged(a, c, to).len() == a.len(),
        forall|i: int|
            0 <= i < a.len() ==> #[trigger] scan::exchanged(a, c, to)[i] == (if a[i] == c {
                to
            } else {
                a[i]
            }),
    decreases b.len(),
{
    if b.len() == 0 {
        assert(a + b =~= a);
        assert(scan::without(a, c) + scan::without(b, c) =~= scan::without(a, c));
    } else {
        law_characters_change_one_by_one(a, b.drop_last(), c, to);
        assert((a + b).drop_last() =~= a + b.drop_last());
        assert((a + b).last() == b.last());
        assert(scan::without(a + b, c) =~= scan::without(a, c) + scan::without(b, c));
    }
    if !a.contains(c) {
        scan::lemma_without_none(a, c);
    }
    let one = seq![c];
    assert(one.drop_last() =~= Seq::empty());
    assert(scan::without(one.drop_last(), c) =~= Seq::empty());
}

/// The stem of the file in a directory is its name up to the last dot.
pub proof fn law_stem_is_the_name_before_the_dot(dir: Seq<char>, name: Seq<char>, ext: Seq<char>)
    requires
        name.len() > 0,
        ext.len() > 0,
        !name.contains('/'),
        !ext.contains('/'),
        !ext.contains('.'),
    ensures
        scan::file_stem_text(dir + seq!['/'] + name + seq!['.'] + ext) == Some(name),
        scan::file_stem_text(name + seq!['.'] + ext) == Some(name),
{
    reveal_strlit(".");
    reveal_strlit("..");
    let file = name + seq!['.'] + ext;
    let path = dir + seq!['/'] + name + seq!['.'] + ext;
    assert(!file.contains('/')) by {
        if file.contains('/') {
            let i = choose|i: int| 0 <= i < file.len() && file[i] == '/';
            if i < name.len() {
                assert(name.contains(name[i]));
            } else if i > name.len() {
                assert(ext.contains(ext[i - name.len() - 1]));
            }
        }
    }
    assert(path =~= dir + seq!['/'] + file);
    law_pieces_add_up(dir, file, '/');
    scan::lemma_split_none(file, '/');
    law_pieces_add_up(name, ext, '.');
    scan::lemma_split_none(ext, '.');
    assert(file.len() > 2 || file[1] != '.') by {
        assert(ext.contains(ext[0]));
        assert(file.len() >= 3);
    }
    assert(file.take(name.len() as int) =~= name);
    assert(scan::split(path, '/').last() == file);
    assert(scan::split(file, '/').last() == file);
}

// ---- numbers ----

/// Another digit behind a number makes it ten times as much and the digit; only zero begins with a
/// zero.
pub proof fn law_digits_count_tens(n: nat, d: nat)
    requires
        d < 10,
    ensures
        n > 0 ==> number::decimal(10 * n + d) == number::decimal(n).push((48 + d) as char),
        number::decimal(d) == seq![(48 + d) as char],
        n > 0 ==> number::decimal(n)[0] != '0',
        n > 0 ==> number::decimal(n).len() > 0,
    decreases n,
{
    if n > 0 {
        assert((10 * n + d) / 10 == n);
        assert((10 * n + d) % 10 == d);
        if n >= 10 {
            law_digits_count_tens(n / 10, n % 10);
            assert(n == 10 * (n / 10) + n % 10);
        }
    }
}

/// The number that digits spell grows by the same rule as they are written.
pub proof fn law_digits_spell_tens(s: Seq<char>, d: nat)
    requires
        d < 10,
    ensures
        number::value(s.push((48 + d) as char)) == 10 * number::value(s) + d,
        number::value(Seq::empty()) == 0,
{
    assert(s.push((48 + d) as char).drop_last() =~= s);
}

/// Two digits are at least two, and spell the number.
pub proof fn law_two_digits_are_two(n: nat)
    ensures
        number::two_digits(n).len() >= 2,
        n < 100 ==> number::two_digits(n).len() == 2,
        number::value(number::two_digits(n)) == n,
{
    number::lemma_decimal(n);
    if n < 10 {
        let s = number::two_digits(n);
        assert(s =~= seq!['0', number::digit(n as int)]);
        assert(s.drop_last() =~= seq!['0']);
        assert(seq!['0'].drop_last() =~= Seq::empty());
        assert(number::value(seq!['0'].drop_last()) == 0);
        assert(number::value(seq!['0']) == 0);
    } else if n < 100 {
        assert(number::decimal(n / 10).len() == 1);
    } else {
        law_digits_count_tens(n / 10, n % 10);
        law_digits_count_tens((n / 10) / 10, (n / 10) % 10);
        number::lemma_decimal((n / 10) / 10);
    }
}

/// A negative number is a minus sign and the digits of its size, any other its digits.
pub proof fn law_sign_stands_before_digits(n: nat)
    ensures
        number::signed_decimal(n as int) == number::decimal(n),
        n > 0 ==> number::signed_decimal(-(n as int)) == seq!['-'] + number::decimal(n),
{
}

/// What is no row of digits, but for a plus sign before it, or spells too much, is no number.
pub proof fn law_only_digits_are_read(s: Seq<char>, max: nat)
    ensures
        number::parse(s, max) matches Some(n) ==> n <= max && (n == number::value(s) || (s.len() > 1
            && s[0] == '+' && n == number::value(s.skip(1)))),
        s.len() == 0 ==> number::parse(s, max) is None,
        s.len() > 0 && number::all_digits(s) ==> (number::parse(s, max) == (if number::value(s)
            <= max {
            Some(number::value(s))
        } else {
            None
        })),
        (exists|i: int| 0 < i < s.len() && !text::ascii_digit(#[trigger] s[i])) ==> number::parse(
            s,
            max,
        ) is None,
{
    if s.len() > 0 && number::all_digits(s) {
        assert(text::ascii_digit(s[0]));
    }
    if exists|i: int| 0 < i < s.len() && !text::ascii_digit(#[trigger] s[i]) {
        let i = choose|i: int| 0 < i < s.len() && !text::ascii_digit(#[trigger] s[i]);
        if s[0] == '+' {
            assert(s.skip(1)[i - 1] == s[i]);
        }
    }
}

// ---- order ----

/// Texts are ordered by their first difference, and a text comes before what it begins.
pub proof fn law_first_difference_orders(a: Seq<char>, x: char, b: Seq<char>, y: char, c: Seq<char>)
    requires
        x < y,
    ensures
        text::at_most(a + seq![x] + b, a + seq![y] + c),
        !text::at_most(a + seq![y] + c, a + seq![x] + b),
        text::at_most(a, a + c),
    decreases a.len(),
{
    let s = a + seq![x] + b;
    let t = a + seq![y] + c;
    if a.len() > 0 {
        let r = a.skip(1);
        law_first_difference_orders(r, x, b, y, c);
        assert(s.skip(1) =~= r + seq![x] + b);
        assert(t.skip(1) =~= r + seq![y] + c);
        assert((a + c).skip(1) =~= r + c);
    }
}

/// A text in ASCII is put in lower case letter by letter.
pub proof fn law_ascii_is_put_in_lower_case(s: Seq<char>)
    requires
        vstd::utf8::is_ascii_chars(s),
    ensures
        text::lowercase(s).len() == s.len(),
        forall|i: int|
            0 <= i < s.len() ==> if 'A' <= s[i] && s[i] <= 'Z' {
                (#[trigger] text::lowercase(s)[i]) as int == s[i] as int + 32
            } else {
                text::lowercase(s)[i] == s[i]
            },
{
}

/// A file whose name has no dot is its own stem; a path that names nothing has none.
pub proof fn law_name_without_a_dot_is_the_stem(dir: Seq<char>, name: Seq<char>)
    requires
        name.len() > 0,
        !name.contains('/'),
        !name.contains('.'),
    ensures
        scan::file_stem_text(dir + seq!['/'] + name) == Some(name),
        scan::file_stem_text(name) == Some(name),
        scan::file_stem_text(Seq::empty()) is None,
        scan::base_name(dir + seq!['/'] + name) == name,
{
    reveal_strlit(".");
    reveal_strlit("..");
    law_pieces_add_up(dir, name, '/');
    scan::lemma_split_none(name, '/');
    scan::lemma_split_none(name, '.');
    assert(name.contains(name[0]));
    assert(scan::split(dir + seq!['/'] + name, '/').last() == name);
    let none = seq![Seq::<char>::empty()];
    assert(none.drop_last() =~= Seq::empty());
    assert(scan::last_name(none.drop_last()) is None);
    assert(scan::split(Seq::empty(), '/') =~= none);
}

} // verus!
