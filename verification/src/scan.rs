//! Searching and cutting text: finding a pattern, splitting, joining, lines and words.

use crate::strings;
use crate::text;
use vstd::prelude::*;

verus! {

broadcast use strings::lemma_texts_push;

// ---- searching ----

/// Whether `pat` stands in `s` at `i`.
pub open spec fn occurs_at(s: Seq<char>, pat: Seq<char>, i: int) -> bool {
    &&& 0 <= i
    &&& i + pat.len() <= s.len()
    &&& s.subrange(i, i + pat.len()) == pat
}

/// The first place at or after `from` where `pat` stands in `s`.
pub open spec fn find_from(s: Seq<char>, pat: Seq<char>, from: int) -> Option<int>
    decreases s.len() + 1 - from,
{
    if from < 0 || from + pat.len() > s.len() {
        None
    } else if occurs_at(s, pat, from) {
        Some(from)
    } else {
        find_from(s, pat, from + 1)
    }
}

/// Whether `pat` stands anywhere in `s`.
pub open spec fn has(s: Seq<char>, pat: Seq<char>) -> bool {
    exists|i: int| occurs_at(s, pat, i)
}

/// A search gives the first place, and nothing only where there is none.
pub proof fn lemma_find(s: Seq<char>, pat: Seq<char>, from: int)
    requires
        0 <= from,
    ensures
        match find_from(s, pat, from) {
            Some(i) => from <= i && occurs_at(s, pat, i) && (forall|j: int|
                from <= j < i ==> !occurs_at(s, pat, j)),
            None => forall|j: int| from <= j ==> !occurs_at(s, pat, j),
        },
    decreases s.len() + 1 - from,
{
    if from + pat.len() <= s.len() && !occurs_at(s, pat, from) {
        lemma_find(s, pat, from + 1);
    }
}

/// The first place at or after `from` where `pat` stands in `s`.
pub fn find(s: &Vec<char>, pat: &Vec<char>, from: usize) -> (r: Option<usize>)
    requires
        from <= s@.len(),
    ensures
        r.is_some() == find_from(s@, pat@, from as int).is_some(),
        r matches Some(i) ==> find_from(s@, pat@, from as int) == Some(i as int) && from <= i && i
            + pat@.len() <= s@.len(),
{
    let mut i: usize = from;
    while pat.len() <= s.len() - i
        invariant
            from <= i <= s@.len(),
            find_from(s@, pat@, from as int) == find_from(s@, pat@, i as int),
        decreases s.len() - i,
    {
        if starts_at(s, pat, i) {
            return Some(i);
        }
        if i == s.len() {
            assert(s@.subrange(i as int, i as int) =~= pat@);
            return None;
        }
        i += 1;
    }
    None
}

/// Whether `pat` stands in `s` at `i`.
pub fn starts_at(s: &Vec<char>, pat: &Vec<char>, i: usize) -> (r: bool)
    requires
        i <= s@.len(),
    ensures
        r == occurs_at(s@, pat@, i as int),
{
    if pat.len() > s.len() - i {
        return false;
    }
    let n: usize = s.len();
    let mut k: usize = 0;
    while k < pat.len()
        invariant
            k <= pat@.len(),
            n == s@.len(),
            i + pat@.len() <= n,
            forall|j: int| 0 <= j < k ==> s@[i + j] == pat@[j],
        decreases pat.len() - k,
    {
        if s[i + k] != pat[k] {
            assert(s@.subrange(i as int, i + pat@.len())[k as int] != pat@[k as int]);
            return false;
        }
        k += 1;
    }
    assert(s@.subrange(i as int, i + pat@.len()) =~= pat@);
    true
}

/// The characters of a string with its ASCII capitals made small.
pub fn folded(s: &str) -> (r: Vec<char>)
    ensures
        r@ == text::fold(s@),
{
    let v = text::chars(s);
    let mut out: Vec<char> = Vec::new();
    let mut i: usize = 0;
    while i < v.len()
        invariant
            i <= v@.len(),
            out@ == text::fold(v@).take(i as int),
        decreases v.len() - i,
    {
        out.push(text::to_ascii_lower(v[i]));
        i += 1;
        assert(out@ =~= text::fold(v@).take(i as int));
    }
    assert(text::fold(v@).take(v@.len() as int) =~= text::fold(v@));
    out
}

/// Whether `pat`, written in small letters, stands anywhere in `s` in any case.
pub fn has_folded(s: &str, pat: &str) -> (r: bool)
    ensures
        r == has(text::fold(s@), pat@),
{
    let v = folded(s);
    let p = text::chars(pat);
    proof {
        lemma_find(v@, p@, 0);
    }
    match find(&v, &p, 0) {
        Some(i) => {
            assert(occurs_at(v@, p@, i as int));
            true
        },
        None => {
            assert forall|j: int| !occurs_at(v@, p@, j) by {}
            false
        },
    }
}

/// Whether `s` starts with `pat`.
pub open spec fn begins(s: Seq<char>, pat: Seq<char>) -> bool {
    occurs_at(s, pat, 0)
}

/// Whether `s` ends with `pat`.
pub open spec fn ends(s: Seq<char>, pat: Seq<char>) -> bool {
    occurs_at(s, pat, s.len() - pat.len())
}

/// `s` without `pat` at its end, where it ends so.
pub open spec fn without_suffix(s: Seq<char>, pat: Seq<char>) -> Option<Seq<char>> {
    if ends(s, pat) {
        Some(s.take(s.len() - pat.len()))
    } else {
        None
    }
}

/// The string without `pat` at its end, where it ends so.
pub fn strip_suffix(s: &str, pat: &str) -> (r: Option<String>)
    ensures
        strings::opt(r) == without_suffix(s@, pat@),
{
    let v = text::chars(s);
    let p = text::chars(pat);
    if p.len() > v.len() {
        return None;
    }
    if starts_at(&v, &p, v.len() - p.len()) {
        assert(v@.subrange(0, v@.len() - p@.len()) =~= v@.take(v@.len() - p@.len()));
        Some(text::slice(&v, 0, v.len() - p.len()))
    } else {
        None
    }
}

/// The place of the first `c` in `s`.
pub open spec fn first_of(s: Seq<char>, c: char) -> Option<int>
    decreases s.len(),
{
    if s.len() == 0 {
        None
    } else if s[0] == c {
        Some(0)
    } else {
        match first_of(s.skip(1), c) {
            Some(i) => Some(i + 1),
            None => None,
        }
    }
}

/// The place found is the first, and none is found only where there is none.
pub proof fn lemma_first_of(s: Seq<char>, c: char)
    ensures
        match first_of(s, c) {
            Some(i) => 0 <= i < s.len() && s[i] == c && (forall|j: int|
                0 <= j < i ==> s[j] != c),
            None => !s.contains(c),
        },
    decreases s.len(),
{
    if s.len() > 0 && s[0] != c {
        let t = s.skip(1);
        lemma_first_of(t, c);
        match first_of(t, c) {
            Some(i) => {
                assert forall|j: int| 0 <= j < i + 1 implies s[j] != c by {
                    if j > 0 {
                        assert(s[j] == t[j - 1]);
                    }
                }
            },
            None => {
                assert forall|j: int| 0 <= j < s.len() implies s[j] != c by {
                    if j > 0 {
                        assert(s[j] == t[j - 1]);
                        assert(t.contains(t[j - 1]));
                    }
                }
            },
        }
    }
}

/// The place of the first `c`, from its two properties.
pub proof fn lemma_first_of_is(s: Seq<char>, c: char, i: int)
    requires
        0 <= i < s.len(),
        s[i] == c,
        forall|j: int| 0 <= j < i ==> s[j] != c,
    ensures
        first_of(s, c) == Some(i),
{
    lemma_first_of(s, c);
    assert(s.contains(c));
}

/// The place of the first `c`.
pub fn position(s: &Vec<char>, c: char) -> (r: Option<usize>)
    ensures
        r.is_some() == first_of(s@, c).is_some(),
        r matches Some(i) ==> first_of(s@, c) == Some(i as int) && i < s@.len(),
{
    let mut i: usize = 0;
    while i < s.len()
        invariant
            i <= s@.len(),
            forall|j: int| 0 <= j < i ==> s@[j] != c,
        decreases s.len() - i,
    {
        if s[i] == c {
            proof {
                lemma_first_of_is(s@, c, i as int);
            }
            return Some(i);
        }
        i += 1;
    }
    proof {
        lemma_first_of(s@, c);
    }
    None
}

/// The place of the first element that `f` holds of.
pub open spec fn first_where<T>(s: Seq<T>, f: spec_fn(T) -> bool) -> Option<int>
    decreases s.len(),
{
    if s.len() == 0 {
        None
    } else if f(s[0]) {
        Some(0)
    } else {
        match first_where(s.skip(1), f) {
            Some(i) => Some(i + 1),
            None => None,
        }
    }
}

/// The place found is the first, and none is found only where there is none.
pub proof fn lemma_first_where<T>(s: Seq<T>, f: spec_fn(T) -> bool)
    ensures
        match first_where(s, f) {
            Some(i) => 0 <= i < s.len() && f(s[i]) && (forall|j: int|
                0 <= j < i ==> !f(#[trigger] s[j])),
            None => forall|j: int| 0 <= j < s.len() ==> !f(#[trigger] s[j]),
        },
    decreases s.len(),
{
    if s.len() > 0 && !f(s[0]) {
        let t = s.skip(1);
        lemma_first_where(t, f);
        match first_where(t, f) {
            Some(i) => {
                assert forall|j: int| 0 <= j < i + 1 implies !f(#[trigger] s[j]) by {
                    if j > 0 {
                        assert(s[j] == t[j - 1]);
                    }
                }
            },
            None => {
                assert forall|j: int| 0 <= j < s.len() implies !f(#[trigger] s[j]) by {
                    if j > 0 {
                        assert(s[j] == t[j - 1]);
                    }
                }
            },
        }
    }
}

/// What stands before and after the first `c`.
pub open spec fn cut_at(s: Seq<char>, c: char) -> Option<(Seq<char>, Seq<char>)> {
    match first_of(s, c) {
        Some(i) => Some((s.take(i), s.skip(i + 1))),
        None => None,
    }
}

/// What stands before and after the first `c`.
pub fn split_once(s: &str, c: char) -> (r: Option<(String, String)>)
    ensures
        match r {
            Some((a, b)) => cut_at(s@, c) == Some((a@, b@)),
            None => cut_at(s@, c) is None,
        },
{
    let v = text::chars(s);
    match position(&v, c) {
        Some(i) => {
            assert(v@.subrange(0, i as int) =~= v@.take(i as int));
            assert(v@.subrange(i + 1, v@.len() as int) =~= v@.skip(i + 1));
            let n: usize = v.len();
            Some((text::slice(&v, 0, i), text::slice(&v, i + 1, n)))
        },
        None => None,
    }
}

// ---- splitting ----

/// The pieces of `s` between the characters `c`: one more piece than there are such characters.
pub open spec fn split(s: Seq<char>, c: char) -> Seq<Seq<char>>
    decreases s.len(),
{
    if s.len() == 0 {
        seq![Seq::<char>::empty()]
    } else {
        let before = split(s.drop_last(), c);
        if s.last() == c {
            before.push(Seq::empty())
        } else {
            before.drop_last().push(before.last().push(s.last()))
        }
    }
}

/// What does not hold the character is one piece.
pub proof fn lemma_split_none(s: Seq<char>, c: char)
    requires
        !s.contains(c),
    ensures
        split(s, c) == seq![s],
    decreases s.len(),
{
    if s.len() > 0 {
        let t = s.drop_last();
        assert(!t.contains(c)) by {
            if t.contains(c) {
                let i = choose|i: int| 0 <= i < t.len() && t[i] == c;
                assert(s[i] == c);
            }
        }
        lemma_split_none(t, c);
        assert(s.contains(s.last()));
        assert(t.push(s.last()) =~= s);
        assert(split(s, c) =~= seq![s]);
    } else {
        assert(s =~= Seq::empty());
    }
}

/// What follows the character and does not hold it is one piece more.
pub proof fn lemma_split_behind(a: Seq<char>, b: Seq<char>, c: char)
    requires
        !b.contains(c),
    ensures
        split(a.push(c) + b, c) == split(a, c).push(b),
    decreases b.len(),
{
    let s = a.push(c) + b;
    if b.len() == 0 {
        assert(s.drop_last() =~= a);
        assert(b =~= Seq::empty());
    } else {
        let t = b.drop_last();
        assert(!t.contains(c)) by {
            if t.contains(c) {
                let i = choose|i: int| 0 <= i < t.len() && t[i] == c;
                assert(b[i] == c);
            }
        }
        lemma_split_behind(a, t, c);
        assert(s.drop_last() =~= a.push(c) + t);
        assert(s.last() == b.last());
        assert(b.contains(b.last()));
        assert(t.push(b.last()) =~= b);
        let before = split(s.drop_last(), c);
        assert(before.last() == t);
        assert(before.drop_last() =~= split(a, c));
    }
}

/// The pieces of the string between the characters `c`.
pub fn pieces(s: &str, c: char) -> (r: Vec<String>)
    ensures
        strings::texts(r@) == split(s@, c),
        r@.len() >= 1,
{
    let v = text::chars(s);
    let mut out: Vec<String> = Vec::new();
    let mut piece = String::new();
    let mut i: usize = 0;
    assert(strings::texts(out@).push(piece@) =~= split(v@.take(0), c));
    while i < v.len()
        invariant
            i <= v@.len(),
            strings::texts(out@).push(piece@) == split(v@.take(i as int), c),
        decreases v.len() - i,
    {
        proof {
            let t = v@.take(i + 1);
            assert(t.drop_last() =~= v@.take(i as int));
            assert(t.last() == v@[i as int]);
            assert(strings::texts(out@).push(piece@).drop_last() =~= strings::texts(out@));
        }
        if v[i] == c {
            out.push(piece);
            piece = String::new();
            assert(strings::texts(out@).push(piece@) =~= split(v@.take(i + 1), c));
        } else {
            piece.push(v[i]);
        }
        i += 1;
    }
    out.push(piece);
    assert(v@.take(v@.len() as int) =~= v@);
    out
}

/// A line without one carriage return at its end.
pub open spec fn without_return(s: Seq<char>) -> Seq<char> {
    if s.len() > 0 && s.last() == '\r' {
        s.drop_last()
    } else {
        s
    }
}

/// The lines of `s`. A line ends in a line feed, or in a carriage return and a line feed; what
/// follows the last line feed is a line where it is not empty.
pub open spec fn lines(s: Seq<char>) -> Seq<Seq<char>> {
    let p = split(s, '\n');
    let ended = p.drop_last().map_values(|l: Seq<char>| without_return(l));
    if p.last().len() == 0 {
        ended
    } else {
        ended.push(p.last())
    }
}

/// The lines of the string.
pub fn line_list(s: &str) -> (r: Vec<String>)
    ensures
        strings::texts(r@) == lines(s@),
{
    let p = pieces(s, '\n');
    let last: usize = p.len() - 1;
    let ghost parts = split(s@, '\n');
    let ghost ended = parts.drop_last().map_values(|l: Seq<char>| without_return(l));
    let mut out: Vec<String> = Vec::new();
    let mut i: usize = 0;
    while i < last
        invariant
            i <= last,
            last == p@.len() - 1,
            parts == strings::texts(p@),
            ended == parts.drop_last().map_values(|l: Seq<char>| without_return(l)),
            strings::texts(out@) == ended.take(i as int),
        decreases last - i,
    {
        let l = strip_return(&p[i]);
        assert(parts[i as int] == p@[i as int]@);
        out.push(l);
        i += 1;
        assert(strings::texts(out@) =~= ended.take(i as int));
    }
    assert(ended.take(last as int) =~= ended);
    assert(parts.last() == p@[last as int]@);
    if !p[last].as_str().is_empty() {
        out.push(p[last].clone());
    }
    out
}

/// The line without one carriage return at its end.
fn strip_return(s: &str) -> (r: String)
    ensures
        r@ == without_return(s@),
{
    let v = text::chars(s);
    if v.len() > 0 && v[v.len() - 1] == '\r' {
        assert(v@.subrange(0, v@.len() - 1) =~= v@.drop_last());
        text::slice(&v, 0, v.len() - 1)
    } else {
        s.to_owned()
    }
}

/// The pieces of `s` between characters of white space.
pub open spec fn split_space(s: Seq<char>) -> Seq<Seq<char>>
    decreases s.len(),
{
    if s.len() == 0 {
        seq![Seq::<char>::empty()]
    } else {
        let before = split_space(s.drop_last());
        if text::white_space(s.last()) {
            before.push(Seq::empty())
        } else {
            before.drop_last().push(before.last().push(s.last()))
        }
    }
}

/// The pieces that are not empty, in their order.
pub open spec fn non_empty(p: Seq<Seq<char>>) -> Seq<Seq<char>>
    decreases p.len(),
{
    if p.len() == 0 {
        Seq::empty()
    } else if p.last().len() == 0 {
        non_empty(p.drop_last())
    } else {
        non_empty(p.drop_last()).push(p.last())
    }
}

/// The words of `s`: what stands between runs of white space.
pub open spec fn words(s: Seq<char>) -> Seq<Seq<char>> {
    non_empty(split_space(s))
}

/// The words of the string.
pub fn word_list(s: &str) -> (r: Vec<String>)
    ensures
        strings::texts(r@) == words(s@),
{
    let v = text::chars(s);
    let mut out: Vec<String> = Vec::new();
    let mut word = String::new();
    let ghost mut done = Seq::<Seq<char>>::empty();
    let mut i: usize = 0;
    assert(done.push(word@) =~= split_space(v@.take(0)));
    while i < v.len()
        invariant
            i <= v@.len(),
            done.push(word@) == split_space(v@.take(i as int)),
            strings::texts(out@) == non_empty(done),
        decreases v.len() - i,
    {
        proof {
            let t = v@.take(i + 1);
            assert(t.drop_last() =~= v@.take(i as int));
            assert(t.last() == v@[i as int]);
            assert(done.push(word@).drop_last() =~= done);
        }
        if text::is_white_space(v[i]) {
            let ghost grown = done.push(word@);
            if !word.as_str().is_empty() {
                out.push(word);
            }
            word = String::new();
            proof {
                assert(grown.drop_last() =~= done);
                done = grown;
            }
            assert(done.push(word@) =~= split_space(v@.take(i + 1)));
        } else {
            word.push(v[i]);
        }
        i += 1;
    }
    assert(v@.take(v@.len() as int) =~= v@);
    assert(done.push(word@).drop_last() =~= done);
    if !word.as_str().is_empty() {
        out.push(word);
    }
    out
}

/// Every character of a word is one of the text.
pub proof fn lemma_words_part(s: Seq<char>, f: spec_fn(char) -> bool)
    requires
        forall|i: int| 0 <= i < s.len() ==> f(#[trigger] s[i]),
    ensures
        forall|i: int, j: int|
            0 <= i < words(s).len() && 0 <= j < words(s)[i].len() ==> f(
                #[trigger] words(s)[i][j],
            ),
{
    lemma_split_space_part(s, f);
    lemma_non_empty_part(split_space(s), f);
}

proof fn lemma_split_space_part(s: Seq<char>, f: spec_fn(char) -> bool)
    requires
        forall|i: int| 0 <= i < s.len() ==> f(#[trigger] s[i]),
    ensures
        split_space(s).len() >= 1,
        forall|i: int, j: int|
            0 <= i < split_space(s).len() && 0 <= j < split_space(s)[i].len() ==> f(
                #[trigger] split_space(s)[i][j],
            ),
    decreases s.len(),
{
    if s.len() > 0 {
        let t = s.drop_last();
        assert forall|i: int| 0 <= i < t.len() implies f(#[trigger] t[i]) by {
            assert(t[i] == s[i]);
        }
        lemma_split_space_part(t, f);
        let before = split_space(t);
        assert forall|i: int, j: int|
            0 <= i < split_space(s).len() && 0 <= j < split_space(s)[i].len() implies f(
            #[trigger] split_space(s)[i][j],
        ) by {
            if i < before.len() - 1 || (i < before.len() && text::white_space(s.last())) {
                assert(split_space(s)[i] == before[i]);
                assert(f(before[i][j]));
            } else if !text::white_space(s.last()) {
                if j < before.last().len() {
                    assert(f(before[before.len() - 1][j]));
                } else {
                    assert(f(s[s.len() - 1]));
                }
            }
        }
    }
}

proof fn lemma_non_empty_part(p: Seq<Seq<char>>, f: spec_fn(char) -> bool)
    requires
        forall|i: int, j: int| 0 <= i < p.len() && 0 <= j < p[i].len() ==> f(#[trigger] p[i][j]),
    ensures
        forall|i: int, j: int|
            0 <= i < non_empty(p).len() && 0 <= j < non_empty(p)[i].len() ==> f(
                #[trigger] non_empty(p)[i][j],
            ),
    decreases p.len(),
{
    if p.len() > 0 {
        let t = p.drop_last();
        assert forall|i: int, j: int| 0 <= i < t.len() && 0 <= j < t[i].len() implies f(
            #[trigger] t[i][j],
        ) by {
            assert(f(p[i][j]));
        }
        lemma_non_empty_part(t, f);
        assert forall|i: int, j: int|
            0 <= i < non_empty(p).len() && 0 <= j < non_empty(p)[i].len() implies f(
            #[trigger] non_empty(p)[i][j],
        ) by {
            if i < non_empty(t).len() {
                assert(f(non_empty(t)[i][j]));
            } else {
                assert(f(p[p.len() - 1][j]));
            }
        }
    }
}

// ---- joining ----

/// The texts in a row, with `sep` between each and the next.
pub open spec fn joined(parts: Seq<Seq<char>>, sep: Seq<char>) -> Seq<char>
    decreases parts.len(),
{
    if parts.len() == 0 {
        Seq::empty()
    } else if parts.len() == 1 {
        parts[0]
    } else {
        joined(parts.drop_last(), sep) + sep + parts.last()
    }
}

/// The strings in a row, with `sep` between each and the next.
pub fn join(parts: &Vec<String>, sep: &str) -> (r: String)
    ensures
        r@ == joined(strings::texts(parts@), sep@),
{
    let mut out = String::new();
    let mut i: usize = 0;
    let ghost all = strings::texts(parts@);
    assert(out@ =~= joined(all.take(0), sep@));
    while i < parts.len()
        invariant
            i <= parts@.len(),
            all == strings::texts(parts@),
            out@ == joined(all.take(i as int), sep@),
        decreases parts.len() - i,
    {
        proof {
            let t = all.take(i + 1);
            assert(t.drop_last() =~= all.take(i as int));
            assert(t.last() == parts@[i as int]@);
        }
        if i > 0 {
            out.append(sep);
        }
        out.append(&parts[i]);
        i += 1;
        assert(out@ =~= joined(all.take(i as int), sep@));
    }
    assert(all.take(parts@.len() as int) =~= all);
    out
}

/// Every character of a joined text is one of its parts or of what stands between.
pub proof fn lemma_joined_part(parts: Seq<Seq<char>>, sep: Seq<char>, f: spec_fn(char) -> bool)
    requires
        forall|i: int, j: int|
            0 <= i < parts.len() && 0 <= j < parts[i].len() ==> f(#[trigger] parts[i][j]),
        forall|i: int| 0 <= i < sep.len() ==> f(#[trigger] sep[i]),
    ensures
        forall|i: int| 0 <= i < joined(parts, sep).len() ==> f(#[trigger] joined(parts, sep)[i]),
    decreases parts.len(),
{
    if parts.len() == 1 {
        assert forall|i: int| 0 <= i < joined(parts, sep).len() implies f(
            #[trigger] joined(parts, sep)[i],
        ) by {
            assert(f(parts[0][i]));
        }
    } else if parts.len() > 1 {
        let t = parts.drop_last();
        assert forall|i: int, j: int| 0 <= i < t.len() && 0 <= j < t[i].len() implies f(
            #[trigger] t[i][j],
        ) by {
            assert(f(parts[i][j]));
        }
        lemma_joined_part(t, sep, f);
        let a = joined(t, sep);
        assert forall|i: int| 0 <= i < joined(parts, sep).len() implies f(
            #[trigger] joined(parts, sep)[i],
        ) by {
            if i < a.len() {
                assert(f(a[i]));
            } else if i < a.len() + sep.len() {
                assert(f(sep[i - a.len()]));
            } else {
                assert(f(parts[parts.len() - 1][i - a.len() - sep.len()]));
            }
        }
    }
}

/// Parts that do not hold a character, joined with it, split into the same parts.
pub proof fn law_joined_parts_split_back(parts: Seq<Seq<char>>, c: char)
    requires
        parts.len() > 0,
        forall|i: int| 0 <= i < parts.len() ==> !(#[trigger] parts[i]).contains(c),
    ensures
        split(joined(parts, seq![c]), c) == parts,
    decreases parts.len(),
{
    if parts.len() == 1 {
        lemma_split_none(parts[0], c);
        assert(parts =~= seq![parts[0]]);
    } else {
        let t = parts.drop_last();
        assert forall|i: int| 0 <= i < t.len() implies !(#[trigger] t[i]).contains(c) by {
            assert(t[i] == parts[i]);
        }
        law_joined_parts_split_back(t, c);
        let a = joined(t, seq![c]);
        lemma_split_behind(a, parts.last(), c);
        assert(a + seq![c] =~= a.push(c));
        assert(t.push(parts.last()) =~= parts);
    }
}

// ---- changing characters ----

/// The characters of `s` other than `c`, in their order.
pub open spec fn without(s: Seq<char>, c: char) -> Seq<char>
    decreases s.len(),
{
    if s.len() == 0 {
        Seq::empty()
    } else if s.last() == c {
        without(s.drop_last(), c)
    } else {
        without(s.drop_last(), c).push(s.last())
    }
}

/// Nothing is taken out of what does not hold the character.
pub proof fn lemma_without_none(s: Seq<char>, c: char)
    requires
        !s.contains(c),
    ensures
        without(s, c) == s,
    decreases s.len(),
{
    if s.len() > 0 {
        let t = s.drop_last();
        assert(!t.contains(c)) by {
            if t.contains(c) {
                let i = choose|i: int| 0 <= i < t.len() && t[i] == c;
                assert(s[i] == c);
            }
        }
        lemma_without_none(t, c);
        assert(s.contains(s.last()));
        assert(t.push(s.last()) =~= s);
    } else {
        assert(s =~= Seq::empty());
    }
}

/// The string without the characters `c`.
pub fn remove_all(s: &str, c: char) -> (r: String)
    ensures
        r@ == without(s@, c),
{
    let v = text::chars(s);
    let mut out = String::new();
    let mut i: usize = 0;
    while i < v.len()
        invariant
            i <= v@.len(),
            out@ == without(v@.take(i as int), c),
        decreases v.len() - i,
    {
        proof {
            let t = v@.take(i + 1);
            assert(t.drop_last() =~= v@.take(i as int));
            assert(t.last() == v@[i as int]);
        }
        if v[i] != c {
            out.push(v[i]);
        }
        i += 1;
    }
    assert(v@.take(v@.len() as int) =~= v@);
    out
}

/// `s` with each `from` made a `to`.
pub open spec fn exchanged(s: Seq<char>, from: char, to: char) -> Seq<char> {
    s.map_values(
        |c: char|
            if c == from {
                to
            } else {
                c
            },
    )
}

/// The string with each `from` made a `to`.
pub fn exchange(s: &str, from: char, to: char) -> (r: String)
    ensures
        r@ == exchanged(s@, from, to),
{
    let v = text::chars(s);
    let mut out = String::new();
    let mut i: usize = 0;
    while i < v.len()
        invariant
            i <= v@.len(),
            out@ == exchanged(v@, from, to).take(i as int),
        decreases v.len() - i,
    {
        if v[i] == from {
            out.push(to);
        } else {
            out.push(v[i]);
        }
        i += 1;
        assert(out@ =~= exchanged(v@, from, to).take(i as int));
    }
    assert(exchanged(v@, from, to).take(v@.len() as int) =~= exchanged(v@, from, to));
    out
}

// ---- paths ----

/// The part of a path behind its last slash, or the whole of it.
pub open spec fn base_name(s: Seq<char>) -> Seq<char> {
    split(s, '/').last()
}

/// The part of a path behind its last slash, or the whole of it.
pub fn base(s: &str) -> (r: String)
    ensures
        r@ == base_name(s@),
{
    let p = pieces(s, '/');
    let last: usize = p.len() - 1;
    assert(strings::texts(p@)[last as int] == p@[last as int]@);
    p[last].clone()
}

/// What follows a slash and holds none is the base name.
pub proof fn lemma_base_name(dir: Seq<char>, name: Seq<char>)
    requires
        !name.contains('/'),
    ensures
        base_name(dir.push('/') + name) == name,
{
    lemma_split_behind(dir, name, '/');
}

/// What holds no slash is its own base name.
pub proof fn lemma_base_name_free(name: Seq<char>)
    requires
        !name.contains('/'),
    ensures
        base_name(name) == name,
{
    lemma_split_none(name, '/');
}

/// The last name in a path's parts: what is empty or a single dot is no name.
pub open spec fn last_name(parts: Seq<Seq<char>>) -> Option<Seq<char>>
    decreases parts.len(),
{
    if parts.len() == 0 {
        None
    } else if parts.last().len() == 0 || parts.last() == "."@ {
        last_name(parts.drop_last())
    } else {
        Some(parts.last())
    }
}

/// The name of the file at a path. There is none where the path ends in two dots.
pub open spec fn file_name(path: Seq<char>) -> Option<Seq<char>> {
    match last_name(split(path, '/')) {
        Some(n) => if n == ".."@ {
            None
        } else {
            Some(n)
        },
        None => None,
    }
}

/// A file's name without its extension: what comes before its last dot, and the whole name where
/// there is nothing before that dot.
pub open spec fn stem(name: Seq<char>) -> Seq<char> {
    let ext = split(name, '.').last();
    if name.len() > ext.len() + 1 {
        name.take(name.len() - ext.len() - 1)
    } else {
        name
    }
}

/// The name, without its extension, of the file at a path.
pub open spec fn file_stem_text(path: Seq<char>) -> Option<Seq<char>> {
    match file_name(path) {
        Some(n) => Some(stem(n)),
        None => None,
    }
}

fn name_at_end(path: &str) -> (r: Option<String>)
    ensures
        strings::opt(r) == last_name(split(path@, '/')),
{
    let p = pieces(path, '/');
    let ghost all = strings::texts(p@);
    let mut n: usize = p.len();
    assert(all.take(n as int) =~= all);
    while n > 0
        invariant
            n <= p@.len(),
            all == strings::texts(p@),
            last_name(split(path@, '/')) == last_name(all.take(n as int)),
        decreases n,
    {
        let ghost t = all.take(n as int);
        assert(t.last() == p@[n - 1]@);
        assert(t.drop_last() =~= all.take(n - 1));
        if !p[n - 1].as_str().is_empty() && !text::equal(&p[n - 1], ".") {
            return Some(p[n - 1].clone());
        }
        n -= 1;
    }
    None
}

/// The name, without its extension, of the file at a path.
pub fn file_stem(path: &str) -> (r: Option<String>)
    ensures
        strings::opt(r) == file_stem_text(path@),
{
    match name_at_end(path) {
        Some(name) => {
            if text::equal(&name, "..") {
                return None;
            }
            let p = pieces(&name, '.');
            let last: usize = p.len() - 1;
            assert(strings::texts(p@)[last as int] == p@[last as int]@);
            let ext = text::chars(&p[last]);
            let v = text::chars(&name);
            if v.len() > ext.len() && v.len() - ext.len() > 1 {
                let n: usize = v.len() - ext.len() - 1;
                assert(v@.subrange(0, n as int) =~= v@.take(n as int));
                Some(text::slice(&v, 0, n))
            } else {
                Some(name)
            }
        },
        None => None,
    }
}

} // verus!
