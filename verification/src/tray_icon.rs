//! The tray's icon: reading the path of a drawing, and the pixels that a tray wants.

use crate::scan;
use crate::strings;
use crate::text;
use vstd::prelude::*;

verus! {

/// The outline of a lightning bolt.
pub const BOLT_PATH: &'static str = "M13 2 L3 14 L12 14 L11 22 L21 10 L12 10 Z";

/// Whether the icon is drawn dark, by what the environment says.
pub open spec fn dark(fg: Option<Seq<char>>) -> bool {
    fg == Some("dark"@) || fg == Some("black"@)
}

/// Whether the icon is drawn dark, by what the environment says. It is light otherwise.
pub fn foreground(fg: Option<&str>) -> (r: bool)
    ensures
        r == dark(strings::opt_str(fg)),
{
    match fg {
        Some(s) => text::equal(s, "dark") || text::equal(s, "black"),
        None => false,
    }
}

// ---- the path in a drawing ----

/// Whether the name of an element ends before a character.
pub open spec fn ends_name(c: char) -> bool {
    text::white_space(c) || c == '/' || c == '>'
}

/// Where the first path element at or behind a place starts.
pub open spec fn element_from(s: Seq<char>, i: int) -> Option<int>
    decreases s.len() - i,
{
    if i < 0 || i + 5 >= s.len() {
        None
    } else if scan::occurs_at(s, "<path"@, i) && ends_name(s[i + 5]) {
        Some(i)
    } else {
        element_from(s, i + 1)
    }
}

/// Whether a character opens or closes the value of an attribute.
pub open spec fn quote(c: char) -> bool {
    c == '"' || c == '\''
}

/// Where a run of white space ends.
pub open spec fn space_end(s: Seq<char>, i: int) -> int
    decreases s.len() - i,
{
    if 0 <= i < s.len() && text::white_space(s[i]) {
        space_end(s, i + 1)
    } else {
        i
    }
}

/// Where the opening quote of a path attribute stands whose name stands at a place: behind the name
/// and an equals sign, with or without white space between them.
pub open spec fn value_at(s: Seq<char>, i: int) -> Option<int> {
    if 0 <= i < s.len() && s[i] == 'd' {
        let equals = space_end(s, i + 1);
        let open = space_end(s, equals + 1);
        if equals < s.len() && s[equals] == '=' && open < s.len() && quote(s[open]) {
            Some(open)
        } else {
            None
        }
    } else {
        None
    }
}

/// Where the opening quote of the first path attribute stands, from a place in an element on and up
/// to the end of the element. What stands in the quotes `within` of another attribute is neither.
pub open spec fn attribute_from(s: Seq<char>, i: int, within: Option<char>) -> Option<int>
    decreases s.len() - i,
{
    if i < 0 || i >= s.len() {
        None
    } else {
        match within {
            Some(q) => attribute_from(
                s,
                i + 1,
                if s[i] == q {
                    None
                } else {
                    within
                },
            ),
            None => if s[i] == '>' {
                None
            } else if quote(s[i]) {
                attribute_from(s, i + 1, Some(s[i]))
            } else if text::white_space(s[i]) && value_at(s, i + 1) is Some {
                value_at(s, i + 1)
            } else {
                attribute_from(s, i + 1, None)
            },
        }
    }
}

/// Where the opening quote of the path attribute stands in the first path element of a drawing.
pub open spec fn path_at(svg: Seq<char>) -> Option<int> {
    match element_from(svg, 0) {
        Some(start) => attribute_from(svg, start + 5, None),
        None => None,
    }
}

/// The value of the path attribute of the first path element: what stands up to the next quote of
/// its kind.
pub open spec fn path_text(svg: Seq<char>) -> Option<Seq<char>> {
    match path_at(svg) {
        Some(at) => match scan::first_of(svg.skip(at + 1), svg[at]) {
            Some(n) => Some(svg.subrange(at + 1, at + 1 + n)),
            None => None,
        },
        None => None,
    }
}

/// Where the first path element starts.
fn element(s: &Vec<char>) -> (r: Option<usize>)
    ensures
        r.is_some() == element_from(s@, 0).is_some(),
        r matches Some(i) ==> element_from(s@, 0) == Some(i as int) && i + 5 < s@.len(),
{
    let tag = text::chars("<path");
    let n: usize = s.len();
    let mut i: usize = 0;
    while n >= 6 && i <= n - 6
        invariant
            n == s@.len(),
            tag@ == "<path"@,
            i <= n,
            element_from(s@, 0) == element_from(s@, i as int),
        decreases n - i,
    {
        if scan::starts_at(s, &tag, i) {
            let c: char = s[i + 5];
            if text::is_white_space(c) || c == '/' || c == '>' {
                return Some(i);
            }
        }
        i += 1;
    }
    None
}

/// Where a run of white space ends.
fn skip_space(s: &Vec<char>, from: usize) -> (r: usize)
    requires
        from <= s@.len(),
    ensures
        r == space_end(s@, from as int),
        from <= r <= s@.len(),
{
    let mut i: usize = from;
    while i < s.len() && text::is_white_space(s[i])
        invariant
            from <= i <= s@.len(),
            space_end(s@, from as int) == space_end(s@, i as int),
        decreases s.len() - i,
    {
        i += 1;
    }
    i
}

/// Where the opening quote of a path attribute stands whose name stands at a place.
fn value(s: &Vec<char>, i: usize) -> (r: Option<usize>)
    requires
        i <= s@.len(),
    ensures
        r.is_some() == value_at(s@, i as int).is_some(),
        r matches Some(q) ==> value_at(s@, i as int) == Some(q as int) && q < s@.len(),
{
    if i == s.len() || s[i] != 'd' {
        return None;
    }
    let equals: usize = skip_space(s, i + 1);
    if equals == s.len() || s[equals] != '=' {
        return None;
    }
    let open: usize = skip_space(s, equals + 1);
    if open < s.len() && (s[open] == '"' || s[open] == '\'') {
        Some(open)
    } else {
        None
    }
}

/// Where the opening quote of the first path attribute stands, from a place in an element on.
fn attribute(s: &Vec<char>, from: usize) -> (r: Option<usize>)
    requires
        from <= s@.len(),
    ensures
        r.is_some() == attribute_from(s@, from as int, None).is_some(),
        r matches Some(q) ==> attribute_from(s@, from as int, None) == Some(q as int) && q
            < s@.len(),
{
    let mut within: Option<char> = None;
    let mut i: usize = from;
    while i < s.len()
        invariant
            from <= i <= s@.len(),
            attribute_from(s@, from as int, None) == attribute_from(s@, i as int, within),
        decreases s.len() - i,
    {
        let c: char = s[i];
        match within {
            Some(q) => {
                if c == q {
                    within = None;
                }
            },
            None => {
                if c == '>' {
                    return None;
                }
                if c == '"' || c == '\'' {
                    within = Some(c);
                } else if text::is_white_space(c) {
                    let found = value(s, i + 1);
                    if found.is_some() {
                        return found;
                    }
                }
            },
        }
        i += 1;
    }
    None
}

/// The path in a drawing: the `d` attribute of its first path element.
pub fn extract_path(svg: &str) -> (r: Option<String>)
    ensures
        strings::opt(r) == path_text(svg@),
{
    let v = text::chars(svg);
    let start: usize = match element(&v) {
        Some(i) => i + 5,
        None => return None,
    };
    let at: usize = match attribute(&v, start) {
        Some(i) => i,
        None => return None,
    };
    let n: usize = v.len();
    let from: usize = at + 1;
    let rest = text::chars(&text::slice(&v, from, n));
    assert(rest@ =~= v@.skip(from as int));
    match scan::position(&rest, v[at]) {
        Some(len) => {
            proof {
                scan::lemma_first_of(rest@, v@[at as int]);
            }
            Some(text::slice(&v, from, from + len))
        },
        None => None,
    }
}

// ---- tokens ----

/// A piece of a path: a command, or the text of a number.
#[derive(Debug)]
pub enum Tok {
    Cmd(char),
    Num(String),
}

/// A piece of a path, as texts.
pub enum TokText {
    Cmd(char),
    Num(Seq<char>),
}

impl View for Tok {
    type V = TokText;

    open spec fn view(&self) -> TokText {
        match *self {
            Tok::Cmd(c) => TokText::Cmd(c),
            Tok::Num(s) => TokText::Num(s@),
        }
    }
}

/// What pieces hold.
pub open spec fn tok_texts(v: Seq<Tok>) -> Seq<TokText> {
    v.map_values(|t: Tok| t@)
}

/// Whether a character is a sign.
pub open spec fn sign(c: char) -> bool {
    c == '-' || c == '+'
}

/// Whether a number may begin with a character.
pub open spec fn starts_number(c: char) -> bool {
    sign(c) || c == '.' || text::ascii_digit(c)
}

/// Where a run of digits ends.
pub open spec fn run_end(s: Seq<char>, i: int) -> int
    decreases s.len() - i,
{
    if 0 <= i < s.len() && text::ascii_digit(s[i]) {
        run_end(s, i + 1)
    } else {
        i
    }
}

/// Where a sign ends that may stand at a place.
pub open spec fn sign_end(s: Seq<char>, i: int) -> int {
    if 0 <= i < s.len() && sign(s[i]) {
        i + 1
    } else {
        i
    }
}

/// Whether nothing, or an exponent and nothing else, stands from a place on.
pub open spec fn exponent(s: Seq<char>, i: int) -> bool {
    ||| i == s.len()
    ||| {
        let j = sign_end(s, i + 1);
        i < s.len() && (s[i] == 'e' || s[i] == 'E') && run_end(s, j) == s.len() && j < s.len()
    }
}

/// Whether a text is a number: a sign that may be left out, digits with or without a point among
/// them, at least one, and an exponent that may be left out.
pub open spec fn number_text(s: Seq<char>) -> bool {
    let i = sign_end(s, 0);
    let j = run_end(s, i);
    if j < s.len() && s[j] == '.' {
        let k = run_end(s, j + 1);
        (j > i || k > j + 1) && exponent(s, k)
    } else {
        j > i && exponent(s, j)
    }
}

/// Where a number ends that has begun before a place: at the first character that is no digit,
/// point, or letter of an exponent with the sign behind it.
pub open spec fn number_end(s: Seq<char>, i: int) -> int
    decreases s.len() - i,
{
    if i < 0 || i >= s.len() {
        i
    } else if text::ascii_digit(s[i]) || s[i] == '.' {
        number_end(s, i + 1)
    } else if s[i] == 'e' || s[i] == 'E' {
        number_end(s, sign_end(s, i + 1))
    } else {
        i
    }
}

/// A number ends no earlier than it is looked at, and within the text.
pub proof fn lemma_number_end(s: Seq<char>, i: int)
    requires
        0 <= i <= s.len(),
    ensures
        i <= number_end(s, i) <= s.len(),
    decreases s.len() - i,
{
    if i < s.len() {
        if text::ascii_digit(s[i]) || s[i] == '.' {
            lemma_number_end(s, i + 1);
        } else if s[i] == 'e' || s[i] == 'E' {
            lemma_number_end(s, sign_end(s, i + 1));
        }
    }
}

/// The pieces of a path from a place on. What is neither a letter nor part of a number lies between
/// the pieces; what looks like a number and is none is left out.
pub open spec fn tokens_from(d: Seq<char>, i: int) -> Seq<TokText>
    decreases d.len() - i,
{
    if i < 0 || i >= d.len() {
        Seq::empty()
    } else if text::ascii_letter(d[i]) {
        seq![TokText::Cmd(d[i])] + tokens_from(d, i + 1)
    } else if starts_number(d[i]) {
        proof {
            lemma_number_end(d, i + 1);
        }
        let e = number_end(d, i + 1);
        let t = d.subrange(i, e);
        if number_text(t) {
            seq![TokText::Num(t)] + tokens_from(d, e)
        } else {
            tokens_from(d, e)
        }
    } else {
        tokens_from(d, i + 1)
    }
}

fn is_sign(c: char) -> (r: bool)
    ensures
        r == sign(c),
{
    c == '-' || c == '+'
}

fn is_digit(c: char) -> (r: bool)
    ensures
        r == text::ascii_digit(c),
{
    '0' <= c && c <= '9'
}

fn end_of_run(s: &Vec<char>, from: usize) -> (r: usize)
    requires
        from <= s@.len(),
    ensures
        r == run_end(s@, from as int),
        from <= r <= s@.len(),
{
    let mut i: usize = from;
    while i < s.len() && is_digit(s[i])
        invariant
            from <= i <= s@.len(),
            run_end(s@, from as int) == run_end(s@, i as int),
        decreases s.len() - i,
    {
        i += 1;
    }
    i
}

fn end_of_sign(s: &Vec<char>, i: usize) -> (r: usize)
    requires
        i <= s@.len(),
    ensures
        r == sign_end(s@, i as int),
        i <= r <= s@.len(),
{
    if i < s.len() && is_sign(s[i]) {
        i + 1
    } else {
        i
    }
}

fn is_exponent(s: &Vec<char>, i: usize) -> (r: bool)
    requires
        i <= s@.len(),
    ensures
        r == exponent(s@, i as int),
{
    if i == s.len() {
        return true;
    }
    if s[i] != 'e' && s[i] != 'E' {
        return false;
    }
    let j: usize = end_of_sign(s, i + 1);
    j < s.len() && end_of_run(s, j) == s.len()
}

fn is_number(s: &Vec<char>) -> (r: bool)
    ensures
        r == number_text(s@),
{
    let i: usize = end_of_sign(s, 0);
    let j: usize = end_of_run(s, i);
    if j < s.len() && s[j] == '.' {
        let k: usize = end_of_run(s, j + 1);
        (j > i || k > j + 1) && is_exponent(s, k)
    } else {
        j > i && is_exponent(s, j)
    }
}

fn end_of_number(s: &Vec<char>, from: usize) -> (r: usize)
    requires
        from <= s@.len(),
    ensures
        r == number_end(s@, from as int),
        from <= r <= s@.len(),
{
    let mut i: usize = from;
    while i < s.len()
        invariant
            from <= i <= s@.len(),
            number_end(s@, from as int) == number_end(s@, i as int),
        decreases s.len() - i,
    {
        let c: char = s[i];
        if is_digit(c) || c == '.' {
            i += 1;
        } else if c == 'e' || c == 'E' {
            i = end_of_sign(s, i + 1);
        } else {
            return i;
        }
    }
    i
}

fn push_tok(out: &mut Vec<Tok>, t: Tok)
    ensures
        tok_texts(final(out)@) == tok_texts(old(out)@).push(t@),
{
    let ghost before = out@;
    out.push(t);
    assert(tok_texts(out@) =~= tok_texts(before).push(t@));
}

/// The pieces of a path.
pub fn tokenize(d: &str) -> (r: Vec<Tok>)
    ensures
        tok_texts(r@) == tokens_from(d@, 0),
{
    let v = text::chars(d);
    let mut out: Vec<Tok> = Vec::new();
    let mut i: usize = 0;
    assert(tok_texts(out@) + tokens_from(d@, 0) =~= tokens_from(d@, 0));
    while i < v.len()
        invariant
            i <= v@.len(),
            v@ == d@,
            tok_texts(out@) + tokens_from(d@, i as int) == tokens_from(d@, 0),
        decreases v.len() - i,
    {
        let ghost before = tok_texts(out@);
        let ghost rest = tokens_from(d@, i as int);
        let c: char = v[i];
        if ('a' <= c && c <= 'z') || ('A' <= c && c <= 'Z') {
            assert(text::ascii_letter(c));
            push_tok(&mut out, Tok::Cmd(c));
            i += 1;
            assert(before.push(TokText::Cmd(c)) + tokens_from(d@, i as int) =~= before + rest);
        } else if is_sign(c) || c == '.' || is_digit(c) {
            assert(!text::ascii_letter(c));
            let e: usize = end_of_number(&v, i + 1);
            let s = text::slice(&v, i, e);
            let ghost t = s@;
            if is_number(&text::chars(&s)) {
                push_tok(&mut out, Tok::Num(s));
                assert(before.push(TokText::Num(t)) + tokens_from(d@, e as int) =~= before + rest);
            }
            i = e;
        } else {
            assert(!text::ascii_letter(c));
            i += 1;
        }
    }
    assert(tok_texts(out@) + Seq::empty() =~= tok_texts(out@));
    out
}

// ---- segments ----

/// A step of a path: its command in lower case, whether its points are relative to where the path
/// has come, and the texts of its numbers.
#[derive(Debug)]
pub struct Segment {
    pub op: char,
    pub relative: bool,
    pub args: Vec<String>,
}

/// A step of a path, as texts.
pub struct SegmentText {
    pub op: char,
    pub relative: bool,
    pub args: Seq<Seq<char>>,
}

impl View for Segment {
    type V = SegmentText;

    open spec fn view(&self) -> SegmentText {
        SegmentText { op: self.op, relative: self.relative, args: strings::texts(self.args@) }
    }
}

/// What steps hold.
pub open spec fn segment_texts(v: Seq<Segment>) -> Seq<SegmentText> {
    v.map_values(|s: Segment| s@)
}

/// How many numbers a command takes, where it is one that can be drawn.
pub open spec fn arity(op: char) -> Option<nat> {
    if op == 'm' || op == 'l' {
        Some(2)
    } else if op == 'h' || op == 'v' {
        Some(1)
    } else if op == 'c' {
        Some(6)
    } else if op == 'a' {
        Some(7)
    } else if op == 'z' {
        Some(0)
    } else {
        None
    }
}

/// The number at a place, and the place behind it. A number that is missing is zero, and nothing is
/// passed over for it.
pub open spec fn number_at(toks: Seq<TokText>, k: int) -> (Seq<char>, int) {
    if 0 <= k < toks.len() {
        match toks[k] {
            TokText::Num(t) => (t, k + 1),
            TokText::Cmd(_) => ("0"@, k),
        }
    } else {
        ("0"@, k)
    }
}

/// The next numbers, and the place behind them.
pub open spec fn numbers_at(toks: Seq<TokText>, k: int, n: nat) -> (Seq<Seq<char>>, int)
    decreases n,
{
    if n == 0 {
        (Seq::empty(), k)
    } else {
        let (before, k1) = numbers_at(toks, k, (n - 1) as nat);
        let (t, k2) = number_at(toks, k1);
        (before.push(t), k2)
    }
}

/// Reading numbers goes forward, by at least one place where the first is there, and not past the
/// end.
pub proof fn lemma_numbers_at(toks: Seq<TokText>, k: int, n: nat)
    requires
        0 <= k <= toks.len(),
    ensures
        k <= numbers_at(toks, k, n).1 <= toks.len(),
        numbers_at(toks, k, n).0.len() == n,
        n > 0 && k < toks.len() && toks[k] is Num ==> k < numbers_at(toks, k, n).1,
    decreases n,
{
    if n > 0 {
        lemma_numbers_at(toks, k, (n - 1) as nat);
    }
}

/// The command that goes on after a step: more points behind a move are lines.
pub open spec fn going_on(cmd: char) -> char {
    if cmd == 'M' {
        'L'
    } else if cmd == 'm' {
        'l'
    } else {
        cmd
    }
}

/// The steps of a path from a place on, where `cmd` is the command that goes on. Numbers without a
/// command repeat it; those behind a closed path are passed over. A command that cannot be drawn is
/// passed over together with what comes next.
pub open spec fn segments_from(toks: Seq<TokText>, k: int, cmd: char) -> Seq<SegmentText>
    decreases toks.len() + 1 - k,
{
    if k < 0 || k >= toks.len() {
        Seq::empty()
    } else if toks[k] is Num && text::ascii_lower(cmd) == 'z' {
        segments_from(toks, k + 1, cmd)
    } else {
        let (at, now) = match toks[k] {
            TokText::Cmd(c) => (k + 1, c),
            TokText::Num(_) => (k, cmd),
        };
        match arity(text::ascii_lower(now)) {
            Some(n) => {
                proof {
                    lemma_numbers_at(toks, at, n);
                }
                let (args, next) = numbers_at(toks, at, n);
                seq![
                    SegmentText {
                        op: text::ascii_lower(now),
                        relative: now == text::ascii_lower(now),
                        args,
                    },
                ] + segments_from(toks, next, going_on(now))
            },
            None => segments_from(toks, at + 1, now),
        }
    }
}

fn arity_of(op: char) -> (r: Option<usize>)
    ensures
        match r {
            Some(n) => arity(op) == Some(n as nat),
            None => arity(op) is None,
        },
{
    if op == 'm' || op == 'l' {
        Some(2)
    } else if op == 'h' || op == 'v' {
        Some(1)
    } else if op == 'c' {
        Some(6)
    } else if op == 'a' {
        Some(7)
    } else if op == 'z' {
        Some(0)
    } else {
        None
    }
}

fn take_numbers(toks: &Vec<Tok>, k: usize, n: usize) -> (r: (Vec<String>, usize))
    requires
        k <= toks@.len(),
    ensures
        (strings::texts(r.0@), r.1 as int) == numbers_at(tok_texts(toks@), k as int, n as nat),
        k <= r.1 <= toks@.len(),
{
    let ghost all = tok_texts(toks@);
    let mut out: Vec<String> = Vec::new();
    let mut at: usize = k;
    let mut i: usize = 0;
    assert(strings::texts(out@) =~= Seq::empty());
    while i < n
        invariant
            i <= n,
            k <= at <= toks@.len(),
            all == tok_texts(toks@),
            (strings::texts(out@), at as int) == numbers_at(all, k as int, i as nat),
        decreases n - i,
    {
        let ghost before = strings::texts(out@);
        let mut s = "0".to_owned();
        let mut next: usize = at;
        if at < toks.len() {
            assert(all[at as int] == toks@[at as int]@);
            if let Tok::Num(t) = &toks[at] {
                s = t.clone();
                next = at + 1;
            }
        }
        assert((s@, next as int) == number_at(all, at as int));
        out.push(s);
        assert(strings::texts(out@) =~= before.push(s@));
        at = next;
        i += 1;
        assert((i - 1) as nat == (i as nat - 1) as nat);
    }
    (out, at)
}

/// The steps of a path, from its pieces.
pub fn segments(toks: &Vec<Tok>) -> (r: Vec<Segment>)
    ensures
        segment_texts(r@) == segments_from(tok_texts(toks@), 0, 'M'),
{
    let ghost all = tok_texts(toks@);
    let ghost whole = segments_from(all, 0, 'M');
    let n: usize = toks.len();
    let mut out: Vec<Segment> = Vec::new();
    let mut cmd: char = 'M';
    let mut k: usize = 0;
    assert(segment_texts(out@) + whole =~= whole);
    while k < n
        invariant
            n == toks@.len(),
            all == tok_texts(toks@),
            all.len() == n,
            segment_texts(out@) + segments_from(all, k as int, cmd) == whole,
        decreases if k < n {
            n - k
        } else {
            0
        },
    {
        let ghost before = out@;
        let ghost rest = segments_from(all, k as int, cmd);
        assert(all[k as int] == toks@[k as int]@);
        let (at, now): (usize, char) = match &toks[k] {
            Tok::Cmd(c) => (k + 1, *c),
            Tok::Num(_) => (k, cmd),
        };
        let op: char = text::to_ascii_lower(now);
        if at == k && op == 'z' {
            k += 1;
        } else {
            match arity_of(op) {
                Some(count) => {
                    proof {
                        lemma_numbers_at(all, at as int, count as nat);
                    }
                    let (args, next) = take_numbers(toks, at, count);
                    let s = Segment { op, relative: now == op, args };
                    let ghost t = s@;
                    out.push(s);
                    cmd = if now == 'M' {
                        'L'
                    } else if now == 'm' {
                        'l'
                    } else {
                        now
                    };
                    k = next;
                    assert(segment_texts(out@) =~= segment_texts(before).push(t));
                    assert(segment_texts(before).push(t) + segments_from(all, k as int, cmd)
                        =~= segment_texts(before) + rest);
                },
                None => {
                    cmd = now;
                    if at < n {
                        k = at + 1;
                    } else {
                        assert(segments_from(all, at + 1, now) == segments_from(all, n as int, now));
                        k = n;
                    }
                },
            }
        }
    }
    assert(segment_texts(out@) + Seq::empty() =~= segment_texts(out@));
    out
}

/// Each step has as many numbers as its command takes.
pub proof fn law_steps_have_their_numbers(toks: Seq<TokText>, k: int, cmd: char, i: int)
    requires
        0 <= k <= toks.len(),
        0 <= i < segments_from(toks, k, cmd).len(),
    ensures
        arity(segments_from(toks, k, cmd)[i].op) == Some(
            segments_from(toks, k, cmd)[i].args.len(),
        ),
    decreases toks.len() - k,
{
    if toks[k] is Num && text::ascii_lower(cmd) == 'z' {
        law_steps_have_their_numbers(toks, k + 1, cmd, i);
    } else {
        let (at, now) = match toks[k] {
            TokText::Cmd(c) => (k + 1, c),
            TokText::Num(_) => (k, cmd),
        };
        match arity(text::ascii_lower(now)) {
            Some(n) => {
                lemma_numbers_at(toks, at, n);
                if i > 0 {
                    law_steps_have_their_numbers(
                        toks,
                        numbers_at(toks, at, n).1,
                        going_on(now),
                        i - 1,
                    );
                }
            },
            None => {
                if at + 1 <= toks.len() {
                    law_steps_have_their_numbers(toks, at + 1, now, i);
                }
            },
        }
    }
}

// ---- pixels ----

/// A colour that was multiplied by its opacity, as it was before.
pub open spec fn undone(c: u8, a: u8) -> u8 {
    if a == 0 {
        0
    } else {
        ((c * 255 / a as int) % 256) as u8
    }
}

/// A pixel of four bytes at a place: blue, green and red, each multiplied by the opacity, and the
/// opacity. The tray wants the opacity first, and red, green and blue as they were.
pub open spec fn pixel(data: Seq<u8>, i: int) -> Seq<u8> {
    let a = data[i + 3];
    seq![a, undone(data[i + 2], a), undone(data[i + 1], a), undone(data[i], a)]
}

/// The first `n` pixels of the row that begins at a place.
pub open spec fn pixel_row(data: Seq<u8>, at: int, n: nat) -> Seq<u8>
    decreases n,
{
    if n == 0 {
        Seq::empty()
    } else {
        pixel_row(data, at, (n - 1) as nat) + pixel(data, at + 4 * (n - 1))
    }
}

/// The first `n` rows of pixels, each of which begins `stride` bytes behind the one before.
pub open spec fn pixel_rows(data: Seq<u8>, stride: nat, width: nat, n: nat) -> Seq<u8>
    decreases n,
{
    if n == 0 {
        Seq::empty()
    } else {
        pixel_rows(data, stride, width, (n - 1) as nat) + pixel_row(data, stride * (n - 1), width)
    }
}

fn undo(c: u8, a: u8) -> (r: u8)
    ensures
        r == undone(c, a),
{
    if a == 0 {
        return 0;
    }
    assert(0 <= c * 255 / a as int <= 255 * 255) by (nonlinear_arith)
        requires
            a > 0,
            0 <= c <= 255,
    ;
    ((c as u32 * 255 / a as u32) % 256) as u8
}

fn push_row(out: &mut Vec<u8>, data: &Vec<u8>, at: usize, width: usize)
    requires
        at + 4 * width <= data@.len(),
    ensures
        final(out)@ == old(out)@ + pixel_row(data@, at as int, width as nat),
{
    let ghost before = out@;
    let n: usize = data.len();
    let mut x: usize = 0;
    assert(out@ =~= before + pixel_row(data@, at as int, 0));
    while x < width
        invariant
            x <= width,
            n == data@.len(),
            at + 4 * width <= n,
            out@ == before + pixel_row(data@, at as int, x as nat),
        decreases width - x,
    {
        let i: usize = at + 4 * x;
        let a: u8 = data[i + 3];
        let ghost start = out@;
        out.push(a);
        out.push(undo(data[i + 2], a));
        out.push(undo(data[i + 1], a));
        out.push(undo(data[i], a));
        assert(out@ =~= start + pixel(data@, i as int));
        x += 1;
        assert(start + pixel(data@, i as int) =~= before + pixel_row(data@, at as int, x as nat));
    }
}

/// The pixels of a drawn surface as a tray wants them. The surface is `size` pixels wide and high,
/// and each of its rows takes `stride` bytes.
pub fn icon(data: &Vec<u8>, stride: usize, size: usize) -> (r: Vec<u8>)
    requires
        size > 0 ==> stride * (size - 1) + 4 * size <= data@.len(),
    ensures
        r@ == pixel_rows(data@, stride as nat, size as nat, size as nat),
{
    let mut out: Vec<u8> = Vec::new();
    let n: usize = data.len();
    let mut at: usize = 0;
    let mut y: usize = 0;
    while y < size
        invariant
            y <= size,
            n == data@.len(),
            size > 0 ==> stride * (size - 1) + 4 * size <= n,
            y < size ==> at == stride * y,
            out@ == pixel_rows(data@, stride as nat, size as nat, y as nat),
        decreases size - y,
    {
        assert(stride * y <= stride * (size - 1)) by (nonlinear_arith)
            requires
                y <= size - 1,
        ;
        push_row(&mut out, data, at, size);
        y += 1;
        if y < size {
            assert(stride * y <= stride * (size - 1)) by (nonlinear_arith)
                requires
                    y <= size - 1,
            ;
            assert(stride * y == stride * (y - 1) + stride) by (nonlinear_arith);
            at += stride;
        }
    }
    out
}

/// What is drawn fully opaque keeps its colours, and what is fully transparent has none.
pub proof fn law_opaque_colours_stay(c: u8)
    ensures
        undone(c, 255) == c,
        undone(c, 0) == 0,
{
}

/// A row of pixels takes four bytes for each.
pub proof fn lemma_pixel_row(data: Seq<u8>, at: int, n: nat)
    ensures
        pixel_row(data, at, n).len() == 4 * n,
    decreases n,
{
    if n > 0 {
        lemma_pixel_row(data, at, (n - 1) as nat);
    }
}

/// The tray gets four bytes for each pixel, however long the rows of the surface are.
pub proof fn law_icon_has_four_bytes_a_pixel(data: Seq<u8>, stride: nat, width: nat, n: nat)
    ensures
        pixel_rows(data, stride, width, n).len() == 4 * width * n,
    decreases n,
{
    if n > 0 {
        law_icon_has_four_bytes_a_pixel(data, stride, width, (n - 1) as nat);
        lemma_pixel_row(data, stride * (n - 1), width);
        assert(4 * width * (n - 1) + 4 * width == 4 * width * n) by (nonlinear_arith);
    } else {
        assert(4 * width * n == 0) by (nonlinear_arith)
            requires
                n == 0,
        ;
    }
}

} // verus!
