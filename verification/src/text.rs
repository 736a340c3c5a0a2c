//! Text primitives with exact contracts: splitting, trimming, searching and numbers.
use vstd::prelude::*;
use vstd::string::StringExecFns;
use vstd::string::StrSliceExecFns;

verus! {

broadcast use vstd::string::group_string_axioms;

// ---------------------------------------------------------------------------
// Characters
// ---------------------------------------------------------------------------

/// Unicode's White_Space property.
pub open spec fn is_space(c: char) -> bool {
    let u = c as u32;
    ||| 0x09 <= u <= 0x0D
    ||| u == 0x20
    ||| u == 0x85
    ||| u == 0xA0
    ||| u == 0x1680
    ||| 0x2000 <= u <= 0x200A
    ||| u == 0x2028
    ||| u == 0x2029
    ||| u == 0x202F
    ||| u == 0x205F
    ||| u == 0x3000
}

pub fn char_is_space(c: char) -> (b: bool)
    ensures
        b == is_space(c),
{
    let u: u32 = c as u32;
    (0x09 <= u && u <= 0x0D) || u == 0x20 || u == 0x85 || u == 0xA0 || u == 0x1680 || (0x2000 <= u
        && u <= 0x200A) || u == 0x2028 || u == 0x2029 || u == 0x202F || u == 0x205F || u == 0x3000
}

/// The characters of a string.
pub fn chars_of(s: &str) -> (v: Vec<char>)
    ensures
        v@ == s@,
{
    let mut v: Vec<char> = Vec::new();
    for c in it: s.chars()
        invariant
            it.seq() == s@,
            v@ == s@.take(it.index() as int),
    {
        v.push(c);
        assert(v@ =~= s@.take(it.index() + 1));
    }
    assert(s@.take(s@.len() as int) =~= s@);
    v
}

/// Whether two strings have the same characters.
pub fn same_text(a: &str, b: &str) -> (same: bool)
    ensures
        same == (a@ == b@),
{
    let x = chars_of(a);
    let y = chars_of(b);
    same_chars(&x, &y)
}

fn same_chars(x: &Vec<char>, y: &Vec<char>) -> (same: bool)
    ensures
        same == (x@ == y@),
{
    if x.len() != y.len() {
        return false;
    }
    let mut i: usize = 0;
    while i < x.len()
        invariant
            i <= x@.len(),
            x@.len() == y@.len(),
            forall|j: int| 0 <= j < i ==> x@[j] == y@[j],
        decreases x@.len() - i,
    {
        if x[i] != y[i] {
            return false;
        }
        i += 1;
    }
    assert(x@ =~= y@);
    true
}

/// The characters behind a list of string slices.
pub open spec fn views(v: Seq<&str>) -> Seq<Seq<char>> {
    v.map_values(|s: &str| s@)
}

/// The characters behind a list of strings.
pub open spec fn string_views(v: Seq<String>) -> Seq<Seq<char>> {
    v.map_values(|s: String| s@)
}

// ---------------------------------------------------------------------------
// Splitting
// ---------------------------------------------------------------------------

/// How many characters stand before the first `c`; all of them where there is none.
pub open spec fn span(s: Seq<char>, c: char) -> nat
    decreases s.len(),
{
    if s.len() == 0 || s[0] == c {
        0
    } else {
        1 + span(s.drop_first(), c)
    }
}

/// How many characters stand before the first white space.
pub open spec fn word_span(s: Seq<char>) -> nat
    decreases s.len(),
{
    if s.len() == 0 || is_space(s[0]) {
        0
    } else {
        1 + word_span(s.drop_first())
    }
}

/// The fields of `s` between the separators `c`: one more than there are separators.
pub open spec fn fields(s: Seq<char>, c: char) -> Seq<Seq<char>>
    decreases s.len(),
{
    let n = span(s, c) as int;
    if n >= s.len() {
        seq![s]
    } else {
        seq![s.take(n)] + fields(s.skip(n + 1), c)
    }
}

/// The maximal runs of characters that are no white space.
pub open spec fn words(s: Seq<char>) -> Seq<Seq<char>>
    decreases s.len(),
{
    let n = word_span(s) as int;
    if s.len() == 0 {
        Seq::empty()
    } else if n == 0 {
        words(s.drop_first())
    } else {
        proof {
            word_span_bound(s);
        }
        seq![s.take(n)] + words(s.skip(n))
    }
}

/// A line that ended in `\n`, without the `\r` that may stand before it.
pub open spec fn without_cr(s: Seq<char>) -> Seq<char> {
    if s.len() > 0 && s.last() == '\r' {
        s.drop_last()
    } else {
        s
    }
}

/// The lines of a text. Each ends in `\n` or `\r\n`, which does not belong to it; the last
/// one may lack its end.
pub open spec fn lines(s: Seq<char>) -> Seq<Seq<char>>
    decreases s.len(),
{
    let n = span(s, '\n') as int;
    if s.len() == 0 {
        Seq::empty()
    } else if n >= s.len() {
        seq![s]
    } else {
        seq![without_cr(s.take(n))] + lines(s.skip(n + 1))
    }
}

/// A word is no longer than the text that it starts.
pub proof fn word_span_bound(s: Seq<char>)
    ensures
        word_span(s) <= s.len(),
    decreases s.len(),
{
    if s.len() > 0 && !is_space(s[0]) {
        word_span_bound(s.drop_first());
    }
}

/// The position of the first `c` at or behind `start`, or the length where there is none.
fn find_from(v: &Vec<char>, start: usize, c: char) -> (end: usize)
    requires
        start <= v@.len(),
    ensures
        start <= end <= v@.len(),
        end == start + span(v@.skip(start as int), c),
{
    let mut i: usize = start;
    while i < v.len() && v[i] != c
        invariant
            start <= i <= v@.len(),
            i - start + span(v@.skip(i as int), c) == span(v@.skip(start as int), c),
        decreases v@.len() - i,
    {
        assert(v@.skip(i as int).drop_first() =~= v@.skip(i + 1));
        i += 1;
    }
    i
}

fn find_space_from(v: &Vec<char>, start: usize) -> (end: usize)
    requires
        start <= v@.len(),
    ensures
        start <= end <= v@.len(),
        end == start + word_span(v@.skip(start as int)),
{
    let mut i: usize = start;
    while i < v.len() && !char_is_space(v[i])
        invariant
            start <= i <= v@.len(),
            i - start + word_span(v@.skip(i as int)) == word_span(v@.skip(start as int)),
        decreases v@.len() - i,
    {
        assert(v@.skip(i as int).drop_first() =~= v@.skip(i + 1));
        i += 1;
    }
    i
}

/// Splits at every `c`.
pub fn split_on<'a>(s: &'a str, c: char) -> (out: Vec<&'a str>)
    ensures
        views(out@) == fields(s@, c),
{
    let v = chars_of(s);
    let mut out: Vec<&'a str> = Vec::new();
    let mut start: usize = 0;
    assert(s@.skip(0) =~= s@);
    assert(views(out@) + fields(s@, c) =~= fields(s@, c));
    loop
        invariant
            v@ == s@,
            start <= s@.len(),
            views(out@) + fields(s@.skip(start as int), c) == fields(s@, c),
        decreases s@.len() - start,
    {
        let end = find_from(&v, start, c);
        let field = s.substring_char(start, end);
        let ghost before = out@;
        let ghost rest = s@.skip(start as int);
        assert(field@ =~= rest.take(end - start));
        out.push(field);
        assert(views(out@) =~= views(before).push(field@));
        if end == v.len() {
            assert(field@ =~= rest);
            assert(views(out@) =~= views(before) + seq![rest]);
            return out;
        }
        assert(rest.skip(end - start + 1) =~= s@.skip(end + 1));
        assert(views(out@) + fields(s@.skip(end + 1), c) =~= views(before) + (seq![field@] + fields(
            s@.skip(end + 1),
            c,
        )));
        start = end + 1;
    }
}

/// Splits at the first `c`: what stands before it, and what stands behind it if there is one.
pub fn split_at_first<'a>(s: &'a str, c: char) -> (parts: (&'a str, Option<&'a str>))
    ensures
        parts.0@ == s@.take(span(s@, c) as int),
        match parts.1 {
            Some(rest) => span(s@, c) < s@.len() && rest@ == s@.skip(
                span(s@, c) as int + 1,
            ),
            None => span(s@, c) >= s@.len(),
        },
{
    let v = chars_of(s);
    assert(s@.skip(0) =~= s@);
    let end = find_from(&v, 0, c);
    let head = s.substring_char(0, end);
    assert(head@ =~= s@.take(end as int));
    if end < v.len() {
        let rest = s.substring_char(end + 1, v.len());
        assert(rest@ =~= s@.skip(end + 1));
        (head, Some(rest))
    } else {
        (head, None)
    }
}

/// A text without a `c` is spanned whole, also where a `c` and a tail stand behind it.
pub proof fn span_without(s: Seq<char>, c: char, tail: Seq<char>)
    requires
        !s.contains(c),
    ensures
        span(s, c) == s.len(),
        span(s.push(c) + tail, c) == s.len(),
    decreases s.len(),
{
    if s.len() > 0 {
        assert(s.contains(s[0]));
        assert forall|x: char| s.drop_first().contains(x) implies s.contains(x) by {
            let i = choose|i: int| 0 <= i < s.drop_first().len() && s.drop_first()[i] == x;
            assert(s[i + 1] == x);
        }
        span_without(s.drop_first(), c, tail);
        assert((s.push(c) + tail).drop_first() =~= s.drop_first().push(c) + tail);
    }
}

/// Splits into words at white space.
pub fn split_words<'a>(s: &'a str) -> (out: Vec<&'a str>)
    ensures
        views(out@) == words(s@),
{
    let v = chars_of(s);
    let mut out: Vec<&'a str> = Vec::new();
    let mut start: usize = 0;
    assert(s@.skip(0) =~= s@);
    assert(views(out@) + words(s@) =~= words(s@));
    while start < v.len()
        invariant
            v@ == s@,
            start <= s@.len(),
            views(out@) + words(s@.skip(start as int)) == words(s@),
        decreases s@.len() - start,
    {
        let ghost rest = s@.skip(start as int);
        let end = find_space_from(&v, start);
        if end == start {
            assert(rest.drop_first() =~= s@.skip(start + 1));
            start += 1;
        } else {
            let word = s.substring_char(start, end);
            let ghost before = out@;
            assert(word@ =~= rest.take(end - start));
            out.push(word);
            assert(views(out@) =~= views(before).push(word@));
            assert(rest.skip(end - start) =~= s@.skip(end as int));
            assert(views(out@) + words(s@.skip(end as int)) =~= views(before) + (seq![word@]
                + words(s@.skip(end as int))));
            start = end;
        }
    }
    assert(views(out@) + words(s@.skip(start as int)) =~= views(out@));
    out
}

/// Splits into lines.
pub fn split_lines<'a>(s: &'a str) -> (out: Vec<&'a str>)
    ensures
        views(out@) == lines(s@),
{
    let v = chars_of(s);
    let mut out: Vec<&'a str> = Vec::new();
    let mut start: usize = 0;
    assert(s@.skip(0) =~= s@);
    assert(views(out@) + lines(s@) =~= lines(s@));
    while start < v.len()
        invariant
            v@ == s@,
            start <= s@.len(),
            views(out@) + lines(s@.skip(start as int)) == lines(s@),
        decreases s@.len() - start,
    {
        let ghost rest = s@.skip(start as int);
        let ghost before = out@;
        let end = find_from(&v, start, '\n');
        if end == v.len() {
            let line = s.substring_char(start, end);
            assert(line@ =~= rest);
            out.push(line);
            assert(views(out@) =~= views(before).push(line@));
            assert(views(out@) =~= views(before) + seq![rest]);
            return out;
        }
        let stop: usize = if end > start && v[end - 1] == '\r' {
            end - 1
        } else {
            end
        };
        let line = s.substring_char(start, stop);
        assert(rest.take(end - start) =~= s@.subrange(start as int, end as int));
        assert(line@ =~= without_cr(rest.take(end - start)));
        out.push(line);
        assert(views(out@) =~= views(before).push(line@));
        assert(rest.skip(end - start + 1) =~= s@.skip(end + 1));
        assert(views(out@) + lines(s@.skip(end + 1)) =~= views(before) + (seq![line@] + lines(
            s@.skip(end + 1),
        )));
        start = end + 1;
    }
    assert(views(out@) + lines(s@.skip(start as int)) =~= views(out@));
    out
}

// ---------------------------------------------------------------------------
// Trimming and searching
// ---------------------------------------------------------------------------

pub open spec fn trim_start(s: Seq<char>) -> Seq<char>
    decreases s.len(),
{
    if s.len() > 0 && is_space(s[0]) {
        trim_start(s.drop_first())
    } else {
        s
    }
}

pub open spec fn trim_end(s: Seq<char>) -> Seq<char>
    decreases s.len(),
{
    if s.len() > 0 && is_space(s.last()) {
        trim_end(s.drop_last())
    } else {
        s
    }
}

/// `s` without the white space at both ends.
pub fn trim<'a>(s: &'a str) -> (t: &'a str)
    ensures
        t@ == trim_end(trim_start(s@)),
{
    let v = chars_of(s);
    let mut from: usize = 0;
    assert(s@.skip(0) =~= s@);
    while from < v.len() && char_is_space(v[from])
        invariant
            v@ == s@,
            from <= v@.len(),
            trim_start(s@.skip(from as int)) == trim_start(s@),
        decreases v@.len() - from,
    {
        assert(s@.skip(from as int).drop_first() =~= s@.skip(from + 1));
        from += 1;
    }
    let mut to: usize = v.len();
    assert(s@.subrange(from as int, to as int) =~= s@.skip(from as int));
    while to > from && char_is_space(v[to - 1])
        invariant
            v@ == s@,
            from <= to <= v@.len(),
            trim_end(s@.subrange(from as int, to as int)) == trim_end(trim_start(s@)),
        decreases to,
    {
        assert(s@.subrange(from as int, to as int).drop_last() =~= s@.subrange(
            from as int,
            to - 1,
        ));
        to -= 1;
    }
    s.substring_char(from, to)
}

/// `s` without any `c` at its start.
pub open spec fn without_leading(s: Seq<char>, c: char) -> Seq<char>
    decreases s.len(),
{
    if s.len() > 0 && s[0] == c {
        without_leading(s.drop_first(), c)
    } else {
        s
    }
}

pub fn strip_leading<'a>(s: &'a str, c: char) -> (t: &'a str)
    ensures
        t@ == without_leading(s@, c),
{
    let v = chars_of(s);
    let mut from: usize = 0;
    assert(s@.skip(0) =~= s@);
    while from < v.len() && v[from] == c
        invariant
            v@ == s@,
            from <= v@.len(),
            without_leading(s@.skip(from as int), c) == without_leading(s@, c),
        decreases v@.len() - from,
    {
        assert(s@.skip(from as int).drop_first() =~= s@.skip(from + 1));
        from += 1;
    }
    assert(s@.subrange(from as int, s@.len() as int) =~= s@.skip(from as int));
    s.substring_char(from, v.len())
}

/// What stands before the last `c`; `None` where there is no `c`.
pub open spec fn before_last(s: Seq<char>, c: char) -> Option<Seq<char>>
    decreases s.len(),
{
    if s.len() == 0 {
        None
    } else if s.last() == c {
        Some(s.drop_last())
    } else {
        before_last(s.drop_last(), c)
    }
}

pub fn split_before_last<'a>(s: &'a str, c: char) -> (t: Option<&'a str>)
    ensures
        match t {
            Some(head) => before_last(s@, c) == Some(head@),
            None => before_last(s@, c) is None,
        },
{
    let v = chars_of(s);
    let mut to: usize = v.len();
    assert(s@.take(s@.len() as int) =~= s@);
    while to > 0
        invariant
            v@ == s@,
            to <= v@.len(),
            before_last(s@.take(to as int), c) == before_last(s@, c),
        decreases to,
    {
        assert(s@.take(to as int).drop_last() =~= s@.take(to - 1));
        if v[to - 1] == c {
            assert(s@.subrange(0, to - 1) =~= s@.take(to - 1));
            return Some(s.substring_char(0, to - 1));
        }
        to -= 1;
    }
    None
}

/// `part` stands in `s` at position `at`.
pub open spec fn occurs_at(s: Seq<char>, part: Seq<char>, at: int) -> bool {
    0 <= at && at + part.len() <= s.len() && s.subrange(at, at + part.len()) == part
}

pub open spec fn contains_text(s: Seq<char>, part: Seq<char>) -> bool {
    exists|at: int| #[trigger] occurs_at(s, part, at)
}

fn matches_at(v: &Vec<char>, part: &Vec<char>, at: usize) -> (b: bool)
    requires
        at <= v@.len(),
    ensures
        b == occurs_at(v@, part@, at as int),
{
    let total: usize = v.len();
    if part.len() > total - at {
        return false;
    }
    let mut i: usize = 0;
    while i < part.len()
        invariant
            i <= part@.len(),
            total == v@.len(),
            at + part@.len() <= total,
            forall|j: int| 0 <= j < i ==> v@[at + j] == part@[j],
        decreases part@.len() - i,
    {
        if v[at + i] != part[i] {
            assert(v@.subrange(at as int, at + part@.len())[i as int] != part@[i as int]);
            return false;
        }
        i += 1;
    }
    assert(v@.subrange(at as int, at + part@.len()) =~= part@);
    true
}

pub fn starts_with(s: &str, prefix: &str) -> (b: bool)
    ensures
        b == prefix@.is_prefix_of(s@),
{
    let v = chars_of(s);
    let p = chars_of(prefix);
    matches_at(&v, &p, 0)
}

pub fn contains(s: &str, part: &str) -> (b: bool)
    ensures
        b == contains_text(s@, part@),
{
    let v = chars_of(s);
    let p = chars_of(part);
    let mut at: usize = 0;
    while at < v.len()
        invariant
            v@ == s@,
            p@ == part@,
            at <= v@.len(),
            forall|k: int| 0 <= k < at ==> !#[trigger] occurs_at(s@, part@, k),
        decreases v@.len() - at,
    {
        if matches_at(&v, &p, at) {
            return true;
        }
        at += 1;
    }
    matches_at(&v, &p, at)
}

/// `a` followed by `b`.
pub fn join(a: &str, b: &str) -> (s: String)
    ensures
        s@ == a@ + b@,
{
    let mut s = a.to_string();
    s.append(b);
    s
}

// ---------------------------------------------------------------------------
// Numbers
// ---------------------------------------------------------------------------

pub open spec fn is_digit(c: char) -> bool {
    '0' <= c <= '9'
}

pub open spec fn digit_value(c: char) -> nat {
    (c as nat - '0' as nat) as nat
}

/// A text of at least one decimal digit and of nothing else.
pub open spec fn is_decimal(s: Seq<char>) -> bool {
    s.len() > 0 && forall|i: int| 0 <= i < s.len() ==> is_digit(#[trigger] s[i])
}

/// The number that decimal digits stand for.
pub open spec fn decimal_value(s: Seq<char>) -> nat
    decreases s.len(),
{
    if s.len() == 0 {
        0
    } else {
        decimal_value(s.drop_last()) * 10 + digit_value(s.last())
    }
}

/// An optional plus sign and decimal digits, for a number of at most `max`.
pub open spec fn unsigned_value(s: Seq<char>, max: nat) -> Option<nat> {
    let digits = if s.len() > 0 && s[0] == '+' {
        s.drop_first()
    } else {
        s
    };
    if is_decimal(digits) && decimal_value(digits) <= max {
        Some(decimal_value(digits))
    } else {
        None
    }
}

/// The numbers of at most `max` among some texts; whatever is none is left out.
pub open spec fn numbers(texts: Seq<Seq<char>>, max: nat) -> Seq<nat>
    decreases texts.len(),
{
    if texts.len() == 0 {
        Seq::empty()
    } else {
        match unsigned_value(texts.last(), max) {
            Some(n) => numbers(texts.drop_last(), max).push(n),
            None => numbers(texts.drop_last(), max),
        }
    }
}

/// As [`unsigned_value`] up to `max`, or a minus sign and decimal digits down to `-max - 1`.
pub open spec fn signed_value(s: Seq<char>, max: nat) -> Option<int> {
    if s.len() > 0 && s[0] == '-' {
        let digits = s.drop_first();
        if is_decimal(digits) && decimal_value(digits) <= max + 1 {
            Some(-(decimal_value(digits) as int))
        } else {
            None
        }
    } else {
        match unsigned_value(s, max) {
            Some(n) => Some(n as int),
            None => None,
        }
    }
}

/// The decimal digits from `start` on, unless something else stands among them or the number
/// does not fit.
fn digits_from(v: &Vec<char>, start: usize) -> (n: Option<u64>)
    requires
        start <= v@.len(),
    ensures
        match n {
            Some(x) => is_decimal(v@.skip(start as int)) && x == decimal_value(
                v@.skip(start as int),
            ),
            None => !is_decimal(v@.skip(start as int)) || decimal_value(v@.skip(start as int))
                > u64::MAX,
        },
{
    if start == v.len() {
        return None;
    }
    let ghost digits = v@.skip(start as int);
    let mut value: Option<u64> = Some(0);
    let mut i: usize = start;
    while i < v.len()
        invariant
            start <= i <= v@.len(),
            digits == v@.skip(start as int),
            forall|j: int| 0 <= j < i - start ==> is_digit(#[trigger] digits[j]),
            match value {
                Some(x) => x == decimal_value(digits.take(i - start)),
                None => decimal_value(digits.take(i - start)) > u64::MAX,
            },
        decreases v@.len() - i,
    {
        let c = v[i];
        assert(c == digits[i - start]);
        if c < '0' || c > '9' {
            return None;
        }
        let d: u64 = (c as u64) - 48;
        assert(digits.take(i - start + 1).drop_last() =~= digits.take(i - start));
        assert(digits.take(i - start + 1).last() == c);
        value = match value {
            Some(x) => {
                if x > (u64::MAX - d) / 10 {
                    None
                } else {
                    Some(x * 10 + d)
                }
            },
            None => None,
        };
        i += 1;
    }
    assert(digits.take(digits.len() as int) =~= digits);
    value
}

pub fn parse_u64(s: &str) -> (n: Option<u64>)
    ensures
        match n {
            Some(x) => unsigned_value(s@, u64::MAX as nat) == Some(x as nat),
            None => unsigned_value(s@, u64::MAX as nat) is None,
        },
{
    let v = chars_of(s);
    assert(s@.skip(0) =~= s@);
    if v.len() > 0 && v[0] == '+' {
        assert(s@.skip(1) =~= s@.drop_first());
        digits_from(&v, 1)
    } else {
        digits_from(&v, 0)
    }
}

pub fn parse_u8(s: &str) -> (n: Option<u8>)
    ensures
        match n {
            Some(x) => unsigned_value(s@, u8::MAX as nat) == Some(x as nat),
            None => unsigned_value(s@, u8::MAX as nat) is None,
        },
{
    match parse_u64(s) {
        Some(x) => if x <= u8::MAX as u64 {
            Some(x as u8)
        } else {
            None
        },
        None => None,
    }
}

pub fn parse_i32(s: &str) -> (n: Option<i32>)
    ensures
        match n {
            Some(x) => signed_value(s@, i32::MAX as nat) == Some(x as int),
            None => signed_value(s@, i32::MAX as nat) is None,
        },
{
    let v = chars_of(s);
    if v.len() > 0 && v[0] == '-' {
        assert(s@.skip(1) =~= s@.drop_first());
        match digits_from(&v, 1) {
            Some(x) => if x <= 0x8000_0000 {
                Some((-(x as i64)) as i32)
            } else {
                None
            },
            None => None,
        }
    } else {
        match parse_u64(s) {
            Some(x) => if x <= i32::MAX as u64 {
                Some(x as i32)
            } else {
                None
            },
            None => None,
        }
    }
}

/// The lower-case hexadecimal digit of a value below 16.
pub open spec fn hex_digit(d: int) -> char {
    if d < 10 {
        (d + '0' as int) as char
    } else {
        (d - 10 + 'a' as int) as char
    }
}

fn digit_text(d: u8) -> (t: &'static str)
    requires
        d < 16,
    ensures
        t@ == seq![hex_digit(d as int)],
{
    let t = match d {
        0 => "0",
        1 => "1",
        2 => "2",
        3 => "3",
        4 => "4",
        5 => "5",
        6 => "6",
        7 => "7",
        8 => "8",
        9 => "9",
        10 => "a",
        11 => "b",
        12 => "c",
        13 => "d",
        14 => "e",
        _ => "f",
    };
    proof {
        reveal_strlit("0");
        reveal_strlit("1");
        reveal_strlit("2");
        reveal_strlit("3");
        reveal_strlit("4");
        reveal_strlit("5");
        reveal_strlit("6");
        reveal_strlit("7");
        reveal_strlit("8");
        reveal_strlit("9");
        reveal_strlit("a");
        reveal_strlit("b");
        reveal_strlit("c");
        reveal_strlit("d");
        reveal_strlit("e");
        reveal_strlit("f");
        assert(t@ =~= seq![hex_digit(d as int)]);
    }
    t
}

/// Two lower-case hexadecimal digits for every byte.
pub open spec fn hex_text(bytes: Seq<u8>) -> Seq<char>
    decreases bytes.len(),
{
    if bytes.len() == 0 {
        Seq::empty()
    } else {
        hex_text(bytes.drop_last()).push(hex_digit(bytes.last() as int / 16)).push(
            hex_digit(bytes.last() as int % 16),
        )
    }
}

/// Every byte takes two digits.
pub proof fn hex_text_len(bytes: Seq<u8>)
    ensures
        hex_text(bytes).len() == 2 * bytes.len(),
    decreases bytes.len(),
{
    if bytes.len() > 0 {
        hex_text_len(bytes.drop_last());
    }
}

pub fn to_hex(bytes: &[u8]) -> (s: String)
    ensures
        s@ == hex_text(bytes@),
{
    let mut s = String::new();
    let mut i: usize = 0;
    assert(bytes@.take(0) =~= Seq::<u8>::empty());
    while i < bytes.len()
        invariant
            i <= bytes@.len(),
            s@ == hex_text(bytes@.take(i as int)),
        decreases bytes@.len() - i,
    {
        let b: u8 = bytes[i];
        let ghost before = s@;
        s.append(digit_text(b / 16));
        s.append(digit_text(b % 16));
        assert(bytes@.take(i + 1).drop_last() =~= bytes@.take(i as int));
        assert(s@ =~= before.push(hex_digit(b as int / 16)).push(hex_digit(b as int % 16)));
        i += 1;
    }
    assert(bytes@.take(bytes@.len() as int) =~= bytes@);
    s
}

/// The decimal digits of a number, without leading zeros.
pub open spec fn decimal_text(n: nat) -> Seq<char>
    decreases n,
{
    if n < 10 {
        seq![hex_digit(n as int)]
    } else {
        decimal_text(n / 10).push(hex_digit(n as int % 10))
    }
}

pub fn to_decimal(n: u64) -> (s: String)
    ensures
        s@ == decimal_text(n as nat),
    decreases n,
{
    if n < 10 {
        digit_text(n as u8).to_string()
    } else {
        let mut s = to_decimal(n / 10);
        let ghost before = s@;
        s.append(digit_text((n % 10) as u8));
        assert(s@ =~= before.push(hex_digit(n as int % 10)));
        s
    }
}

/// Reading a number back from its decimal digits gives the number.
pub proof fn decimal_text_reads_back(n: nat, max: nat)
    requires
        n <= max,
    ensures
        unsigned_value(decimal_text(n), max) == Some(n),
{
    decimal_text_is_decimal(n);
    assert(is_digit(decimal_text(n)[0]));
}

proof fn decimal_text_is_decimal(n: nat)
    ensures
        is_decimal(decimal_text(n)),
        decimal_value(decimal_text(n)) == n,
    decreases n,
{
    if n < 10 {
        let s = decimal_text(n);
        assert(s.drop_last() =~= Seq::<char>::empty());
        assert(decimal_value(s.drop_last()) == 0);
    } else {
        decimal_text_is_decimal(n / 10);
        let s = decimal_text(n);
        assert(s.drop_last() =~= decimal_text(n / 10));
        assert(s.last() == hex_digit(n as int % 10));
        assert(digit_value(s.last()) == n % 10);
    }
}

// ---------------------------------------------------------------------------
// Laws
// ---------------------------------------------------------------------------

/// White space is what ends a line or a word: the space and the control characters from tab to
/// carriage return, and beyond ASCII the spaces and separators that Unicode names. No other
/// character is.
pub proof fn white_space_is_what_unicode_says(c: char)
    ensures
        is_space(' ') && is_space('\t') && is_space('\n') && is_space('\r'),
        c < '\t' ==> !is_space(c),
        '!' <= c <= '~' ==> !is_space(c),
        (c as u32) < 0x85 ==> (is_space(c) <==> c == ' ' || 9 <= c as u32 <= 13),
        (c as u32) >= 0x85 ==> (is_space(c) <==> seq![
            0x85u32,
            0xA0,
            0x1680,
            0x2000,
            0x2001,
            0x2002,
            0x2003,
            0x2004,
            0x2005,
            0x2006,
            0x2007,
            0x2008,
            0x2009,
            0x200A,
            0x2028,
            0x2029,
            0x202F,
            0x205F,
            0x3000,
        ].contains(c as u32)),
{
    let beyond = seq![
        0x85u32,
        0xA0,
        0x1680,
        0x2000,
        0x2001,
        0x2002,
        0x2003,
        0x2004,
        0x2005,
        0x2006,
        0x2007,
        0x2008,
        0x2009,
        0x200A,
        0x2028,
        0x2029,
        0x202F,
        0x205F,
        0x3000,
    ];
    assert(beyond[0] == 0x85 && beyond[1] == 0xA0 && beyond[2] == 0x1680);
    assert(beyond[3] == 0x2000 && beyond[4] == 0x2001 && beyond[5] == 0x2002);
    assert(beyond[6] == 0x2003 && beyond[7] == 0x2004 && beyond[8] == 0x2005);
    assert(beyond[9] == 0x2006 && beyond[10] == 0x2007 && beyond[11] == 0x2008);
    assert(beyond[12] == 0x2009 && beyond[13] == 0x200A && beyond[14] == 0x2028);
    assert(beyond[15] == 0x2029 && beyond[16] == 0x202F && beyond[17] == 0x205F);
    assert(beyond[18] == 0x3000);
}

/// The characters of a list of strings are those of its strings, in their order.
pub proof fn views_keep_their_order(texts: Seq<String>, slices: Seq<&str>, i: int)
    ensures
        string_views(texts).len() == texts.len(),
        0 <= i < texts.len() ==> string_views(texts)[i] == texts[i]@,
        views(slices).len() == slices.len(),
        0 <= i < slices.len() ==> views(slices)[i] == slices[i]@,
{
}

/// The span of a text ends at the first `c` and not before it.
pub proof fn span_ends_at_the_first(s: Seq<char>, c: char)
    ensures
        span(s, c) <= s.len(),
        !s.take(span(s, c) as int).contains(c),
        span(s, c) < s.len() ==> s[span(s, c) as int] == c,
        s.contains(c) ==> span(s, c) < s.len(),
    decreases s.len(),
{
    if s.len() > 0 && s[0] != c {
        let rest = s.drop_first();
        span_ends_at_the_first(rest, c);
        let n = span(s, c) as int;
        assert forall|i: int| 0 <= i < n implies s[i] != c by {
            if i > 0 {
                assert(rest.take(n - 1)[i - 1] == s[i]);
                assert(rest.take(n - 1).contains(rest.take(n - 1)[i - 1]));
            }
        }
        if s.contains(c) {
            let i = choose|i: int| 0 <= i < s.len() && s[i] == c;
            assert(rest[i - 1] == c);
        }
    }
}

/// Some texts with a separator between each two of them.
pub open spec fn separated(parts: Seq<Seq<char>>, c: char) -> Seq<char>
    decreases parts.len(),
{
    if parts.len() == 0 {
        Seq::empty()
    } else if parts.len() == 1 {
        parts[0]
    } else {
        parts[0].push(c) + separated(parts.drop_first(), c)
    }
}

/// Splitting loses nothing and leaves nothing to split: the fields with the separators between
/// them are the text again, and no field holds a separator.
pub proof fn fields_make_up_the_text(s: Seq<char>, c: char)
    ensures
        fields(s, c).len() > 0,
        separated(fields(s, c), c) == s,
        forall|i: int| 0 <= i < fields(s, c).len() ==> !(#[trigger] fields(s, c)[i]).contains(c),
    decreases s.len(),
{
    span_ends_at_the_first(s, c);
    let n = span(s, c) as int;
    if n < s.len() {
        let rest = s.skip(n + 1);
        fields_make_up_the_text(rest, c);
        assert(fields(s, c).drop_first() =~= fields(rest, c));
        assert(s.take(n).push(c) + rest =~= s);
        assert forall|i: int| 0 <= i < fields(s, c).len() implies !(#[trigger] fields(
            s,
            c,
        )[i]).contains(c) by {
            if i > 0 {
                assert(fields(s, c)[i] == fields(rest, c)[i - 1]);
            }
        }
    } else {
        assert(s.take(n) =~= s);
    }
}

/// A field ends where the first separator stands, and what follows is split on its own.
pub proof fn fields_end_at_separators(head: Seq<char>, c: char, tail: Seq<char>)
    requires
        !head.contains(c),
    ensures
        fields(head, c) == seq![head],
        fields(head.push(c) + tail, c) == seq![head] + fields(tail, c),
{
    span_without(head, c, tail);
    let whole = head.push(c) + tail;
    assert(whole.take(head.len() as int) =~= head);
    assert(whole.skip(head.len() as int + 1) =~= tail);
}

/// Words are split at white space alone: a text without any is one word, and white space
/// between two texts keeps their words apart.
pub proof fn words_end_at_white_space(a: Seq<char>, c: char, b: Seq<char>)
    requires
        is_space(c),
    ensures
        words(Seq::<char>::empty()) == Seq::<Seq<char>>::empty(),
        words(a.push(c) + b) == words(a) + words(b),
        a.len() > 0 && (forall|i: int| 0 <= i < a.len() ==> !is_space(#[trigger] a[i])) ==> words(a)
            == seq![a],
{
    words_of_joined(a, c, b);
    if a.len() > 0 && (forall|i: int| 0 <= i < a.len() ==> !is_space(#[trigger] a[i])) {
        word_span_of_word(a, Seq::empty());
        assert(a + Seq::<char>::empty() =~= a);
        assert(a.take(a.len() as int) =~= a);
        assert(a.skip(a.len() as int) =~= Seq::empty());
        assert(words(Seq::<char>::empty()) =~= Seq::empty());
        assert(words(a) =~= seq![a]);
    }
}

proof fn word_span_of_word(word: Seq<char>, tail: Seq<char>)
    requires
        forall|i: int| 0 <= i < word.len() ==> !is_space(#[trigger] word[i]),
        tail.len() > 0 ==> is_space(tail[0]),
    ensures
        word_span(word + tail) == word.len(),
    decreases word.len(),
{
    if word.len() > 0 {
        let rest = word.drop_first();
        assert forall|i: int| 0 <= i < rest.len() implies !is_space(#[trigger] rest[i]) by {
            assert(rest[i] == word[i + 1]);
        }
        word_span_of_word(rest, tail);
        assert(!is_space(word[0]));
        assert((word + tail).drop_first() =~= rest + tail);
    } else {
        assert(word + tail =~= tail);
    }
}

proof fn word_span_of_joined(a: Seq<char>, c: char, b: Seq<char>)
    requires
        is_space(c),
    ensures
        word_span(a.push(c) + b) == word_span(a),
    decreases a.len(),
{
    if a.len() > 0 && !is_space(a[0]) {
        word_span_of_joined(a.drop_first(), c, b);
        assert((a.push(c) + b).drop_first() =~= a.drop_first().push(c) + b);
    }
}

proof fn words_of_joined(a: Seq<char>, c: char, b: Seq<char>)
    requires
        is_space(c),
    ensures
        words(a.push(c) + b) == words(a) + words(b),
    decreases a.len(),
{
    let whole = a.push(c) + b;
    word_span_of_joined(a, c, b);
    word_span_bound(a);
    let n = word_span(a) as int;
    if a.len() == 0 {
        assert(whole.drop_first() =~= b);
        assert(words(a) + words(b) =~= words(b));
    } else if n == 0 {
        assert(whole.drop_first() =~= a.drop_first().push(c) + b);
        words_of_joined(a.drop_first(), c, b);
    } else {
        assert(whole.take(n) =~= a.take(n));
        assert(whole.skip(n) =~= a.skip(n).push(c) + b);
        words_of_joined(a.skip(n), c, b);
        assert(words(whole) =~= words(a) + words(b));
    }
}

/// White space before a text does not count for its words.
pub proof fn leading_white_space_adds_no_word(pad: Seq<char>, s: Seq<char>)
    requires
        forall|i: int| 0 <= i < pad.len() ==> is_space(#[trigger] pad[i]),
    ensures
        words(pad + s) == words(s),
    decreases pad.len(),
{
    if pad.len() > 0 {
        let rest = pad.drop_first();
        assert forall|i: int| 0 <= i < rest.len() implies is_space(#[trigger] rest[i]) by {
            assert(rest[i] == pad[i + 1]);
        }
        leading_white_space_adds_no_word(rest, s);
        assert(is_space(pad[0]));
        assert((pad + s).drop_first() =~= rest + s);
    } else {
        assert(pad + s =~= s);
    }
}

/// A line ends at a line feed, and a carriage return before that belongs to the end; what
/// follows is split on its own. The last line may lack its end, and then keeps all it has.
pub proof fn lines_end_at_line_feeds(line: Seq<char>, tail: Seq<char>)
    requires
        !line.contains('\n'),
    ensures
        lines(Seq::<char>::empty()) == Seq::<Seq<char>>::empty(),
        line.len() > 0 ==> lines(line) == seq![line],
        line.len() == 0 || line.last() != '\r' ==> lines(line.push('\n') + tail) == seq![line]
            + lines(tail),
        lines(line.push('\r').push('\n') + tail) == seq![line] + lines(tail),
{
    span_without(line, '\n', tail);
    let whole = line.push('\n') + tail;
    assert(whole.take(line.len() as int) =~= line);
    assert(whole.skip(line.len() as int + 1) =~= tail);
    let long = line.push('\r');
    assert forall|i: int| 0 <= i < long.len() implies long[i] != '\n' by {
        if i < line.len() {
            assert(line.contains(line[i]));
        }
    }
    span_without(long, '\n', tail);
    let ended = long.push('\n') + tail;
    assert(ended.take(long.len() as int) =~= long);
    assert(ended.skip(long.len() as int + 1) =~= tail);
    assert(long.drop_last() =~= line);
}

/// Trimming takes the white space at both ends and nothing else.
pub proof fn trimming_takes_the_ends(pad: Seq<char>, core: Seq<char>, tail: Seq<char>)
    requires
        forall|i: int| 0 <= i < pad.len() ==> is_space(#[trigger] pad[i]),
        forall|i: int| 0 <= i < tail.len() ==> is_space(#[trigger] tail[i]),
        core.len() > 0 ==> !is_space(core[0]) && !is_space(core.last()),
    ensures
        trim_end(trim_start(pad + core + tail)) == core,
{
    let whole = pad + core + tail;
    if core.len() > 0 {
        trim_start_takes(pad, core + tail);
        assert(whole =~= pad + (core + tail));
        trim_end_takes(core, tail);
    } else {
        assert forall|i: int| 0 <= i < whole.len() implies is_space(#[trigger] whole[i]) by {
            if i >= pad.len() {
                assert(whole[i] == tail[i - pad.len()]);
            } else {
                assert(whole[i] == pad[i]);
            }
        }
        trim_start_takes(whole, Seq::empty());
        assert(whole + Seq::<char>::empty() =~= whole);
        assert(core =~= Seq::empty());
    }
}

proof fn trim_start_takes(pad: Seq<char>, rest: Seq<char>)
    requires
        forall|i: int| 0 <= i < pad.len() ==> is_space(#[trigger] pad[i]),
        rest.len() > 0 ==> !is_space(rest[0]),
    ensures
        trim_start(pad + rest) == rest,
    decreases pad.len(),
{
    if pad.len() > 0 {
        let less = pad.drop_first();
        assert forall|i: int| 0 <= i < less.len() implies is_space(#[trigger] less[i]) by {
            assert(less[i] == pad[i + 1]);
        }
        trim_start_takes(less, rest);
        assert(is_space(pad[0]));
        assert((pad + rest).drop_first() =~= less + rest);
    } else {
        assert(pad + rest =~= rest);
    }
}

proof fn trim_end_takes(rest: Seq<char>, tail: Seq<char>)
    requires
        forall|i: int| 0 <= i < tail.len() ==> is_space(#[trigger] tail[i]),
        rest.len() > 0 ==> !is_space(rest.last()),
    ensures
        trim_end(rest + tail) == rest,
    decreases tail.len(),
{
    if tail.len() > 0 {
        let less = tail.drop_last();
        assert forall|i: int| 0 <= i < less.len() implies is_space(#[trigger] less[i]) by {
            assert(less[i] == tail[i]);
        }
        trim_end_takes(rest, less);
        assert(is_space(tail[tail.len() - 1]));
        assert((rest + tail).drop_last() =~= rest + less);
    } else {
        assert(rest + tail =~= rest);
    }
}

/// What is left once every `c` at the start is gone: only such characters were taken, and none
/// is left there.
pub proof fn stripping_takes_only_what_leads(s: Seq<char>, c: char)
    ensures
        ({
            let left = without_leading(s, c);
            &&& left.len() <= s.len()
            &&& left == s.skip(s.len() - left.len())
            &&& forall|i: int| 0 <= i < s.len() - left.len() ==> #[trigger] s[i] == c
            &&& left.len() > 0 ==> left[0] != c
        }),
    decreases s.len(),
{
    if s.len() > 0 && s[0] == c {
        let rest = s.drop_first();
        stripping_takes_only_what_leads(rest, c);
        let left = without_leading(s, c);
        assert(left =~= s.skip(s.len() - left.len()));
        assert forall|i: int| 0 <= i < s.len() - left.len() implies #[trigger] s[i] == c by {
            if i > 0 {
                assert(rest[i - 1] == s[i]);
            }
        }
    } else {
        assert(s.skip(0) =~= s);
    }
}

/// What stands before the last `c` is found, however many stand before that.
pub proof fn last_separator_is_found(head: Seq<char>, c: char, tail: Seq<char>)
    requires
        !tail.contains(c),
    ensures
        before_last(tail, c) is None,
        before_last(head.push(c) + tail, c) == Some(head),
    decreases tail.len(),
{
    let whole = head.push(c) + tail;
    if tail.len() == 0 {
        assert(whole =~= head.push(c));
        assert(whole.drop_last() =~= head);
    } else {
        let rest = tail.drop_last();
        assert(tail.contains(tail[tail.len() - 1]));
        assert forall|x: char| rest.contains(x) implies tail.contains(x) by {
            let i = choose|i: int| 0 <= i < rest.len() && rest[i] == x;
            assert(tail[i] == x);
        }
        last_separator_is_found(head, c, rest);
        assert(whole.drop_last() =~= head.push(c) + rest);
    }
}

/// A text contains another exactly if it is made of something, that text and something.
pub proof fn containing_means_being_part(s: Seq<char>, part: Seq<char>)
    ensures
        contains_text(s, part) <==> exists|a: Seq<char>, b: Seq<char>|
            s == #[trigger] (a + part + b),
{
    if contains_text(s, part) {
        let at = choose|at: int| #[trigger] occurs_at(s, part, at);
        let a = s.take(at);
        let b = s.skip(at + part.len());
        assert forall|i: int| 0 <= i < part.len() implies s[at + i] == part[i] by {
            assert(s.subrange(at, at + part.len())[i] == part[i]);
        }
        assert(s =~= a + part + b);
    }
    if exists|a: Seq<char>, b: Seq<char>| s == #[trigger] (a + part + b) {
        let (a, b) = choose|a: Seq<char>, b: Seq<char>| s == #[trigger] (a + part + b);
        let at = a.len() as int;
        assert(s.subrange(at, at + part.len()) =~= part);
        assert(occurs_at(s, part, at));
    }
}

/// Digits have their decimal value, and each place counts ten times the one behind it.
pub proof fn digits_count_by_their_place(a: Seq<char>, b: Seq<char>, c: char)
    ensures
        '0' <= c <= '9' ==> decimal_value(seq![c]) == c as int - 48,
        decimal_value(a + b) == decimal_value(a) * vstd::arithmetic::power::pow(10, b.len())
            + decimal_value(b),
    decreases b.len(),
{
    assert(seq![c].drop_last() =~= Seq::empty());
    assert(decimal_value(Seq::<char>::empty()) == 0);
    if b.len() == 0 {
        assert(a + b =~= a);
        vstd::arithmetic::power::lemma_pow0(10);
    } else {
        let rest = b.drop_last();
        digits_count_by_their_place(a, rest, c);
        assert((a + b).drop_last() =~= a + rest);
        assert((a + b).last() == b.last());
        vstd::arithmetic::power::lemma_pow1(10);
        vstd::arithmetic::power::lemma_pow_adds(10, rest.len(), 1);
        let p = vstd::arithmetic::power::pow(10, rest.len());
        let v = decimal_value(a) as int;
        assert((v * p) * 10 == v * (p * 10)) by (nonlinear_arith);
    }
}

/// A number is written with decimal digits alone, of which the first is no zero, unless it is
/// the only one.
pub proof fn numbers_are_written_without_leading_zeros(n: nat)
    ensures
        is_decimal(decimal_text(n)),
        decimal_value(decimal_text(n)) == n,
        decimal_text(n).len() > 1 ==> decimal_text(n)[0] != '0',
        decimal_text(0) == seq!['0'],
    decreases n,
{
    decimal_text_is_decimal(n);
    decimal_text_leads(n);
}

proof fn decimal_text_leads(n: nat)
    ensures
        decimal_text(n).len() > 0,
        n > 0 ==> decimal_text(n)[0] != '0',
        n < 10 ==> decimal_text(n).len() == 1,
    decreases n,
{
    if n >= 10 {
        decimal_text_leads(n / 10);
    }
}

/// Decimal digits are the ten from `0` to `9`; a text of others, or of none, is no number.
pub proof fn only_digits_make_a_number(s: Seq<char>)
    ensures
        is_decimal(s) <==> s.len() > 0 && forall|i: int|
            0 <= i < s.len() ==> 48 <= (#[trigger] s[i]) as int <= 57,
{
}

/// What is read of a text as a number without sign: the value of its digits, a plus sign before
/// them aside, unless it is too great; nothing of any other text.
pub proof fn unsigned_numbers_are_read(digits: Seq<char>, s: Seq<char>, max: nat)
    requires
        is_decimal(digits),
        !is_decimal(s),
        s.len() > 0 && s[0] == '+' ==> !is_decimal(s.drop_first()),
    ensures
        decimal_value(digits) <= max ==> {
            &&& unsigned_value(digits, max) == Some(decimal_value(digits))
            &&& unsigned_value(seq!['+'] + digits, max) == Some(decimal_value(digits))
        },
        decimal_value(digits) > max ==> {
            &&& unsigned_value(digits, max) is None
            &&& unsigned_value(seq!['+'] + digits, max) is None
        },
        unsigned_value(s, max) is None,
{
    assert(is_digit(digits[0]));
    assert((seq!['+'] + digits).drop_first() =~= digits);
}

/// What is read of a text as a number with a sign: a minus sign makes it negative, down to one
/// below the greatest number mirrored; without one it is read as without sign.
pub proof fn signed_numbers_are_read(digits: Seq<char>, s: Seq<char>, max: nat)
    requires
        is_decimal(digits),
        s.len() == 0 || s[0] != '-',
    ensures
        signed_value(seq!['-'] + digits, max) == if decimal_value(digits) <= max + 1 {
            Some(-(decimal_value(digits) as int))
        } else {
            None
        },
        signed_value(s, max) == match unsigned_value(s, max) {
            Some(n) => Some(n as int),
            None => None,
        },
        !is_decimal(s) ==> signed_value(seq!['-'] + s, max) is None,
{
    assert((seq!['-'] + digits).drop_first() =~= digits);
    assert((seq!['-'] + s).drop_first() =~= s);
}

/// The numbers among some texts come in the order of the texts, one for each text that is one.
pub proof fn numbers_keep_their_order(a: Seq<Seq<char>>, b: Seq<Seq<char>>, t: Seq<char>, max: nat)
    ensures
        numbers(a + b, max) == numbers(a, max) + numbers(b, max),
        unsigned_value(t, max) matches Some(n) ==> numbers(seq![t], max) == seq![n],
        unsigned_value(t, max) is None ==> numbers(seq![t], max) == Seq::<nat>::empty(),
    decreases b.len(),
{
    assert(seq![t].drop_last() =~= Seq::empty());
    assert(numbers(Seq::<Seq<char>>::empty(), max) =~= Seq::<nat>::empty());
    if unsigned_value(t, max) is Some {
        assert(numbers(seq![t], max) =~= seq![unsigned_value(t, max)->0]);
    }
    if b.len() == 0 {
        assert(a + b =~= a);
        assert(numbers(a, max) + numbers(b, max) =~= numbers(a, max));
    } else {
        let rest = b.drop_last();
        numbers_keep_their_order(a, rest, t, max);
        assert((a + b).drop_last() =~= a + rest);
        assert((a + b).last() == b.last());
        assert(numbers(a + b, max) =~= numbers(a, max) + numbers(b, max));
    }
}

/// The sixteen hexadecimal digits, in lower case.
pub proof fn hexadecimal_digits_are_lower_case()
    ensures
        hex_digit(0) == '0' && hex_digit(1) == '1' && hex_digit(2) == '2' && hex_digit(3) == '3',
        hex_digit(4) == '4' && hex_digit(5) == '5' && hex_digit(6) == '6' && hex_digit(7) == '7',
        hex_digit(8) == '8' && hex_digit(9) == '9' && hex_digit(10) == 'a' && hex_digit(11) == 'b',
        hex_digit(12) == 'c' && hex_digit(13) == 'd' && hex_digit(14) == 'e' && hex_digit(15)
            == 'f',
{
}

/// Bytes are written one behind the other, each by its upper and then its lower four bits.
pub proof fn bytes_are_written_in_order(bytes: Seq<u8>, i: int)
    requires
        0 <= i < bytes.len(),
    ensures
        hex_text(bytes).len() == 2 * bytes.len(),
        hex_text(bytes)[2 * i] == hex_digit(bytes[i] as int / 16),
        hex_text(bytes)[2 * i + 1] == hex_digit(bytes[i] as int % 16),
    decreases bytes.len(),
{
    let rest = bytes.drop_last();
    hex_text_len(bytes);
    hex_text_len(rest);
    if i < rest.len() {
        bytes_are_written_in_order(rest, i);
    }
}

/// Different bytes are written differently.
pub proof fn writing_bytes_loses_nothing(a: Seq<u8>, b: Seq<u8>)
    requires
        hex_text(a) == hex_text(b),
    ensures
        a == b,
{
    hex_text_len(a);
    hex_text_len(b);
    assert forall|i: int| 0 <= i < a.len() implies a[i] == b[i] by {
        bytes_are_written_in_order(a, i);
        bytes_are_written_in_order(b, i);
        assert(a[i] as int / 16 == b[i] as int / 16);
        assert(a[i] as int % 16 == b[i] as int % 16);
    }
    assert(a =~= b);
}

} // verus!
