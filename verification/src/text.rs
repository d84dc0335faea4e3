//! Text as sequences of characters: the string operations that the other
//! modules are specified with, each proved against its meaning on `Seq<char>`.

use vstd::prelude::*;
use vstd::string::*;

verus! {

/// `String::push` of std: appends one character to the end.
pub assume_specification[ String::push ](s: &mut String, c: char)
    ensures
        final(s)@ == old(s)@.push(c),
;

/// The characters of each string of a list.
pub open spec fn views(list: Seq<String>) -> Seq<Seq<char>> {
    Seq::new(list.len(), |i: int| list[i]@)
}

/// The characters of an optional string.
pub open spec fn opt_view(s: Option<String>) -> Option<Seq<char>> {
    match s {
        Some(t) => Some(t@),
        None => None,
    }
}

/// The characters of `s`, as a vector.
pub fn chars_of(s: &str) -> (out: Vec<char>)
    ensures
        out@ == s@,
{
    let mut out: Vec<char> = Vec::new();
    for c in it: s.chars()
        invariant
            out@ == s@.take(it.index()),
            it.seq() == s@,
    {
        out.push(c);
    }
    out
}

/// The string made of the characters `from..to` of `chars`.
pub fn string_of(chars: &Vec<char>, from: usize, to: usize) -> (out: String)
    requires
        from <= to <= chars@.len(),
    ensures
        out@ == chars@.subrange(from as int, to as int),
{
    let mut out: String = String::new();
    for i in from..to
        invariant
            from <= to <= chars@.len(),
            out@ == chars@.subrange(from as int, i as int),
    {
        out.push(chars[i]);
        assert(out@ == chars@.subrange(from as int, i + 1));
    }
    out
}

/// A copy of a borrowed string.
pub fn copy_str(s: &str) -> (out: String)
    ensures
        out@ == s@,
{
    s.to_string()
}

/// A copy of an optional string.
pub fn copy_opt(s: &Option<String>) -> (out: Option<String>)
    ensures
        opt_view(out) == opt_view(*s),
{
    match s {
        Some(t) => Some(t.clone()),
        None => None,
    }
}

/// A copy of a list of strings.
pub fn copy_list(list: &Vec<String>) -> (out: Vec<String>)
    ensures
        views(out@) == views(list@),
{
    let mut out: Vec<String> = Vec::new();
    for i in 0..list.len()
        invariant
            out@.len() == i,
            forall|j: int| 0 <= j < i ==> #[trigger] out@[j]@ == list@[j]@,
    {
        out.push(list[i].clone());
    }
    assert(views(out@) =~= views(list@));
    out
}

/// Whether two strings hold the same characters.
pub fn same(a: &str, b: &str) -> (r: bool)
    ensures
        r == (a@ == b@),
{
    let x = chars_of(a);
    let y = chars_of(b);
    if x.len() != y.len() {
        return false;
    }
    for i in 0..x.len()
        invariant
            x@ == a@,
            y@ == b@,
            x@.len() == y@.len(),
            forall|j: int| 0 <= j < i ==> x@[j] == y@[j],
    {
        if x[i] != y[i] {
            return false;
        }
    }
    assert(x@ =~= y@);
    true
}

/// `a` followed by `b`.
pub fn cat2(a: &str, b: &str) -> (out: String)
    ensures
        out@ == a@ + b@,
{
    let mut out: String = a.to_string();
    out.append(b);
    out
}

/// `a`, `b` and `c`, one behind the other.
pub fn cat3(a: &str, b: &str, c: &str) -> (out: String)
    ensures
        out@ == a@ + b@ + c@,
{
    let mut out: String = a.to_string();
    out.append(b);
    out.append(c);
    out
}

/// `a`, `b`, `c` and `d`, one behind the other.
pub fn cat4(a: &str, b: &str, c: &str, d: &str) -> (out: String)
    ensures
        out@ == a@ + b@ + c@ + d@,
{
    let mut out: String = cat3(a, b, c);
    out.append(d);
    out
}

/// `a`, `b`, `c`, `d` and `e`, one behind the other.
pub fn cat5(a: &str, b: &str, c: &str, d: &str, e: &str) -> (out: String)
    ensures
        out@ == a@ + b@ + c@ + d@ + e@,
{
    let mut out: String = cat4(a, b, c, d);
    out.append(e);
    out
}

// ── prefixes, searching, splitting ──────────────────────────────────────

/// Whether `s` begins with `prefix`.
pub fn starts_with(s: &str, prefix: &str) -> (r: bool)
    ensures
        r == prefix@.is_prefix_of(s@),
{
    let x = chars_of(s);
    let p = chars_of(prefix);
    if p.len() > x.len() {
        return false;
    }
    for i in 0..p.len()
        invariant
            x@ == s@,
            p@ == prefix@,
            p@.len() <= x@.len(),
            forall|j: int| 0 <= j < i ==> p@[j] == x@[j],
    {
        if p[i] != x[i] {
            assert(p@[i as int] != x@.subrange(0, p@.len() as int)[i as int]);
            return false;
        }
    }
    assert(p@ =~= x@.subrange(0, p@.len() as int));
    true
}

/// What follows `prefix` in `s`, where `s` begins with it.
pub fn strip_prefix(s: &str, prefix: &str) -> (r: Option<String>)
    ensures
        match r {
            Some(rest) => prefix@.is_prefix_of(s@) && rest@ == s@.skip(prefix@.len() as int),
            None => !prefix@.is_prefix_of(s@),
        },
{
    if starts_with(s, prefix) {
        let x = chars_of(s);
        let p = chars_of(prefix);
        let rest = string_of(&x, p.len(), x.len());
        assert(rest@ =~= s@.skip(prefix@.len() as int));
        Some(rest)
    } else {
        None
    }
}

/// The first position of `c` in `s`, or the length of `s` where it has none.
pub open spec fn position(s: Seq<char>, c: char) -> int
    decreases s.len(),
{
    if s.len() == 0 {
        0
    } else if s[0] == c {
        0
    } else {
        1 + position(s.drop_first(), c)
    }
}

/// `position` is the first occurrence.
pub proof fn lemma_position(s: Seq<char>, c: char)
    ensures
        0 <= position(s, c) <= s.len(),
        position(s, c) < s.len() ==> s[position(s, c)] == c,
        forall|i: int| 0 <= i < position(s, c) ==> s[i] != c,
    decreases s.len(),
{
    if s.len() > 0 && s[0] != c {
        lemma_position(s.drop_first(), c);
        assert forall|i: int| 0 <= i < position(s, c) implies s[i] != c by {
            if i > 0 {
                assert(s[i] == s.drop_first()[i - 1]);
            }
        }
    }
}

/// An occurrence with none before it is at `position`.
pub proof fn lemma_position_is(s: Seq<char>, c: char, k: int)
    requires
        0 <= k <= s.len(),
        k < s.len() ==> s[k] == c,
        forall|i: int| 0 <= i < k ==> s[i] != c,
    ensures
        position(s, c) == k,
{
    lemma_position(s, c);
}

/// The first position of `c` at or after `from`, or the length.
pub fn find_char(chars: &Vec<char>, from: usize, c: char) -> (r: usize)
    requires
        from <= chars@.len(),
    ensures
        r == from + position(chars@.subrange(from as int, chars@.len() as int), c),
        from <= r <= chars@.len(),
        r < chars@.len() ==> chars@[r as int] == c,
        forall|i: int| from <= i < r ==> chars@[i] != c,
{
    let mut i: usize = from;
    while i < chars.len() && chars[i] != c
        invariant
            from <= i <= chars@.len(),
            forall|j: int| from <= j < i ==> chars@[j] != c,
        decreases chars@.len() - i,
    {
        i += 1;
    }
    proof {
        let tail = chars@.subrange(from as int, chars@.len() as int);
        assert forall|j: int| 0 <= j < i - from implies tail[j] != c by {
            assert(tail[j] == chars@[j + from]);
        }
        lemma_position_is(tail, c, i - from);
    }
    i
}

/// Whether `needle` occurs in `s` as a run of characters.
pub open spec fn occurs(needle: Seq<char>, s: Seq<char>) -> bool {
    exists|i: int|
        0 <= i <= s.len() - needle.len() && #[trigger] s.subrange(i, i + needle.len()) == needle
}

/// Whether `needle` occurs in `s`.
pub fn contains(s: &str, needle: &str) -> (r: bool)
    ensures
        r == occurs(needle@, s@),
{
    let x = chars_of(s);
    let p = chars_of(needle);
    if p.len() > x.len() {
        return false;
    }
    let last: usize = x.len() - p.len();
    let mut i: usize = 0;
    while i <= last
        invariant
            x@ == s@,
            p@ == needle@,
            last == x@.len() - p@.len(),
            i <= last + 1,
            forall|k: int| 0 <= k < i ==> #[trigger] s@.subrange(k, k + p@.len()) != needle@,
        decreases last + 1 - i,
    {
        let mut j: usize = 0;
        while j < p.len() && x[i + j] == p[j]
            invariant
                x@ == s@,
                p@ == needle@,
                last == x@.len() - p@.len(),
                i <= last,
                i + p@.len() <= x.len(),
                j <= p@.len(),
                forall|k: int| 0 <= k < j ==> x@[i + k] == p@[k],
            decreases p@.len() - j,
        {
            j += 1;
        }
        if j == p.len() {
            assert(s@.subrange(i as int, i + p@.len()) =~= needle@);
            return true;
        }
        assert(s@.subrange(i as int, i + p@.len())[j as int] != needle@[j as int]);
        if i == last {
            return false;
        }
        i += 1;
    }
    false
}

/// The text before and after the first `sep`, where there is one.
pub open spec fn halves(s: Seq<char>, sep: char) -> Option<(Seq<char>, Seq<char>)> {
    let i = position(s, sep);
    if i < s.len() {
        Some((s.take(i), s.skip(i + 1)))
    } else {
        None
    }
}

/// The text before and after the first `sep`.
pub fn split_once(s: &str, sep: char) -> (r: Option<(String, String)>)
    ensures
        match r {
            Some((a, b)) => halves(s@, sep) == Some((a@, b@)),
            None => halves(s@, sep) is None,
        },
{
    let x = chars_of(s);
    let i: usize = find_char(&x, 0, sep);
    assert(x@.subrange(0, x@.len() as int) =~= s@);
    proof {
        lemma_position(s@, sep);
    }
    if i == x.len() {
        return None;
    }
    let a = string_of(&x, 0, i);
    let b = string_of(&x, i + 1, x.len());
    assert(a@ =~= s@.take(i as int));
    assert(b@ =~= s@.skip(i + 1));
    Some((a, b))
}

// ── white space ─────────────────────────────────────────────────────────

/// The Unicode property White_Space.
pub open spec fn is_white(c: char) -> bool {
    ||| '\u{9}' <= c <= '\u{d}'
    ||| c == ' '
    ||| c == '\u{85}'
    ||| c == '\u{a0}'
    ||| c == '\u{1680}'
    ||| '\u{2000}' <= c <= '\u{200a}'
    ||| c == '\u{2028}'
    ||| c == '\u{2029}'
    ||| c == '\u{202f}'
    ||| c == '\u{205f}'
    ||| c == '\u{3000}'
}

fn white(c: char) -> (r: bool)
    ensures
        r == is_white(c),
{
    ('\u{9}' <= c && c <= '\u{d}') || c == ' ' || c == '\u{85}' || c == '\u{a0}' || c == '\u{1680}'
        || ('\u{2000}' <= c && c <= '\u{200a}') || c == '\u{2028}' || c == '\u{2029}' || c
        == '\u{202f}' || c == '\u{205f}' || c == '\u{3000}'
}

/// `s` without its leading white space.
pub open spec fn trim_start(s: Seq<char>) -> Seq<char>
    decreases s.len(),
{
    if s.len() > 0 && is_white(s[0]) {
        trim_start(s.drop_first())
    } else {
        s
    }
}

/// `s` without its trailing white space.
pub open spec fn trim_end(s: Seq<char>) -> Seq<char>
    decreases s.len(),
{
    if s.len() > 0 && is_white(s.last()) {
        trim_end(s.drop_last())
    } else {
        s
    }
}

/// `s` without leading and trailing white space.
pub open spec fn trimmed(s: Seq<char>) -> Seq<char> {
    trim_end(trim_start(s))
}

/// `s` without leading and trailing white space.
pub fn trim(s: &str) -> (out: String)
    ensures
        out@ == trimmed(s@),
{
    let x = chars_of(s);
    let mut from: usize = 0;
    assert(x@.subrange(0, x@.len() as int) =~= x@);
    while from < x.len() && white(x[from])
        invariant
            from <= x@.len(),
            trim_start(x@) == trim_start(x@.subrange(from as int, x@.len() as int)),
        decreases x@.len() - from,
    {
        assert(x@.subrange(from as int, x@.len() as int).drop_first() =~= x@.subrange(
            from + 1,
            x@.len() as int,
        ));
        from += 1;
    }
    let mut to: usize = x.len();
    while to > from && white(x[to - 1])
        invariant
            from <= to <= x@.len(),
            trimmed(x@) == trim_end(x@.subrange(from as int, to as int)),
        decreases to,
    {
        assert(x@.subrange(from as int, to as int).drop_last() =~= x@.subrange(
            from as int,
            to - 1,
        ));
        to -= 1;
    }
    string_of(&x, from, to)
}

// ── lines and joining ───────────────────────────────────────────────────

/// A line without the carriage return that ends it.
pub open spec fn without_cr(s: Seq<char>) -> Seq<char> {
    if s.len() > 0 && s.last() == '\r' {
        s.drop_last()
    } else {
        s
    }
}

/// The lines of a text: each ends in a line feed, or in a carriage return and
/// a line feed; a text that does not end in one has a last line without it.
pub open spec fn lines_of(s: Seq<char>) -> Seq<Seq<char>>
    decreases s.len(),
    via lines_of_terminates
{
    let i = position(s, '\n');
    if s.len() == 0 {
        Seq::empty()
    } else if i >= s.len() {
        seq![s]
    } else {
        seq![without_cr(s.take(i))] + lines_of(s.skip(i + 1))
    }
}

#[via_fn]
proof fn lines_of_terminates(s: Seq<char>) {
    lemma_position(s, '\n');
}

/// The lines of `s`.
pub fn lines(s: &str) -> (out: Vec<String>)
    ensures
        views(out@) == lines_of(s@),
{
    let x = chars_of(s);
    let mut out: Vec<String> = Vec::new();
    let mut at: usize = 0;
    assert(x@.skip(0) =~= x@);
    assert(views(out@) + lines_of(x@) =~= lines_of(x@));
    while at < x.len()
        invariant
            at <= x@.len(),
            x@ == s@,
            views(out@) + lines_of(x@.skip(at as int)) == lines_of(s@),
        decreases x@.len() - at,
    {
        let ghost rest = x@.skip(at as int);
        let ghost before = out@;
        let end: usize = find_char(&x, at, '\n');
        assert(x@.subrange(at as int, x@.len() as int) =~= rest);
        if end == x.len() {
            let line = string_of(&x, at, end);
            assert(line@ =~= rest);
            out.push(line);
            assert(views(out@) =~= views(before) + seq![rest]);
            return out;
        }
        let stop: usize = if end > at && x[end - 1] == '\r' {
            end - 1
        } else {
            end
        };
        let line = string_of(&x, at, stop);
        assert(line@ =~= without_cr(rest.take(end - at)));
        out.push(line);
        assert(views(out@) =~= views(before).push(line@));
        assert(x@.skip(end + 1) =~= rest.skip(end - at + 1));
        assert(views(before) + (seq![line@] + lines_of(x@.skip(end + 1))) =~= views(out@)
            + lines_of(x@.skip(end + 1)));
        at = end + 1;
    }
    assert(x@.skip(at as int) =~= Seq::<char>::empty());
    assert(views(out@) + Seq::<Seq<char>>::empty() =~= views(out@));
    out
}

/// The parts one behind the other, with `sep` between them.
pub open spec fn joined(parts: Seq<Seq<char>>, sep: Seq<char>) -> Seq<char>
    decreases parts.len(),
{
    if parts.len() == 0 {
        Seq::empty()
    } else if parts.len() == 1 {
        parts[0]
    } else {
        joined(parts.drop_last(), sep) + sep + parts.last()
    }
}

/// The strings of `list` with `sep` between them.
pub fn join(list: &Vec<String>, sep: &str) -> (out: String)
    ensures
        out@ == joined(views(list@), sep@),
{
    let mut out: String = String::new();
    assert(views(list@).take(0) =~= Seq::<Seq<char>>::empty());
    for i in 0..list.len()
        invariant
            out@ == joined(views(list@).take(i as int), sep@),
    {
        let ghost all = views(list@);
        if i > 0 {
            out.append(sep);
        }
        out.append(list[i].as_str());
        assert(all.take(i + 1).drop_last() =~= all.take(i as int));
        assert(all.take(i + 1).last() == list@[i as int]@);
        if i == 0 {
            assert(out@ =~= all.take(1)[0]);
        }
    }
    assert(views(list@).take(list@.len() as int) =~= views(list@));
    out
}

/// A text of more than `max` characters cut there and marked with dots.
pub open spec fn shortened(s: Seq<char>, max: nat) -> Seq<char> {
    if s.len() > max {
        s.take(max as int) + "..."@
    } else {
        s
    }
}

/// `s`, cut to `max` characters and dots where it is longer.
pub fn shorten(s: &str, max: usize) -> (out: String)
    ensures
        out@ == shortened(s@, max as nat),
{
    let x = chars_of(s);
    if x.len() > max {
        let head = string_of(&x, 0, max);
        assert(head@ =~= s@.take(max as int));
        cat2(head.as_str(), "...")
    } else {
        s.to_string()
    }
}

// ── numbers ─────────────────────────────────────────────────────────────

/// The decimal digit `d`.
pub open spec fn digit(d: int) -> char {
    (48 + d) as char
}

/// The decimal notation of a natural number.
pub open spec fn decimal(n: nat) -> Seq<char>
    decreases n,
{
    if n < 10 {
        seq![digit(n as int)]
    } else {
        decimal(n / 10).push(digit((n % 10) as int))
    }
}

/// The decimal notation of an integer, with a minus sign where it is negative.
pub open spec fn decimal_int(n: int) -> Seq<char> {
    if n < 0 {
        seq!['-'] + decimal((-n) as nat)
    } else {
        decimal(n as nat)
    }
}

/// `n` in decimal.
pub fn show_u64(n: u64) -> (out: String)
    ensures
        out@ == decimal(n as nat),
    decreases n,
{
    let d: u8 = (n % 10) as u8;
    let c: char = (48u8 + d) as char;
    let mut out: String = if n < 10 {
        String::new()
    } else {
        show_u64(n / 10)
    };
    out.push(c);
    assert(n < 10 ==> out@ =~= seq![digit(n as int)]);
    out
}

/// `n` in decimal.
pub fn show_usize(n: usize) -> (out: String)
    ensures
        out@ == decimal(n as nat),
{
    show_u64(n as u64)
}

/// `n` in decimal, with its sign where it is negative.
pub fn show_i64(n: i64) -> (out: String)
    ensures
        out@ == decimal_int(n as int),
{
    if n < 0 {
        let m: u64 = if n == i64::MIN {
            0x8000_0000_0000_0000
        } else {
            (-n) as u64
        };
        let digits = show_u64(m);
        let mut out: String = String::new();
        out.push('-');
        out.append(digits.as_str());
        assert(out@ =~= seq!['-'] + decimal(m as nat));
        out
    } else {
        show_u64(n as u64)
    }
}

/// Whether every character is a decimal digit.
pub open spec fn all_digits(s: Seq<char>) -> bool {
    forall|i: int| 0 <= i < s.len() ==> '0' <= #[trigger] s[i] <= '9'
}

/// The number that a run of decimal digits stands for.
pub open spec fn digits_value(s: Seq<char>) -> nat
    decreases s.len(),
{
    if s.len() == 0 {
        0
    } else {
        digits_value(s.drop_last()) * 10 + (s.last() as nat - 48) as nat
    }
}

/// The digits of a number in text form, behind the plus sign it may have.
pub open spec fn unsigned_digits(s: Seq<char>) -> Seq<char> {
    if s.len() > 0 && s[0] == '+' {
        s.drop_first()
    } else {
        s
    }
}

/// The number that a text denotes: digits alone, behind a plus sign or not,
/// with a value that fits 64 bits.
pub open spec fn parsed_u64(s: Seq<char>) -> Option<u64> {
    let d = unsigned_digits(s);
    if d.len() > 0 && all_digits(d) && digits_value(d) <= u64::MAX {
        Some(digits_value(d) as u64)
    } else {
        None
    }
}

proof fn lemma_digits_value_grows(s: Seq<char>, k: int)
    requires
        all_digits(s),
        0 <= k <= s.len(),
    ensures
        digits_value(s.take(k)) <= digits_value(s),
    decreases s.len() - k,
{
    if k < s.len() {
        lemma_digits_value_grows(s, k + 1);
        assert(s.take(k + 1).drop_last() =~= s.take(k));
    } else {
        assert(s.take(k) =~= s);
    }
}

/// The number that `s` denotes, if it denotes one.
pub fn parse_u64(s: &str) -> (r: Option<u64>)
    ensures
        r == parsed_u64(s@),
{
    let x = chars_of(s);
    let from: usize = if x.len() > 0 && x[0] == '+' {
        1
    } else {
        0
    };
    let ghost d = unsigned_digits(s@);
    assert(d =~= x@.skip(from as int));
    if from == x.len() {
        return None;
    }
    let mut value: u64 = 0;
    let mut i: usize = from;
    assert(d.take(0) =~= Seq::<char>::empty());
    while i < x.len()
        invariant
            from <= i <= x@.len(),
            d == x@.skip(from as int),
            d.len() > 0,
            d == unsigned_digits(s@),
            value == digits_value(d.take(i - from)),
            all_digits(d.take(i - from)),
        decreases x@.len() - i,
    {
        let c: char = x[i];
        assert(d[i - from] == c);
        assert(d.take(i - from + 1).drop_last() =~= d.take(i - from));
        if c < '0' || c > '9' {
            assert(!all_digits(d));
            return None;
        }
        let v: u64 = (c as u32 - 48) as u64;
        assert(digits_value(d.take(i - from + 1)) == value * 10 + v);
        if value > (u64::MAX - v) / 10 {
            proof {
                if all_digits(d) {
                    lemma_digits_value_grows(d, i - from + 1);
                }
            }
            return None;
        }
        value = value * 10 + v;
        assert forall|j: int| 0 <= j < d.take(i - from + 1).len() implies '0'
            <= #[trigger] d.take(i - from + 1)[j] <= '9' by {
            if j < i - from {
                assert(d.take(i - from)[j] == d[j]);
            }
        }
        i += 1;
    }
    assert(d.take(d.len() as int) =~= d);
    Some(value)
}

// ── laws ────────────────────────────────────────────────────────────────

/// Joining puts a separator between any two parts and nowhere else: the text of
/// two lists together is that of the first, a separator, and that of the second.
pub proof fn law_joining_two_lists(a: Seq<Seq<char>>, b: Seq<Seq<char>>, sep: Seq<char>)
    ensures
        joined(Seq::empty(), sep) == Seq::<char>::empty(),
        a.len() == 1 ==> joined(a, sep) == a[0],
        a.len() > 0 && b.len() > 0 ==> joined(a + b, sep) == joined(a, sep) + sep + joined(b, sep),
    decreases b.len(),
{
    if a.len() > 0 && b.len() > 0 {
        assert((a + b).drop_last() =~= a + b.drop_last());
        if b.len() == 1 {
            assert(a + b.drop_last() =~= a);
        } else {
            law_joining_two_lists(a, b.drop_last(), sep);
            assert(joined(a + b, sep) =~= joined(a, sep) + sep + joined(b, sep));
        }
    }
}

/// What is joined is the parts with the separator between them.
pub proof fn law_two_parts_are_joined(list: &Vec<String>, sep: &str, out: String)
    requires
        call_ensures(join, (list, sep), out),
    ensures
        list@.len() == 0 ==> out@.len() == 0,
        list@.len() == 1 ==> out@ == list@[0]@,
        list@.len() == 2 ==> out@ == list@[0]@ + sep@ + list@[1]@,
{
    let all = views(list@);
    if list@.len() == 2 {
        assert(all.drop_last().len() == 1);
        assert(joined(all.drop_last(), sep@) == all[0]);
    }
}

proof fn lemma_decimal_digits(n: nat)
    ensures
        decimal(n).len() > 0,
        all_digits(decimal(n)),
        digits_value(decimal(n)) == n,
        n > 0 ==> decimal(n)[0] != '0',
    decreases n,
{
    let s = decimal(n);
    if n < 10 {
        let d = digit(n as int);
        assert(s.drop_last() =~= Seq::empty());
        assert(digits_value(s.drop_last()) == 0);
        assert(s.last() as nat == 48 + n);
    } else {
        lemma_decimal_digits(n / 10);
        assert(s.drop_last() =~= decimal(n / 10));
        assert(s.last() as nat == 48 + n % 10);
        assert forall|i: int| 0 <= i < s.len() implies '0' <= #[trigger] s[i] <= '9' by {
            if i < s.len() - 1 {
                assert(s[i] == decimal(n / 10)[i]);
            }
        }
        assert(s[0] == decimal(n / 10)[0]);
        assert(n == (n / 10) * 10 + n % 10);
    }
}

/// A number is read back from its text, which is digits alone and begins with a
/// zero only where it is zero.
pub proof fn law_number_survives_its_text(n: u64, shown: String, s: &str, r: Option<u64>)
    requires
        call_ensures(show_u64, (n,), shown),
        s@ == shown@,
        call_ensures(parse_u64, (s,), r),
    ensures
        r == Some(n),
        all_digits(shown@),
        n > 0 ==> shown@[0] != '0',
{
    lemma_decimal_digits(n as nat);
    assert('0' <= shown@[0] <= '9');
    assert(unsigned_digits(shown@) =~= shown@);
}

/// A negative number is shown with a minus sign before the digits of what is
/// below zero.
pub proof fn law_sign_is_shown(n: i64, shown: String)
    requires
        call_ensures(show_i64, (n,), shown),
    ensures
        n < 0 ==> shown@.len() > 1 && shown@[0] == '-' && all_digits(shown@.drop_first())
            && digits_value(shown@.drop_first()) == -n,
        n >= 0 ==> all_digits(shown@) && digits_value(shown@) == n,
{
    if n < 0 {
        lemma_decimal_digits((-n) as nat);
        assert(shown@.drop_first() =~= decimal((-n) as nat));
    } else {
        lemma_decimal_digits(n as nat);
    }
}

/// Whether all of a text is white space.
pub open spec fn all_white(s: Seq<char>) -> bool {
    forall|i: int| 0 <= i < s.len() ==> is_white(#[trigger] s[i])
}

proof fn lemma_trim_start(s: Seq<char>) -> (k: int)
    ensures
        0 <= k <= s.len(),
        trim_start(s) == s.skip(k),
        all_white(s.take(k)),
        trim_start(s).len() > 0 ==> !is_white(trim_start(s)[0]),
    decreases s.len(),
{
    if s.len() > 0 && is_white(s[0]) {
        let k = lemma_trim_start(s.drop_first());
        assert(s.drop_first().skip(k) =~= s.skip(k + 1));
        assert forall|i: int| 0 <= i < s.take(k + 1).len() implies is_white(
            #[trigger] s.take(k + 1)[i],
        ) by {
            if i > 0 {
                assert(s.take(k + 1)[i] == s.drop_first().take(k)[i - 1]);
            }
        }
        k + 1
    } else {
        assert(s.skip(0) =~= s);
        0
    }
}

proof fn lemma_trim_end(s: Seq<char>) -> (k: int)
    ensures
        0 <= k <= s.len(),
        trim_end(s) == s.take(k),
        all_white(s.skip(k)),
        trim_end(s).len() > 0 ==> !is_white(trim_end(s).last()),
    decreases s.len(),
{
    if s.len() > 0 && is_white(s.last()) {
        let k = lemma_trim_end(s.drop_last());
        assert(s.drop_last().take(k) =~= s.take(k));
        assert forall|i: int| 0 <= i < s.skip(k).len() implies is_white(#[trigger] s.skip(k)[i]) by {
            if i < s.skip(k).len() - 1 {
                assert(s.skip(k)[i] == s.drop_last().skip(k)[i]);
            }
        }
        k
    } else {
        assert(s.take(s.len() as int) =~= s);
        s.len() as int
    }
}

/// What trimming takes away is white space at the two ends, all of it, and
/// nothing else.
pub proof fn law_trimming_takes_white_space(s: &str, out: String)
    requires
        call_ensures(trim, (s,), out),
    ensures
        exists|i: int, j: int|
            0 <= i <= j <= s@.len() && out@ == #[trigger] s@.subrange(i, j) && all_white(s@.take(i))
                && all_white(s@.skip(j)),
        out@.len() > 0 ==> !is_white(out@[0]) && !is_white(out@.last()),
{
    let i = lemma_trim_start(s@);
    let t = trim_start(s@);
    let k = lemma_trim_end(t);
    let j = i + k;
    assert(out@ =~= s@.subrange(i, j));
    assert(s@.skip(j) =~= t.skip(k));
    if out@.len() > 0 {
        assert(out@[0] == t[0]);
    }
}

/// The two halves of a text with the separator between them are the text, and
/// the first half has no separator; a text without one has no halves.
pub proof fn law_halves_make_the_whole(s: &str, sep: char, r: Option<(String, String)>)
    requires
        call_ensures(split_once, (s, sep), r),
    ensures
        r matches Some(p) ==> p.0@ + seq![sep] + p.1@ == s@ && !p.0@.contains(sep),
        r is None <==> !s@.contains(sep),
{
    let i = position(s@, sep);
    lemma_position(s@, sep);
    if let Some(p) = r {
        assert(p.0@ + seq![sep] + p.1@ =~= s@);
        assert(s@[i] == sep);
    }
}

/// Lines are what stands between line endings: a line with a line feed, or a
/// carriage return and a line feed, behind it is the first line of a text, and
/// the lines of the rest follow.
pub proof fn law_first_line_of_a_text(line: Seq<char>, rest: Seq<char>)
    requires
        !line.contains('\n'),
        line.len() > 0 ==> line.last() != '\r',
    ensures
        lines_of(line + "\n"@ + rest) == seq![line] + lines_of(rest),
        lines_of(line + "\r\n"@ + rest) == seq![line] + lines_of(rest),
        line.len() > 0 ==> lines_of(line) == seq![line],
        lines_of(Seq::empty()) == Seq::<Seq<char>>::empty(),
{
    reveal_strlit("\n");
    reveal_strlit("\r\n");
    let n = line.len() as int;
    let a = line + "\n"@ + rest;
    assert forall|i: int| 0 <= i < n implies line[i] != '\n' by {
        assert(line.contains(line[i]));
    }
    assert forall|i: int| 0 <= i < n implies a[i] != '\n' by {
        assert(a[i] == line[i]);
    }
    assert(a[n] == '\n');
    lemma_position_is(a, '\n', n);
    assert(a.take(n) =~= line);
    assert(a.skip(n + 1) =~= rest);
    let b = line + "\r\n"@ + rest;
    assert forall|i: int| 0 <= i < n + 1 implies b[i] != '\n' by {
        if i < n {
            assert(b[i] == line[i]);
        }
    }
    assert(b[n + 1] == '\n');
    lemma_position_is(b, '\n', n + 1);
    assert(b.take(n + 1) =~= line.push('\r'));
    assert(line.push('\r').drop_last() =~= line);
    assert(b.skip(n + 2) =~= rest);
    lemma_position_is(line, '\n', n);
    assert(lines_of(Seq::empty()) =~= Seq::empty());
}

/// A text that is no longer than asked for is shown as it is; a longer one is
/// cut there, and three dots say so.
pub proof fn law_long_texts_are_cut(s: &str, max: usize, out: String)
    requires
        call_ensures(shorten, (s, max), out),
    ensures
        s@.len() <= max ==> out@ == s@,
        s@.len() > max ==> out@.len() == max + 3 && out@.take(max as int) == s@.take(max as int)
            && out@.skip(max as int) == seq!['.', '.', '.'],
{
    reveal_strlit("...");
    if s@.len() > max {
        assert(out@.take(max as int) =~= s@.take(max as int));
        assert(out@.skip(max as int) =~= seq!['.', '.', '.']);
    }
}

/// Whether a text stands in another from a place on, character by character.
pub open spec fn stands_at(needle: Seq<char>, s: Seq<char>, i: int) -> bool {
    0 <= i <= s.len() - needle.len() && forall|k: int|
        0 <= k < needle.len() ==> s[i + k] == #[trigger] needle[k]
}

/// A text is found wherever it stands in another, and what is found does stand
/// there.
pub proof fn law_text_is_found_where_it_stands(
    s: &str,
    needle: &str,
    before: Seq<char>,
    after: Seq<char>,
    r: bool,
)
    requires
        call_ensures(contains, (s, needle), r),
    ensures
        s@ == before + needle@ + after ==> r,
        r ==> exists|i: int| stands_at(needle@, s@, i),
{
    if s@ == before + needle@ + after {
        let i = before.len() as int;
        assert(s@.subrange(i, i + needle@.len()) =~= needle@);
    }
    if r {
        let i = choose|i: int|
            0 <= i <= s@.len() - needle@.len() && #[trigger] s@.subrange(i, i + needle@.len())
                == needle@;
        assert forall|k: int| 0 <= k < needle@.len() implies s@[i + k] == #[trigger] needle@[k] by {
            assert(s@.subrange(i, i + needle@.len())[k] == needle@[k]);
        }
        assert(stands_at(needle@, s@, i));
    }
}

/// What is behind a prefix is what was put behind it.
pub proof fn law_prefix_comes_off(s: &str, prefix: &str, rest: Seq<char>, r: Option<String>)
    requires
        call_ensures(strip_prefix, (s, prefix), r),
    ensures
        s@ == prefix@ + rest ==> (r matches Some(t) && t@ == rest),
        r matches Some(t) ==> prefix@ + t@ == s@,
{
    if s@ == prefix@ + rest {
        assert(s@.subrange(0, prefix@.len() as int) =~= prefix@);
        assert(s@.skip(prefix@.len() as int) =~= rest);
    }
    if let Some(t) = r {
        assert(prefix@ + t@ =~= s@);
    }
}

/// Numbers are shown in base ten: a digit stands for itself, and one more digit
/// at the end is ten times the number and the digit.
pub proof fn law_numbers_are_decimal(n: u64, d: u64, all: u64, head: String, whole: String)
    requires
        d < 10,
        all == n * 10 + d,
        call_ensures(show_u64, (n,), head),
        call_ensures(show_u64, (all,), whole),
    ensures
        n == 0 ==> whole@ == seq![(48 + d) as char],
        n > 0 ==> whole@ == head@.push((48 + d) as char),
{
    if n > 0 {
        assert(all as nat / 10 == n as nat);
        assert(all as nat % 10 == d as nat);
    }
}

/// Only digits, with a plus sign before them or not, are read as a number.
pub proof fn law_only_digits_are_numbers(s: &str, r: Option<u64>, i: int)
    requires
        call_ensures(parse_u64, (s,), r),
        0 <= i < s@.len(),
        s@[i] < '0' || s@[i] > '9',
        i > 0 || s@[0] != '+',
    ensures
        r is None,
{
    let d = unsigned_digits(s@);
    if s@[0] == '+' {
        assert(d[i - 1] == s@[i]);
    } else {
        assert(d[i] == s@[i]);
    }
}

/// A number is what its digits say: with one more digit it is ten times as much
/// and the digit, as long as that fits.
pub proof fn law_digits_are_decimal(s: &str, t: &str, d: u64, r: Option<u64>, u: Option<u64>)
    requires
        d < 10,
        t@ == s@.push((48 + d) as char),
        call_ensures(parse_u64, (s,), r),
        call_ensures(parse_u64, (t,), u),
    ensures
        r matches Some(n) ==> (n * 10 + d <= u64::MAX ==> u == Some((n * 10 + d) as u64)),
        s@.len() == 0 ==> u == Some(d),
{
    let c = (48 + d) as char;
    let x = unsigned_digits(s@);
    let y = unsigned_digits(t@);
    assert('0' <= c <= '9');
    assert(c as nat == 48 + d);
    assert(t@.drop_last() =~= s@);
    if s@.len() == 0 {
        assert(y =~= seq![c]);
        assert(y.drop_last() =~= Seq::empty());
        assert(digits_value(y.drop_last()) == 0);
    } else {
        assert(t@[0] == s@[0]);
        assert(y =~= x.push(c));
        assert(y.drop_last() =~= x);
        if all_digits(x) {
            assert forall|i: int| 0 <= i < y.len() implies '0' <= #[trigger] y[i] <= '9' by {
                if i < x.len() {
                    assert(y[i] == x[i]);
                }
            }
        }
    }
}

/// Nothing is left of a text when it is trimmed just where it is all white space.
pub proof fn lemma_blank(s: Seq<char>)
    ensures
        trimmed(s).len() == 0 <==> all_white(s),
{
    let i = lemma_trim_start(s);
    let t = trim_start(s);
    let k = lemma_trim_end(t);
    if trimmed(s).len() == 0 {
        assert(k == 0);
        assert forall|j: int| 0 <= j < s.len() implies is_white(#[trigger] s[j]) by {
            if j < i {
                assert(s.take(i)[j] == s[j]);
            } else {
                assert(t.skip(0)[j - i] == s[j]);
            }
        }
    }
    if all_white(s) && trimmed(s).len() > 0 {
        assert(trimmed(s).last() == s[i + k - 1]);
    }
}

/// In ASCII the white space is the tab, the line feed, the vertical tab, the form
/// feed, the carriage return and the space.
pub proof fn law_white_space_of_ascii(c: char)
    requires
        c <= '\u{7f}',
    ensures
        is_white(c) <==> seq!['\t', '\n', '\u{b}', '\u{c}', '\r', ' '].contains(c),
{
    let all = seq!['\t', '\n', '\u{b}', '\u{c}', '\r', ' '];
    assert(all[0] == '\t' && all[1] == '\n' && all[2] == '\u{b}' && all[3] == '\u{c}' && all[4]
        == '\r' && all[5] == ' ');
    assert(all.contains(all[0]) && all.contains(all[1]) && all.contains(all[2]) && all.contains(
        all[3],
    ) && all.contains(all[4]) && all.contains(all[5]));
    if all.contains(c) {
        let k = choose|k: int| 0 <= k < all.len() && all[k] == c;
        assert(k == 0 || k == 1 || k == 2 || k == 3 || k == 4 || k == 5);
    }
}

/// Beyond ASCII the white space is the next line, the no-break spaces, and the spaces
/// and separators of Unicode.
pub proof fn law_white_space_beyond_ascii(c: char)
    requires
        c > '\u{7f}',
    ensures
        is_white(c) <==> '\u{2000}' <= c <= '\u{200a}' || seq![
            '\u{85}',
            '\u{a0}',
            '\u{1680}',
            '\u{2028}',
            '\u{2029}',
            '\u{202f}',
            '\u{205f}',
            '\u{3000}',
        ].contains(c),
{
    let all = seq![
        '\u{85}',
        '\u{a0}',
        '\u{1680}',
        '\u{2028}',
        '\u{2029}',
        '\u{202f}',
        '\u{205f}',
        '\u{3000}',
    ];
    assert(all[0] == '\u{85}' && all[1] == '\u{a0}' && all[2] == '\u{1680}' && all[3]
        == '\u{2028}');
    assert(all[4] == '\u{2029}' && all[5] == '\u{202f}' && all[6] == '\u{205f}' && all[7]
        == '\u{3000}');
    assert(all.contains(all[0]) && all.contains(all[1]) && all.contains(all[2]) && all.contains(
        all[3],
    ));
    assert(all.contains(all[4]) && all.contains(all[5]) && all.contains(all[6]) && all.contains(
        all[7],
    ));
    if all.contains(c) {
        let k = choose|k: int| 0 <= k < all.len() && all[k] == c;
        assert(k == 0 || k == 1 || k == 2 || k == 3 || k == 4 || k == 5 || k == 6 || k == 7);
    }
}

} // verus!
