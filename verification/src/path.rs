//! Paths as texts: names below a directory, absolute paths, and their order.

use crate::text;
use vstd::prelude::*;
use vstd::string::*;

verus! {

// ── names below a directory ─────────────────────────────────────────────

/// Whether a path starts with a `/`.
pub open spec fn rooted(p: Seq<char>) -> bool {
    p.len() > 0 && p[0] == '/'
}

/// The path of `name` below `base`, with a `/` between them, which separates
/// components on every platform. A name that starts with a `/` stands for itself.
pub open spec fn below(base: Seq<char>, name: Seq<char>) -> Seq<char> {
    if rooted(name) || base.len() == 0 {
        name
    } else if base.last() == '/' {
        base + name
    } else {
        base + "/"@ + name
    }
}

/// The path of `name` below `base`.
pub fn join_path(base: &str, name: &str) -> (out: String)
    ensures
        out@ == below(base@, name@),
{
    let n: usize = base.unicode_len();
    if (name.unicode_len() > 0 && name.get_char(0) == '/') || n == 0 {
        text::copy_str(name)
    } else if base.get_char(n - 1) == '/' {
        text::cat2(base, name)
    } else {
        text::cat3(base, "/", name)
    }
}

// ── absolute paths ──────────────────────────────────────────────────────

/// Whether a path is absolute, by the rules of the platform that the library is
/// built for.
pub uninterp spec fn absolute(p: Seq<char>) -> bool;

/// The path that another stands for when it is seen from a directory, by the
/// rules of the platform that the library is built for.
pub uninterp spec fn seen_from(dir: Seq<char>, p: Seq<char>) -> Seq<char>;

/// Whether a path can carry no drive letter.
pub open spec fn no_drive(p: Seq<char>) -> bool {
    !p.contains(':')
}

/// `std::path::Path::is_absolute`. On Unix a path is absolute if it starts with
/// the root, on Windows if it has a prefix such as `C:` and then the root. Which
/// paths those are is not stated beyond the name [`absolute`].
#[verifier::external_body]
pub(crate) fn is_absolute(p: &str) -> (r: bool)
    ensures
        r == absolute(p@),
{
    std::path::Path::new(p).is_absolute()
}

/// `std::path::Path::join`. A path that is absolute or has a drive letter
/// replaces the directory, or all of it but its prefix; any other is put behind
/// it. So what comes of an absolute directory is absolute unless a drive letter
/// was there. What the text looks like is not stated beyond the name
/// [`seen_from`].
#[verifier::external_body]
pub(crate) fn join_seen(dir: &str, p: &str) -> (out: String)
    ensures
        out@ == seen_from(dir@, p@),
        absolute(dir@) && no_drive(p@) ==> absolute(out@),
{
    std::path::Path::new(dir).join(p).to_string_lossy().into_owned()
}

/// The absolute path that a path stands for: an absolute path is one already, a
/// relative one is seen from the working directory. Where that is not known, or
/// what is seen from it is not absolute, a relative path stands for none.
pub open spec fn resolved(p: Seq<char>, cwd: Option<Seq<char>>) -> Option<Seq<char>> {
    if absolute(p) {
        Some(p)
    } else {
        match cwd {
            Some(dir) => if absolute(seen_from(dir, p)) {
                Some(seen_from(dir, p))
            } else {
                None
            },
            None => None,
        }
    }
}

/// A path, where it is absolute; else what it is seen as, where that is
/// absolute.
pub fn absolute_of(p: &str, p_absolute: bool, seen: Option<(String, bool)>) -> (r: Option<String>)
    ensures
        text::opt_view(r) == (if p_absolute {
            Some(p@)
        } else {
            match seen {
                Some((q, true)) => Some(q@),
                _ => None,
            }
        }),
{
    if p_absolute {
        Some(text::copy_str(p))
    } else {
        match seen {
            Some((q, q_absolute)) => if q_absolute {
                Some(q)
            } else {
                None
            },
            None => None,
        }
    }
}

/// Makes a path absolute, given the working directory where it is known. From an
/// absolute directory every path without a drive letter can be made so.
pub fn resolve_to_absolute(p: &str, cwd: &Option<String>) -> (r: Option<String>)
    ensures
        text::opt_view(r) == resolved(p@, text::opt_view(*cwd)),
        r matches Some(out) ==> absolute(out@),
        (*cwd matches Some(dir) && absolute(dir@) && no_drive(p@)) ==> r is Some,
{
    let seen: Option<(String, bool)> = match cwd {
        Some(dir) => {
            let q = join_seen(dir.as_str(), p);
            let q_absolute: bool = is_absolute(q.as_str());
            Some((q, q_absolute))
        },
        None => None,
    };
    let p_absolute: bool = is_absolute(p);
    absolute_of(p, p_absolute, seen)
}

/// A resolved path is absolute, and an absolute one is resolved already.
pub proof fn law_resolved_is_absolute(p: Seq<char>, cwd: Option<Seq<char>>)
    ensures
        resolved(p, cwd) matches Some(out) ==> absolute(out),
        absolute(p) ==> resolved(p, cwd) == Some(p),
{
}

/// Resolving a path again changes nothing, wherever one stands.
pub proof fn law_resolving_twice_is_once(
    p: Seq<char>,
    cwd: Option<Seq<char>>,
    other: Option<Seq<char>>,
)
    ensures
        resolved(p, cwd) matches Some(out) ==> resolved(out, other) == Some(out),
{
}

// ── the order of paths ──────────────────────────────────────────────────

/// The order of number sequences: by the first difference, a prefix first.
pub open spec fn lex_leq(a: Seq<u32>, b: Seq<u32>) -> bool
    decreases a.len(),
{
    if a.len() == 0 {
        true
    } else if b.len() == 0 {
        false
    } else {
        a[0] < b[0] || (a[0] == b[0] && lex_leq(a.drop_first(), b.drop_first()))
    }
}

/// Any two sequences can be compared.
pub proof fn lemma_lex_total(a: Seq<u32>, b: Seq<u32>)
    ensures
        lex_leq(a, b) || lex_leq(b, a),
    decreases a.len(),
{
    if a.len() > 0 && b.len() > 0 {
        lemma_lex_total(a.drop_first(), b.drop_first());
    }
}

/// The order carries over.
pub proof fn lemma_lex_transitive(a: Seq<u32>, b: Seq<u32>, c: Seq<u32>)
    requires
        lex_leq(a, b),
        lex_leq(b, c),
    ensures
        lex_leq(a, c),
    decreases a.len(),
{
    if a.len() > 0 && a[0] == b[0] && b[0] == c[0] {
        lemma_lex_transitive(a.drop_first(), b.drop_first(), c.drop_first());
    }
}

/// Only equal sequences stand at each other's place.
pub proof fn lemma_lex_antisymmetric(a: Seq<u32>, b: Seq<u32>)
    requires
        lex_leq(a, b),
        lex_leq(b, a),
    ensures
        a == b,
    decreases a.len(),
{
    if a.len() > 0 {
        lemma_lex_antisymmetric(a.drop_first(), b.drop_first());
        assert(a =~= seq![a[0]] + a.drop_first());
        assert(b =~= seq![b[0]] + b.drop_first());
    } else {
        assert(a =~= b);
    }
}

/// Compares two sequences.
pub fn lex_le(a: &Vec<u32>, b: &Vec<u32>) -> (r: bool)
    ensures
        r == lex_leq(a@, b@),
{
    let mut i: usize = 0;
    assert(a@.skip(0) =~= a@);
    assert(b@.skip(0) =~= b@);
    while i < a.len() && i < b.len() && a[i] == b[i]
        invariant
            i <= a@.len(),
            i <= b@.len(),
            lex_leq(a@, b@) == lex_leq(a@.skip(i as int), b@.skip(i as int)),
        decreases a@.len() - i,
    {
        assert(a@.skip(i as int).drop_first() =~= a@.skip(i + 1));
        assert(b@.skip(i as int).drop_first() =~= b@.skip(i + 1));
        i += 1;
    }
    if i == a.len() {
        true
    } else if i == b.len() {
        false
    } else {
        a[i] < b[i]
    }
}

/// A text as a sequence that sorts as the text does.
pub open spec fn text_key(s: Seq<char>) -> Seq<u32> {
    Seq::new(s.len(), |i: int| ((s[i] as u32) + 1) as u32)
}

/// The sequence for one piece between two slashes. A component is its rank
/// (the root, `.`, `..`, names), its text and an end; empty pieces and a `.`
/// that does not come first are no components.
pub open spec fn piece_key(piece: Seq<char>, first: bool) -> Seq<u32> {
    if piece.len() == 0 {
        Seq::empty()
    } else if piece == "."@ {
        if first {
            seq![2u32, 0u32]
        } else {
            Seq::empty()
        }
    } else if piece == ".."@ {
        seq![3u32, 0u32]
    } else {
        seq![4u32] + text_key(piece) + seq![0u32]
    }
}

/// The sequence for the pieces of a path.
pub open spec fn pieces_key(s: Seq<char>, first: bool) -> Seq<u32>
    decreases s.len(),
    via pieces_key_terminates
{
    let i = text::position(s, '/');
    if i < s.len() {
        piece_key(s.take(i), first) + pieces_key(s.skip(i + 1), false)
    } else {
        piece_key(s, first)
    }
}

#[via_fn]
proof fn pieces_key_terminates(s: Seq<char>, first: bool) {
    text::lemma_position(s, '/');
}

/// A path with `/` between its components as a sequence that sorts as the path
/// does: component by component.
pub open spec fn path_key(p: Seq<char>) -> Seq<u32> {
    if rooted(p) {
        seq![1u32, 0u32] + pieces_key(p.skip(1), false)
    } else {
        pieces_key(p, true)
    }
}

fn code_of(c: char) -> (n: u32)
    ensures
        n == c as u32,
        n <= 0x10ffff,
{
    c as u32
}

/// Adds the sequence of a text to `out`.
pub fn push_text_key(out: &mut Vec<u32>, chars: &Vec<char>, from: usize, to: usize)
    requires
        from <= to <= chars@.len(),
    ensures
        final(out)@ == old(out)@ + text_key(chars@.subrange(from as int, to as int)),
{
    let ghost start = out@;
    let ghost part = chars@.subrange(from as int, to as int);
    for i in from..to
        invariant
            from <= to <= chars@.len(),
            part == chars@.subrange(from as int, to as int),
            out@ == start + text_key(part).take(i - from),
    {
        let c: char = chars[i];
        assert(c == part[i - from]);
        out.push(code_of(c) + 1);
        assert(out@ =~= start + text_key(part).take(i + 1 - from));
    }
    assert(text_key(part).take(to - from) =~= text_key(part));
}

fn push_piece_key(out: &mut Vec<u32>, chars: &Vec<char>, from: usize, to: usize, first: bool)
    requires
        from <= to <= chars@.len(),
    ensures
        final(out)@ == old(out)@ + piece_key(chars@.subrange(from as int, to as int), first),
{
    let ghost start = out@;
    let ghost part = chars@.subrange(from as int, to as int);
    let piece = text::string_of(chars, from, to);
    if from == to {
        assert(out@ =~= start + piece_key(part, first));
    } else if text::same(piece.as_str(), ".") {
        if first {
            out.push(2);
            out.push(0);
        }
        assert(out@ =~= start + piece_key(part, first));
    } else if text::same(piece.as_str(), "..") {
        out.push(3);
        out.push(0);
        assert(out@ =~= start + piece_key(part, first));
    } else {
        out.push(4);
        push_text_key(out, chars, from, to);
        out.push(0);
        assert(out@ =~= start + piece_key(part, first));
    }
}

/// The sequence by which a path sorts.
pub fn key_of_path(p: &str) -> (out: Vec<u32>)
    ensures
        out@ == path_key(p@),
{
    let chars = text::chars_of(p);
    let mut out: Vec<u32> = Vec::new();
    let mut at: usize = 0;
    let mut first: bool = true;
    if chars.len() > 0 && chars[0] == '/' {
        out.push(1);
        out.push(0);
        at = 1;
        first = false;
        assert(out@ =~= seq![1u32, 0u32]);
        assert(chars@.skip(1) =~= p@.skip(1));
    } else {
        assert(chars@.skip(0) =~= p@);
        assert(out@ + pieces_key(chars@, true) =~= path_key(p@));
    }
    let mut i: usize = text::find_char(&chars, at, '/');
    while i < chars.len()
        invariant
            at <= i <= chars@.len(),
            out@ + pieces_key(chars@.skip(at as int), first) == path_key(p@),
            i - at == text::position(chars@.skip(at as int), '/'),
        decreases chars@.len() - at,
    {
        let ghost rest = chars@.skip(at as int);
        let ghost before = out@;
        push_piece_key(&mut out, &chars, at, i, first);
        assert(chars@.subrange(at as int, i as int) =~= rest.take(i - at));
        assert(rest.skip(i - at + 1) =~= chars@.skip(i + 1));
        assert(before + (piece_key(rest.take(i - at), first) + pieces_key(chars@.skip(i + 1), false))
            =~= out@ + pieces_key(chars@.skip(i + 1), false));
        at = i + 1;
        first = false;
        i = text::find_char(&chars, at, '/');
        assert(chars@.skip(at as int) =~= chars@.subrange(at as int, chars@.len() as int));
    }
    push_piece_key(&mut out, &chars, at, i, first);
    assert(chars@.subrange(at as int, i as int) =~= chars@.skip(at as int));
    out
}

// ── what the order means ────────────────────────────────────────────────

/// Whether a text comes before another or is the same: it is the beginning of
/// it, or its character is the lower one where they first differ.
pub open spec fn text_first(a: Seq<char>, b: Seq<char>) -> bool {
    a.is_prefix_of(b) || exists|k: int| differs_at(a, b, k)
}

/// Whether two texts are the same up to a place, and the first has the lower
/// character there.
pub open spec fn differs_at(a: Seq<char>, b: Seq<char>, k: int) -> bool {
    0 <= k < a.len() && k < b.len() && a.take(k) == b.take(k) && a[k] < b[k]
}

proof fn lemma_code(c: char, d: char)
    ensures
        ((c as u32) + 1) as u32 == (c as u32) + 1,
        ((d as u32) + 1) as u32 == (d as u32) + 1,
        (c as u32) == (d as u32) ==> c == d,
        (c as u32) < (d as u32) <==> c < d,
{
}

proof fn lemma_text_first(a: Seq<char>, b: Seq<char>)
    ensures
        lex_leq(text_key(a), text_key(b)) ==> text_first(a, b),
    decreases a.len(),
{
    let x = text_key(a);
    let y = text_key(b);
    if lex_leq(x, y) {
        if a.len() == 0 {
            assert(b.subrange(0, 0) =~= a);
        } else {
            lemma_code(a[0], b[0]);
            assert(x[0] == (a[0] as u32) + 1);
            assert(y[0] == (b[0] as u32) + 1);
            if a[0] < b[0] {
                assert(a.take(0) =~= b.take(0));
                assert(differs_at(a, b, 0));
            } else {
                assert(a[0] == b[0]);
                let s = a.drop_first();
                let t = b.drop_first();
                assert(x.drop_first() =~= text_key(s));
                assert(y.drop_first() =~= text_key(t));
                lemma_text_first(s, t);
                if s.is_prefix_of(t) {
                    assert(t.subrange(0, s.len() as int) =~= s);
                    assert(b.subrange(0, a.len() as int) =~= a) by {
                        assert forall|i: int| 0 <= i < a.len() implies b[i] == a[i] by {
                            if i > 0 {
                                assert(t.subrange(0, s.len() as int)[i - 1] == s[i - 1]);
                                assert(t[i - 1] == b[i]);
                            }
                        }
                    }
                } else {
                    let k = choose|k: int| differs_at(s, t, k);
                    assert(a.take(k + 1) =~= b.take(k + 1)) by {
                        assert forall|i: int| 0 <= i < k + 1 implies a[i] == b[i] by {
                            if i > 0 {
                                assert(s.take(k)[i - 1] == t.take(k)[i - 1]);
                            }
                        }
                    }
                    assert(differs_at(a, b, k + 1));
                }
            }
        }
    }
}

/// Texts sort character by character, a beginning before what it begins: of two
/// that differ exactly one comes first.
pub proof fn law_texts_sort_by_their_characters(a: Seq<char>, b: Seq<char>)
    ensures
        lex_leq(text_key(a), text_key(b)) <==> text_first(a, b),
{
    lemma_text_first(a, b);
    if text_first(a, b) && !lex_leq(text_key(a), text_key(b)) {
        lemma_lex_total(text_key(a), text_key(b));
        lemma_text_first(b, a);
        if a.is_prefix_of(b) {
            assert(b.subrange(0, a.len() as int) =~= a);
            if b.is_prefix_of(a) {
                assert(a =~= b);
            } else {
                let k = choose|k: int| differs_at(b, a, k);
                assert(a[k] == b[k]);
            }
        } else {
            let k = choose|k: int| differs_at(a, b, k);
            if b.is_prefix_of(a) {
                assert(a.subrange(0, b.len() as int)[k] == b[k]);
            } else {
                let j = choose|j: int| differs_at(b, a, j);
                if j < k {
                    assert(a.take(k)[j] == b.take(k)[j]);
                } else if k < j {
                    assert(a.take(j)[k] == b.take(j)[k]);
                }
            }
        }
    }
}

/// What stands below a directory is its path, a `/`, and the name; a name that
/// starts with a `/` stands for itself, and nothing is put before a name where
/// there is no directory.
pub proof fn law_name_stands_below_its_directory(base: &str, name: &str, out: String)
    requires
        call_ensures(join_path, (base, name), out),
    ensures
        name@.len() > 0 && name@[0] == '/' ==> out@ == name@,
        base@.len() == 0 ==> out@ == name@,
        base@.len() > 0 && base@.last() != '/' && (name@.len() == 0 || name@[0] != '/') ==> out@
            == base@.push('/') + name@,
        base@.len() > 0 && base@.last() == '/' && (name@.len() == 0 || name@[0] != '/') ==> out@
            == base@ + name@,
{
    reveal_strlit("/");
    assert(base@ + "/"@ + name@ =~= base@.push('/') + name@);
}

/// An absolute path is resolved as it is; a relative one is what it is seen as
/// from the working directory, where that is absolute; and nothing relative comes
/// out.
pub proof fn law_path_is_resolved(p: &str, cwd: &Option<String>, r: Option<String>)
    requires
        call_ensures(resolve_to_absolute, (p, cwd), r),
    ensures
        absolute(p@) ==> (r matches Some(q) && q@ == p@),
        !absolute(p@) && *cwd is None ==> r is None,
        !absolute(p@) ==> (*cwd matches Some(d) ==> (absolute(seen_from(d@, p@)) ==> (
        r matches Some(q) && q@ == seen_from(d@, p@)))),
        r matches Some(q) ==> absolute(q@),
{
}

proof fn lemma_pieces(first: Seq<char>, rest: Seq<char>, start: bool)
    requires
        !first.contains('/'),
    ensures
        pieces_key(first + "/"@ + rest, start) == piece_key(first, start) + pieces_key(rest, false),
        pieces_key(first, start) == piece_key(first, start),
{
    reveal_strlit("/");
    let s = first + "/"@ + rest;
    let n = first.len() as int;
    assert forall|i: int| 0 <= i < n implies first[i] != '/' by {
        assert(first.contains(first[i]));
    }
    assert forall|i: int| 0 <= i < n implies s[i] != '/' by {
        assert(s[i] == first[i]);
    }
    assert(s[n] == '/');
    text::lemma_position_is(s, '/', n);
    assert(s.take(n) =~= first);
    assert(s.skip(n + 1) =~= rest);
    text::lemma_position_is(first, '/', n);
}

proof fn lemma_lex_prefix(a: Seq<u32>, b: Seq<u32>)
    ensures
        lex_leq(a, a + b),
    decreases a.len(),
{
    if a.len() > 0 {
        lemma_lex_prefix(a.drop_first(), b);
        assert((a + b).drop_first() =~= a.drop_first() + b);
    }
}

proof fn lemma_lex_common(head: Seq<u32>, a: Seq<u32>, b: Seq<u32>)
    ensures
        lex_leq(head + a, head + b) <==> lex_leq(a, b),
    decreases head.len(),
{
    if head.len() == 0 {
        assert(head + a =~= a);
        assert(head + b =~= b);
    } else {
        lemma_lex_common(head.drop_first(), a, b);
        assert((head + a).drop_first() =~= head.drop_first() + a);
        assert((head + b).drop_first() =~= head.drop_first() + b);
    }
}

/// Whether a text is the name of something in a directory: it is not empty, has
/// no `/`, and is none of the names for the directory itself and the one above.
pub open spec fn plain_name(s: Seq<char>) -> bool {
    s.len() > 0 && !s.contains('/') && s != "."@ && s != ".."@
}

proof fn lemma_names_sort(a: Seq<char>, b: Seq<char>, x: Seq<u32>, y: Seq<u32>)
    requires
        a != b,
        lex_leq(text_key(a), text_key(b)),
    ensures
        lex_leq(text_key(a) + seq![0u32] + x, text_key(b) + seq![0u32] + y),
        !lex_leq(text_key(b) + seq![0u32] + y, text_key(a) + seq![0u32] + x),
    decreases a.len(),
{
    let p = text_key(a) + seq![0u32] + x;
    let q = text_key(b) + seq![0u32] + y;
    if a.len() == 0 {
        assert(b.len() > 0) by {
            if b.len() == 0 {
                assert(a =~= b);
            }
        }
        assert(p[0] == 0);
        lemma_code(b[0], b[0]);
        assert(q[0] == text_key(b)[0]);
        assert(q[0] > 0);
    } else {
        lemma_code(a[0], b[0]);
        assert(p[0] == text_key(a)[0]);
        assert(q[0] == text_key(b)[0]);
        if p[0] == q[0] {
            let s = a.drop_first();
            let t = b.drop_first();
            assert(a[0] == b[0]);
            assert(text_key(a).drop_first() =~= text_key(s));
            assert(text_key(b).drop_first() =~= text_key(t));
            assert(s != t) by {
                if s == t {
                    assert(a =~= seq![a[0]] + s);
                    assert(b =~= seq![b[0]] + t);
                }
            }
            lemma_names_sort(s, t, x, y);
            assert(p.drop_first() =~= text_key(s) + seq![0u32] + x);
            assert(q.drop_first() =~= text_key(t) + seq![0u32] + y);
        }
    }
}

/// Paths sort by their components: what is in a directory comes behind the
/// directory, and of two names in one directory the one whose text comes first
/// comes first with everything below it, whatever the characters that follow.
pub proof fn law_paths_sort_by_their_components(
    dir: Seq<char>,
    a: Seq<char>,
    b: Seq<char>,
    below_a: Seq<char>,
    below_b: Seq<char>,
)
    requires
        plain_name(dir),
        plain_name(a),
        plain_name(b),
    ensures
        lex_leq(path_key(dir), path_key(dir + "/"@ + a)),
        a != b && text_first(a, b) ==> lex_leq(
            path_key(dir + "/"@ + (a + "/"@ + below_a)),
            path_key(dir + "/"@ + (b + "/"@ + below_b)),
        ),
        a != b && text_first(a, b) ==> lex_leq(
            path_key(dir + "/"@ + a),
            path_key(dir + "/"@ + b),
        ),
{
    reveal_strlit("/");
    let whole = dir + "/"@ + a;
    assert(dir[0] != '/') by {
        assert(dir.contains(dir[0]));
    }
    assert(whole[0] == dir[0]);
    lemma_pieces(dir, a, true);
    lemma_pieces(dir, b, true);
    lemma_pieces(a, below_a, false);
    lemma_pieces(b, below_b, false);
    lemma_pieces(a, Seq::empty(), false);
    lemma_pieces(b, Seq::empty(), false);
    lemma_pieces(dir, a + "/"@ + below_a, true);
    lemma_pieces(dir, b + "/"@ + below_b, true);
    let d = piece_key(dir, true);
    lemma_lex_prefix(d, pieces_key(a, false));
    let long_a = dir + "/"@ + (a + "/"@ + below_a);
    let long_b = dir + "/"@ + (b + "/"@ + below_b);
    let short_b = dir + "/"@ + b;
    assert(long_a[0] == dir[0] && long_b[0] == dir[0] && short_b[0] == dir[0]);
    if a != b && text_first(a, b) {
        law_texts_sort_by_their_characters(a, b);
        let x = pieces_key(below_a, false);
        let y = pieces_key(below_b, false);
        let none = Seq::<u32>::empty();
        lemma_names_sort(a, b, x, y);
        lemma_names_sort(a, b, none, none);
        lemma_lex_common(
            seq![4u32],
            text_key(a) + seq![0u32] + x,
            text_key(b) + seq![0u32] + y,
        );
        lemma_lex_common(
            seq![4u32],
            text_key(a) + seq![0u32] + none,
            text_key(b) + seq![0u32] + none,
        );
        assert(piece_key(a, false) + x =~= seq![4u32] + (text_key(a) + seq![0u32] + x));
        assert(piece_key(b, false) + y =~= seq![4u32] + (text_key(b) + seq![0u32] + y));
        assert(piece_key(a, false) =~= seq![4u32] + (text_key(a) + seq![0u32] + none));
        assert(piece_key(b, false) =~= seq![4u32] + (text_key(b) + seq![0u32] + none));
        lemma_lex_common(d, piece_key(a, false) + x, piece_key(b, false) + y);
        lemma_lex_common(d, piece_key(a, false), piece_key(b, false));
    }
}

proof fn lemma_pieces_join(head: Seq<char>, rest: Seq<char>, start: bool)
    ensures
        pieces_key(head + "/"@ + rest, start) == pieces_key(head, start) + pieces_key(rest, false),
    decreases head.len(),
{
    reveal_strlit("/");
    let i = text::position(head, '/');
    text::lemma_position(head, '/');
    if i < head.len() {
        let first = head.take(i);
        let more = head.skip(i + 1);
        assert(!first.contains('/')) by {
            if first.contains('/') {
                let k = choose|k: int| 0 <= k < first.len() && first[k] == '/';
                assert(head[k] == '/');
            }
        }
        assert(head + "/"@ + rest =~= first + "/"@ + (more + "/"@ + rest));
        lemma_pieces(first, more + "/"@ + rest, start);
        lemma_pieces_join(more, rest, false);
        assert(pieces_key(head + "/"@ + rest, start) =~= pieces_key(head, start) + pieces_key(
            rest,
            false,
        ));
    } else {
        assert(!head.contains('/')) by {
            if head.contains('/') {
                let k = choose|k: int| 0 <= k < head.len() && head[k] == '/';
                assert(head[k] == '/');
            }
        }
        lemma_pieces(head, rest, start);
    }
}

/// Whether a text is nothing, or a `/` and what stands below it.
pub open spec fn end_or_below(s: Seq<char>) -> bool {
    s.len() == 0 || s[0] == '/'
}

proof fn lemma_name_with_tail(name: Seq<char>, tail: Seq<char>) -> (z: Seq<u32>)
    requires
        plain_name(name),
        end_or_below(tail),
    ensures
        pieces_key(name + tail, false) == seq![4u32] + (text_key(name) + seq![0u32] + z),
{
    reveal_strlit("/");
    if tail.len() == 0 {
        let z = Seq::<u32>::empty();
        assert(name + tail =~= name);
        lemma_pieces(name, Seq::empty(), false);
        assert(piece_key(name, false) =~= seq![4u32] + (text_key(name) + seq![0u32] + z));
        z
    } else {
        let z = pieces_key(tail.skip(1), false);
        assert(name + tail =~= name + "/"@ + tail.skip(1));
        lemma_pieces(name, tail.skip(1), false);
        assert(piece_key(name, false) + z =~= seq![4u32] + (text_key(name) + seq![0u32] + z));
        z
    }
}

/// Of two different names in one directory the one whose text comes first comes
/// first with everything below it, whatever follows the paths in the sequences that
/// they sort by.
pub proof fn law_names_in_a_directory_sort_as_texts(
    dir: Seq<char>,
    a: Seq<char>,
    b: Seq<char>,
    below_a: Seq<char>,
    below_b: Seq<char>,
    x: Seq<u32>,
    y: Seq<u32>,
)
    requires
        dir.len() > 0 && dir[0] == '/',
        plain_name(a),
        plain_name(b),
        a != b,
        text_first(a, b),
        end_or_below(below_a),
        end_or_below(below_b),
    ensures
        lex_leq(
            path_key(dir + "/"@ + (a + below_a)) + x,
            path_key(dir + "/"@ + (b + below_b)) + y,
        ),
        !lex_leq(
            path_key(dir + "/"@ + (b + below_b)) + y,
            path_key(dir + "/"@ + (a + below_a)) + x,
        ),
{
    reveal_strlit("/");
    let p = dir + "/"@ + (a + below_a);
    let q = dir + "/"@ + (b + below_b);
    assert(p[0] == '/' && q[0] == '/');
    assert(p.skip(1) =~= dir.skip(1) + "/"@ + (a + below_a));
    assert(q.skip(1) =~= dir.skip(1) + "/"@ + (b + below_b));
    lemma_pieces_join(dir.skip(1), a + below_a, false);
    lemma_pieces_join(dir.skip(1), b + below_b, false);
    let za = lemma_name_with_tail(a, below_a);
    let zb = lemma_name_with_tail(b, below_b);
    let head = seq![1u32, 0u32] + pieces_key(dir.skip(1), false) + seq![4u32];
    assert(path_key(p) + x =~= head + (text_key(a) + seq![0u32] + (za + x)));
    assert(path_key(q) + y =~= head + (text_key(b) + seq![0u32] + (zb + y)));
    law_texts_sort_by_their_characters(a, b);
    lemma_names_sort(a, b, za + x, zb + y);
    lemma_lex_common(
        head,
        text_key(a) + seq![0u32] + (za + x),
        text_key(b) + seq![0u32] + (zb + y),
    );
    lemma_lex_common(
        head,
        text_key(b) + seq![0u32] + (zb + y),
        text_key(a) + seq![0u32] + (za + x),
    );
}

/// Only the components of a path count: a slash more between two of them or at the
/// end, and a `.` behind a slash, make no difference to where a path sorts, and the
/// directory above sorts before every name.
pub proof fn law_only_components_count(dir: Seq<char>, rest: Seq<char>, name: Seq<char>)
    requires
        dir.len() > 0 && dir[0] == '/',
    ensures
        path_key(dir + "/"@ + ("/"@ + rest)) == path_key(dir + "/"@ + rest),
        path_key(dir + "/"@ + ("./"@ + rest)) == path_key(dir + "/"@ + rest),
        path_key(dir + "/"@) == path_key(dir),
        plain_name(name) ==> !lex_leq(
            path_key(dir + "/"@ + name),
            path_key(dir + "/"@ + ("../"@ + rest)),
        ),
{
    reveal_strlit("/");
    reveal_strlit(".");
    reveal_strlit("..");
    reveal_strlit("./");
    reveal_strlit("../");
    let none = Seq::<char>::empty();
    lemma_below_rooted(dir, "/"@ + rest);
    lemma_below_rooted(dir, rest);
    lemma_below_rooted(dir, "./"@ + rest);
    lemma_below_rooted(dir, none);
    lemma_below_rooted(dir, name);
    lemma_below_rooted(dir, "../"@ + rest);
    assert(dir + "/"@ + none =~= dir + "/"@);
    assert("/"@ + rest =~= none + "/"@ + rest);
    lemma_pieces(none, rest, false);
    assert(piece_key(none, false) + pieces_key(rest, false) =~= pieces_key(rest, false));
    assert("./"@ + rest =~= "."@ + "/"@ + rest);
    assert(!("."@.contains('/'))) by {
        assert("."@[0] == '.');
    }
    lemma_pieces("."@, rest, false);
    assert("."@.len() == 1);
    assert(piece_key("."@, false) + pieces_key(rest, false) =~= pieces_key(rest, false));
    assert(pieces_key(none, false) =~= Seq::empty()) by {
        text::lemma_position_is(none, '/', 0);
    }
    assert(path_key(dir + "/"@) =~= path_key(dir));
    if plain_name(name) {
        let z = lemma_name_with_tail(name, none);
        assert(name + none =~= name);
        let up = "../"@ + rest;
        assert(up =~= ".."@ + "/"@ + rest);
        assert(!(".."@.contains('/'))) by {
            assert(".."@[0] == '.' && ".."@[1] == '.');
        }
        lemma_pieces(".."@, rest, false);
        assert(".."@.len() == 2);
        let p = pieces_key(name, false);
        let q = pieces_key(up, false);
        assert(p[0] == 4);
        assert(q =~= seq![3u32, 0u32] + pieces_key(rest, false));
        assert(q[0] == 3);
        assert(!lex_leq(p, q));
        lemma_lex_common(path_key(dir), p, q);
    }
}

proof fn lemma_below_rooted(dir: Seq<char>, rest: Seq<char>)
    requires
        dir.len() > 0 && dir[0] == '/',
    ensures
        path_key(dir + "/"@ + rest) == path_key(dir) + pieces_key(rest, false),
{
    reveal_strlit("/");
    let p = dir + "/"@ + rest;
    assert(p[0] == '/');
    assert(p.skip(1) =~= dir.skip(1) + "/"@ + rest);
    lemma_pieces_join(dir.skip(1), rest, false);
    assert(path_key(p) =~= path_key(dir) + pieces_key(rest, false));
}

/// An absolute path is taken as it is; of a relative one what it is seen as is taken,
/// if that is absolute; and else nothing is.
pub proof fn law_only_absolute_paths_are_taken(
    p: &str,
    p_absolute: bool,
    q: String,
    q_absolute: bool,
    r: Option<String>,
    unseen: Option<String>,
)
    requires
        call_ensures(absolute_of, (p, p_absolute, Some((q, q_absolute))), r),
        call_ensures(absolute_of, (p, p_absolute, None), unseen),
    ensures
        p_absolute ==> (r matches Some(t) && t@ == p@) && (unseen matches Some(t) && t@ == p@),
        !p_absolute && q_absolute ==> (r matches Some(t) && t@ == q@),
        !p_absolute && !q_absolute ==> r is None,
        !p_absolute ==> unseen is None,
{
}

} // verus!
