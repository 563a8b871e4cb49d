//! Text as a sequence of characters: cutting, searching and putting together.

use crate::bytes;
use vstd::prelude::*;
use vstd::string::*;

verus! {

/// `String::push` of the standard library appends one character.
pub assume_specification[ String::push ](s: &mut String, c: char)
    ensures
        final(s)@ == old(s)@.push(c),
;

/// The characters of `s`.
pub fn to_chars(s: &str) -> (v: Vec<char>)
    ensures
        v@ == s@,
{
    broadcast use axiom_spec_iter;

    let mut v: Vec<char> = Vec::new();
    for c in it: s.chars()
        invariant
            v@ == it.seq().take(it.index() as int),
            it.seq() == s@,
    {
        v.push(c);
        proof {
            assert(it.seq().take(it.index() + 1) =~= it.seq().take(it.index() as int).push(c));
        }
    }
    proof {
        assert(s@.take(s@.len() as int) =~= s@);
    }
    v
}

/// The string with the characters of `v` from `from` up to, not including, `to`.
pub fn from_range(v: &[char], from: usize, to: usize) -> (s: String)
    requires
        from <= to <= v@.len(),
    ensures
        s@ == v@.subrange(from as int, to as int),
{
    let mut s: String = String::new();
    let mut i: usize = from;
    while i < to
        invariant
            from <= i <= to <= v@.len(),
            s@ == v@.subrange(from as int, i as int),
        decreases to - i,
    {
        s.push(v[i]);
        i += 1;
        proof {
            assert(v@.subrange(from as int, i as int) =~= v@.subrange(from as int, i - 1).push(
                v@[i - 1],
            ));
        }
    }
    s
}

/// A copy of an optional text.
pub fn owned_opt(s: Option<&str>) -> (r: Option<String>)
    ensures
        opt_view(r) == (match s {
            Some(t) => Some(t@),
            None => None,
        }),
{
    match s {
        Some(t) => Some(t.to_owned()),
        None => None,
    }
}

/// The text of an optional string.
pub open spec fn opt_view(s: Option<String>) -> Option<Seq<char>> {
    match s {
        Some(t) => Some(t@),
        None => None,
    }
}

/// The texts of a list of strings.
pub open spec fn texts(v: Seq<String>) -> Seq<Seq<char>> {
    v.map_values(|s: String| s@)
}

/// Texts are the same when their bytes are.
pub proof fn lemma_utf8_injective(a: Seq<char>, b: Seq<char>)
    requires
        vstd::utf8::encode_utf8(a) == vstd::utf8::encode_utf8(b),
    ensures
        a == b,
{
    vstd::utf8::encode_utf8_decode_utf8(a);
    vstd::utf8::encode_utf8_decode_utf8(b);
}

/// Whether two texts are the same.
pub fn same(a: &str, b: &str) -> (r: bool)
    ensures
        r == (a@ == b@),
{
    let r: bool = bytes::same_bytes(a.as_bytes(), b.as_bytes());
    proof {
        if r {
            lemma_utf8_injective(a@, b@);
        }
    }
    r
}

/// Whether `s` is white space: the characters with the Unicode property White_Space.
pub open spec fn is_space(c: char) -> bool {
    let n = c as u32;
    ||| 0x9 <= n <= 0xD
    ||| n == 0x20
    ||| n == 0x85
    ||| n == 0xA0
    ||| n == 0x1680
    ||| 0x2000 <= n <= 0x200A
    ||| n == 0x2028
    ||| n == 0x2029
    ||| n == 0x202F
    ||| n == 0x205F
    ||| n == 0x3000
}

pub fn is_space_char(c: char) -> (r: bool)
    ensures
        r == is_space(c),
{
    let n: u32 = c as u32;
    (0x9 <= n && n <= 0xD) || n == 0x20 || n == 0x85 || n == 0xA0 || n == 0x1680 || (0x2000 <= n
        && n <= 0x200A) || n == 0x2028 || n == 0x2029 || n == 0x202F || n == 0x205F || n == 0x3000
}

/// `s` without the white space at its start.
pub open spec fn trim_start(s: Seq<char>) -> Seq<char>
    decreases s.len(),
{
    if s.len() > 0 && is_space(s[0]) {
        trim_start(s.skip(1))
    } else {
        s
    }
}

/// `s` without the white space at its end.
pub open spec fn trim_end(s: Seq<char>) -> Seq<char>
    decreases s.len(),
{
    if s.len() > 0 && is_space(s.last()) {
        trim_end(s.drop_last())
    } else {
        s
    }
}

/// `s` without the white space around it.
pub open spec fn trim(s: Seq<char>) -> Seq<char> {
    trim_end(trim_start(s))
}

/// The bounds of `v` between `from` and `to` without the white space around it.
pub fn trim_range(v: &[char], from: usize, to: usize) -> (r: (usize, usize))
    requires
        from <= to <= v@.len(),
    ensures
        from <= r.0 <= r.1 <= to,
        v@.subrange(r.0 as int, r.1 as int) == trim(v@.subrange(from as int, to as int)),
{
    let ghost all = v@.subrange(from as int, to as int);
    let mut a: usize = from;
    while a < to && is_space_char(v[a])
        invariant
            from <= a <= to <= v@.len(),
            trim_start(all) == trim_start(v@.subrange(a as int, to as int)),
        decreases to - a,
    {
        proof {
            assert(v@.subrange(a as int, to as int).skip(1) =~= v@.subrange(a + 1, to as int));
        }
        a += 1;
    }
    let ghost rest = v@.subrange(a as int, to as int);
    proof {
        if a < to {
            assert(rest[0] == v@[a as int]);
        }
        assert(trim_start(all) == rest);
    }
    let mut b: usize = to;
    while a < b && is_space_char(v[b - 1])
        invariant
            from <= a <= b <= to <= v@.len(),
            trim_end(rest) == trim_end(v@.subrange(a as int, b as int)),
        decreases b - a,
    {
        proof {
            let cur = v@.subrange(a as int, b as int);
            assert(cur.last() == v@[b - 1]);
            assert(cur.drop_last() =~= v@.subrange(a as int, b - 1));
        }
        b -= 1;
    }
    proof {
        let cur = v@.subrange(a as int, b as int);
        if a < b {
            assert(cur.last() == v@[b - 1]);
        }
        assert(trim_end(rest) == cur);
    }
    (a, b)
}

/// Whether `v` holds `p` at `at`.
pub open spec fn holds_at(s: Seq<char>, at: int, p: Seq<char>) -> bool {
    0 <= at && at + p.len() <= s.len() && s.subrange(at, at + p.len()) == p
}

pub fn matches_at(v: &[char], at: usize, to: usize, p: &[char]) -> (r: bool)
    requires
        at <= to <= v@.len(),
    ensures
        r == (p@.len() <= to - at && holds_at(v@, at as int, p@)),
{
    if p.len() > to - at {
        return false;
    }
    let mut i: usize = 0;
    while i < p.len()
        invariant
            i <= p@.len() <= to - at,
            at <= to <= v@.len(),
            forall|j: int| 0 <= j < i ==> v@[at + j] == p@[j],
        decreases p@.len() - i,
    {
        if v[at + i] != p[i] {
            proof {
                assert(v@.subrange(at as int, at + p@.len())[i as int] == v@[at + i]);
            }
            return false;
        }
        i += 1;
    }
    proof {
        assert(v@.subrange(at as int, at + p@.len()) =~= p@);
    }
    true
}

/// Whether `s` starts with `p`.
pub open spec fn has_prefix(s: Seq<char>, p: Seq<char>) -> bool {
    p.len() <= s.len() && s.take(p.len() as int) == p
}

pub fn starts_with(s: &str, p: &str) -> (r: bool)
    ensures
        r == has_prefix(s@, p@),
{
    let v: Vec<char> = to_chars(s);
    let q: Vec<char> = to_chars(p);
    proof {
        if q@.len() <= v@.len() {
            assert(v@.subrange(0, q@.len() as int) =~= v@.take(q@.len() as int));
        }
    }
    matches_at(v.as_slice(), 0, v.len(), q.as_slice())
}

/// What follows `p` in a text that starts with it.
pub fn strip_prefix(s: &str, p: &str) -> (r: Option<String>)
    ensures
        opt_view(r) == (if has_prefix(s@, p@) {
            Some(s@.skip(p@.len() as int))
        } else {
            None
        }),
{
    let v: Vec<char> = to_chars(s);
    let q: Vec<char> = to_chars(p);
    proof {
        if q@.len() <= v@.len() {
            assert(v@.subrange(0, q@.len() as int) =~= v@.take(q@.len() as int));
            assert(v@.subrange(q@.len() as int, v@.len() as int) =~= v@.skip(q@.len() as int));
        }
    }
    if matches_at(v.as_slice(), 0, v.len(), q.as_slice()) {
        Some(from_range(v.as_slice(), q.len(), v.len()))
    } else {
        None
    }
}

/// Whether `p` occurs in `s`.
pub open spec fn occurs(s: Seq<char>, p: Seq<char>) -> bool {
    exists|at: int| #[trigger] holds_at(s, at, p)
}

pub fn contains(s: &str, p: &str) -> (r: bool)
    ensures
        r == occurs(s@, p@),
{
    let v: Vec<char> = to_chars(s);
    let q: Vec<char> = to_chars(p);
    let n: usize = v.len();
    let mut at: usize = 0;
    while at < n
        invariant
            v@ == s@,
            q@ == p@,
            n == v@.len(),
            at <= n,
            forall|j: int| 0 <= j < at ==> !#[trigger] holds_at(v@, j, q@),
        decreases n - at,
    {
        if matches_at(v.as_slice(), at, n, q.as_slice()) {
            return true;
        }
        at += 1;
    }
    let r: bool = q.len() == 0;
    proof {
        if r {
            assert(v@.subrange(0, 0) =~= q@);
            assert(holds_at(v@, 0, q@));
        } else {
            assert forall|j: int| !#[trigger] holds_at(v@, j, q@) by {}
        }
    }
    r
}

/// `s` without any `c` at its end.
pub open spec fn without_end(s: Seq<char>, c: char) -> Seq<char>
    decreases s.len(),
{
    if s.len() > 0 && s.last() == c {
        without_end(s.drop_last(), c)
    } else {
        s
    }
}

pub fn trim_end_matches(s: &str, c: char) -> (r: String)
    ensures
        r@ == without_end(s@, c),
{
    let v: Vec<char> = to_chars(s);
    let mut n: usize = v.len();
    proof {
        assert(v@.take(n as int) =~= v@);
    }
    while n > 0 && v[n - 1] == c
        invariant
            n <= v@.len(),
            without_end(v@, c) == without_end(v@.take(n as int), c),
        decreases n,
    {
        proof {
            assert(v@.take(n as int).last() == v@[n - 1]);
            assert(v@.take(n as int).drop_last() =~= v@.take(n - 1));
        }
        n -= 1;
    }
    proof {
        if n > 0 {
            assert(v@.take(n as int).last() == v@[n - 1]);
        }
        assert(v@.subrange(0, n as int) =~= v@.take(n as int));
    }
    from_range(v.as_slice(), 0, n)
}

/// The part of `s` before the first `c`; all of it when there is none.
pub open spec fn before(s: Seq<char>, c: char) -> Seq<char>
    decreases s.len(),
{
    if s.len() == 0 || s[0] == c {
        Seq::empty()
    } else {
        seq![s[0]] + before(s.skip(1), c)
    }
}

/// The position of the first `c` in `v` between `from` and `to`, or `to`.
pub fn find_char(v: &[char], from: usize, to: usize, c: char) -> (r: usize)
    requires
        from <= to <= v@.len(),
    ensures
        from <= r <= to,
        v@.subrange(from as int, r as int) == before(v@.subrange(from as int, to as int), c),
        r < to ==> v@[r as int] == c,
        forall|j: int| from <= j < r ==> v@[j] != c,
{
    let mut r: usize = from;
    while r < to && v[r] != c
        invariant
            from <= r <= to <= v@.len(),
            forall|j: int| from <= j < r ==> v@[j] != c,
        decreases to - r,
    {
        r += 1;
    }
    proof {
        lemma_before(v@.subrange(from as int, to as int), c, r - from);
        assert(v@.subrange(from as int, r as int) =~= v@.subrange(from as int, to as int).take(
            r - from,
        ));
    }
    r
}

pub proof fn lemma_before(s: Seq<char>, c: char, n: int)
    requires
        0 <= n <= s.len(),
        forall|j: int| 0 <= j < n ==> s[j] != c,
        n < s.len() ==> s[n] == c,
    ensures
        before(s, c) == s.take(n),
    decreases s.len(),
{
    if n == 0 {
        assert(s.take(0) =~= Seq::empty());
    } else {
        lemma_before(s.skip(1), c, n - 1);
        assert(s.take(n) =~= seq![s[0]] + s.skip(1).take(n - 1));
    }
}

/// The parts of `s` between the `c`s: one more than there are `c`s.
pub open spec fn split(s: Seq<char>, c: char) -> Seq<Seq<char>>
    decreases s.len(),
{
    let head = before(s, c);
    if s.len() == 0 || !s.contains(c) || head.len() >= s.len() {
        seq![s]
    } else {
        seq![head] + split(s.skip((head.len() + 1) as int), c)
    }
}

/// The words of `s`: its longest parts without white space.
pub open spec fn words(s: Seq<char>) -> Seq<Seq<char>>
    decreases s.len(),
{
    let t = trim_start(s);
    if t.len() == 0 || s.len() < t.len() {
        Seq::empty()
    } else {
        let w = word(t);
        if w.len() == 0 || t.len() < w.len() {
            Seq::empty()
        } else {
            seq![w] + words(t.skip(w.len() as int))
        }
    }
}

/// The characters of `s` before its first white space.
pub open spec fn word(s: Seq<char>) -> Seq<char>
    decreases s.len(),
{
    if s.len() == 0 || is_space(s[0]) {
        Seq::empty()
    } else {
        seq![s[0]] + word(s.skip(1))
    }
}

proof fn lemma_word(s: Seq<char>, n: int)
    requires
        0 <= n <= s.len(),
        forall|j: int| 0 <= j < n ==> !is_space(s[j]),
        n < s.len() ==> is_space(s[n]),
    ensures
        word(s) == s.take(n),
    decreases s.len(),
{
    if n == 0 {
        assert(s.take(0) =~= Seq::empty());
    } else {
        lemma_word(s.skip(1), n - 1);
        assert(s.take(n) =~= seq![s[0]] + s.skip(1).take(n - 1));
    }
}

pub fn split_whitespace(s: &str) -> (r: Vec<String>)
    ensures
        texts(r@) == words(s@),
{
    let v: Vec<char> = to_chars(s);
    let n: usize = v.len();
    let mut out: Vec<String> = Vec::new();
    let mut i: usize = 0;
    proof {
        assert(v@.skip(0) =~= v@);
        assert(texts(out@) + words(v@) =~= words(v@));
    }
    while i < n
        invariant
            n == v@.len(),
            i <= n,
            texts(out@) + words(v@.skip(i as int)) == words(v@),
        decreases n - i,
    {
        let ghost s0 = v@.skip(i as int);
        let mut a: usize = i;
        while a < n && is_space_char(v[a])
            invariant
                n == v@.len(),
                i <= a <= n,
                trim_start(s0) == trim_start(v@.skip(a as int)),
            decreases n - a,
        {
            proof {
                assert(v@.skip(a as int).skip(1) =~= v@.skip(a + 1));
            }
            a += 1;
        }
        let ghost t = v@.skip(a as int);
        proof {
            if a < n {
                assert(t[0] == v@[a as int]);
            }
            assert(trim_start(s0) == t);
        }
        let mut b: usize = a;
        while b < n && !is_space_char(v[b])
            invariant
                n == v@.len(),
                a <= b <= n,
                forall|j: int| a <= j < b ==> !is_space(v@[j]),
            decreases n - b,
        {
            b += 1;
        }
        if a == n {
            proof {
                assert(words(s0) =~= Seq::<Seq<char>>::empty());
                assert(v@.skip(n as int) =~= Seq::<char>::empty());
                assert(words(v@.skip(n as int)) =~= words(s0));
            }
            i = n;
        } else {
            proof {
                assert forall|j: int| 0 <= j < b - a implies !is_space(t[j]) by {
                    assert(t[j] == v@[a + j]);
                }
                if b < n {
                    assert(t[b - a] == v@[b as int]);
                }
                lemma_word(t, b - a);
                assert(t.take(b - a) =~= v@.subrange(a as int, b as int));
                assert(t.skip(b - a) =~= v@.skip(b as int));
            }
            let ghost before_push = out@;
            let w: String = from_range(v.as_slice(), a, b);
            proof {
                assert(words(s0) == seq![w@] + words(v@.skip(b as int)));
            }
            out.push(w);
            proof {
                assert(texts(out@) =~= texts(before_push).push(w@));
                assert(texts(before_push) + (seq![w@] + words(v@.skip(b as int))) =~= texts(out@)
                    + words(v@.skip(b as int)));
            }
            i = b;
        }
    }
    proof {
        assert(v@.skip(n as int) =~= Seq::<char>::empty());
        assert(words(v@.skip(n as int)) =~= Seq::<Seq<char>>::empty());
        assert(texts(out@) + Seq::<Seq<char>>::empty() =~= texts(out@));
    }
    out
}

/// The decimal digits of `n`.
pub open spec fn decimal(n: nat) -> Seq<char>
    decreases n,
{
    if n < 10 {
        seq![(48 + n) as char]
    } else {
        decimal(n / 10).push((48 + n % 10) as char)
    }
}

pub fn to_decimal(n: u64) -> (s: String)
    ensures
        s@ == decimal(n as nat),
    decreases n,
{
    let mut s: String = if n < 10 {
        String::new()
    } else {
        to_decimal(n / 10)
    };
    let d: u8 = (n % 10) as u8 + 48;
    s.push(d as char);
    proof {
        if n < 10 {
            assert(s@ =~= decimal(n as nat));
        }
    }
    s
}

/// `a` followed by `b`.
pub fn joined(a: &str, b: &str) -> (r: String)
    ensures
        r@ == a@ + b@,
{
    let mut s: String = a.to_owned();
    s.append(b);
    s
}

/// The UTF-16 form of a character: one unit, or two surrogates.
pub open spec fn utf16_of(c: char) -> Seq<u16> {
    let n = c as u32;
    if n < 0x1_0000 {
        seq![n as u16]
    } else {
        seq![(0xD800 + (n - 0x1_0000) / 0x400) as u16, (0xDC00 + (n - 0x1_0000) % 0x400) as u16]
    }
}

/// The UTF-16 form of a text.
pub open spec fn utf16(s: Seq<char>) -> Seq<u16>
    decreases s.len(),
{
    if s.len() == 0 {
        Seq::empty()
    } else {
        utf16(s.drop_last()) + utf16_of(s.last())
    }
}

/// A text in UTF-16 with a zero at its end, as the system's interfaces take it.
pub fn wide(s: &str) -> (w: Vec<u16>)
    ensures
        w@ == utf16(s@).push(0),
{
    let v: Vec<char> = to_chars(s);
    let mut w: Vec<u16> = Vec::new();
    let mut i: usize = 0;
    proof {
        assert(v@.take(0) =~= Seq::empty());
    }
    while i < v.len()
        invariant
            v@ == s@,
            i <= v@.len(),
            w@ == utf16(v@.take(i as int)),
        decreases v@.len() - i,
    {
        let ghost before = w@;
        proof {
            assert(v@.take(i + 1).drop_last() =~= v@.take(i as int));
            assert(v@.take(i + 1).last() == v@[i as int]);
        }
        let n: u32 = v[i] as u32;
        if n < 0x1_0000 {
            w.push(n as u16);
        } else {
            w.push((0xD800 + (n - 0x1_0000) / 0x400) as u16);
            w.push((0xDC00 + (n - 0x1_0000) % 0x400) as u16);
        }
        proof {
            assert(w@ =~= before + utf16_of(v@[i as int]));
        }
        i += 1;
    }
    proof {
        assert(v@.take(i as int) =~= v@);
    }
    w.push(0);
    w
}

/// `s` without any `c` at its start.
pub open spec fn without_start(s: Seq<char>, c: char) -> Seq<char>
    decreases s.len(),
{
    if s.len() > 0 && s[0] == c {
        without_start(s.skip(1), c)
    } else {
        s
    }
}

pub fn trim_start_matches(s: &str, c: char) -> (r: String)
    ensures
        r@ == without_start(s@, c),
{
    let v: Vec<char> = to_chars(s);
    let n: usize = v.len();
    let mut i: usize = 0;
    proof {
        assert(v@.skip(0) =~= v@);
    }
    while i < n && v[i] == c
        invariant
            n == v@.len(),
            i <= n,
            without_start(v@, c) == without_start(v@.skip(i as int), c),
        decreases n - i,
    {
        proof {
            assert(v@.skip(i as int).skip(1) =~= v@.skip(i + 1));
        }
        i += 1;
    }
    proof {
        if i < n {
            assert(v@.skip(i as int)[0] == v@[i as int]);
        }
        assert(v@.subrange(i as int, n as int) =~= v@.skip(i as int));
    }
    from_range(v.as_slice(), i, n)
}

/// `s` without the white space around it.
pub fn trimmed(s: &str) -> (r: String)
    ensures
        r@ == trim(s@),
{
    let v: Vec<char> = to_chars(s);
    let (a, b) = trim_range(v.as_slice(), 0, v.len());
    proof {
        assert(v@.subrange(0, v@.len() as int) =~= v@);
    }
    from_range(v.as_slice(), a, b)
}

/// `"exe" arg`: a command line, the program's path in quotes.
pub open spec fn command_line(exe: Seq<char>, arg: Seq<char>) -> Seq<char> {
    "\""@ + exe + "\" "@ + arg
}

pub fn quoted_command(exe: &str, arg: &str) -> (s: String)
    ensures
        s@ == command_line(exe@, arg@),
{
    let mut s: String = joined("\"", exe);
    s.append("\" ");
    s.append(arg);
    s
}

/// A text put together from two starts with the first, and the second follows it.
pub proof fn lemma_prefix_of_sum(p: Seq<char>, rest: Seq<char>)
    ensures
        has_prefix(p + rest, p),
        (p + rest).skip(p.len() as int) == rest,
{
    assert((p + rest).take(p.len() as int) =~= p);
    assert((p + rest).skip(p.len() as int) =~= rest);
}

/// White space at the end goes, and only that.
pub proof fn lemma_trim_tail(s: Seq<char>, tail: Seq<char>)
    requires
        s.len() > 0,
        !is_space(s[0]),
        !is_space(s.last()),
        forall|i: int| 0 <= i < tail.len() ==> is_space(#[trigger] tail[i]),
    ensures
        trim(s + tail) == s,
    decreases tail.len(),
{
    assert((s + tail)[0] == s[0]);
    if tail.len() == 0 {
        assert(s + tail =~= s);
    } else {
        let rest = tail.drop_last();
        assert forall|i: int| 0 <= i < rest.len() implies is_space(#[trigger] rest[i]) by {
            assert(rest[i] == tail[i]);
        }
        lemma_trim_tail(s, rest);
        assert((s + rest)[0] == s[0]);
        assert((s + tail).last() == tail[tail.len() - 1]);
        assert((s + tail).drop_last() =~= s + rest);
    }
}

/// The first part of a text is what stands before the first separator.
pub proof fn lemma_split_first(head: Seq<char>, c: char, rest: Seq<char>)
    requires
        !head.contains(c),
    ensures
        split(head + seq![c] + rest, c) == seq![head] + split(rest, c),
        split(head, c) == seq![head],
{
    let s = head + seq![c] + rest;
    let n = head.len() as int;
    assert forall|j: int| 0 <= j < n implies s[j] != c by {
        assert(head.contains(head[j]));
        assert(s[j] == head[j]);
    }
    assert(s[n] == c);
    assert(s.contains(c));
    lemma_before(s, c, n);
    assert(s.take(n) =~= head);
    assert(s.skip(n + 1) =~= rest);
}

/// Trimming takes the white space off both ends, and nothing else.
pub proof fn law_trimmed(s: &str, r: String, inner: Seq<char>, tail: Seq<char>)
    requires
        call_ensures(trimmed, (s,), r),
        s@ == inner + tail,
        inner.len() > 0,
        !is_space(inner[0]),
        !is_space(inner.last()),
        forall|i: int| 0 <= i < tail.len() ==> is_space(#[trigger] tail[i]),
    ensures
        r@ == inner,
{
    lemma_trim_tail(inner, tail);
}

/// A number is written in decimal: its digits are from 0 to 9, and reading them gives the number.
pub open spec fn read_decimal(s: Seq<char>) -> nat
    decreases s.len(),
{
    if s.len() == 0 {
        0
    } else {
        (read_decimal(s.drop_last()) * 10 + (s.last() as int - '0' as int)) as nat
    }
}

/// Reading the decimal form of a number gives the number.
pub proof fn law_decimal_is_read_back(n: u64, s: String)
    requires
        call_ensures(to_decimal, (n,), s),
    ensures
        read_decimal(s@) == n,
        s@.len() > 0,
        n > 0 ==> s@[0] != '0',
{
    lemma_decimal(n as nat);
}

proof fn lemma_decimal(n: nat)
    ensures
        read_decimal(decimal(n)) == n,
        decimal(n).len() > 0,
        n > 0 ==> decimal(n)[0] != '0',
    decreases n,
{
    reveal_with_fuel(read_decimal, 2);
    if n >= 10 {
        lemma_decimal(n / 10);
        assert(decimal(n).drop_last() =~= decimal(n / 10));
        assert(decimal(n)[0] == decimal(n / 10)[0]);
    } else {
        assert(decimal(n).drop_last().len() == 0);
    }
}

/// A text for the system's interfaces ends with a zero and has no other one, and a character of the
/// basic plane is its own unit.
pub proof fn law_wide(s: &str, w: Vec<u16>, i: int)
    requires
        call_ensures(wide, (s,), w),
        forall|k: int| 0 <= k < s@.len() ==> 0 < #[trigger] s@[k] as u32 && (s@[k] as u32) < 0x1_0000,
        0 <= i < s@.len(),
    ensures
        w@.len() == s@.len() + 1,
        w@.last() == 0,
        w@[i] == s@[i] as u32,
{
    lemma_utf16_basic(s@, i);
}

proof fn lemma_utf16_basic(s: Seq<char>, i: int)
    requires
        forall|k: int| 0 <= k < s.len() ==> (#[trigger] s[k] as u32) < 0x1_0000,
        0 <= i,
    ensures
        utf16(s).len() == s.len(),
        i < s.len() ==> utf16(s)[i] == s[i] as u32,
    decreases s.len(),
{
    if s.len() > 0 {
        let rest = s.drop_last();
        assert forall|k: int| 0 <= k < rest.len() implies (#[trigger] rest[k] as u32) < 0x1_0000 by {
            assert(rest[k] == s[k]);
        }
        lemma_utf16_basic(rest, i);
        assert((s[s.len() - 1] as u32) < 0x1_0000);
    }
}

/// Words are what stands between white space: two words with white space between them are just
/// these two.
pub proof fn law_words(s: &str, r: Vec<String>, a: Seq<char>, gap: Seq<char>, b: Seq<char>)
    requires
        call_ensures(split_whitespace, (s,), r),
        s@ == a + gap + b,
        a.len() > 0,
        gap.len() > 0,
        b.len() > 0,
        forall|i: int| 0 <= i < a.len() ==> !is_space(#[trigger] a[i]),
        forall|i: int| 0 <= i < gap.len() ==> is_space(#[trigger] gap[i]),
        forall|i: int| 0 <= i < b.len() ==> !is_space(#[trigger] b[i]),
    ensures
        r@.len() == 2 && r@[0]@ == a && r@[1]@ == b,
{
    let n = a.len() as int;
    let t = a + gap + b;
    assert(t[0] == a[0]);
    assert(t[n] == gap[0]);
    assert forall|j: int| 0 <= j < n implies !is_space(t[j]) by {
        assert(t[j] == a[j]);
    }
    lemma_word(t, n);
    assert(t.take(n) =~= a);
    let rest = gap + b;
    assert(t.skip(n) =~= rest);
    lemma_trim_start_gap(gap, b);
    lemma_word(b, b.len() as int);
    assert(b.take(b.len() as int) =~= b);
    assert(b.skip(b.len() as int) =~= Seq::<char>::empty());
    assert(words(Seq::<char>::empty()) =~= Seq::<Seq<char>>::empty());
    assert(words(rest) =~= seq![b]);
    assert(words(t) =~= seq![a, b]);
    assert(texts(r@).len() == r@.len());
    assert(texts(r@)[0] == r@[0]@ && texts(r@)[1] == r@[1]@);
}

proof fn lemma_trim_start_gap(gap: Seq<char>, b: Seq<char>)
    requires
        forall|i: int| 0 <= i < gap.len() ==> is_space(#[trigger] gap[i]),
        b.len() > 0,
        !is_space(b[0]),
    ensures
        trim_start(gap + b) == b,
    decreases gap.len(),
{
    if gap.len() > 0 {
        let rest = gap.skip(1);
        assert forall|i: int| 0 <= i < rest.len() implies is_space(#[trigger] rest[i]) by {
            assert(rest[i] == gap[i + 1]);
        }
        lemma_trim_start_gap(rest, b);
        assert((gap + b)[0] == gap[0]);
        assert((gap + b).skip(1) =~= rest + b);
    } else {
        assert(gap + b =~= b);
    }
}

/// A text that starts with another has the rest after it; one that holds another is found to hold it; and
/// what is cut off its ends is just what was asked for.
pub proof fn law_parts_of_a_text(
    p: &str,
    rest: Seq<char>,
    s: &str,
    starts: bool,
    after: Option<String>,
    before: Seq<char>,
    t: &str,
    holds: bool,
    sum: String,
    other: &str,
)
    requires
        s@ == p@ + rest,
        call_ensures(starts_with, (s, p), starts),
        call_ensures(strip_prefix, (s, p), after),
        t@ == before + p@ + rest,
        call_ensures(contains, (t, p), holds),
        call_ensures(joined, (p, other), sum),
    ensures
        starts,
        after matches Some(r) && r@ == rest,
        holds,
        sum@ == p@ + other@,
{
    lemma_prefix_of_sum(p@, rest);
    let at = before.len() as int;
    assert(t@.subrange(at, at + p@.len()) =~= p@);
    assert(holds_at(t@, at, p@));
}

/// Cutting a character off an end leaves a text that does not have it there, and nothing else is cut off.
pub proof fn law_ends_are_cut(s: &str, c: char, front: String, back: String)
    requires
        call_ensures(trim_start_matches, (s, c), front),
        call_ensures(trim_end_matches, (s, c), back),
    ensures
        front@.len() > 0 ==> front@[0] != c,
        back@.len() > 0 ==> back@.last() != c,
        s@.len() > 0 && s@[0] != c ==> front@ == s@,
        s@.len() > 0 && s@.last() != c ==> back@ == s@,
        front@.len() <= s@.len() && s@.skip(s@.len() - front@.len()) == front@,
        back@.len() <= s@.len() && s@.take(back@.len() as int) == back@,
{
    lemma_start_cut(s@, c);
    lemma_end_cut(s@, c);
}

proof fn lemma_start_cut(s: Seq<char>, c: char)
    ensures
        ({
            let r = without_start(s, c);
            &&& r.len() > 0 ==> r[0] != c
            &&& r.len() <= s.len() && s.skip(s.len() - r.len()) == r
        }),
    decreases s.len(),
{
    if s.len() > 0 && s[0] == c {
        lemma_start_cut(s.skip(1), c);
        let r = without_start(s, c);
        assert(s.skip(s.len() - r.len()) =~= s.skip(1).skip(s.len() - 1 - r.len()));
    } else {
        assert(s.skip(0) =~= s);
    }
}

proof fn lemma_end_cut(s: Seq<char>, c: char)
    ensures
        ({
            let r = without_end(s, c);
            &&& r.len() > 0 ==> r.last() != c
            &&& r.len() <= s.len() && s.take(r.len() as int) == r
        }),
    decreases s.len(),
{
    if s.len() > 0 && s.last() == c {
        lemma_end_cut(s.drop_last(), c);
        let r = without_end(s, c);
        assert(s.take(r.len() as int) =~= s.drop_last().take(r.len() as int));
    } else {
        assert(s.take(s.len() as int) =~= s);
    }
}

} // verus!
