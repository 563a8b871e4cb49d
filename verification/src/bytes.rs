//! Big-endian integers in byte strings, and copying of byte ranges.

use vstd::prelude::*;

verus! {

/// The `len` lowest base-256 digits of `n`, most significant first.
pub open spec fn be_bytes(n: nat, len: nat) -> Seq<u8>
    decreases len,
{
    if len == 0 {
        Seq::empty()
    } else {
        be_bytes(n / 256, (len - 1) as nat).push((n % 256) as u8)
    }
}

/// The number that `s` spells in base 256, most significant digit first.
pub open spec fn be_value(s: Seq<u8>) -> nat
    decreases s.len(),
{
    if s.len() == 0 {
        0
    } else {
        be_value(s.drop_last()) * 256 + s.last() as nat
    }
}

/// The number of values that `len` bytes can hold.
pub open spec fn pow256(len: nat) -> nat
    decreases len,
{
    if len == 0 {
        1
    } else {
        256 * pow256((len - 1) as nat)
    }
}

pub proof fn lemma_be_bytes_len(n: nat, len: nat)
    ensures
        be_bytes(n, len).len() == len,
    decreases len,
{
    if len > 0 {
        lemma_be_bytes_len(n / 256, (len - 1) as nat);
    }
}

/// Reading back what was written gives the number that was written.
pub proof fn lemma_be_roundtrip(n: nat, len: nat)
    requires
        n < pow256(len),
    ensures
        be_value(be_bytes(n, len)) == n,
        be_bytes(n, len).len() == len,
    decreases len,
{
    lemma_be_bytes_len(n, len);
    if len > 0 {
        lemma_be_roundtrip(n / 256, (len - 1) as nat);
        assert(be_bytes(n, len).drop_last() =~= be_bytes(n / 256, (len - 1) as nat));
    }
}

/// The digits of `n` are those of its upper part followed by those of its lower part.
pub proof fn lemma_be_bytes_split(n: nat, hi: nat, lo: nat)
    ensures
        pow256(lo) > 0,
        be_bytes(n, hi + lo) == be_bytes(n / pow256(lo), hi) + be_bytes(n % pow256(lo), lo),
    decreases lo,
{
    if lo == 0 {
        assert(n / 1 == n) by (nonlinear_arith);
        assert(be_bytes(n, hi) + Seq::<u8>::empty() =~= be_bytes(n, hi));
    } else {
        let p = pow256((lo - 1) as nat);
        lemma_be_bytes_split(n / 256, hi, (lo - 1) as nat);
        vstd::arithmetic::div_mod::lemma_div_denominator(n as int, 256, p as int);
        vstd::arithmetic::div_mod::lemma_mod_breakdown(n as int, 256, p as int);
        let m = n % pow256(lo);
        assert(m == 256 * ((n / 256) % p) + n % 256);
        assert(m / 256 == (n / 256) % p);
        assert(m % 256 == n % 256);
        assert((hi + lo - 1) as nat == hi + (lo - 1) as nat);
        assert(be_bytes(n, hi + lo) =~= be_bytes(n / pow256(lo), hi) + be_bytes(m, lo));
    }
}

pub proof fn lemma_pow256()
    ensures
        pow256(2) == 0x1_0000,
        pow256(4) == 0x1_0000_0000,
        pow256(8) == 0x1_0000_0000_0000_0000,
        pow256(16) == 0x1_0000_0000_0000_0000_0000_0000_0000_0000,
{
    reveal_with_fuel(pow256, 17);
}

/// The number that `s` spells is that of its first `k` digits, moved up, and that of the rest.
pub proof fn lemma_be_value_split(s: Seq<u8>, k: int)
    requires
        0 <= k <= s.len(),
    ensures
        be_value(s) == be_value(s.take(k)) * pow256((s.len() - k) as nat) + be_value(s.skip(k)),
    decreases s.len() - k,
{
    if k == s.len() {
        assert(s.take(k) =~= s);
        assert(be_value(s) * 1 == be_value(s)) by (nonlinear_arith);
    } else {
        lemma_be_value_split(s.drop_last(), k);
        assert(s.drop_last().take(k) =~= s.take(k));
        assert(s.drop_last().skip(k) =~= s.skip(k).drop_last());
        assert(s.skip(k).last() == s.last());
        let a = be_value(s.take(k));
        let (p, q) = (pow256((s.len() - 1 - k) as nat), pow256((s.len() - k) as nat));
        assert(a * p * 256 == a * q) by (nonlinear_arith)
            requires
                q == 256 * p,
        ;
    }
}

/// Writes `n` as two bytes at the end of `out`.
pub fn push_be16(out: &mut Vec<u8>, n: u16)
    ensures
        final(out)@ == old(out)@ + be_bytes(n as nat, 2),
{
    out.push((n / 256) as u8);
    out.push((n % 256) as u8);
    proof {
        reveal_with_fuel(be_bytes, 3);
        assert(out@ =~= old(out)@ + be_bytes(n as nat, 2));
    }
}

/// Writes `n` as four bytes at the end of `out`.
pub fn push_be32(out: &mut Vec<u8>, n: u32)
    ensures
        final(out)@ == old(out)@ + be_bytes(n as nat, 4),
{
    push_be16(out, (n / 0x1_0000) as u16);
    push_be16(out, (n % 0x1_0000) as u16);
    proof {
        lemma_pow256();
        lemma_be_bytes_split(n as nat, 2, 2);
        assert(out@ =~= old(out)@ + be_bytes(n as nat, 4));
    }
}

/// Writes `n` as eight bytes at the end of `out`.
pub fn push_be64(out: &mut Vec<u8>, n: u64)
    ensures
        final(out)@ == old(out)@ + be_bytes(n as nat, 8),
{
    push_be32(out, (n / 0x1_0000_0000) as u32);
    push_be32(out, (n % 0x1_0000_0000) as u32);
    proof {
        lemma_pow256();
        lemma_be_bytes_split(n as nat, 4, 4);
        assert(out@ =~= old(out)@ + be_bytes(n as nat, 8));
    }
}

/// Reads the two bytes of `s` that start at `at`.
pub fn read_be16(s: &[u8], at: usize) -> (n: u16)
    requires
        at + 2 <= s@.len(),
    ensures
        n as nat == be_value(s@.subrange(at as int, at + 2)),
{
    proof {
        let t = s@.subrange(at as int, at + 2);
        reveal_with_fuel(be_value, 3);
        assert(t.drop_last().last() == s@[at as int]);
    }
    s[at] as u16 * 256 + s[at + 1] as u16
}

/// Reads the four bytes of `s` that start at `at`.
pub fn read_be32(s: &[u8], at: usize) -> (n: u32)
    requires
        at + 4 <= s@.len(),
    ensures
        n as nat == be_value(s@.subrange(at as int, at + 4)),
{
    let total: usize = s.len();
    let hi: u16 = read_be16(s, at);
    let lo: u16 = read_be16(s, at + 2);
    proof {
        let t = s@.subrange(at as int, at + 4);
        reveal_with_fuel(be_value, 3);
        assert(t.drop_last().drop_last() =~= s@.subrange(at as int, at + 2));
        assert(s@.subrange(at + 2, at + 4).drop_last().drop_last().len() == 0);
        assert(t.drop_last().last() == s@[at + 2]);
        assert(s@.subrange(at + 2, at + 4).drop_last().last() == s@[at + 2]);
    }
    hi as u32 * 0x1_0000 + lo as u32
}

/// Reads the eight bytes of `s` that start at `at`.
pub fn read_be64(s: &[u8], at: usize) -> (n: u64)
    requires
        at + 8 <= s@.len(),
    ensures
        n as nat == be_value(s@.subrange(at as int, at + 8)),
{
    let total: usize = s.len();
    let hi: u32 = read_be32(s, at);
    let lo: u32 = read_be32(s, at + 4);
    proof {
        let t = s@.subrange(at as int, at + 8);
        let u = s@.subrange(at + 4, at + 8);
        reveal_with_fuel(be_value, 5);
        assert(t.drop_last().drop_last().drop_last().drop_last() =~= s@.subrange(at as int, at + 4));
        assert(u.drop_last().drop_last().drop_last().drop_last().len() == 0);
        assert(t.last() == u.last());
        assert(t.drop_last().last() == u.drop_last().last());
        assert(t.drop_last().drop_last().last() == u.drop_last().drop_last().last());
        assert(t.drop_last().drop_last().drop_last().last()
            == u.drop_last().drop_last().drop_last().last());
    }
    hi as u64 * 0x1_0000_0000 + lo as u64
}

/// Appends a copy of `s` to `out`.
pub fn append_slice(out: &mut Vec<u8>, s: &[u8])
    ensures
        final(out)@ == old(out)@ + s@,
{
    let mut i: usize = 0;
    while i < s.len()
        invariant
            i <= s@.len(),
            out@ == old(out)@ + s@.take(i as int),
        decreases s@.len() - i,
    {
        out.push(s[i]);
        i += 1;
        proof {
            assert(s@.take(i as int) =~= s@.take(i - 1).push(s@[i - 1]));
        }
    }
    proof {
        assert(s@.take(i as int) =~= s@);
    }
}

/// A copy of the bytes of `s` from `from` up to, not including, `to`.
pub fn copy_range(s: &[u8], from: usize, to: usize) -> (out: Vec<u8>)
    requires
        from <= to <= s@.len(),
    ensures
        out@ == s@.subrange(from as int, to as int),
{
    let mut out: Vec<u8> = Vec::new();
    let mut i: usize = from;
    while i < to
        invariant
            from <= i <= to <= s@.len(),
            out@ == s@.subrange(from as int, i as int),
        decreases to - i,
    {
        out.push(s[i]);
        i += 1;
        proof {
            assert(s@.subrange(from as int, i as int) =~= s@.subrange(from as int, i - 1).push(
                s@[i - 1],
            ));
        }
    }
    out
}

/// A copy of `s`.
pub fn copy_bytes(s: &[u8]) -> (out: Vec<u8>)
    ensures
        out@ == s@,
{
    copy_range(s, 0, s.len())
}

/// Whether two byte strings are the same.
pub fn same_bytes(a: &[u8], b: &[u8]) -> (r: bool)
    ensures
        r == (a@ == b@),
{
    if a.len() != b.len() {
        return false;
    }
    let mut i: usize = 0;
    while i < a.len()
        invariant
            a@.len() == b@.len(),
            i <= a@.len(),
            forall|j: int| 0 <= j < i ==> a@[j] == b@[j],
        decreases a@.len() - i,
    {
        if a[i] != b[i] {
            return false;
        }
        i += 1;
    }
    proof {
        assert(a@ =~= b@);
    }
    true
}

/// Whether `a` comes before `b` in lexicographic order, or is equal to it.
pub open spec fn lex_le(a: Seq<u8>, b: Seq<u8>) -> bool
    decreases a.len(),
{
    if a.len() == 0 {
        true
    } else if b.len() == 0 {
        false
    } else {
        a[0] < b[0] || (a[0] == b[0] && lex_le(a.skip(1), b.skip(1)))
    }
}

pub proof fn lemma_lex_total(a: Seq<u8>, b: Seq<u8>)
    ensures
        lex_le(a, b) || lex_le(b, a),
        lex_le(a, b) && lex_le(b, a) ==> a == b,
    decreases a.len(),
{
    if a.len() == 0 || b.len() == 0 {
        if lex_le(a, b) && lex_le(b, a) {
            assert(a =~= b);
        }
    } else {
        lemma_lex_total(a.skip(1), b.skip(1));
        if lex_le(a, b) && lex_le(b, a) {
            assert(a =~= seq![a[0]] + a.skip(1));
            assert(b =~= seq![b[0]] + b.skip(1));
        }
    }
}

pub fn bytes_le(a: &[u8], b: &[u8]) -> (r: bool)
    ensures
        r == lex_le(a@, b@),
{
    let mut i: usize = 0;
    proof {
        assert(a@.skip(0) =~= a@);
        assert(b@.skip(0) =~= b@);
    }
    while i < a.len()
        invariant
            i <= a@.len(),
            i <= b@.len(),
            lex_le(a@, b@) == lex_le(a@.skip(i as int), b@.skip(i as int)),
        decreases a@.len() - i,
    {
        proof {
            assert(a@.skip(i as int).skip(1) =~= a@.skip(i + 1));
            if i < b@.len() {
                assert(b@.skip(i as int).skip(1) =~= b@.skip(i + 1));
            }
        }
        if i >= b.len() {
            return false;
        }
        if a[i] != b[i] {
            return a[i] < b[i];
        }
        i += 1;
    }
    true
}

pub proof fn lemma_lex_transitive(a: Seq<u8>, b: Seq<u8>, c: Seq<u8>)
    requires
        lex_le(a, b),
        lex_le(b, c),
    ensures
        lex_le(a, c),
    decreases a.len(),
{
    if a.len() > 0 && b.len() > 0 && c.len() > 0 && a[0] == b[0] && b[0] == c[0] {
        lemma_lex_transitive(a.skip(1), b.skip(1), c.skip(1));
    }
}

/// Writing what was read gives the bytes that were read.
pub proof fn lemma_be_value_roundtrip(s: Seq<u8>)
    ensures
        be_value(s) < pow256(s.len()),
        be_bytes(be_value(s), s.len()) == s,
    decreases s.len(),
{
    if s.len() > 0 {
        let rest = s.drop_last();
        lemma_be_value_roundtrip(rest);
        assert(be_value(s) / 256 == be_value(rest));
        assert(be_bytes(be_value(s), s.len()) =~= rest.push(s.last()));
        assert(rest.push(s.last()) =~= s);
    } else {
        assert(be_bytes(be_value(s), s.len()) =~= s);
    }
}

/// Byte strings are ordered by the first byte in which they differ, and one that begins the other
/// comes first.
pub proof fn law_first_difference_orders(a: &[u8], b: &[u8], r: bool, i: int)
    requires
        call_ensures(bytes_le, (a, b), r),
        0 <= i <= a@.len(),
        i <= b@.len(),
        forall|j: int| 0 <= j < i ==> a@[j] == b@[j],
    ensures
        i < a@.len() && i < b@.len() && a@[i] < b@[i] ==> r,
        i < a@.len() && i < b@.len() && a@[i] > b@[i] ==> !r,
        i == a@.len() ==> r,
        i == b@.len() && i < a@.len() ==> !r,
{
    lemma_lex_prefix(a@, b@, i);
}

proof fn lemma_lex_prefix(a: Seq<u8>, b: Seq<u8>, i: int)
    requires
        0 <= i <= a.len(),
        i <= b.len(),
        forall|j: int| 0 <= j < i ==> a[j] == b[j],
    ensures
        lex_le(a, b) == lex_le(a.skip(i), b.skip(i)),
    decreases i,
{
    if i > 0 {
        assert forall|j: int| 0 <= j < i - 1 implies a.skip(1)[j] == b.skip(1)[j] by {
            assert(a[j + 1] == b[j + 1]);
        }
        lemma_lex_prefix(a.skip(1), b.skip(1), i - 1);
        assert(a.skip(1).skip(i - 1) =~= a.skip(i));
        assert(b.skip(1).skip(i - 1) =~= b.skip(i));
    } else {
        assert(a.skip(0) =~= a && b.skip(0) =~= b);
    }
}

/// A number goes into bytes with the most significant first, and comes out of them as it went in.
pub proof fn law_numbers_keep_their_value(n: u64, out: &mut Vec<u8>, s: &[u8], at: usize, m: u64)
    requires
        call_ensures(push_be64, (out, n), ()),
        s@ == final(out)@,
        at == old(out)@.len(),
        call_ensures(read_be64, (s, at), m),
    ensures
        final(out)@.len() == old(out)@.len() + 8,
        m == n,
        final(out)@[at as int] == n / 0x100_0000_0000_0000,
        final(out)@.last() == n % 256,
{
    lemma_pow256();
    lemma_be_roundtrip(n as nat, 8);
    reveal_with_fuel(be_bytes, 9);
    assert(s@.subrange(at as int, at + 8) =~= be_bytes(n as nat, 8));
    assert(final(out)@[at as int] == be_bytes(n as nat, 8)[0]);
}

/// Byte strings are the same exactly when no byte differs and neither is longer; a copy is the same.
pub proof fn law_copies_are_the_same(
    a: &[u8],
    b: &[u8],
    r: bool,
    copy: Vec<u8>,
    from: usize,
    to: usize,
    part: Vec<u8>,
    i: int,
)
    requires
        call_ensures(same_bytes, (a, b), r),
        call_ensures(copy_bytes, (a,), copy),
        from <= to <= a@.len(),
        call_ensures(copy_range, (a, from, to), part),
    ensures
        a@ == b@ ==> r,
        a@.len() != b@.len() ==> !r,
        0 <= i < a@.len() && i < b@.len() && a@[i] != b@[i] ==> !r,
        copy@ == a@,
        part@.len() == to - from,
        0 <= i < to - from ==> part@[i] == a@[from + i],
{
}

} // verus!
