//! Little- and big-endian integer access on byte buffers.
use vstd::prelude::*;

verus! {

/// Little-endian value of `n` bytes of `s` starting at `off`.
pub open spec fn le_value(s: Seq<u8>, off: int, n: nat) -> nat
    decreases n,
{
    if n == 0 {
        0
    } else {
        s[off] as nat + 256 * le_value(s, off + 1, (n - 1) as nat)
    }
}

/// Big-endian value of `n` bytes of `s` starting at `off`.
pub open spec fn be_value(s: Seq<u8>, off: int, n: nat) -> nat
    decreases n,
{
    if n == 0 {
        0
    } else {
        be_value(s, off, (n - 1) as nat) * 256 + s[off + n - 1] as nat
    }
}

/// The `n` little-endian bytes of `v` (taken modulo 256^n).
pub open spec fn le_bytes(v: nat, n: nat) -> Seq<u8>
    decreases n,
{
    if n == 0 {
        Seq::empty()
    } else {
        seq![(v % 256) as u8] + le_bytes(v / 256, (n - 1) as nat)
    }
}

/// The `n` big-endian bytes of `v` (taken modulo 256^n).
pub open spec fn be_bytes(v: nat, n: nat) -> Seq<u8>
    decreases n,
{
    if n == 0 {
        Seq::empty()
    } else {
        be_bytes(v / 256, (n - 1) as nat) + seq![(v % 256) as u8]
    }
}

/// Read a little-endian `u16` at `offset`.
pub fn read_le_u16(data: &[u8], offset: usize) -> (r: u16)
    requires
        offset + 2 <= data@.len(),
    ensures
        r as nat == le_value(data@, offset as int, 2),
{
    proof {
        reveal_with_fuel(le_value, 3);
    }
    data[offset] as u16 + (data[offset + 1] as u16) * 256
}

/// Read a little-endian `u32` at `offset`.
pub fn read_le_u32(data: &[u8], offset: usize) -> (r: u32)
    requires
        offset + 4 <= data@.len(),
    ensures
        r as nat == le_value(data@, offset as int, 4),
{
    proof {
        reveal_with_fuel(le_value, 5);
    }
    let b0 = data[offset] as u32;
    let b1 = data[offset + 1] as u32;
    let b2 = data[offset + 2] as u32;
    let b3 = data[offset + 3] as u32;
    b0 + 256 * (b1 + 256 * (b2 + 256 * b3))
}

/// Read a little-endian `u64` at `offset`.
pub fn read_le_u64(data: &[u8], offset: usize) -> (r: u64)
    requires
        offset + 8 <= data@.len(),
    ensures
        r as nat == le_value(data@, offset as int, 8),
{
    proof {
        reveal_with_fuel(le_value, 9);
    }
    let _len = data.len();
    let lo = read_le_u32(data, offset) as u64;
    let hi = read_le_u32(data, offset + 4) as u64;
    proof {
        reveal_with_fuel(le_value, 9);
        assert(le_value(data@, offset as int, 8) == le_value(data@, offset as int, 4) + 4294967296
            * le_value(data@, offset + 4, 4));
    }
    lo + 4294967296 * hi
}

/// Read a big-endian `u32` at `offset`.
pub fn read_be_u32(data: &[u8], offset: usize) -> (r: u32)
    requires
        offset + 4 <= data@.len(),
    ensures
        r as nat == be_value(data@, offset as int, 4),
{
    proof {
        reveal_with_fuel(be_value, 5);
    }
    let b0 = data[offset] as u32;
    let b1 = data[offset + 1] as u32;
    let b2 = data[offset + 2] as u32;
    let b3 = data[offset + 3] as u32;
    ((b0 * 256 + b1) * 256 + b2) * 256 + b3
}

/// Read a big-endian `u64` at `offset`.
pub fn read_be_u64(data: &[u8], offset: usize) -> (r: u64)
    requires
        offset + 8 <= data@.len(),
    ensures
        r as nat == be_value(data@, offset as int, 8),
{
    let _len = data.len();
    let hi = read_be_u32(data, offset) as u64;
    let lo = read_be_u32(data, offset + 4) as u64;
    proof {
        lemma_be_split(data@, offset as int);
    }
    hi * 4294967296 + lo
}

proof fn lemma_be_split(s: Seq<u8>, off: int)
    ensures
        be_value(s, off, 8) == be_value(s, off, 4) * 4294967296 + be_value(s, off + 4, 4),
{
    reveal_with_fuel(be_value, 9);
}

/// The little-endian bytes of `v`.
pub fn u32_to_le(v: u32) -> (r: [u8; 4])
    ensures
        r@ == le_bytes(v as nat, 4),
{
    proof {
        reveal_with_fuel(le_bytes, 5);
    }
    let r = [
        (v % 256) as u8,
        ((v / 256) % 256) as u8,
        ((v / 65536) % 256) as u8,
        ((v / 16777216) % 256) as u8,
    ];
    proof {
        assert(r@ =~= le_bytes(v as nat, 4));
    }
    r
}

/// The little-endian bytes of `v`.
pub fn u64_to_le(v: u64) -> (r: Vec<u8>)
    ensures
        r@ == le_bytes(v as nat, 8),
{
    let mut out: Vec<u8> = Vec::new();
    let mut x: u64 = v;
    let mut i: usize = 0;
    while i < 8
        invariant
            i <= 8,
            out@ + le_bytes(x as nat, (8 - i) as nat) == le_bytes(v as nat, 8),
        decreases 8 - i,
    {
        proof {
            assert(le_bytes(x as nat, (8 - i) as nat) == seq![(x % 256) as u8] + le_bytes(
                (x / 256) as nat,
                (8 - i - 1) as nat,
            ));
        }
        out.push((x % 256) as u8);
        x = x / 256;
        i = i + 1;
        proof {
            assert(out@ + le_bytes(x as nat, (8 - i) as nat) =~= le_bytes(v as nat, 8));
        }
    }
    proof {
        assert(out@ =~= out@ + le_bytes(x as nat, 0));
    }
    out
}

/// The big-endian bytes of `v`.
pub fn u32_to_be(v: u32) -> (r: [u8; 4])
    ensures
        r@ == be_bytes(v as nat, 4),
{
    proof {
        reveal_with_fuel(be_bytes, 5);
    }
    let r = [
        ((v / 16777216) % 256) as u8,
        ((v / 65536) % 256) as u8,
        ((v / 256) % 256) as u8,
        (v % 256) as u8,
    ];
    proof {
        assert(r@ =~= be_bytes(v as nat, 4));
    }
    r
}

/// Append the little-endian bytes of `v`.
pub fn push_le_u32(out: &mut Vec<u8>, v: u32)
    ensures
        final(out)@ == old(out)@ + le_bytes(v as nat, 4),
{
    let b = u32_to_le(v);
    out.push(b[0]);
    out.push(b[1]);
    out.push(b[2]);
    out.push(b[3]);
    proof {
        assert(final(out)@ =~= old(out)@ + b@);
    }
}

/// Append the little-endian bytes of `v`.
pub fn push_le_u64(out: &mut Vec<u8>, v: u64)
    ensures
        final(out)@ == old(out)@ + le_bytes(v as nat, 8),
{
    let b = u64_to_le(v);
    proof {
        lemma_le_bytes_len(v as nat, 8);
    }
    let mut i: usize = 0;
    while i < 8
        invariant
            i <= 8,
            b@.len() == 8,
            out@ == old(out)@ + b@.take(i as int),
        decreases 8 - i,
    {
        out.push(b[i]);
        i = i + 1;
        proof {
            assert(out@ =~= old(out)@ + b@.take(i as int));
        }
    }
    proof {
        assert(b@.take(8) =~= b@);
    }
}

/// Append the big-endian bytes of `v`.
pub fn push_be_u32(out: &mut Vec<u8>, v: u32)
    ensures
        final(out)@ == old(out)@ + be_bytes(v as nat, 4),
{
    let b = u32_to_be(v);
    out.push(b[0]);
    out.push(b[1]);
    out.push(b[2]);
    out.push(b[3]);
    proof {
        assert(final(out)@ =~= old(out)@ + b@);
    }
}

/// Append the big-endian bytes of `v`.
pub fn push_be_u64(out: &mut Vec<u8>, v: u64)
    ensures
        final(out)@ == old(out)@ + be_bytes(v as nat, 8),
{
    push_be_u32(out, (v / 4294967296) as u32);
    push_be_u32(out, (v % 4294967296) as u32);
    proof {
        lemma_be_bytes_split(v as nat);
        assert(final(out)@ =~= old(out)@ + be_bytes(v as nat, 8));
    }
}

proof fn lemma_be_bytes_split(v: nat)
    requires
        v < 0x1_0000_0000_0000_0000,
    ensures
        be_bytes(v, 8) == be_bytes(v / 4294967296, 4) + be_bytes(v % 4294967296, 4),
{
    reveal_with_fuel(be_bytes, 9);
    let a = v / 4294967296;
    let b = v % 4294967296;
    assert(v / 256 / 256 / 256 / 256 == a);
    assert(b % 256 == v % 256);
    assert((b / 256) % 256 == (v / 256) % 256);
    assert((b / 256 / 256) % 256 == (v / 256 / 256) % 256);
    assert((b / 256 / 256 / 256) % 256 == (v / 256 / 256 / 256) % 256);
    assert(be_bytes(v, 8) =~= be_bytes(a, 4) + be_bytes(b, 4));
}

/// Overwrite the 4 bytes at `offset` with the little-endian bytes of
/// `v`.
pub fn put_le_u32(data: &mut [u8], offset: usize, v: u32)
    requires
        offset + 4 <= old(data)@.len(),
    ensures
        final(data)@.len() == old(data)@.len(),
        final(data)@ == old(data)@.take(offset as int) + le_bytes(v as nat, 4) + old(data)@.skip(
            offset + 4,
        ),
{
    let b = u32_to_le(v);
    proof {
        lemma_le_bytes_len(v as nat, 4);
    }
    data[offset] = b[0];
    data[offset + 1] = b[1];
    data[offset + 2] = b[2];
    data[offset + 3] = b[3];
    proof {
        assert(final(data)@ =~= old(data)@.take(offset as int) + b@ + old(data)@.skip(
            offset + 4,
        ));
    }
}

/// Overwrite the 8 bytes at `offset` with the little-endian bytes of
/// `v`.
pub fn put_le_u64(data: &mut [u8], offset: usize, v: u64)
    requires
        offset + 8 <= old(data)@.len(),
    ensures
        final(data)@.len() == old(data)@.len(),
        final(data)@ == old(data)@.take(offset as int) + le_bytes(v as nat, 8) + old(data)@.skip(
            offset + 8,
        ),
{
    let b = u64_to_le(v);
    proof {
        lemma_le_bytes_len(v as nat, 8);
    }
    let _len = data.len();
    let mut i: usize = 0;
    while i < 8
        invariant
            i <= 8,
            b@.len() == 8,
            offset + 8 <= data@.len(),
            data@.len() == old(data)@.len(),
            data@.len() == _len,
            forall|j: int| 0 <= j < offset ==> data@[j] == old(data)@[j],
            forall|j: int| offset + 8 <= j < data@.len() ==> data@[j] == old(data)@[j],
            forall|j: int| offset <= j < offset + i ==> data@[j] == b@[j - offset],
            forall|j: int| offset + i <= j < offset + 8 ==> data@[j] == old(data)@[j],
        decreases 8 - i,
    {
        data[offset + i] = b[i];
        i = i + 1;
    }
    proof {
        let expect = old(data)@.take(offset as int) + b@ + old(data)@.skip(offset + 8);
        assert forall|j: int| 0 <= j < data@.len() implies data@[j] == expect[j] by {

        }
        assert(data@ =~= expect);
    }
}

/// `le_value` reads back what `le_bytes` wrote.
pub proof fn lemma_le_roundtrip(v: nat, n: nat)
    ensures
        le_bytes(v, n).len() == n,
        le_value(le_bytes(v, n), 0, n) == v % pow256(n),
    decreases n,
{
    if n == 0 {
    } else {
        lemma_le_roundtrip(v / 256, (n - 1) as nat);
        let s = le_bytes(v, n);
        let t = le_bytes(v / 256, (n - 1) as nat);
        assert(s == seq![(v % 256) as u8] + t);
        lemma_le_value_shift(seq![(v % 256) as u8], t, (n - 1) as nat);
        let p = pow256((n - 1) as nat);
        assert(pow256(n) == 256 * p);
        assert(p > 0) by {
            lemma_pow256_pos((n - 1) as nat);
        }
        assert(v % (256 * p) == v % 256 + 256 * ((v / 256) % p)) by (nonlinear_arith)
            requires
                p > 0,
        {
            vstd::arithmetic::div_mod::lemma_breakdown(v as int, 256, p as int);
        }
    }
}

proof fn lemma_le_value_shift(a: Seq<u8>, t: Seq<u8>, n: nat)
    requires
        a.len() == 1,
        t.len() >= n,
    ensures
        le_value(a + t, 0, n + 1) == a[0] as nat + 256 * le_value(t, 0, n),
{
    assert((a + t)[0] == a[0]);
    lemma_le_value_offset(a, t, 0, n);
}

proof fn lemma_le_value_offset(a: Seq<u8>, t: Seq<u8>, k: int, n: nat)
    requires
        a.len() == 1,
        0 <= k,
        k + n <= t.len(),
    ensures
        le_value(a + t, k + 1, n) == le_value(t, k, n),
    decreases n,
{
    if n > 0 {
        assert((a + t)[k + 1] == t[k]);
        lemma_le_value_offset(a, t, k + 1, (n - 1) as nat);
    }
}

/// `le_bytes` produces exactly `n` bytes.
pub proof fn lemma_le_bytes_len(v: nat, n: nat)
    ensures
        le_bytes(v, n).len() == n,
    decreases n,
{
    if n > 0 {
        lemma_le_bytes_len(v / 256, (n - 1) as nat);
    }
}

/// `be_bytes` produces exactly `n` bytes.
pub proof fn lemma_be_bytes_len(v: nat, n: nat)
    ensures
        be_bytes(v, n).len() == n,
    decreases n,
{
    if n > 0 {
        lemma_be_bytes_len(v / 256, (n - 1) as nat);
    }
}

/// 256 to the power `n`.
pub open spec fn pow256(n: nat) -> nat
    decreases n,
{
    if n == 0 {
        1
    } else {
        256 * pow256((n - 1) as nat)
    }
}

proof fn lemma_pow256_pos(n: nat)
    ensures
        pow256(n) > 0,
    decreases n,
{
    if n > 0 {
        lemma_pow256_pos((n - 1) as nat);
    }
}


/// `be_value` reads only the `n` bytes it covers.
pub proof fn lemma_be_value_window(d1: Seq<u8>, o1: int, d2: Seq<u8>, o2: int, n: nat)
    requires
        forall|j: int| o1 <= j < o1 + n ==> #[trigger] d1[j] == d2[j - o1 + o2],
    ensures
        be_value(d1, o1, n) == be_value(d2, o2, n),
    decreases n,
{
    if n > 0 {
        lemma_be_value_window(d1, o1, d2, o2, (n - 1) as nat);
        assert(d1[o1 + (n - 1)] == d2[(o1 + (n - 1)) - o1 + o2]);
    }
}

/// `be_value` reads back what `be_bytes` wrote.
pub proof fn lemma_be_roundtrip(v: nat, n: nat)
    ensures
        be_bytes(v, n).len() == n,
        be_value(be_bytes(v, n), 0, n) == v % pow256(n),
    decreases n,
{
    lemma_be_bytes_len(v, n);
    if n > 0 {
        let m = (n - 1) as nat;
        lemma_be_roundtrip(v / 256, m);
        let t = be_bytes(v / 256, m);
        let s = be_bytes(v, n);
        assert(s == t + seq![(v % 256) as u8]);
        lemma_be_value_window(s, 0, t, 0, m);
        assert(s[n - 1] == (v % 256) as u8);
        let p = pow256(m);
        assert(pow256(n) == 256 * p);
        assert(p > 0) by {
            lemma_pow256_pos(m);
        }
        assert(v % (256 * p) == ((v / 256) % p) * 256 + v % 256) by (nonlinear_arith)
            requires
                p > 0,
        {
            vstd::arithmetic::div_mod::lemma_breakdown(v as int, 256, p as int);
        }
    }
}

} // verus!
