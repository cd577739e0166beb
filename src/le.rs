use vstd::prelude::*;

verus! {

/// The natural number that `b` spells out in little-endian order.
pub open spec fn le_nat(b: Seq<u8>) -> nat
    decreases b.len(),
{
    if b.len() == 0 {
        0
    } else {
        b[0] as nat + 256 * le_nat(b.subrange(1, b.len() as int))
    }
}

/// The `w` low-order base-256 digits of `n`, least significant first.
pub open spec fn le_bytes(n: nat, w: nat) -> Seq<u8>
    decreases w,
{
    if w == 0 {
        Seq::empty()
    } else {
        seq![(n % 256) as u8] + le_bytes(n / 256, (w - 1) as nat)
    }
}

/// `256` raised to the power `w`.
pub open spec fn pow256(w: nat) -> nat
    decreases w,
{
    if w == 0 {
        1
    } else {
        256 * pow256((w - 1) as nat)
    }
}

/// Writes the `w` low-order bytes of `n`, least significant first.
pub fn le_encode(n: u128, w: usize) -> (r: Vec<u8>)
    requires
        w <= 16,
    ensures
        r@ == le_bytes(n as nat, w as nat),
{
    let mut out: Vec<u8> = Vec::new();
    let mut rest: u128 = n;
    let mut i: usize = 0;
    while i < w
        invariant
            i <= w,
            out@ + le_bytes(rest as nat, (w - i) as nat) == le_bytes(n as nat, w as nat),
        decreases w - i,
    {
        let b: u8 = (rest % 256) as u8;
        proof {
            let tail = le_bytes((rest / 256) as nat, (w - i - 1) as nat);
            assert(le_bytes(rest as nat, (w - i) as nat) == seq![b] + tail);
            assert(out@.push(b) + tail =~= out@ + (seq![b] + tail));
        }
        out.push(b);
        rest = rest / 256;
        i = i + 1;
    }
    assert(out@ + le_bytes(rest as nat, 0) =~= out@);
    out
}

/// Reads the bytes of `b` as one number, least significant first.
pub fn le_decode(b: &[u8]) -> (r: u128)
    requires
        b@.len() <= 16,
    ensures
        r == le_nat(b@),
{
    let len: usize = b.len();
    let mut acc: u128 = 0;
    let mut i: usize = len;
    proof {
        assert(b@.subrange(len as int, len as int).len() == 0);
    }
    while i > 0
        invariant
            i <= len,
            len == b@.len(),
            len <= 16,
            acc == le_nat(b@.subrange(i as int, len as int)),
        decreases i,
    {
        let ghost prev = b@.subrange(i as int, len as int);
        let ghost next = b@.subrange(i - 1, len as int);
        proof {
            assert(next.subrange(1, next.len() as int) =~= prev);
            lemma_le_nat_bound(prev);
            lemma_pow256_mono(prev.len(), 15);
            lemma_pow256_16();
        }
        acc = acc * 256 + b[i - 1] as u128;
        i = i - 1;
    }
    assert(b@.subrange(0, len as int) =~= b@);
    acc
}

/// `pow256` is monotonic in its exponent.
pub proof fn lemma_pow256_mono(a: nat, b: nat)
    requires
        a <= b,
    ensures
        pow256(a) <= pow256(b),
    decreases b,
{
    if a < b {
        lemma_pow256_mono(a, (b - 1) as nat);
    }
}

/// The value of `pow256` at the widths used for fixed-width numbers.
pub proof fn lemma_pow256_16()
    ensures
        pow256(1) == 0x100,
        pow256(2) == 0x1_0000,
        pow256(4) == 0x1_0000_0000,
        pow256(8) == 0x1_0000_0000_0000_0000,
        pow256(15) == 0x1_0000_0000_0000_0000_0000_0000_0000_00,
        pow256(16) == 0x1_0000_0000_0000_0000_0000_0000_0000_0000,
{
    reveal_with_fuel(pow256, 17);
}

/// A sequence of `w` bytes spells out a number below `256^w`.
pub proof fn lemma_le_nat_bound(b: Seq<u8>)
    ensures
        le_nat(b) < pow256(b.len()),
    decreases b.len(),
{
    if b.len() > 0 {
        let t = b.subrange(1, b.len() as int);
        lemma_le_nat_bound(t);
        assert(le_nat(b) < pow256(b.len())) by (nonlinear_arith)
            requires
                le_nat(b) == b[0] as nat + 256 * le_nat(t),
                le_nat(t) + 1 <= pow256(t.len()),
                pow256(b.len()) == 256 * pow256(t.len()),
                b[0] < 256,
        ;
    }
}

/// `le_bytes` gives exactly `w` bytes.
pub proof fn lemma_le_bytes_len(n: nat, w: nat)
    ensures
        le_bytes(n, w).len() == w,
    decreases w,
{
    if w > 0 {
        lemma_le_bytes_len(n / 256, (w - 1) as nat);
    }
}

/// Reading back the `w` bytes written for `n < 256^w` gives `n`.
pub proof fn lemma_le_nat_of_bytes(n: nat, w: nat)
    requires
        n < pow256(w),
    ensures
        le_nat(le_bytes(n, w)) == n,
    decreases w,
{
    if w > 0 {
        let s = le_bytes(n, w);
        let t = le_bytes(n / 256, (w - 1) as nat);
        assert(n / 256 < pow256((w - 1) as nat)) by (nonlinear_arith)
            requires
                n < pow256(w),
                pow256(w) == 256 * pow256((w - 1) as nat),
        ;
        lemma_le_nat_of_bytes(n / 256, (w - 1) as nat);
        lemma_le_bytes_len(n / 256, (w - 1) as nat);
        assert(s.subrange(1, s.len() as int) =~= t);
        assert(n == n % 256 + 256 * (n / 256)) by (nonlinear_arith);
    }
}

/// Writing back the number that `b` spells out gives `b` again.
pub proof fn lemma_bytes_of_le_nat(b: Seq<u8>)
    ensures
        le_bytes(le_nat(b), b.len()) == b,
    decreases b.len(),
{
    if b.len() > 0 {
        let t = b.subrange(1, b.len() as int);
        let n = le_nat(b);
        lemma_bytes_of_le_nat(t);
        assert(n % 256 == b[0] as nat && n / 256 == le_nat(t)) by (nonlinear_arith)
            requires
                n == b[0] as nat + 256 * le_nat(t),
                b[0] < 256,
        ;
        assert(le_bytes(n, b.len()) =~= b);
    }
}

} // verus!
