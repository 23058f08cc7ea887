//! Little-endian integers on the wire.

use vstd::prelude::*;

verus! {

/// The `n` low bytes of `v`, least significant first.
pub open spec fn le_bytes(v: nat, n: nat) -> Seq<u8>
    decreases n,
{
    if n == 0 {
        Seq::empty()
    } else {
        seq![(v % 256) as u8].add(le_bytes(v / 256, (n - 1) as nat))
    }
}

/// The number that `bytes` spell, least significant byte first.
pub open spec fn le_value(bytes: Seq<u8>) -> nat
    decreases bytes.len(),
{
    if bytes.len() == 0 {
        0
    } else {
        bytes[0] as nat + 256 * le_value(bytes.drop_first())
    }
}

/// Whether `v` can be written in `n` bytes.
pub open spec fn fits_in(v: nat, n: nat) -> bool
    decreases n,
{
    if n == 0 {
        v == 0
    } else {
        fits_in(v / 256, (n - 1) as nat)
    }
}

/// `le_bytes` gives as many bytes as asked for.
pub proof fn lemma_le_bytes_len(v: nat, n: nat)
    ensures
        le_bytes(v, n).len() == n,
    decreases n,
{
    if n > 0 {
        lemma_le_bytes_len(v / 256, (n - 1) as nat);
    }
}

/// Reading back what was written gives the number again, where it fits.
pub proof fn lemma_le_roundtrip(v: nat, n: nat)
    requires
        fits_in(v, n),
    ensures
        le_value(le_bytes(v, n)) == v,
    decreases n,
{
    if n > 0 {
        lemma_le_roundtrip(v / 256, (n - 1) as nat);
        lemma_le_bytes_len(v / 256, (n - 1) as nat);
        let rest = le_bytes(v / 256, (n - 1) as nat);
        let all = le_bytes(v, n);
        assert(all.drop_first() =~= rest);
        assert(all[0] == (v % 256) as u8);
    }
}

/// What `n` bytes spell fits in `n` bytes, and writing it gives the bytes again.
pub proof fn lemma_le_value_bytes(bytes: Seq<u8>)
    ensures
        fits_in(le_value(bytes), bytes.len()),
        le_bytes(le_value(bytes), bytes.len()) == bytes,
    decreases bytes.len(),
{
    if bytes.len() > 0 {
        let rest = bytes.drop_first();
        lemma_le_value_bytes(rest);
        let v = le_value(bytes);
        assert(v == bytes[0] as nat + 256 * le_value(rest));
        assert(v / 256 == le_value(rest));
        assert(v % 256 == bytes[0] as nat);
        assert(le_bytes(v, bytes.len()) =~= bytes);
    } else {
        assert(le_bytes(le_value(bytes), 0) =~= bytes);
    }
}

/// Every 16-bit number fits in two bytes.
pub proof fn lemma_u16_fits(v: u16)
    ensures
        fits_in(v as nat, 2),
{
    reveal_with_fuel(fits_in, 3);
}

/// Every 32-bit number fits in four bytes.
pub proof fn lemma_u32_fits(v: u32)
    ensures
        fits_in(v as nat, 4),
{
    reveal_with_fuel(fits_in, 5);
}

/// What `n` bytes spell is below `256^n`; stated for the widths in use.
pub proof fn lemma_le_value_bound(bytes: Seq<u8>)
    ensures
        bytes.len() == 2 ==> le_value(bytes) <= u16::MAX,
        bytes.len() == 4 ==> le_value(bytes) <= u32::MAX,
        bytes.len() == 8 ==> le_value(bytes) <= u64::MAX,
{
    lemma_le_value_bytes(bytes);
    reveal_with_fuel(fits_in, 9);
}

/// Appends the `n` low bytes of `v`, least significant first.
pub fn push_le(out: &mut Vec<u8>, v: u64, n: usize)
    requires
        n <= 8,
    ensures
        final(out)@ == old(out)@.add(le_bytes(v as nat, n as nat)),
{
    let mut rest: u64 = v;
    let mut k: usize = 0;
    let ghost mut done: Seq<u8> = Seq::empty();
    proof {
        assert(out@ =~= old(out)@.add(done));
        assert(done.add(le_bytes(rest as nat, n as nat)) =~= le_bytes(v as nat, n as nat));
    }
    while k < n
        invariant
            k <= n <= 8,
            out@ == old(out)@.add(done),
            done.add(le_bytes(rest as nat, (n - k) as nat)) == le_bytes(v as nat, n as nat),
        decreases n - k,
    {
        let b: u8 = (rest % 256) as u8;
        out.push(b);
        proof {
            let next = done.push(b);
            assert(out@ =~= old(out)@.add(next));
            assert(next.add(le_bytes((rest / 256) as nat, (n - k - 1) as nat)) =~= done.add(
                le_bytes(rest as nat, (n - k) as nat),
            ));
            done = next;
        }
        rest = rest / 256;
        k += 1;
    }
    proof {
        assert(done.add(le_bytes(rest as nat, 0)) =~= done);
    }
}

/// Reads the number that the `n` bytes from `at` on spell.
pub fn read_le(bytes: &Vec<u8>, at: usize, n: usize) -> (v: u64)
    requires
        n <= 8,
        at + n <= bytes.len(),
    ensures
        v as nat == le_value(bytes@.subrange(at as int, at + n)),
{
    let mut v: u64 = 0;
    let mut k: usize = n;
    assert(bytes@.subrange(at + n, at + n) =~= Seq::<u8>::empty());
    while k > 0
        invariant
            k <= n <= 8,
            at + n <= bytes.len(),
            v as nat == le_value(bytes@.subrange(at + k, at + n)),
        decreases k,
    {
        let ghost tail = bytes@.subrange(at + k, at + n);
        let ghost whole = bytes@.subrange(at + k - 1, at + n);
        proof {
            assert(whole.drop_first() =~= tail);
            lemma_le_value_bytes(tail);
            lemma_tail_bound(tail);
        }
        k -= 1;
        let b: u8 = bytes[at + k];
        v = v * 256 + (b as u64);
    }
    v
}

/// What at most seven bytes spell, times 256, still fits in 64 bits.
proof fn lemma_tail_bound(tail: Seq<u8>)
    requires
        tail.len() <= 7,
    ensures
        le_value(tail) * 256 + 255 <= u64::MAX,
    decreases tail.len(),
{
    lemma_le_value_bytes(tail);
    reveal_with_fuel(fits_in, 8);
}

} // verus!
