//! Unsigned integers as byte sequences, in either byte order.
use vstd::prelude::*;

verus! {

/// The order in which the bytes of an integer lie in memory.
#[derive(Clone, Copy, Debug, PartialEq, Eq, Structural)]
pub enum ByteOrder {
    /// Least significant byte first.
    Little,
    /// Most significant byte first; the order of the network.
    Big,
}

/// The number that `bytes` denotes, least significant byte first.
pub open spec fn le_value(bytes: Seq<u8>) -> nat
    decreases bytes.len(),
{
    if bytes.len() == 0 {
        0
    } else {
        bytes[0] as nat + 256 * le_value(bytes.skip(1))
    }
}

/// The number that `bytes` denotes in the given order.
pub open spec fn value(order: ByteOrder, bytes: Seq<u8>) -> nat {
    match order {
        ByteOrder::Little => le_value(bytes),
        ByteOrder::Big => le_value(bytes.reverse()),
    }
}

/// The lowest `n` bytes of `v`, least significant first.
pub open spec fn le_bytes(v: nat, n: nat) -> Seq<u8>
    decreases n,
{
    if n == 0 {
        Seq::empty()
    } else {
        seq![(v % 256) as u8] + le_bytes(v / 256, (n - 1) as nat)
    }
}

/// The lowest `n` bytes of `v` in the given order.
pub open spec fn bytes_of(order: ByteOrder, v: nat, n: nat) -> Seq<u8> {
    match order {
        ByteOrder::Little => le_bytes(v, n),
        ByteOrder::Big => le_bytes(v, n).reverse(),
    }
}

/// How many numbers `n` bytes can tell apart.
pub open spec fn capacity(n: nat) -> nat
    decreases n,
{
    if n == 0 {
        1
    } else {
        256 * capacity((n - 1) as nat)
    }
}

/// The capacities of the widths in use.
pub proof fn lemma_capacities()
    ensures
        capacity(2) == 0x1_0000,
        capacity(4) == 0x1_0000_0000,
        capacity(7) == 0x100_0000_0000_0000,
        capacity(8) == 0x1_0000_0000_0000_0000,
{
    reveal_with_fuel(capacity, 9);
}

/// A wider field holds at least as much.
pub proof fn lemma_capacity_grows(n: nat, m: nat)
    requires
        n <= m,
    ensures
        capacity(n) <= capacity(m),
    decreases m - n,
{
    if n < m {
        lemma_capacity_grows(n, (m - 1) as nat);
    }
}

proof fn lemma_le_value_bound(bytes: Seq<u8>)
    ensures
        le_value(bytes) < capacity(bytes.len()),
    decreases bytes.len(),
{
    if bytes.len() > 0 {
        lemma_le_value_bound(bytes.skip(1));
    }
}

/// What `n` bytes denote is below their capacity.
pub proof fn lemma_value_bound(order: ByteOrder, bytes: Seq<u8>)
    ensures
        value(order, bytes) < capacity(bytes.len()),
{
    lemma_le_value_bound(bytes);
    lemma_le_value_bound(bytes.reverse());
}

/// Encoding to `n` bytes gives `n` bytes.
pub proof fn lemma_bytes_of_len(order: ByteOrder, v: nat, n: nat)
    ensures
        bytes_of(order, v, n).len() == n,
{
    lemma_le_bytes_len(v, n);
}

proof fn lemma_le_bytes_len(v: nat, n: nat)
    ensures
        le_bytes(v, n).len() == n,
    decreases n,
{
    if n > 0 {
        lemma_le_bytes_len(v / 256, (n - 1) as nat);
    }
}

proof fn lemma_le_decode_encode(v: nat, n: nat)
    requires
        v < capacity(n),
    ensures
        le_value(le_bytes(v, n)) == v,
    decreases n,
{
    if n > 0 {
        lemma_le_decode_encode(v / 256, (n - 1) as nat);
        assert(le_bytes(v, n).skip(1) =~= le_bytes(v / 256, (n - 1) as nat));
    }
}

/// Decoding what was encoded gives the number back, in either order, as long
/// as the number fits the field.
pub proof fn law_decode_undoes_encode(order: ByteOrder, v: nat, n: nat)
    requires
        v < capacity(n),
    ensures
        value(order, bytes_of(order, v, n)) == v,
{
    lemma_le_decode_encode(v, n);
    assert(le_bytes(v, n).reverse().reverse() =~= le_bytes(v, n));
}

proof fn lemma_le_encode_decode(bytes: Seq<u8>)
    ensures
        le_bytes(le_value(bytes), bytes.len()) == bytes,
    decreases bytes.len(),
{
    if bytes.len() > 0 {
        let rest = bytes.skip(1);
        lemma_le_encode_decode(rest);
        let v = le_value(bytes);
        assert(v / 256 == le_value(rest));
        assert(v % 256 == bytes[0]);
        assert(le_bytes(v, bytes.len()) =~= bytes);
    } else {
        assert(le_bytes(le_value(bytes), bytes.len()) =~= bytes);
    }
}

/// Encoding what was decoded gives the bytes back, in either order.
pub proof fn law_encode_undoes_decode(order: ByteOrder, bytes: Seq<u8>)
    ensures
        bytes_of(order, value(order, bytes), bytes.len()) == bytes,
{
    lemma_le_encode_decode(bytes);
    lemma_le_encode_decode(bytes.reverse());
    assert(bytes.reverse().reverse() =~= bytes);
}

/// Reads the `n`-byte unsigned integer that starts at `at`.
pub fn read_uint(order: ByteOrder, buf: &[u8], at: usize, n: usize) -> (v: u64)
    requires
        n <= 8,
        at + n <= buf@.len(),
    ensures
        v == value(order, buf@.subrange(at as int, at + n)),
{
    proof {
        lemma_capacities();
        assert(buf@.len() == buf.len());
    }
    let mut acc: u64 = 0;
    match order {
        ByteOrder::Little => {
            let mut i: usize = n;
            assert(buf@.subrange(at + i, at + n) =~= Seq::empty());
            while i > 0
                invariant
                    i <= n <= 8,
                    at + n <= buf@.len() <= usize::MAX,
                    acc == le_value(buf@.subrange(at + i, at + n)),
                    capacity(7) == 0x100_0000_0000_0000,
                decreases i,
            {
                proof {
                    let done = buf@.subrange(at + i, at + n);
                    lemma_le_value_bound(done);
                    lemma_capacity_grows(done.len(), 7);
                    assert(buf@.subrange(at + i - 1, at + n).skip(1) =~= done);
                }
                i = i - 1;
                acc = acc * 256 + buf[at + i] as u64;
            }
        },
        ByteOrder::Big => {
            let mut i: usize = 0;
            assert(buf@.subrange(at as int, at + i).reverse() =~= Seq::empty());
            while i < n
                invariant
                    i <= n <= 8,
                    at + n <= buf@.len() <= usize::MAX,
                    acc == le_value(buf@.subrange(at as int, at + i).reverse()),
                    capacity(7) == 0x100_0000_0000_0000,
                decreases n - i,
            {
                proof {
                    let done = buf@.subrange(at as int, at + i).reverse();
                    lemma_le_value_bound(done);
                    lemma_capacity_grows(done.len(), 7);
                    assert(buf@.subrange(at as int, at + i + 1).reverse().skip(1) =~= done);
                }
                acc = acc * 256 + buf[at + i] as u64;
                i = i + 1;
            }
        },
    }
    acc
}

/// Appends the lowest `n` bytes of `v`.
pub fn push_uint(out: &mut Vec<u8>, order: ByteOrder, v: u64, n: usize)
    ensures
        final(out)@ == old(out)@ + bytes_of(order, v as nat, n as nat),
{
    let mut digits: Vec<u8> = Vec::new();
    let mut rest: u64 = v;
    let mut i: usize = 0;
    while i < n
        invariant
            i <= n,
            digits@.len() == i,
            digits@ + le_bytes(rest as nat, (n - i) as nat) == le_bytes(v as nat, n as nat),
        decreases n - i,
    {
        let ghost before = digits@;
        digits.push((rest % 256) as u8);
        proof {
            let tail = le_bytes(rest as nat / 256, (n - i - 1) as nat);
            assert(before + le_bytes(rest as nat, (n - i) as nat) =~= digits@ + tail);
        }
        rest = rest / 256;
        i = i + 1;
    }
    assert(digits@ =~= le_bytes(v as nat, n as nat));
    let ghost start = out@;
    let mut j: usize = 0;
    while j < n
        invariant
            j <= n,
            digits@.len() == n,
            digits@ == le_bytes(v as nat, n as nat),
            out@ == start + bytes_of(order, v as nat, n as nat).take(j as int),
        decreases n - j,
    {
        let b: u8 = match order {
            ByteOrder::Little => digits[j],
            ByteOrder::Big => digits[n - 1 - j],
        };
        out.push(b);
        proof {
            let all = bytes_of(order, v as nat, n as nat);
            assert(all.take(j + 1) =~= all.take(j as int).push(b));
        }
        j = j + 1;
    }
    proof {
        let all = bytes_of(order, v as nat, n as nat);
        assert(all.take(n as int) =~= all);
    }
}

/// `n` zero bytes.
pub open spec fn zeros(n: nat) -> Seq<u8> {
    Seq::new(n, |i: int| 0u8)
}

/// Appends `n` zero bytes.
pub fn push_zeros(out: &mut Vec<u8>, n: usize)
    ensures
        final(out)@ == old(out)@ + zeros(n as nat),
{
    let ghost start = out@;
    let mut i: usize = 0;
    assert(start + zeros(0) =~= start);
    while i < n
        invariant
            i <= n,
            out@ == start + zeros(i as nat),
        decreases n - i,
    {
        out.push(0);
        i = i + 1;
        assert(out@ =~= start + zeros(i as nat));
    }
}

/// Every byte of a number weighs 256 times as much as its less significant
/// neighbour: the least significant byte stands first or last, by the order.
pub proof fn law_value_by_digits(order: ByteOrder, b: Seq<u8>)
    ensures
        b.len() == 0 ==> value(order, b) == 0,
        b.len() > 0 && order is Little ==> value(order, b) == b[0] + 256 * value(order, b.skip(1)),
        b.len() > 0 && order is Big ==> value(order, b) == 256 * value(order, b.drop_last())
            + b.last(),
{
    if b.len() > 0 {
        assert(b.reverse().skip(1) =~= b.drop_last().reverse());
    }
}

/// Two bytes in network order are a high and a low byte; in the other order they
/// are swapped.
pub proof fn law_two_bytes(b: Seq<u8>)
    requires
        b.len() == 2,
    ensures
        value(ByteOrder::Big, b) == b[0] * 256 + b[1],
        value(ByteOrder::Little, b) == b[0] + b[1] * 256,
{
    let (big, little) = (b.drop_last(), b.skip(1));
    law_value_by_digits(ByteOrder::Big, b);
    law_value_by_digits(ByteOrder::Big, big);
    law_value_by_digits(ByteOrder::Big, big.drop_last());
    law_value_by_digits(ByteOrder::Little, b);
    law_value_by_digits(ByteOrder::Little, little);
    law_value_by_digits(ByteOrder::Little, little.skip(1));
}

/// Four bytes are read from the most significant down in network order, and from
/// the least significant up in the other.
pub proof fn law_four_bytes(b: Seq<u8>)
    requires
        b.len() == 4,
    ensures
        value(ByteOrder::Big, b) == b[0] * 0x100_0000 + b[1] * 0x1_0000 + b[2] * 0x100 + b[3],
        value(ByteOrder::Little, b) == b[0] + b[1] * 0x100 + b[2] * 0x1_0000 + b[3] * 0x100_0000,
{
    let (big, little) = (b.take(2), b.skip(2));
    law_two_bytes(big);
    law_two_bytes(little);
    law_value_by_digits(ByteOrder::Big, b);
    law_value_by_digits(ByteOrder::Big, b.drop_last());
    assert(b.drop_last().drop_last() =~= big);
    law_value_by_digits(ByteOrder::Little, b);
    law_value_by_digits(ByteOrder::Little, b.skip(1));
    assert(b.skip(1).skip(1) =~= little);
}

/// Writing a number to `n` bytes puts down its remainder by 256, first or last by
/// the order, and beside it the quotient in the other bytes.
pub proof fn law_bytes_by_digits(order: ByteOrder, v: nat, n: nat)
    ensures
        bytes_of(order, v, n).len() == n,
        n > 0 && order is Little ==> bytes_of(order, v, n)[0] == v % 256 && bytes_of(
            order,
            v,
            n,
        ).skip(1) == bytes_of(order, v / 256, (n - 1) as nat),
        n > 0 && order is Big ==> bytes_of(order, v, n).last() == v % 256 && bytes_of(
            order,
            v,
            n,
        ).drop_last() == bytes_of(order, v / 256, (n - 1) as nat),
{
    lemma_bytes_of_len(order, v, n);
    if n > 0 {
        let rest = le_bytes(v / 256, (n - 1) as nat);
        lemma_le_bytes_len(v / 256, (n - 1) as nat);
        assert(le_bytes(v, n).skip(1) =~= rest);
        assert(le_bytes(v, n).reverse().drop_last() =~= rest.reverse());
    }
}

/// A number that fits two bytes is written as its quotient and its remainder by
/// 256, the quotient first in network order.
pub proof fn law_two_digits(v: nat)
    requires
        v < 0x1_0000,
    ensures
        bytes_of(ByteOrder::Big, v, 2) == seq![(v / 256) as u8, (v % 256) as u8],
        bytes_of(ByteOrder::Little, v, 2) == seq![(v % 256) as u8, (v / 256) as u8],
{
    law_bytes_by_digits(ByteOrder::Big, v, 2);
    law_bytes_by_digits(ByteOrder::Big, v / 256, 1);
    law_bytes_by_digits(ByteOrder::Little, v, 2);
    law_bytes_by_digits(ByteOrder::Little, v / 256, 1);
    let (big, little) = (bytes_of(ByteOrder::Big, v, 2), bytes_of(ByteOrder::Little, v, 2));
    assert(big.drop_last()[0] == big[0]);
    assert(little.skip(1)[0] == little[1]);
}

/// What is read of a buffer is the number in just the bytes asked for: every byte
/// of them counts, and none beside them.
pub proof fn law_read_is_local(
    order: ByteOrder,
    a: &[u8],
    b: &[u8],
    at: usize,
    n: usize,
    v: u64,
    w: u64,
)
    requires
        n <= 8,
        at + n <= a@.len(),
        at + n <= b@.len(),
        call_ensures(read_uint, (order, a, at, n), v),
        call_ensures(read_uint, (order, b, at, n), w),
    ensures
        v == w <==> a@.subrange(at as int, at + n) == b@.subrange(at as int, at + n),
{
    law_encode_undoes_decode(order, a@.subrange(at as int, at + n));
    law_encode_undoes_decode(order, b@.subrange(at as int, at + n));
}

/// Zero bytes are zero, all of them.
pub proof fn law_zeros(n: nat)
    ensures
        zeros(n).len() == n,
        forall|i: int| 0 <= i < n ==> #[trigger] zeros(n)[i] == 0,
{
}

} // verus!
