//! Big-endian numbers on the wire.

use vstd::prelude::*;

verus! {

/// The number that big-endian bytes stand for.
pub open spec fn be_value(bytes: Seq<u8>) -> nat
    decreases bytes.len(),
{
    if bytes.len() == 0 {
        0
    } else {
        256 * be_value(bytes.drop_last()) + bytes.last() as nat
    }
}

/// The lowest `width` bytes of a number, the highest first.
pub open spec fn be_bytes(n: nat, width: nat) -> Seq<u8>
    decreases width,
{
    if width == 0 {
        seq![]
    } else {
        be_bytes(n / 256, (width - 1) as nat).push((n % 256) as u8)
    }
}

/// The number of values that `width` bytes can hold.
pub open spec fn be_limit(width: nat) -> nat
    decreases width,
{
    if width == 0 {
        1
    } else {
        256 * be_limit((width - 1) as nat)
    }
}

/// A number in `width` bytes takes `width` bytes, and reading them back gives the number where it
/// fits.
pub proof fn law_be_round_trip(n: nat, width: nat)
    ensures
        be_bytes(n, width).len() == width,
        n < be_limit(width) ==> be_value(be_bytes(n, width)) == n,
    decreases width,
{
    if width > 0 {
        law_be_round_trip(n / 256, (width - 1) as nat);
        assert(be_bytes(n, width).drop_last() =~= be_bytes(n / 256, (width - 1) as nat));
    }
}

/// Reading bytes and writing the number in as many bytes gives the bytes back.
pub proof fn law_be_bytes_of_value(bytes: Seq<u8>)
    ensures
        be_value(bytes) < be_limit(bytes.len()),
        be_bytes(be_value(bytes), bytes.len()) == bytes,
    decreases bytes.len(),
{
    if bytes.len() > 0 {
        law_be_bytes_of_value(bytes.drop_last());
        let n = be_value(bytes);
        assert(n / 256 == be_value(bytes.drop_last()));
        assert(n % 256 == bytes.last());
        assert(be_bytes(n, bytes.len()) =~= bytes);
    }
}

pub(crate) proof fn lemma_limits()
    ensures
        be_limit(0) == 1,
        be_limit(1) == 0x100,
        be_limit(2) == 0x1_0000,
        be_limit(4) == 0x1_0000_0000,
        be_limit(8) == 0x1_0000_0000_0000_0000,
{
    reveal_with_fuel(be_limit, 9);
}

/// A number in `width` bytes, the highest first.
pub fn to_be(n: u64, width: usize) -> (result: Vec<u8>)
    ensures
        result@ == be_bytes(n as nat, width as nat),
    decreases width,
{
    if width == 0 {
        Vec::new()
    } else {
        let mut result = to_be(n / 256, width - 1);
        result.push((n % 256) as u8);
        result
    }
}

/// The number that at most eight big-endian bytes stand for.
pub fn from_be(bytes: &[u8]) -> (result: u64)
    requires
        bytes@.len() <= 8,
    ensures
        result == be_value(bytes@),
{
    let mut result: u64 = 0;
    let mut i: usize = 0;
    while i < bytes.len()
        invariant
            i <= bytes@.len() <= 8,
            result == be_value(bytes@.take(i as int)),
        decreases bytes@.len() - i,
    {
        proof {
            law_be_bytes_of_value(bytes@.take(i as int));
            lemma_limits();
            reveal_with_fuel(be_limit, 9);
            assert(result < 0x100_0000_0000_0000);
            assert(bytes@.take(i + 1).drop_last() =~= bytes@.take(i as int));
        }
        result = result * 256 + bytes[i] as u64;
        i += 1;
    }
    assert(bytes@.take(i as int) =~= bytes@);
    result
}

/// The first byte counts most: it is worth itself times the number of values that the bytes after
/// it can hold, which is 256 for one byte and 256 times as many for each more.
pub proof fn law_first_byte_counts_most(first: u8, rest: Seq<u8>)
    ensures
        be_value(seq![first] + rest) == first as nat * be_limit(rest.len()) + be_value(rest),
        be_value(seq![first]) == first,
        be_limit(rest.len() + 1) == 256 * be_limit(rest.len()),
        be_limit(0) == 1,
    decreases rest.len(),
{
    let all = seq![first] + rest;
    reveal_with_fuel(be_value, 2);
    assert(seq![first].drop_last() =~= Seq::<u8>::empty());
    if rest.len() == 0 {
        assert(all =~= seq![first]);
        assert(first as nat * be_limit(0) == first) by (nonlinear_arith)
            requires
                be_limit(0) == 1,
        ;
    } else {
        let front = rest.drop_last();
        assert(all.drop_last() =~= seq![first] + front);
        assert(all.last() == rest.last());
        law_first_byte_counts_most(first, front);
        let f = first as nat;
        let l = be_limit(front.len());
        assert(256 * (f * l) == f * (256 * l)) by (nonlinear_arith);
    }
}

/// Writing and reading numbers of one to eight bytes is exact.
pub proof fn law_numbers_come_back(n: u64, width: usize, bytes: Vec<u8>, given: &[u8], read: u64)
    requires
        call_ensures(to_be, (n, width), bytes),
        call_ensures(from_be, (given,), read),
        given@.len() <= 8,
    ensures
        bytes@.len() == width,
        n < be_limit(width as nat) ==> be_value(bytes@) == n,
        read == be_value(given@),
{
    law_be_round_trip(n as nat, width as nat);
}

/// Four bytes are a number with its highest byte first.
pub proof fn law_four_bytes(bytes: Seq<u8>, n: nat)
    requires
        bytes.len() == 4,
        n < 0x1_0000_0000,
    ensures
        be_value(bytes) == 0x100_0000 * bytes[0] + 0x1_0000 * bytes[1] + 0x100 * bytes[2]
            + bytes[3],
        be_bytes(n, 4) == seq![
            (n / 0x100_0000) as u8,
            (n / 0x1_0000 % 0x100) as u8,
            (n / 0x100 % 0x100) as u8,
            (n % 0x100) as u8,
        ],
{
    reveal_with_fuel(be_value, 5);
    reveal_with_fuel(be_bytes, 5);
    assert(n / 256 / 256 == n / 0x1_0000);
    assert(n / 256 / 256 / 256 == n / 0x100_0000);
    assert(n / 0x100_0000 % 256 == n / 0x100_0000);
    assert(be_bytes(n, 4) =~= seq![
        (n / 0x100_0000) as u8,
        (n / 0x1_0000 % 0x100) as u8,
        (n / 0x100 % 0x100) as u8,
        (n % 0x100) as u8,
    ]);
}

} // verus!
