//! Byte strings: comparison, copying and fixed width integers.
use vstd::prelude::*;

verus! {

/// The number that `bytes` spells with the most significant byte first.
pub open spec fn be_value(bytes: Seq<u8>) -> nat
    decreases bytes.len(),
{
    if bytes.len() == 0 {
        0
    } else {
        be_value(bytes.drop_last()) * 256 + bytes.last() as nat
    }
}

/// The number that `bytes` spells with the least significant byte first.
pub open spec fn le_value(bytes: Seq<u8>) -> nat
    decreases bytes.len(),
{
    if bytes.len() == 0 {
        0
    } else {
        bytes.first() as nat + 256 * le_value(bytes.drop_first())
    }
}

/// The lowest `count` bytes of `value`, most significant byte first.
pub open spec fn be_bytes(value: nat, count: nat) -> Seq<u8>
    decreases count,
{
    if count == 0 {
        Seq::empty()
    } else {
        be_bytes(value / 256, (count - 1) as nat).push((value % 256) as u8)
    }
}

/// The lowest `count` bytes of `value`, least significant byte first.
pub open spec fn le_bytes(value: nat, count: nat) -> Seq<u8>
    decreases count,
{
    if count == 0 {
        Seq::empty()
    } else {
        seq![(value % 256) as u8] + le_bytes(value / 256, (count - 1) as nat)
    }
}

/// `buffer` with the bytes from `at` on replaced by `bytes`.
pub open spec fn overwrite(buffer: Seq<u8>, at: int, bytes: Seq<u8>) -> Seq<u8> {
    Seq::new(
        buffer.len(),
        |i: int|
            if at <= i < at + bytes.len() {
                bytes[i - at]
            } else {
                buffer[i]
            },
    )
}

/// The number that two bytes spell.
pub proof fn lemma_be_value_pair(bytes: Seq<u8>)
    requires
        bytes.len() == 2,
    ensures
        be_value(bytes) == bytes[0] * 256 + bytes[1],
{
    reveal_with_fuel(be_value, 3);
    assert(bytes.drop_last().drop_last() =~= Seq::<u8>::empty());
    assert(bytes.drop_last().last() == bytes[0]);
}

/// Compare two byte strings.
pub fn bytes_equal(a: &[u8], b: &[u8]) -> (equal: bool)
    ensures
        equal == (a@ == b@),
{
    if a.len() != b.len() {
        return false;
    }
    let mut i: usize = 0;
    while i < a.len()
        invariant
            a@.len() == b@.len(),
            i <= a@.len(),
            forall|j: int| 0 <= j < i ==> a@[j] == b@[j],
        decreases a@.len() - i,
    {
        if a[i] != b[i] {
            return false;
        }
        i = i + 1;
    }
    assert(a@ =~= b@);
    true
}

/// Copy a byte string of known length into an array.
pub fn to_array<const N: usize>(bytes: &[u8]) -> (array: [u8; N])
    requires
        bytes@.len() == N,
    ensures
        array@ == bytes@,
{
    let mut array: [u8; N] = [0; N];
    let mut i: usize = 0;
    while i < N
        invariant
            i <= N,
            bytes@.len() == N,
            forall|j: int| 0 <= j < i ==> array@[j] == bytes@[j],
        decreases N - i,
    {
        array[i] = bytes[i];
        i = i + 1;
    }
    assert(array@ =~= bytes@);
    array
}

/// The 16 bit number at `at`, most significant byte first.
pub fn read_be16(bytes: &[u8], at: usize) -> (value: u16)
    requires
        at + 2 <= bytes@.len(),
    ensures
        value as nat == be_value(bytes@.subrange(at as int, at + 2)),
{
    proof {
        lemma_be_value_pair(bytes@.subrange(at as int, at + 2));
    }
    (bytes[at] as u16) * 256 + bytes[at + 1] as u16
}

/// The 64 bit number at `at`, most significant byte first.
pub fn read_be64(bytes: &[u8], at: usize) -> (value: u64)
    requires
        at + 8 <= bytes@.len(),
    ensures
        value as nat == be_value(bytes@.subrange(at as int, at + 8)),
{
    let length: usize = bytes.len();
    let mut value: u64 = 0;
    let mut i: usize = 0;
    proof {
        assert(bytes@.subrange(at as int, at as int) =~= Seq::<u8>::empty());
        assert(pow256(0) == 1);
    }
    while i < 8
        invariant
            at + 8 <= length,
            length == bytes@.len(),
            i <= 8,
            value as nat == be_value(bytes@.subrange(at as int, at + i)),
            (value as nat) < pow256(i as nat),
        decreases 8 - i,
    {
        proof {
            reveal_with_fuel(pow256, 9);
            let s = bytes@.subrange(at as int, at + i + 1);
            assert(s.drop_last() =~= bytes@.subrange(at as int, at + i));
            assert(s.last() == bytes@[at + i]);
        }
        value = value * 256 + bytes[at + i] as u64;
        i = i + 1;
    }
    value
}

/// 256 to the power of `n`.
pub open spec fn pow256(n: nat) -> nat
    decreases n,
{
    if n == 0 {
        1
    } else {
        256 * pow256((n - 1) as nat)
    }
}

/// The number of bytes asked for is the number of bytes made.
pub proof fn lemma_be_bytes_length(value: nat, count: nat)
    ensures
        be_bytes(value, count).len() == count,
    decreases count,
{
    if count > 0 {
        lemma_be_bytes_length(value / 256, (count - 1) as nat);
    }
}

/// The number of bytes asked for is the number of bytes made.
pub broadcast proof fn lemma_le_bytes_length(value: nat, count: nat)
    ensures
        (#[trigger] le_bytes(value, count)).len() == count,
    decreases count,
{
    if count > 0 {
        lemma_le_bytes_length(value / 256, (count - 1) as nat);
    }
}

/// The number in `count` bytes is the number they were made from, if it fits.
pub proof fn lemma_le_round_trip(value: nat, count: nat)
    requires
        value < pow256(count),
    ensures
        le_bytes(value, count).len() == count,
        le_value(le_bytes(value, count)) == value,
    decreases count,
{
    if count > 0 {
        let rest = (count - 1) as nat;
        assert(value / 256 < pow256(rest)) by (nonlinear_arith)
            requires
                value < 256 * pow256(rest),
        ;
        lemma_le_round_trip(value / 256, rest);
        let bytes = le_bytes(value, count);
        assert(bytes.drop_first() =~= le_bytes(value / 256, rest));
        assert(bytes.first() == (value % 256) as u8);
    }
}

/// The number in `count` bytes is the number they were made from, if it fits.
pub proof fn lemma_be_round_trip(value: nat, count: nat)
    requires
        value < pow256(count),
    ensures
        be_bytes(value, count).len() == count,
        be_value(be_bytes(value, count)) == value,
    decreases count,
{
    if count > 0 {
        let rest = (count - 1) as nat;
        assert(value / 256 < pow256(rest)) by (nonlinear_arith)
            requires
                value < 256 * pow256(rest),
        ;
        lemma_be_round_trip(value / 256, rest);
        let bytes = be_bytes(value, count);
        assert(bytes.drop_last() =~= be_bytes(value / 256, rest));
        assert(bytes.last() == (value % 256) as u8);
    }
}

/// Bytes are made again from the number that they spell.
pub proof fn lemma_be_bytes_of_value(bytes: Seq<u8>)
    ensures
        be_bytes(be_value(bytes), bytes.len()) == bytes,
        be_value(bytes) < pow256(bytes.len()),
    decreases bytes.len(),
{
    if bytes.len() > 0 {
        let rest = bytes.drop_last();
        lemma_be_bytes_of_value(rest);
        assert(be_value(bytes) / 256 == be_value(rest));
        assert(be_value(bytes) % 256 == bytes.last());
        assert(be_bytes(be_value(bytes), bytes.len()) =~= bytes);
    } else {
        assert(be_bytes(0, 0) =~= bytes);
    }
}

/// Different byte strings of one length spell different numbers.
pub proof fn lemma_be_value_is_injective(a: Seq<u8>, b: Seq<u8>)
    requires
        a.len() == b.len(),
        be_value(a) == be_value(b),
    ensures
        a == b,
{
    lemma_be_bytes_of_value(a);
    lemma_be_bytes_of_value(b);
}

/// The 16 bit number at `at`, least significant byte first.
pub fn read_le16(bytes: &[u8], at: usize) -> (value: u16)
    requires
        at + 2 <= bytes@.len(),
    ensures
        value as nat == le_value(bytes@.subrange(at as int, at + 2)),
{
    proof {
        let s = bytes@.subrange(at as int, at + 2);
        reveal_with_fuel(le_value, 3);
        assert(s.drop_first().drop_first() =~= Seq::<u8>::empty());
        assert(s.drop_first().first() == s[1]);
    }
    bytes[at] as u16 + (bytes[at + 1] as u16) * 256
}

/// The 48 bit number at `at`, least significant byte first.
pub fn read_le48(bytes: &[u8], at: usize) -> (value: u64)
    requires
        at + 6 <= bytes@.len(),
    ensures
        value as nat == le_value(bytes@.subrange(at as int, at + 6)),
{
    let length: usize = bytes.len();
    let mut value: u64 = 0;
    let mut i: usize = 6;
    proof {
        assert(bytes@.subrange(at + 6, at + 6) =~= Seq::<u8>::empty());
        assert(pow256(0) == 1);
    }
    while i > 0
        invariant
            at + 6 <= length,
            length == bytes@.len(),
            i <= 6,
            value as nat == le_value(bytes@.subrange(at + i, at + 6)),
            (value as nat) < pow256((6 - i) as nat),
        decreases i,
    {
        i = i - 1;
        proof {
            reveal_with_fuel(pow256, 7);
            let s = bytes@.subrange(at + i, at + 6);
            assert(s.drop_first() =~= bytes@.subrange(at + i + 1, at + 6));
            assert(s.first() == bytes@[at + i]);
        }
        value = bytes[at + i] as u64 + 256 * value;
    }
    value
}

/// Move the bytes from `start` to `end` so that they start at `at`.
pub fn move_bytes(buffer: &mut [u8], start: usize, end: usize, at: usize)
    requires
        start <= end <= old(buffer)@.len(),
        at + (end - start) <= old(buffer)@.len(),
    ensures
        final(buffer)@ == overwrite(
            old(buffer)@,
            at as int,
            old(buffer)@.subrange(start as int, end as int),
        ),
{
    let count: usize = end - start;
    let length: usize = buffer.len();
    let ghost before = buffer@;
    if at <= start {
        let mut i: usize = 0;
        while i < count
            invariant
                i <= count,
                count == end - start,
                at <= start,
                length == before.len(),
                end <= before.len(),
                buffer@.len() == before.len(),
                forall|j: int|
                    0 <= j < before.len() ==> buffer@[j] == if at <= j < at + i {
                        before[start + (j - at)]
                    } else {
                        before[j]
                    },
            decreases count - i,
        {
            buffer[at + i] = buffer[start + i];
            i = i + 1;
        }
    } else {
        let mut i: usize = count;
        while i > 0
            invariant
                i <= count,
                count == end - start,
                at > start,
                length == before.len(),
                end <= before.len(),
                at + count <= before.len(),
                buffer@.len() == before.len(),
                forall|j: int|
                    0 <= j < before.len() ==> buffer@[j] == if at + i <= j < at + count {
                        before[start + (j - at)]
                    } else {
                        before[j]
                    },
            decreases i,
        {
            i = i - 1;
            buffer[at + i] = buffer[start + i];
        }
    }
    assert(buffer@ =~= overwrite(before, at as int, before.subrange(start as int, end as int)));
}

/// Copy `bytes` into a buffer, from `at` on.
pub fn write_bytes(buffer: &mut [u8], at: usize, bytes: &[u8])
    requires
        at + bytes@.len() <= old(buffer)@.len(),
    ensures
        final(buffer)@ == overwrite(old(buffer)@, at as int, bytes@),
{
    let length: usize = buffer.len();
    let ghost before = buffer@;
    let mut i: usize = 0;
    while i < bytes.len()
        invariant
            i <= bytes@.len(),
            at + bytes@.len() <= length,
            length == before.len(),
            buffer@.len() == before.len(),
            forall|j: int|
                0 <= j < before.len() ==> buffer@[j] == if at <= j < at + i {
                    bytes@[j - at]
                } else {
                    before[j]
                },
        decreases bytes@.len() - i,
    {
        buffer[at + i] = bytes[i];
        i = i + 1;
    }
    assert(buffer@ =~= overwrite(before, at as int, bytes@));
}

} // verus!
