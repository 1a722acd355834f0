//! Integers as bytes, and byte streams held in memory.

use vstd::arithmetic::div_mod::lemma_div_denominator;
use vstd::arithmetic::power::{lemma_pow0, lemma_pow_positive, pow};
use vstd::prelude::*;

verus! {

/// The `width` lowest base-256 digits of `value`, least significant first.
pub open spec fn le(value: nat, width: nat) -> Seq<u8>
    decreases width,
{
    if width == 0 {
        Seq::empty()
    } else {
        seq![(value % 256) as u8] + le(value / 256, (width - 1) as nat)
    }
}

/// The number whose base-256 digits are `bytes`, least significant first.
pub open spec fn from_le(bytes: Seq<u8>) -> nat
    decreases bytes.len(),
{
    if bytes.len() == 0 {
        0
    } else {
        bytes[0] as nat + 256 * from_le(bytes.drop_first())
    }
}

/// 256 to the power of `width`: the count of numbers that `width` bytes can hold.
pub open spec fn le_limit(width: nat) -> nat
    decreases width,
{
    if width == 0 {
        1
    } else {
        256 * le_limit((width - 1) as nat)
    }
}

/// The 16-bit big-endian form of `value`, which wraps at 65536.
pub open spec fn be16(value: nat) -> Seq<u8> {
    seq![((value / 256) % 256) as u8, (value % 256) as u8]
}

/// The number that two big-endian bytes stand for.
pub open spec fn from_be16(hi: u8, lo: u8) -> nat {
    hi as nat * 256 + lo as nat
}

/// All parts, one after the other.
pub open spec fn concat(parts: Seq<Seq<u8>>) -> Seq<u8>
    decreases parts.len(),
{
    if parts.len() == 0 {
        Seq::empty()
    } else {
        concat(parts.drop_last()) + parts.last()
    }
}

/// Little-endian digits have the width that was asked for.
pub proof fn lemma_le_len(value: nat, width: nat)
    ensures
        le(value, width).len() == width,
    decreases width,
{
    if width > 0 {
        lemma_le_len(value / 256, (width - 1) as nat);
    }
}

/// Reading little-endian digits gives back the number, if the width can hold it.
pub proof fn law_le_round_trip(value: nat, width: nat)
    requires
        value < le_limit(width),
    ensures
        from_le(le(value, width)) == value,
    decreases width,
{
    if width > 0 {
        let rest = le(value / 256, (width - 1) as nat);
        law_le_round_trip(value / 256, (width - 1) as nat);
        assert(le(value, width).drop_first() =~= rest);
        assert(le(value, width)[0] == (value % 256) as u8);
    }
}

/// Eight bytes hold every `u64`, two every `u16`.
pub proof fn lemma_le_limits()
    ensures
        le_limit(2) == 0x1_0000,
        le_limit(8) == 0x1_0000_0000_0000_0000,
{
    reveal_with_fuel(le_limit, 9);
}

/// Reading a 16-bit big-endian length gives back the length, if 16 bits can hold it.
pub proof fn law_be16_round_trip(value: nat)
    requires
        value < 0x1_0000,
    ensures
        from_be16(be16(value)[0], be16(value)[1]) == value,
{
}

/// Concatenation distributes over joining two lists of parts.
pub proof fn lemma_concat_add(a: Seq<Seq<u8>>, b: Seq<Seq<u8>>)
    ensures
        concat(a + b) == concat(a) + concat(b),
    decreases b.len(),
{
    if b.len() == 0 {
        assert(a + b =~= a);
        assert(concat(a) + concat(b) =~= concat(a));
    } else {
        lemma_concat_add(a, b.drop_last());
        assert((a + b).drop_last() =~= a + b.drop_last());
        assert((a + b).last() == b.last());
        assert(concat(a + b) =~= concat(a) + concat(b));
    }
}

/// The eight little-endian bytes of `value`.
pub fn u64_le_bytes(value: u64) -> (r: Vec<u8>)
    ensures
        r@ == le(value as nat, 8),
{
    let mut out: Vec<u8> = Vec::new();
    let mut rest: u64 = value;
    let mut i: usize = 0;
    while i < 8
        invariant
            i <= 8,
            out@ + le(rest as nat, (8 - i) as nat) == le(value as nat, 8),
        decreases 8 - i,
    {
        let ghost before = out@;
        let ghost digits = le(rest as nat, (8 - i) as nat);
        out.push((rest % 256) as u8);
        proof {
            let tail = le(rest as nat / 256, (8 - i - 1) as nat);
            assert(digits == seq![(rest % 256) as u8] + tail);
            assert(out@ + tail =~= before + digits);
        }
        rest = rest / 256;
        i = i + 1;
    }
    assert(out@ + le(rest as nat, 0) =~= out@);
    out
}

/// A byte stream that is held in memory and read from front to back.
pub struct ByteReader {
    data: Vec<u8>,
    pos: usize,
}

/// The stream ended before all the requested bytes were there.
#[derive(Clone, Copy, Debug, PartialEq, Eq, Structural)]
pub struct UnexpectedEof;

impl View for ByteReader {
    type V = Seq<u8>;

    /// The bytes that have not been read yet.
    closed spec fn view(&self) -> Seq<u8> {
        self.data@.skip(self.pos as int)
    }
}

impl ByteReader {
    #[verifier::type_invariant]
    spec fn inv(self) -> bool {
        self.pos <= self.data@.len()
    }

    /// A stream that yields `data`.
    pub fn new(data: Vec<u8>) -> (r: Self)
        ensures
            r@ == data@,
    {
        let r = ByteReader { data, pos: 0 };
        assert(r@ =~= data@);
        r
    }

    /// How many bytes are left.
    pub fn remaining(&self) -> (r: usize)
        ensures
            r == self@.len(),
    {
        proof {
            use_type_invariant(self);
        }
        self.data.len() - self.pos
    }

    /// Takes exactly `count` bytes off the front. A stream with fewer bytes is drained.
    pub fn read_exact(&mut self, count: usize) -> (r: Result<Vec<u8>, UnexpectedEof>)
        ensures
            count <= old(self)@.len() ==> {
                &&& r matches Ok(bytes)
                &&& bytes@ == old(self)@.take(count as int)
                &&& final(self)@ == old(self)@.skip(count as int)
            },
            count > old(self)@.len() ==> r is Err && final(self)@ == Seq::<u8>::empty(),
    {
        proof {
            use_type_invariant(&*self);
        }
        let left: usize = self.data.len() - self.pos;
        if count > left {
            self.pos = self.data.len();
            assert(self@ =~= Seq::<u8>::empty());
            return Err(UnexpectedEof);
        }
        let start: usize = self.pos;
        let bytes: Vec<u8> = sub_vec(&self.data, start, start + count);
        self.pos = start + count;
        assert(bytes@ =~= old(self)@.take(count as int));
        assert(self@ =~= old(self)@.skip(count as int));
        Ok(bytes)
    }

    /// Takes everything that is left.
    pub fn read_to_end(&mut self) -> (r: Vec<u8>)
        ensures
            r@ == old(self)@,
            final(self)@ == Seq::<u8>::empty(),
    {
        let left: usize = self.remaining();
        match self.read_exact(left) {
            Ok(bytes) => {
                assert(old(self)@.take(left as int) =~= old(self)@);
                assert(old(self)@.skip(left as int) =~= Seq::<u8>::empty());
                bytes
            },
            Err(_) => Vec::new(),
        }
    }
}

/// Copies `src` into `dst` from `start` on.
pub fn copy_into(dst: &mut [u8], start: usize, src: &[u8])
    requires
        start + src@.len() <= old(dst)@.len(),
    ensures
        final(dst)@ == old(dst)@.take(start as int) + src@ + old(dst)@.skip(start + src@.len()),
{
    let room: usize = dst.len();
    let mut i: usize = 0;
    while i < src.len()
        invariant
            i <= src@.len(),
            start + src@.len() <= room,
            room == dst@.len(),
            room == old(dst)@.len(),
            dst@ == old(dst)@.take(start as int) + src@.take(i as int) + old(dst)@.skip(start + i),
        decreases src@.len() - i,
    {
        dst[start + i] = src[i];
        i = i + 1;
        assert(dst@ =~= old(dst)@.take(start as int) + src@.take(i as int) + old(dst)@.skip(
            start + i,
        ));
    }
    assert(src@.take(src@.len() as int) =~= src@);
}

/// The bytes of `src` from `from` up to `to`, as a vector of their own.
pub fn sub_vec(src: &[u8], from: usize, to: usize) -> (r: Vec<u8>)
    requires
        from <= to <= src@.len(),
    ensures
        r@ == src@.subrange(from as int, to as int),
{
    let mut out: Vec<u8> = Vec::new();
    let mut i: usize = from;
    while i < to
        invariant
            from <= i <= to <= src@.len(),
            out@ == src@.subrange(from as int, i as int),
        decreases to - i,
    {
        out.push(src[i]);
        i = i + 1;
        assert(out@ =~= src@.subrange(from as int, i as int));
    }
    out
}

/// Appends `src` to `dst`.
pub fn append_slice(dst: &mut Vec<u8>, src: &[u8])
    ensures
        final(dst)@ == old(dst)@ + src@,
{
    let mut i: usize = 0;
    while i < src.len()
        invariant
            i <= src@.len(),
            dst@ == old(dst)@ + src@.take(i as int),
        decreases src@.len() - i,
    {
        dst.push(src[i]);
        i = i + 1;
        assert(dst@ =~= old(dst)@ + src@.take(i as int));
    }
    assert(src@.take(src@.len() as int) =~= src@);
}

/// A copy of `src`.
pub fn copy_of(src: &[u8]) -> (r: Vec<u8>)
    ensures
        r@ == src@,
{
    let mut copy: Vec<u8> = Vec::new();
    append_slice(&mut copy, src);
    assert(copy@ =~= src@);
    copy
}

/// The digit number `i` of a little-endian number counts how often 256 to the power of `i` is in it.
pub proof fn law_le_digits(value: nat, width: nat, i: nat)
    requires
        i < width,
    ensures
        le(value, width).len() == width,
        le(value, width)[i as int] == (value as int / pow(256, i)) % 256,
    decreases width,
{
    lemma_le_len(value, width);
    lemma_pow_positive(256, i);
    if i == 0 {
        lemma_pow0(256);
        assert(value as int / 1 == value);
    } else {
        let rest = le(value / 256, (width - 1) as nat);
        lemma_le_len(value / 256, (width - 1) as nat);
        law_le_digits(value / 256, (width - 1) as nat, (i - 1) as nat);
        assert(le(value, width)[i as int] == rest[i - 1]);
        reveal(pow);
        assert(pow(256, i) == 256 * pow(256, (i - 1) as nat));
        lemma_pow_positive(256, (i - 1) as nat);
        lemma_div_denominator(value as int, 256, pow(256, (i - 1) as nat));
    }
}

/// Of two big-endian bytes the first counts 256 times as much as the second.
pub proof fn law_be16_digits(value: nat, hi: u8, lo: u8)
    ensures
        be16(value).len() == 2,
        be16(value)[0] * 256 + be16(value)[1] == value % 0x1_0000,
        from_be16(hi, lo) / 256 == hi,
        from_be16(hi, lo) % 256 == lo,
{
}

/// What is joined of parts is the parts, one after the other.
pub proof fn law_concat_joins(parts: Seq<Seq<u8>>, part: Seq<u8>)
    ensures
        concat(Seq::empty()) == Seq::<u8>::empty(),
        concat(seq![part]) == part,
        concat(parts.push(part)) == concat(parts) + part,
        concat(seq![part] + parts) == part + concat(parts),
{
    reveal_with_fuel(concat, 2);
    assert(seq![part].drop_last() =~= Seq::<Seq<u8>>::empty());
    assert(concat(seq![part]) =~= part);
    assert(parts.push(part).drop_last() =~= parts);
    lemma_concat_add(seq![part], parts);
}

} // verus!
