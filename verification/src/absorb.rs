//! Canonical, machine-independent encoding of values into sponge words.
//!
//! The encoding doubles as the wire format any interoperating implementation
//! must reproduce: fixed-width integers are little-endian, booleans are one
//! byte, sequences are length-prefixed with a 64-bit little-endian length,
//! optional values carry a one-byte presence tag, and tagged unions carry
//! their variant index in the smallest width that can index the variant
//! count.

use vstd::prelude::*;

use crate::duplex::Duplex;
use crate::duplex::SpongeOp;
use crate::duplex::lemma_writes_concat;
use crate::duplex::writes;
use crate::signed::i128_to_u128;
use crate::signed::i16_to_u16;
use crate::signed::i32_to_u32;
use crate::signed::i64_to_u64;
use crate::signed::i8_to_u8;
use crate::signed::u128_of_i128;
use crate::signed::u16_of_i16;
use crate::signed::u32_of_i32;
use crate::signed::u64_of_i64;
use crate::signed::u8_of_i8;
use vstd::string::StringSliceAdditionalSpecFns;

verus! {

/// A sink for absorbed words.
pub trait Hasher: Duplex {
    /// Absorb the words of `buf`, in order.
    fn write(&mut self, buf: &[u8])
        ensures
            final(self).log() == old(self).log() + writes(buf@),
    ;
}

/// A value with a canonical encoding into a sequence of sponge words.
///
/// The encoding is a pure function of the value: it never depends on host
/// byte order, addresses, or iteration order.
pub trait Absorb {
    /// The canonical word encoding of the value.
    spec fn enc(&self) -> Seq<u8>;

    /// Append the canonical encoding of `self` to the sink.
    fn absorb<H: Hasher>(&self, h: &mut H)
        ensures
            final(h).log() == old(h).log() + writes(self.enc()),
    ;
}

impl Duplex for Vec<u8> {
    open spec fn log(&self) -> Seq<SpongeOp> {
        writes(self@)
    }
}

/// A plain byte vector is a sink: absorbing into it just collects the
/// absorbed words, which is how encodings are compared in isolation.
impl Hasher for Vec<u8> {
    fn write(&mut self, buf: &[u8])
    {
        let ghost pre = self@;
        let mut i: usize = 0;
        while i < buf.len()
            invariant
                i <= buf@.len(),
                self@ == pre + buf@.subrange(0, i as int),
            decreases buf@.len() - i,
        {
            self.push(buf[i]);
            proof {
                assert(pre + buf@.subrange(0, i as int) + seq![buf@[i as int]]
                    =~= pre + buf@.subrange(0, i + 1 as int));
            }
            i = i + 1;
        }
        proof {
            assert(buf@.subrange(0, buf@.len() as int) =~= buf@);
            assert(writes(pre + buf@) =~= writes(pre) + writes(buf@));
        }
    }
}

impl Absorb for u8 {
    open spec fn enc(&self) -> Seq<u8> {
        seq![*self]
    }

    fn absorb<H: Hasher>(&self, h: &mut H)
    {
        let buf: [u8; 1] = [*self];
        h.write(buf.as_slice());
        proof {
            assert(buf@ =~= self.enc());
        }
    }
}

impl Absorb for u16 {
    open spec fn enc(&self) -> Seq<u8> {
        vstd::bytes::spec_u16_to_le_bytes(*self)
    }

    fn absorb<H: Hasher>(&self, h: &mut H)
    {
        let bs = vstd::bytes::u16_to_le_bytes(*self);
        h.write(bs.as_slice());
    }
}

impl Absorb for u32 {
    open spec fn enc(&self) -> Seq<u8> {
        vstd::bytes::spec_u32_to_le_bytes(*self)
    }

    fn absorb<H: Hasher>(&self, h: &mut H)
    {
        let bs = vstd::bytes::u32_to_le_bytes(*self);
        h.write(bs.as_slice());
    }
}

impl Absorb for u64 {
    open spec fn enc(&self) -> Seq<u8> {
        vstd::bytes::spec_u64_to_le_bytes(*self)
    }

    fn absorb<H: Hasher>(&self, h: &mut H)
    {
        let bs = vstd::bytes::u64_to_le_bytes(*self);
        h.write(bs.as_slice());
        proof {
            assert(bs@ == vstd::bytes::spec_u64_to_le_bytes(*self));
            assert(writes(bs@) == writes(self.enc()));
        }
    }
}

impl Absorb for u128 {
    open spec fn enc(&self) -> Seq<u8> {
        vstd::bytes::spec_u128_to_le_bytes(*self)
    }

    fn absorb<H: Hasher>(&self, h: &mut H)
    {
        let bs = vstd::bytes::u128_to_le_bytes(*self);
        h.write(bs.as_slice());
    }
}

impl Absorb for i8 {
    open spec fn enc(&self) -> Seq<u8> {
        seq![u8_of_i8(*self)]
    }

    fn absorb<H: Hasher>(&self, h: &mut H)
    {
        let buf: [u8; 1] = [i8_to_u8(*self)];
        h.write(buf.as_slice());
        proof {
            assert(buf@ =~= self.enc());
        }
    }
}

impl Absorb for i16 {
    open spec fn enc(&self) -> Seq<u8> {
        vstd::bytes::spec_u16_to_le_bytes(u16_of_i16(*self))
    }

    fn absorb<H: Hasher>(&self, h: &mut H)
    {
        let bs = vstd::bytes::u16_to_le_bytes(i16_to_u16(*self));
        h.write(bs.as_slice());
    }
}

impl Absorb for i32 {
    open spec fn enc(&self) -> Seq<u8> {
        vstd::bytes::spec_u32_to_le_bytes(u32_of_i32(*self))
    }

    fn absorb<H: Hasher>(&self, h: &mut H)
    {
        let bs = vstd::bytes::u32_to_le_bytes(i32_to_u32(*self));
        h.write(bs.as_slice());
    }
}

impl Absorb for i64 {
    open spec fn enc(&self) -> Seq<u8> {
        vstd::bytes::spec_u64_to_le_bytes(u64_of_i64(*self))
    }

    fn absorb<H: Hasher>(&self, h: &mut H)
    {
        let bs = vstd::bytes::u64_to_le_bytes(i64_to_u64(*self));
        h.write(bs.as_slice());
    }
}

impl Absorb for i128 {
    open spec fn enc(&self) -> Seq<u8> {
        vstd::bytes::spec_u128_to_le_bytes(u128_of_i128(*self))
    }

    fn absorb<H: Hasher>(&self, h: &mut H)
    {
        let bs = vstd::bytes::u128_to_le_bytes(i128_to_u128(*self));
        h.write(bs.as_slice());
    }
}

/// One byte: 0 for false, 1 for true.
impl Absorb for bool {
    open spec fn enc(&self) -> Seq<u8> {
        seq![if *self { 1u8 } else { 0u8 }]
    }

    fn absorb<H: Hasher>(&self, h: &mut H)
    {
        let b: u8 = if *self { 1 } else { 0 };
        let buf: [u8; 1] = [b];
        h.write(buf.as_slice());
        proof {
            assert(buf@ =~= self.enc());
        }
    }
}

/// The unit value absorbs nothing.
impl Absorb for () {
    open spec fn enc(&self) -> Seq<u8> {
        Seq::empty()
    }

    fn absorb<H: Hasher>(&self, h: &mut H)
    {
        proof {
            assert(old(h).log() + writes(Seq::<u8>::empty()) =~= old(h).log());
        }
    }
}

/// A machine-word length is absorbed as a 64-bit little-endian integer, so
/// the encoding does not depend on the host's word size.
impl Absorb for usize {
    open spec fn enc(&self) -> Seq<u8> {
        vstd::bytes::spec_u64_to_le_bytes(*self as u64)
    }

    fn absorb<H: Hasher>(&self, h: &mut H)
    {
        let wide: u64 = *self as u64;
        wide.absorb(h);
        proof {
            assert(writes(wide.enc()) == writes(self.enc()));
        }
    }
}

/// The encoding of a byte string: its length as a 64-bit little-endian
/// integer, then its raw bytes, with no terminator.
pub open spec fn spec_bytes_enc(bs: Seq<u8>) -> Seq<u8> {
    vstd::bytes::spec_u64_to_le_bytes(bs.len() as u64) + bs
}

/// A string absorbs its byte length (64-bit little-endian) and then its
/// raw bytes, with no terminator.
impl Absorb for &str {
    open spec fn enc(&self) -> Seq<u8> {
        spec_bytes_enc(self.spec_bytes())
    }

    fn absorb<H: Hasher>(&self, h: &mut H)
    {
        let ghost pre = h.log();
        let bs: &[u8] = self.as_bytes();
        let n: usize = bs.len();
        n.absorb(h);
        h.write(bs);
        proof {
            assert(n as u64 == self.spec_bytes().len() as u64);
            lemma_writes_concat(
                vstd::bytes::spec_u64_to_le_bytes(n as u64),
                self.spec_bytes(),
            );
            assert(pre + writes(vstd::bytes::spec_u64_to_le_bytes(n as u64))
                + writes(self.spec_bytes()) =~= pre + writes(self.enc()));
        }
    }
}

/// The concatenated encodings of the elements of `s`, in order.
pub open spec fn enc_each<T: Absorb>(s: Seq<T>) -> Seq<u8>
    decreases s.len(),
{
    if s.len() == 0 {
        Seq::empty()
    } else {
        s.first().enc() + enc_each(s.drop_first())
    }
}

/// Extending a sequence by one element appends that element's encoding.
pub proof fn lemma_enc_each_push<T: Absorb>(s: Seq<T>, x: T)
    ensures
        enc_each(s.push(x)) == enc_each(s) + x.enc(),
    decreases s.len(),
{
    if s.len() == 0 {
        assert(s.push(x).drop_first() =~= Seq::<T>::empty());
        assert(s.push(x).first() == x);
        assert(enc_each(s.push(x)) == x.enc() + enc_each(Seq::<T>::empty()));
        assert(enc_each(s.push(x)) =~= enc_each(s) + x.enc());
    } else {
        assert(s.push(x).drop_first() =~= s.drop_first().push(x));
        assert(s.push(x).first() == s.first());
        lemma_enc_each_push(s.drop_first(), x);
        assert(enc_each(s.push(x))
            == s.first().enc() + (enc_each(s.drop_first()) + x.enc()));
        assert(enc_each(s) == s.first().enc() + enc_each(s.drop_first()));
        assert(enc_each(s.push(x)) =~= enc_each(s) + x.enc());
    }
}

/// A variable-length sequence absorbs its length (64-bit little-endian)
/// and then each element's encoding, in order.
impl<T: Absorb> Absorb for Vec<T> {
    open spec fn enc(&self) -> Seq<u8> {
        vstd::bytes::spec_u64_to_le_bytes(self@.len() as u64) + enc_each(self@)
    }

    fn absorb<H: Hasher>(&self, h: &mut H)
    {
        let ghost pre = h.log();
        let n: usize = self.len();
        n.absorb(h);
        let ghost lenbytes = vstd::bytes::spec_u64_to_le_bytes(n as u64);
        let mut i: usize = 0;
        proof {
            assert(self@.subrange(0, 0) =~= Seq::<T>::empty());
            assert(writes(enc_each(self@.subrange(0, 0))) =~= Seq::<SpongeOp>::empty());
            assert(h.log() + writes(enc_each(self@.subrange(0, 0))) =~= h.log());
        }
        while i < n
            invariant
                i <= n,
                n == self@.len(),
                h.log() == pre + writes(lenbytes) + writes(enc_each(self@.subrange(0, i as int))),
            decreases n - i,
        {
            self[i].absorb(h);
            proof {
                assert(self@.subrange(0, i + 1 as int)
                    =~= self@.subrange(0, i as int).push(self@[i as int]));
                lemma_enc_each_push(self@.subrange(0, i as int), self@[i as int]);
                lemma_writes_concat(
                    enc_each(self@.subrange(0, i as int)),
                    self@[i as int].enc(),
                );
                assert(pre + writes(lenbytes) + writes(enc_each(self@.subrange(0, i as int)))
                    + writes(self@[i as int].enc())
                    =~= pre + writes(lenbytes) + writes(enc_each(self@.subrange(0, i + 1 as int))));
            }
            i = i + 1;
        }
        proof {
            assert(self@.subrange(0, n as int) =~= self@);
            lemma_writes_concat(lenbytes, enc_each(self@));
            assert(pre + writes(lenbytes) + writes(enc_each(self@))
                =~= pre + writes(self.enc()));
        }
    }
}

/// A product of two values absorbs each component's encoding in
/// declaration order, with no separators — the rule every aggregate
/// follows.
impl<A: Absorb, B: Absorb> Absorb for (A, B) {
    open spec fn enc(&self) -> Seq<u8> {
        self.0.enc() + self.1.enc()
    }

    fn absorb<H: Hasher>(&self, h: &mut H)
    {
        let ghost pre = h.log();
        self.0.absorb(h);
        self.1.absorb(h);
        proof {
            lemma_writes_concat(self.0.enc(), self.1.enc());
            assert(pre + writes(self.0.enc()) + writes(self.1.enc())
                =~= pre + writes(self.enc()));
        }
    }
}

/// Encode a value into a fresh byte vector: the canonical encoding, made
/// concrete.
pub fn encode_to_vec<T: Absorb>(v: &T) -> (out: Vec<u8>)
    ensures
        out@ == v.enc(),
{
    let mut sink: Vec<u8> = Vec::new();
    v.absorb(&mut sink);
    proof {
        assert(writes(Seq::<u8>::empty()) =~= Seq::<SpongeOp>::empty());
        assert(writes(Seq::<u8>::empty()) + writes(v.enc()) =~= writes(v.enc()));
        lemma_writes_injective(sink@, v.enc());
    }
    sink
}

/// Encoding determinism: two fresh sinks that absorbed the same value hold
/// identical byte sequences.  The encoding is a function of the value
/// alone — a sink's log pins its bytes, with no dependence on the host.
pub proof fn lemma_encoding_deterministic<T: Absorb>(v: T, out1: Seq<u8>, out2: Seq<u8>)
    requires
        writes(out1) == writes(v.enc()),
        writes(out2) == writes(v.enc()),
    ensures
        out1 == out2,
{
    lemma_writes_injective(out1, v.enc());
    lemma_writes_injective(out2, v.enc());
}

/// Two byte strings with equal write logs are equal.
pub proof fn lemma_writes_injective(a: Seq<u8>, b: Seq<u8>)
    requires
        writes(a) == writes(b),
    ensures
        a == b,
{
    assert(writes(a).len() == a.len());
    assert(writes(b).len() == b.len());
    assert forall|i: int| 0 <= i < a.len() implies a[i] == b[i] by {
        assert(writes(a)[i] == SpongeOp::Write(a[i]));
        assert(writes(b)[i] == SpongeOp::Write(b[i]));
    }
    assert(a =~= b);
}

/// Length-prefix round trip: a sequence's own encoding is byte-identical
/// to absorbing its length as a 64-bit integer and then each element in
/// order.
pub proof fn lemma_length_prefix_round_trip<T: Absorb>(v: Vec<T>)
    ensures
        v.enc() == (v@.len() as u64).enc() + enc_each(v@),
{
}

/// The width in bytes of the variant index of a tagged union with `k`
/// variants: the smallest of 1, 2, 4 or 8 bytes that can index `k` variants.
///
/// The width is a function of the variant count alone, never of the variant
/// at hand, so an encoder and a decoder that agree on the type agree on the
/// width.
pub open spec fn spec_tag_width(k: nat) -> nat {
    if k <= 0x100 {
        1
    } else if k <= 0x1_0000 {
        2
    } else if k <= 0x1_0000_0000 {
        4
    } else {
        8
    }
}

/// The encoding of variant index `i` of a tagged union with `k` variants:
/// `i` as a little-endian integer of `spec_tag_width(k)` bytes.
pub open spec fn spec_tag_enc(k: nat, i: nat) -> Seq<u8> {
    if k <= 0x100 {
        seq![i as u8]
    } else if k <= 0x1_0000 {
        vstd::bytes::spec_u16_to_le_bytes(i as u16)
    } else if k <= 0x1_0000_0000 {
        vstd::bytes::spec_u32_to_le_bytes(i as u32)
    } else {
        vstd::bytes::spec_u64_to_le_bytes(i as u64)
    }
}

/// The width in bytes of the variant index of a tagged union with `k`
/// variants.
pub fn tag_width(k: u64) -> (w: usize)
    ensures
        w == spec_tag_width(k as nat),
{
    if k <= 0x100 {
        1
    } else if k <= 0x1_0000 {
        2
    } else if k <= 0x1_0000_0000 {
        4
    } else {
        8
    }
}

/// Absorb the variant index `i` of a tagged union with `k` variants, in the
/// smallest width that can index `k` variants.  The chosen variant's fields
/// are then absorbed after this call, in declaration order, with no further
/// tagging.
pub fn absorb_tag<H: Hasher>(h: &mut H, k: u64, i: u64)
    requires
        i < k,
    ensures
        final(h).log() == old(h).log() + writes(spec_tag_enc(k as nat, i as nat)),
{
    if k <= 0x100 {
        let b: u8 = i as u8;
        let buf: [u8; 1] = [b];
        h.write(buf.as_slice());
        proof {
            assert(buf@ =~= spec_tag_enc(k as nat, i as nat));
        }
    } else if k <= 0x1_0000 {
        let bs = vstd::bytes::u16_to_le_bytes(i as u16);
        h.write(bs.as_slice());
    } else if k <= 0x1_0000_0000 {
        let bs = vstd::bytes::u32_to_le_bytes(i as u32);
        h.write(bs.as_slice());
    } else {
        let bs = vstd::bytes::u64_to_le_bytes(i as u64);
        h.write(bs.as_slice());
    }
}

/// A variant index always encodes to exactly the type-level width, for
/// every variant of the union.
pub proof fn lemma_tag_enc_width(k: nat, i: nat)
    requires
        i < k,
    ensures
        spec_tag_enc(k, i).len() == spec_tag_width(k),
{
    vstd::bytes::lemma_auto_spec_u16_to_from_le_bytes();
    vstd::bytes::lemma_auto_spec_u32_to_from_le_bytes();
    vstd::bytes::lemma_auto_spec_u64_to_from_le_bytes();
}

/// Variant tag width monotonicity: a tagged union whose variant count is
/// over 256 and at most 65536 absorbs a two-byte index for every variant,
/// the zeroth included.
pub proof fn lemma_tag_width_two_bytes(k: nat, i: nat)
    requires
        0x100 < k <= 0x1_0000,
        i < k,
    ensures
        spec_tag_width(k) == 2,
        spec_tag_enc(k, i).len() == 2,
{
    vstd::bytes::lemma_auto_spec_u16_to_from_le_bytes();
}

/// A fixed-size array absorbs each element's encoding in order; its length
/// is part of the type and is not written.
impl<T: Absorb, const N: usize> Absorb for [T; N] {
    open spec fn enc(&self) -> Seq<u8> {
        enc_each(self@)
    }

    fn absorb<H: Hasher>(&self, h: &mut H)
    {
        let ghost pre = h.log();
        let mut i: usize = 0;
        proof {
            assert(self@.subrange(0, 0) =~= Seq::<T>::empty());
            assert(pre + writes(enc_each(self@.subrange(0, 0))) =~= pre);
        }
        while i < N
            invariant
                i <= N,
                self@.len() == N,
                h.log() == pre + writes(enc_each(self@.subrange(0, i as int))),
            decreases N - i,
        {
            let elem = vstd::array::array_index_get(self, i);
            elem.absorb(h);
            proof {
                assert(self@.subrange(0, i + 1 as int)
                    =~= self@.subrange(0, i as int).push(self@[i as int]));
                lemma_enc_each_push(self@.subrange(0, i as int), self@[i as int]);
                lemma_writes_concat(
                    enc_each(self@.subrange(0, i as int)),
                    self@[i as int].enc(),
                );
                assert(pre + writes(enc_each(self@.subrange(0, i as int)))
                    + writes(self@[i as int].enc())
                    =~= pre + writes(enc_each(self@.subrange(0, i + 1 as int))));
            }
            i = i + 1;
        }
        proof {
            assert(self@.subrange(0, N as int) =~= self@);
        }
    }
}

/// An optional value absorbs a one-byte presence tag, then the inner
/// encoding if present.
impl<T: Absorb> Absorb for Option<T> {
    open spec fn enc(&self) -> Seq<u8> {
        match self {
            Option::None => seq![0u8],
            Option::Some(v) => seq![1u8] + v.enc(),
        }
    }

    fn absorb<H: Hasher>(&self, h: &mut H)
    {
        let ghost pre = h.log();
        match self {
            Option::None => {
                let buf: [u8; 1] = [0];
                h.write(buf.as_slice());
                proof {
                    assert(buf@ =~= self.enc());
                }
            },
            Option::Some(v) => {
                let buf: [u8; 1] = [1];
                h.write(buf.as_slice());
                v.absorb(h);
                proof {
                    assert(buf@ =~= seq![1u8]);
                    lemma_writes_concat(seq![1u8], v.enc());
                    assert(pre + writes(seq![1u8]) + writes(v.enc())
                        =~= pre + writes(self.enc()));
                }
            },
        }
    }
}

} // verus!
