//! Pseudorandom value derivation ("challenges") from the squeeze stream.

use vstd::prelude::*;

use crate::absorb::Absorb;
use crate::duplex::Duplex;
use crate::duplex::SpongeOp;
use crate::duplex::reads;
use crate::signed::i16_of_u16;
use crate::signed::i32_of_u32;
use crate::signed::i64_of_u64;
use crate::signed::i8_of_u8;
use crate::signed::u16_to_i16;
use crate::signed::u32_to_i32;
use crate::signed::u64_to_i64;
use crate::signed::u8_to_i8;

verus! {

/// A source of squeezed sponge words.
///
/// The word squeezed at any point is a pure function (`squeeze`) of the
/// complete operation log so far, so two instances of one construction with
/// equal logs yield equal words.
pub trait Sampler: Duplex {
    /// The word the construction squeezes when its log is `log`.
    spec fn squeeze(log: Seq<SpongeOp>) -> u8;

    /// Squeeze one word.
    fn read(&mut self) -> (w: u8)
        ensures
            final(self).log() == old(self).log().push(SpongeOp::Read),
            w == Self::squeeze(old(self).log()),
    ;

    /// Squeeze `n` words.
    fn fill(&mut self, n: usize) -> (out: Vec<u8>)
        ensures
            final(self).log() == old(self).log() + reads(n as nat),
            out@.len() == n,
            forall|i: int|
                0 <= i < n ==> out@[i] == Self::squeeze(old(self).log() + reads(i as nat)),
    {
        let ghost base = self.log();
        proof {
            assert(base + reads(0) =~= base);
        }
        let mut out: Vec<u8> = Vec::new();
        let mut i: usize = 0;
        while i < n
            invariant
                i <= n,
                out@.len() == i,
                self.log() == base + reads(i as nat),
                forall|j: int| 0 <= j < i ==> out@[j] == Self::squeeze(base + reads(j as nat)),
            decreases n - i,
        {
            let w = self.read();
            out.push(w);
            i = i + 1;
            proof {
                assert((base + reads((i - 1) as nat)).push(SpongeOp::Read)
                    =~= base + reads(i as nat));
            }
        }
        out
    }
}

/// The words squeezed by `n` consecutive reads starting from log `log`.
pub open spec fn squeezed<S: Sampler>(log: Seq<SpongeOp>, n: nat) -> Seq<u8> {
    Seq::new(n, |i: int| S::squeeze(log + reads(i as nat)))
}

/// The squeeze function of a construction, as a value, so that a contract
/// can speak of "whatever this construction would squeeze at a log".
pub open spec fn squeeze_fn<S: Sampler>() -> spec_fn(Seq<SpongeOp>) -> u8 {
    |l: Seq<SpongeOp>| S::squeeze(l)
}

/// A middle stretch of a squeeze stream is itself a squeeze stream,
/// started at the log the earlier reads left behind.
pub proof fn lemma_squeezed_subrange<S: Sampler>(log: Seq<SpongeOp>, n: nat, a: int, b: int)
    requires
        0 <= a <= b <= n,
    ensures
        squeezed::<S>(log, n).subrange(a, b) == squeezed::<S>(log + reads(a as nat), (b - a) as nat),
{
    let lhs = squeezed::<S>(log, n).subrange(a, b);
    let rhs = squeezed::<S>(log + reads(a as nat), (b - a) as nat);
    assert forall|j: int| 0 <= j < b - a implies lhs[j] == rhs[j] by {
        assert(lhs[j] == S::squeeze(log + reads((a + j) as nat)));
        assert(rhs[j] == S::squeeze((log + reads(a as nat)) + reads(j as nat)));
        assert((log + reads(a as nat)) + reads(j as nat) =~= log + reads((a + j) as nat));
    }
    assert(lhs =~= rhs);
}

/// A value sampled uniformly from the squeeze stream.
///
/// The number of words consumed (`width`) is fixed per type, and the value
/// is a pure function (`from_words`) of the squeezed words.
pub trait Challenge: Sized {
    /// The number of sponge words one sample consumes.
    spec fn width() -> nat;

    /// The value reconstructed from the squeezed words `ws`.
    spec fn from_words(ws: Seq<u8>) -> Self;

    /// Sample a value of this type from the squeeze stream.
    fn sample<S: Sampler>(ts: &mut S) -> (r: Self)
        ensures
            final(ts).log() == old(ts).log() + reads(Self::width()),
            r == Self::from_words(squeezed::<S>(old(ts).log(), Self::width())),
    ;
}

impl Challenge for u8 {
    open spec fn width() -> nat {
        1
    }

    open spec fn from_words(ws: Seq<u8>) -> u8 {
        ws[0]
    }

    fn sample<S: Sampler>(ts: &mut S) -> (r: u8)
    {
        let ghost base = ts.log();
        let w = ts.read();
        proof {
            assert(base.push(SpongeOp::Read) =~= base + reads(1));
            assert(base + reads(0) =~= base);
            assert(squeezed::<S>(base, 1)[0] == S::squeeze(base));
        }
        w
    }
}

/// A challenge bit: the low bit of one squeezed word.
impl Challenge for bool {
    open spec fn width() -> nat {
        1
    }

    open spec fn from_words(ws: Seq<u8>) -> bool {
        ws[0] & 1 == 1
    }

    fn sample<S: Sampler>(ts: &mut S) -> (r: bool)
    {
        let ghost base = ts.log();
        let w = ts.read();
        proof {
            assert(base.push(SpongeOp::Read) =~= base + reads(1));
            assert(base + reads(0) =~= base);
            assert(squeezed::<S>(base, 1)[0] == S::squeeze(base));
        }
        w & 1 == 1
    }
}

/// A fixed-size array samples each element independently, `N` times, in
/// order; the words of element `i` are the `i`-th chunk of the squeeze
/// stream.
impl<T: Challenge + Default + Copy, const N: usize> Challenge for [T; N] {
    open spec fn width() -> nat {
        (N * T::width()) as nat
    }

    open spec fn from_words(ws: Seq<u8>) -> [T; N] {
        choose|a: [T; N]|
            a@ == Seq::new(
                N as nat,
                |i: int|
                    T::from_words(
                        ws.subrange(i * T::width() as int, (i + 1) * T::width() as int),
                    ),
            )
    }

    fn sample<S: Sampler>(ts: &mut S) -> (r: [T; N])
    {
        let ghost base = ts.log();
        let ghost w = T::width();
        let mut out: [T; N] = vstd::array::array_fill_for_copy_types(T::default());
        let mut i: usize = 0;
        proof {
            assert(base + reads(0) =~= base);
        }
        while i < N
            invariant
                i <= N,
                out@.len() == N,
                w == T::width(),
                ts.log() == base + reads((i * w) as nat),
                forall|j: int|
                    0 <= j < i ==> out@[j] == T::from_words(
                        squeezed::<S>(base + reads((j * w as int) as nat), w),
                    ),
            decreases N - i,
        {
            let e = T::sample(ts);
            out[i] = e;
            i = i + 1;
            proof {
                assert((i - 1) * w as int + w as int == i * w as int) by (nonlinear_arith);
                assert(base + reads(((i - 1) * w as int) as nat) + reads(w)
                    =~= base + reads((i * w as int) as nat));
            }
        }
        proof {
            let wi = w as int;
            let total = Self::width();
            assert((N as int) * wi >= 0) by (nonlinear_arith)
                requires
                    wi >= 0,
            ;
            assert(total as int == (N as int) * wi);
            let ws = squeezed::<S>(base, total);
            let target = Seq::new(
                N as nat,
                |j: int|
                    T::from_words(ws.subrange(j * T::width() as int, (j + 1) * T::width() as int)),
            );
            assert forall|j: int| 0 <= j < N implies out@[j] == target[j] by {
                assert(j * wi + wi == (j + 1) * wi) by (nonlinear_arith);
                assert(0 <= j * wi) by (nonlinear_arith)
                    requires
                        0 <= j,
                        0 <= wi,
                ;
                assert((j + 1) * wi <= (N as int) * wi) by (nonlinear_arith)
                    requires
                        j + 1 <= N as int,
                        0 <= wi,
                ;
                lemma_squeezed_subrange::<S>(base, total, j * wi, (j + 1) * wi);
                assert(target[j] == T::from_words(ws.subrange(j * wi, (j + 1) * wi)));
                assert(out@[j] == T::from_words(squeezed::<S>(base + reads((j * wi) as nat), w)));
            }
            assert(out@ =~= target);
            let c = Self::from_words(ws);
            assert(c@ == target);
            assert(out =~= c);
        }
        out
    }
}

/// Squeezing `m + n` words from one point is squeezing `m`, then `n` more
/// from the log those reads left behind.
pub proof fn lemma_squeezed_split<S: Sampler>(log: Seq<SpongeOp>, m: nat, n: nat)
    ensures
        squeezed::<S>(log, m + n) == squeezed::<S>(log, m) + squeezed::<S>(log + reads(m), n),
{
    let lhs = squeezed::<S>(log, m + n);
    let rhs = squeezed::<S>(log, m) + squeezed::<S>(log + reads(m), n);
    assert forall|i: int| 0 <= i < m + n implies lhs[i] == rhs[i] by {
        if i < m {
            assert(rhs[i] == S::squeeze(log + reads(i as nat)));
        } else {
            assert(rhs[i] == S::squeeze((log + reads(m)) + reads((i - m) as nat)));
            assert((log + reads(m)) + reads((i - m) as nat) =~= log + reads(i as nat));
        }
    }
    assert(lhs =~= rhs);
}

/// A product of two values samples each component in declaration order —
/// the rule every aggregate follows.
impl<A: Challenge, B: Challenge> Challenge for (A, B) {
    open spec fn width() -> nat {
        A::width() + B::width()
    }

    open spec fn from_words(ws: Seq<u8>) -> (A, B) {
        (A::from_words(ws.take(A::width() as int)), B::from_words(ws.skip(A::width() as int)))
    }

    fn sample<S: Sampler>(ts: &mut S) -> (r: (A, B))
    {
        let ghost base = ts.log();
        let a = A::sample(ts);
        let b = B::sample(ts);
        proof {
            lemma_squeezed_split::<S>(base, A::width(), B::width());
            assert(base + reads(A::width()) + reads(B::width())
                =~= base + reads(A::width() + B::width()));
            let ws = squeezed::<S>(base, A::width() + B::width());
            assert(ws.take(A::width() as int) =~= squeezed::<S>(base, A::width()));
            assert(ws.skip(A::width() as int)
                =~= squeezed::<S>(base + reads(A::width()), B::width()));
        }
        (a, b)
    }
}

/// Absorb/sample duality: for every fixed-width challengeable type, the
/// number of words its encoder writes equals the number of words its
/// sampler reads — the type's sampling width.
pub proof fn lemma_sampling_width_duality(
    b: bool,
    x8: u8,
    x16: u16,
    x32: u32,
    x64: u64,
    s8: i8,
    s16: i16,
    s32: i32,
    s64: i64,
)
    ensures
        b.enc().len() == <bool as Challenge>::width(),
        x8.enc().len() == <u8 as Challenge>::width(),
        x16.enc().len() == <u16 as Challenge>::width(),
        x32.enc().len() == <u32 as Challenge>::width(),
        x64.enc().len() == <u64 as Challenge>::width(),
        s8.enc().len() == <i8 as Challenge>::width(),
        s16.enc().len() == <i16 as Challenge>::width(),
        s32.enc().len() == <i32 as Challenge>::width(),
        s64.enc().len() == <i64 as Challenge>::width(),
{
    vstd::bytes::lemma_auto_spec_u16_to_from_le_bytes();
    vstd::bytes::lemma_auto_spec_u32_to_from_le_bytes();
    vstd::bytes::lemma_auto_spec_u64_to_from_le_bytes();
}

impl Challenge for u16 {
    open spec fn width() -> nat {
        2
    }

    open spec fn from_words(ws: Seq<u8>) -> u16 {
        vstd::bytes::spec_u16_from_le_bytes(ws)
    }

    fn sample<S: Sampler>(ts: &mut S) -> (r: u16)
    {
        let buf = ts.fill(2);
        proof {
            assert(buf@ =~= squeezed::<S>(old(ts).log(), 2));
        }
        vstd::bytes::u16_from_le_bytes(buf.as_slice())
    }
}

impl Challenge for u32 {
    open spec fn width() -> nat {
        4
    }

    open spec fn from_words(ws: Seq<u8>) -> u32 {
        vstd::bytes::spec_u32_from_le_bytes(ws)
    }

    fn sample<S: Sampler>(ts: &mut S) -> (r: u32)
    {
        let buf = ts.fill(4);
        proof {
            assert(buf@ =~= squeezed::<S>(old(ts).log(), 4));
        }
        vstd::bytes::u32_from_le_bytes(buf.as_slice())
    }
}

impl Challenge for u64 {
    open spec fn width() -> nat {
        8
    }

    open spec fn from_words(ws: Seq<u8>) -> u64 {
        vstd::bytes::spec_u64_from_le_bytes(ws)
    }

    fn sample<S: Sampler>(ts: &mut S) -> (r: u64)
    {
        let buf = ts.fill(8);
        proof {
            assert(buf@ =~= squeezed::<S>(old(ts).log(), 8));
        }
        vstd::bytes::u64_from_le_bytes(buf.as_slice())
    }
}

impl Challenge for i8 {
    open spec fn width() -> nat {
        1
    }

    open spec fn from_words(ws: Seq<u8>) -> i8 {
        i8_of_u8(ws[0])
    }

    fn sample<S: Sampler>(ts: &mut S) -> (r: i8)
    {
        let ghost base = ts.log();
        let w = ts.read();
        proof {
            assert(base.push(SpongeOp::Read) =~= base + reads(1));
            assert(base + reads(0) =~= base);
            assert(squeezed::<S>(base, 1)[0] == S::squeeze(base));
        }
        u8_to_i8(w)
    }
}

impl Challenge for i16 {
    open spec fn width() -> nat {
        2
    }

    open spec fn from_words(ws: Seq<u8>) -> i16 {
        i16_of_u16(vstd::bytes::spec_u16_from_le_bytes(ws))
    }

    fn sample<S: Sampler>(ts: &mut S) -> (r: i16)
    {
        let buf = ts.fill(2);
        proof {
            assert(buf@ =~= squeezed::<S>(old(ts).log(), 2));
        }
        u16_to_i16(vstd::bytes::u16_from_le_bytes(buf.as_slice()))
    }
}

impl Challenge for i32 {
    open spec fn width() -> nat {
        4
    }

    open spec fn from_words(ws: Seq<u8>) -> i32 {
        i32_of_u32(vstd::bytes::spec_u32_from_le_bytes(ws))
    }

    fn sample<S: Sampler>(ts: &mut S) -> (r: i32)
    {
        let buf = ts.fill(4);
        proof {
            assert(buf@ =~= squeezed::<S>(old(ts).log(), 4));
        }
        u32_to_i32(vstd::bytes::u32_from_le_bytes(buf.as_slice()))
    }
}

impl Challenge for i64 {
    open spec fn width() -> nat {
        8
    }

    open spec fn from_words(ws: Seq<u8>) -> i64 {
        i64_of_u64(vstd::bytes::spec_u64_from_le_bytes(ws))
    }

    fn sample<S: Sampler>(ts: &mut S) -> (r: i64)
    {
        let buf = ts.fill(8);
        proof {
            assert(buf@ =~= squeezed::<S>(old(ts).log(), 8));
        }
        u64_to_i64(vstd::bytes::u64_from_le_bytes(buf.as_slice()))
    }
}

} // verus!
