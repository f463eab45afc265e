//! The ghost model of a duplex sponge: an ordered log of primitive
//! operations, one per absorbed word and one per squeezed word.

use vstd::prelude::*;

verus! {

/// One primitive duplex-sponge operation: absorbing one word into the state,
/// or squeezing one word out of it.
pub enum SpongeOp {
    /// One word was absorbed.
    Write(u8),
    /// One word was squeezed.
    Read,
}

/// The log fragment produced by absorbing the words `bs`, in order.
pub open spec fn writes(bs: Seq<u8>) -> Seq<SpongeOp> {
    Seq::new(bs.len(), |i: int| SpongeOp::Write(bs[i]))
}

/// The log fragment produced by squeezing `n` words.
pub open spec fn reads(n: nat) -> Seq<SpongeOp> {
    Seq::new(n, |i: int| SpongeOp::Read)
}

/// Absorbing two byte strings in sequence logs the same operations as
/// absorbing their concatenation.
pub proof fn lemma_writes_concat(a: Seq<u8>, b: Seq<u8>)
    ensures
        writes(a + b) == writes(a) + writes(b),
{
    assert(writes(a + b) =~= writes(a) + writes(b));
}

/// A log is a prefix of any extension of itself.
pub proof fn lemma_log_extends(a: Seq<SpongeOp>, b: Seq<SpongeOp>)
    ensures
        a.is_prefix_of(a + b),
{
    assert(a =~= (a + b).subrange(0, a.len() as int));
}

/// Prefixes chain: a prefix of a prefix is a prefix.
pub proof fn lemma_prefix_trans(a: Seq<SpongeOp>, b: Seq<SpongeOp>, c: Seq<SpongeOp>)
    requires
        a.is_prefix_of(b),
        b.is_prefix_of(c),
    ensures
        a.is_prefix_of(c),
{
    assert forall|i: int| 0 <= i < a.len() implies a[i] == c[i] by {
        assert(a[i] == b.subrange(0, a.len() as int)[i]);
        assert(b[i] == c.subrange(0, b.len() as int)[i]);
    }
    assert(a =~= c.subrange(0, a.len() as int));
}

/// Anything whose behaviour is modelled by a log of duplex operations.
///
/// The log is the complete ordered history of the underlying sponge state:
/// two instances of one construction that have equal logs are in equal
/// states.
pub trait Duplex: Sized {
    /// The complete ordered history of operations on the sponge state.
    spec fn log(&self) -> Seq<SpongeOp>;
}

} // verus!
