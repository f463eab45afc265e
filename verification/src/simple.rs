//! A small, non-cryptographic sponge: a 64-bit multiply-xor state machine.
//!
//! It exists so that transcripts can be exercised end to end without an
//! outside hash construction; a deployment would supply its own keyed
//! duplex construction through the same `Sponge` trait.

use vstd::prelude::*;

use crate::Sponge;
use crate::absorb::Absorb;
use crate::absorb::Hasher;
use crate::challenge::Sampler;
use crate::duplex::Duplex;
use crate::duplex::SpongeOp;
use crate::duplex::writes;

verus! {

/// One mixing step: fold the word `w` into the running state.
pub open spec fn spec_mix(h: u64, w: u64) -> u64 {
    (h ^ w).wrapping_mul(0x100_0000_01b3)
}

/// The state reached after replaying the whole operation log.  A squeeze
/// perturbs the state too (with a word no absorbed byte can equal), so
/// interleavings of writes and reads are distinguished.
pub open spec fn spec_state_of(log: Seq<SpongeOp>) -> u64
    decreases log.len(),
{
    if log.len() == 0 {
        0xcbf2_9ce4_8422_2325
    } else {
        match log.last() {
            SpongeOp::Write(b) => spec_mix(spec_state_of(log.drop_last()), b as u64),
            SpongeOp::Read => spec_mix(spec_state_of(log.drop_last()), 0x100),
        }
    }
}

/// A sponge whose state is the 64-bit mix of its whole operation log.
pub struct SimpleSponge {
    state: u64,
    ops: Ghost<Seq<SpongeOp>>,
}

impl SimpleSponge {
    #[verifier::type_invariant]
    spec fn wf(self) -> bool {
        self.state == spec_state_of(self.ops@)
    }
}

impl Duplex for SimpleSponge {
    closed spec fn log(&self) -> Seq<SpongeOp> {
        self.ops@
    }
}

impl Hasher for SimpleSponge {
    fn write(&mut self, buf: &[u8])
    {
        let ghost pre = self.ops@;
        let mut i: usize = 0;
        proof {
            assert(pre + writes(buf@.subrange(0, 0)) =~= pre);
        }
        while i < buf.len()
            invariant
                i <= buf@.len(),
                self.ops@ == pre + writes(buf@.subrange(0, i as int)),
            decreases buf@.len() - i,
        {
            proof {
                use_type_invariant(&*self);
            }
            let b = buf[i];
            let next = (self.state ^ (b as u64)).wrapping_mul(0x100_0000_01b3);
            let ghost grown = self.ops@.push(SpongeOp::Write(b));
            proof {
                assert(grown.drop_last() =~= self.ops@);
                assert(spec_state_of(grown) == spec_mix(spec_state_of(self.ops@), b as u64));
                assert(grown =~= pre + writes(buf@.subrange(0, i + 1 as int)));
            }
            *self = SimpleSponge { state: next, ops: Ghost(grown) };
            i = i + 1;
        }
        proof {
            assert(buf@.subrange(0, buf@.len() as int) =~= buf@);
        }
    }
}

impl Sampler for SimpleSponge {
    open spec fn squeeze(log: Seq<SpongeOp>) -> u8 {
        (spec_state_of(log) % 0x100) as u8
    }

    fn read(&mut self) -> (w: u8)
    {
        proof {
            use_type_invariant(&*self);
        }
        let w = (self.state % 0x100) as u8;
        let next = (self.state ^ 0x100).wrapping_mul(0x100_0000_01b3);
        let ghost grown = self.ops@.push(SpongeOp::Read);
        proof {
            assert(grown.drop_last() =~= self.ops@);
            assert(spec_state_of(grown) == spec_mix(spec_state_of(self.ops@), 0x100));
        }
        *self = SimpleSponge { state: next, ops: Ghost(grown) };
        w
    }
}

impl Sponge for SimpleSponge {
    fn new(sep: &str) -> (s: Self)
    {
        let mut s = SimpleSponge { state: 0xcbf2_9ce4_8422_2325, ops: Ghost(Seq::empty()) };
        sep.absorb(&mut s);
        proof {
            assert(Seq::empty() + writes(Absorb::enc(&sep)) =~= writes(Absorb::enc(&sep)));
        }
        s
    }
}

} // verus!
