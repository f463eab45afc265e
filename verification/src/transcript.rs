//! The transcript: the single point of contact with the sponge, exposing
//! `append` and `challenge`, and the send/recv pair built strictly from
//! them.

use vstd::prelude::*;

use crate::Sponge;
use crate::absorb::Absorb;
use crate::challenge::Challenge;
use crate::challenge::Sampler;
use crate::challenge::squeezed;
use crate::duplex::Duplex;
use crate::duplex::reads;
use crate::duplex::writes;
use crate::msg::Msg;
use vstd::string::StringSliceAdditionalSpecFns;

verus! {

/// The append/challenge facade over one exclusively owned sponge.
///
/// Every operation appends to the ghost operation log; prover and verifier
/// runs that issue the same operations in the same order therefore hold
/// byte-identical sponge states.
pub trait Transcript: Sampler {
    /// Absorb the canonical encoding of `elem`.
    fn append<A: Absorb>(&mut self, elem: &A)
        ensures
            final(self).log() == old(self).log() + writes(elem.enc()),
    ;

    /// Derive a challenge value from the squeeze stream.
    fn challenge<C: Challenge>(&mut self) -> (c: C)
        ensures
            final(self).log() == old(self).log() + reads(C::width()),
            c == C::from_words(squeezed::<Self>(old(self).log(), C::width())),
    ;

    /// Consume a prover message: absorb its payload, then hand it out.
    /// The absorption is part of this very call, so the payload cannot be
    /// used before it has entered the transcript.
    fn recv<A: Absorb>(&mut self, msg: Msg<A>) -> (r: A)
        ensures
            final(self).log() == old(self).log() + writes(msg@.enc()),
            r == msg@,
    {
        let value = msg.into_inner();
        self.append(&value);
        value
    }

    /// Send a value as a prover message: absorb it, then wrap it.
    fn send<A: Absorb>(&mut self, elem: A) -> (m: Msg<A>)
        ensures
            final(self).log() == old(self).log() + writes(elem.enc()),
            m@ == elem,
    {
        self.append(&elem);
        Msg::new(elem)
    }
}

/// Message linearity: a prover's `send` and a verifier's `recv` of the
/// same value append the same operations to the log.  If the two
/// transcripts had equal logs before the pair — same separator, same label,
/// same statement, same messages so far — they have equal logs after it,
/// and every challenge squeezed later agrees word for word.
pub proof fn lemma_send_recv_equivalence<A: Absorb, S: Sampler>(
    v: A,
    log_p: Seq<crate::duplex::SpongeOp>,
    log_v: Seq<crate::duplex::SpongeOp>,
    n: nat,
)
    requires
        log_p == log_v,
    ensures
        log_p + writes(v.enc()) == log_v + writes(v.enc()),
        squeezed::<S>(log_p + writes(v.enc()), n) == squeezed::<S>(log_v + writes(v.enc()), n),
{
}

/// A transcript over a concrete sponge construction.
pub struct SpongeTranscript<S: Sponge>(S);

impl<S: Sponge> SpongeTranscript<S> {
    /// Start a transcript whose sponge is keyed by the separator `sep`.
    pub fn new(sep: &str) -> (ts: Self)
        ensures
            ts.log() == writes(crate::absorb::spec_bytes_enc(sep.spec_bytes())),
    {
        SpongeTranscript(S::new(sep))
    }
}

impl<S: Sponge> Duplex for SpongeTranscript<S> {
    closed spec fn log(&self) -> Seq<crate::duplex::SpongeOp> {
        self.0.log()
    }
}

impl<S: Sponge> Sampler for SpongeTranscript<S> {
    open spec fn squeeze(log: Seq<crate::duplex::SpongeOp>) -> u8 {
        S::squeeze(log)
    }

    fn read(&mut self) -> (w: u8)
    {
        self.0.read()
    }
}

impl<S: Sponge> Transcript for SpongeTranscript<S> {
    fn append<A: Absorb>(&mut self, elem: &A)
    {
        elem.absorb(&mut self.0);
    }

    fn challenge<C: Challenge>(&mut self) -> (c: C)
    {
        let c = C::sample(&mut self.0);
        proof {
            assert(squeezed::<S>(old(self).log(), C::width())
                =~= squeezed::<Self>(old(self).log(), C::width()));
        }
        c
    }
}

} // verus!
