//! The sealed role view over a transcript.
//!
//! A proof's interaction only ever receives a transcript through this
//! wrapper.  The wrapper's constructor is crate-private and the sealing
//! marker cannot be implemented outside the crate, so every view that
//! reaches an interaction was built by the driver — which absorbs the
//! protocol's label and the statement before any interaction step runs.

use vstd::prelude::*;

use crate::absorb::Absorb;
use crate::absorb::spec_bytes_enc;
use crate::challenge::Challenge;
use crate::challenge::Sampler;
use crate::challenge::squeeze_fn;
use crate::challenge::squeezed;
use crate::driver::Bevis;
use crate::driver::Proof;
use crate::duplex::Duplex;
use crate::duplex::SpongeOp;
use crate::duplex::writes;
use crate::msg::Msg;
use crate::rng::Rng;
use crate::transcript::Transcript;

verus! {

/// The sealing marker.  Its supertrait lives in a crate-private module, so
/// no code outside this crate can implement it: every transcript that
/// satisfies it is a role view this crate handed out.
pub trait Sealed: crate::seal::Marker {}

/// Guarantees that the transcript occurs only in a context in which it is
/// bound to the protocol label and the statement.
pub trait Safe: Sealed {}

/// The restricted transcript view handed to a proof's interaction.
///
/// It exposes exactly the transcript operations; the payload of a message
/// can only be obtained through `recv`, which absorbs it first.
pub struct Arthur<T: Transcript> {
    ts: T,
}

impl<T: Transcript> Arthur<T> {
    /// Wrap a transcript.  Crate-private: views reach the outside world
    /// only through the driver entry points, which bind label and
    /// statement before any interaction step runs.
    pub(crate) fn new(ts: T) -> (a: Arthur<T>)
        ensures
            a.log() == ts.log(),
    {
        Arthur { ts }
    }

    /// Hand the transcript back once a driver run is over.
    pub(crate) fn into_transcript(self) -> (t: T)
        ensures
            t.log() == self.log(),
    {
        self.ts
    }

    /// Verify `pf` against `st`: absorb the protocol's name, absorb the
    /// whole statement, then run the verifying interaction.  The result is
    /// the interaction's verdict, handed on verbatim.
    pub fn verify<P: Proof>(
        &mut self,
        crs: &P::CRS,
        st: &P::Statement,
        pf: P,
    ) -> (r: Result<P::Output, P::Error>) where P::Statement: Absorb
        ensures
            (old(self).log() + writes(spec_bytes_enc(P::spec_name())) + writes(
                st.enc(),
            )).is_prefix_of(final(self).log()),
            r == P::spec_outcome(
                crs,
                st,
                pf,
                squeeze_fn::<Arthur<T>>(),
                old(self).log() + writes(spec_bytes_enc(P::spec_name())) + writes(st.enc()),
            ),
    {
        Bevis::verify(self, crs, st, pf)
    }

    /// Produce a proof of `st` from `wit`, binding name and statement
    /// exactly as `verify` does.  The result is the proving interaction's,
    /// handed on verbatim.
    pub fn prove<P: Proof, R: Rng>(
        &mut self,
        crs: &P::CRS,
        st: &P::Statement,
        wit: &P::Witness,
        rng: &mut R,
    ) -> (r: Result<P, P::Error>) where P::Statement: Absorb
        ensures
            (old(self).log() + writes(spec_bytes_enc(P::spec_name())) + writes(
                st.enc(),
            )).is_prefix_of(final(self).log()),
            P::spec_proved(
                crs,
                st,
                wit,
                squeeze_fn::<Arthur<T>>(),
                old(self).log() + writes(spec_bytes_enc(P::spec_name())) + writes(st.enc()),
                r,
            ),
    {
        Bevis::prove(self, crs, st, wit, rng)
    }

    /// Consume a prover message: absorb its payload, then hand it out.
    pub fn recv<A: Absorb>(&mut self, msg: Msg<A>) -> (r: A)
        ensures
            final(self).log() == old(self).log() + writes(msg@.enc()),
            r == msg@,
    {
        self.ts.recv(msg)
    }

    /// Send a value as a prover message: absorb it, then wrap it.
    pub fn send<A: Absorb>(&mut self, elem: A) -> (m: Msg<A>)
        ensures
            final(self).log() == old(self).log() + writes(elem.enc()),
            m@ == elem,
    {
        self.ts.send(elem)
    }
}

impl<T: Transcript> Duplex for Arthur<T> {
    closed spec fn log(&self) -> Seq<SpongeOp> {
        self.ts.log()
    }
}

impl<T: Transcript> Sampler for Arthur<T> {
    open spec fn squeeze(log: Seq<SpongeOp>) -> u8 {
        T::squeeze(log)
    }

    fn read(&mut self) -> (w: u8)
    {
        self.ts.read()
    }
}

impl<T: Transcript> crate::seal::Marker for Arthur<T> {}

impl<T: Transcript> Sealed for Arthur<T> {}

impl<T: Transcript> Safe for Arthur<T> {}

impl<T: Transcript> Transcript for Arthur<T> {
    fn append<A: Absorb>(&mut self, elem: &A)
    {
        self.ts.append(elem)
    }

    fn challenge<C: Challenge>(&mut self) -> (c: C)
    {
        let c = self.ts.challenge();
        proof {
            assert(squeezed::<T>(old(self).log(), C::width())
                =~= squeezed::<Self>(old(self).log(), C::width()));
        }
        c
    }

    fn recv<A: Absorb>(&mut self, msg: Msg<A>) -> (r: A)
    {
        self.ts.recv(msg)
    }

    fn send<A: Absorb>(&mut self, elem: A) -> (m: Msg<A>)
    {
        self.ts.send(elem)
    }
}

} // verus!
