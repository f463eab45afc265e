//! The proof-composition driver: domain separation, statement binding, and
//! the verify/prove entry points.

use vstd::prelude::*;

use crate::absorb::Absorb;
use crate::absorb::spec_bytes_enc;
use crate::arthur::Arthur;
use crate::arthur::Sealed;
use crate::challenge::squeeze_fn;
use crate::duplex::SpongeOp;
use crate::duplex::writes;
use crate::msg::Tx;
use crate::rng::Rng;
use crate::transcript::Transcript;
use vstd::seq_lib::*;
use vstd::string::StringSliceAdditionalSpecFns;

verus! {

/// A non-interactive proof protocol.
///
/// The interaction may absorb, squeeze and branch as it pleases.  Its
/// contract states two things: the transcript only ever grows, so
/// everything the driver absorbed beforehand stays bound; and the verdict
/// is exactly `spec_outcome` — the protocol's own decision, a pure
/// function of its inputs and the squeeze stream — so the driver can hand
/// it on verbatim.
pub trait Proof: Sized {
    /// The common reference string: a fixed, protocol-wide constant input.
    type CRS;

    /// The protocol's failure type.  A failed verification is surfaced
    /// verbatim and is final.
    type Error;

    /// What a successful verification yields.
    type Output;

    /// The prover's secret input.
    type Witness;

    /// The public statement.  It is committed in full before any
    /// interactive step; sub-protocol statements need not be absorbable.
    type Statement;

    /// The bytes of the protocol's unique name.
    spec fn spec_name() -> Seq<u8>;

    /// The verdict of the verifying interaction: a pure function of the
    /// CRS, the statement, the proof, the construction's squeeze function
    /// and the log at which the interaction starts.
    spec fn spec_outcome(
        crs: &Self::CRS,
        st: &Self::Statement,
        pf: Self,
        squeeze: spec_fn(Seq<SpongeOp>) -> u8,
        log: Seq<SpongeOp>,
    ) -> Result<Self::Output, Self::Error>;

    /// What the proving interaction promises of its result.  A relation,
    /// not a function: a prover may draw randomness.
    spec fn spec_proved(
        crs: &Self::CRS,
        st: &Self::Statement,
        wit: &Self::Witness,
        squeeze: spec_fn(Seq<SpongeOp>) -> u8,
        log: Seq<SpongeOp>,
        r: Result<Self, Self::Error>,
    ) -> bool;

    /// The protocol's unique name, chosen by its author to separate its
    /// random oracle from every other protocol's and from its
    /// sub-protocols'.
    fn name() -> (n: &'static str)
        ensures
            n.spec_bytes() == Self::spec_name(),
    ;

    /// The verifying interaction.  Never invoke it directly from outside:
    /// the driver absorbs the protocol name and the statement first.  An
    /// interaction may invoke it recursively on the sealed transcript it
    /// was given, to run a sub-protocol without re-binding.
    fn verify<T: Transcript + Sealed>(
        self,
        crs: &Self::CRS,
        st: &Self::Statement,
        ts: &mut T,
    ) -> (r: Result<Self::Output, Self::Error>)
        ensures
            old(ts).log().is_prefix_of(final(ts).log()),
            r == Self::spec_outcome(crs, st, self, squeeze_fn::<T>(), old(ts).log()),
    ;

    /// The proving interaction, mirroring `verify` word for word on the
    /// same transcript operations.
    fn prove<T: Transcript + Sealed, R: Rng>(
        crs: &Self::CRS,
        st: &Self::Statement,
        wit: &Self::Witness,
        rng: &mut R,
        ts: &mut T,
    ) -> (r: Result<Self, Self::Error>)
        ensures
            old(ts).log().is_prefix_of(final(ts).log()),
            Self::spec_proved(crs, st, wit, squeeze_fn::<T>(), old(ts).log(), r),
    ;
}

/// A proof whose transcript type consists of messages alone, so the
/// Fiat-Shamir discipline is enforced by construction.
pub trait SafeProof: Proof + Tx {}

/// The driver core: every sealed transcript can run a proof protocol.
///
/// Only interactions hold a sealed transcript, so these methods are how a
/// protocol runs a sub-protocol under nested domain separation; the
/// outside world enters through [`verify`] and [`prove`], which create
/// the sealed view themselves.
///
/// Both methods perform the same three ordered steps — absorb the
/// protocol's name, absorb the whole statement, run the interaction — so a
/// prover and a verifier that agree on the inputs agree on the transcript,
/// and both return the interaction's result verbatim.
pub trait Bevis: Transcript + Sealed {
    /// Verify `pf` against `st`: bind the protocol name and the statement
    /// to the transcript, then run the verifying interaction and return
    /// its verdict unchanged.
    fn verify<P: Proof>(
        &mut self,
        crs: &P::CRS,
        st: &P::Statement,
        pf: P,
    ) -> (r: Result<P::Output, P::Error>) where P::Statement: Absorb
        ensures
            (old(self).log() + writes(spec_bytes_enc(P::spec_name())) + writes(
                st.enc(),
            )).is_prefix_of(final(self).log()),
            r == P::spec_outcome(
                crs,
                st,
                pf,
                squeeze_fn::<Self>(),
                old(self).log() + writes(spec_bytes_enc(P::spec_name())) + writes(st.enc()),
            ),
    {
        let name: &str = P::name();
        self.append(&name);
        self.append(st);
        pf.verify(crs, st, self)
    }

    /// Produce a proof of `st` from `wit`: bind the protocol name and the
    /// statement exactly as `verify` does, then run the proving
    /// interaction and return its result unchanged.
    fn prove<P: Proof, R: Rng>(
        &mut self,
        crs: &P::CRS,
        st: &P::Statement,
        wit: &P::Witness,
        rng: &mut R,
    ) -> (r: Result<P, P::Error>) where P::Statement: Absorb
        ensures
            (old(self).log() + writes(spec_bytes_enc(P::spec_name())) + writes(
                st.enc(),
            )).is_prefix_of(final(self).log()),
            P::spec_proved(
                crs,
                st,
                wit,
                squeeze_fn::<Self>(),
                old(self).log() + writes(spec_bytes_enc(P::spec_name())) + writes(st.enc()),
                r,
            ),
    {
        let name: &str = P::name();
        self.append(&name);
        self.append(st);
        P::prove(crs, st, wit, rng, self)
    }
}

impl<T: Transcript + Sealed> Bevis for T {}

/// Verify a proof on an owned transcript: the controlled entry point.
///
/// The transcript is wrapped in the sealed role view — which outside code
/// cannot build by itself — the protocol's name and the full statement are
/// absorbed, and the verifying interaction runs.  The result is the
/// interaction's verdict verbatim, and the transcript comes back for
/// further use.
pub fn verify<P: Proof, T: Transcript>(
    ts: T,
    crs: &P::CRS,
    st: &P::Statement,
    pf: P,
) -> (out: (Result<P::Output, P::Error>, T)) where P::Statement: Absorb
    ensures
        (ts.log() + writes(spec_bytes_enc(P::spec_name())) + writes(st.enc())).is_prefix_of(
            out.1.log(),
        ),
        out.0 == P::spec_outcome(
            crs,
            st,
            pf,
            squeeze_fn::<Arthur<T>>(),
            ts.log() + writes(spec_bytes_enc(P::spec_name())) + writes(st.enc()),
        ),
{
    let mut view = Arthur::new(ts);
    let r = Bevis::verify(&mut view, crs, st, pf);
    (r, view.into_transcript())
}

/// Produce a proof on an owned transcript: the proving entry point,
/// binding name and statement exactly as [`verify`] does.
pub fn prove<P: Proof, T: Transcript, R: Rng>(
    ts: T,
    crs: &P::CRS,
    st: &P::Statement,
    wit: &P::Witness,
    rng: &mut R,
) -> (out: (Result<P, P::Error>, T)) where P::Statement: Absorb
    ensures
        (ts.log() + writes(spec_bytes_enc(P::spec_name())) + writes(st.enc())).is_prefix_of(
            out.1.log(),
        ),
        P::spec_proved(
            crs,
            st,
            wit,
            squeeze_fn::<Arthur<T>>(),
            ts.log() + writes(spec_bytes_enc(P::spec_name())) + writes(st.enc()),
            out.0,
        ),
{
    let mut view = Arthur::new(ts);
    let r = Bevis::prove(&mut view, crs, st, wit, rng);
    (r, view.into_transcript())
}

/// Domain separation: two protocols with different names can never reach
/// equal transcript logs, whatever they absorb or squeeze after their
/// labels.  Every challenge either protocol derives is therefore derived
/// from a log the other protocol can never produce.
pub proof fn lemma_domain_separation(
    base: Seq<SpongeOp>,
    name_a: Seq<u8>,
    name_b: Seq<u8>,
    rest_a: Seq<SpongeOp>,
    rest_b: Seq<SpongeOp>,
)
    requires
        name_a != name_b,
        name_a.len() <= u64::MAX,
        name_b.len() <= u64::MAX,
    ensures
        base + writes(spec_bytes_enc(name_a)) + rest_a != base + writes(spec_bytes_enc(name_b))
            + rest_b,
{
    vstd::bytes::lemma_auto_spec_u64_to_from_le_bytes();
    let enc_a = spec_bytes_enc(name_a);
    let enc_b = spec_bytes_enc(name_b);
    let lhs = base + writes(enc_a) + rest_a;
    let rhs = base + writes(enc_b) + rest_b;
    if name_a.len() != name_b.len() {
        let la = vstd::bytes::spec_u64_to_le_bytes(name_a.len() as u64);
        let lb = vstd::bytes::spec_u64_to_le_bytes(name_b.len() as u64);
        assert(la != lb) by {
            if la == lb {
                assert(vstd::bytes::spec_u64_from_le_bytes(la)
                    == vstd::bytes::spec_u64_from_le_bytes(lb));
            }
        }
        let j = choose|j: int| 0 <= j < 8 && la[j] != lb[j];
        assert(0 <= j < 8 && la[j] != lb[j]) by {
            if forall|i: int| 0 <= i < 8 ==> la[i] == lb[i] {
                assert(la =~= lb);
            }
        }
        assert(lhs[base.len() + j] == SpongeOp::Write(la[j]));
        assert(rhs[base.len() + j] == SpongeOp::Write(lb[j]));
        assert(lhs != rhs) by {
            if lhs == rhs {
                assert(lhs[base.len() + j] == rhs[base.len() + j]);
            }
        }
    } else {
        let j = choose|j: int| 0 <= j < name_a.len() && name_a[j] != name_b[j];
        assert(0 <= j < name_a.len() && name_a[j] != name_b[j]) by {
            if forall|i: int| 0 <= i < name_a.len() ==> name_a[i] == name_b[i] {
                assert(name_a =~= name_b);
            }
        }
        assert(lhs[base.len() + 8 + j] == SpongeOp::Write(name_a[j]));
        assert(rhs[base.len() + 8 + j] == SpongeOp::Write(name_b[j]));
        assert(lhs != rhs) by {
            if lhs == rhs {
                assert(lhs[base.len() + 8 + j] == rhs[base.len() + 8 + j]);
            }
        }
    }
}

/// Recursive isolation: a sub-protocol invoked from inside a parent
/// interaction absorbs its name after everything the parent already
/// absorbed, not instead of it, so its transcript log is strictly longer
/// than when the same sub-protocol runs at top level over the same base —
/// the two runs can never reach equal logs.
pub proof fn lemma_recursive_isolation(
    base: Seq<SpongeOp>,
    sub_name: Seq<u8>,
    parent_name: Seq<u8>,
    parent_mid: Seq<SpongeOp>,
    rest: Seq<SpongeOp>,
)
    ensures
        base + writes(spec_bytes_enc(sub_name)) + rest != base + writes(spec_bytes_enc(
            parent_name,
        )) + parent_mid + writes(spec_bytes_enc(sub_name)) + rest,
{
    vstd::bytes::lemma_auto_spec_u64_to_from_le_bytes();
    let lhs = base + writes(spec_bytes_enc(sub_name)) + rest;
    let rhs = base + writes(spec_bytes_enc(parent_name)) + parent_mid + writes(spec_bytes_enc(
        sub_name,
    )) + rest;
    assert(lhs.len() < rhs.len());
}

} // verus!
