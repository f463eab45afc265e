//! A transcript/sponge engine for Fiat-Shamir style non-interactive proofs.
//!
//! A protocol absorbs values into a duplex sponge ("append"), derives
//! pseudorandom values from it ("challenge"), and wraps prover messages in a
//! single-use container so that a value can only be used after it has been
//! absorbed.  The whole construction is specified against a ghost log of
//! sponge operations: every absorbed word and every squeeze is recorded, and
//! the contracts pin the exact byte encoding of each absorbed value.

use vstd::prelude::*;

mod absorb;
mod arthur;
mod challenge;
mod driver;
mod duplex;
mod example;
mod msg;
mod rng;
mod seal;
mod signed;
mod simple;
mod transcript;

pub use absorb::Absorb;
pub use absorb::Hasher;
pub use absorb::absorb_tag;
pub use absorb::enc_each;
pub use absorb::encode_to_vec;
pub use absorb::lemma_enc_each_push;
pub use absorb::lemma_encoding_deterministic;
pub use absorb::lemma_length_prefix_round_trip;
pub use absorb::lemma_tag_enc_width;
pub use absorb::lemma_tag_width_two_bytes;
pub use absorb::lemma_writes_injective;
pub use absorb::spec_bytes_enc;
pub use absorb::spec_tag_enc;
pub use absorb::spec_tag_width;
pub use absorb::tag_width;
pub use arthur::Arthur;
pub use arthur::Safe;
pub use arthur::Sealed;
pub use challenge::Challenge;
pub use challenge::Sampler;
pub use challenge::lemma_sampling_width_duality;
pub use challenge::lemma_squeezed_split;
pub use challenge::lemma_squeezed_subrange;
pub use challenge::squeeze_fn;
pub use challenge::squeezed;
pub use driver::Bevis;
pub use driver::Proof;
pub use driver::SafeProof;
pub use driver::lemma_domain_separation;
pub use driver::lemma_recursive_isolation;
pub use driver::prove;
pub use driver::verify;
pub use duplex::Duplex;
pub use duplex::SpongeOp;
pub use duplex::lemma_log_extends;
pub use duplex::lemma_prefix_trans;
pub use duplex::lemma_writes_concat;
pub use duplex::reads;
pub use duplex::writes;
pub use example::Frame;
pub use example::Nested;
pub use example::Pf;
pub use example::PfError;
pub use msg::Msg;
pub use msg::Tx;
pub use rng::Rng;
pub use simple::SimpleSponge;
pub use simple::spec_mix;
pub use simple::spec_state_of;
pub use transcript::SpongeTranscript;
pub use transcript::Transcript;
pub use transcript::lemma_send_recv_equivalence;

use vstd::string::StringSliceAdditionalSpecFns;

verus! {

/// A keyed duplex construction: it can both absorb words and squeeze
/// pseudorandom words, and it is created from a separator string that keys
/// the whole construction.
pub trait Sponge: absorb::Hasher + challenge::Sampler {
    /// Create a sponge keyed by `sep`: its log starts with the canonical
    /// string encoding of the separator.
    fn new(sep: &str) -> (s: Self)
        ensures
            s.log() == duplex::writes(absorb::spec_bytes_enc(sep.spec_bytes())),
    ;
}

} // verus!
