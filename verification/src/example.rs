//! A small complete protocol: one unconditional message, one message that
//! is read only when the first one asks for it.
//!
//! It exercises the whole driver — domain separation, statement binding,
//! conditional reads, recursive composition — and its contracts pin the
//! exact transcript log and the exact accept/reject outcome.

use vstd::prelude::*;

use crate::absorb::Absorb;
use crate::absorb::Hasher;
use crate::absorb::absorb_tag;
use crate::absorb::spec_bytes_enc;
use crate::absorb::spec_tag_enc;
use crate::arthur::Sealed;
use crate::challenge::squeeze_fn;
use crate::driver::Proof;
use crate::driver::SafeProof;
use crate::duplex::SpongeOp;
use crate::duplex::lemma_log_extends;
use crate::duplex::lemma_prefix_trans;
use crate::duplex::lemma_writes_concat;
use crate::duplex::writes;
use crate::msg::Msg;
use crate::msg::Tx;
use crate::rng::Rng;
use crate::transcript::Transcript;
use vstd::string::StringSliceAdditionalSpecFns;

verus! {

/// The example protocol's failure: the second field failed its parity
/// check.
pub enum PfError {
    CheckFailed,
}

/// The example proof: a selector message `v`, and a payload `w` that the
/// verifier reads only when `v` is nonzero.  The payload passes when it is
/// even.
pub struct Pf {
    pub v: Msg<u32>,
    pub w: Msg<u32>,
}

impl Proof for Pf {
    type CRS = ();

    type Error = PfError;

    type Output = ();

    type Witness = (u32, u32);

    type Statement = ();

    open spec fn spec_name() -> Seq<u8> {
        "Test Proof".spec_bytes()
    }

    /// When the selector is zero the proof passes; when it is nonzero the
    /// payload must be even.  The protocol samples no challenge, so the
    /// squeeze function and the log play no part.
    open spec fn spec_outcome(
        crs: &(),
        st: &(),
        pf: Pf,
        squeeze: spec_fn(Seq<SpongeOp>) -> u8,
        log: Seq<SpongeOp>,
    ) -> Result<(), PfError> {
        if pf.v@ == 0 {
            Ok(())
        } else if pf.w@ % 2 == 0 {
            Ok(())
        } else {
            Err(PfError::CheckFailed)
        }
    }

    /// An honest prover refuses an odd payload; otherwise it wraps exactly
    /// the witness values.
    open spec fn spec_proved(
        crs: &(),
        st: &(),
        wit: &(u32, u32),
        squeeze: spec_fn(Seq<SpongeOp>) -> u8,
        log: Seq<SpongeOp>,
        r: Result<Pf, PfError>,
    ) -> bool {
        if wit.0 != 0 && wit.1 % 2 != 0 {
            r == Err::<Pf, PfError>(PfError::CheckFailed)
        } else {
            r matches Ok(pf) && pf.v@ == wit.0 && pf.w@ == wit.1
        }
    }

    fn name() -> (n: &'static str)
    {
        "Test Proof"
    }

    fn verify<T: Transcript + Sealed>(
        self,
        crs: &(),
        st: &(),
        ts: &mut T,
    ) -> (r: Result<(), PfError>)
        ensures
            self.v@ == 0 ==> final(ts).log() == old(ts).log() + writes(self.v@.enc()),
            self.v@ != 0 ==> final(ts).log() == old(ts).log() + writes(self.v@.enc())
                + writes(self.w@.enc()),
    {
        let Pf { v, w } = self;
        let ghost base = ts.log();
        let ghost ev = v@.enc();
        let ghost ew = w@.enc();
        let x = ts.recv(v);
        if x != 0 {
            let y = ts.recv(w);
            proof {
                lemma_log_extends(base, writes(ev) + writes(ew));
                assert(base + (writes(ev) + writes(ew)) =~= base + writes(ev) + writes(ew));
            }
            if y % 2 == 0 {
                Ok(())
            } else {
                Err(PfError::CheckFailed)
            }
        } else {
            proof {
                lemma_log_extends(base, writes(ev));
            }
            Ok(())
        }
    }

    fn prove<T: Transcript + Sealed, R: Rng>(
        crs: &(),
        st: &(),
        wit: &(u32, u32),
        rng: &mut R,
        ts: &mut T,
    ) -> (r: Result<Pf, PfError>)
        ensures
            wit.0 == 0 ==> final(ts).log() == old(ts).log() + writes(wit.0.enc()),
            wit.0 != 0 && wit.1 % 2 == 0 ==> final(ts).log() == old(ts).log()
                + writes(wit.0.enc()) + writes(wit.1.enc()),
            wit.0 != 0 && wit.1 % 2 != 0 ==> final(ts).log() == old(ts).log()
                + writes(wit.0.enc()),
    {
        let ghost base = ts.log();
        let ghost ev = wit.0.enc();
        let ghost ew = wit.1.enc();
        let m_v = ts.send(wit.0);
        if wit.0 != 0 {
            if wit.1 % 2 != 0 {
                proof {
                    lemma_log_extends(base, writes(ev));
                }
                return Err(PfError::CheckFailed);
            }
            let m_w = ts.send(wit.1);
            proof {
                lemma_log_extends(base, writes(ev) + writes(ew));
                assert(base + (writes(ev) + writes(ew)) =~= base + writes(ev) + writes(ew));
            }
            Ok(Pf { v: m_v, w: m_w })
        } else {
            let m_w = Msg::new(wit.1);
            proof {
                lemma_log_extends(base, writes(ev));
            }
            Ok(Pf { v: m_v, w: m_w })
        }
    }
}

/// A tagged union with a unit variant, a one-field variant and a
/// two-field variant.  Its encoding follows the union rule to the letter:
/// the variant index in the type-level width, then the chosen variant's
/// fields in declaration order with no further tagging.
pub enum Frame {
    Empty,
    Word(u32),
    Pair(u64, Option<bool>),
}

impl Absorb for Frame {
    open spec fn enc(&self) -> Seq<u8> {
        match self {
            Frame::Empty => spec_tag_enc(3, 0),
            Frame::Word(x) => spec_tag_enc(3, 1) + x.enc(),
            Frame::Pair(x, ob) => spec_tag_enc(3, 2) + x.enc() + ob.enc(),
        }
    }

    fn absorb<H: Hasher>(&self, h: &mut H)
    {
        let ghost pre = h.log();
        match self {
            Frame::Empty => {
                absorb_tag(h, 3, 0);
            },
            Frame::Word(x) => {
                absorb_tag(h, 3, 1);
                x.absorb(h);
                proof {
                    lemma_writes_concat(spec_tag_enc(3, 1), x.enc());
                    assert(pre + writes(spec_tag_enc(3, 1)) + writes(x.enc())
                        =~= pre + writes(self.enc()));
                }
            },
            Frame::Pair(x, ob) => {
                absorb_tag(h, 3, 2);
                x.absorb(h);
                ob.absorb(h);
                proof {
                    lemma_writes_concat(spec_tag_enc(3, 2) + x.enc(), ob.enc());
                    lemma_writes_concat(spec_tag_enc(3, 2), x.enc());
                    assert(pre + writes(spec_tag_enc(3, 2)) + writes(x.enc()) + writes(ob.enc())
                        =~= pre + writes(self.enc()));
                }
            },
        }
    }
}

/// The example proof consists of messages alone, so it is a safe proof:
/// no payload can be used before it is absorbed.
impl Tx for Pf {
    fn read(&self)
    {
    }
}

impl SafeProof for Pf {}

/// A parent protocol whose whole interaction is one recursive run of the
/// example protocol on the same sealed transcript.  The sub-protocol's
/// name is absorbed after the parent's, not instead of it, so its
/// challenges can never collide with a top-level run.
pub struct Nested {
    pub sub: Pf,
}

impl Proof for Nested {
    type CRS = ();

    type Error = PfError;

    type Output = ();

    type Witness = (u32, u32);

    type Statement = ();

    open spec fn spec_name() -> Seq<u8> {
        "Parent Proof".spec_bytes()
    }

    /// The parent's verdict is the sub-protocol's verdict, taken at the
    /// log the nested binding of the sub-protocol's name and statement
    /// leaves behind.
    open spec fn spec_outcome(
        crs: &(),
        st: &(),
        pf: Nested,
        squeeze: spec_fn(Seq<SpongeOp>) -> u8,
        log: Seq<SpongeOp>,
    ) -> Result<(), PfError> {
        <Pf as Proof>::spec_outcome(
            crs,
            st,
            pf.sub,
            squeeze,
            log + writes(spec_bytes_enc(<Pf as Proof>::spec_name())) + writes(().enc()),
        )
    }

    open spec fn spec_proved(
        crs: &(),
        st: &(),
        wit: &(u32, u32),
        squeeze: spec_fn(Seq<SpongeOp>) -> u8,
        log: Seq<SpongeOp>,
        r: Result<Nested, PfError>,
    ) -> bool {
        if wit.0 != 0 && wit.1 % 2 != 0 {
            r == Err::<Nested, PfError>(PfError::CheckFailed)
        } else {
            r matches Ok(n) && n.sub.v@ == wit.0 && n.sub.w@ == wit.1
        }
    }

    fn name() -> (n: &'static str)
    {
        "Parent Proof"
    }

    fn verify<T: Transcript + Sealed>(
        self,
        crs: &(),
        st: &(),
        ts: &mut T,
    ) -> (r: Result<(), PfError>)
        ensures
            self.sub.v@ == 0 ==> r == Ok::<(), PfError>(()) && final(ts).log() == old(ts).log()
                + writes(spec_bytes_enc(<Pf as Proof>::spec_name())) + writes(().enc())
                + writes(self.sub.v@.enc()),
            self.sub.v@ != 0 ==> final(ts).log() == old(ts).log() + writes(
                spec_bytes_enc(<Pf as Proof>::spec_name()),
            ) + writes(().enc()) + writes(self.sub.v@.enc()) + writes(self.sub.w@.enc()),
            self.sub.v@ != 0 && self.sub.w@ % 2 == 0 ==> r == Ok::<(), PfError>(()),
            self.sub.v@ != 0 && self.sub.w@ % 2 != 0 ==> r == Err::<(), PfError>(
                PfError::CheckFailed,
            ),
    {
        let Nested { sub } = self;
        let ghost base = ts.log();
        let name: &str = <Pf as Proof>::name();
        ts.append(&name);
        ts.append(&());
        let ghost bound = ts.log();
        let r = Proof::verify(sub, crs, st, ts);
        proof {
            assert(bound =~= base + writes(spec_bytes_enc(<Pf as Proof>::spec_name())) + writes(
                ().enc(),
            ));
            lemma_log_extends(base, writes(spec_bytes_enc(<Pf as Proof>::spec_name())) + writes(
                ().enc(),
            ));
            assert(base + (writes(spec_bytes_enc(<Pf as Proof>::spec_name())) + writes(().enc()))
                =~= bound);
            lemma_prefix_trans(base, bound, ts.log());
        }
        r
    }

    fn prove<T: Transcript + Sealed, R: Rng>(
        crs: &(),
        st: &(),
        wit: &(u32, u32),
        rng: &mut R,
        ts: &mut T,
    ) -> (r: Result<Nested, PfError>)
        ensures
            wit.0 == 0 ==> final(ts).log() == old(ts).log() + writes(
                spec_bytes_enc(<Pf as Proof>::spec_name()),
            ) + writes(().enc()) + writes(wit.0.enc()),
            wit.0 != 0 && wit.1 % 2 == 0 ==> final(ts).log() == old(ts).log() + writes(
                spec_bytes_enc(<Pf as Proof>::spec_name()),
            ) + writes(().enc()) + writes(wit.0.enc()) + writes(wit.1.enc()),
            wit.0 != 0 && wit.1 % 2 != 0 ==> r == Err::<Nested, PfError>(PfError::CheckFailed)
                && final(ts).log() == old(ts).log() + writes(
                spec_bytes_enc(<Pf as Proof>::spec_name()),
            ) + writes(().enc()) + writes(wit.0.enc()),
    {
        let ghost base = ts.log();
        let name: &str = <Pf as Proof>::name();
        ts.append(&name);
        ts.append(&());
        let ghost bound = ts.log();
        let r = <Pf as Proof>::prove(crs, st, wit, rng, ts);
        proof {
            assert(bound =~= base + writes(spec_bytes_enc(<Pf as Proof>::spec_name())) + writes(
                ().enc(),
            ));
            lemma_log_extends(base, writes(spec_bytes_enc(<Pf as Proof>::spec_name())) + writes(
                ().enc(),
            ));
            assert(base + (writes(spec_bytes_enc(<Pf as Proof>::spec_name())) + writes(().enc()))
                =~= bound);
            lemma_prefix_trans(base, bound, ts.log());
        }
        match r {
            Ok(sub) => Ok(Nested { sub }),
            Err(e) => Err(e),
        }
    }
}

} // verus!
