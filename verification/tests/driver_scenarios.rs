use bevis::Msg;
use bevis::Nested;
use bevis::Pf;
use bevis::PfError;
use bevis::SimpleSponge;
use bevis::Sponge;
use bevis::SpongeTranscript;
use bevis::Transcript;
use bevis::prove;
use bevis::verify;

fn fresh(sep: &str) -> SpongeTranscript<SimpleSponge> {
    SpongeTranscript::<SimpleSponge>::new(sep)
}

#[test]
fn zero_selector_skips_second_message_and_succeeds() {
    let mut rng = SimpleSponge::new("rng");
    let (proved, mut prover_ts) = prove::<Pf, _, _>(fresh("e2e"), &(), &(), &(0, 77), &mut rng);
    let pf = match proved {
        Ok(pf) => pf,
        Err(_) => panic!("prover failed"),
    };

    let (out, mut verifier_ts) = verify::<Pf, _>(fresh("e2e"), &(), &(), pf);
    assert!(out.is_ok());

    // The verifier read only the selector: its transcript equals one that
    // absorbed label, statement and the selector message, nothing more.
    let mut manual = fresh("e2e");
    manual.append(&"Test Proof");
    manual.append(&());
    manual.append(&0u32);
    let cm: u64 = manual.challenge();
    let cv: u64 = verifier_ts.challenge();
    assert_eq!(cm, cv);

    // Prover and verifier agree word for word afterwards.
    let cp: u64 = prover_ts.challenge();
    assert_eq!(cp, cv);
}

#[test]
fn even_payload_passes_odd_payload_fails() {
    let mut rng = SimpleSponge::new("rng");
    let (proved, mut prover_ts) = prove::<Pf, _, _>(fresh("e2e"), &(), &(), &(7, 4), &mut rng);
    let pf = match proved {
        Ok(pf) => pf,
        Err(_) => panic!("prover failed"),
    };

    let (out, mut verifier_ts) = verify::<Pf, _>(fresh("e2e"), &(), &(), pf);
    assert!(out.is_ok());
    let cp: u64 = prover_ts.challenge();
    let cv: u64 = verifier_ts.challenge();
    assert_eq!(cp, cv);

    // An honest prover refuses an odd payload outright.
    let (refused, _) = prove::<Pf, _, _>(fresh("e2e"), &(), &(), &(7, 3), &mut rng);
    assert!(matches!(refused, Err(PfError::CheckFailed)));

    // A dishonest proof with an odd payload is rejected.
    let forged = Pf {
        v: Msg::new(7u32),
        w: Msg::new(3u32),
    };
    let (rejected, _) = verify::<Pf, _>(fresh("e2e"), &(), &(), forged);
    assert!(matches!(rejected, Err(PfError::CheckFailed)));
}

#[test]
fn sub_protocol_challenges_differ_from_top_level() {
    // Run the example protocol at top level...
    let pf = Pf {
        v: Msg::new(7u32),
        w: Msg::new(4u32),
    };
    let (out_top, mut top_ts) = verify::<Pf, _>(fresh("iso"), &(), &(), pf);
    assert!(out_top.is_ok());
    let c_top: u64 = top_ts.challenge();

    // ...and nested under a parent protocol, over the same separator and
    // the same statement and messages.
    let nested = Nested {
        sub: Pf {
            v: Msg::new(7u32),
            w: Msg::new(4u32),
        },
    };
    let (out_nested, mut nested_ts) = verify::<Nested, _>(fresh("iso"), &(), &(), nested);
    assert!(out_nested.is_ok());
    let c_nested: u64 = nested_ts.challenge();

    assert_ne!(c_top, c_nested);
}

#[test]
fn domain_separation_between_protocol_names() {
    // Same statement, same message bytes, different protocol name: the
    // first squeezed challenge diverges.
    let mut a = fresh("dom");
    a.append(&"Proto A");
    a.append(&());
    a.append(&5u32);
    let mut b = fresh("dom");
    b.append(&"Proto B");
    b.append(&());
    b.append(&5u32);
    let ca: u32 = a.challenge();
    let cb: u32 = b.challenge();
    assert_ne!(ca, cb);
}

#[test]
fn prover_and_verifier_compute_identical_transcripts_for_nested_runs() {
    let mut rng = SimpleSponge::new("rng");
    let (proved, mut prover_ts) =
        prove::<Nested, _, _>(fresh("nested"), &(), &(), &(7, 8), &mut rng);
    let nested = match proved {
        Ok(n) => n,
        Err(_) => panic!("prover failed"),
    };
    let (out, mut verifier_ts) = verify::<Nested, _>(fresh("nested"), &(), &(), nested);
    assert!(out.is_ok());
    let cp: u64 = prover_ts.challenge();
    let cv: u64 = verifier_ts.challenge();
    assert_eq!(cp, cv);
}
