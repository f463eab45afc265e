use bevis::Msg;
use bevis::Sampler;
use bevis::SimpleSponge;
use bevis::SpongeTranscript;
use bevis::Transcript;

fn fresh(sep: &str) -> SpongeTranscript<SimpleSponge> {
    SpongeTranscript::<SimpleSponge>::new(sep)
}

#[test]
fn send_and_recv_mutate_sponges_identically() {
    let mut prover = fresh("equiv");
    let mut verifier = fresh("equiv");

    let msg = prover.send(0xfeed_beefu32);
    let got = verifier.recv(msg);
    assert_eq!(got, 0xfeed_beefu32);

    assert_eq!(prover.fill(32), verifier.fill(32));
    let cp: u64 = prover.challenge();
    let cv: u64 = verifier.challenge();
    assert_eq!(cp, cv);
}

#[test]
fn messages_from_the_wire_equal_sent_messages() {
    let mut prover = fresh("wire");
    let mut verifier = fresh("wire");

    let _sent = prover.send(41u32);
    // The verifier's copy arrived from outside (deserialized), not from the
    // prover's send; absorbing it must land the sponge in the same state.
    let wire: Msg<u32> = Msg::new(41u32);
    let _got = verifier.recv(wire);

    assert_eq!(prover.fill(16), verifier.fill(16));
}

#[test]
fn same_operations_same_challenges() {
    let mut a = fresh("det");
    let mut b = fresh("det");
    a.append(&"round one");
    b.append(&"round one");
    a.append(&vec![1u16, 2, 3]);
    b.append(&vec![1u16, 2, 3]);
    let ca: u32 = a.challenge();
    let cb: u32 = b.challenge();
    assert_eq!(ca, cb);
    // and further output stays in lock step after interleaved squeezing
    a.append(&0xabu8);
    b.append(&0xabu8);
    assert_eq!(a.fill(8), b.fill(8));
}

#[test]
fn different_labels_diverge() {
    let mut a = fresh("sep");
    let mut b = fresh("sep");
    a.append(&"A");
    b.append(&"B");
    let ca: u32 = a.challenge();
    let cb: u32 = b.challenge();
    assert_ne!(ca, cb);
}

#[test]
fn nested_label_diverges_from_top_level() {
    let mut top = fresh("sep");
    let mut nested = fresh("sep");
    top.append(&"Sub Proof");
    nested.append(&"Parent Proof");
    nested.append(&"Sub Proof");
    let ct: u64 = top.challenge();
    let cn: u64 = nested.challenge();
    assert_ne!(ct, cn);
}

#[test]
fn product_challenges_sample_fields_in_order() {
    let mut whole = fresh("pair");
    let mut parts = fresh("pair");
    let (x, y): (u32, u16) = whole.challenge();
    let x2: u32 = parts.challenge();
    let y2: u16 = parts.challenge();
    assert_eq!((x, y), (x2, y2));
}

#[test]
fn array_challenges_sample_elements_in_order() {
    let mut whole = fresh("arr");
    let mut parts = fresh("arr");
    let a: [u32; 3] = whole.challenge();
    let e0: u32 = parts.challenge();
    let e1: u32 = parts.challenge();
    let e2: u32 = parts.challenge();
    assert_eq!(a, [e0, e1, e2]);
}

#[test]
fn bool_challenge_is_low_bit() {
    let mut a = fresh("bit");
    let mut b = fresh("bit");
    let bit: bool = a.challenge();
    let byte: u8 = b.challenge();
    assert_eq!(bit, byte & 1 == 1);
}

#[test]
fn integer_challenges_read_little_endian() {
    let mut a = fresh("int");
    let mut b = fresh("int");
    let wide: u32 = a.challenge();
    let bytes = b.fill(4);
    assert_eq!(
        wide,
        u32::from_le_bytes([bytes[0], bytes[1], bytes[2], bytes[3]])
    );

    let mut c = fresh("int2");
    let mut d = fresh("int2");
    let signed: i64 = c.challenge();
    let unsigned: u64 = d.challenge();
    assert_eq!(signed, unsigned as i64);
}
