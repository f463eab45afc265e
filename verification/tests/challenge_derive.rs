use bevis::SimpleSponge;
use bevis::Sampler;
use bevis::Sponge;

#[test]
fn challenge_test() {
    // Sampling a struct means sampling each field in declaration order:
    // mirror the per-field rule by hand for a two-field aggregate.
    let mut whole = SimpleSponge::new("derive");
    let mut fields = SimpleSponge::new("derive");
    let k: [u8; 4] = {
        let v = whole.fill(4);
        [v[0], v[1], v[2], v[3]]
    };
    let w = whole.read();
    let k2 = fields.fill(4);
    let w2 = fields.read();
    assert_eq!(&k[..], &k2[..]);
    assert_eq!(w, w2);
}
