// Placeholder suite for derive-driven challenge types: the sampling rules
// themselves are exercised in transcript_equiv.

#[test]
fn test() {}
