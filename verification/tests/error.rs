use integrity::error::Error;

#[test]
fn each_failure_has_its_name() {
    assert_eq!(Error::IoError.name(), "i/o error");
    assert_eq!(Error::RandomnessUnavailable.name(), "randomness unavailable");
    assert_eq!(Error::InvalidIterationCount.name(), "invalid iteration count");
    assert_eq!(Error::MissingParameters.name(), "missing parameters");
    assert_eq!(Error::MalformedTag.name(), "malformed tag");
    assert_eq!(Error::CodecError.name(), "codec error");
}

#[test]
fn failures_compare_by_kind() {
    assert_eq!(Error::MalformedTag, Error::MalformedTag);
    assert_ne!(Error::MalformedTag, Error::MissingParameters);
}
