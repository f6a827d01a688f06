use foldpot::error::Error;
use foldpot::field::Field;
use foldpot::field_fr::Fr;

#[test]
fn texts_of_errors() {
    assert_eq!(Error::NoMultiInstances.text(), "NoMultiInstances");
    assert_eq!(Error::MaxStep.text(), "MaxStep");
    assert_eq!(Error::OutOfBounds.text(), "OutOfBounds");
    assert_eq!(Error::NotEqual.text(), "NotEqual");
    assert_eq!(Error::NotSatisfied.text(), "NotSatisfied");
    assert_eq!(Error::CommitmentFail.text(), "CommitmentFail");
    assert_eq!(Error::IVCVerificationFail.text(), "IVCVerificationFail");
    assert_eq!(Error::NotEnoughSteps.text(), "NotEnoughSteps");
    assert_eq!(Error::SNARKVerificationFail.text(), "SNARKVerificationFail");
    assert_eq!(Error::NotExpectedLength(0, 1023).text(), "NotExpectedLength(0, 1023)");
    assert_eq!(Error::MissingValue("x".to_string()).text(), "MissingValue(\"x\")");
    assert_eq!(Error::NotSupported("a b".to_string()).text(), "NotSupported(\"a b\")");
    assert_eq!(Error::Other(String::new()).text(), "Other(\"\")");
    let e = Error::NotSameLength("a".to_string(), 10, "b".to_string(), usize::MAX);
    assert_eq!(e.text(), format!("NotSameLength(\"a\", 10, \"b\", {})", usize::MAX));
    let e = Error::CapErr(vec![("n".to_string(), 3), ("m".to_string(), 40)]);
    assert_eq!(e.text(), "CapErr([(\"n\", 3), (\"m\", 40)])");
    assert_eq!(Error::CapErr(vec![]).text(), "CapErr([])");
}

#[test]
fn field_elements_in_decimal() {
    let last = Fr::zero().minus(&Fr::one());
    let e = Error::IncorrectBlinding(true, vec![Fr::zero(), Fr::from_u64(u64::MAX), last]);
    assert_eq!(
        e.text(),
        "IncorrectBlinding(true, [0, 18446744073709551615, \
         21888242871839275222246405745257275088548364400416034343698204186575808495616])",
    );
    assert_eq!(Error::IncorrectBlinding(false, vec![]).text(), "IncorrectBlinding(false, [])");
}
