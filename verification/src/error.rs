//! What can go wrong.
use vstd::prelude::*;
use crate::field_fr::Fr;

verus! {

/// The ways in which a step, a check or a plan fails.
#[derive(Debug)]
pub enum Error {
    /// The commitments are said to be blinded and one of the blinding values is
    /// zero.
    IncorrectBlinding(bool, Vec<Fr>),
    /// Further instances were given where one alone can be folded.
    NoMultiInstances,
    /// Two lengths that must agree differ.
    NotSameLength(String, usize, String, usize),
    /// A length is not the expected one.
    NotExpectedLength(usize, usize),
    /// The step counter is beyond the machine's integers.
    MaxStep,
    /// A challenge is not below the field's modulus.
    OutOfBounds,
    /// Two values that must agree differ.
    NotEqual,
    /// A witness does not satisfy its constraints.
    NotSatisfied,
    /// A vector could not be committed to.
    CommitmentFail,
    /// An incremental computation does not verify.
    IVCVerificationFail,
    /// A decider proof is for fewer than two steps.
    NotEnoughSteps,
    /// A succinct proof does not verify.
    SNARKVerificationFail,
    /// A value that is needed is not there.
    MissingValue(String),
    /// What a circuit lacks to take a word: names and sizes.
    CapErr(Vec<(String, usize)>),
    /// Something is not supported.
    NotSupported(String),
    /// Anything else.
    Other(String),
}

/// An error as mathematical data.
pub enum ErrorView {
    IncorrectBlinding(bool, Seq<Fr>),
    NoMultiInstances,
    NotSameLength(Seq<char>, usize, Seq<char>, usize),
    NotExpectedLength(usize, usize),
    MaxStep,
    OutOfBounds,
    NotEqual,
    NotSatisfied,
    CommitmentFail,
    IVCVerificationFail,
    NotEnoughSteps,
    SNARKVerificationFail,
    MissingValue(Seq<char>),
    CapErr(Seq<(Seq<char>, usize)>),
    NotSupported(Seq<char>),
    Other(Seq<char>),
}

impl View for Error {
    type V = ErrorView;

    open spec fn view(&self) -> ErrorView {
        match self {
            Error::IncorrectBlinding(h, v) => ErrorView::IncorrectBlinding(*h, v@),
            Error::NoMultiInstances => ErrorView::NoMultiInstances,
            Error::NotSameLength(a, n, b, m) => ErrorView::NotSameLength(a@, *n, b@, *m),
            Error::NotExpectedLength(n, m) => ErrorView::NotExpectedLength(*n, *m),
            Error::MaxStep => ErrorView::MaxStep,
            Error::OutOfBounds => ErrorView::OutOfBounds,
            Error::NotEqual => ErrorView::NotEqual,
            Error::NotSatisfied => ErrorView::NotSatisfied,
            Error::CommitmentFail => ErrorView::CommitmentFail,
            Error::IVCVerificationFail => ErrorView::IVCVerificationFail,
            Error::NotEnoughSteps => ErrorView::NotEnoughSteps,
            Error::SNARKVerificationFail => ErrorView::SNARKVerificationFail,
            Error::MissingValue(s) => ErrorView::MissingValue(s@),
            Error::CapErr(v) => ErrorView::CapErr(v@.map_values(|p: (String, usize)| (p.0@, p.1))),
            Error::NotSupported(s) => ErrorView::NotSupported(s@),
            Error::Other(s) => ErrorView::Other(s@),
        }
    }
}

/// A result with its error as mathematical data.
pub open spec fn outcome<T>(r: Result<T, Error>) -> Result<T, ErrorView> {
    match r {
        Ok(x) => Ok(x),
        Err(e) => Err(e@),
    }
}

} // verus!
