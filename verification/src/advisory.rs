//! The advisory comparison of the number of records with the count that the
//! listing reports for itself. A disagreement is worth a warning, never a
//! failure.

use vstd::prelude::*;

verus! {

/// How the number of extracted records stands to the reported count.
#[derive(Debug, Clone, Copy, PartialEq, Eq)]
pub enum CountAdvice {
    /// No count was reported, or it is the number of records.
    Agrees,
    /// Fewer records were extracted than reported.
    Fewer,
    /// More records were extracted than reported.
    More,
}

/// The advice for `extracted` records against the reported count.
pub open spec fn advice_for(extracted: usize, expected: Option<usize>) -> CountAdvice {
    match expected {
        None => CountAdvice::Agrees,
        Some(count) => if extracted < count {
            CountAdvice::Fewer
        } else if extracted > count {
            CountAdvice::More
        } else {
            CountAdvice::Agrees
        },
    }
}

/// Compares the number of extracted records with the reported count.
pub fn advise(extracted: usize, expected: Option<usize>) -> (advice: CountAdvice)
    ensures
        advice == advice_for(extracted, expected),
{
    match expected {
        None => CountAdvice::Agrees,
        Some(count) => {
            if extracted < count {
                CountAdvice::Fewer
            } else if extracted > count {
                CountAdvice::More
            } else {
                CountAdvice::Agrees
            }
        },
    }
}

} // verus!
