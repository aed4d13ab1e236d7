//! The gestures that the classifier tells apart, and the rule that picks
//! one from its scores.

use crate::command::bytes_equal;
use vstd::prelude::*;
use vstd::string::StringSliceAdditionalSpecFns;

verus! {

/// A gesture of the hand.
#[derive(Clone, Copy, Debug, PartialEq, Eq, Structural)]
pub enum Output {
    Flex,
    Relax,
    /// Stands for a score that belongs to no gesture.
    Unknown,
}

/// The word `flex`.
pub open spec fn flex_word() -> Seq<u8> {
    seq![0x66u8, 0x6c, 0x65, 0x78]
}

/// The word `relax`.
pub open spec fn relax_word() -> Seq<u8> {
    seq![0x72u8, 0x65, 0x6c, 0x61, 0x78]
}

impl Output {
    /// The number of gestures that the classifier scores; `Unknown` is
    /// none of them.
    pub const COUNT: usize = 2;

    /// The gesture whose score stands at `index`: `Flex` at 0, `Relax` at
    /// 1, `Unknown` for every other index.
    pub open spec fn at(index: int) -> Output {
        if index == 0 {
            Output::Flex
        } else if index == 1 {
            Output::Relax
        } else {
            Output::Unknown
        }
    }

    /// The gesture whose score stands at `index`.
    pub fn from_index(index: usize) -> (r: Output)
        ensures
            r == Output::at(index as int),
    {
        if index == 0 {
            Output::Flex
        } else if index == 1 {
            Output::Relax
        } else {
            Output::Unknown
        }
    }

    /// The index at which the score of the gesture stands; `Unknown` has
    /// the first index after those of the gestures.
    pub fn index(&self) -> (r: usize)
        ensures
            Output::at(r as int) == *self,
            *self != Output::Unknown ==> r < Output::COUNT,
            *self == Output::Unknown ==> r == Output::COUNT,
    {
        match self {
            Output::Flex => 0,
            Output::Relax => 1,
            Output::Unknown => 2,
        }
    }

    /// The gesture that a label names: `flex` or `relax`, in lower case.
    /// Any other label names none.
    pub fn from_str(string: &str) -> (r: Option<Output>)
        ensures
            string.spec_bytes() == flex_word() ==> r == Some(Output::Flex),
            string.spec_bytes() == relax_word() ==> r == Some(Output::Relax),
            string.spec_bytes() != flex_word() && string.spec_bytes() != relax_word() ==> r
                is None,
    {
        let flex: [u8; 4] = [0x66, 0x6c, 0x65, 0x78];
        let relax: [u8; 5] = [0x72, 0x65, 0x6c, 0x61, 0x78];
        assert(flex@ =~= flex_word());
        assert(relax@ =~= relax_word());
        let bytes = string.as_bytes();
        if bytes_equal(bytes, flex.as_slice()) {
            Some(Output::Flex)
        } else if bytes_equal(bytes, relax.as_slice()) {
            Some(Output::Relax)
        } else {
            None
        }
    }
}

/// Whether `index` is where the decision falls: no score is greater than
/// the one at `index`, and every later score is smaller. Of equal greatest
/// scores the last one wins.
pub open spec fn is_decisive(scores: Seq<u32>, index: int) -> bool {
    &&& 0 <= index < scores.len()
    &&& forall|j: int| 0 <= j < scores.len() ==> scores[j] <= scores[index]
    &&& forall|j: int| index < j < scores.len() ==> scores[j] < scores[index]
}

/// The same scores give the same decision: at most one index is decisive.
pub proof fn lemma_decision_unique(scores: Seq<u32>, a: int, b: int)
    requires
        is_decisive(scores, a),
        is_decisive(scores, b),
    ensures
        a == b,
{
    if a < b {
        assert(scores[b] < scores[a]);
        assert(scores[a] <= scores[b]);
    } else if b < a {
        assert(scores[a] < scores[b]);
        assert(scores[b] <= scores[a]);
    }
}

/// The outcome of a classification.
#[derive(Clone, Copy, Debug, PartialEq, Eq, Structural)]
pub struct Decision {
    /// The gesture that was picked.
    pub gesture: Output,
    /// The index of its score.
    pub index: usize,
    /// Its score.
    pub score: u32,
}

/// Picks the gesture with the greatest score. The scores stand in the
/// order of the gestures, and a greater number is a greater confidence. A
/// score beyond those of the gestures gives `Unknown`. Without a score
/// there is no decision.
pub fn decide(scores: &Vec<u32>) -> (r: Option<Decision>)
    ensures
        r is Some <==> scores@.len() > 0,
        r matches Some(decision) ==> {
            &&& is_decisive(scores@, decision.index as int)
            &&& decision.score == scores@[decision.index as int]
            &&& decision.gesture == Output::at(decision.index as int)
        },
{
    if scores.len() == 0 {
        return None;
    }
    let mut index: usize = 0;
    let mut i: usize = 1;
    while i < scores.len()
        invariant
            1 <= i <= scores@.len(),
            index < i,
            forall|j: int| 0 <= j < i ==> scores@[j] <= scores@[index as int],
            forall|j: int| index < j < i ==> scores@[j] < scores@[index as int],
        decreases scores@.len() - i,
    {
        if scores[i] >= scores[index] {
            index = i;
        }
        i += 1;
    }
    Some(Decision { gesture: Output::from_index(index), index, score: scores[index] })
}

} // verus!
