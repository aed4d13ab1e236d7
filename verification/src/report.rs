//! The dump of feature vectors on the diagnostic output, from which
//! training data is captured: a line `NewData`, one line for each value, and
//! a line `EndData` followed by an empty line.

use vstd::prelude::*;

verus! {

/// The lines of one dump: the opening line, the values in order, and the
/// closing line, which ends in a line feed of its own.
pub open spec fn frame_spec(values: Seq<Seq<char>>) -> Seq<Seq<char>> {
    seq!["NewData"@] + values + seq!["EndData\n"@]
}

/// The lines that dump one feature vector, given each value as it is to be
/// printed.
pub fn frame(values: &Vec<String>) -> (lines: Vec<String>)
    ensures
        lines@.map_values(|line: String| line@) == frame_spec(
            values@.map_values(|value: String| value@),
        ),
{
    let mut lines: Vec<String> = Vec::new();
    lines.push("NewData".to_owned());
    let mut i: usize = 0;
    while i < values.len()
        invariant
            i <= values@.len(),
            lines@.len() == i + 1,
            lines@[0]@ == "NewData"@,
            forall|j: int| 0 <= j < i ==> (#[trigger] lines@[j + 1])@ == values@[j]@,
        decreases values@.len() - i,
    {
        lines.push(values[i].clone());
        i += 1;
    }
    lines.push("EndData\n".to_owned());
    proof {
        let got = lines@.map_values(|line: String| line@);
        let given = values@.map_values(|value: String| value@);
        let head = seq!["NewData"@];
        let wanted = frame_spec(given);
        assert(head.len() == 1);
        assert(wanted.len() == given.len() + 2);
        assert(got.len() == wanted.len());
        assert forall|k: int| 0 <= k < got.len() implies got[k] == wanted[k] by {
            if k == 0 {
                assert(wanted[0] == head[0]);
            } else if k <= given.len() {
                assert((head + given)[k] == given[k - 1]);
                assert(lines@[(k - 1) + 1]@ == values@[k - 1]@);
            } else {
                assert(wanted[k] == seq!["EndData\n"@][0]);
            }
        }
        assert(got =~= wanted);
    }
    lines
}

} // verus!
