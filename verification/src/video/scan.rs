use vstd::prelude::*;

verus! {

/// The first place at which `marks` holds `true`.
pub open spec fn first_true(marks: Seq<bool>) -> Option<int>
    decreases marks.len(),
{
    if marks.len() == 0 {
        None
    } else {
        match first_true(marks.drop_last()) {
            Some(place) => Some(place),
            None => if marks.last() {
                Some(marks.len() - 1)
            } else {
                None
            },
        }
    }
}

/// `first_true` finds a place that holds `true` and has only `false` before
/// it, and finds none only where every place holds `false`.
pub proof fn lemma_first_true(marks: Seq<bool>)
    ensures
        match first_true(marks) {
            Some(place) => 0 <= place < marks.len() && marks[place] && forall|j: int|
                0 <= j < place ==> !marks[j],
            None => forall|j: int| 0 <= j < marks.len() ==> !marks[j],
        },
    decreases marks.len(),
{
    if marks.len() > 0 {
        let front = marks.drop_last();
        lemma_first_true(front);
        assert(forall|j: int| 0 <= j < front.len() ==> front[j] == marks[j]);
    }
}

} // verus!
