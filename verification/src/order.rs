//! Sorted lists without repetitions.

use vstd::prelude::*;

verus! {

/// Records that stand in a fixed total order.
pub trait Ranked: Copy {
    /// The record comes before `other`.
    spec fn before(self, other: Self) -> bool;

    /// No record comes before itself.
    proof fn not_before_itself(self)
        ensures
            !self.before(self),
    ;

    /// The order is transitive.
    proof fn before_chains(self, middle: Self, last: Self)
        requires
            self.before(middle),
            middle.before(last),
        ensures
            self.before(last),
    ;

    /// Of two different records one comes before the other.
    proof fn before_decides(self, other: Self)
        ensures
            self.before(other) || other.before(self) || self == other,
    ;

    /// Whether the record comes before `other`.
    fn precedes(&self, other: &Self) -> (answer: bool)
        ensures
            answer == self.before(*other),
    ;
}

/// Every record comes before all that follow it. So none occurs twice.
pub open spec fn increasing<T: Ranked>(records: Seq<T>) -> bool {
    forall|i: int, j: int|
        0 <= i < j < records.len() ==> #[trigger] records[i].before(#[trigger] records[j])
}

/// `sorted` lists the records of `records`, each once and in order.
pub open spec fn lists_in_order<T: Ranked>(sorted: Seq<T>, records: Seq<T>) -> bool {
    &&& increasing(sorted)
    &&& forall|record: T| #[trigger] sorted.contains(record) <==> records.contains(record)
}

/// The position of the first record of `sorted` that does not come before `record`.
fn rank_of<T: Ranked>(sorted: &Vec<T>, record: &T) -> (position: usize)
    requires
        increasing(sorted@),
    ensures
        position <= sorted.len(),
        forall|i: int| 0 <= i < position ==> (#[trigger] sorted@[i]).before(*record),
        forall|i: int| position <= i < sorted.len() ==> !(#[trigger] sorted@[i]).before(*record),
{
    let mut low: usize = 0;
    let mut high: usize = sorted.len();
    while low < high
        invariant
            increasing(sorted@),
            low <= high <= sorted.len(),
            forall|i: int| 0 <= i < low ==> (#[trigger] sorted@[i]).before(*record),
            forall|i: int| high <= i < sorted.len() ==> !(#[trigger] sorted@[i]).before(*record),
        decreases high - low,
    {
        let middle: usize = low + (high - low) / 2;
        if sorted[middle].precedes(record) {
            proof {
                assert forall|i: int| 0 <= i < middle + 1 implies (#[trigger] sorted@[i]).before(
                    *record,
                ) by {
                    if i < middle {
                        sorted@[i].before_chains(sorted@[middle as int], *record);
                    }
                }
            }
            low = middle + 1;
        } else {
            proof {
                assert forall|i: int| middle <= i < sorted.len() implies !(
                #[trigger] sorted@[i]).before(*record) by {
                    if middle < i && sorted@[i].before(*record) {
                        sorted@[middle as int].before_chains(sorted@[i], *record);
                    }
                }
            }
            high = middle;
        }
    }
    low
}

/// List the records in order, each once.
pub fn in_order<T: Ranked>(records: &Vec<T>) -> (sorted: Vec<T>)
    ensures
        lists_in_order(sorted@, records@),
{
    let mut sorted: Vec<T> = Vec::new();
    let mut next: usize = 0;
    while next < records.len()
        invariant
            next <= records.len(),
            lists_in_order(sorted@, records@.take(next as int)),
        decreases records.len() - next,
    {
        let record = records[next];
        let position: usize = rank_of(&sorted, &record);
        let ghost before = sorted@;
        let ghost done = records@.take(next as int);
        let ghost more = records@.take(next + 1);
        assert(more =~= done.push(record));
        if position == sorted.len() || record.precedes(&sorted[position]) {
            sorted.insert(position, record);
            proof {
                assert forall|i: int, j: int| 0 <= i < j < sorted.len() implies (
                #[trigger] sorted@[i]).before(#[trigger] sorted@[j]) by {
                    if i == position && j > position + 1 {
                        record.before_chains(before[position as int], before[j - 1]);
                    }
                }
                assert forall|x: T| #[trigger] sorted@.contains(x) <==> more.contains(x) by {
                    if sorted@.contains(x) {
                        let i = choose|i: int| 0 <= i < sorted.len() && sorted@[i] == x;
                        if i < position {
                            assert(before[i] == x);
                            assert(before.contains(x));
                            let k = choose|k: int| 0 <= k < done.len() && done[k] == x;
                            assert(more[k] == x);
                        } else if i > position {
                            assert(before[i - 1] == x);
                            assert(before.contains(x));
                            let k = choose|k: int| 0 <= k < done.len() && done[k] == x;
                            assert(more[k] == x);
                        } else {
                            assert(more[next as int] == x);
                        }
                    }
                    if more.contains(x) {
                        let k = choose|k: int| 0 <= k < more.len() && more[k] == x;
                        if k < next {
                            assert(done[k] == x);
                            assert(done.contains(x));
                            assert(before.contains(x));
                            let i = choose|i: int| 0 <= i < before.len() && before[i] == x;
                            if i < position {
                                assert(sorted@[i] == x);
                            } else {
                                assert(sorted@[i + 1] == x);
                            }
                        } else {
                            assert(sorted@[position as int] == x);
                        }
                    }
                }
            }
        } else {
            proof {
                record.before_decides(sorted@[position as int]);
                assert forall|x: T| #[trigger] sorted@.contains(x) <==> more.contains(x) by {
                    if sorted@.contains(x) {
                        assert(done.contains(x));
                        let k = choose|k: int| 0 <= k < done.len() && done[k] == x;
                        assert(more[k] == x);
                    }
                    if more.contains(x) {
                        let k = choose|k: int| 0 <= k < more.len() && more[k] == x;
                        if k < next {
                            assert(done[k] == x);
                            assert(done.contains(x));
                        } else {
                            assert(sorted@[position as int] == x);
                        }
                    }
                }
            }
        }
        next += 1;
    }
    assert(records@.take(next as int) =~= records@);
    sorted
}

/// There is only one way to list given records in order: two increasing lists of the same
/// records are the same list.
pub proof fn order_is_unique<T: Ranked>(first: Seq<T>, second: Seq<T>)
    requires
        increasing(first),
        increasing(second),
        forall|record: T| #[trigger] first.contains(record) <==> second.contains(record),
    ensures
        first == second,
    decreases first.len(),
{
    if first.len() == 0 {
        if second.len() > 0 {
            assert(second.contains(second[0]));
            assert(first.contains(second[0]));
        }
        assert(first =~= second);
    } else {
        assert(first.contains(first[0]));
        let k = choose|k: int| 0 <= k < second.len() && second[k] == first[0];
        assert(second.contains(second[0]));
        assert(first.contains(second[0]));
        let m = choose|m: int| 0 <= m < first.len() && first[m] == second[0];
        first[0].not_before_itself();
        if k > 0 {
            assert(second[0].before(second[k]));
            if m > 0 {
                assert(first[0].before(first[m]));
                first[0].before_chains(second[0], first[0]);
            }
            assert(false);
        }
        let rest = first.drop_first();
        let other = second.drop_first();
        assert(increasing(rest)) by {
            assert forall|i: int, j: int| 0 <= i < j < rest.len() implies (
            #[trigger] rest[i]).before(#[trigger] rest[j]) by {
                assert(first[i + 1].before(first[j + 1]));
            }
        }
        assert(increasing(other)) by {
            assert forall|i: int, j: int| 0 <= i < j < other.len() implies (
            #[trigger] other[i]).before(#[trigger] other[j]) by {
                assert(second[i + 1].before(second[j + 1]));
            }
        }
        assert forall|x: T| #[trigger] rest.contains(x) <==> other.contains(x) by {
            if rest.contains(x) {
                let i = choose|i: int| 0 <= i < rest.len() && rest[i] == x;
                assert(first[i + 1] == x);
                assert(first[0].before(first[i + 1]));
                assert(first.contains(x));
                let j = choose|j: int| 0 <= j < second.len() && second[j] == x;
                assert(j != 0);
                assert(other[j - 1] == x);
            }
            if other.contains(x) {
                let i = choose|i: int| 0 <= i < other.len() && other[i] == x;
                assert(second[i + 1] == x);
                assert(second[0].before(second[i + 1]));
                assert(second.contains(x));
                assert(first.contains(x));
                let j = choose|j: int| 0 <= j < first.len() && first[j] == x;
                assert(j != 0);
                assert(rest[j - 1] == x);
            }
        }
        order_is_unique(rest, other);
        assert(first =~= seq![first[0]] + rest);
        assert(second =~= seq![second[0]] + other);
    }
}

} // verus!
