//! Log records, and the policy that a condition is reported loudly once.

use vstd::prelude::*;

verus! {

/// How loudly a record is made.
#[derive(Debug, Clone, Copy, PartialEq, Eq, Structural)]
pub enum Level {
    Warn,
    Debug,
}

/// A log record: what to say, and how loudly.
#[derive(Debug)]
pub struct Record {
    pub level: Level,
    pub message: String,
}

/// A condition that reports are counted by.
pub trait Condition: Sized {
    /// Whether two values are the same condition.
    fn same(&self, other: &Self) -> (r: bool)
        ensures
            r == (*self == *other),
    ;
}

/// The conditions already reported at [`Level::Warn`], each of them once.
pub struct Seen<C> {
    conditions: Vec<C>,
}

impl<C> View for Seen<C> {
    type V = Set<C>;

    closed spec fn view(&self) -> Set<C> {
        self.conditions@.to_set()
    }
}

impl<C> Seen<C> {
    /// No condition is held twice.
    #[verifier::type_invariant]
    spec fn distinct(self) -> bool {
        self.conditions@.no_duplicates()
    }
}

impl<C: Condition> Seen<C> {
    /// Nothing reported yet.
    pub fn new() -> (s: Seen<C>)
        ensures
            s@ == Set::<C>::empty(),
    {
        let s: Seen<C> = Seen { conditions: Vec::new() };
        assert(s@ =~= Set::<C>::empty());
        s
    }

    /// Whether `condition` has been reported.
    pub fn contains(&self, condition: &C) -> (r: bool)
        ensures
            r == self@.contains(*condition),
    {
        let mut i: usize = 0;
        while i < self.conditions.len()
            invariant
                i <= self.conditions@.len(),
                forall|j: int| 0 <= j < i ==> self.conditions@[j] != *condition,
            decreases self.conditions@.len() - i,
        {
            if self.conditions[i].same(condition) {
                assert(self.conditions@.contains(*condition));
                return true;
            }
            i += 1;
        }
        false
    }
}

/// The level of a report of `condition` after those of `seen`.
pub open spec fn level_after<C>(seen: Set<C>, condition: C) -> Level {
    if seen.contains(condition) {
        Level::Debug
    } else {
        Level::Warn
    }
}

/// What has been reported once each of `reported` has been, in turn.
pub open spec fn seen_after<C>(reported: Seq<C>) -> Set<C>
    decreases reported.len(),
{
    if reported.len() == 0 {
        Set::empty()
    } else {
        seen_after(reported.drop_last()).insert(reported.last())
    }
}

/// Of any run of reports, the first of a condition is made at `Warn` and every later one at `Debug`,
/// whatever else is reported in between.
pub proof fn law_warns_once_per_condition<C>(reported: Seq<C>, condition: C)
    ensures
        level_after(seen_after(reported), condition) == (if reported.contains(condition) {
            Level::Debug
        } else {
            Level::Warn
        }),
    decreases reported.len(),
{
    if reported.len() > 0 {
        let before = reported.drop_last();
        law_warns_once_per_condition(before, condition);
        if before.contains(condition) {
            let i = choose|i: int| 0 <= i < before.len() && before[i] == condition;
            assert(reported[i] == condition);
        }
        if reported.contains(condition) && reported.last() != condition {
            let i = choose|i: int| 0 <= i < reported.len() && reported[i] == condition;
            assert(before[i] == condition);
        }
    }
}

/// The level to report `condition` at: `Warn` the first time `seen` meets it, `Debug` after.
///
/// Generic over the condition so every once-per-condition report shares this one policy while
/// keying on its own conditions.
pub fn report_level<C: Condition>(seen: &mut Seen<C>, condition: C) -> (level: Level)
    ensures
        level == level_after(old(seen)@, condition),
        final(seen)@ == old(seen)@.insert(condition),
{
    if seen.contains(&condition) {
        assert(seen@.insert(condition) =~= seen@);
        return Level::Debug;
    }
    proof {
        use_type_invariant(&*seen);
    }
    let ghost before = seen.conditions@;
    let mut conditions: Vec<C> = Vec::new();
    std::mem::swap(&mut conditions, &mut seen.conditions);
    conditions.push(condition);
    proof {
        assert(conditions@ == before.push(condition));
        assert(!before.contains(condition)) by {
            if before.contains(condition) {
                assert(before.to_set().contains(condition));
            }
        }
        assert forall|x: C| conditions@.to_set().contains(x) == before.to_set().insert(
            condition,
        ).contains(x) by {
            if before.contains(x) {
                let i = choose|i: int| 0 <= i < before.len() && before[i] == x;
                assert(conditions@[i] == x);
            }
            if x == condition {
                assert(conditions@[before.len() as int] == x);
            }
        }
        assert(conditions@.to_set() =~= before.to_set().insert(condition));
    }
    seen.conditions = conditions;
    Level::Warn
}

} // verus!
