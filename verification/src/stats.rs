//! What a running statistic offers.
use vstd::prelude::*;

verus! {

/// A running statistic that can take an observation back.
///
/// The contract speaks of the observations that a state accounts for: a new
/// statistic accounts for none; an update adds one at the end; a revert of
/// the oldest one takes it away at the front; and what the statistic
/// reports depends on them alone. An implementation says which
/// observations its states account for, and what it reports of them, by
/// defining `accounts_for` and `value_of`. One that defines neither claims
/// nothing, and nothing is concluded about it.
pub trait RollableUnivariate<T> {
    /// Whether this is the state of a new statistic after updates with
    /// `fed`, in that order.
    open spec fn accounts_for(&self, fed: Seq<T>) -> bool {
        false
    }

    /// What a statistic reports that accounts for `fed`.
    open spec fn value_of(fed: Seq<T>) -> T {
        arbitrary()
    }

    /// Takes one more observation.
    fn update(&mut self, x: T)
        ensures
            forall|fed: Seq<T>| #[trigger]
                old(self).accounts_for(fed) ==> final(self).accounts_for(fed.push(x)),
    ;

    /// Takes the oldest observation back. Where it fails, nothing is known
    /// of the state.
    fn revert(&mut self, x: T) -> (r: Result<(), &'static str>)
        ensures
            r is Ok ==> forall|fed: Seq<T>|
                (#[trigger] old(self).accounts_for(fed)) && fed.len() > 0 && fed[0] == x
                    ==> final(self).accounts_for(fed.drop_first()),
    ;

    /// The statistic over the observations accounted for.
    fn get(&self) -> (r: T)
        ensures
            forall|fed: Seq<T>| #[trigger] self.accounts_for(fed) ==> r == Self::value_of(fed),
    ;
}

} // verus!
