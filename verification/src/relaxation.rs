//! Sweep control of the pressure relaxation.
//!
//! Before each sweep the residual of the pressure field is measured. The
//! relaxation stops when the residual is below its bound, or when the
//! largest number of sweeps has been made; in the second case the last
//! iterate is accepted as it is.

use vstd::prelude::*;

verus! {

/// The largest number of sweeps in one relaxation.
pub const ITR_MAX: usize = 100;

/// How a relaxation ended.
#[derive(Clone, Copy, Debug, PartialEq, Eq, Structural)]
pub enum Outcome {
    /// The residual fell below its bound.
    Converged,
    /// The sweeps ran out before the residual fell below its bound.
    Exhausted,
}

/// What to do next in a relaxation.
#[derive(Clone, Copy, Debug, PartialEq, Eq, Structural)]
pub enum Action {
    /// Measure the residual and report whether it is below its bound.
    Measure,
    /// Stop: the relaxation has ended.
    Stop(Outcome),
}

/// The state of one relaxation: the sweeps made so far, and whether a
/// measured residual was below its bound.
pub struct Relaxation {
    sweeps: usize,
    converged: bool,
}

/// What to do after `sweeps` sweeps, given whether the relaxation has
/// converged.
pub open spec fn action_after(sweeps: nat, converged: bool) -> Action {
    if converged {
        Action::Stop(Outcome::Converged)
    } else if sweeps >= ITR_MAX {
        Action::Stop(Outcome::Exhausted)
    } else {
        Action::Measure
    }
}

/// The number of sweeps that a relaxation makes on a run of residual
/// verdicts, starting after `sweeps` sweeps: one for each verdict before
/// the first that is below the bound, and no more than `ITR_MAX` in all.
pub open spec fn sweeps_on(verdicts: Seq<bool>, sweeps: nat) -> nat
    decreases verdicts.len(),
{
    if verdicts.len() == 0 || sweeps >= ITR_MAX || verdicts[0] {
        sweeps
    } else {
        sweeps_on(verdicts.drop_first(), sweeps + 1)
    }
}

impl Relaxation {
    #[verifier::type_invariant]
    spec fn well_formed(&self) -> bool {
        self.sweeps <= ITR_MAX
    }

    /// The number of sweeps made so far.
    pub closed spec fn sweeps_spec(&self) -> nat {
        self.sweeps as nat
    }

    /// Whether a measured residual was below its bound.
    pub closed spec fn converged_spec(&self) -> bool {
        self.converged
    }

    /// A relaxation before its first measurement.
    pub fn new() -> (r: Relaxation)
        ensures
            r.sweeps_spec() == 0,
            !r.converged_spec(),
    {
        Relaxation { sweeps: 0, converged: false }
    }

    /// The number of sweeps made so far, which never exceeds `ITR_MAX`.
    pub fn sweeps(&self) -> (r: usize)
        ensures
            r == self.sweeps_spec(),
            r <= ITR_MAX,
    {
        proof {
            use_type_invariant(self);
        }
        self.sweeps
    }

    /// What to do next.
    pub fn next(&self) -> (r: Action)
        ensures
            r == action_after(self.sweeps_spec(), self.converged_spec()),
    {
        if self.converged {
            Action::Stop(Outcome::Converged)
        } else if self.sweeps >= ITR_MAX {
            Action::Stop(Outcome::Exhausted)
        } else {
            Action::Measure
        }
    }

    /// Takes the verdict on a measured residual and says whether a sweep is
    /// to be made now. A verdict given after the relaxation has ended
    /// changes nothing and asks for no sweep.
    pub fn report(&mut self, below_bound: bool) -> (sweep: bool)
        ensures
            sweep == (action_after(old(self).sweeps_spec(), old(self).converged_spec())
                == Action::Measure && !below_bound),
            final(self).sweeps_spec() == old(self).sweeps_spec() + if sweep {
                1nat
            } else {
                0nat
            },
            final(self).converged_spec() == (old(self).converged_spec() || (action_after(
                old(self).sweeps_spec(),
                old(self).converged_spec(),
            ) == Action::Measure && below_bound)),
    {
        proof {
            use_type_invariant(&*self);
        }
        if self.converged || self.sweeps >= ITR_MAX {
            false
        } else if below_bound {
            self.converged = true;
            false
        } else {
            self.sweeps = self.sweeps + 1;
            true
        }
    }
}

/// The number of sweeps made on a run of verdicts.
pub fn count_sweeps(verdicts: &Vec<bool>) -> (r: usize)
    ensures
        r == sweeps_on(verdicts@, 0),
        r <= ITR_MAX,
{
    let mut control = Relaxation::new();
    let mut i: usize = 0;
    assert(verdicts@.skip(0) =~= verdicts@);
    while i < verdicts.len() && control.next() == Action::Measure
        invariant
            i <= verdicts@.len(),
            control.sweeps_spec() <= ITR_MAX,
            !control.converged_spec() ==> sweeps_on(verdicts@, 0) == sweeps_on(
                verdicts@.skip(i as int),
                control.sweeps_spec(),
            ),
            control.converged_spec() ==> sweeps_on(verdicts@, 0) == control.sweeps_spec(),
        decreases verdicts@.len() - i,
    {
        let ghost rest = verdicts@.skip(i as int);
        assert(rest[0] == verdicts@[i as int]);
        assert(rest.drop_first() =~= verdicts@.skip(i + 1));
        let _ = control.report(verdicts[i]);
        i = i + 1;
    }
    control.sweeps()
}

/// A relaxation never makes more than `ITR_MAX` sweeps, and never fewer
/// than it has made already.
pub proof fn lemma_sweeps_bounded(verdicts: Seq<bool>, sweeps: nat)
    requires
        sweeps <= ITR_MAX,
    ensures
        sweeps <= sweeps_on(verdicts, sweeps) <= ITR_MAX,
    decreases verdicts.len(),
{
    if !(verdicts.len() == 0 || sweeps >= ITR_MAX || verdicts[0]) {
        lemma_sweeps_bounded(verdicts.drop_first(), sweeps + 1);
    }
}

/// A residual that is below its bound at the first measurement ends the
/// relaxation without a sweep.
pub proof fn lemma_converged_at_once(verdicts: Seq<bool>)
    requires
        verdicts.len() > 0,
        verdicts[0],
    ensures
        sweeps_on(verdicts, 0) == 0,
{
}

} // verus!
