use std::sync::Arc;

use tokio::sync::Semaphore;
use vstd::prelude::*;

verus! {

#[verifier::external_type_specification]
#[verifier::external_body]
pub struct ExSemaphore(Semaphore);

/// The most permits a `tokio::sync::Semaphore` can hold (`usize::MAX >> 3`).
pub const MAX_PERMITS: usize = usize::MAX / 8;

/// The tokio semaphore that hands out the slots. Tokio changes the count of
/// permits through shared references, which Verus cannot follow through the
/// declared type, so the semaphore is held here and its permits are followed
/// by the names below, which only the functions of this module change.
#[verifier::external_body]
pub struct SlotSemaphore {
    sem: Arc<Semaphore>,
}

/// The permits a slot semaphore has been given since it was made: those it
/// was made with and those added since. Permits taken from it come back when
/// they are dropped, so the permits it has available never exceed this, as
/// long as no holder of the shared handle adds permits or forgets taken ones
/// (this crate does neither).
pub uninterp spec fn permits_given(s: SlotSemaphore) -> nat;

/// The shared handle on the tokio semaphore inside a slot semaphore.
pub uninterp spec fn shared_semaphore(s: SlotSemaphore) -> Arc<Semaphore>;

/// `tokio::sync::Semaphore::new` behind an `Arc`: a semaphore made with
/// `permits` permits. The constructor panics above `MAX_PERMITS`, which
/// `requires` rules out.
#[verifier::external_body]
fn new_slot_semaphore(permits: usize) -> (r: SlotSemaphore)
    requires
        permits <= MAX_PERMITS,
    ensures
        permits_given(r) == permits,
{
    SlotSemaphore { sem: Arc::new(Semaphore::new(permits)) }
}

/// `tokio::sync::Semaphore::add_permits`: adds `n` permits to the same
/// semaphore. The call panics when the permits available plus `n` exceed
/// `MAX_PERMITS`; the permits available never exceed the permits given, so
/// `requires` rules that out.
#[verifier::external_body]
fn add_slot_permits(s: &mut SlotSemaphore, n: usize)
    requires
        permits_given(*old(s)) + n <= MAX_PERMITS,
    ensures
        permits_given(*final(s)) == permits_given(*old(s)) + n,
        shared_semaphore(*final(s)) == shared_semaphore(*old(s)),
{
    s.sem.add_permits(n)
}

/// `tokio::sync::Semaphore::try_acquire`, with the permit it may return
/// dropped at once (so handed straight back): the permits given do not
/// change. Nothing else is claimed of it.
#[verifier::external_body]
fn try_acquire_and_release(s: &SlotSemaphore) {
    let _ = s.sem.try_acquire();
}

/// `Arc::clone` of the semaphore inside: another handle on the same
/// semaphore (the clone points to the same allocation).
#[verifier::external_body]
fn share(s: &SlotSemaphore) -> (r: Arc<Semaphore>)
    ensures
        r == shared_semaphore(*s),
{
    Arc::clone(&s.sem)
}

/// The counters that drive the concurrency decisions.
pub struct ConcurrencyModel {
    pub current: usize,
    pub min: usize,
    pub max: usize,
    pub failure_streak: usize,
    pub success_streak: usize,
}

/// The number of slots a limit of `max_concurrent` starts with: a quarter of
/// the limit, but at least two.
pub open spec fn initial_slots(max_concurrent: usize) -> usize {
    if max_concurrent / 4 >= 2 {
        (max_concurrent / 4) as usize
    } else {
        2
    }
}

/// What one success does: after five successes in a row, the number of slots
/// grows by a quarter of the headroom (at least one), capped at the limit,
/// and the streak starts over. Any success ends a failure streak.
pub open spec fn success_step(m: ConcurrencyModel) -> ConcurrencyModel {
    let streak = m.success_streak + 1;
    if streak >= 5 && m.current < m.max {
        let headroom = m.max - m.current;
        let add = if headroom / 4 >= 1 {
            headroom / 4
        } else {
            1
        };
        let grown = if m.current + add <= m.max {
            m.current + add
        } else {
            m.max as int
        };
        ConcurrencyModel {
            current: grown as usize,
            min: m.min,
            max: m.max,
            failure_streak: 0,
            success_streak: 0,
        }
    } else {
        ConcurrencyModel {
            current: m.current,
            min: m.min,
            max: m.max,
            failure_streak: 0,
            success_streak: streak as usize,
        }
    }
}

/// What one failure does: from the third failure in a row on, each failure
/// halves the number of slots (never below the floor). Any failure ends a
/// success streak.
pub open spec fn failure_step(m: ConcurrencyModel) -> ConcurrencyModel {
    let streak = m.failure_streak + 1;
    if streak >= 3 && m.current > m.min {
        let halved: usize = if m.current / 2 >= m.min {
            m.current / 2
        } else {
            m.min
        };
        ConcurrencyModel {
            current: halved as usize,
            min: m.min,
            max: m.max,
            failure_streak: streak as usize,
            success_streak: 0,
        }
    } else {
        ConcurrencyModel {
            current: m.current,
            min: m.min,
            max: m.max,
            failure_streak: streak as usize,
            success_streak: 0,
        }
    }
}

/// The bounds every reachable state keeps: a floor of one slot, and at most
/// the larger of the limit and two slots.
pub open spec fn model_ok(m: ConcurrencyModel) -> bool {
    &&& m.min == 1
    &&& 1 <= m.current
    &&& (m.current <= m.max || m.current <= 2)
}

/// A number of concurrent slots that grows after runs of successes and
/// shrinks after runs of failures, with a semaphore handing out the slots.
pub struct AdaptiveConcurrency {
    current_concurrent: usize,
    min_concurrent: usize,
    max_concurrent: usize,
    failure_streak: usize,
    success_streak: usize,
    permits_issued: usize,
    semaphore: SlotSemaphore,
}

impl View for AdaptiveConcurrency {
    type V = ConcurrencyModel;

    closed spec fn view(&self) -> ConcurrencyModel {
        ConcurrencyModel {
            current: self.current_concurrent,
            min: self.min_concurrent,
            max: self.max_concurrent,
            failure_streak: self.failure_streak,
            success_streak: self.success_streak,
        }
    }
}

impl AdaptiveConcurrency {
    /// The permits the semaphore has been given in all.
    pub closed spec fn issued(&self) -> nat {
        permits_given(self.semaphore)
    }

    /// The state is one the operations can reach.
    pub closed spec fn wf(&self) -> bool {
        &&& model_ok(self@)
        &&& self.current_concurrent <= self.permits_issued <= MAX_PERMITS
        &&& self.permits_issued == permits_given(self.semaphore)
    }

    /// Starts with a quarter of `max_concurrent` slots (at least two), a floor
    /// of one slot and no streaks.
    pub fn new(max_concurrent: usize) -> (r: Self)
        requires
            max_concurrent / 4 <= MAX_PERMITS,
        ensures
            r.wf(),
            r@ == (ConcurrencyModel {
                current: initial_slots(max_concurrent),
                min: 1,
                max: max_concurrent,
                failure_streak: 0,
                success_streak: 0,
            }),
            r.issued() == initial_slots(max_concurrent),
    {
        let quarter = max_concurrent / 4;
        let initial = if quarter >= 2 {
            quarter
        } else {
            2
        };
        AdaptiveConcurrency {
            current_concurrent: initial,
            min_concurrent: 1,
            max_concurrent,
            failure_streak: 0,
            success_streak: 0,
            permits_issued: initial,
            semaphore: new_slot_semaphore(initial),
        }
    }

    /// Records a success: see `success_step`. The slots added are added to
    /// the semaphore.
    pub fn on_success(&mut self)
        requires
            old(self).wf(),
            old(self)@.success_streak < usize::MAX,
            old(self).issued() + (success_step(old(self)@).current - old(self)@.current) <= MAX_PERMITS,
        ensures
            final(self).wf(),
            final(self)@ == success_step(old(self)@),
            final(self).handle() == old(self).handle(),
            final(self).issued() == old(self).issued() + (final(self)@.current - old(self)@.current),
    {
        self.success_streak = self.success_streak + 1;
        self.failure_streak = 0;
        if self.success_streak >= 5 && self.current_concurrent < self.max_concurrent {
            let headroom = self.max_concurrent - self.current_concurrent;
            let quarter = headroom / 4;
            let add = if quarter >= 1 {
                quarter
            } else {
                1
            };
            let new_concurrent = if add <= self.max_concurrent - self.current_concurrent {
                self.current_concurrent + add
            } else {
                self.max_concurrent
            };
            let added = new_concurrent - self.current_concurrent;
            self.current_concurrent = new_concurrent;
            add_slot_permits(&mut self.semaphore, added);
            self.permits_issued = self.permits_issued + added;
            self.success_streak = 0;
        }
    }

    /// Records a failure: see `failure_step`. For each slot dropped the
    /// semaphore is asked for a permit, which is released again at once.
    pub fn on_failure(&mut self)
        requires
            old(self).wf(),
            old(self)@.failure_streak < usize::MAX,
        ensures
            final(self).wf(),
            final(self)@ == failure_step(old(self)@),
            final(self).handle() == old(self).handle(),
            final(self).issued() == old(self).issued(),
    {
        self.failure_streak = self.failure_streak + 1;
        self.success_streak = 0;
        if self.failure_streak >= 3 && self.current_concurrent > self.min_concurrent {
            let half = self.current_concurrent / 2;
            let new_concurrent = if half >= self.min_concurrent {
                half
            } else {
                self.min_concurrent
            };
            let reduction = self.current_concurrent - new_concurrent;
            self.current_concurrent = new_concurrent;
            for _i in 0..reduction {
                try_acquire_and_release(&self.semaphore);
            }
        }
    }

    /// The number of slots now.
    pub fn get_concurrent(&self) -> (r: usize)
        ensures
            r == self@.current,
    {
        self.current_concurrent
    }

    /// The limit the number of slots grows towards.
    pub fn max_concurrent(&self) -> (r: usize)
        ensures
            r == self@.max,
    {
        self.max_concurrent
    }

    /// The length of the current run of successes.
    pub fn success_streak(&self) -> (r: usize)
        ensures
            r == self@.success_streak,
    {
        self.success_streak
    }

    /// The length of the current run of failures.
    pub fn failure_streak(&self) -> (r: usize)
        ensures
            r == self@.failure_streak,
    {
        self.failure_streak
    }

    /// The permits the semaphore has been given in all.
    pub fn permits_issued(&self) -> (r: usize)
        requires
            self.wf(),
        ensures
            r == self.issued(),
    {
        self.permits_issued
    }

    /// The semaphore that hands out the slots.
    pub closed spec fn handle(&self) -> Arc<Semaphore> {
        shared_semaphore(self.semaphore)
    }

    /// A handle on the semaphore that hands out the slots: the controller's
    /// own semaphore, shared, so that the permits the controller adds reach
    /// the holders of the handle.
    pub fn semaphore(&self) -> (r: Arc<Semaphore>)
        ensures
            r == self.handle(),
    {
        share(&self.semaphore)
    }
}

/// The slot count never leaves its bounds: from any reachable state, a
/// success or a failure leads to a reachable state.
pub proof fn law_slots_stay_in_bounds(m: ConcurrencyModel)
    requires
        model_ok(m),
    ensures
        model_ok(success_step(m)),
        model_ok(failure_step(m)),
{
}

/// A success never lowers the number of slots, and never raises it past the
/// larger of the limit and the number before.
pub proof fn law_success_grows_within_limit(m: ConcurrencyModel)
    requires
        model_ok(m),
    ensures
        m.current <= success_step(m).current,
        success_step(m).current <= m.max || success_step(m).current == m.current,
{
}

/// A failure never raises the number of slots.
pub proof fn law_failure_never_grows(m: ConcurrencyModel)
    requires
        model_ok(m),
    ensures
        failure_step(m).current <= m.current,
{
}

/// Fewer than three failures in a row after a success leave the number of
/// slots as the success left it.
pub proof fn law_two_failures_after_success_keep_slots(m: ConcurrencyModel)
    requires
        model_ok(m),
    ensures
        failure_step(success_step(m)).current == success_step(m).current,
        failure_step(failure_step(success_step(m))).current == success_step(m).current,
{
}

/// Three failures in a row after a success halve the number of slots (but
/// not below one).
pub proof fn law_third_failure_halves(m: ConcurrencyModel)
    requires
        model_ok(m),
    ensures
        ({
            let s = success_step(m);
            let f3 = failure_step(failure_step(failure_step(s)));
            f3.current == (if s.current > 1 {
                if s.current / 2 >= 1 {
                    s.current / 2
                } else {
                    1usize
                }
            } else {
                s.current
            })
        }),
{
}

/// Five successes in a row from a state with no success streak, below the
/// limit, add at least one slot.
pub proof fn law_five_successes_grow(m: ConcurrencyModel)
    requires
        model_ok(m),
        m.success_streak == 0,
        m.current < m.max,
    ensures
        success_step(success_step(success_step(success_step(success_step(m))))).current > m.current,
{
}

} // verus!
