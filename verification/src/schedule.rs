use vstd::arithmetic::div_mod::{lemma_add_mod_noop_right, lemma_mod_mod};
use vstd::arithmetic::mul::{lemma_mul_is_associative, lemma_mul_is_commutative};
use vstd::prelude::*;

verus! {

/// The product of all periods: the number of ticks after which the whole
/// pattern of due jobs repeats.
pub open spec fn product(periods: Seq<u32>) -> nat
    decreases periods.len(),
{
    if periods.len() == 0 {
        1
    } else {
        product(periods.drop_last()) * (periods.last() as nat)
    }
}

/// Whether every period is at least one tick.
pub open spec fn all_positive(periods: Seq<u32>) -> bool {
    forall|i: int| 0 <= i < periods.len() ==> periods[i] > 0
}

/// The product of all periods but the one of `job`.
pub open spec fn cofactor(periods: Seq<u32>, job: int) -> nat
    decreases periods.len(),
{
    if periods.len() == 0 {
        1
    } else if job == periods.len() - 1 {
        product(periods.drop_last())
    } else {
        cofactor(periods.drop_last(), job) * (periods.last() as nat)
    }
}

/// The product of positive periods is positive.
proof fn lemma_product_positive(periods: Seq<u32>)
    requires
        all_positive(periods),
    ensures
        product(periods) > 0,
    decreases periods.len(),
{
    if periods.len() > 0 {
        lemma_product_positive(periods.drop_last());
        let a = product(periods.drop_last());
        let b = periods.last() as nat;
        assert(a * b > 0) by (nonlinear_arith)
            requires
                a > 0,
                b > 0,
        ;
    }
}

/// The product of positive periods only grows as periods are added.
proof fn lemma_product_grows(periods: Seq<u32>, k: int)
    requires
        all_positive(periods),
        0 <= k <= periods.len(),
    ensures
        product(periods.take(k)) <= product(periods),
    decreases periods.len(),
{
    if k == periods.len() {
        assert(periods.take(k) =~= periods);
    } else {
        lemma_product_grows(periods.drop_last(), k);
        assert(periods.drop_last().take(k) =~= periods.take(k));
        lemma_product_positive(periods.drop_last());
        let a = product(periods.drop_last());
        let b = periods.last() as nat;
        assert(a <= a * b) by (nonlinear_arith)
            requires
                a > 0,
                b > 0,
        ;
    }
}

/// The product of all periods is the period of one job times the product of
/// the others.
proof fn lemma_product_splits(periods: Seq<u32>, job: int)
    requires
        all_positive(periods),
        0 <= job < periods.len(),
    ensures
        product(periods) == (periods[job] as nat) * cofactor(periods, job),
        cofactor(periods, job) > 0,
    decreases periods.len(),
{
    let rest = periods.drop_last();
    let last = periods.last() as nat;
    if job == periods.len() - 1 {
        lemma_product_positive(rest);
        lemma_mul_is_commutative(product(rest) as int, last as int);
    } else {
        lemma_product_splits(rest, job);
        let p = periods[job] as nat;
        let c = cofactor(rest, job);
        lemma_mul_is_associative(p as int, c as int, last as int);
        assert(c * last > 0) by (nonlinear_arith)
            requires
                c > 0,
                last > 0,
        ;
    }
}

/// Counting ticks modulo the product of the periods does not disturb any
/// job: a job is due on the wrapped count exactly when it is due on the
/// number of ticks gone by.
pub proof fn law_wrapping_keeps_cadence(periods: Seq<u32>, job: int, ticks: nat)
    requires
        all_positive(periods),
        0 <= job < periods.len(),
    ensures
        (ticks % product(periods)) % (periods[job] as nat) == ticks % (periods[job] as nat),
{
    lemma_product_splits(periods, job);
    lemma_mod_mod(ticks as int, periods[job] as int, cofactor(periods, job) as int);
}

/// Counting one tick further on the wrapped count is counting one tick
/// further and wrapping.
pub proof fn law_count_follows_ticks(cycle: nat, ticks: nat)
    requires
        cycle > 0,
    ensures
        (ticks % cycle + 1) % cycle == (ticks + 1) % cycle,
{
    lemma_add_mod_noop_right(1, ticks as int, cycle as int);
}

/// Which of several periodic jobs are due at each tick of a clock.
///
/// Job `i` is due on every tick whose number is a multiple of its period,
/// the first tick being number zero. The ticks are counted modulo the
/// product of the periods.
pub struct Schedule {
    periods: Vec<u32>,
    cycle: u32,
    count: u32,
}

impl Schedule {
    /// The period of each job, in ticks.
    pub closed spec fn periods(&self) -> Seq<u32> {
        self.periods@
    }

    /// The number of ticks after which the count starts over.
    pub closed spec fn cycle(&self) -> nat {
        self.cycle as nat
    }

    /// The count of the tick at hand.
    pub closed spec fn count(&self) -> nat {
        self.count as nat
    }

    /// Every period is positive, the cycle is their product, and the count
    /// lies within the cycle. This holds of every schedule.
    pub open spec fn wf(&self) -> bool {
        &&& all_positive(self.periods())
        &&& self.cycle() == product(self.periods())
        &&& self.count() < self.cycle()
    }

    #[verifier::type_invariant]
    spec fn inv(&self) -> bool {
        self.wf()
    }

    /// A schedule for jobs of the given periods, at tick zero.
    ///
    /// There is none when a period is zero, or when the product of the
    /// periods does not fit in 32 bits.
    pub fn new(periods: Vec<u32>) -> (res: Option<Schedule>)
        ensures
            match res {
                Some(schedule) => schedule.wf() && schedule.periods() == periods@
                    && schedule.count() == 0,
                None => !all_positive(periods@) || product(periods@) > u32::MAX,
            },
    {
        let mut i: usize = 0;
        while i < periods.len()
            invariant
                i <= periods.len(),
                forall|j: int| 0 <= j < i ==> periods[j] > 0,
            decreases periods.len() - i,
        {
            if periods[i] == 0 {
                return None;
            }
            i += 1;
        }
        let mut cycle: u32 = 1;
        i = 0;
        while i < periods.len()
            invariant
                i <= periods.len(),
                all_positive(periods@),
                cycle == product(periods@.take(i as int)),
            decreases periods.len() - i,
        {
            proof {
                assert(periods@.take(i + 1).drop_last() =~= periods@.take(i as int));
                lemma_product_grows(periods@, i + 1);
            }
            cycle = match cycle.checked_mul(periods[i]) {
                Some(next) => next,
                None => {
                    return None;
                },
            };
            i += 1;
        }
        proof {
            assert(periods@.take(periods.len() as int) =~= periods@);
            lemma_product_positive(periods@);
        }
        Some(Schedule { periods, cycle, count: 0 })
    }

    /// Whether job `job` is due on the tick at hand.
    pub fn is_due(&self, job: usize) -> (due: bool)
        requires
            job < self.periods().len(),
        ensures
            due == (self.count() % (self.periods()[job as int] as nat) == 0),
    {
        proof {
            use_type_invariant(self);
        }
        self.count % self.periods[job] == 0
    }

    /// Moves on to the next tick.
    pub fn advance(&mut self)
        ensures
            final(self).wf(),
            final(self).periods() == old(self).periods(),
            final(self).cycle() == old(self).cycle(),
            final(self).count() == (old(self).count() + 1) % old(self).cycle(),
    {
        proof {
            use_type_invariant(&*self);
            let count = self.count as int;
            let cycle = self.cycle as int;
            assert((count + 1) % cycle == if count + 1 == cycle {
                0
            } else {
                count + 1
            }) by (nonlinear_arith)
                requires
                    0 <= count < cycle,
            ;
        }
        self.count = if self.count == self.cycle - 1 {
            0
        } else {
            self.count + 1
        };
    }

    /// The number of jobs.
    pub fn jobs(&self) -> (n: usize)
        ensures
            n == self.periods().len(),
    {
        self.periods.len()
    }
}

} // verus!
