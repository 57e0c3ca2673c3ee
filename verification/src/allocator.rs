//! Allocation of random, unique numbers.

use crate::external::draw;
use rand::rngs::ThreadRng;
use std::collections::HashSet;
use vstd::prelude::*;
use vstd::set_lib::*;

verus! {

/// Number allocator exhausted.
#[derive(Debug, Clone, Copy)]
pub struct NumberAllocatorExhaustedError;

/// Allocates numbers randomly and uniquely.
///
/// Its view is the set of the numbers that are allocated.
pub struct NumberAllocator {
    used: HashSet<u32>,
    rng: ThreadRng,
}

impl View for NumberAllocator {
    type V = Set<u32>;

    closed spec fn view(&self) -> Set<u32> {
        self.used@
    }
}

/// No further number is given out once half of all numbers are in use.
pub open spec fn exhausted(used: Set<u32>) -> bool {
    used.len() >= u32::MAX / 2
}

impl NumberAllocator {
    /// Creates a new number allocator.
    pub fn new() -> (allocator: NumberAllocator)
        ensures
            allocator@ == Set::<u32>::empty(),
    {
        NumberAllocator { used: HashSet::new(), rng: rand::thread_rng() }
    }

    /// Whether no further number can be given out.
    pub fn is_exhausted(&self) -> (answer: bool)
        ensures
            answer == exhausted(self@),
    {
        self.used.len() >= (u32::MAX / 2) as usize
    }

    /// Allocates `number` itself. Returns false when it was already allocated.
    pub fn claim(&mut self, number: u32) -> (free: bool)
        requires
            !exhausted(old(self)@),
        ensures
            free == !old(self)@.contains(number),
            final(self)@ == old(self)@.insert(number),
    {
        self.used.insert(number)
    }

    /// Allocates a random, unique number.
    ///
    /// Numbers are drawn until one is free. As fewer than half of them are
    /// taken, that is soon the case. Draws are counted so that the loop ends
    /// whatever comes out of them: should the count ever run out, the smallest
    /// free number is taken.
    pub fn allocate(&mut self) -> (number: Result<u32, NumberAllocatorExhaustedError>)
        ensures
            match number {
                Ok(n) => {
                    &&& !exhausted(old(self)@)
                    &&& !old(self)@.contains(n)
                    &&& final(self)@ == old(self)@.insert(n)
                },
                Err(_) => exhausted(old(self)@) && final(self)@ == old(self)@,
            },
            number is Ok <==> old(self)@.len() < 2147483647,
    {
        if self.is_exhausted() {
            return Err(NumberAllocatorExhaustedError);
        }
        let mut draws: u64 = 0;
        while draws < u64::MAX
            invariant
                self@ == old(self)@,
                !exhausted(old(self)@),
            decreases u64::MAX - draws,
        {
            let cand: u32 = draw(&mut self.rng);
            if self.claim(cand) {
                return Ok(cand);
            }
            assert(self@ =~= old(self)@);
            draws = draws + 1;
        }
        let number: u32 = self.smallest_free();
        self.claim(number);
        Ok(number)
    }

    /// The smallest number that is not allocated.
    fn smallest_free(&self) -> (number: u32)
        requires
            !exhausted(self@),
        ensures
            !self@.contains(number),
            forall|n: u32| n < number ==> self@.contains(n),
    {
        let mut number: u32 = 0;
        while self.used.contains(&number)
            invariant
                !exhausted(self@),
                forall|n: u32| n < number ==> self@.contains(n),
            decreases u32::MAX - number,
        {
            proof {
                if number == u32::MAX {
                    assert(forall|n: u32| self@.contains(n));
                    lemma_finite(self@);
                    lemma_len_above(self@, u32::MAX as nat);
                }
            }
            number = number + 1;
        }
        number
    }

    /// Releases a previously allocated number.
    pub fn release(&mut self, number: u32)
        requires
            old(self)@.contains(number),
        ensures
            final(self)@ == old(self)@.remove(number),
    {
        self.used.remove(&number);
    }
}

/// One successful call on an allocator. A number is given out by `allocate` or by
/// `claim`.
pub enum AllocatorStep {
    Allocate(u32),
    Release(u32),
}

/// The numbers in use after `steps`.
pub open spec fn used_after(used: Set<u32>, steps: Seq<AllocatorStep>) -> Set<u32>
    decreases steps.len(),
{
    if steps.len() == 0 {
        used
    } else {
        let before = used_after(used, steps.drop_last());
        match steps.last() {
            AllocatorStep::Allocate(n) => before.insert(n),
            AllocatorStep::Release(n) => before.remove(n),
        }
    }
}

/// `step` is one that an allocator with the numbers `used` can make: it gives out
/// a number only as `allocate` and `claim` do, and takes one back only as `release`
/// does.
pub open spec fn step_allowed(used: Set<u32>, step: AllocatorStep) -> bool {
    match step {
        AllocatorStep::Allocate(n) => !exhausted(used) && !used.contains(n),
        AllocatorStep::Release(n) => used.contains(n),
    }
}

/// Every one of `steps` is one that the allocator can make when its turn comes.
pub open spec fn steps_allowed(used: Set<u32>, steps: Seq<AllocatorStep>) -> bool {
    forall|i: int|
        0 <= i < steps.len() ==> #[trigger] step_allowed(used_after(used, steps.take(i)), steps[i])
}

/// A number that is given out twice was released in between.
pub proof fn law_numbers_unique(used: Set<u32>, steps: Seq<AllocatorStep>, i: int, j: int, n: u32)
    requires
        steps_allowed(used, steps),
        0 <= i < j < steps.len(),
        steps[i] == AllocatorStep::Allocate(n),
        steps[j] == AllocatorStep::Allocate(n),
    ensures
        exists|k: int| i < k < j && #[trigger] steps[k] == AllocatorStep::Release(n),
{
    if forall|k: int| i < k < j ==> #[trigger] steps[k] != AllocatorStep::Release(n) {
        assert(steps.take(i + 1).drop_last() =~= steps.take(i));
        lemma_stays_used(used, steps, i + 1, j, n);
        assert(step_allowed(used_after(used, steps.take(j)), steps[j]));
    }
}

/// A number in use stays so while nothing releases it.
proof fn lemma_stays_used(used: Set<u32>, steps: Seq<AllocatorStep>, from: int, to: int, n: u32)
    requires
        0 <= from <= to <= steps.len(),
        used_after(used, steps.take(from)).contains(n),
        forall|k: int| from <= k < to ==> #[trigger] steps[k] != AllocatorStep::Release(n),
    ensures
        used_after(used, steps.take(to)).contains(n),
    decreases to - from,
{
    if from < to {
        lemma_stays_used(used, steps, from, to - 1, n);
        assert(steps.take(to).drop_last() =~= steps.take(to - 1));
        assert(steps[to - 1] != AllocatorStep::Release(n));
    }
}

/// At most half of all numbers are ever in use.
pub proof fn law_numbers_bounded(steps: Seq<AllocatorStep>)
    requires
        steps_allowed(Set::empty(), steps),
    ensures
        used_after(Set::empty(), steps).len() <= u32::MAX / 2,
    decreases steps.len(),
{
    if steps.len() > 0 {
        let (earlier, n) = (steps.drop_last(), (steps.len() - 1) as int);
        assert(steps.take(n) =~= earlier);
        assert(steps_allowed(Set::empty(), earlier)) by {
            assert forall|i: int| 0 <= i < earlier.len() implies #[trigger] step_allowed(
                used_after(Set::empty(), earlier.take(i)),
                earlier[i],
            ) by {
                assert(earlier.take(i) =~= steps.take(i));
                assert(step_allowed(used_after(Set::empty(), steps.take(i)), steps[i]));
            }
        }
        law_numbers_bounded(earlier);
        lemma_finite(used_after(Set::empty(), earlier));
        assert(step_allowed(used_after(Set::empty(), steps.take(n)), steps[n]));
    }
}

/// A number is given out as long as fewer than half of all numbers are in use, and
/// any number that is not in use can be the one.
pub proof fn law_numbers_available_up_to_half(used: Set<u32>, n: u32)
    ensures
        step_allowed(used, AllocatorStep::Allocate(n)) <==> used.len() < 2147483647
            && !used.contains(n),
        exhausted(used) <==> used.len() >= 2147483647,
{
}

/// Releasing a number right after it was given out leaves the allocator as it was.
pub proof fn law_release_undoes_allocate(used: Set<u32>, n: u32)
    requires
        step_allowed(used, AllocatorStep::Allocate(n)),
    ensures
        step_allowed(used.insert(n), AllocatorStep::Release(n)),
        used_after(used, seq![AllocatorStep::Allocate(n), AllocatorStep::Release(n)]) == used,
{
    let steps = seq![AllocatorStep::Allocate(n), AllocatorStep::Release(n)];
    assert(steps.drop_last() =~= seq![AllocatorStep::Allocate(n)]);
    assert(steps.drop_last().drop_last() =~= Seq::<AllocatorStep>::empty());
    reveal_with_fuel(used_after, 3);
    assert(used.insert(n).remove(n) =~= used);
}

/// Every set of numbers is finite.
proof fn lemma_finite(s: Set<u32>)
    ensures
        s.finite(),
{
    let all = set_int_range(0, u32::MAX + 1);
    let f = |i: int| i as u32;
    lemma_int_range(0, u32::MAX + 1);
    all.lemma_map_finite(f);
    assert forall|n: u32| s.contains(n) implies all.map(f).contains(n) by {
        assert(all.contains(n as int) && f(n as int) == n);
    }
    lemma_set_subset_finite(all.map(f), s);
}

/// A set that holds every number below `bound` has at least `bound` elements.
proof fn lemma_len_above(s: Set<u32>, bound: nat)
    requires
        s.finite(),
        bound <= u32::MAX,
        forall|n: u32| n < bound ==> s.contains(n),
    ensures
        s.len() >= bound,
    decreases bound,
{
    if bound > 0 {
        let last = (bound - 1) as u32;
        let rest = s.remove(last);
        assert(s.contains(last));
        lemma_len_above(rest, (bound - 1) as nat);
    }
}

} // verus!
