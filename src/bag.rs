//! The shuffled-bag randomizer: all seven kinds in a random order, handed
//! out one by one from the front and refilled when exhausted.
use vstd::prelude::*;
use rand::rngs::StdRng;
use rand::seq::SliceRandom;
use rand::SeedableRng;
use crate::geometry::Kind;

verus! {

#[verifier::external_type_specification]
#[verifier::external_body]
pub struct ExStdRng(StdRng);

/// The seven kinds, once each.
pub open spec fn all_kinds() -> Seq<Kind> {
    seq![Kind::O, Kind::I, Kind::T, Kind::L, Kind::J, Kind::S, Kind::Z]
}

/// `s` holds what is left of an ordering of all seven kinds once some have
/// been taken from its front.
pub open spec fn remainder_of_shuffle(s: Seq<Kind>) -> bool {
    exists|order: Seq<Kind>|
        #[trigger] order.to_multiset() == all_kinds().to_multiset() && order.len() == 7 && s.len() <= 7
            && s == order.subrange(7 - s.len(), 7)
}

/// One draw takes the bag from `before` to `after` and hands out `k`: an
/// empty bag is first filled with an ordering of all seven kinds; then its
/// first kind is removed and returned.
pub open spec fn draw_step(before: Seq<Kind>, k: Kind, after: Seq<Kind>) -> bool {
    if before.len() == 0 {
        &&& (seq![k] + after).to_multiset() == all_kinds().to_multiset()
        &&& after.len() == 6
    } else {
        before == seq![k] + after
    }
}

/// Relies on rand's `SliceRandom::shuffle`, a Fisher-Yates shuffle that only
/// swaps elements: the result holds the same kinds, each as often as before.
#[verifier::external_body]
fn shuffle_kinds(kinds: &mut Vec<Kind>, rng: &mut StdRng)
    ensures
        final(kinds)@.to_multiset() == old(kinds)@.to_multiset(),
        final(kinds)@.len() == old(kinds)@.len(),
{
    kinds.shuffle(rng)
}

/// Relies on rand's `SeedableRng::seed_from_u64` for `StdRng`: a generator
/// whose whole sequence is fixed by `seed`.
#[verifier::external_body]
pub(crate) fn seeded_rng(seed: u64) -> StdRng {
    StdRng::seed_from_u64(seed)
}

/// Relies on rand's `SeedableRng::try_from_os_rng` for `StdRng`: a
/// generator seeded from the operating system's entropy source, or `None`
/// when that source fails.
#[verifier::external_body]
pub(crate) fn fresh_rng() -> Option<StdRng> {
    StdRng::try_from_os_rng().ok()
}

/// The kinds left in the current shuffle, next one first.
pub struct Bag {
    kinds: Vec<Kind>,
}

impl View for Bag {
    type V = Seq<Kind>;

    closed spec fn view(&self) -> Seq<Kind> {
        self.kinds@
    }
}

impl Bag {
    /// What is left is the tail of one shuffle of all seven kinds.
    pub open spec fn wf(&self) -> bool {
        remainder_of_shuffle(self@)
    }

    /// An empty bag; the first draw fills it.
    pub fn new() -> (r: Bag)
        ensures
            r.wf(),
            r@ == Seq::<Kind>::empty(),
    {
        let r = Bag { kinds: Vec::new() };
        assert(all_kinds().subrange(7, 7) =~= r@);
        assert(all_kinds().to_multiset() == all_kinds().to_multiset() && all_kinds().len() == 7);
        r
    }

    /// Fills an empty bag with all seven kinds in a random order.
    fn refill(&mut self, rng: &mut StdRng)
        requires
            old(self)@.len() == 0,
        ensures
            final(self)@.to_multiset() == all_kinds().to_multiset(),
            final(self)@.len() == 7,
    {
        let mut kinds = vec![Kind::O, Kind::I, Kind::T, Kind::L, Kind::J, Kind::S, Kind::Z];
        assert(kinds@ == all_kinds());
        shuffle_kinds(&mut kinds, rng);
        self.kinds = kinds;
    }

    /// Removes and returns the next kind, refilling the bag first when it is
    /// empty.
    pub fn draw(&mut self, rng: &mut StdRng) -> (r: Kind)
        requires
            old(self).wf(),
        ensures
            final(self).wf(),
            draw_step(old(self)@, r, final(self)@),
    {
        if self.kinds.len() == 0 {
            self.refill(rng);
            assert(self@.subrange(0, 7) =~= self@);
        }
        let ghost full = self@;
        let ghost order = choose|order: Seq<Kind>|
            #[trigger] order.to_multiset() == all_kinds().to_multiset() && order.len() == 7 && full.len() <= 7
                && full == order.subrange(7 - full.len(), 7);
        let k = self.kinds.remove(0);
        assert(full =~= seq![k] + self@);
        assert(self@ =~= order.subrange(7 - self@.len(), 7));
        k
    }
}

/// Draws from position `lo` to `hi` of a run only take kinds off the front of
/// a bag that holds enough of them.
proof fn lemma_drain(bags: Seq<Seq<Kind>>, draws: Seq<Kind>, lo: int, hi: int)
    requires
        bags.len() == draws.len() + 1,
        forall|i: int| 0 <= i < draws.len() ==> #[trigger] draw_step(bags[i], draws[i], bags[i + 1]),
        0 <= lo <= hi <= draws.len(),
        bags[lo].len() >= hi - lo,
    ensures
        bags[lo] == draws.subrange(lo, hi) + bags[hi],
    decreases hi - lo,
{
    if lo == hi {
        assert(bags[lo] =~= draws.subrange(lo, hi) + bags[hi]);
    } else {
        assert(draw_step(bags[lo], draws[lo], bags[lo + 1]));
        lemma_drain(bags, draws, lo + 1, hi);
        assert(bags[lo] =~= draws.subrange(lo, hi) + bags[hi]);
    }
}

/// Starting from an empty bag, every block of seven consecutive draws (the
/// first seven, the next seven, and so on) holds each of the seven kinds
/// exactly once.
pub proof fn lemma_bag_fairness(bags: Seq<Seq<Kind>>, draws: Seq<Kind>)
    requires
        bags.len() == draws.len() + 1,
        bags[0].len() == 0,
        forall|i: int| 0 <= i < draws.len() ==> #[trigger] draw_step(bags[i], draws[i], bags[i + 1]),
    ensures
        forall|j: int|
            0 <= j && 7 * j + 7 <= draws.len() ==> #[trigger] draws.subrange(7 * j, 7 * j + 7).to_multiset()
                == all_kinds().to_multiset(),
    decreases draws.len(),
{
    if draws.len() >= 7 {
        assert(draw_step(bags[0], draws[0], bags[1]));
        lemma_drain(bags, draws, 1, 7);
        assert(bags[7].len() == 0);
        assert(draws.subrange(0, 7) =~= seq![draws[0]] + bags[1]);
        let rest_bags = bags.subrange(7, bags.len() as int);
        let rest_draws = draws.subrange(7, draws.len() as int);
        assert forall|i: int| 0 <= i < rest_draws.len() implies #[trigger] draw_step(
            rest_bags[i],
            rest_draws[i],
            rest_bags[i + 1],
        ) by {
            assert(draw_step(bags[i + 7], draws[i + 7], bags[i + 7 + 1]));
        }
        lemma_bag_fairness(rest_bags, rest_draws);
        assert forall|j: int|
            0 <= j && 7 * j + 7 <= draws.len() implies #[trigger] draws.subrange(7 * j, 7 * j + 7).to_multiset()
                == all_kinds().to_multiset() by {
            if j > 0 {
                assert(draws.subrange(7 * j, 7 * j + 7) =~= rest_draws.subrange(
                    7 * (j - 1),
                    7 * (j - 1) + 7,
                ));
            }
        }
    }
}

} // verus!
