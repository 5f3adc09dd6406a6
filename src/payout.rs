use vstd::prelude::*;

use crate::pool::{unique_players, PlayerMetadata};

verus! {

/// Relies on `rand::random`, which draws a value from the thread's generator;
/// nothing is known of the value drawn.
pub assume_specification<T>[ rand::random::<T> ]() -> (r: T)
    where
        rand::distributions::Standard: rand::distributions::Distribution<T>,
;

/// A transfer the pool owes: `amount` to `account`.
#[derive(Clone, Debug)]
pub struct Payout {
    pub account: String,
    pub amount: u128,
}

pub open spec fn payout_view(p: Payout) -> (Seq<char>, int) {
    (p.account@, p.amount as int)
}

/// Whether two dice show an even total.
pub open spec fn is_even_roll(dice_number_1: int, dice_number_2: int) -> bool {
    (dice_number_1 + dice_number_2) % 2 == 0
}

/// What a round with the given `bets` pays when the outcome is `outcome`:
/// twice the stake to each bet on that side, in the order of the bets.
pub open spec fn winnings(bets: Seq<PlayerMetadata>, outcome: bool) -> Seq<(Seq<char>, int)>
    decreases bets.len(),
{
    if bets.len() == 0 {
        Seq::empty()
    } else {
        let earlier = winnings(bets.drop_last(), outcome);
        if bets.last().is_even == outcome {
            earlier.push((bets.last().player@, 2 * bets.last().bet_amount))
        } else {
            earlier
        }
    }
}

/// The face, from 1 to 6, that the random byte `b` gives a die.
pub fn die_face(b: u8) -> (r: u8)
    ensures
        r == b % 6 + 1,
        1 <= r <= 6,
{
    b % 6 + 1
}

/// A die: a random byte turned into a face by `die_face`.
pub(crate) fn generate_random_number() -> (r: u8)
    ensures
        1 <= r <= 6,
{
    let drawn: u8 = rand::random::<u8>();
    die_face(drawn)
}

/// Every bet on the winning side is paid twice its stake, no bet on the
/// losing side is paid anything, and nothing is paid but to a winning bet.
pub proof fn lemma_winners_paid_double(bets: Seq<PlayerMetadata>, outcome: bool)
    requires
        unique_players(bets),
    ensures
        forall|i: int|
            0 <= i < bets.len() && (#[trigger] bets[i]).is_even == outcome ==> winnings(
                bets,
                outcome,
            ).contains((bets[i].player@, 2 * bets[i].bet_amount)),
        forall|i: int, k: int|
            0 <= i < bets.len() && (#[trigger] bets[i]).is_even != outcome && 0 <= k < winnings(
                bets,
                outcome,
            ).len() ==> (#[trigger] winnings(bets, outcome)[k]).0 != bets[i].player@,
        forall|k: int|
            0 <= k < winnings(bets, outcome).len() ==> exists|j: int|
                0 <= j < bets.len() && (#[trigger] bets[j]).is_even == outcome && #[trigger] winnings(
                    bets,
                    outcome,
                )[k] == (bets[j].player@, 2 * bets[j].bet_amount),
    decreases bets.len(),
{
    if bets.len() > 0 {
        let init = bets.drop_last();
        let last = bets.len() - 1;
        assert forall|i: int, j: int| 0 <= i < j < init.len() implies (#[trigger] init[i]).player@
            != (#[trigger] init[j]).player@ by {
            assert(init[i] == bets[i] && init[j] == bets[j]);
        }
        lemma_winners_paid_double(init, outcome);
        let w = winnings(bets, outcome);
        let wi = winnings(init, outcome);
        assert forall|k: int| 0 <= k < w.len() implies exists|j: int|
            0 <= j < bets.len() && (#[trigger] bets[j]).is_even == outcome && #[trigger] w[k] == (
                bets[j].player@,
                2 * bets[j].bet_amount,
            ) by {
            if k < wi.len() {
                assert(w[k] == wi[k]);
                let j = choose|j: int|
                    0 <= j < init.len() && (#[trigger] init[j]).is_even == outcome && wi[k] == (
                        init[j].player@,
                        2 * init[j].bet_amount,
                    );
                assert(bets[j] == init[j]);
            } else {
                assert(bets[last].is_even == outcome);
            }
        }
        assert forall|i: int| 0 <= i < bets.len() && (#[trigger] bets[i]).is_even == outcome implies w.contains(
            (bets[i].player@, 2 * bets[i].bet_amount),
        ) by {
            if i < last {
                assert(bets[i] == init[i]);
                let k = choose|k: int| 0 <= k < wi.len() && wi[k] == (init[i].player@, 2 * init[i].bet_amount);
                assert(w[k] == wi[k]);
            } else {
                assert(w[w.len() - 1] == (bets[i].player@, 2 * bets[i].bet_amount));
            }
        }
        assert forall|i: int, k: int|
            0 <= i < bets.len() && (#[trigger] bets[i]).is_even != outcome && 0 <= k < w.len() implies (
            #[trigger] w[k]).0 != bets[i].player@ by {
            let j = choose|j: int|
                0 <= j < bets.len() && (#[trigger] bets[j]).is_even == outcome && w[k] == (
                    bets[j].player@,
                    2 * bets[j].bet_amount,
                );
            assert(j != i);
        }
    }
}

} // verus!
