use vstd::prelude::*;

use crate::account::{is_valid_account_id, valid_account_id};
use crate::payout::{generate_random_number, is_even_roll, payout_view, winnings, Payout};

verus! {

/// Why an operation on the pool was refused. A refused call changes nothing.
#[derive(Clone, Copy, Debug, PartialEq, Eq, Structural)]
pub enum EvenOddError {
    /// The pool's state already exists.
    AlreadyInitialized,
    /// The owner's account name is not well formed.
    InvalidIdentity,
    /// An owner-only operation was called by someone else.
    Unauthorized,
    /// A bet carried no stake.
    ZeroStake,
    /// The participant already has a bet in this round.
    DuplicateBet,
    /// The pool could not pay out twice the stake.
    InsufficientPoolBalance,
}

/// One participant's bet in the current round.
#[derive(Clone, Debug)]
pub struct PlayerMetadata {
    pub bet_amount: u128,
    pub player: String,
    pub is_even: bool,
}

/// True iff some bet in `bets` belongs to `who`.
pub open spec fn has_bet(bets: Seq<PlayerMetadata>, who: Seq<char>) -> bool {
    exists|i: int| 0 <= i < bets.len() && (#[trigger] bets[i]).player@ == who
}

/// No participant holds two bets.
pub open spec fn unique_players(bets: Seq<PlayerMetadata>) -> bool {
    forall|i: int, j: int|
        0 <= i < j < bets.len() ==> (#[trigger] bets[i]).player@ != (#[trigger] bets[j]).player@
}

/// The total stake of `bets`.
pub open spec fn sum_amounts(bets: Seq<PlayerMetadata>) -> int
    decreases bets.len(),
{
    if bets.len() == 0 {
        0
    } else {
        sum_amounts(bets.drop_last()) + bets.last().bet_amount
    }
}

/// `after` is `before` with the round's bets cleared, its total zeroed and
/// the round number set to `next_round`; the owner and the lifetime total
/// are kept.
pub open spec fn round_closed(before: EvenOdd, after: EvenOdd, next_round: int) -> bool {
    &&& after.bets() == Seq::<PlayerMetadata>::empty()
    &&& after.total_round() == 0
    &&& after.total_ever() == before.total_ever()
    &&& after.owner() == before.owner()
    &&& after.round() == next_round
}

/// `after` is `before` with the bet `entry` admitted: appended to the bets
/// and its stake added to both totals.
pub open spec fn bet_placed(before: EvenOdd, after: EvenOdd, entry: PlayerMetadata) -> bool {
    &&& after.bets() == before.bets().push(entry)
    &&& after.total_ever() == before.total_ever() + entry.bet_amount
    &&& after.total_round() == before.total_round() + entry.bet_amount
    &&& after.round() == before.round()
    &&& after.owner() == before.owner()
}

/// A prefix of the bets never stakes more than all of them.
proof fn lemma_prefix_sum_le(bets: Seq<PlayerMetadata>, i: int)
    requires
        0 <= i <= bets.len(),
    ensures
        sum_amounts(bets.subrange(0, i)) <= sum_amounts(bets),
    decreases bets.len(),
{
    if i < bets.len() {
        assert(bets.drop_last().subrange(0, i) == bets.subrange(0, i));
        lemma_prefix_sum_le(bets.drop_last(), i);
    } else {
        assert(bets.subrange(0, i) == bets);
    }
}

/// Over any run of admitted bets, both totals grow by exactly the stakes
/// placed, and the bets are those already there followed by the new ones in
/// order.
pub proof fn lemma_bets_accumulate(states: Seq<EvenOdd>, placed: Seq<PlayerMetadata>)
    requires
        states.len() == placed.len() + 1,
        forall|k: int| 0 <= k < placed.len() ==> bet_placed(states[k], states[k + 1], #[trigger] placed[k]),
    ensures
        states.last().total_round() == states[0].total_round() + sum_amounts(placed),
        states.last().total_ever() == states[0].total_ever() + sum_amounts(placed),
        states.last().bets() == states[0].bets() + placed,
    decreases placed.len(),
{
    if placed.len() > 0 {
        let n = placed.len() - 1;
        let prefix = states.drop_last();
        assert forall|k: int| 0 <= k < placed.drop_last().len() implies bet_placed(
            prefix[k],
            prefix[k + 1],
            #[trigger] placed.drop_last()[k],
        ) by {
            assert(bet_placed(states[k], states[k + 1], placed[k]));
        }
        lemma_bets_accumulate(prefix, placed.drop_last());
        assert(bet_placed(states[n], states[n + 1], placed[n]));
        assert(states[0].bets() + placed == (states[0].bets() + placed.drop_last()).push(placed[n]));
    }
}

/// The betting pool: its owner, its stake counters, the round number and the
/// bets of the open round, one per participant in the order they came.
#[derive(Debug)]
pub struct EvenOdd {
    owner_id: String,
    total_bet_amount: u128,
    total_bet_amount_per_roll: u128,
    roll_id: u128,
    players: Vec<PlayerMetadata>,
}

impl EvenOdd {
    pub closed spec fn owner(&self) -> Seq<char> {
        self.owner_id@
    }

    /// Sum of every stake ever accepted.
    pub closed spec fn total_ever(&self) -> int {
        self.total_bet_amount as int
    }

    /// Sum of the stakes accepted since the last reset.
    pub closed spec fn total_round(&self) -> int {
        self.total_bet_amount_per_roll as int
    }

    pub closed spec fn round(&self) -> int {
        self.roll_id as int
    }

    /// The active bets, in the order they were placed.
    pub closed spec fn bets(&self) -> Seq<PlayerMetadata> {
        self.players@
    }

    /// The pool's invariant: a round number from 1 on, one bet per
    /// participant, each with a stake whose double fits a `u128`, and a round
    /// total equal to the sum of the stakes and bounded by the lifetime total.
    pub open spec fn wf(&self) -> bool {
        &&& self.round() >= 1
        &&& unique_players(self.bets())
        &&& forall|i: int|
            0 <= i < self.bets().len() ==> 0 < (#[trigger] self.bets()[i]).bet_amount
                && 2 * self.bets()[i].bet_amount <= u128::MAX
        &&& self.total_round() == sum_amounts(self.bets())
        &&& self.total_round() <= self.total_ever() <= u128::MAX
    }

    /// Sets up a pool owned by `owner_id`, with round 1, zero stakes and no
    /// bets. `state_exists` tells whether the pool's state is already stored.
    pub fn new(owner_id: String, state_exists: bool) -> (r: Result<EvenOdd, EvenOddError>)
        ensures
            state_exists ==> r == Err::<EvenOdd, EvenOddError>(EvenOddError::AlreadyInitialized),
            !state_exists && !valid_account_id(owner_id@) ==> r == Err::<EvenOdd, EvenOddError>(
                EvenOddError::InvalidIdentity,
            ),
            !state_exists && valid_account_id(owner_id@) ==> (r matches Ok(p) && p.wf()
                && p.owner() == owner_id@ && p.round() == 1 && p.total_ever() == 0
                && p.total_round() == 0 && p.bets() == Seq::<PlayerMetadata>::empty()),
    {
        if state_exists {
            return Err(EvenOddError::AlreadyInitialized);
        }
        if !is_valid_account_id(owner_id.as_str()) {
            return Err(EvenOddError::InvalidIdentity);
        }
        Ok(EvenOdd {
            owner_id,
            total_bet_amount: 0,
            total_bet_amount_per_roll: 0,
            roll_id: 1,
            players: Vec::new(),
        })
    }

    /// `Ok` iff `caller` is the owner.
    pub(crate) fn assert_owner(&self, caller: &String) -> (r: Result<(), EvenOddError>)
        ensures
            r == if caller@ == self.owner() {
                Ok::<(), EvenOddError>(())
            } else {
                Err(EvenOddError::Unauthorized)
            },
    {
        if *caller == self.owner_id {
            Ok(())
        } else {
            Err(EvenOddError::Unauthorized)
        }
    }
    /// Position of `who`'s bet, if there is one.
    fn find_player(&self, who: &String) -> (r: Option<usize>)
        ensures
            match r {
                Some(i) => i < self.bets().len() && self.bets()[i as int].player@ == who@,
                None => !has_bet(self.bets(), who@),
            },
    {
        let mut i: usize = 0;
        while i < self.players.len()
            invariant
                i <= self.players@.len(),
                forall|k: int| 0 <= k < i ==> (#[trigger] self.players@[k]).player@ != who@,
            decreases self.players@.len() - i,
        {
            if self.players[i].player == *who {
                return Some(i);
            }
            i = i + 1;
        }
        None
    }

    /// Whether `account` has a bet in the current round.
    pub fn is_already_bet(&self, account: String) -> (r: bool)
        ensures
            r == has_bet(self.bets(), account@),
    {
        self.find_player(&account).is_some()
    }

    /// `account_id`'s bet in the current round; where there is none, a record
    /// with no stake, no name and the odd side.
    pub fn get_player(&self, account_id: String) -> (r: PlayerMetadata)
        ensures
            has_bet(self.bets(), account_id@) ==> exists|i: int|
                0 <= i < self.bets().len() && self.bets()[i].player@ == account_id@ && r
                    == #[trigger] self.bets()[i],
            !has_bet(self.bets(), account_id@) ==> r.bet_amount == 0 && r.player@ == Seq::<
                char,
            >::empty() && !r.is_even,
    {
        match self.find_player(&account_id) {
            Some(i) => {
                let p = &self.players[i];
                PlayerMetadata { bet_amount: p.bet_amount, player: p.player.clone(), is_even: p.is_even }
            },
            None => PlayerMetadata { bet_amount: 0, player: String::new(), is_even: false },
        }
    }

    /// Places `account`'s bet of `amount` on the side `is_even` (true for
    /// even). `balance` is the pool's custodial balance, this stake included:
    /// it must cover twice the stake. The checks run in this order: no stake,
    /// a bet already placed this round, a balance short of twice the stake.
    pub fn bet(&mut self, account: String, amount: u128, is_even: bool, balance: u128) -> (r: Result<(), EvenOddError>)
        requires
            old(self).wf(),
            amount > 0 && !has_bet(old(self).bets(), account@) && 2 * amount <= balance ==> old(
                self,
            ).total_ever() + amount <= u128::MAX,
        ensures
            final(self).wf(),
            amount == 0 ==> r == Err::<(), EvenOddError>(EvenOddError::ZeroStake),
            amount > 0 && has_bet(old(self).bets(), account@) ==> r == Err::<(), EvenOddError>(
                EvenOddError::DuplicateBet,
            ),
            amount > 0 && !has_bet(old(self).bets(), account@) && balance < 2 * amount ==> r
                == Err::<(), EvenOddError>(EvenOddError::InsufficientPoolBalance),
            r is Err ==> *final(self) == *old(self),
            amount > 0 && !has_bet(old(self).bets(), account@) && 2 * amount <= balance ==> {
                &&& r is Ok
                &&& bet_placed(
                    *old(self),
                    *final(self),
                    (PlayerMetadata { bet_amount: amount, player: account, is_even: is_even }),
                )
            },
    {
        if amount == 0 {
            return Err(EvenOddError::ZeroStake);
        }
        if self.find_player(&account).is_some() {
            return Err(EvenOddError::DuplicateBet);
        }
        if amount > balance || balance - amount < amount {
            return Err(EvenOddError::InsufficientPoolBalance);
        }
        let ghost before = self.players@;
        let entry = PlayerMetadata { bet_amount: amount, player: account, is_even };
        self.players.push(entry);
        proof {
            assert(self.players@.drop_last() == before);
            assert(forall|i: int| 0 <= i < before.len() ==> #[trigger] self.players@[i] == before[i]);
        }
        self.total_bet_amount = self.total_bet_amount + amount;
        self.total_bet_amount_per_roll = self.total_bet_amount_per_roll + amount;
        Ok(())
    }
    /// Clears the round's bets and total without paying anyone.
    fn clear_round(&mut self)
        requires
            old(self).wf(),
        ensures
            final(self).wf(),
            round_closed(*old(self), *final(self), old(self).round()),
    {
        self.players.clear();
        self.total_bet_amount_per_roll = 0;
    }

    /// Owner only: voids the current round, dropping its bets unpaid.
    pub fn reset_board(&mut self, caller: &String) -> (r: Result<(), EvenOddError>)
        requires
            old(self).wf(),
        ensures
            final(self).wf(),
            caller@ != old(self).owner() ==> r == Err::<(), EvenOddError>(EvenOddError::Unauthorized)
                && *final(self) == *old(self),
            caller@ == old(self).owner() ==> r is Ok && round_closed(*old(self), *final(self), old(self).round()),
    {
        self.assert_owner(caller)?;
        self.clear_round();
        Ok(())
    }

    /// Owner only: settles the round on the dice `dice_number_1` and
    /// `dice_number_2`. Returns the transfers owed, twice the stake to each
    /// bet on the side the dice total shows, in the order of the bets; then
    /// clears the round and moves to the next.
    pub fn settle_roll(&mut self, caller: &String, dice_number_1: u8, dice_number_2: u8) -> (r:
        Result<Vec<Payout>, EvenOddError>)
        requires
            old(self).wf(),
            caller@ == old(self).owner() ==> old(self).round() < u128::MAX,
        ensures
            final(self).wf(),
            caller@ != old(self).owner() ==> (r matches Err(e) && e == EvenOddError::Unauthorized
                && *final(self) == *old(self)),
            caller@ == old(self).owner() ==> (r matches Ok(ps) && ps@.map_values(
                |p: Payout| payout_view(p),
            ) == winnings(old(self).bets(), is_even_roll(dice_number_1 as int, dice_number_2 as int))
                && round_closed(*old(self), *final(self), old(self).round() + 1)),
    {
        self.assert_owner(caller)?;
        let is_even: bool = (dice_number_1 as u16 + dice_number_2 as u16) % 2 == 0;
        let mut payouts: Vec<Payout> = Vec::new();
        let mut i: usize = 0;
        while i < self.players.len()
            invariant
                self.wf(),
                i <= self.players@.len(),
                is_even == is_even_roll(dice_number_1 as int, dice_number_2 as int),
                payouts@.map_values(|p: Payout| payout_view(p)) == winnings(
                    self.players@.subrange(0, i as int),
                    is_even,
                ),
            decreases self.players@.len() - i,
        {
            let ghost seen = self.players@.subrange(0, i as int);
            let p = &self.players[i];
            assert(self.players@.subrange(0, i + 1).drop_last() == seen);
            assert(self.players@[i as int] == self.bets()[i as int]);
            if p.is_even == is_even {
                payouts.push(Payout { account: p.player.clone(), amount: 2 * p.bet_amount });
                assert(payouts@.map_values(|p: Payout| payout_view(p)) == winnings(
                    self.players@.subrange(0, i + 1),
                    is_even,
                ));
            }
            i = i + 1;
        }
        assert(self.players@.subrange(0, i as int) == self.players@);
        self.clear_round();
        self.roll_id = self.roll_id + 1;
        Ok(payouts)
    }

    /// Owner only: rolls two dice and settles the round on them (see
    /// `settle_roll`). Returns the dice with the transfers owed.
    pub fn roll_dice(&mut self, caller: &String) -> (r: Result<(u8, u8, Vec<Payout>), EvenOddError>)
        requires
            old(self).wf(),
            caller@ == old(self).owner() ==> old(self).round() < u128::MAX,
        ensures
            final(self).wf(),
            caller@ != old(self).owner() ==> (r matches Err(e) && e == EvenOddError::Unauthorized
                && *final(self) == *old(self)),
            caller@ == old(self).owner() ==> (r matches Ok((d1, d2, ps)) && 1 <= d1 <= 6 && 1 <= d2
                <= 6 && ps@.map_values(|p: Payout| payout_view(p)) == winnings(
                old(self).bets(),
                is_even_roll(d1 as int, d2 as int),
            ) && round_closed(*old(self), *final(self), old(self).round() + 1)),
    {
        self.assert_owner(caller)?;
        let dice_number_1: u8 = generate_random_number();
        let dice_number_2: u8 = generate_random_number();
        let payouts = self.settle_roll(caller, dice_number_1, dice_number_2)?;
        Ok((dice_number_1, dice_number_2, payouts))
    }

    /// Owner only: the transfer of `amount` from the pool to the owner. No
    /// balance is checked here; the transfer itself must be covered.
    pub fn withdraw(&self, caller: &String, amount: u128) -> (r: Result<Payout, EvenOddError>)
        ensures
            caller@ != self.owner() ==> (r matches Err(e) && e == EvenOddError::Unauthorized),
            caller@ == self.owner() ==> (r matches Ok(p) && payout_view(p) == (self.owner(), amount as int)),
    {
        self.assert_owner(caller)?;
        Ok(Payout { account: self.owner_id.clone(), amount })
    }

    pub fn get_owner(&self) -> (r: String)
        ensures
            r@ == self.owner(),
    {
        self.owner_id.clone()
    }

    pub fn get_roll_id(&self) -> (r: u128)
        ensures
            r == self.round(),
    {
        self.roll_id
    }

    pub fn get_total_bet_amount(&self) -> (r: u128)
        ensures
            r == self.total_ever(),
    {
        self.total_bet_amount
    }

    pub fn get_total_bet_amount_per_roll(&self) -> (r: u128)
        ensures
            r == self.total_round(),
    {
        self.total_bet_amount_per_roll
    }

    /// Number of bets in the current round.
    pub fn player_count(&self) -> (r: usize)
        ensures
            r == self.bets().len(),
    {
        self.players.len()
    }
    /// Rebuilds a pool from its stored parts; `None` where they break the
    /// pool's invariant.
    pub fn restore(
        owner_id: String,
        total_bet_amount: u128,
        total_bet_amount_per_roll: u128,
        roll_id: u128,
        players: Vec<PlayerMetadata>,
    ) -> (r: Option<EvenOdd>)
        ensures
            r is Some <==> {
                &&& roll_id >= 1
                &&& unique_players(players@)
                &&& forall|i: int|
                    0 <= i < players@.len() ==> 0 < (#[trigger] players@[i]).bet_amount && 2
                        * players@[i].bet_amount <= u128::MAX
                &&& total_bet_amount_per_roll == sum_amounts(players@)
                &&& total_bet_amount_per_roll <= total_bet_amount
            },
            r matches Some(p) ==> {
                &&& p.wf()
                &&& p.owner() == owner_id@
                &&& p.total_ever() == total_bet_amount
                &&& p.total_round() == total_bet_amount_per_roll
                &&& p.round() == roll_id
                &&& p.bets() == players@
            },
    {
        if roll_id == 0 || total_bet_amount_per_roll > total_bet_amount {
            return None;
        }
        let mut sum: u128 = 0;
        let mut i: usize = 0;
        while i < players.len()
            invariant
                i <= players@.len(),
                sum == sum_amounts(players@.subrange(0, i as int)),
                sum <= total_bet_amount_per_roll,
                unique_players(players@.subrange(0, i as int)),
                forall|k: int|
                    0 <= k < i ==> 0 < (#[trigger] players@[k]).bet_amount && 2
                        * players@[k].bet_amount <= u128::MAX,
            decreases players@.len() - i,
        {
            let amount = players[i].bet_amount;
            assert(players@.subrange(0, i + 1).drop_last() == players@.subrange(0, i as int));
            if amount == 0 || amount > u128::MAX / 2 || amount > total_bet_amount_per_roll - sum {
                proof {
                    if amount > 0 && amount <= u128::MAX / 2 {
                        lemma_prefix_sum_le(players@, i + 1);
                    }
                }
                return None;
            }
            let mut j: usize = 0;
            while j < i
                invariant
                    j <= i < players@.len(),
                    forall|k: int| 0 <= k < j ==> (#[trigger] players@[k]).player@ != players@[i as int].player@,
                decreases i - j,
            {
                if players[j].player == players[i].player {
                    return None;
                }
                j = j + 1;
            }
            sum = sum + amount;
            i = i + 1;
        }
        assert(players@.subrange(0, i as int) == players@);
        if sum != total_bet_amount_per_roll {
            return None;
        }
        Some(EvenOdd { owner_id, total_bet_amount, total_bet_amount_per_roll, roll_id, players })
    }

    /// The active bets, in the order they were placed.
    pub fn players(&self) -> (r: Vec<PlayerMetadata>)
        ensures
            r@.len() == self.bets().len(),
            forall|i: int| 0 <= i < r@.len() ==> #[trigger] r@[i] == self.bets()[i],
    {
        let mut out: Vec<PlayerMetadata> = Vec::new();
        let mut i: usize = 0;
        while i < self.players.len()
            invariant
                i <= self.players@.len(),
                out@.len() == i,
                forall|k: int| 0 <= k < i ==> #[trigger] out@[k] == self.players@[k],
            decreases self.players@.len() - i,
        {
            let p = &self.players[i];
            out.push(PlayerMetadata { bet_amount: p.bet_amount, player: p.player.clone(), is_even: p.is_even });
            i = i + 1;
        }
        out
    }
}

} // verus!
