//! A custodial even/odd betting pool: participants stake on the parity of two
//! dice, the owner rolls, winners are paid double and the round starts over.

mod account;
mod payout;
mod pool;

pub use account::{is_account_char, is_alnum, is_separator, valid_account_id};
pub use payout::{die_face, is_even_roll, lemma_winners_paid_double, payout_view, winnings, Payout};
pub use pool::{
    bet_placed, has_bet, lemma_bets_accumulate, round_closed, sum_amounts, unique_players, EvenOdd,
    EvenOddError, PlayerMetadata,
};
