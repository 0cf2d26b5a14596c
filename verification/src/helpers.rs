//! The per-player aggregate updater: wins and losses counted, and a
//! cumulative reward figure that profits raise and losses lower, floored at
//! zero.

use vstd::prelude::*;

use crate::records::{find_player_index, lemma_player_at, lemma_player_push, lemma_player_update};
use crate::state::{has_player, player_of, players_unique, Player, PlayerEntry};
use vstd::pervasive::VecAdditionalExecFns;

verus! {

/// The stats record after one payout touch: `game_rewards` grows by
/// `game_rewards` on a profitable win (`is_profit == Some(true)`), shrinks
/// by it, floored at zero, on a loss (`Some(false)`), and stays put
/// otherwise; the win or loss counter grows by one.  A player without a
/// record starts from zero counters.
pub open spec fn player_update_spec(
    prev: Option<Player>,
    game_rewards: u128,
    won: bool,
    is_profit: Option<bool>,
) -> Player {
    match prev {
        None => {
            let calculated = match is_profit {
                Some(profit) => if profit && game_rewards != 0 {
                    game_rewards
                } else {
                    0
                },
                None => 0,
            };
            if won {
                Player { game_won: 1, game_over: 0, game_rewards: calculated }
            } else {
                Player { game_won: 0, game_over: 1, game_rewards: 0 }
            }
        },
        Some(st) => {
            let adjusted = match is_profit {
                Some(profit) => if game_rewards != 0 {
                    if profit {
                        (st.game_rewards + game_rewards) as u128
                    } else if st.game_rewards > game_rewards {
                        (st.game_rewards - game_rewards) as u128
                    } else {
                        0
                    }
                } else {
                    st.game_rewards
                },
                None => st.game_rewards,
            };
            if won {
                Player {
                    game_won: (st.game_won + 1) as u64,
                    game_over: st.game_over,
                    game_rewards: adjusted,
                }
            } else {
                Player {
                    game_won: st.game_won,
                    game_over: (st.game_over + 1) as u64,
                    game_rewards: adjusted,
                }
            }
        },
    }
}

/// The stats record of `player`, or `None` while none exists.
pub open spec fn stats_of(s: Seq<PlayerEntry>, player: Seq<char>) -> Option<Player> {
    if has_player(s, player) {
        Some(player_of(s, player))
    } else {
        None
    }
}

/// Applies one payout touch to `address`'s stats record, creating it lazily
/// from zero counters on first touch.
pub fn update_player(
    players: &mut Vec<PlayerEntry>,
    address: &String,
    game_rewards: u128,
    won: bool,
    is_profit: Option<bool>,
)
    requires
        players_unique(old(players)@),
        ({
            let st = match stats_of(old(players)@, address@) {
                Some(st) => st,
                None => Player { game_won: 0, game_over: 0, game_rewards: 0 },
            };
            &&& won ==> st.game_won + 1 <= u64::MAX
            &&& !won ==> st.game_over + 1 <= u64::MAX
            &&& (is_profit == Some(true) && game_rewards != 0) ==> st.game_rewards + game_rewards
                <= u128::MAX
        }),
    ensures
        players_unique(final(players)@),
        has_player(final(players)@, address@),
        player_of(final(players)@, address@) == player_update_spec(
            stats_of(old(players)@, address@),
            game_rewards,
            won,
            is_profit,
        ),
        forall|p: Seq<char>|
            #![trigger has_player(final(players)@, p)]
            p != address@ ==> has_player(final(players)@, p) == has_player(old(players)@, p),
        forall|p: Seq<char>|
            #![trigger player_of(final(players)@, p)]
            p != address@ && has_player(old(players)@, p) ==> player_of(final(players)@, p)
                == player_of(old(players)@, p),
        final(players)@.len() == old(players)@.len() + (if has_player(old(players)@, address@) {
            0int
        } else {
            1int
        }),
{
    let found = find_player_index(players, address);
    match found {
        Some(i) => {
            proof {
                lemma_player_at(players@, i as int, address@);
            }
            let st = players[i].stats;
            let adjusted = match is_profit {
                Some(profit) => if game_rewards != 0 {
                    if profit {
                        st.game_rewards + game_rewards
                    } else if st.game_rewards > game_rewards {
                        st.game_rewards - game_rewards
                    } else {
                        0
                    }
                } else {
                    st.game_rewards
                },
                None => st.game_rewards,
            };
            let updated = if won {
                Player { game_won: st.game_won + 1, game_over: st.game_over, game_rewards: adjusted }
            } else {
                Player { game_won: st.game_won, game_over: st.game_over + 1, game_rewards: adjusted }
            };
            let key = players[i].address.clone();
            let entry = PlayerEntry { address: key, stats: updated };
            proof {
                lemma_player_update(players@, i as int, entry);
            }
            players.set(i, entry);
        },
        None => {
            let calculated = match is_profit {
                Some(profit) => if profit && game_rewards != 0 {
                    game_rewards
                } else {
                    0
                },
                None => 0,
            };
            let created = if won {
                Player { game_won: 1, game_over: 0, game_rewards: calculated }
            } else {
                Player { game_won: 0, game_over: 1, game_rewards: 0 }
            };
            let entry = PlayerEntry { address: address.clone(), stats: created };
            proof {
                lemma_player_push(players@, entry);
            }
            players.push(entry);
        },
    }
}

} // verus!
