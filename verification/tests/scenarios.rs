use space_wager::{
    instantiate, query_games, query_player, query_prediction, query_predictions, try_make_prediction,
    try_resolve_game, try_resolve_prediction, update_player, Coin, ContractError, InstantiateMsg,
    OracleInput, PlayerEntry, TransferMsg,
};

const T0: u64 = 1_000_000;

fn msg_with_fee(collector_ratio: u128) -> InstantiateMsg {
    InstantiateMsg {
        pool_address: "oracle".to_string(),
        collector_address: "collector".to_string(),
        round_time: 300,
        limit_time: 30,
        denom: "uusd".to_string(),
        collector_ratio,
    }
}

fn uusd(amount: u128) -> Vec<Coin> {
    vec![Coin { denom: "uusd".to_string(), amount }]
}

fn price(p: u128) -> OracleInput {
    OracleInput::Instant { scale: 1, quote_reserve: p, base_reserve: 1 }
}

/// The worked pari-mutuel example: round duration 300s, grace 30s; A stakes
/// 100,000,000 down, B stakes 500,000,000 up and 100,000,000 down; the round
/// is decided up, so B's ratio is 700/500 = 1.4 and B's gross prize is the
/// whole 700,000,000 pool, while A receives nothing.
#[test]
fn parimutuel_example() {
    let mut market = instantiate(T0, msg_with_fee(0));
    try_make_prediction(&mut market, &"a".to_string(), &uusd(100_000_000), false).unwrap();
    try_make_prediction(&mut market, &"b".to_string(), &uusd(500_000_000), true).unwrap();
    try_make_prediction(&mut market, &"b".to_string(), &uusd(100_000_000), false).unwrap();

    // round 0 closes, round 1 opens; then a later settlement decides round 0
    try_resolve_prediction(&mut market, T0 + 300, &price(100)).unwrap();
    let res = try_resolve_prediction(&mut market, T0 + 600, &price(150)).unwrap();
    let settled = res.settled.unwrap();
    assert!(settled.is_success);
    assert_eq!(settled.resolved, Some(true));

    let b = try_resolve_game(&mut market, T0 + 630, &"b".to_string(), &vec![0]).unwrap();
    assert_eq!(b.prize_amount, 700_000_000);
    assert_eq!(b.net_prize, 700_000_000);
    assert_eq!(b.collector_fee, 0);

    let a = try_resolve_game(&mut market, T0 + 630, &"a".to_string(), &vec![0]).unwrap();
    assert_eq!(a.prize_amount, 0);
    assert_eq!(a.refund_amount, 0);
    assert!(a.transfers.is_empty());
}

/// Winning payouts of a decided round sum to the total pool within one unit
/// per claimant: three equal up stakes against one down unit each round down.
#[test]
fn parimutuel_rounding_tolerance() {
    let mut market = instantiate(T0, msg_with_fee(0));
    try_make_prediction(&mut market, &"w1".to_string(), &uusd(1), true).unwrap();
    try_make_prediction(&mut market, &"w2".to_string(), &uusd(1), true).unwrap();
    try_make_prediction(&mut market, &"w3".to_string(), &uusd(1), true).unwrap();
    try_make_prediction(&mut market, &"l".to_string(), &uusd(1), false).unwrap();

    try_resolve_prediction(&mut market, T0 + 300, &price(100)).unwrap();
    try_resolve_prediction(&mut market, T0 + 600, &price(150)).unwrap();

    // each winner: floor(1 * 4 / 3) = 1
    let mut paid: u128 = 0;
    for w in ["w1", "w2", "w3"] {
        let rec = try_resolve_game(&mut market, T0 + 630, &w.to_string(), &vec![0]).unwrap();
        assert_eq!(rec.prize_amount, 1);
        paid += rec.prize_amount;
    }
    let total: u128 = 4;
    assert!(paid <= total);
    assert!(total - paid <= 3);

    let l = try_resolve_game(&mut market, T0 + 630, &"l".to_string(), &vec![0]).unwrap();
    assert_eq!(l.prize_amount, 0);
}

/// Refunds of a voided round sum exactly to its combined pool, and no fee
/// is collected from them.
#[test]
fn refund_conservation() {
    let mut market = instantiate(T0, msg_with_fee(50_000_000_000_000_000));
    try_make_prediction(&mut market, &"a".to_string(), &uusd(123_456), false).unwrap();
    try_make_prediction(&mut market, &"b".to_string(), &uusd(876_544), false).unwrap();
    try_make_prediction(&mut market, &"b".to_string(), &uusd(11), true).unwrap();

    // the settlement that would decide round 0 arrives after its expiry: void
    try_resolve_prediction(&mut market, T0 + 300, &price(100)).unwrap();
    try_resolve_prediction(&mut market, T0 + 700, &price(150)).unwrap();
    let p = query_prediction(&market, 0).unwrap();
    assert!(!p.success);

    let a = try_resolve_game(&mut market, T0 + 700, &"a".to_string(), &vec![0]).unwrap();
    let b = try_resolve_game(&mut market, T0 + 700, &"b".to_string(), &vec![0]).unwrap();
    assert_eq!(a.refund_amount, 123_456);
    assert_eq!(b.refund_amount, 876_555);
    assert_eq!(a.refund_amount + b.refund_amount, 1_000_011);
    assert_eq!(a.collector_fee, 0);
    assert_eq!(b.collector_fee, 0);
    assert_eq!(
        a.transfers,
        vec![TransferMsg { to_address: "a".to_string(), amount: 123_456 }]
    );
}

/// A batch mixing a won round and a voided round applies the fee to the
/// winnings only and pays one combined transfer.
#[test]
fn mixed_batch_fee_on_winnings_only() {
    let mut market = instantiate(T0, msg_with_fee(50_000_000_000_000_000));
    // round 0: p wins the whole 200 pool
    try_make_prediction(&mut market, &"p".to_string(), &uusd(100), true).unwrap();
    try_make_prediction(&mut market, &"q".to_string(), &uusd(100), false).unwrap();
    try_resolve_prediction(&mut market, T0 + 300, &price(100)).unwrap();
    // round 1: p stakes 40, the round voids (one-sided pool)
    try_make_prediction(&mut market, &"p".to_string(), &uusd(40), false).unwrap();
    try_resolve_prediction(&mut market, T0 + 600, &price(150)).unwrap();
    try_resolve_prediction(&mut market, T0 + 900, &price(160)).unwrap();

    let rec = try_resolve_game(&mut market, T0 + 1230, &"p".to_string(), &vec![0, 1]).unwrap();
    assert_eq!(rec.prize_amount, 200);
    assert_eq!(rec.refund_amount, 40);
    // net = floor(200 * 0.95) = 190, fee = 10; refund untouched by the fee
    assert_eq!(rec.net_prize, 190);
    assert_eq!(rec.collector_fee, 10);
    assert_eq!(
        rec.transfers,
        vec![
            TransferMsg { to_address: "p".to_string(), amount: 230 },
            TransferMsg { to_address: "collector".to_string(), amount: 10 },
        ]
    );
}

/// Claims feed the per-player aggregates: a win counts once and accrues the
/// net-of-stake profit, a loss counts once and burns accrued rewards down
/// to zero at most.
#[test]
fn player_stats_follow_claims() {
    let mut market = instantiate(T0, msg_with_fee(50_000_000_000_000_000));
    try_make_prediction(&mut market, &"winner".to_string(), &uusd(500_000_000), true).unwrap();
    try_make_prediction(&mut market, &"winner".to_string(), &uusd(100_000_000), false).unwrap();
    try_make_prediction(&mut market, &"loser".to_string(), &uusd(100_000_000), false).unwrap();
    try_resolve_prediction(&mut market, T0 + 300, &price(100)).unwrap();
    try_resolve_prediction(&mut market, T0 + 600, &price(150)).unwrap();

    try_resolve_game(&mut market, T0 + 630, &"winner".to_string(), &vec![0]).unwrap();
    let st = query_player(&market, &"winner".to_string()).unwrap();
    assert_eq!(st.game_won, 1);
    assert_eq!(st.game_over, 0);
    // gross prize 700,000,000 over a 600,000,000 total stake
    assert_eq!(st.game_rewards, 100_000_000);

    try_resolve_game(&mut market, T0 + 630, &"loser".to_string(), &vec![0]).unwrap();
    let st = query_player(&market, &"loser".to_string()).unwrap();
    assert_eq!(st.game_won, 0);
    assert_eq!(st.game_over, 1);
    assert_eq!(st.game_rewards, 0);

    // nobody else got a record
    assert_eq!(
        query_player(&market, &"bystander".to_string()).unwrap_err(),
        ContractError::NotFound {}
    );
}

/// The stats updater itself: lazy creation, accumulation, and the floor at
/// zero when losses outrun accrued rewards.
#[test]
fn update_player_floors_at_zero() {
    let mut players: Vec<PlayerEntry> = Vec::new();
    update_player(&mut players, &"p".to_string(), 70, true, Some(true));
    assert_eq!(players.len(), 1);
    assert_eq!(players[0].stats.game_won, 1);
    assert_eq!(players[0].stats.game_rewards, 70);

    update_player(&mut players, &"p".to_string(), 30, true, Some(true));
    assert_eq!(players[0].stats.game_won, 2);
    assert_eq!(players[0].stats.game_rewards, 100);

    update_player(&mut players, &"p".to_string(), 250, false, Some(false));
    assert_eq!(players[0].stats.game_won, 2);
    assert_eq!(players[0].stats.game_over, 1);
    assert_eq!(players[0].stats.game_rewards, 0);

    update_player(&mut players, &"q".to_string(), 5, false, Some(false));
    assert_eq!(players.len(), 2);
    assert_eq!(players[1].stats.game_over, 1);
    assert_eq!(players[1].stats.game_rewards, 0);
}

/// Ascending round pagination and a player's descending wager history.
#[test]
fn paginated_queries() {
    let mut market = instantiate(T0, msg_with_fee(0));
    let mut now = T0;
    for i in 0..5u64 {
        try_make_prediction(&mut market, &"p".to_string(), &uusd(10 + i as u128), true).unwrap();
        now += 300;
        try_resolve_prediction(&mut market, now, &price(100 + i as u128)).unwrap();
    }

    let page = query_predictions(&market, None, Some(3));
    assert_eq!(page.len(), 3);
    assert_eq!(page[0].0, 0);
    assert_eq!(page[2].0, 2);

    let page = query_predictions(&market, Some(3), None);
    assert_eq!(page.len(), 2);
    assert_eq!(page[0].0, 4);
    assert_eq!(page[1].0, 5);

    // wager history, descending; the player skipped nothing up to round 4
    let hist = query_games(&market, &"p".to_string(), None, Some(2));
    assert_eq!(hist.len(), 2);
    assert_eq!(hist[0].0, 4);
    assert_eq!(hist[1].0, 3);
    assert_eq!(hist[0].1.up, 14);

    let hist = query_games(&market, &"p".to_string(), Some(2), None);
    assert_eq!(hist.len(), 2);
    assert_eq!(hist[0].0, 1);
    assert_eq!(hist[1].0, 0);
    assert_eq!(hist[1].1.up, 10);
}

/// A failed price fetch aborts a settlement with no state change.
#[test]
fn settlement_aborts_without_price() {
    let mut market = instantiate(T0, msg_with_fee(0));
    try_make_prediction(&mut market, &"p".to_string(), &uusd(10), true).unwrap();

    let bad = OracleInput::Feed { list: vec![] };
    let err = try_resolve_prediction(&mut market, T0 + 300, &bad).unwrap_err();
    assert_eq!(err, ContractError::PriceUnavailable {});

    // nothing moved: the same settlement succeeds later with a usable source
    assert_eq!(space_wager::query_state(&market).round, 0);
    try_resolve_prediction(&mut market, T0 + 300, &price(5)).unwrap();
    assert_eq!(space_wager::query_state(&market).round, 1);
}
