use space_wager::{
    instantiate, query_game, query_prediction, query_state, try_make_prediction,
    try_resolve_game, try_resolve_prediction, Coin, ContractError, InstantiateMsg, OracleInput,
    TransferMsg,
};

const T0: u64 = 1_571_797_419;

fn base_msg() -> InstantiateMsg {
    InstantiateMsg {
        pool_address: "terraswap".to_string(),
        collector_address: "collector".to_string(),
        round_time: 300,
        limit_time: 30,
        denom: "uusd".to_string(),
        collector_ratio: 50_000_000_000_000_000,
    }
}

fn uusd(amount: u128) -> Vec<Coin> {
    vec![Coin { denom: "uusd".to_string(), amount }]
}

fn pool_price(quote: u128, base: u128) -> OracleInput {
    OracleInput::Instant { scale: 1_000_000, quote_reserve: quote, base_reserve: base }
}

#[test]
fn proper_initialization() {
    let market = instantiate(T0, base_msg());

    let prediction = query_prediction(&market, 0).unwrap();
    assert_eq!(prediction.down, 0);
    assert_eq!(prediction.up, 0);
    assert_eq!(prediction.closing_time, T0 + 300);
    assert_eq!(prediction.expire_time, T0 + 300 + 300 + 30);
    assert!(!prediction.success);
    assert_eq!(prediction.is_up, None);
    assert_eq!(prediction.locked_price, 0);
    assert_eq!(query_state(&market).round, 0);
}

#[test]
fn proper_make_prediction() {
    let mut market = instantiate(T0, base_msg());

    // no funds attached
    let err = try_make_prediction(&mut market, &"player1".to_string(), &vec![], false).unwrap_err();
    assert_eq!(err, ContractError::EmptyFunds {});

    // player1 enters down
    let res = try_make_prediction(
        &mut market,
        &"player1".to_string(),
        &uusd(100_000_000),
        false,
    )
    .unwrap();
    assert!(!res.entered_up);
    assert_eq!(res.committed, 100_000_000);
    assert_eq!(res.prediction_id, 0);

    let game = query_game(&market, &"player1".to_string(), 0).unwrap();
    assert_eq!(game.up, 0);
    assert_eq!(game.down, 100_000_000);
    assert_eq!(game.resolved, false);
    assert_eq!(game.prize, 0);

    // player2 enters up
    let res = try_make_prediction(
        &mut market,
        &"player2".to_string(),
        &uusd(500_000_000),
        true,
    )
    .unwrap();
    assert!(res.entered_up);
    assert_eq!(res.committed, 500_000_000);
    assert_eq!(res.prediction_id, 0);

    let game = query_game(&market, &"player2".to_string(), 0).unwrap();
    assert_eq!(game.up, 500_000_000);
    assert_eq!(game.down, 0);
    assert_eq!(game.resolved, false);
    assert_eq!(game.prize, 0);

    // player2 also enters down
    let res = try_make_prediction(
        &mut market,
        &"player2".to_string(),
        &uusd(100_000_000),
        false,
    )
    .unwrap();
    assert!(!res.entered_up);
    assert_eq!(res.committed, 100_000_000);
    assert_eq!(res.prediction_id, 0);

    let game = query_game(&market, &"player2".to_string(), 0).unwrap();
    assert_eq!(game.up, 500_000_000);
    assert_eq!(game.down, 100_000_000);
    assert_eq!(game.resolved, false);
    assert_eq!(game.prize, 0);

    let prediction = query_prediction(&market, 0).unwrap();
    assert_eq!(prediction.down, 200_000_000);
    assert_eq!(prediction.up, 500_000_000);
}

#[test]
fn proper_resolve_prediction() {
    let mut market = instantiate(T0, base_msg());

    try_make_prediction(&mut market, &"player1".to_string(), &uusd(100_000_000), false).unwrap();
    try_make_prediction(&mut market, &"player2".to_string(), &uusd(500_000_000), true).unwrap();
    try_make_prediction(&mut market, &"player2".to_string(), &uusd(100_000_000), false).unwrap();

    // the betting window is still open
    let err = try_resolve_prediction(&mut market, T0, &pool_price(15_250_000_000, 555_000_000))
        .unwrap_err();
    assert_eq!(err, ContractError::PredictionStillInProgress {});

    // first settlement: nothing to finalize yet, round 1 opens at 27477477
    let res = try_resolve_prediction(
        &mut market,
        T0 + 300,
        &pool_price(15_250_000_000, 555_000_000),
    )
    .unwrap();
    assert_eq!(res.settled, None);
    assert_eq!(res.round, 1);
    assert_eq!(query_state(&market).round, 1);
    assert_eq!(query_prediction(&market, 1).unwrap().locked_price, 27_477_477);

    try_make_prediction(&mut market, &"player1".to_string(), &uusd(100_000_000), false).unwrap();

    // second settlement decides round 0: price 35714285 rose above its lock
    let res = try_resolve_prediction(
        &mut market,
        T0 + 600,
        &pool_price(16_250_000_000, 455_000_000),
    )
    .unwrap();
    let settled = res.settled.unwrap();
    assert_eq!(settled.prediction_id, 0);
    assert_eq!(settled.locked_price, 0);
    assert!(settled.is_success);
    assert_eq!(settled.resolved, Some(true));
    assert_eq!(settled.resolved_price, Some(35_714_285));
    assert_eq!(res.round, 2);

    let finalized = query_prediction(&market, 0).unwrap();
    assert!(finalized.success);
    assert_eq!(finalized.is_up, Some(true));
    assert_eq!(finalized.resolved_price, 35_714_285);

    // third settlement voids round 1: its up pool stayed empty
    let res = try_resolve_prediction(
        &mut market,
        T0 + 900,
        &pool_price(56_250_000_000, 255_000_000),
    )
    .unwrap();
    let settled = res.settled.unwrap();
    assert_eq!(settled.prediction_id, 1);
    assert_eq!(settled.locked_price, 27_477_477);
    assert!(!settled.is_success);
    assert_eq!(settled.resolved, None);
    assert_eq!(settled.resolved_price, None);
    assert_eq!(query_state(&market).round, 3);
}

#[test]
fn proper_resolve_game() {
    let mut market = instantiate(T0, base_msg());

    try_make_prediction(&mut market, &"player1".to_string(), &uusd(100_000_000), false).unwrap();
    try_make_prediction(&mut market, &"player2".to_string(), &uusd(500_000_000), true).unwrap();
    try_make_prediction(&mut market, &"player2".to_string(), &uusd(100_000_000), false).unwrap();

    try_resolve_prediction(&mut market, T0 + 300, &pool_price(15_250_000_000, 555_000_000))
        .unwrap();

    // round 0 cannot be claimed before its expiry window has passed
    let err = try_resolve_game(&mut market, T0 + 300, &"player1".to_string(), &vec![0])
        .unwrap_err();
    assert_eq!(err, ContractError::PredictionStillInProgress {});

    // second settlement decides round 0: any nonzero price beats its zero lock
    let res = try_resolve_prediction(
        &mut market,
        T0 + 600,
        &pool_price(1_250_000_000, 955_000_000),
    )
    .unwrap();
    let settled = res.settled.unwrap();
    assert_eq!(settled.prediction_id, 0);
    assert!(settled.is_success);
    assert_eq!(settled.resolved, Some(true));
    assert_eq!(settled.resolved_price, Some(1_308_900));

    // player1 staked only down: claimed, but nothing to collect
    let rec = try_resolve_game(&mut market, T0 + 930, &"player1".to_string(), &vec![0]).unwrap();
    assert_eq!(rec.prize_amount, 0);
    assert_eq!(rec.refund_amount, 0);
    assert_eq!(rec.net_prize, 0);
    assert_eq!(rec.collector_fee, 0);
    assert!(rec.transfers.is_empty());

    // claiming the same round twice is rejected
    let err = try_resolve_game(&mut market, T0 + 930, &"player1".to_string(), &vec![0])
        .unwrap_err();
    assert_eq!(err, ContractError::AlreadyResolved {});

    // player2's up stake takes the whole pool, net of the 5% fee
    let rec = try_resolve_game(&mut market, T0 + 930, &"player2".to_string(), &vec![0]).unwrap();
    assert_eq!(rec.prize_amount, 700_000_000);
    assert_eq!(rec.refund_amount, 0);
    assert_eq!(rec.net_prize, 665_000_000);
    assert_eq!(rec.collector_fee, 35_000_000);
    assert_eq!(
        rec.transfers,
        vec![
            TransferMsg { to_address: "player2".to_string(), amount: 665_000_000 },
            TransferMsg { to_address: "collector".to_string(), amount: 35_000_000 },
        ]
    );

    let game = query_game(&market, &"player2".to_string(), 0).unwrap();
    assert!(game.resolved);
    assert_eq!(game.prize, 700_000_000);

    // a fresh stake into round 2, never decided: refunded in full after expiry
    try_make_prediction(&mut market, &"player1".to_string(), &uusd(100_000_000), false).unwrap();
    let err = try_resolve_game(&mut market, T0 + 930, &"player1".to_string(), &vec![2])
        .unwrap_err();
    assert_eq!(err, ContractError::PredictionStillInProgress {});

    let rec = try_resolve_game(&mut market, T0 + 1230, &"player1".to_string(), &vec![2]).unwrap();
    assert_eq!(rec.prize_amount, 0);
    assert_eq!(rec.refund_amount, 100_000_000);
    assert_eq!(rec.net_prize, 0);
    assert_eq!(rec.collector_fee, 0);
    assert_eq!(
        rec.transfers,
        vec![TransferMsg { to_address: "player1".to_string(), amount: 100_000_000 }]
    );
}

#[test]
fn stake_validation_errors() {
    let mut market = instantiate(T0, base_msg());

    let err = try_make_prediction(
        &mut market,
        &"player1".to_string(),
        &vec![Coin { denom: "uluna".to_string(), amount: 5 }],
        true,
    )
    .unwrap_err();
    assert_eq!(err, ContractError::WrongDenom {});

    let err = try_make_prediction(
        &mut market,
        &"player1".to_string(),
        &vec![
            Coin { denom: "uusd".to_string(), amount: 5 },
            Coin { denom: "uusd".to_string(), amount: 7 },
        ],
        true,
    )
    .unwrap_err();
    assert_eq!(err, ContractError::MultipleDenoms {});

    // nothing was recorded
    assert_eq!(
        query_game(&market, &"player1".to_string(), 0).unwrap_err(),
        ContractError::NotFound {}
    );
    let p = query_prediction(&market, 0).unwrap();
    assert_eq!(p.up, 0);
    assert_eq!(p.down, 0);
}

#[test]
fn claim_unknown_round_or_wager() {
    let mut market = instantiate(T0, base_msg());

    // a round id that names no round
    let err = try_resolve_game(&mut market, T0 + 1000, &"player1".to_string(), &vec![7])
        .unwrap_err();
    assert_eq!(err, ContractError::NotFound {});

    // an expired round the player never entered
    let err = try_resolve_game(&mut market, T0 + 1000, &"player1".to_string(), &vec![0])
        .unwrap_err();
    assert_eq!(err, ContractError::NotFound {});
}

#[test]
fn duplicate_round_in_one_claim() {
    let mut market = instantiate(T0, base_msg());
    try_make_prediction(&mut market, &"player1".to_string(), &uusd(40), false).unwrap();

    // round 0 expires unresolved; the batch repeats it
    let err = try_resolve_game(&mut market, T0 + 1000, &"player1".to_string(), &vec![0, 0])
        .unwrap_err();
    assert_eq!(err, ContractError::AlreadyResolved {});

    // the rejected call left the wager unclaimed
    let game = query_game(&market, &"player1".to_string(), 0).unwrap();
    assert!(!game.resolved);

    // on its own the round refunds normally
    let rec = try_resolve_game(&mut market, T0 + 1000, &"player1".to_string(), &vec![0]).unwrap();
    assert_eq!(rec.refund_amount, 40);
}
