use space_wager::{
    execute, instantiate, query, Coin, ContractError, ExecuteAnswer, ExecuteMsg, InstantiateMsg,
    OracleInput, QueryAnswer, QueryMsg,
};

const T0: u64 = 5_000;

fn setup() -> space_wager::Market {
    instantiate(
        T0,
        InstantiateMsg {
            pool_address: "oracle".to_string(),
            collector_address: "collector".to_string(),
            round_time: 300,
            limit_time: 30,
            denom: "uusd".to_string(),
            collector_ratio: 0,
        },
    )
}

#[test]
fn execute_dispatches_commands() {
    let mut market = setup();
    let sender = "player".to_string();
    let funds = vec![Coin { denom: "uusd".to_string(), amount: 1_000 }];
    let oracle = OracleInput::Twap { s1: 0, t1: 0, s2: 900, t2: 100 };

    let answer = execute(
        &mut market,
        T0,
        &sender,
        &funds,
        &oracle,
        ExecuteMsg::MakePrediction { up: true },
    )
    .unwrap();
    match answer {
        ExecuteAnswer::Prediction(rec) => {
            assert!(rec.entered_up);
            assert_eq!(rec.committed, 1_000);
            assert_eq!(rec.prediction_id, 0);
        }
        _ => panic!("wrong answer shape"),
    }

    let answer = execute(
        &mut market,
        T0 + 300,
        &sender,
        &vec![],
        &oracle,
        ExecuteMsg::ResolvePrediction {},
    )
    .unwrap();
    match answer {
        ExecuteAnswer::Settle(rec) => {
            assert_eq!(rec.round, 1);
            assert!(rec.settled.is_none());
        }
        _ => panic!("wrong answer shape"),
    }

    // round 0 voids (one-sided pool); the claim refunds through the dispatcher
    let err = execute(
        &mut market,
        T0 + 300,
        &sender,
        &vec![],
        &oracle,
        ExecuteMsg::ResolveGame { address: sender.clone(), round: vec![0] },
    )
    .unwrap_err();
    assert_eq!(err, ContractError::PredictionStillInProgress {});

    let answer = execute(
        &mut market,
        T0 + 630,
        &sender,
        &vec![],
        &oracle,
        ExecuteMsg::ResolveGame { address: sender.clone(), round: vec![0] },
    )
    .unwrap();
    match answer {
        ExecuteAnswer::Game(rec) => {
            assert_eq!(rec.refund_amount, 1_000);
            assert_eq!(rec.collector_fee, 0);
        }
        _ => panic!("wrong answer shape"),
    }
}

#[test]
fn query_dispatches_messages() {
    let mut market = setup();
    let sender = "player".to_string();
    let funds = vec![Coin { denom: "uusd".to_string(), amount: 250 }];
    let oracle = OracleInput::Twap { s1: 0, t1: 0, s2: 900, t2: 100 };
    execute(&mut market, T0, &sender, &funds, &oracle, ExecuteMsg::MakePrediction { up: false })
        .unwrap();

    match query(&market, QueryMsg::State {}).unwrap() {
        QueryAnswer::State(st) => assert_eq!(st.round, 0),
        _ => panic!("wrong answer shape"),
    }
    match query(&market, QueryMsg::Config {}).unwrap() {
        QueryAnswer::Config(c) => {
            assert_eq!(c.pool_address, "oracle");
            assert_eq!(c.round_time, 300);
            assert_eq!(c.limit_time, 30);
            assert_eq!(c.denom, "uusd");
        }
        _ => panic!("wrong answer shape"),
    }
    match query(&market, QueryMsg::Game { address: sender.clone(), round: 0 }).unwrap() {
        QueryAnswer::Game(g) => assert_eq!(g.down, 250),
        _ => panic!("wrong answer shape"),
    }
    match query(&market, QueryMsg::Prediction { round: 0 }).unwrap() {
        QueryAnswer::Prediction(p) => {
            assert_eq!(p.down, 250);
            assert_eq!(p.closing_time, T0 + 300);
        }
        _ => panic!("wrong answer shape"),
    }
    assert_eq!(
        query(&market, QueryMsg::Prediction { round: 9 }).unwrap_err(),
        ContractError::NotFound {}
    );
    match query(&market, QueryMsg::Predictions { start_after: None, limit: None }).unwrap() {
        QueryAnswer::Predictions(v) => assert_eq!(v.len(), 1),
        _ => panic!("wrong answer shape"),
    }
    match query(
        &market,
        QueryMsg::Games { address: sender.clone(), start_after: None, limit: None },
    )
    .unwrap()
    {
        QueryAnswer::Games(v) => {
            assert_eq!(v.len(), 1);
            assert_eq!(v[0].0, 0);
            assert_eq!(v[0].1.down, 250);
        }
        _ => panic!("wrong answer shape"),
    }
}

#[test]
fn zero_amount_stake_is_recorded() {
    let mut market = setup();
    let funds = vec![Coin { denom: "uusd".to_string(), amount: 0 }];
    let rec = space_wager::try_make_prediction(&mut market, &"p".to_string(), &funds, true)
        .unwrap();
    assert_eq!(rec.committed, 0);
    let game = space_wager::query_game(&market, &"p".to_string(), 0).unwrap();
    assert_eq!(game.up, 0);
    assert_eq!(game.down, 0);
}
