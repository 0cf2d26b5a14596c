use space_wager::{
    fetch_price, instant_price, median_feed_price, twap_price, ContractError,
    OraclePriceFeedResponse, MID_RANK,
};

fn report(timestamp: u64, price: u128) -> OraclePriceFeedResponse {
    OraclePriceFeedResponse { timestamp, price, worker: "worker".to_string() }
}

#[test]
fn instant_ratio_price() {
    // scale * quote / base, floored
    assert_eq!(
        instant_price(1_000_000, 15_250_000_000, 555_000_000).unwrap(),
        27_477_477
    );
    assert_eq!(
        instant_price(1_000_000, 1_250_000_000, 955_000_000).unwrap(),
        1_308_900
    );
    // an empty pool never yields a price
    assert_eq!(
        instant_price(1_000_000, 15_250_000_000, 0).unwrap_err(),
        ContractError::PriceUnavailable {}
    );
    // an overflowing ratio is refused, not truncated
    assert_eq!(
        instant_price(u128::MAX, u128::MAX, 1).unwrap_err(),
        ContractError::PriceUnavailable {}
    );
}

#[test]
fn twap_price_from_snapshots() {
    // (s2 - s1) / (t2 - t1)
    assert_eq!(twap_price(1_000, 100, 4_000, 400).unwrap(), 10);
    assert_eq!(twap_price(0, 0, 7, 2).unwrap(), 3);
    // a decreasing cumulative counter marks the data unusable
    assert_eq!(
        twap_price(4_000, 100, 1_000, 400).unwrap_err(),
        ContractError::PriceUnavailable {}
    );
    // a degenerate interval does too
    assert_eq!(
        twap_price(1_000, 400, 4_000, 400).unwrap_err(),
        ContractError::PriceUnavailable {}
    );
}

#[test]
fn median_of_feed() {
    // seven usable reports: the rank-5 price of the ascending order
    let list = vec![
        report(10, 70),
        report(11, 10),
        report(12, 50),
        report(13, 30),
        report(14, 60),
        report(15, 20),
        report(16, 40),
    ];
    // ascending prices: 10 20 30 40 50 60 70 -> index 5 is 60
    assert_eq!(median_feed_price(&list, 100).unwrap(), 60);
}

#[test]
fn median_discards_future_reports() {
    let mut list = vec![
        report(10, 70),
        report(11, 10),
        report(12, 50),
        report(13, 30),
        report(14, 60),
        report(15, 20),
        report(16, 40),
    ];
    // a report from the future is not part of the window
    list.push(report(1_000, 1));
    assert_eq!(median_feed_price(&list, 100).unwrap(), 60);

    // dropping usable reports below the rank margin loses the price
    let short = vec![
        report(10, 70),
        report(11, 10),
        report(12, 50),
        report(13, 30),
        report(14, 60),
        report(15, 20),
    ];
    assert_eq!(
        median_feed_price(&short, 100).unwrap_err(),
        ContractError::PriceUnavailable {}
    );
}

#[test]
fn fetch_price_dispatches_by_strategy() {
    assert_eq!(MID_RANK, 5);
    let feed = space_wager::OracleInput::Feed {
        list: vec![
            report(1, 1),
            report(2, 2),
            report(3, 3),
            report(4, 4),
            report(5, 5),
            report(6, 6),
            report(7, 7),
        ],
    };
    assert_eq!(fetch_price(&feed, 50).unwrap(), 6);

    let instant = space_wager::OracleInput::Instant {
        scale: 1_000_000,
        quote_reserve: 10_250_000_000,
        base_reserve: 955_000_000,
    };
    assert_eq!(fetch_price(&instant, 50).unwrap(), 10_732_984);

    let twap = space_wager::OracleInput::Twap { s1: 100, t1: 0, s2: 400, t2: 100 };
    assert_eq!(fetch_price(&twap, 50).unwrap(), 3);
}
