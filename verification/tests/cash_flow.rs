use std::cmp::Ordering;

use investments::broker_statement::{
    BrokerStatement, CashFlow as CashFlowDetails, CashFlowType, CashGrant, Dividend, Fee, ForexTrade,
    IdleCashInterest, InstrumentInfo, InstrumentName, StockBuy, StockSell, StockSellType, StockSource,
    TaxAgentWithholding, Withholding,
};
use investments::cash_flow::mapper::{map_broker_statement_to_cash_flow, CashFlow, Operation};
use investments::cash_flow::order::{cash_flow_comparator, sort_cash_flows};
use investments::currency::{Cash, CashAssets};
use investments::decimal::Decimal;
use investments::formatting::format_date;
use investments::time::{Date, DateOptTime, Time};

fn dec(magnitude: u128, scale: u32) -> Decimal {
    Decimal { negative: false, magnitude, scale }
}

fn usd(magnitude: u128) -> Cash {
    Cash::new("USD", dec(magnitude, 0))
}

fn day(day: u8) -> Date {
    Date { year: 2021, month: 6, day }
}

fn at(date: u8, hour: u8) -> DateOptTime {
    DateOptTime { date: day(date), time: Some(Time { hour, minute: 0, second: 0 }) }
}

fn on(date: u8) -> DateOptTime {
    DateOptTime { date: day(date), time: None }
}

fn flow(time: DateOptTime, operation: Operation, amount: Cash, description: &str) -> CashFlow {
    CashFlow { time, operation, amount, sibling_amount: None, description: description.to_owned() }
}

fn statement() -> BrokerStatement {
    BrokerStatement {
        deposits_and_withdrawals: vec![],
        idle_cash_interest: vec![],
        dividends: vec![],
        cash_grants: vec![],
        cash_flows: vec![],
        forex_trades: vec![],
        stock_sells: vec![],
        stock_buys: vec![],
        fees: vec![],
        tax_agent_withholdings: vec![],
        corporate_actions: vec![],
        instrument_info: InstrumentInfo {
            names: vec![InstrumentName { symbol: "AAPL".to_owned(), name: "Apple (AAPL)".to_owned() }],
        },
    }
}

#[test]
fn empty_statement_has_no_cash_flow() {
    assert!(map_broker_statement_to_cash_flow(&statement()).is_empty());
}

#[test]
fn deposits_and_withdrawals() {
    let mut statement = statement();
    statement.deposits_and_withdrawals = vec![
        CashAssets { date: day(2), cash: usd(100).negate() },
        CashAssets { date: day(1), cash: usd(500) },
        CashAssets { date: day(3), cash: usd(0) },
    ];
    assert_eq!(map_broker_statement_to_cash_flow(&statement), vec![
        flow(on(1), Operation::Deposit, usd(500), "Ввод денежных средств"),
        flow(on(2), Operation::Withdrawal, usd(100).negate(), "Вывод денежных средств"),
        flow(on(3), Operation::Withdrawal, usd(0), "Вывод денежных средств"),
    ]);
}

#[test]
fn interest_grants_and_fees() {
    let mut statement = statement();
    statement.idle_cash_interest = vec![IdleCashInterest { date: day(1), amount: usd(1) }];
    statement.cash_grants = vec![CashGrant { date: day(2), amount: usd(2), description: "Бонус".to_owned() }];
    statement.fees = vec![
        Fee { date: day(3), amount: Withholding::Withholding(usd(3)), description: "Комиссия".to_owned() },
        Fee { date: day(4), amount: Withholding::Refund(usd(4)), description: "Возврат".to_owned() },
    ];
    assert_eq!(map_broker_statement_to_cash_flow(&statement), vec![
        flow(on(1), Operation::Interest, usd(1), "Проценты на остаток по счету"),
        flow(on(2), Operation::Grant, usd(2), "Бонус"),
        flow(on(3), Operation::Fee, usd(3).negate(), "Комиссия"),
        flow(on(4), Operation::Fee, usd(4), "Возврат"),
    ]);
}

#[test]
fn forex_trades() {
    let rub = Cash::new("RUB", dec(700050, 2));
    let mut statement = statement();
    statement.forex_trades = vec![
        ForexTrade { from: usd(100), to: rub, commission: usd(2), conclusion_time: at(1, 12) },
        ForexTrade { from: usd(100), to: rub, commission: usd(0), conclusion_time: at(1, 11) },
    ];
    let exchange = |time| CashFlow {
        sibling_amount: Some(rub),
        ..flow(time, Operation::ForexTrade, usd(100).negate(), "Конвертация 100 USD -> 7000.50 RUB")
    };
    assert_eq!(map_broker_statement_to_cash_flow(&statement), vec![
        exchange(at(1, 11)),
        exchange(at(1, 12)),
        flow(at(1, 12), Operation::Commission, usd(2).negate(), "Комиссия за конвертацию 100 USD -> 7000.50 RUB"),
    ]);
}

#[test]
fn stock_trades() {
    let mut statement = statement();
    let buy = |type_| StockBuy {
        type_, original_symbol: "AAPL".to_owned(), quantity: dec(25, 1), conclusion_time: at(1, 12),
    };
    let sell = |volume, symbol: &str| StockSell {
        type_: StockSellType::Trade { price: usd(10), volume, commission: usd(1) },
        original_symbol: symbol.to_owned(), quantity: dec(10, 0), conclusion_time: at(1, 12),
    };
    statement.stock_buys = vec![
        buy(StockSource::Trade { price: usd(10), volume: usd(25), commission: usd(1) }),
        buy(StockSource::Grant),
        buy(StockSource::CorporateAction),
    ];
    statement.stock_sells = vec![
        sell(usd(100), "VTI"),
        sell(usd(0), "AAPL"),
        StockSell { type_: StockSellType::CorporateAction, ..sell(usd(0), "AAPL") },
    ];
    assert_eq!(map_broker_statement_to_cash_flow(&statement), vec![
        flow(at(1, 12), Operation::SellTrade, usd(100), "Продажа 10 VTI"),
        flow(at(1, 12), Operation::Commission, usd(1).negate(), "Комиссия за продажу 10 VTI"),
        flow(at(1, 12), Operation::Commission, usd(1).negate(), "Комиссия за продажу 10 Apple (AAPL)"),
        flow(at(1, 12), Operation::BuyTrade, usd(25).negate(), "Покупка 2.5 Apple (AAPL)"),
        flow(at(1, 12), Operation::Commission, usd(1).negate(), "Комиссия за покупку 2.5 Apple (AAPL)"),
    ]);
}

#[test]
fn dividends() {
    let mut statement = statement();
    let dividend = |amount, paid_tax, skip_from_cash_flow| Dividend {
        date: day(1), original_issuer: "AAPL".to_owned(), amount, paid_tax, skip_from_cash_flow,
    };
    statement.dividends = vec![
        dividend(usd(10), usd(1), false),
        dividend(usd(10).negate(), usd(1).negate(), false),
        dividend(usd(5), usd(0), false),
        dividend(usd(7), usd(1), true),
    ];
    assert_eq!(map_broker_statement_to_cash_flow(&statement), vec![
        flow(on(1), Operation::Dividend, usd(10), "Дивиденд от Apple (AAPL)"),
        flow(on(1), Operation::Dividend, usd(1).negate(), "Налог, удержанный с дивиденда от Apple (AAPL)"),
        flow(on(1), Operation::Dividend, usd(10).negate(), "Возврат дивиденда от Apple (AAPL)"),
        flow(on(1), Operation::Dividend, usd(1), "Возврат налога, удержанного с дивиденда от Apple (AAPL)"),
        flow(on(1), Operation::Dividend, usd(5), "Дивиденд от Apple (AAPL)"),
    ]);
}

#[test]
fn listed_payments() {
    let mut statement = statement();
    statement.cash_flows = vec![
        CashFlowDetails::new(at(3, 10), usd(10), CashFlowType::Dividend {
            date: day(3), issuer: "AAPL".to_owned(),
        }),
        CashFlowDetails::new(at(4, 10), usd(10), CashFlowType::Dividend {
            date: day(3), issuer: "VTI".to_owned(),
        }),
        CashFlowDetails::new(at(5, 10), usd(1).negate(), CashFlowType::Tax {
            date: day(3), issuer: "VTI".to_owned(),
        }),
        CashFlowDetails::new(at(6, 10), usd(8), CashFlowType::Repo {
            symbol: "AAPL".to_owned(), commission: usd(2),
        }),
        CashFlowDetails::new(at(7, 10), usd(8), CashFlowType::Repo {
            symbol: "AAPL".to_owned(), commission: usd(0),
        }),
    ];
    assert_eq!(map_broker_statement_to_cash_flow(&statement), vec![
        flow(at(3, 10), Operation::Dividend, usd(10), "Дивиденд от Apple (AAPL)"),
        flow(at(4, 10), Operation::Dividend, usd(10), "Дивиденд от VTI от 03.06.2021"),
        flow(at(5, 10), Operation::Dividend, usd(1).negate(), "Налог, удержанный с дивиденда от VTI от 03.06.2021"),
        flow(at(6, 10), Operation::RepoDeal, usd(8), "Сделка РЕПО с Apple (AAPL)"),
        flow(at(6, 10), Operation::Commission, usd(2).negate(), "Комиссия за заключение сделки РЕПО с Apple (AAPL)"),
        flow(at(7, 10), Operation::RepoDeal, usd(8), "Сделка РЕПО с Apple (AAPL)"),
    ]);
}

#[test]
fn withheld_taxes() {
    let mut statement = statement();
    statement.tax_agent_withholdings = vec![
        TaxAgentWithholding { date: day(1), year: 2020, amount: Withholding::Withholding(usd(13)) },
        TaxAgentWithholding { date: day(2), year: -5, amount: Withholding::Refund(usd(3)) },
    ];
    assert_eq!(map_broker_statement_to_cash_flow(&statement), vec![
        flow(on(1), Operation::Tax, usd(13).negate(), "Удержание налога за 2020 год"),
        flow(on(2), Operation::Tax, usd(3), "Возврат налога за -5 год"),
    ]);
}

#[test]
fn comparator() {
    let flow = |time, operation| flow(time, operation, usd(1), "");
    let compare = |a: &CashFlow, b: &CashFlow, expected: Ordering| {
        assert_eq!(cash_flow_comparator(a, b), expected);
        assert_eq!(cash_flow_comparator(b, a), expected.reverse());
    };
    // The date goes first, the time next.
    compare(&flow(on(1), Operation::Withdrawal), &flow(at(2, 0), Operation::Deposit), Ordering::Less);
    compare(&flow(at(1, 9), Operation::Withdrawal), &flow(at(1, 10), Operation::Deposit), Ordering::Less);
    // Where a time is unknown, the operation decides.
    compare(&flow(on(1), Operation::Withdrawal), &flow(at(1, 10), Operation::Deposit), Ordering::Greater);
    compare(&flow(at(1, 10), Operation::Fee), &flow(at(1, 10), Operation::Tax), Ordering::Less);
    compare(&flow(at(1, 10), Operation::Fee), &flow(on(1), Operation::Fee), Ordering::Equal);
    // Trades and commissions of one moment stay as they are.
    for operation in [Operation::ForexTrade, Operation::SellTrade, Operation::BuyTrade, Operation::RepoDeal] {
        assert!(operation.is_trade());
        compare(&flow(at(1, 10), operation), &flow(at(1, 10), Operation::Commission), Ordering::Equal);
        compare(&flow(at(1, 11), operation), &flow(at(1, 10), Operation::Commission), Ordering::Greater);
    }
    assert!(!Operation::Commission.is_trade());
    compare(&flow(on(1), Operation::Commission), &flow(on(1), Operation::Grant), Ordering::Greater);
    compare(&flow(on(1), Operation::Commission), &flow(on(1), Operation::Commission), Ordering::Equal);
}

#[test]
fn operations_are_ordered_as_they_are_listed() {
    let operations = [
        Operation::Deposit, Operation::Interest, Operation::Dividend, Operation::Grant, Operation::ForexTrade,
        Operation::SellTrade, Operation::BuyTrade, Operation::RepoDeal, Operation::Commission, Operation::Fee,
        Operation::Tax, Operation::Withdrawal,
    ];
    for (i, a) in operations.iter().enumerate() {
        for (j, b) in operations.iter().enumerate() {
            assert_eq!(a.cmp(b), i.cmp(&j));
            let commission = *a == Operation::Commission && b.is_trade() || *b == Operation::Commission && a.is_trade();
            let expected = if commission { Ordering::Equal } else { i.cmp(&j) };
            assert_eq!(cash_flow_comparator(&flow(on(1), *a, usd(1), ""), &flow(on(1), *b, usd(1), "")), expected);
        }
    }
}

#[test]
fn sorting_is_stable() {
    let names = |flows: &[CashFlow]| flows.iter().map(|flow| flow.description.clone()).collect::<Vec<_>>();
    let mut flows = vec![
        flow(at(2, 10), Operation::Fee, usd(1), "a"),
        flow(at(1, 12), Operation::BuyTrade, usd(1), "b"),
        flow(at(1, 12), Operation::Commission, usd(1), "c"),
        flow(at(1, 12), Operation::Fee, usd(1), "d"),
        flow(at(1, 12), Operation::Fee, usd(1), "e"),
        flow(at(1, 11), Operation::Tax, usd(1), "f"),
        flow(at(1, 12), Operation::Deposit, usd(1), "g"),
    ];
    flows = sort_cash_flows(flows);
    assert_eq!(names(&flows), ["f", "g", "b", "c", "d", "e", "a"]);
}

#[test]
fn dates_never_go_back_in_a_circular_order() {
    // Each of the first three stands before the next one, and the third before the first.
    let flows = sort_cash_flows(vec![
        flow(at(1, 10), Operation::Deposit, usd(1), ""),
        flow(on(1), Operation::Interest, usd(1), ""),
        flow(at(1, 9), Operation::Dividend, usd(1), ""),
        flow(on(2), Operation::Deposit, usd(1), ""),
        flow(on(1), Operation::Tax, usd(1), ""),
    ]);
    assert_eq!(flows.len(), 5);
    for pair in flows.windows(2) {
        assert_ne!(cash_flow_comparator(&pair[0], &pair[1]), Ordering::Greater);
    }
    assert_eq!(flows[4].time, on(2));
}

#[test]
fn dates_are_written_with_leading_zeros() {
    assert_eq!(format_date(Date { year: 2021, month: 6, day: 5 }), "05.06.2021");
    assert_eq!(format_date(Date { year: 987, month: 12, day: 31 }), "31.12.0987");
}

#[test]
fn commission_stands_behind_its_trade() {
    // A repurchase deal without commission comes between an exchange and its commission.
    let flows = sort_cash_flows(vec![
        flow(at(1, 12), Operation::RepoDeal, usd(1), "repo"),
        flow(at(1, 12), Operation::ForexTrade, usd(1), "exchange"),
        flow(at(1, 12), Operation::Commission, usd(1), "commission"),
        flow(at(1, 12), Operation::Deposit, usd(1), "deposit"),
    ]);
    let names: Vec<&str> = flows.iter().map(|flow| flow.description.as_str()).collect();
    assert_eq!(names, ["deposit", "exchange", "repo", "commission"]);
}
