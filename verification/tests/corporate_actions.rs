use csv::StringRecord;

use investments::broker_statement::corporate_actions::{
    CorporateAction, CorporateActionType, StockSplitRatio,
};
use investments::broker_statement::ib::common::{check_volume, parse_symbol, Record, RecordSpec};
use investments::broker_statement::ib::corporate_actions::{
    describe, describe_by_generic, describe_by_liquidation, join_stock_splits, parse, parse_described, parse_header,
    CorporateActionsParser, Described, DescribedAction,
};
use investments::broker_statement::ib::StatementParser;
use investments::broker_statement::{BrokerStatement, InstrumentInfo};
use investments::decimal::Decimal;
use investments::error::{IntegerError, StatementError};
use investments::time::{Date, DateOptTime, Time};

fn dec(magnitude: u128, scale: u32) -> Decimal {
    Decimal { negative: false, magnitude, scale }
}

fn date(year: u16, month: u8, day: u8) -> Date {
    Date { year, month, day }
}

fn date_time(year: u16, month: u8, day: u8, hour: u8, minute: u8, second: u8) -> DateOptTime {
    DateOptTime { date: date(year, month, day), time: Some(Time { hour, minute, second }) }
}

fn spec() -> RecordSpec {
    let fields =
        "Asset Category,Currency,Report Date,Date/Time,Description,Quantity,Proceeds,Value,Realized P/L,Code"
            .split(',').map(|field| field.to_owned()).collect();
    RecordSpec::new("test".to_owned(), fields, 0)
}

fn test_parsing(record: &[&str], expected: CorporateAction) {
    let spec = spec();
    let record = StringRecord::from(record);
    let values = record.iter().map(|value| value.to_owned()).collect();
    let record = Record::new(&spec, &values);
    assert_eq!(parse(&record).unwrap(), expected);
}

#[test]
fn liquidation() {
    test_parsing(&[
        "Stocks", "USD", "2021-11-03", "2021-11-02, 20:25:00",
        "CHL(US16941M1099) Merged(Liquidation) FOR USD 30.20446 PER SHARE (CHL, CHINA MOBILE LTD-SPON ADR, US16941M1099)",
        "-10", "302.0446", "-275.1", "3.012343", "",
    ], CorporateAction {
        time: date_time(2021, 11, 2, 20, 25, 00),
        report_date: Some(date(2021, 11, 3)),

        symbol: "CHL".to_owned(),
        action: CorporateActionType::Liquidation {
            quantity: dec(10, 0),
            price: dec(3020446, 5),
            volume: dec(3020446, 4),
            currency: "USD".to_owned(),
        },
    });
}

#[test]
fn spinoff() {
    test_parsing(&[
        "Stocks", "USD", "2020-11-17", "2020-11-16, 20:25:00",
        "PFE(US7170811035) Spinoff  124079 for 1000000 (VTRS, VIATRIS INC-W/I, US92556V1061)",
        "9.3059", "0", "0", "0", "",
    ], CorporateAction {
        time: date_time(2020, 11, 16, 20, 25, 00),
        report_date: Some(date(2020, 11, 17)),

        symbol: "PFE".to_owned(),
        action: CorporateActionType::Spinoff {
            symbol: "VTRS".to_owned(),
            quantity: dec(93059, 4),
            currency: "USD".to_owned(),
        },
    });
}

#[test]
fn stock_dividend() {
    test_parsing(&[
        "Stocks", "USD", "2020-07-17", "2020-07-17, 20:20:00",
        "TEF (US8793822086) Stock Dividend US8793822086 416666667 for 10000000000 (TEF, TELEFONICA SA-SPON ADR, US8793822086)",
        "1", "0", "4.73", "0", "",
    ], CorporateAction {
        time: date_time(2020, 7, 17, 20, 20, 0),
        report_date: Some(date(2020, 7, 17)),

        symbol: "TEF".to_owned(),
        action: CorporateActionType::StockDividend {
            stock: Some("TEF".to_owned()),
            quantity: dec(1, 0),
        },
    });
}

fn test_stock_split(
    record: &[&str], symbol: &str, time: DateOptTime, report_date: Date, to: u32, from: u32,
    withdrawal: Option<Decimal>, deposit: Option<Decimal>,
) {
    test_parsing(record, CorporateAction {
        time,
        report_date: Some(report_date),

        symbol: symbol.to_owned(),
        action: CorporateActionType::StockSplit {
            ratio: StockSplitRatio::new(from, to),
            withdrawal, deposit,
        },
    });
}

#[test]
fn stock_split() {
    test_stock_split(&[
        "Stocks", "USD", "2020-08-31", "2020-08-28, 20:25:00",
        "AAPL(US0378331005) Split 4 for 1 (AAPL, APPLE INC, US0378331005)",
        "111", "0", "0", "0", "",
    ], "AAPL", date_time(2020, 8, 28, 20, 25, 00), date(2020, 8, 31), 4, 1, None, Some(dec(111, 0)));

    test_stock_split(&[
        "Stocks", "USD", "2021-01-21", "2021-01-20, 20:25:00",
        "SLG(US78440X1019) Split 100000 for 102918 (SLG.OLD, SL GREEN REALTY CORP, US78440X1019)",
        "-7", "0", "0", "0", "",
    ], "SLG", date_time(2021, 1, 20, 20, 25, 00), date(2021, 1, 21), 100000, 102918, Some(dec(7, 0)), None);

    test_stock_split(&[
        "Stocks", "USD", "2020-08-03", "2020-07-31, 20:25:00",
        "VISL(US92836Y2019) Split 1 for 6 (VISL, VISLINK TECHNOLOGIES INC, US92836Y2019)",
        "-80", "0", "0", "0", "",
    ], "VISL", date_time(2020, 7, 31, 20, 25, 00), date(2020, 8, 3), 1, 6, Some(dec(80, 0)), None);

    test_stock_split(&[
        "Stocks", "USD", "2020-08-03", "2020-07-31, 20:25:00",
        "VISL(US92836Y2019) Split 1 for 6 (VISL, VISLINK TECHNOLOGIES INC, US92836Y3009)",
        "13.3333", "0", "0", "0", "",
    ], "VISL", date_time(2020, 7, 31, 20, 25, 00), date(2020, 8, 3), 1, 6, None, Some(dec(133333, 4)));
}

fn test_subscribable_rights_issue(record: &[&str], symbol: &str, time: DateOptTime, report_date: Date) {
    test_parsing(record, CorporateAction {
        time,
        report_date: Some(report_date),

        symbol: symbol.to_owned(),
        action: CorporateActionType::SubscribableRightsIssue,
    });
}

#[test]
fn subscribable_rights_issue() {
    test_subscribable_rights_issue(&[
        "Stocks", "USD", "2021-06-18", "2021-06-16, 20:25:00",
        "BST(US09258G1040) Subscribable Rights Issue  1 for 1 (BST RT WI, BLACKROCK SCIENCE -RTS W/I, US09258G1123)",
        "6", "0", "0", "0", "",
    ], "BST", date_time(2021, 6, 16, 20, 25, 00), date(2021, 6, 18));

    test_subscribable_rights_issue(&[
        "Stocks", "HKD", "2021-08-12", "2021-08-11, 20:25:00",
        "698(KYG8917X1218) Subscribable Rights Issue  1 for 2 (2965, TONGDA GROUP HOLDINGS LTD - RIGHTS, KYG8917X1RTS)",
        "25000", "0", "0", "0",
    ], "698", date_time(2021, 8, 11, 20, 25, 00), date(2021, 8, 12));
}

fn values(record: &[&str]) -> Vec<String> {
    record.iter().map(|value| (*value).to_owned()).collect()
}

fn parse_values(record: &[&str]) -> Result<CorporateAction, StatementError> {
    let spec = spec();
    let values = values(record);
    parse(&Record::new(&spec, &values))
}

fn split_record<'a>(time: &'a str, description: &'a str, quantity: &'a str) -> Vec<&'a str> {
    vec!["Stocks", "USD", "2020-08-03", time, description, quantity, "0", "0", "0", ""]
}

const VISL: &str = "VISL(US92836Y2019) Split 1 for 6 (VISL, VISLINK TECHNOLOGIES INC, US92836Y2019)";
const AAPL: &str = "AAPL(US0378331005) Split 4 for 1 (AAPL, APPLE INC, US0378331005)";
const RIGHTS: &str = "BST(US09258G1040) Subscribable Rights Issue 1 for 1 (BST RT WI, BLACKROCK, US09258G1123)";
const LIQUIDATION: &str = "CHL(US16941M1099) Merged(Liquidation) FOR USD 30.20446 PER SHARE (CHL, CHINA MOBILE, US16941M1099)";

fn empty_statement() -> BrokerStatement {
    BrokerStatement {
        deposits_and_withdrawals: vec![],
        idle_cash_interest: vec![],
        dividends: vec![],
        cash_grants: vec![],
        cash_flows: vec![],
        forex_trades: vec![],
        stock_sells: vec![],
        stock_buys: vec![],
        fees: vec![],
        tax_agent_withholdings: vec![],
        corporate_actions: vec![],
        instrument_info: InstrumentInfo { names: vec![] },
    }
}

fn commit(records: &[Vec<&str>]) -> (Result<(), StatementError>, Vec<CorporateAction>) {
    let spec = spec();
    let mut statement_parser = StatementParser { statement: empty_statement() };
    let mut parser = CorporateActionsParser::new();
    for record in records {
        let values = values(record);
        parser.parse(&mut statement_parser, &Record::new(&spec, &values)).unwrap();
    }
    let result = parser.commit(&mut statement_parser);
    (result, statement_parser.statement.corporate_actions)
}

#[test]
fn totals_are_skipped() {
    assert!(CorporateActionsParser::new().skip_totals());
}

#[test]
fn simple_split_is_kept() {
    let time = "2020-07-31, 20:25:00";
    let (result, actions) = commit(&[split_record(time, AAPL, "111")]);
    assert_eq!(result, Ok(()));
    assert_eq!(actions, vec![parse_values(&split_record(time, AAPL, "111")).unwrap()]);
}

#[test]
fn complex_split_is_joined_in_either_order() {
    let time = "2020-07-31, 20:25:00";
    for (first, second) in [("-80", "13.3333"), ("13.3333", "-80")] {
        let (result, actions) = commit(&[
            split_record(time, VISL, first),
            split_record(time, RIGHTS, "6"),
            split_record(time, VISL, second),
        ]);
        assert_eq!(result, Ok(()));
        assert_eq!(actions.len(), 2);
        assert_eq!(actions[0].action, CorporateActionType::SubscribableRightsIssue);
        assert_eq!(actions[1], CorporateAction {
            time: date_time(2020, 7, 31, 20, 25, 0),
            report_date: Some(date(2020, 8, 3)),
            symbol: "VISL".to_owned(),
            action: CorporateActionType::StockSplit {
                ratio: StockSplitRatio::new(6, 1),
                withdrawal: Some(dec(80, 0)),
                deposit: Some(dec(133333, 4)),
            },
        });
    }
}

#[test]
fn splits_of_other_symbols_and_times_are_apart() {
    let (result, actions) = commit(&[
        split_record("2020-07-31, 20:25:00", VISL, "-80"),
        split_record("2020-07-31, 20:25:00", AAPL, "111"),
        split_record("2020-07-31, 20:26:00", AAPL, "111"),
    ]);
    assert_eq!(result, Ok(()));
    assert_eq!(actions.len(), 3);
    assert_eq!(actions[0].symbol, "VISL");
    assert_eq!(actions[1].time, date_time(2020, 7, 31, 20, 25, 0));
    assert_eq!(actions[2].time, date_time(2020, 7, 31, 20, 26, 0));
}

#[test]
fn splits_that_do_not_join_are_refused() {
    let time = "2020-07-31, 20:25:00";
    let failure = StatementError::UnsupportedStockSplit { symbol: "VISL".to_owned(), date: date(2020, 7, 31) };
    assert_eq!(failure.message(), "Unsupported stock split: VISL at 31.07.2020");

    let (result, actions) = commit(&[
        split_record(time, VISL, "-80"), split_record(time, RIGHTS, "6"), split_record(time, VISL, "-80"),
        split_record(time, AAPL, "111"),
    ]);
    assert_eq!(result, Err(failure));
    // What was finished before stays.
    assert_eq!(actions.len(), 1);

    let (result, actions) = commit(&[
        split_record(time, VISL, "-80"), split_record(time, VISL, "10"), split_record(time, VISL, "3.3333"),
    ]);
    assert!(result.is_err());
    assert!(actions.is_empty());
}

#[test]
fn one_record_joins_to_itself() {
    let action = parse_values(&split_record("2020-07-31, 20:25:00", VISL, "-80")).unwrap();
    let same = parse_values(&split_record("2020-07-31, 20:25:00", VISL, "-80")).unwrap();
    assert_eq!(join_stock_splits(vec![action]), Ok(same));
}

#[test]
fn splits_of_different_ratios_do_not_join() {
    let time = "2020-07-31, 20:25:00";
    let other = "VISL(US92836Y2019) Split 1 for 7 (VISL, VISLINK TECHNOLOGIES INC, US92836Y2019)";
    assert!(join_stock_splits(vec![
        parse_values(&split_record(time, VISL, "-80")).unwrap(),
        parse_values(&split_record(time, other, "13.3333")).unwrap(),
    ]).is_err());
}

#[test]
fn supplementary_records_are_left_out() {
    let spec = spec();
    let mut statement_parser = StatementParser { statement: empty_statement() };
    let mut parser = CorporateActionsParser::new();
    let lot = values(&["Stocks", "USD", "Closed Lot:", "2020-07-31", "", "10", "0", "0", "0", ""]);
    assert_eq!(parser.parse(&mut statement_parser, &Record::new(&spec, &lot)), Ok(()));
    let short = values(&["Stocks", "USD"]);
    assert_eq!(
        parser.parse(&mut statement_parser, &Record::new(&spec, &short)),
        Err(StatementError::MissingField("Report Date".to_owned())),
    );
    assert_eq!(parser.commit(&mut statement_parser), Ok(()));
    assert!(statement_parser.statement.corporate_actions.is_empty());
}

#[test]
fn offset_of_the_values_counts() {
    let spec = RecordSpec::new("test".to_owned(), vec!["A".to_owned(), "B".to_owned(), "A".to_owned()], 2);
    let values = values(&["Section", "Data", "1", "2", "3"]);
    let record = Record::new(&spec, &values);
    assert_eq!(record.get_value("A"), Ok("1"));
    assert_eq!(record.get_value("B"), Ok("2"));
    assert_eq!(record.get_value("C"), Err(StatementError::MissingField("C".to_owned())));
}

#[test]
fn unsupported_records() {
    let time = "2020-07-31, 20:25:00";
    let changed = |index: usize, value: &'static str| {
        let mut record = split_record(time, AAPL, "111");
        record[index] = value;
        parse_values(&record).unwrap_err()
    };

    let error = changed(0, "Bonds");
    assert_eq!(error, StatementError::UnsupportedAssetCategory("Bonds".to_owned()));
    assert_eq!(error.message(), "Unsupported asset category of corporate action: \"Bonds\"");

    assert_eq!(changed(2, "2020-02-30"), StatementError::InvalidDate("2020-02-30".to_owned()));
    assert_eq!(changed(2, "2020-2-3"), StatementError::InvalidDate("2020-2-3".to_owned()));
    assert_eq!(changed(3, "2020-08-28 20:25:00"), StatementError::InvalidDateTime("2020-08-28 20:25:00".to_owned()));
    assert_eq!(changed(3, "2020-08-28, 24:00:00"), StatementError::InvalidDateTime("2020-08-28, 24:00:00".to_owned()));

    let error = changed(4, "AAPL  \"Merger\"");
    assert_eq!(error, StatementError::UnsupportedCorporateAction("AAPL \"Merger\"".to_owned()));
    assert_eq!(error.message(), "Unsupported corporate action: \"AAPL \\\"Merger\\\"\"");

    assert_eq!(changed(5, "0"), StatementError::ForbiddenDecimal("0".to_owned()));
    assert_eq!(changed(5, "1.2.3"), StatementError::InvalidDecimal("1.2.3".to_owned()));
    assert_eq!(changed(5, ""), StatementError::InvalidDecimal("".to_owned()));

    let renamed = "AAPL(US0378331005) Split 4 for 1 (APL, APPLE INC, US0378331005)";
    assert_eq!(changed(4, renamed), StatementError::UnsupportedCorporateAction(renamed.to_owned()));

    let large = "AAPL(US0378331005) Split 4294967296 for 1 (AAPL, APPLE INC, US0378331005)";
    let error = changed(4, large);
    assert_eq!(error, StatementError::InvalidInteger(IntegerError::TooLarge));
    assert_eq!(error.message(), "number too large to fit in target type");
}

#[test]
fn unsupported_liquidations() {
    let record = |currency, quantity, proceeds| {
        parse_values(&[
            "Stocks", currency, "2021-11-03", "2021-11-02, 20:25:00", LIQUIDATION, quantity, proceeds, "0", "0", "",
        ])
    };
    assert!(record("USD", "-10", "302.0446").is_ok());
    assert!(record("USD", "-1,000", "30,204.46").is_ok());
    assert!(record("USD", "-10", "302.04").is_ok());

    let error = record("EUR", "-10", "302.0446").unwrap_err();
    assert_eq!(error.message(), "Price and volume currency mismatch: USD vs EUR");

    let error = record("USD", "-10", "302.05").unwrap_err();
    assert_eq!(error, StatementError::UnexpectedVolume {
        quantity: dec(10, 0), price: dec(3020446, 5), volume: dec(30205, 2),
    });
    assert_eq!(error.message(), "Unexpected volume: 302.05 for 10 at 30.20446");

    assert_eq!(record("USD", "10", "302.0446"), Err(StatementError::ForbiddenDecimal("10".to_owned())));
    assert_eq!(record("USD", "-10", "-302.0446"), Err(StatementError::ForbiddenDecimal("-302.0446".to_owned())));
}

#[test]
fn share_classes() {
    assert_eq!(parse_symbol("RDS B"), Ok("RDS-B".to_owned()));
    assert_eq!(parse_symbol("U.UN"), Ok("U-UN".to_owned()));
    assert_eq!(parse_symbol("1086"), Ok("1086".to_owned()));
    for symbol in ["", "rds", "RDS ", "RDS B C", ".B", "RDS-B"] {
        assert_eq!(parse_symbol(symbol), Err(StatementError::UnsupportedSymbol(symbol.to_owned())));
    }
    let action = parse_values(&split_record(
        "2020-07-31, 20:25:00", "RDS B(US0378331005) Split 4 for 1 (RDS B, SHELL, US0378331005)", "111",
    )).unwrap();
    assert_eq!(action.symbol, "RDS-B");
}

#[test]
fn descriptions_say_what_they_say() {
    let group = |text: &str| Some(text.to_owned());
    assert_eq!(
        describe_by_generic(vec![group("A"), group("Split"), group("4"), group("1"), group("B")]),
        Some(Described {
            symbol: "A".to_owned(),
            other_symbol: "B".to_owned(),
            action: DescribedAction::Split { from: "1".to_owned(), to: "4".to_owned() },
        }),
    );
    assert_eq!(describe_by_generic(vec![group("A"), group("Merger"), group("4"), group("1"), group("B")]), None);
    assert_eq!(describe_by_generic(vec![group("A"), group("Split"), None, group("1"), group("B")]), None);
    assert_eq!(
        describe_by_liquidation(vec![
            group("A"), group("Merged(Liquidation)"), group("USD"), group("1.5"), group("A"),
        ]),
        Some(Described {
            symbol: "A".to_owned(),
            other_symbol: "A".to_owned(),
            action: DescribedAction::Liquidation { currency: "USD".to_owned(), price: "1.5".to_owned() },
        }),
    );
    assert_eq!(
        describe_by_liquidation(vec![group("A"), group("Split"), group("USD"), group("1.5"), group("A")]),
        None,
    );
}

#[test]
fn described_records_are_read_without_their_description() {
    let spec = spec();
    let values = values(&split_record("2020-07-31, 20:25:00", "?", "9.5"));
    let record = Record::new(&spec, &values);
    let header = parse_header(&record).unwrap();
    assert_eq!(header.description, "?");
    assert_eq!(
        parse_described(&record, &header, None),
        Err(StatementError::UnsupportedCorporateAction("?".to_owned())),
    );
    let said = Described {
        symbol: "PFE".to_owned(),
        other_symbol: "VTRS".to_owned(),
        action: DescribedAction::Spinoff,
    };
    assert_eq!(parse_described(&record, &header, Some(said)).unwrap().action, CorporateActionType::Spinoff {
        symbol: "VTRS".to_owned(), quantity: dec(95, 1), currency: "USD".to_owned(),
    });
}

#[test]
fn volumes() {
    let check = |quantity, price, volume| check_volume(quantity, price, volume).is_ok();
    assert!(check(dec(3, 0), dec(15, 1), dec(45, 1)));
    assert!(check(dec(3, 0), dec(15, 1), dec(450, 2)));
    assert!(check(dec(3, 0), dec(15, 1), dec(4, 0)));
    assert!(check(dec(3, 0), dec(15, 1), dec(5, 0)));
    assert!(!check(dec(3, 0), dec(15, 1), dec(6, 0)));
    assert!(!check(dec(3, 0), dec(15, 1), dec(451, 2)));
    assert!(!check(dec(3, 0), dec(15, 1), dec(45, 1).negate()));
    assert!(check(dec(3, 0).negate(), dec(15, 1), dec(45, 1).negate()));
    assert!(check(dec(1, 50), dec(1, 0), dec(0, 0)));
    assert!(!check(dec(1, 50), dec(1, 0), dec(1, 0)));
    assert!(check(dec(0, 0), dec(1, 0), dec(0, 60)));
    assert!(!check(dec(u128::MAX, 0), dec(2, 0), dec(u128::MAX, 0)));
}

#[test]
fn old_symbols_end_with_a_point() {
    let described = |symbol: &str| {
        describe(&format!("SLG(US78440X1019) Split 1 for 2 ({}, SL GREEN REALTY CORP, US78440X1019)", symbol)).unwrap()
    };
    assert_eq!(described("SLG.OLD").unwrap().other_symbol, "SLG");
    assert_eq!(described("SLG.A").unwrap().other_symbol, "SLG.A");
    assert_eq!(described("SLG-OLD"), None);
    assert_eq!(described("SLG RT WI").unwrap().other_symbol, "SLG");
}

#[test]
fn spinoffs_and_liquidations_are_told_apart() {
    assert_eq!(describe(LIQUIDATION).unwrap().unwrap().action, DescribedAction::Liquidation {
        currency: "USD".to_owned(), price: "30.20446".to_owned(),
    });
    assert_eq!(
        describe("PFE(US7170811035) Spinoff 124079 for 1000000 (VTRS, VIATRIS INC-W/I, US92556V1061)"),
        Ok(Some(Described {
            symbol: "PFE".to_owned(), other_symbol: "VTRS".to_owned(), action: DescribedAction::Spinoff,
        })),
    );
    // Counts have no leading zeros, currencies have three letters.
    assert_eq!(describe("PFE(US7170811035) Spinoff 04 for 1 (VTRS, VIATRIS INC, US92556V1061)"), Ok(None));
    assert_eq!(describe(&LIQUIDATION.replace("USD", "USDT")), Ok(None));
    assert_eq!(describe(&format!("{} ", LIQUIDATION)), Ok(None));
}

#[test]
fn commit_stops_where_a_split_ends_that_does_not_join() {
    let time = "2020-07-31, 20:25:00";
    let later = "2020-07-31, 20:26:00";
    let (result, actions) = commit(&[
        split_record(time, AAPL, "111"),
        split_record(time, VISL, "-80"),
        split_record(time, VISL, "-80"),
        split_record(time, RIGHTS, "6"),
        split_record(later, AAPL, "111"),
        split_record(time, RIGHTS, "6"),
    ]);
    assert_eq!(
        result,
        Err(StatementError::UnsupportedStockSplit { symbol: "VISL".to_owned(), date: date(2020, 7, 31) }),
    );
    assert_eq!(actions.len(), 2);
    assert_eq!(actions[0].symbol, "AAPL");
    assert_eq!(actions[1].action, CorporateActionType::SubscribableRightsIssue);
}
