//! What the entries of a statement do to the money of an account.

use vstd::arithmetic::power;
use vstd::prelude::*;

use crate::broker_statement::{
    CashFlow, CashFlowType, CashGrant, Dividend, Fee, ForexTrade, IdleCashInterest, InstrumentName,
    StockBuy, StockSell, StockSellType, StockSource, TaxAgentWithholding, Withholding,
};
use crate::broker_statement;
use crate::cash_flow::mapper::{self, CashFlowModel};
use crate::currency::{Cash, CashAssets};
use crate::decimal::Decimal;
use crate::decimal_laws;
use crate::formatting;
use crate::text;
use crate::time::{Date, DateOptTime};

verus! {

/// Whether two amounts of money add up to zero: they are in one currency, and brought to the same
/// decimal places each is the other one with the other sign.
pub open spec fn cancel_out(a: Cash, b: Cash) -> bool {
    &&& a.currency == b.currency
    &&& decimal_laws::units(a.amount) * power::pow(10, b.amount.scale as nat)
        == -decimal_laws::units(b.amount) * power::pow(10, a.amount.scale as nat)
}

/// The amount with the other sign, to the same decimal places.
pub open spec fn reversed(cash: Cash) -> Cash {
    Cash {
        currency: cash.currency,
        amount: Decimal {
            negative: !cash.amount.negative,
            magnitude: cash.amount.magnitude,
            scale: cash.amount.scale,
        },
    }
}

/// An amount and its reverse add up to zero, and no other amount with the same decimal places does.
pub proof fn reverse_cancels_out(cash: Cash, other: Cash)
    ensures
        cancel_out(cash, reversed(cash)),
        cash.opposite() == reversed(cash),
        cash.amount.signed() == decimal_laws::units(cash.amount),
        cancel_out(cash, other) && cash.amount.scale == other.amount.scale
            ==> decimal_laws::units(other.amount) == -decimal_laws::units(cash.amount),
{
    let p = power::pow(10, cash.amount.scale as nat);
    power::lemma_pow_positive(10, cash.amount.scale as nat);
    let a = decimal_laws::units(cash.amount);
    let b = decimal_laws::units(other.amount);
    if a * p == (-b) * p {
        assert(a == -b) by (nonlinear_arith)
            requires
                a * p == (-b) * p,
                p > 0,
        ;
    }
}

/// Whether the cash flows end in what a commission takes: one cash flow in its currency, which
/// cancels it out, at the time of what it was taken for. A commission of zero takes nothing.
pub open spec fn are_charged(
    flows: Seq<CashFlowModel>,
    others: int,
    time: DateOptTime,
    commission: Cash,
    description: Seq<char>,
) -> bool {
    &&& commission.amount.magnitude == 0 ==> flows.len() == others
    &&& commission.amount.magnitude != 0 ==> {
        &&& flows.len() == others + 1
        &&& flows[others].time == time
        &&& flows[others].operation is Commission
        &&& flows[others].amount.currency == commission.currency
        &&& flows[others].amount == reversed(commission)
        &&& cancel_out(flows[others].amount, commission)
        &&& flows[others].sibling_amount is None
        &&& flows[others].description == description
    }
}

/// A purchase takes its volume out, and its commission. Shares that were not bought take nothing.
pub proof fn purchase_takes_out_its_volume(name: Seq<char>, trade: StockBuy)
    ensures
        !(trade.type_ is Trade) ==> mapper::stock_buy_flows(name, trade).len() == 0,
        trade.type_ matches StockSource::Trade { volume, commission, .. } ==> {
            let flows = mapper::stock_buy_flows(name, trade);
            &&& flows.len() >= 1
            &&& flows[0].time == trade.conclusion_time
            &&& flows[0].operation is BuyTrade
            &&& flows[0].amount == reversed(volume)
            &&& cancel_out(flows[0].amount, volume)
            &&& flows[0].sibling_amount is None
            &&& flows[0].description == "Покупка "@ + trade.quantity.notation() + " "@ + name
            &&& are_charged(
                flows,
                1,
                trade.conclusion_time,
                commission,
                "Комиссия за покупку "@ + trade.quantity.notation() + " "@ + name,
            )
        },
{
    if let StockSource::Trade { volume, commission, .. } = trade.type_ {
        reverse_cancels_out(volume, volume);
        reverse_cancels_out(commission, commission);
        reverse_cancels_out(reversed(volume), volume);
        reverse_cancels_out(reversed(commission), commission);
    }
}

/// A sale brings its volume in, and takes its commission out. A sale for nothing brings nothing,
/// and neither do shares that were not sold.
pub proof fn sale_brings_in_its_volume(name: Seq<char>, trade: StockSell)
    ensures
        !(trade.type_ is Trade) ==> mapper::stock_sell_flows(name, trade).len() == 0,
        trade.type_ matches StockSellType::Trade { volume, commission, .. } ==> {
            let flows = mapper::stock_sell_flows(name, trade);
            let sold = if volume.amount.magnitude == 0 {
                0int
            } else {
                1
            };
            &&& flows.len() >= sold
            &&& sold == 1 ==> {
                &&& flows[0].time == trade.conclusion_time
                &&& flows[0].operation is SellTrade
                &&& flows[0].amount == volume
                &&& flows[0].sibling_amount is None
                &&& flows[0].description == "Продажа "@ + trade.quantity.notation() + " "@ + name
            }
            &&& are_charged(
                flows,
                sold,
                trade.conclusion_time,
                commission,
                "Комиссия за продажу "@ + trade.quantity.notation() + " "@ + name,
            )
        },
{
    if let StockSellType::Trade { volume, commission, .. } = trade.type_ {
        reverse_cancels_out(commission, commission);
        reverse_cancels_out(reversed(commission), commission);
    }
}

/// An exchange takes the amount given out, names the amount that was got for it, and takes its
/// commission out, in the currency of the commission.
pub proof fn exchange_takes_out_what_was_given(trade: ForexTrade)
    ensures
        ({
            let flows = mapper::forex_trade_flows(trade);
            let conversion = trade.from.amount.notation() + " "@ + trade.from.currency@ + " -> "@
                + trade.to.amount.notation() + " "@ + trade.to.currency@;
            &&& flows.len() >= 1
            &&& flows[0].time == trade.conclusion_time
            &&& flows[0].operation is ForexTrade
            &&& flows[0].amount == reversed(trade.from)
            &&& cancel_out(flows[0].amount, trade.from)
            &&& flows[0].sibling_amount == Some(trade.to)
            &&& flows[0].description == "Конвертация "@ + conversion
            &&& are_charged(
                flows,
                1,
                trade.conclusion_time,
                trade.commission,
                "Комиссия за конвертацию "@ + conversion,
            )
        }),
{
    reverse_cancels_out(reversed(trade.from), trade.from);
    reverse_cancels_out(reversed(trade.commission), trade.commission);
    reveal_strlit(" ");
    let conversion = trade.from.amount.notation() + " "@ + trade.from.currency@ + " -> "@
        + trade.to.amount.notation() + " "@ + trade.to.currency@;
    assert(mapper::conversion(trade) =~= conversion);
}

/// A repurchase deal moves its amount, and takes its commission out.
pub proof fn repurchase_deal_moves_its_amount(names: Seq<InstrumentName>, payment: CashFlow)
    ensures
        payment.type_ matches CashFlowType::Repo { symbol, commission } ==> {
            let flows = mapper::cash_flow_flows(names, payment);
            let name = broker_statement::instrument_name(names, symbol@);
            &&& flows.len() >= 1
            &&& flows[0].time == payment.date
            &&& flows[0].operation is RepoDeal
            &&& flows[0].amount == payment.amount
            &&& flows[0].sibling_amount is None
            &&& flows[0].description == "Сделка РЕПО с "@ + name
            &&& are_charged(
                flows,
                1,
                payment.date,
                commission,
                "Комиссия за заключение сделки РЕПО с "@ + name,
            )
        },
{
    if let CashFlowType::Repo { commission, .. } = payment.type_ {
        reverse_cancels_out(reversed(commission), commission);
    }
}

/// Whether a cash flow is the payment of a dividend: it comes in, or is taken back where it is not
/// positive.
pub open spec fn pays_dividend(
    flow: CashFlowModel,
    date: DateOptTime,
    amount: Cash,
    name: Seq<char>,
) -> bool {
    &&& flow.time == date
    &&& flow.operation is Dividend
    &&& flow.amount == amount
    &&& flow.sibling_amount is None
    &&& flow.description == if !amount.amount.negative && amount.amount.magnitude != 0 {
        "Дивиденд от "@ + name
    } else {
        "Возврат дивиденда от "@ + name
    }
}

/// Whether a cash flow is the payment of the tax on a dividend: it goes out, or is given back where
/// it is positive.
pub open spec fn pays_tax(
    flow: CashFlowModel,
    date: DateOptTime,
    amount: Cash,
    name: Seq<char>,
) -> bool {
    &&& flow.time == date
    &&& flow.operation is Dividend
    &&& flow.amount == amount
    &&& flow.sibling_amount is None
    &&& flow.description == if !amount.amount.negative && amount.amount.magnitude != 0 {
        "Возврат налога, удержанного с дивиденда от "@ + name
    } else {
        "Налог, удержанный с дивиденда от "@ + name
    }
}

/// The name of an issuer, with the date of the dividend if it is not the date of the payment.
pub open spec fn issuer_name(
    names: Seq<InstrumentName>,
    issuer: Seq<char>,
    paid: Date,
    date: Date,
) -> Seq<char> {
    if paid.year == date.year && paid.month == date.month && paid.day == date.day {
        broker_statement::instrument_name(names, issuer)
    } else {
        broker_statement::instrument_name(names, issuer) + " от "@ + formatting::date_text(date)
    }
}

/// A listed payment of a dividend, or of the tax on one, moves its amount at its own moment.
pub proof fn listed_payment_moves_its_amount(names: Seq<InstrumentName>, payment: CashFlow)
    ensures
        payment.type_ matches CashFlowType::Dividend { date, issuer } ==> {
            let flows = mapper::cash_flow_flows(names, payment);
            &&& flows.len() == 1
            &&& pays_dividend(
                flows[0],
                payment.date,
                payment.amount,
                issuer_name(names, issuer@, payment.date.date, date),
            )
        },
        payment.type_ matches CashFlowType::Tax { date, issuer } ==> {
            let flows = mapper::cash_flow_flows(names, payment);
            &&& flows.len() == 1
            &&& pays_tax(
                flows[0],
                payment.date,
                payment.amount,
                issuer_name(names, issuer@, payment.date.date, date),
            )
        },
{
}

/// A dividend comes in on its date, and the tax on it goes out, if there is any. One that is left
/// out of the cash flow moves nothing.
pub proof fn dividend_comes_in_and_its_tax_goes_out(
    names: Seq<InstrumentName>,
    dividend: Dividend,
)
    ensures
        ({
            let flows = mapper::dividend_flows(names, dividend);
            let name = broker_statement::instrument_name(names, dividend.original_issuer@);
            let date = DateOptTime { date: dividend.date, time: None };
            &&& dividend.skip_from_cash_flow ==> flows.len() == 0
            &&& !dividend.skip_from_cash_flow ==> {
                &&& flows.len() == if dividend.paid_tax.amount.magnitude == 0 {
                    1int
                } else {
                    2
                }
                &&& pays_dividend(flows[0], date, dividend.amount, name)
                &&& dividend.paid_tax.amount.magnitude != 0 ==> pays_tax(
                    flows[1],
                    date,
                    reversed(dividend.paid_tax),
                    name,
                ) && cancel_out(flows[1].amount, dividend.paid_tax)
            }
        }),
{
    reverse_cancels_out(reversed(dividend.paid_tax), dividend.paid_tax);
}

/// What is put in or taken out moves as it is: it is a deposit exactly if it is positive.
pub proof fn deposit_is_what_is_positive(assets: CashAssets)
    ensures
        ({
            let flows = mapper::deposit_or_withdrawal_flows(assets);
            let positive = !assets.cash.amount.negative && assets.cash.amount.magnitude != 0;
            &&& flows.len() == 1
            &&& flows[0].time.date == assets.date
            &&& flows[0].time.time is None
            &&& flows[0].amount == assets.cash
            &&& flows[0].sibling_amount is None
            &&& positive ==> flows[0].operation is Deposit && flows[0].description
                == "Ввод денежных средств"@
            &&& !positive ==> flows[0].operation is Withdrawal && flows[0].description
                == "Вывод денежных средств"@
        }),
{
}

/// Interest and grants come in as they are, on their dates.
pub proof fn earnings_come_in(interest: IdleCashInterest, grant: CashGrant)
    ensures
        ({
            let flows = mapper::interest_flows(interest);
            &&& flows.len() == 1
            &&& flows[0].time.date == interest.date
            &&& flows[0].time.time is None
            &&& flows[0].operation is Interest
            &&& flows[0].amount == interest.amount
            &&& flows[0].sibling_amount is None
            &&& flows[0].description == "Проценты на остаток по счету"@
        }),
        ({
            let flows = mapper::grant_flows(grant);
            &&& flows.len() == 1
            &&& flows[0].time.date == grant.date
            &&& flows[0].time.time is None
            &&& flows[0].operation is Grant
            &&& flows[0].amount == grant.amount
            &&& flows[0].sibling_amount is None
            &&& flows[0].description == grant.description@
        }),
{
}

/// Whether an amount is what is left to the account of something withheld: the reverse of what was
/// taken, and what was given back as it is.
pub open spec fn answers(amount: Cash, withholding: Withholding) -> bool {
    match withholding {
        Withholding::Withholding(taken) => amount == reversed(taken) && cancel_out(amount, taken),
        Withholding::Refund(given) => amount == given,
    }
}

/// Fees and taxes go out, and come in where they were given back.
pub proof fn fees_and_taxes_go_out(fee: Fee, tax: TaxAgentWithholding)
    ensures
        ({
            let flows = mapper::fee_flows(fee);
            &&& flows.len() == 1
            &&& flows[0].time.date == fee.date
            &&& flows[0].time.time is None
            &&& flows[0].operation is Fee
            &&& answers(flows[0].amount, fee.amount)
            &&& flows[0].sibling_amount is None
            &&& flows[0].description == fee.description@
        }),
        ({
            let flows = mapper::tax_agent_withholding_flows(tax);
            &&& flows.len() == 1
            &&& flows[0].time.date == tax.date
            &&& flows[0].time.time is None
            &&& flows[0].operation is Tax
            &&& answers(flows[0].amount, tax.amount)
            &&& flows[0].sibling_amount is None
            &&& flows[0].description == (if tax.amount is Refund {
                "Возврат"@
            } else {
                "Удержание"@
            }) + " налога за "@ + (if tax.year < 0 {
                "-"@
            } else {
                ""@
            }) + text::number_digits(
                (if tax.year < 0 {
                    -(tax.year as int)
                } else {
                    tax.year as int
                }) as nat,
            ) + " год"@
        }),
{
    match fee.amount {
        Withholding::Withholding(amount) => reverse_cancels_out(reversed(amount), amount),
        Withholding::Refund(amount) => {},
    }
    match tax.amount {
        Withholding::Withholding(amount) => reverse_cancels_out(reversed(amount), amount),
        Withholding::Refund(amount) => {},
    }
    reveal_strlit("-");
    reveal_strlit("");
    let digits = text::number_digits(
        (if tax.year < 0 {
            -(tax.year as int)
        } else {
            tax.year as int
        }) as nat,
    );
    assert("-"@ =~= seq!['-']);
    let operation = if tax.amount is Refund {
        "Возврат"@
    } else {
        "Удержание"@
    };
    let sign = if tax.year < 0 {
        "-"@
    } else {
        ""@
    };
    assert(mapper::tax_agent_withholding_flows(tax)[0].description =~= operation + " налога за "@
        + sign + digits + " год"@);
}

} // verus!
