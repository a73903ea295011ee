//! Request billing: the effective unit prices of a request after its
//! billing multipliers, its cost, and its output speed. Decimal arithmetic
//! is `rust_decimal`'s; amounts are `mantissa / 10^scale`.

use rust_decimal::Decimal;
use vstd::prelude::*;

use crate::admission::{decimal_at_least, usd_at_least, UsdAmount, MAX_DECIMAL_MANTISSA};
use crate::outcome::RequestLogOutcome;
use crate::usage::ResponseUsage;

verus! {

/// What `Decimal::checked_mul` gives for two amounts.
pub uninterp spec fn decimal_checked_product(a: UsdAmount, b: UsdAmount) -> Option<UsdAmount>;

/// What `Decimal::checked_add` gives for two amounts.
pub uninterp spec fn decimal_checked_sum(a: UsdAmount, b: UsdAmount) -> Option<UsdAmount>;

/// What `Decimal::checked_div` gives for two amounts.
pub uninterp spec fn decimal_checked_quotient(a: UsdAmount, b: UsdAmount) -> Option<UsdAmount>;

/// What `Decimal::round_dp` (half to even) gives for an amount.
pub uninterp spec fn decimal_rounded(a: UsdAmount, places: u32) -> UsdAmount;

/// An integer as an amount.
pub open spec fn whole(n: int) -> UsdAmount {
    UsdAmount { mantissa: n as i128, scale: 0 }
}

/// Multiplies with `Decimal::checked_mul`: nothing on overflow, a
/// representable decimal otherwise; the product of two integers that fits
/// is exact.
#[verifier::external_body]
fn checked_product(a: UsdAmount, b: UsdAmount) -> (product: Option<UsdAmount>)
    requires
        a.wf(),
        b.wf(),
    ensures
        product == decimal_checked_product(a, b),
        product matches Some(p) ==> p.wf(),
        a.scale == 0 && b.scale == 0 && -MAX_DECIMAL_MANTISSA <= a.mantissa * b.mantissa <= MAX_DECIMAL_MANTISSA
            ==> product == Some(whole(a.mantissa * b.mantissa)),
{
    Decimal::from_i128_with_scale(a.mantissa, a.scale)
        .checked_mul(Decimal::from_i128_with_scale(b.mantissa, b.scale))
        .map(|value| UsdAmount { mantissa: value.mantissa(), scale: value.scale() })
}

/// Adds with `Decimal::checked_add`: nothing on overflow, a representable
/// decimal otherwise.
#[verifier::external_body]
fn checked_sum(a: UsdAmount, b: UsdAmount) -> (sum: Option<UsdAmount>)
    requires
        a.wf(),
        b.wf(),
    ensures
        sum == decimal_checked_sum(a, b),
        sum matches Some(s) ==> s.wf(),
{
    Decimal::from_i128_with_scale(a.mantissa, a.scale)
        .checked_add(Decimal::from_i128_with_scale(b.mantissa, b.scale))
        .map(|value| UsdAmount { mantissa: value.mantissa(), scale: value.scale() })
}

/// Divides with `Decimal::checked_div`: nothing for a zero divisor or on
/// overflow, a representable decimal otherwise; an integer divided by a
/// positive integer always has a quotient.
#[verifier::external_body]
fn checked_quotient(a: UsdAmount, b: UsdAmount) -> (quotient: Option<UsdAmount>)
    requires
        a.wf(),
        b.wf(),
    ensures
        quotient == decimal_checked_quotient(a, b),
        quotient matches Some(q) ==> q.wf(),
        b.mantissa == 0 ==> quotient is None,
        a.scale == 0 && b.scale == 0 && b.mantissa >= 1 ==> quotient is Some,
{
    Decimal::from_i128_with_scale(a.mantissa, a.scale)
        .checked_div(Decimal::from_i128_with_scale(b.mantissa, b.scale))
        .map(|value| UsdAmount { mantissa: value.mantissa(), scale: value.scale() })
}

/// Rounds with `Decimal::round_dp`, midpoints to even; an amount with at
/// most `places` decimals is unchanged.
#[verifier::external_body]
fn rounded(a: UsdAmount, places: u32) -> (result: UsdAmount)
    requires
        a.wf(),
    ensures
        result == decimal_rounded(a, places),
        result.wf(),
        a.scale <= places ==> result == a,
{
    let value = Decimal::from_i128_with_scale(a.mantissa, a.scale).round_dp(places);
    UsdAmount { mantissa: value.mantissa(), scale: value.scale() }
}

/// A price multiplied by the billing multiplier, rounded to 12 places;
/// nothing when the product overflows.
pub open spec fn effective_price_spec(price: UsdAmount, multiplier: UsdAmount) -> Option<UsdAmount> {
    match decimal_checked_product(price, multiplier) {
        Some(product) => Some(decimal_rounded(product, 12)),
        None => None,
    }
}

/// The price a request pays per unit: the list price times the billing
/// multiplier, rounded half to even at 12 decimal places.
pub fn effective_unit_price(price: UsdAmount, multiplier: UsdAmount) -> (effective: UsdAmount)
    requires
        price.wf(),
        multiplier.wf(),
        effective_price_spec(price, multiplier) is Some,
    ensures
        Some(effective) == effective_price_spec(price, multiplier),
        effective.wf(),
{
    match checked_product(price, multiplier) {
        Some(product) => rounded(product, 12),
        None => price,
    }
}

/// The effective unit price, or nothing when the product overflows.
pub fn checked_effective_unit_price(price: UsdAmount, multiplier: UsdAmount) -> (effective: Option<UsdAmount>)
    requires
        price.wf(),
        multiplier.wf(),
    ensures
        effective == effective_price_spec(price, multiplier),
        effective matches Some(e) ==> e.wf(),
{
    match checked_product(price, multiplier) {
        Some(_) => Some(effective_unit_price(price, multiplier)),
        None => None,
    }
}

/// Token counts a request is billed for.
#[derive(Clone, Copy, PartialEq, Eq, Debug)]
pub struct RequestUsage {
    pub input_tokens: i64,
    pub cached_input_tokens: i64,
    pub cache_write_tokens: i64,
    pub output_tokens: i64,
    pub reasoning_tokens: i64,
}

/// The unit prices of a request, per `price_unit_tokens` tokens.
#[derive(Clone, Copy, PartialEq, Eq, Debug)]
pub struct UnitPrices {
    pub input: UsdAmount,
    pub cached_input: UsdAmount,
    pub cache_write: UsdAmount,
    pub output: UsdAmount,
}

impl UnitPrices {
    pub open spec fn wf(self) -> bool {
        self.input.wf() && self.cached_input.wf() && self.cache_write.wf() && self.output.wf()
    }
}

/// The prices a request is billed at.
#[derive(Clone, PartialEq, Eq, Debug)]
pub struct RequestPriceSnapshot {
    pub currency: String,
    pub price_unit_tokens: i64,
    pub price_effective_at: i64,
    pub prices: UnitPrices,
}

/// `a - b`, saturating at the `i64` bounds.
pub open spec fn saturating_difference(a: i64, b: i64) -> i64 {
    if a - b > i64::MAX {
        i64::MAX
    } else if a - b < i64::MIN {
        i64::MIN
    } else {
        (a - b) as i64
    }
}

/// Adds two optional amounts.
pub open spec fn sum_of(a: Option<UsdAmount>, b: Option<UsdAmount>) -> Option<UsdAmount> {
    match (a, b) {
        (Some(a), Some(b)) => decimal_checked_sum(a, b),
        _ => None,
    }
}

/// The cost of a request: uncached input, cached input, cache writes and
/// output, each count times its unit price, summed in that order, divided
/// by the price unit, and only then rounded half to even at 8 places;
/// nothing when the arithmetic overflows or the unit is zero.
pub open spec fn cost_spec(usage: RequestUsage, unit_tokens: i64, prices: UnitPrices) -> Option<UsdAmount> {
    let uncached = saturating_difference(usage.input_tokens, usage.cached_input_tokens);
    let total = sum_of(
        sum_of(
            sum_of(
                decimal_checked_product(whole(uncached as int), prices.input),
                decimal_checked_product(whole(usage.cached_input_tokens as int), prices.cached_input),
            ),
            decimal_checked_product(whole(usage.cache_write_tokens as int), prices.cache_write),
        ),
        decimal_checked_product(whole(usage.output_tokens as int), prices.output),
    );
    match total {
        Some(total) => match decimal_checked_quotient(total, whole(unit_tokens as int)) {
            Some(quotient) => Some(decimal_rounded(quotient, 8)),
            None => None,
        },
        None => None,
    }
}

/// `i64::saturating_sub`.
fn saturating_sub_i64(a: i64, b: i64) -> (difference: i64)
    ensures
        difference == saturating_difference(a, b),
{
    let wide = a as i128 - b as i128;
    if wide > i64::MAX as i128 {
        i64::MAX
    } else if wide < i64::MIN as i128 {
        i64::MIN
    } else {
        wide as i64
    }
}

fn whole_amount(n: i64) -> (amount: UsdAmount)
    ensures
        amount == whole(n as int),
        amount.wf(),
{
    UsdAmount { mantissa: n as i128, scale: 0 }
}

fn checked_sum_of(a: Option<UsdAmount>, b: Option<UsdAmount>) -> (sum: Option<UsdAmount>)
    requires
        a matches Some(a) ==> a.wf(),
        b matches Some(b) ==> b.wf(),
    ensures
        sum == sum_of(a, b),
        sum matches Some(s) ==> s.wf(),
{
    match (a, b) {
        (Some(a), Some(b)) => checked_sum(a, b),
        _ => None,
    }
}

/// The cost of a request, or nothing when the arithmetic overflows or the
/// price unit is zero.
pub fn checked_cost(usage: &RequestUsage, unit_tokens: i64, prices: &UnitPrices) -> (cost: Option<UsdAmount>)
    requires
        prices.wf(),
    ensures
        cost == cost_spec(*usage, unit_tokens, *prices),
        cost matches Some(c) ==> c.wf(),
{
    let uncached = saturating_sub_i64(usage.input_tokens, usage.cached_input_tokens);
    let total = checked_sum_of(
        checked_sum_of(
            checked_sum_of(
                checked_product(whole_amount(uncached), prices.input),
                checked_product(whole_amount(usage.cached_input_tokens), prices.cached_input),
            ),
            checked_product(whole_amount(usage.cache_write_tokens), prices.cache_write),
        ),
        checked_product(whole_amount(usage.output_tokens), prices.output),
    );
    match total {
        Some(total) => match checked_quotient(total, whole_amount(unit_tokens)) {
            Some(quotient) => Some(rounded(quotient, 8)),
            None => None,
        },
        None => None,
    }
}

/// The cost of a request at the snapshot's prices.
pub fn calculate_cost(usage: &RequestUsage, price: &RequestPriceSnapshot) -> (cost: UsdAmount)
    requires
        price.prices.wf(),
        cost_spec(*usage, price.price_unit_tokens, price.prices) is Some,
    ensures
        Some(cost) == cost_spec(*usage, price.price_unit_tokens, price.prices),
        cost.wf(),
{
    match checked_cost(usage, price.price_unit_tokens, &price.prices) {
        Some(cost) => cost,
        None => UsdAmount::zero(),
    }
}

/// The list prices of a model.
#[derive(Clone, PartialEq, Eq, Debug)]
pub struct ModelPriceSnapshot {
    pub currency: String,
    pub price_unit_tokens: i64,
    pub price_effective_at: i64,
    pub prices: UnitPrices,
}

/// What a request's log records of its billing.
#[derive(Clone, PartialEq, Eq, Debug)]
pub struct RequestBilling {
    pub usage: Option<RequestUsage>,
    pub price: RequestPriceSnapshot,
    pub cost_amount: Option<UsdAmount>,
    pub output_tokens_per_second: Option<UsdAmount>,
    pub peak_pricing: bool,
}

/// The multipliers that scale a request's prices.
#[derive(Clone, Copy, PartialEq, Eq, Debug)]
pub struct BillingFactors {
    pub channel_multiplier: UsdAmount,
    pub request_multiplier: UsdAmount,
    pub time_multiplier: UsdAmount,
}

impl BillingFactors {
    pub open spec fn wf(self) -> bool {
        self.channel_multiplier.wf() && self.request_multiplier.wf() && self.time_multiplier.wf()
    }
}

/// Failed and cancelled requests cost nothing even without usage.
pub open spec fn forces_zero_cost(outcome: RequestLogOutcome) -> bool {
    outcome is Failed || outcome is Cancelled
}

/// The product of the channel, request and time multipliers.
pub open spec fn billing_multiplier_spec(factors: BillingFactors) -> Option<UsdAmount> {
    match decimal_checked_product(factors.channel_multiplier, factors.request_multiplier) {
        Some(product) => decimal_checked_product(product, factors.time_multiplier),
        None => None,
    }
}

/// The effective prices at a multiplier.
pub open spec fn effective_prices_spec(prices: UnitPrices, multiplier: UsdAmount) -> Option<UnitPrices> {
    match (
        effective_price_spec(prices.input, multiplier),
        effective_price_spec(prices.cached_input, multiplier),
        effective_price_spec(prices.cache_write, multiplier),
        effective_price_spec(prices.output, multiplier),
    ) {
        (Some(input), Some(cached_input), Some(cache_write), Some(output)) => Some(
            UnitPrices { input, cached_input, cache_write, output },
        ),
        _ => None,
    }
}

/// Output tokens per second of generation: output tokens times 1000 over
/// the milliseconds after the first token (at least one), rounded half to
/// even at 4 places; only when the first token's time is known and some
/// output was produced.
pub open spec fn output_speed_spec(usage: Option<RequestUsage>, total_duration_ms: i32, ttft_ms: Option<i32>) -> Option<
    UsdAmount,
> {
    match (usage, ttft_ms) {
        (Some(usage), Some(ttft)) => if usage.output_tokens > 0 {
            let generation = if total_duration_ms - ttft < i32::MIN {
                1
            } else if total_duration_ms - ttft > i32::MAX {
                i32::MAX as int
            } else if total_duration_ms - ttft < 1 {
                1
            } else {
                total_duration_ms - ttft
            };
            match decimal_checked_quotient(whole(usage.output_tokens * 1000), whole(generation)) {
                Some(speed) => Some(decimal_rounded(speed, 4)),
                None => None,
            }
        } else {
            None
        },
        _ => None,
    }
}

/// Whether a request can be billed without overflow: the multiplier
/// product, the effective prices and, when it is computed, the cost.
pub open spec fn billing_computable(
    snapshot: ModelPriceSnapshot,
    tiered_prices: UnitPrices,
    factors: BillingFactors,
    usage: Option<RequestUsage>,
    outcome: RequestLogOutcome,
) -> bool {
    match billing_multiplier_spec(factors) {
        Some(multiplier) => match effective_prices_spec(
            if usage is Some {
                tiered_prices
            } else {
                snapshot.prices
            },
            multiplier,
        ) {
            Some(prices) => forces_zero_cost(outcome) || match usage {
                Some(usage) => cost_spec(usage, snapshot.price_unit_tokens, prices) is Some,
                None => true,
            },
            None => false,
        },
        None => false,
    }
}

/// What `request_billing` records: with usage, the prices of its tier
/// (`tiered_prices`), else the list prices, each scaled by the billing
/// multiplier; the cost (zero for failed or cancelled requests, unknown
/// without usage); the output speed; and whether the time multiplier made
/// it peak pricing.
pub open spec fn request_billing_matches(
    billing: RequestBilling,
    snapshot: ModelPriceSnapshot,
    tiered_prices: UnitPrices,
    factors: BillingFactors,
    usage: Option<RequestUsage>,
    total_duration_ms: i32,
    ttft_ms: Option<i32>,
    outcome: RequestLogOutcome,
) -> bool {
    let multiplier = billing_multiplier_spec(factors)->0;
    let prices = effective_prices_spec(
        if usage is Some {
            tiered_prices
        } else {
            snapshot.prices
        },
        multiplier,
    )->0;
    &&& billing.usage == usage
    &&& billing.price.currency@ == snapshot.currency@
    &&& billing.price.price_unit_tokens == snapshot.price_unit_tokens
    &&& billing.price.price_effective_at == snapshot.price_effective_at
    &&& billing.price.prices == prices
    &&& billing.cost_amount == if forces_zero_cost(outcome) {
        Some(UsdAmount { mantissa: 0, scale: 0 })
    } else {
        match usage {
            Some(usage) => cost_spec(usage, snapshot.price_unit_tokens, prices),
            None => None,
        }
    }
    &&& billing.output_tokens_per_second == output_speed_spec(usage, total_duration_ms, ttft_ms)
    &&& billing.peak_pricing == !usd_at_least(UsdAmount { mantissa: 1, scale: 0 }, factors.time_multiplier)
}

fn effective_prices(prices: &UnitPrices, multiplier: UsdAmount) -> (effective: UnitPrices)
    requires
        prices.wf(),
        multiplier.wf(),
        effective_prices_spec(*prices, multiplier) is Some,
    ensures
        Some(effective) == effective_prices_spec(*prices, multiplier),
        effective.wf(),
{
    UnitPrices {
        input: effective_unit_price(prices.input, multiplier),
        cached_input: effective_unit_price(prices.cached_input, multiplier),
        cache_write: effective_unit_price(prices.cache_write, multiplier),
        output: effective_unit_price(prices.output, multiplier),
    }
}

fn output_speed(usage: &Option<RequestUsage>, total_duration_ms: i32, ttft_ms: Option<i32>) -> (speed: Option<
    UsdAmount,
>)
    ensures
        speed == output_speed_spec(*usage, total_duration_ms, ttft_ms),
{
    let (usage, ttft) = match (usage, ttft_ms) {
        (Some(usage), Some(ttft)) => (usage, ttft),
        _ => {
            return None;
        },
    };
    if usage.output_tokens <= 0 {
        return None;
    }
    let wide = total_duration_ms as i64 - ttft as i64;
    let difference: i32 = if wide > i32::MAX as i64 {
        i32::MAX
    } else if wide < i32::MIN as i64 {
        i32::MIN
    } else {
        wide as i32
    };
    let generation = if difference < 1 {
        1
    } else {
        difference
    };
    let tokens = usage.output_tokens as i128 * 1000;
    let numerator = UsdAmount { mantissa: tokens, scale: 0 };
    let denominator = UsdAmount { mantissa: generation as i128, scale: 0 };
    assert(numerator.wf()) by {
        assert(usage.output_tokens * 1000 <= 9_223_372_036_854_775_807_000);
    }
    match checked_quotient(numerator, denominator) {
        Some(speed) => Some(rounded(speed, 4)),
        None => None,
    }
}

/// The billing record of a request: its usage, the prices it pays and what
/// it costs. `tiered_prices` are the snapshot's prices as the model's
/// advanced billing adjusts them for the request's input size.
pub fn request_billing(
    snapshot: &ModelPriceSnapshot,
    tiered_prices: &UnitPrices,
    factors: BillingFactors,
    usage: Option<ResponseUsage>,
    total_duration_ms: i32,
    ttft_ms: Option<i32>,
    outcome: RequestLogOutcome,
) -> (billing: RequestBilling)
    requires
        snapshot.prices.wf(),
        tiered_prices.wf(),
        factors.wf(),
        billing_computable(
            *snapshot,
            *tiered_prices,
            factors,
            match usage {
                Some(usage) => Some(
                    RequestUsage {
                        input_tokens: usage.input_tokens,
                        cached_input_tokens: usage.cached_input_tokens,
                        cache_write_tokens: usage.cache_write_tokens,
                        output_tokens: usage.output_tokens,
                        reasoning_tokens: usage.reasoning_tokens,
                    },
                ),
                None => None,
            },
            outcome,
        ),
    ensures
        request_billing_matches(
            billing,
            *snapshot,
            *tiered_prices,
            factors,
            match usage {
                Some(usage) => Some(
                    RequestUsage {
                        input_tokens: usage.input_tokens,
                        cached_input_tokens: usage.cached_input_tokens,
                        cache_write_tokens: usage.cache_write_tokens,
                        output_tokens: usage.output_tokens,
                        reasoning_tokens: usage.reasoning_tokens,
                    },
                ),
                None => None,
            },
            total_duration_ms,
            ttft_ms,
            outcome,
        ),
{
    let usage = match usage {
        Some(usage) => Some(
            RequestUsage {
                input_tokens: usage.input_tokens,
                cached_input_tokens: usage.cached_input_tokens,
                cache_write_tokens: usage.cache_write_tokens,
                output_tokens: usage.output_tokens,
                reasoning_tokens: usage.reasoning_tokens,
            },
        ),
        None => None,
    };
    let list = if usage.is_some() {
        *tiered_prices
    } else {
        snapshot.prices
    };
    let partial = match checked_product(factors.channel_multiplier, factors.request_multiplier) {
        Some(partial) => partial,
        None => UsdAmount::zero(),
    };
    let multiplier = match checked_product(partial, factors.time_multiplier) {
        Some(multiplier) => multiplier,
        None => UsdAmount::zero(),
    };
    let prices = effective_prices(&list, multiplier);
    let price = RequestPriceSnapshot {
        currency: snapshot.currency.clone(),
        price_unit_tokens: snapshot.price_unit_tokens,
        price_effective_at: snapshot.price_effective_at,
        prices,
    };
    let forces_zero = matches!(outcome, RequestLogOutcome::Failed | RequestLogOutcome::Cancelled);
    let cost_amount = if forces_zero {
        Some(UsdAmount { mantissa: 0, scale: 0 })
    } else {
        match &usage {
            Some(usage) => Some(calculate_cost(usage, &price)),
            None => None,
        }
    };
    let output_tokens_per_second = output_speed(&usage, total_duration_ms, ttft_ms);
    let peak_pricing = !decimal_at_least(UsdAmount { mantissa: 1, scale: 0 }, factors.time_multiplier);
    RequestBilling { usage, price, cost_amount, output_tokens_per_second, peak_pricing }
}

/// The billing record of a request, or nothing where its arithmetic would
/// overflow.
pub fn checked_request_billing(
    snapshot: &ModelPriceSnapshot,
    tiered_prices: &UnitPrices,
    factors: BillingFactors,
    usage: Option<ResponseUsage>,
    total_duration_ms: i32,
    ttft_ms: Option<i32>,
    outcome: RequestLogOutcome,
) -> (billing: Option<RequestBilling>)
    requires
        snapshot.prices.wf(),
        tiered_prices.wf(),
        factors.wf(),
    ensures
        ({
            let usage = match usage {
                Some(usage) => Some(
                    RequestUsage {
                        input_tokens: usage.input_tokens,
                        cached_input_tokens: usage.cached_input_tokens,
                        cache_write_tokens: usage.cache_write_tokens,
                        output_tokens: usage.output_tokens,
                        reasoning_tokens: usage.reasoning_tokens,
                    },
                ),
                None => None,
            };
            &&& billing is Some <==> billing_computable(*snapshot, *tiered_prices, factors, usage, outcome)
            &&& billing matches Some(billing) ==> request_billing_matches(
                billing,
                *snapshot,
                *tiered_prices,
                factors,
                usage,
                total_duration_ms,
                ttft_ms,
                outcome,
            )
        }),
{
    let partial = match checked_product(factors.channel_multiplier, factors.request_multiplier) {
        Some(partial) => partial,
        None => {
            return None;
        },
    };
    let multiplier = match checked_product(partial, factors.time_multiplier) {
        Some(multiplier) => multiplier,
        None => {
            return None;
        },
    };
    let list = if usage.is_some() {
        *tiered_prices
    } else {
        snapshot.prices
    };
    let input = checked_effective_unit_price(list.input, multiplier);
    let cached_input = checked_effective_unit_price(list.cached_input, multiplier);
    let cache_write = checked_effective_unit_price(list.cache_write, multiplier);
    let output = checked_effective_unit_price(list.output, multiplier);
    let prices = match (input, cached_input, cache_write, output) {
        (Some(input), Some(cached_input), Some(cache_write), Some(output)) => UnitPrices {
            input,
            cached_input,
            cache_write,
            output,
        },
        _ => {
            return None;
        },
    };
    let forces_zero = matches!(outcome, RequestLogOutcome::Failed | RequestLogOutcome::Cancelled);
    if !forces_zero {
        if let Some(usage) = &usage {
            let counts = RequestUsage {
                input_tokens: usage.input_tokens,
                cached_input_tokens: usage.cached_input_tokens,
                cache_write_tokens: usage.cache_write_tokens,
                output_tokens: usage.output_tokens,
                reasoning_tokens: usage.reasoning_tokens,
            };
            if checked_cost(&counts, snapshot.price_unit_tokens, &prices).is_none() {
                return None;
            }
        }
    }
    Some(request_billing(snapshot, tiered_prices, factors, usage, total_duration_ms, ttft_ms, outcome))
}

} // verus!
