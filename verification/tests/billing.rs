use ai_gateway::admission::UsdAmount;
use ai_gateway::billing::{
    calculate_cost, checked_cost, checked_request_billing, effective_unit_price, request_billing, BillingFactors,
    ModelPriceSnapshot, RequestPriceSnapshot, RequestUsage, UnitPrices,
};
use ai_gateway::outcome::RequestLogOutcome;
use ai_gateway::usage::ResponseUsage;
use rust_decimal::Decimal;

fn amount(value: Decimal) -> UsdAmount {
    UsdAmount { mantissa: value.mantissa(), scale: value.scale() }
}

fn decimal(value: UsdAmount) -> Decimal {
    Decimal::from_i128_with_scale(value.mantissa, value.scale)
}

fn one() -> UsdAmount {
    amount(Decimal::ONE)
}

fn prices(input: Decimal, cached: Decimal, cache_write: Decimal, output: Decimal) -> UnitPrices {
    UnitPrices {
        input: amount(input),
        cached_input: amount(cached),
        cache_write: amount(cache_write),
        output: amount(output),
    }
}

fn price() -> RequestPriceSnapshot {
    RequestPriceSnapshot {
        currency: "USD".into(),
        price_unit_tokens: 1,
        price_effective_at: 1_789_516_800,
        prices: prices(Decimal::ZERO, Decimal::ZERO, Decimal::ZERO, Decimal::ZERO),
    }
}

fn factors(channel: Decimal, request: Decimal) -> BillingFactors {
    BillingFactors { channel_multiplier: amount(channel), request_multiplier: amount(request), time_multiplier: one() }
}

fn usage() -> ResponseUsage {
    ResponseUsage { input_tokens: 10, cached_input_tokens: 2, cache_write_tokens: 1, output_tokens: 4, reasoning_tokens: 1 }
}

#[test]
fn effective_prices_round_midpoints_to_even_at_twelve_places() {
    for (coefficient, expected) in [(5, 2), (15, 8), (25, 12), (35, 18)] {
        assert_eq!(
            decimal(effective_unit_price(amount(Decimal::new(coefficient, 12)), amount(Decimal::new(5, 1)))),
            Decimal::new(expected, 12),
        );
    }
}

#[test]
fn cost_rounds_midpoints_to_even_only_after_summing_and_dividing() {
    let usage = RequestUsage {
        input_tokens: 1,
        cached_input_tokens: 0,
        cache_write_tokens: 0,
        output_tokens: 1,
        reasoning_tokens: 1,
    };
    for (coefficient, expected) in [(5, 0), (15, 2), (25, 2), (35, 4)] {
        let mut price = price();
        price.price_unit_tokens = 1_000_000;
        price.prices.input = amount(Decimal::new(coefficient, 3));
        assert_eq!(decimal(calculate_cost(&usage, &price)), Decimal::new(expected, 8));
    }
    let mut price = price();
    price.prices.input = amount(Decimal::new(5, 9));
    price.prices.output = amount(Decimal::new(5, 9));
    assert_eq!(decimal(calculate_cost(&usage, &price)), Decimal::new(1, 8));
}

#[test]
fn cost_uses_the_rounded_effective_price_not_the_unrounded_product() {
    let price = price();
    let snapshot = ModelPriceSnapshot {
        currency: price.currency.clone(),
        price_unit_tokens: 1,
        price_effective_at: price.price_effective_at,
        prices: prices(Decimal::new(7, 12), Decimal::ZERO, Decimal::ZERO, Decimal::ZERO),
    };
    let billing = request_billing(
        &snapshot,
        &snapshot.prices,
        factors(Decimal::new(5, 1), Decimal::ONE),
        Some(ResponseUsage {
            input_tokens: 15_000,
            cached_input_tokens: 0,
            cache_write_tokens: 0,
            output_tokens: 0,
            reasoning_tokens: 0,
        }),
        1,
        None,
        RequestLogOutcome::Succeeded,
    );
    assert_eq!(decimal(billing.price.prices.input), Decimal::new(4, 12));
    assert_eq!(billing.cost_amount.map(decimal), Some(Decimal::new(6, 8)));
}

#[test]
fn missing_usage_is_unknown_except_for_explicit_failure_or_cancellation() {
    let price = price();
    let snapshot = ModelPriceSnapshot {
        currency: price.currency.clone(),
        price_unit_tokens: 1,
        price_effective_at: price.price_effective_at,
        prices: prices(Decimal::ONE, Decimal::ONE, Decimal::ONE, Decimal::ONE),
    };
    for (outcome, expected) in [
        (RequestLogOutcome::Succeeded, None),
        (RequestLogOutcome::Rejected, None),
        (RequestLogOutcome::Failed, Some(Decimal::ZERO)),
        (RequestLogOutcome::Cancelled, Some(Decimal::ZERO)),
    ] {
        let billing = request_billing(
            &snapshot,
            &snapshot.prices,
            factors(Decimal::ONE, Decimal::ONE),
            None,
            1,
            None,
            outcome,
        );
        assert_eq!(billing.usage, None);
        assert_eq!(billing.cost_amount.map(decimal), expected, "{outcome:?}");
    }
}

#[test]
fn bills_cached_input_cache_writes_and_output_from_the_selected_snapshot() {
    let list = prices(Decimal::ONE, Decimal::new(5, 1), Decimal::new(25, 2), Decimal::from(2_i64));
    let price = RequestPriceSnapshot {
        currency: "USD".into(),
        price_unit_tokens: 1,
        price_effective_at: 1_789_516_800,
        prices: list,
    };
    let counts = RequestUsage {
        input_tokens: 10,
        cached_input_tokens: 2,
        cache_write_tokens: 1,
        output_tokens: 4,
        reasoning_tokens: 1,
    };
    assert_eq!(decimal(calculate_cost(&counts, &price)), Decimal::new(1725, 2));

    let snapshot = ModelPriceSnapshot {
        currency: "USD".into(),
        price_unit_tokens: 1,
        price_effective_at: price.price_effective_at,
        prices: list,
    };
    let billing = request_billing(
        &snapshot,
        &snapshot.prices,
        factors(Decimal::ONE, Decimal::ONE),
        Some(usage()),
        2_000,
        Some(500),
        RequestLogOutcome::Succeeded,
    );
    assert_eq!(billing.cost_amount.map(decimal), Some(Decimal::new(1725, 2)));
    assert_eq!(billing.output_tokens_per_second.map(decimal), Some(Decimal::new(26667, 4)));

    let missing_ttft = request_billing(
        &snapshot,
        &snapshot.prices,
        factors(Decimal::ONE, Decimal::ONE),
        Some(usage()),
        2_000,
        None,
        RequestLogOutcome::Succeeded,
    );
    assert_eq!(missing_ttft.output_tokens_per_second, None);
}

#[test]
fn applies_the_selected_channel_billing_multiplier_to_price_and_cost() {
    let snapshot = ModelPriceSnapshot {
        currency: "USD".into(),
        price_unit_tokens: 1,
        price_effective_at: 1_789_516_800,
        prices: prices(Decimal::ONE, Decimal::new(5, 1), Decimal::new(25, 2), Decimal::from(2_i64)),
    };
    let billing = request_billing(
        &snapshot,
        &snapshot.prices,
        factors(Decimal::new(15, 1), Decimal::ONE),
        Some(usage()),
        2_000,
        Some(500),
        RequestLogOutcome::Succeeded,
    );

    assert_eq!(decimal(billing.price.prices.input), Decimal::new(15, 1));
    assert_eq!(decimal(billing.price.prices.cached_input), Decimal::new(75, 2));
    assert_eq!(decimal(billing.price.prices.cache_write), Decimal::new(375, 3));
    assert_eq!(decimal(billing.price.prices.output), Decimal::from(3_i64));
    assert_eq!(billing.cost_amount.map(decimal), Some(Decimal::new(25875, 3)));
}

#[test]
fn tiers_apply_with_usage_and_peak_time_multipliers_are_flagged() {
    let snapshot = ModelPriceSnapshot {
        currency: "USD".into(),
        price_unit_tokens: 1,
        price_effective_at: 0,
        prices: prices(Decimal::ONE, Decimal::ONE, Decimal::ONE, Decimal::ONE),
    };
    let tier = prices(Decimal::from(3_i64), Decimal::from(2_i64), Decimal::from(4_i64), Decimal::from(5_i64));
    let mut peak = factors(Decimal::ONE, Decimal::from(2_i64));
    peak.time_multiplier = amount(Decimal::new(15, 1));
    let billing = request_billing(&snapshot, &tier, peak, Some(usage()), 100, Some(100), RequestLogOutcome::Succeeded);
    assert!(billing.peak_pricing);
    assert_eq!(decimal(billing.price.prices.input), Decimal::from(9_i64));
    assert_eq!(billing.output_tokens_per_second.map(decimal), Some(Decimal::from(4000_i64)));
    let without_usage = request_billing(&snapshot, &tier, peak, None, 100, None, RequestLogOutcome::Succeeded);
    assert_eq!(decimal(without_usage.price.prices.input), Decimal::from(3_i64));
    let huge = UsdAmount { mantissa: 79_228_162_514_264_337_593_543_950_335, scale: 0 };
    let mut overflowing = factors(Decimal::ONE, Decimal::ONE);
    overflowing.channel_multiplier = huge;
    overflowing.request_multiplier = huge;
    assert!(checked_request_billing(&snapshot, &tier, overflowing, None, 1, None, RequestLogOutcome::Succeeded).is_none());
    assert!(checked_request_billing(&snapshot, &tier, peak, Some(usage()), 1, None, RequestLogOutcome::Failed).is_some());
    let counts = RequestUsage { input_tokens: 1, cached_input_tokens: 0, cache_write_tokens: 0, output_tokens: 0, reasoning_tokens: 0 };
    assert_eq!(checked_cost(&counts, 0, &tier), None);
}
