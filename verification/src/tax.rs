//! The tax engine: progressive bracket tax and capped superannuation.
//!
//! All money is in integer cents; tax and superannuation rates are in
//! thousandths. Intermediate amounts are tracked in millicents (thousandths
//! of a cent), which keeps every product of a cent amount and a thousandths
//! rate exact. Final results are whole currency units, truncated toward zero.

use vstd::arithmetic::div_mod::{lemma_div_is_ordered, lemma_div_pos_is_pos};
use vstd::prelude::*;

verus! {

/// Millicents per whole currency unit: 100 cents, each worth 1000 millicents.
pub const MILLICENTS_PER_UNIT: i64 = 100_000;

/// The superannuation cap, 27500 whole units, in millicents.
pub const SUPER_CAP_MILLICENTS: i64 = 2_750_000_000;

/// Upper bound on the `base_tax` of any well-formed bracket, in cents.
pub const MAX_BASE_TAX_CENTS: i64 = 100_000_000;

/// Most brackets any year's table holds.
pub const MAX_BRACKETS: usize = 5;

/// One tax bracket of a year's table.
///
/// `lower_limit` and the optional `upper_limit` delimit the salary range the
/// bracket covers, in cents. `base_tax` (cents) is the tax accumulated below
/// `lower_limit`, and `marginal_rate` (thousandths) applies to income inside
/// the range. `superannuation_rate` (thousandths of salary) is the year's
/// flat superannuation rate, repeated on each bracket of the table.
#[derive(Clone, Copy, Debug)]
pub struct TaxRate {
    pub lower_limit: i64,
    pub upper_limit: Option<i64>,
    pub base_tax: i64,
    pub marginal_rate: i64,
    pub superannuation_rate: i64,
}

/// The salary capped at the bracket's upper limit, if it has one.
pub open spec fn bracket_capped_salary(bracket: TaxRate, salary: int) -> int {
    match bracket.upper_limit {
        Some(upper) => if salary <= upper { salary } else { upper as int },
        None => salary,
    }
}

/// The bracket's contribution to the total tax, in millicents.
///
/// A bracket contributes only when the salary lies strictly above its lower
/// limit; it then contributes its full `base_tax` plus its marginal rate on
/// the income between its limits. Every qualifying bracket contributes its
/// `base_tax`, so amounts below a bracket are counted once per bracket above
/// them: that is the engine's contract, reproduced deliberately.
pub open spec fn bracket_tax_millicents(bracket: TaxRate, salary: int) -> int {
    if salary > bracket.lower_limit {
        bracket.base_tax * 1000 + (bracket_capped_salary(bracket, salary) - bracket.lower_limit)
            * bracket.marginal_rate
    } else {
        0
    }
}

/// Total tax of a bracket table, in millicents: the sum of every bracket's
/// contribution.
pub open spec fn table_tax_millicents(brackets: Seq<TaxRate>, salary: int) -> int
    decreases brackets.len(),
{
    if brackets.len() == 0 {
        0
    } else {
        table_tax_millicents(brackets.drop_last(), salary) + bracket_tax_millicents(
            brackets.last(),
            salary,
        )
    }
}

/// A single bracket's invariant: non-negative limits, base tax and rate, the
/// base tax and the rate bounded, and the upper limit, when present, above
/// the lower one.
pub open spec fn bracket_well_formed(bracket: TaxRate) -> bool {
    &&& 0 <= bracket.lower_limit
    &&& 0 <= bracket.base_tax <= MAX_BASE_TAX_CENTS
    &&& 0 <= bracket.marginal_rate <= 1000
    &&& 0 <= bracket.superannuation_rate <= 1000
    &&& match bracket.upper_limit {
        Some(upper) => bracket.lower_limit < upper,
        None => true,
    }
}

/// Every bracket of the table is well formed.
pub open spec fn brackets_well_formed(brackets: Seq<TaxRate>) -> bool {
    forall|i: int| 0 <= i < brackets.len() ==> bracket_well_formed(#[trigger] brackets[i])
}

/// A year's table invariant: well-formed brackets, in strictly ascending
/// order of lower limit, all bounded above except the last, which is
/// open-ended.
pub open spec fn table_well_formed(brackets: Seq<TaxRate>) -> bool {
    &&& brackets_well_formed(brackets)
    &&& forall|i: int, j: int|
        #![trigger brackets[i], brackets[j]]
        0 <= i < j < brackets.len() ==> brackets[i].lower_limit < brackets[j].lower_limit
    &&& forall|i: int| 0 <= i < brackets.len() - 1 ==> (#[trigger] brackets[i]).upper_limit is Some
    &&& brackets.len() > 0 ==> brackets.last().upper_limit is None
}

/// Whether the registry holds a table for the year.
pub open spec fn year_recognized(year: u32) -> bool {
    year == 2023 || year == 2024
}

/// The bracket table shared by the recognized years: thresholds 18,200 /
/// 45,000 / 120,000 / 180,000 whole units, in cents, with a superannuation
/// rate of 11.5% (115 thousandths).
pub open spec fn standard_brackets() -> Seq<TaxRate> {
    seq![
        TaxRate {
            lower_limit: 0,
            upper_limit: Some(1_820_000),
            base_tax: 0,
            marginal_rate: 0,
            superannuation_rate: 115,
        },
        TaxRate {
            lower_limit: 1_820_100,
            upper_limit: Some(4_500_000),
            base_tax: 0,
            marginal_rate: 190,
            superannuation_rate: 115,
        },
        TaxRate {
            lower_limit: 4_500_100,
            upper_limit: Some(12_000_000),
            base_tax: 509_200,
            marginal_rate: 325,
            superannuation_rate: 115,
        },
        TaxRate {
            lower_limit: 12_000_100,
            upper_limit: Some(18_000_000),
            base_tax: 2_946_700,
            marginal_rate: 370,
            superannuation_rate: 115,
        },
        TaxRate {
            lower_limit: 18_000_100,
            upper_limit: None,
            base_tax: 5_166_700,
            marginal_rate: 450,
            superannuation_rate: 115,
        },
    ]
}

/// The registry: the standard table for recognized years, and the empty
/// table — zero tax — as the silent fallback for every other year.
pub open spec fn spec_tax_table(year: u32) -> Seq<TaxRate> {
    if year_recognized(year) {
        standard_brackets()
    } else {
        Seq::empty()
    }
}

/// The year's flat superannuation rate, in thousandths of salary; zero for
/// unrecognized years.
pub open spec fn spec_superannuation_rate(year: u32) -> int {
    if year_recognized(year) {
        115
    } else {
        0
    }
}

/// Every year's table satisfies the table invariant and stays within the
/// bracket-count bound.
pub proof fn lemma_table_well_formed(year: u32)
    ensures
        table_well_formed(spec_tax_table(year)),
        spec_tax_table(year).len() <= MAX_BRACKETS,
{
    if year_recognized(year) {
        let brackets = standard_brackets();
        assert(bracket_well_formed(brackets[0]));
        assert(bracket_well_formed(brackets[1]));
        assert(bracket_well_formed(brackets[2]));
        assert(bracket_well_formed(brackets[3]));
        assert(bracket_well_formed(brackets[4]));
    }
}

/// Returns the bracket table for the year: the standard brackets for
/// recognized years, an empty table for every other year.
pub fn get_tax_rates(year: u32) -> (rates: Vec<TaxRate>)
    ensures
        rates@ == spec_tax_table(year),
{
    let mut rates: Vec<TaxRate> = Vec::new();
    if year == 2023 || year == 2024 {
        rates.push(
            TaxRate {
                lower_limit: 0,
                upper_limit: Some(1_820_000),
                base_tax: 0,
                marginal_rate: 0,
                superannuation_rate: 115,
            },
        );
        rates.push(
            TaxRate {
                lower_limit: 1_820_100,
                upper_limit: Some(4_500_000),
                base_tax: 0,
                marginal_rate: 190,
                superannuation_rate: 115,
            },
        );
        rates.push(
            TaxRate {
                lower_limit: 4_500_100,
                upper_limit: Some(12_000_000),
                base_tax: 509_200,
                marginal_rate: 325,
                superannuation_rate: 115,
            },
        );
        rates.push(
            TaxRate {
                lower_limit: 12_000_100,
                upper_limit: Some(18_000_000),
                base_tax: 2_946_700,
                marginal_rate: 370,
                superannuation_rate: 115,
            },
        );
        rates.push(
            TaxRate {
                lower_limit: 18_000_100,
                upper_limit: None,
                base_tax: 5_166_700,
                marginal_rate: 450,
                superannuation_rate: 115,
            },
        );
        proof {
            assert(rates@ =~= standard_brackets());
        }
    } else {
        proof {
            assert(rates@ =~= Seq::<TaxRate>::empty());
        }
    }
    rates
}

/// Upper bound, in millicents, on what one well-formed bracket can
/// contribute to the tax on the given salary.
pub open spec fn per_bracket_bound_millicents(salary: int) -> int {
    MAX_BASE_TAX_CENTS * 1000 + (if salary >= 0 {
        salary
    } else {
        0
    }) * 1000
}

/// Upper bound, in millicents, on the total tax of any year's table on the
/// given salary.
pub open spec fn tax_millicents_bound(salary: int) -> int {
    MAX_BRACKETS * per_bracket_bound_millicents(salary)
}

/// Total tax on the salary for the year, in millicents.
pub open spec fn spec_tax_millicents(year: u32, salary: int) -> int {
    table_tax_millicents(spec_tax_table(year), salary)
}

/// Computes the total tax owed on the salary (cents) for the year, in
/// millicents: the sum, over every bracket the salary lies strictly above,
/// of the bracket's base tax plus its marginal rate on the income between
/// its limits. Zero for unrecognized years.
pub fn calculate_tax(salary: i64, year: u32) -> (tax: i128)
    ensures
        tax == spec_tax_millicents(year, salary as int),
        0 <= tax <= tax_millicents_bound(salary as int),
{
    let rates: Vec<TaxRate> = get_tax_rates(year);
    proof {
        lemma_table_well_formed(year);
    }
    let mut tax: i128 = 0;
    let mut i: usize = 0;
    while i < rates.len()
        invariant
            i <= rates.len(),
            rates@ == spec_tax_table(year),
            table_well_formed(rates@),
            rates@.len() <= MAX_BRACKETS,
            tax == table_tax_millicents(rates@.take(i as int), salary as int),
            0 <= tax <= i * per_bracket_bound_millicents(salary as int),
        decreases rates.len() - i,
    {
        let bracket = rates[i];
        assert(bracket_well_formed(bracket));
        let ghost prefix = rates@.take(i as int);
        let ghost longer = rates@.take(i as int + 1);
        proof {
            assert(longer.drop_last() =~= prefix);
            assert((i + 1) * per_bracket_bound_millicents(salary as int) == i
                * per_bracket_bound_millicents(salary as int) + per_bracket_bound_millicents(
                salary as int,
            )) by (nonlinear_arith);
            assert(i * per_bracket_bound_millicents(salary as int) <= MAX_BRACKETS
                * per_bracket_bound_millicents(salary as int)) by (nonlinear_arith)
                requires
                    0 <= i <= MAX_BRACKETS,
                    per_bracket_bound_millicents(salary as int) >= 0,
            ;
        }
        if salary > bracket.lower_limit {
            let capped: i64 = match bracket.upper_limit {
                Some(upper) => if salary <= upper {
                    salary
                } else {
                    upper
                },
                None => salary,
            };
            assert(capped as int == bracket_capped_salary(bracket, salary as int));
            assert(bracket.lower_limit < capped <= salary);
            let taxable: i128 = capped as i128 - bracket.lower_limit as i128;
            proof {
                assert(0 <= taxable * bracket.marginal_rate <= salary * 1000) by (nonlinear_arith)
                    requires
                        0 <= taxable <= salary,
                        0 <= bracket.marginal_rate <= 1000,
                ;
            }
            let term: i128 = (bracket.base_tax as i128) * 1000 + taxable * (
            bracket.marginal_rate as i128);
            proof {
                assert(0 <= term <= per_bracket_bound_millicents(salary as int));
                assert(term == bracket_tax_millicents(bracket, salary as int));
            }
            tax = tax + term;
        }
        assert(tax == table_tax_millicents(longer, salary as int));
        i = i + 1;
    }
    proof {
        assert(rates@.take(rates@.len() as int) =~= rates@);
        assert(i * per_bracket_bound_millicents(salary as int) <= MAX_BRACKETS
            * per_bracket_bound_millicents(salary as int)) by (nonlinear_arith)
            requires
                0 <= i <= MAX_BRACKETS,
                per_bracket_bound_millicents(salary as int) >= 0,
        ;
    }
    tax
}

/// Returns the year's flat superannuation rate in thousandths of salary:
/// 115 (that is, 11.5%) for recognized years, 0 otherwise.
pub fn get_superannuation_rate(year: u32) -> (rate: i64)
    ensures
        rate == spec_superannuation_rate(year),
{
    if year == 2023 || year == 2024 {
        115
    } else {
        0
    }
}

/// Integer division truncated toward zero, as the engine rounds: fractional
/// cents are discarded, for negative amounts as well as positive ones.
pub open spec fn div_toward_zero(amount: int, divisor: int) -> int {
    if amount >= 0 {
        amount / divisor
    } else {
        -((-amount) / divisor)
    }
}

/// Superannuation owed on the salary before the cap, in millicents: the
/// salary (cents) times the year's rate (thousandths).
pub open spec fn spec_raw_superannuation_millicents(year: u32, salary: int) -> int {
    salary * spec_superannuation_rate(year)
}

/// Superannuation owed on the salary, in millicents: the raw amount, clamped
/// to the cap unless the caller asked to calculate beyond it.
pub open spec fn spec_superannuation_millicents(year: u32, salary: int, beyond_max: bool) -> int {
    let raw: int = spec_raw_superannuation_millicents(year, salary);
    if !beyond_max && raw > SUPER_CAP_MILLICENTS {
        SUPER_CAP_MILLICENTS as int
    } else {
        raw
    }
}

/// Superannuation in whole currency units, truncated toward zero.
pub open spec fn spec_superannuation_units(year: u32, salary: int, beyond_max: bool) -> int {
    div_toward_zero(
        spec_superannuation_millicents(year, salary, beyond_max),
        MILLICENTS_PER_UNIT as int,
    )
}

/// Post-tax salary in whole currency units: salary minus tax, truncated
/// toward zero.
pub open spec fn spec_post_tax_units(year: u32, salary: int) -> int {
    div_toward_zero(salary * 1000 - spec_tax_millicents(year, salary), MILLICENTS_PER_UNIT as int)
}

/// One calculation's input: a salary in cents, a tax year, and whether the
/// superannuation cap is to be ignored.
#[derive(Clone, Copy, Debug, PartialEq, Eq, Structural)]
pub struct CalculationRequest {
    pub salary: i64,
    pub year: u32,
    pub calculate_beyond_max: bool,
}

/// One calculation's output, in whole currency units.
#[derive(Clone, Copy, Debug, PartialEq, Eq, Structural)]
pub struct CalculationResult {
    pub annual_post_tax_salary: i64,
    pub superannuation: i64,
}

/// The engine's one error: the request's salary was negative.
#[derive(Clone, Copy, Debug, PartialEq, Eq, Structural)]
pub enum TaxError {
    InvalidInput,
}

/// Converts an amount of millicents to whole currency units, truncating
/// toward zero.
fn units_from_millicents(amount: i128) -> (units: i64)
    requires
        -0x2000_0000_0000_0000_0000 <= amount <= 0x2000_0000_0000_0000_0000,
    ensures
        units == div_toward_zero(amount as int, MILLICENTS_PER_UNIT as int),
{
    if amount >= 0 {
        let quotient: u128 = (amount as u128) / 100_000;
        proof {
            lemma_div_pos_is_pos(amount as int, 100_000);
            lemma_div_is_ordered(amount as int, 0x2000_0000_0000_0000_0000, 100_000);
        }
        quotient as i64
    } else {
        let negated: u128 = (-amount) as u128;
        let quotient: u128 = negated / 100_000;
        proof {
            lemma_div_pos_is_pos(negated as int, 100_000);
            lemma_div_is_ordered(negated as int, 0x2000_0000_0000_0000_0000, 100_000);
        }
        -(quotient as i64)
    }
}

/// Runs one calculation: rejects a negative salary, otherwise computes the
/// bracket tax and the capped superannuation for the request's year and
/// returns both results in whole currency units, truncated toward zero.
///
/// The output is pinned to a function of the request alone, so a repeated
/// call returns the same result; success is owed on every non-negative
/// salary, whatever the year.
pub fn calculate(request: &CalculationRequest) -> (result: Result<CalculationResult, TaxError>)
    ensures
        request.salary < 0 <==> result is Err,
        result is Err ==> result == Result::<CalculationResult, TaxError>::Err(
            TaxError::InvalidInput,
        ),
        result is Ok ==> result->Ok_0.annual_post_tax_salary == spec_post_tax_units(
            request.year,
            request.salary as int,
        ),
        result is Ok ==> result->Ok_0.superannuation == spec_superannuation_units(
            request.year,
            request.salary as int,
            request.calculate_beyond_max,
        ),
{
    if request.salary < 0 {
        return Err(TaxError::InvalidInput);
    }
    let tax: i128 = calculate_tax(request.salary, request.year);
    let rate: i64 = get_superannuation_rate(request.year);
    proof {
        assert(0 <= rate <= 1000);
        assert(0 <= (request.salary as int) * (rate as int) <= (request.salary as int) * 1000)
            by (nonlinear_arith)
            requires
                0 <= request.salary,
                0 <= rate <= 1000,
        ;
    }
    let raw_super: i128 = (request.salary as i128) * (rate as i128);
    let capped_super: i128 = if !request.calculate_beyond_max && raw_super > (
    SUPER_CAP_MILLICENTS as i128) {
        SUPER_CAP_MILLICENTS as i128
    } else {
        raw_super
    };
    let post_tax_millicents: i128 = (request.salary as i128) * 1000 - tax;
    let annual_post_tax_salary: i64 = units_from_millicents(post_tax_millicents);
    let superannuation: i64 = units_from_millicents(capped_super);
    Ok(CalculationResult { annual_post_tax_salary, superannuation })
}

/// A table of well-formed brackets taxes a non-positive salary at zero: no
/// bracket's lower limit lies strictly below such a salary.
proof fn lemma_table_tax_nonpos_salary(brackets: Seq<TaxRate>, salary: int)
    requires
        brackets_well_formed(brackets),
        salary <= 0,
    ensures
        table_tax_millicents(brackets, salary) == 0,
    decreases brackets.len(),
{
    if brackets.len() > 0 {
        assert(bracket_well_formed(brackets[brackets.len() - 1]));
        assert(bracket_tax_millicents(brackets.last(), salary) == 0);
        assert forall|i: int|
            0 <= i < brackets.drop_last().len() implies bracket_well_formed(
            #[trigger] brackets.drop_last()[i],
        ) by {
            assert(brackets.drop_last()[i] == brackets[i]);
        }
        lemma_table_tax_nonpos_salary(brackets.drop_last(), salary);
    }
}

/// A salary of zero owes zero tax and zero superannuation, whatever the year
/// and whether or not the cap is ignored.
pub proof fn lemma_zero_salary(year: u32, beyond_max: bool)
    ensures
        spec_tax_millicents(year, 0) == 0,
        spec_post_tax_units(year, 0) == 0,
        spec_superannuation_units(year, 0, beyond_max) == 0,
{
    lemma_table_well_formed(year);
    lemma_table_tax_nonpos_salary(spec_tax_table(year), 0);
}

/// One well-formed bracket's tax contribution never decreases as the salary
/// grows.
proof fn lemma_bracket_tax_monotone(bracket: TaxRate, lower_salary: int, higher_salary: int)
    requires
        bracket_well_formed(bracket),
        lower_salary <= higher_salary,
    ensures
        bracket_tax_millicents(bracket, lower_salary) <= bracket_tax_millicents(
            bracket,
            higher_salary,
        ),
{
    if higher_salary > bracket.lower_limit {
        let capped_high: int = bracket_capped_salary(bracket, higher_salary);
        assert(bracket.lower_limit < capped_high);
        if lower_salary > bracket.lower_limit {
            let capped_low: int = bracket_capped_salary(bracket, lower_salary);
            assert(capped_low <= capped_high);
            assert((capped_low - bracket.lower_limit) * bracket.marginal_rate <= (capped_high
                - bracket.lower_limit) * bracket.marginal_rate) by (nonlinear_arith)
                requires
                    capped_low - bracket.lower_limit <= capped_high - bracket.lower_limit,
                    bracket.marginal_rate >= 0,
            ;
        } else {
            assert(0 <= (capped_high - bracket.lower_limit) * bracket.marginal_rate)
                by (nonlinear_arith)
                requires
                    capped_high - bracket.lower_limit >= 0,
                    bracket.marginal_rate >= 0,
            ;
        }
    }
}

/// A table of well-formed brackets taxes monotonically: a higher salary never
/// owes less tax.
proof fn lemma_table_tax_monotone(brackets: Seq<TaxRate>, lower_salary: int, higher_salary: int)
    requires
        brackets_well_formed(brackets),
        lower_salary <= higher_salary,
    ensures
        table_tax_millicents(brackets, lower_salary) <= table_tax_millicents(
            brackets,
            higher_salary,
        ),
    decreases brackets.len(),
{
    if brackets.len() > 0 {
        assert(bracket_well_formed(brackets[brackets.len() - 1]));
        lemma_bracket_tax_monotone(brackets.last(), lower_salary, higher_salary);
        assert forall|i: int|
            0 <= i < brackets.drop_last().len() implies bracket_well_formed(
            #[trigger] brackets.drop_last()[i],
        ) by {
            assert(brackets.drop_last()[i] == brackets[i]);
        }
        lemma_table_tax_monotone(brackets.drop_last(), lower_salary, higher_salary);
    }
}

/// For a fixed year, increasing the salary never decreases the computed tax.
pub proof fn lemma_tax_monotone_in_salary(year: u32, lower_salary: int, higher_salary: int)
    requires
        lower_salary <= higher_salary,
    ensures
        spec_tax_millicents(year, lower_salary) <= spec_tax_millicents(year, higher_salary),
{
    lemma_table_well_formed(year);
    lemma_table_tax_monotone(spec_tax_table(year), lower_salary, higher_salary);
}

/// The cap law. With the cap in force the superannuation never exceeds
/// 27500 units, and once the raw amount passes the cap it equals 27500
/// exactly. With the cap ignored the superannuation is the raw amount
/// truncated to units, and exceeds 27500 once the raw amount reaches
/// 27501 units.
pub proof fn lemma_superannuation_cap(year: u32, salary: int)
    ensures
        spec_superannuation_units(year, salary, false) <= 27500,
        spec_raw_superannuation_millicents(year, salary) > SUPER_CAP_MILLICENTS
            ==> spec_superannuation_units(year, salary, false) == 27500,
        spec_superannuation_units(year, salary, true) == div_toward_zero(
            spec_raw_superannuation_millicents(year, salary),
            MILLICENTS_PER_UNIT as int,
        ),
        spec_raw_superannuation_millicents(year, salary) >= 27501 * (MILLICENTS_PER_UNIT as int)
            ==> spec_superannuation_units(year, salary, true) > 27500,
{
    let raw: int = spec_raw_superannuation_millicents(year, salary);
    let capped: int = spec_superannuation_millicents(year, salary, false);
    if capped >= 0 {
        lemma_div_is_ordered(capped, SUPER_CAP_MILLICENTS as int, MILLICENTS_PER_UNIT as int);
    } else {
        lemma_div_pos_is_pos(-capped, MILLICENTS_PER_UNIT as int);
    }
    if raw >= 27501 * (MILLICENTS_PER_UNIT as int) {
        lemma_div_is_ordered(27501 * (MILLICENTS_PER_UNIT as int), raw, MILLICENTS_PER_UNIT as int);
    }
}

/// The fallback for a year outside the registry: zero tax and zero
/// superannuation regardless of salary, so the post-tax salary is the salary
/// itself truncated to whole units.
pub proof fn lemma_unrecognized_year(year: u32, salary: int, beyond_max: bool)
    requires
        !year_recognized(year),
    ensures
        spec_tax_millicents(year, salary) == 0,
        spec_superannuation_units(year, salary, beyond_max) == 0,
        spec_post_tax_units(year, salary) == div_toward_zero(
            salary * 1000,
            MILLICENTS_PER_UNIT as int,
        ),
{
    assert(spec_tax_table(year).len() == 0);
    assert(spec_raw_superannuation_millicents(year, salary) == 0);
}

/// The engine is a pure function of its input: any two results that satisfy
/// `calculate`'s contract for the same request are equal, so calling
/// `calculate` twice with identical input yields identical output.
pub proof fn lemma_calculate_deterministic(
    request: CalculationRequest,
    first: Result<CalculationResult, TaxError>,
    second: Result<CalculationResult, TaxError>,
)
    requires
        request.salary < 0 <==> first is Err,
        first is Err ==> first == Result::<CalculationResult, TaxError>::Err(TaxError::InvalidInput),
        first is Ok ==> first->Ok_0.annual_post_tax_salary == spec_post_tax_units(
            request.year,
            request.salary as int,
        ),
        first is Ok ==> first->Ok_0.superannuation == spec_superannuation_units(
            request.year,
            request.salary as int,
            request.calculate_beyond_max,
        ),
        request.salary < 0 <==> second is Err,
        second is Err ==> second == Result::<CalculationResult, TaxError>::Err(
            TaxError::InvalidInput,
        ),
        second is Ok ==> second->Ok_0.annual_post_tax_salary == spec_post_tax_units(
            request.year,
            request.salary as int,
        ),
        second is Ok ==> second->Ok_0.superannuation == spec_superannuation_units(
            request.year,
            request.salary as int,
            request.calculate_beyond_max,
        ),
    ensures
        first == second,
{
    if request.salary >= 0 {
        assert(first->Ok_0 == second->Ok_0);
    }
}

} // verus!
