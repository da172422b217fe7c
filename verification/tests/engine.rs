use tax_engine::config::Config;
use tax_engine::tax::{
    calculate, calculate_tax, get_superannuation_rate, get_tax_rates, CalculationRequest,
    CalculationResult, TaxError,
};

fn request(salary: i64, year: u32, calculate_beyond_max: bool) -> CalculationRequest {
    CalculationRequest { salary, year, calculate_beyond_max }
}

#[test]
fn zero_salary_yields_zero_outputs() {
    for year in [2023, 2024] {
        let result = calculate(&request(0, year, false));
        assert_eq!(
            result,
            Ok(CalculationResult { annual_post_tax_salary: 0, superannuation: 0 })
        );
        let result = calculate(&request(0, year, true));
        assert_eq!(
            result,
            Ok(CalculationResult { annual_post_tax_salary: 0, superannuation: 0 })
        );
    }
}

#[test]
fn negative_salary_is_invalid_input() {
    assert_eq!(calculate(&request(-1, 2023, false)), Err(TaxError::InvalidInput));
    assert_eq!(calculate(&request(-5_000_000, 1999, true)), Err(TaxError::InvalidInput));
}

#[test]
fn scenario_year_2023_salary_50000() {
    // 50,000 units of salary cross three brackets: 0.19 * (45000 - 18201)
    // plus base 5092 and 0.325 * (50000 - 45001), a tax of 11808.485 units,
    // leaving 38191.515, truncated to 38191; superannuation is
    // 50000 * 11.5% = 5750, below the cap.
    let result = calculate(&request(5_000_000, 2023, false));
    assert_eq!(
        result,
        Ok(CalculationResult { annual_post_tax_salary: 38191, superannuation: 5750 })
    );
}

#[test]
fn tax_for_50000_in_millicents() {
    assert_eq!(calculate_tax(5_000_000, 2023), 1_180_848_500);
    assert_eq!(calculate_tax(5_000_000, 2024), 1_180_848_500);
}

#[test]
fn unrecognized_year_falls_back_to_zero() {
    assert_eq!(calculate_tax(5_000_000, 1999), 0);
    assert_eq!(get_superannuation_rate(1999), 0);
    let result = calculate(&request(5_000_000, 1999, false));
    assert_eq!(
        result,
        Ok(CalculationResult { annual_post_tax_salary: 50000, superannuation: 0 })
    );
}

#[test]
fn cap_applies_unless_beyond_max() {
    // 300,000 units of salary: the raw superannuation 34500 passes the cap.
    let capped = calculate(&request(30_000_000, 2023, false)).unwrap();
    assert_eq!(capped.superannuation, 27500);
    assert_eq!(capped.annual_post_tax_salary, 108108);
    let beyond = calculate(&request(30_000_000, 2023, true)).unwrap();
    assert_eq!(beyond.superannuation, 34500);
    assert_eq!(beyond.annual_post_tax_salary, 108108);
}

#[test]
fn cap_boundary_truncates_to_the_cap() {
    // A raw superannuation of 27500.50085 units: above the cap, yet its
    // truncation equals the cap, so both flag values agree here.
    let capped = calculate(&request(23_913_479, 2023, false)).unwrap();
    let beyond = calculate(&request(23_913_479, 2023, true)).unwrap();
    assert_eq!(capped.superannuation, 27500);
    assert_eq!(beyond.superannuation, 27500);
}

#[test]
fn tax_never_decreases_with_salary() {
    let salaries: [i64; 7] =
        [0, 1_820_000, 1_820_200, 4_500_200, 5_000_000, 12_000_200, 20_000_000];
    let mut previous: i128 = 0;
    for salary in salaries {
        let tax = calculate_tax(salary, 2023);
        assert!(tax >= previous);
        previous = tax;
    }
}

#[test]
fn repeated_calls_agree() {
    let req = request(7_654_321, 2024, true);
    assert_eq!(calculate(&req), calculate(&req));
}

#[test]
fn recognized_years_share_the_table() {
    let in_2023 = calculate(&request(9_999_999, 2023, false));
    let in_2024 = calculate(&request(9_999_999, 2024, false));
    assert_eq!(in_2023, in_2024);
    assert_eq!(get_superannuation_rate(2023), 115);
    assert_eq!(get_superannuation_rate(2024), 115);
}

#[test]
fn salary_inside_the_tax_free_bracket() {
    // 18,200 units sit at the first bracket's upper limit: no bracket's
    // lower limit lies strictly below it except the tax-free one.
    let result = calculate(&request(1_820_000, 2023, false)).unwrap();
    assert_eq!(result.annual_post_tax_salary, 18200);
    assert_eq!(result.superannuation, 2093);
    // 18,201 units equal the second bracket's lower limit and still owe
    // nothing; one more unit of a cent starts the 19% bracket.
    assert_eq!(calculate_tax(1_820_100, 2023), 0);
    assert_eq!(calculate_tax(1_820_200, 2023), 19_000);
}

#[test]
fn bracket_tables_per_year() {
    let standard = get_tax_rates(2023);
    assert_eq!(standard.len(), 5);
    assert_eq!(standard[0].lower_limit, 0);
    assert_eq!(standard[0].upper_limit, Some(1_820_000));
    assert_eq!(standard[4].lower_limit, 18_000_100);
    assert_eq!(standard[4].upper_limit, None);
    assert_eq!(standard[4].marginal_rate, 450);
    assert_eq!(get_tax_rates(2024).len(), 5);
    assert_eq!(get_tax_rates(2025).len(), 0);
}

#[test]
fn config_keeps_the_address() {
    let config = Config::new(String::from("127.0.0.1:3000"));
    assert_eq!(config.server_address, "127.0.0.1:3000");
}
