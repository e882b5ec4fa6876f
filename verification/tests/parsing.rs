//! Quick-add parsing: marker extraction, keyword fallbacks, amount and
//! name rules, and the widget-level behavior around them.

use rusted_budget::items::CostCycle;
use rusted_budget::items::ExpenceCategory;
use rusted_budget::items::IncomeCategory;
use rusted_budget::parser::parse_quick_add_expense;
use rusted_budget::parser::parse_quick_add_income;
use rusted_budget::quick_add::QuickAdd;
use rusted_budget::quick_add::QuickAddIncome;

#[test]
fn marked_category_and_plain_amount() {
    let item = parse_quick_add_expense("Rent 1200 @housing");
    assert_eq!(item.what, "Rent");
    assert_eq!(item.cost.millis, 1_200_000);
    assert_eq!(item.cost_cycle, CostCycle::Monthly);
    assert_eq!(item.cost_category, ExpenceCategory::Housing);
    assert_eq!(item.id, 0);
    assert!(item.tags.is_none());
}

#[test]
fn marked_cycle_and_category() {
    let item = parse_quick_add_expense("Coffee 5 \\daily @dining");
    assert_eq!(item.what, "Coffee");
    assert_eq!(item.cost.millis, 5_000);
    assert_eq!(item.cost_cycle, CostCycle::Daily);
    assert_eq!(item.cost_category, ExpenceCategory::DiningOut);
}

#[test]
fn keyword_fallbacks_strip_cycle_word() {
    let item = parse_quick_add_expense("Netflix monthly");
    assert_eq!(item.what, "Netflix");
    assert_eq!(item.cost.millis, 0);
    assert_eq!(item.cost_cycle, CostCycle::Monthly);
    assert_eq!(item.cost_category, ExpenceCategory::Entertainment);
}

#[test]
fn empty_input_gives_all_defaults() {
    let item = parse_quick_add_expense("");
    assert_eq!(item.what, "New Item");
    assert_eq!(item.cost.millis, 0);
    assert_eq!(item.cost_cycle, CostCycle::Monthly);
    assert_eq!(item.cost_category, ExpenceCategory::Other);
}

#[test]
fn last_numeric_token_wins() {
    // With two numeric tokens the later one silently overrides the
    // earlier: only "Lunch" is left for the name.
    let item = parse_quick_add_expense("5 10 Lunch");
    assert_eq!(item.cost.millis, 10_000);
    assert_eq!(item.what, "Lunch");
}

#[test]
fn currency_signs_are_stripped_from_amounts() {
    let item = parse_quick_add_expense("Books $25");
    assert_eq!(item.cost.millis, 25_000);
    assert_eq!(item.what, "Books");
    let euro = parse_quick_add_expense("Books €25");
    assert_eq!(euro.cost.millis, 25_000);
}

#[test]
fn decimal_amounts_are_held_exactly() {
    let item = parse_quick_add_expense("Tea 4.5");
    assert_eq!(item.cost.millis, 4_500);
    let item = parse_quick_add_expense("Tea 4.55");
    assert_eq!(item.cost.millis, 4_550);
    let item = parse_quick_add_expense("Tea 4.555");
    assert_eq!(item.cost.millis, 4_555);
}

#[test]
fn negative_amount_is_accepted() {
    let item = parse_quick_add_expense("Refund -12");
    assert_eq!(item.cost.millis, -12_000);
    assert_eq!(item.what, "Refund");
}

#[test]
fn overlong_fraction_is_part_of_the_name() {
    // Four fractional digits no longer parse as an amount, so the token
    // joins the name.
    let item = parse_quick_add_expense("x 1.2345");
    assert_eq!(item.cost.millis, 0);
    assert_eq!(item.what, "X 1.2345");
}

#[test]
fn amount_over_the_limit_is_part_of_the_name() {
    let item = parse_quick_add_expense("x 1000000001");
    assert_eq!(item.cost.millis, 0);
    assert_eq!(item.what, "X 1000000001");
    let item = parse_quick_add_expense("x 1000000000");
    assert_eq!(item.cost.millis, 1_000_000_000_000);
    assert_eq!(item.what, "X");
}

#[test]
fn unknown_cycle_marker_means_monthly() {
    let item = parse_quick_add_expense("Gym 30 \\fortnight");
    assert_eq!(item.cost_cycle, CostCycle::Monthly);
    assert_eq!(item.what, "Gym");
    assert_eq!(item.cost.millis, 30_000);
}

#[test]
fn short_cycle_markers_work() {
    assert_eq!(parse_quick_add_expense("a \\d").cost_cycle, CostCycle::Daily);
    assert_eq!(parse_quick_add_expense("a \\w").cost_cycle, CostCycle::Weekly);
    assert_eq!(parse_quick_add_expense("a \\m").cost_cycle, CostCycle::Monthly);
    assert_eq!(parse_quick_add_expense("a \\y").cost_cycle, CostCycle::Yearly);
    assert_eq!(parse_quick_add_expense("a \\annual").cost_cycle, CostCycle::Yearly);
}

#[test]
fn first_marker_of_each_kind_wins() {
    let item = parse_quick_add_expense("a \\weekly \\daily @shop @housing");
    assert_eq!(item.cost_cycle, CostCycle::Weekly);
    assert_eq!(item.cost_category, ExpenceCategory::Shopping);
    assert_eq!(item.what, "A");
}

#[test]
fn unknown_category_marker_means_other() {
    let item = parse_quick_add_expense("a 1 @whatever");
    assert_eq!(item.cost_category, ExpenceCategory::Other);
}

#[test]
fn category_keyword_fallback_priority() {
    // "rent" is checked before "car": housing wins when both occur.
    let item = parse_quick_add_expense("car rent 100");
    assert_eq!(item.cost_category, ExpenceCategory::Housing);
    let item = parse_quick_add_expense("car wash 20");
    assert_eq!(item.cost_category, ExpenceCategory::Transportation);
}

#[test]
fn uppercase_input_is_lowered_before_matching() {
    let item = parse_quick_add_expense("RENT 1200 @HOUSING \\YEARLY");
    assert_eq!(item.cost_category, ExpenceCategory::Housing);
    assert_eq!(item.cost_cycle, CostCycle::Yearly);
    assert_eq!(item.what, "Rent");
    assert_eq!(item.cost.millis, 1_200_000);
}

#[test]
fn annual_keyword_fallback_strips_both_words() {
    let item = parse_quick_add_expense("insurance annual 300");
    assert_eq!(item.cost_cycle, CostCycle::Yearly);
    assert_eq!(item.cost_category, ExpenceCategory::Insurance);
    assert_eq!(item.what, "Insurance");
    assert_eq!(item.cost.millis, 300_000);
}

#[test]
fn income_marked_category() {
    let item = parse_quick_add_income("Paycheck 5000 @salary");
    assert_eq!(item.source, "Paycheck");
    assert_eq!(item.amount.millis, 5_000_000);
    assert_eq!(item.income_cycle, CostCycle::Monthly);
    assert_eq!(item.category, IncomeCategory::Salary);
}

#[test]
fn income_keyword_fallback() {
    let item = parse_quick_add_income("stock dividends 120 \\yearly");
    assert_eq!(item.category, IncomeCategory::Investment);
    assert_eq!(item.income_cycle, CostCycle::Yearly);
    assert_eq!(item.amount.millis, 120_000);
}

#[test]
fn income_unknown_marker_means_other() {
    let item = parse_quick_add_income("thing 5 @mystery");
    assert_eq!(item.category, IncomeCategory::Other);
}

#[test]
fn widget_submit_rejects_blank_input() {
    let mut w = QuickAdd::new();
    w.input = "   ".to_string();
    assert!(w.submit().is_none());
    assert_eq!(w.input, "   ");
    let mut wi = QuickAddIncome::new();
    wi.input = String::new();
    assert!(wi.submit().is_none());
}

#[test]
fn widget_submit_parses_and_clears() {
    let mut w = QuickAdd::new();
    w.input = "Rent 1200 @housing".to_string();
    let item = w.submit().unwrap();
    assert_eq!(item.what, "Rent");
    assert_eq!(item.cost.millis, 1_200_000);
    assert_eq!(w.input, "");
}

#[test]
fn category_suggestions_filter_by_prefix() {
    let mut w = QuickAdd::new();
    w.input = "Rent 1200 @h".to_string();
    w.update_suggestions();
    assert!(w.show_category_suggestions);
    assert_eq!(w.filtered_categories, vec!["housing", "healthcare"]);
    assert!(!w.show_cycle_suggestions);
}

#[test]
fn cycle_suggestions_filter_by_prefix() {
    let mut w = QuickAdd::new();
    w.input = "Gym \\w".to_string();
    w.update_suggestions();
    assert!(w.show_cycle_suggestions);
    assert_eq!(w.filtered_cycles, vec!["weekly", "w"]);
}

#[test]
fn no_marker_hides_suggestions() {
    let mut w = QuickAdd::new();
    w.input = "Rent 1200".to_string();
    w.update_suggestions();
    assert!(!w.show_category_suggestions);
    assert!(!w.show_cycle_suggestions);
}

#[test]
fn income_suggestions_use_income_names() {
    let mut w = QuickAddIncome::new();
    w.input = "Job @s".to_string();
    w.update_suggestions();
    assert_eq!(w.filtered_categories, vec!["salary", "sidehustle"]);
}

#[test]
fn applying_a_suggestion_completes_the_marker_word() {
    let mut w = QuickAdd::new();
    w.input = "Rent 1200 @h".to_string();
    w.apply_category_suggestion("housing");
    assert_eq!(w.input, "Rent 1200 @housing ");
    assert!(!w.show_category_suggestions);
    let mut w2 = QuickAdd::new();
    w2.input = "Gym \\d".to_string();
    w2.apply_cycle_suggestion("daily");
    assert_eq!(w2.input, "Gym \\daily ");
}

#[test]
fn applying_a_suggestion_without_marker_starts_one() {
    let mut w = QuickAdd::new();
    w.input = String::new();
    w.apply_category_suggestion("savings");
    assert_eq!(w.input, "@savings ");
}
