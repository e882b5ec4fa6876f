//! Normalization figures, aggregate totals, the event reducer, table
//! sorting and tag handling.

use rusted_budget::items::Amount;
use rusted_budget::items::CostCycle;
use rusted_budget::items::CostItem;
use rusted_budget::items::ExpenceCategory;
use rusted_budget::items::IncomeItem;
use rusted_budget::items::normalize_tag;
use rusted_budget::normalize::category_totals;
use rusted_budget::normalize::filter_by_cycle;
use rusted_budget::normalize::income_amount_sum;
use rusted_budget::normalize::monthly_total;
use rusted_budget::normalize::normalize_monthly;
use rusted_budget::normalize::percent_of_income;
use rusted_budget::store::AppEvent;
use rusted_budget::store::AppView;
use rusted_budget::store::RustedBudgetAppState;
use rusted_budget::table::CostItemTable;
use rusted_budget::table::SortColumn;
use rusted_budget::table::SortOrder;

fn expense(name: &str, units: i64, cycle: CostCycle, cat: ExpenceCategory) -> CostItem {
    CostItem {
        id: 0,
        what: name.to_string(),
        cost: Amount::from_units(units),
        cost_cycle: cycle,
        cost_category: cat,
        tags: None,
    }
}

#[test]
fn monthly_amount_is_identity() {
    // One unit on a monthly cycle is exactly one unit: 1000 thousandths
    // at 3000 scaled units each.
    let a = Amount::from_units(1);
    assert_eq!(normalize_monthly(&a, &CostCycle::Monthly), 3_000_000);
    let b = Amount::from_millis(4_500);
    assert_eq!(normalize_monthly(&b, &CostCycle::Monthly), 4_500 * 3_000);
}

#[test]
fn yearly_amount_is_an_exact_twelfth() {
    // 12 units a year is exactly 1 unit a month, with no rounding even
    // for amounts 12 does not divide: the scale absorbs the division.
    let a = Amount::from_units(12);
    assert_eq!(normalize_monthly(&a, &CostCycle::Yearly), 3_000_000);
    let b = Amount::from_units(1);
    assert_eq!(normalize_monthly(&b, &CostCycle::Yearly), 250_000);
    assert_eq!(12 * normalize_monthly(&b, &CostCycle::Yearly), 3_000_000);
}

#[test]
fn daily_and_weekly_factors_are_exact() {
    // Daily: x 30.44 exactly. Weekly: x 4.348 exactly.
    let a = Amount::from_units(1);
    assert_eq!(normalize_monthly(&a, &CostCycle::Daily), 91_320_000);
    assert_eq!(normalize_monthly(&a, &CostCycle::Weekly), 13_044_000);
    assert_eq!(100 * normalize_monthly(&a, &CostCycle::Daily), 3044 * 3_000_000);
    assert_eq!(1000 * normalize_monthly(&a, &CostCycle::Weekly), 4348 * 3_000_000);
}

#[test]
fn negative_and_zero_amounts_normalize_too() {
    let z = Amount::from_units(0);
    assert_eq!(normalize_monthly(&z, &CostCycle::Daily), 0);
    let n = Amount::from_units(-2);
    assert_eq!(normalize_monthly(&n, &CostCycle::Weekly), -26_088_000);
}

#[test]
fn totals_add_monthly_equivalents() {
    let items = vec![
        expense("Rent", 1200, CostCycle::Monthly, ExpenceCategory::Housing),
        expense("Coffee", 5, CostCycle::Daily, ExpenceCategory::DiningOut),
        expense("Insurance", 120, CostCycle::Yearly, ExpenceCategory::Insurance),
    ];
    let expected = 1200i128 * 3_000_000 + 5 * 91_320_000 + 120 * 250_000;
    assert_eq!(monthly_total(&items), expected);
}

#[test]
fn category_totals_split_by_bucket() {
    let items = vec![
        expense("Rent", 1000, CostCycle::Monthly, ExpenceCategory::Housing),
        expense("Mortgage", 500, CostCycle::Monthly, ExpenceCategory::Housing),
        expense("Coffee", 5, CostCycle::Daily, ExpenceCategory::DiningOut),
    ];
    let totals = category_totals(&items);
    assert_eq!(totals.len(), 13);
    assert_eq!(totals[0], 1500i128 * 3_000_000);
    assert_eq!(totals[5], 5i128 * 91_320_000);
    assert_eq!(totals[12], 0);
}

#[test]
fn category_totals_add_up_to_the_monthly_total() {
    let items = vec![
        expense("Rent", 1200, CostCycle::Monthly, ExpenceCategory::Housing),
        expense("Coffee", 5, CostCycle::Daily, ExpenceCategory::DiningOut),
        expense("Bus", 30, CostCycle::Weekly, ExpenceCategory::Transportation),
        expense("Insurance", 120, CostCycle::Yearly, ExpenceCategory::Insurance),
    ];
    let sum: i128 = category_totals(&items).iter().sum();
    assert_eq!(sum, monthly_total(&items));
}

#[test]
fn income_sum_ignores_cycles() {
    // The income-used pie compares spending against income amounts as
    // recorded, without normalizing their cycles.
    let items = vec![
        IncomeItem { amount: Amount::from_units(100), income_cycle: CostCycle::Yearly, ..Default::default() },
        IncomeItem { amount: Amount::from_units(50), income_cycle: CostCycle::Daily, ..Default::default() },
    ];
    assert_eq!(income_amount_sum(&items), 150_000);
}

#[test]
fn percent_of_income_rounds_half_up_and_clamps() {
    assert_eq!(percent_of_income(50, 200), 25);
    assert_eq!(percent_of_income(1, 3), 33);
    assert_eq!(percent_of_income(2, 3), 67);
    assert_eq!(percent_of_income(1, 200), 1);
    assert_eq!(percent_of_income(1, 201), 0);
    assert_eq!(percent_of_income(300, 200), 100);
    assert_eq!(percent_of_income(200, 200), 100);
    assert_eq!(percent_of_income(0, 200), 0);
    assert_eq!(percent_of_income(-5, 200), 0);
    assert_eq!(percent_of_income(50, 0), 0);
    assert_eq!(percent_of_income(50, -10), 0);
}

#[test]
fn filter_by_cycle_keeps_order() {
    let items = vec![
        expense("A", 1, CostCycle::Yearly, ExpenceCategory::Other),
        expense("B", 2, CostCycle::Monthly, ExpenceCategory::Other),
        expense("C", 3, CostCycle::Yearly, ExpenceCategory::Other),
    ];
    let yearly = filter_by_cycle(&items, &CostCycle::Yearly);
    assert_eq!(yearly.len(), 2);
    assert_eq!(yearly[0].what, "A");
    assert_eq!(yearly[1].what, "C");
}

#[test]
fn reducer_add_assigns_fresh_ids() {
    let mut state = RustedBudgetAppState::default();
    state.handle_event(AppEvent::AddCostItem(expense(
        "Rent",
        1200,
        CostCycle::Monthly,
        ExpenceCategory::Housing,
    )));
    state.handle_event(AppEvent::AddCostItem(expense(
        "Coffee",
        5,
        CostCycle::Daily,
        ExpenceCategory::DiningOut,
    )));
    assert_eq!(state.budget_data.cost_items.len(), 2);
    assert_eq!(state.budget_data.cost_items[0].id, 0);
    assert_eq!(state.budget_data.cost_items[1].id, 1);
    assert_eq!(state.budget_data.next_cost_id, 2);
}

#[test]
fn reducer_update_replaces_by_id() {
    let mut state = RustedBudgetAppState::default();
    state.handle_event(AppEvent::AddCostItem(expense(
        "Rent",
        1200,
        CostCycle::Monthly,
        ExpenceCategory::Housing,
    )));
    let mut replacement = expense("Rent", 1300, CostCycle::Monthly, ExpenceCategory::Housing);
    replacement.id = 0;
    state.handle_event(AppEvent::UpdateCostItem { id: 0, item: replacement });
    assert_eq!(state.budget_data.cost_items[0].cost.millis, 1_300_000);
    let stray_update = expense("Stray", 9, CostCycle::Daily, ExpenceCategory::Other);
    state.handle_event(AppEvent::UpdateCostItem { id: 77, item: stray_update });
    assert_eq!(state.budget_data.cost_items.len(), 1);
    assert_eq!(state.budget_data.cost_items[0].what, "Rent");
}

#[test]
fn reducer_delete_removes_by_id() {
    let mut state = RustedBudgetAppState::default();
    state.handle_event(AppEvent::AddCostItem(expense(
        "A",
        1,
        CostCycle::Monthly,
        ExpenceCategory::Other,
    )));
    state.handle_event(AppEvent::AddCostItem(expense(
        "B",
        2,
        CostCycle::Monthly,
        ExpenceCategory::Other,
    )));
    state.handle_event(AppEvent::DeleteCostItem(0));
    assert_eq!(state.budget_data.cost_items.len(), 1);
    assert_eq!(state.budget_data.cost_items[0].what, "B");
    state.handle_event(AppEvent::DeleteCostItem(42));
    assert_eq!(state.budget_data.cost_items.len(), 1);
}

#[test]
fn reducer_income_events() {
    let mut state = RustedBudgetAppState::default();
    let pay = IncomeItem { amount: Amount::from_units(5000), ..Default::default() };
    state.handle_event(AppEvent::AddIncomeItem(pay));
    let raise = IncomeItem { amount: Amount::from_units(5500), ..Default::default() };
    state.handle_event(AppEvent::UpdateIncomeItem { index: 0, item: raise });
    assert_eq!(state.budget_data.income_items[0].amount.millis, 5_500_000);
    state.handle_event(AppEvent::DeleteIncomeItem(5));
    assert_eq!(state.budget_data.income_items.len(), 1);
    state.handle_event(AppEvent::DeleteIncomeItem(0));
    assert!(state.budget_data.income_items.is_empty());
}

#[test]
fn reducer_view_and_noops() {
    let mut state = RustedBudgetAppState::default();
    assert_eq!(state.current_view, AppView::Home);
    state.handle_event(AppEvent::ChangeView(AppView::CostItems));
    assert_eq!(state.current_view, AppView::CostItems);
    state.handle_event(AppEvent::ToggleMenu);
    state.handle_event(AppEvent::SaveData);
    state.handle_event(AppEvent::LoadData);
    assert_eq!(state.current_view, AppView::CostItems);
    assert!(state.budget_data.cost_items.is_empty());
}

#[test]
fn sort_click_cycles_direction() {
    let mut table = CostItemTable::new();
    assert!(table.sort_column.is_none());
    table.handle_sort_click(SortColumn::Cost);
    assert_eq!(table.sort_column, Some(SortColumn::Cost));
    assert_eq!(table.sort_order, SortOrder::Ascending);
    table.handle_sort_click(SortColumn::Cost);
    assert_eq!(table.sort_order, SortOrder::Descending);
    table.handle_sort_click(SortColumn::What);
    assert_eq!(table.sort_column, Some(SortColumn::What));
    assert_eq!(table.sort_order, SortOrder::Ascending);
}

#[test]
fn unsorted_table_keeps_store_order() {
    let table = CostItemTable::new();
    let items = vec![
        expense("B", 2, CostCycle::Monthly, ExpenceCategory::Other),
        expense("A", 1, CostCycle::Monthly, ExpenceCategory::Other),
    ];
    let rows = table.get_sorted_items(&items);
    assert_eq!(rows.len(), 2);
    assert_eq!(rows[0].0, 0);
    assert_eq!(rows[0].1.what, "B");
    assert_eq!(rows[1].0, 1);
    assert_eq!(rows[1].1.what, "A");
}

#[test]
fn sorting_by_cost_uses_monthly_equivalents() {
    // 2 daily (60.88 a month) outranks 50 monthly; sorting ascending by
    // cost must compare monthly equivalents, not raw amounts.
    let mut table = CostItemTable::new();
    table.handle_sort_click(SortColumn::Cost);
    let items = vec![
        expense("Daily2", 2, CostCycle::Daily, ExpenceCategory::Other),
        expense("Monthly50", 50, CostCycle::Monthly, ExpenceCategory::Other),
    ];
    let rows = table.get_sorted_items(&items);
    assert_eq!(rows[0].1.what, "Monthly50");
    assert_eq!(rows[1].1.what, "Daily2");
    table.handle_sort_click(SortColumn::Cost);
    let rows = table.get_sorted_items(&items);
    assert_eq!(rows[0].1.what, "Daily2");
}

#[test]
fn sorting_by_name_is_lexicographic() {
    let mut table = CostItemTable::new();
    table.handle_sort_click(SortColumn::What);
    let items = vec![
        expense("pear", 1, CostCycle::Monthly, ExpenceCategory::Other),
        expense("Apple", 1, CostCycle::Monthly, ExpenceCategory::Other),
        expense("apple", 1, CostCycle::Monthly, ExpenceCategory::Other),
    ];
    let rows = table.get_sorted_items(&items);
    // Capital letters order before small ones, as byte order has it.
    assert_eq!(rows[0].1.what, "Apple");
    assert_eq!(rows[1].1.what, "apple");
    assert_eq!(rows[2].1.what, "pear");
}

#[test]
fn sorting_by_category_uses_name_order() {
    let mut table = CostItemTable::new();
    table.handle_sort_click(SortColumn::Category);
    let items = vec![
        expense("a", 1, CostCycle::Monthly, ExpenceCategory::Utilities),
        expense("b", 1, CostCycle::Monthly, ExpenceCategory::DebtPayments),
        expense("c", 1, CostCycle::Monthly, ExpenceCategory::Housing),
    ];
    let rows = table.get_sorted_items(&items);
    assert_eq!(rows[0].1.cost_category, ExpenceCategory::DebtPayments);
    assert_eq!(rows[1].1.cost_category, ExpenceCategory::Housing);
    assert_eq!(rows[2].1.cost_category, ExpenceCategory::Utilities);
}

#[test]
fn tag_buffers_are_kept_per_row() {
    let mut table = CostItemTable::new();
    assert_eq!(table.tag_input(3), "");
    table.set_tag_input(3, "gro".to_string());
    table.set_tag_input(9, "fun".to_string());
    assert_eq!(table.tag_input(3), "gro");
    assert_eq!(table.tag_input(9), "fun");
    table.set_tag_input(3, "groceries".to_string());
    assert_eq!(table.tag_input(3), "groceries");
    assert_eq!(table.tag_inputs.len(), 2);
}

#[test]
fn normalize_tag_lowers_and_joins() {
    assert_eq!(normalize_tag("  Fixed Cost "), Some("fixed_cost".to_string()));
    assert_eq!(normalize_tag("Rent2024"), Some("rent2024".to_string()));
    assert_eq!(normalize_tag("   "), None);
    assert_eq!(normalize_tag("bad!tag"), None);
}

#[test]
fn adding_the_same_tag_twice_is_a_no_op() {
    let mut item = expense("Rent", 1200, CostCycle::Monthly, ExpenceCategory::Housing);
    item.add_tag("fixed".to_string());
    assert_eq!(item.tags.as_ref().unwrap().len(), 1);
    item.add_tag("fixed".to_string());
    assert_eq!(item.tags.as_ref().unwrap().len(), 1);
    item.add_tag("home".to_string());
    assert_eq!(item.tags.as_ref().unwrap(), &vec!["fixed".to_string(), "home".to_string()]);
}

#[test]
fn removing_the_last_tag_clears_the_list() {
    let mut item = expense("Rent", 1200, CostCycle::Monthly, ExpenceCategory::Housing);
    item.add_tag("fixed".to_string());
    item.add_tag("home".to_string());
    item.remove_tag(0);
    assert_eq!(item.tags.as_ref().unwrap(), &vec!["home".to_string()]);
    item.remove_tag(0);
    assert!(item.tags.is_none());
}
