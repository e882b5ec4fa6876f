//! Normalization of amounts recorded on any cycle onto a common monthly
//! basis, and the aggregate figures (totals, per-category totals, share of
//! income) that the application derives from it.
//!
//! A monthly-equivalent figure is kept exactly, as an integer count of
//! 1/3000 of a thousandth of a unit ([`MONTHLY_SCALE`] per thousandth).
//! At that scale every conversion factor is an integer, so the fixed
//! calendar-average factors (x 30.44 for daily, x 4.348 for weekly, / 12
//! for yearly) are applied without rounding.

use vstd::prelude::*;

use crate::items::{Amount, CostCycle, CostItem, CostItemModel, ExpenceCategory, IncomeItem,
    AMOUNT_LIMIT_MILLIS};

verus! {

/// Scaled units per thousandth of a currency unit in a monthly-equivalent
/// figure: a monthly amount of `m` thousandths is represented as `m * 3000`.
pub const MONTHLY_SCALE: i64 = 3000;

/// The exact factor a cycle applies to an amount in thousandths to yield
/// its monthly equivalent in scaled units: 30.44 for daily, 4.348 for
/// weekly, 1 for monthly and 1/12 for yearly, each times [`MONTHLY_SCALE`].
pub open spec fn cycle_factor(cycle: CostCycle) -> int {
    match cycle {
        CostCycle::Daily => 91320,
        CostCycle::Weekly => 13044,
        CostCycle::Monthly => 3000,
        CostCycle::Yearly => 250,
    }
}

/// The monthly equivalent, in scaled units, of `millis` thousandths
/// recurring on `cycle`.
pub open spec fn monthly_equiv(millis: int, cycle: CostCycle) -> int {
    millis * cycle_factor(cycle)
}

/// An amount on a monthly cycle is left unchanged: its monthly equivalent
/// represents exactly the amount itself.
pub proof fn lemma_monthly_identity(millis: int)
    ensures
        monthly_equiv(millis, CostCycle::Monthly) == millis * MONTHLY_SCALE,
{
}

/// A yearly amount is divided by twelve exactly: twelve yearly-cycle
/// months add up to the amount itself, with no remainder at any value.
pub proof fn lemma_yearly_is_exact_twelfth(millis: int)
    ensures
        12 * monthly_equiv(millis, CostCycle::Yearly) == monthly_equiv(millis, CostCycle::Monthly),
{
}

/// A daily amount is multiplied by exactly 30.44 (the fixed average days
/// per month, not a calendar-accurate figure): one hundred daily-cycle
/// monthly equivalents equal 3044 times the plain amount.
pub proof fn lemma_daily_factor(millis: int)
    ensures
        100 * monthly_equiv(millis, CostCycle::Daily) == 3044 * monthly_equiv(
            millis,
            CostCycle::Monthly,
        ),
{
}

/// A weekly amount is multiplied by exactly 4.348: one thousand
/// weekly-cycle monthly equivalents equal 4348 times the plain amount.
pub proof fn lemma_weekly_factor(millis: int)
    ensures
        1000 * monthly_equiv(millis, CostCycle::Weekly) == 4348 * monthly_equiv(
            millis,
            CostCycle::Monthly,
        ),
{
}

/// Converts an amount on a cycle into its exact monthly equivalent in
/// scaled units. Zero and negative amounts are converted like any other.
pub fn normalize_monthly(amount: &Amount, cycle: &CostCycle) -> (r: i64)
    requires
        amount.wf(),
    ensures
        r == monthly_equiv(amount.millis as int, *cycle),
{
    match cycle {
        CostCycle::Daily => amount.millis * 91320,
        CostCycle::Weekly => amount.millis * 13044,
        CostCycle::Monthly => amount.millis * 3000,
        CostCycle::Yearly => amount.millis * 250,
    }
}

/// The sum, in scaled units, of the monthly equivalents of a sequence of
/// cost items.
pub open spec fn spec_monthly_total(items: Seq<CostItem>) -> int
    decreases items.len(),
{
    if items.len() == 0 {
        0
    } else {
        spec_monthly_total(items.drop_last()) + monthly_equiv(
            items.last().cost.millis as int,
            items.last().cost_cycle,
        )
    }
}

/// The largest magnitude one well-formed item can contribute to a total.
pub const ITEM_MONTHLY_LIMIT: i128 = 91_320_000_000_000_000;

/// A well-formed amount's monthly equivalent stays within one item's
/// contribution limit, on every cycle.
proof fn lemma_monthly_equiv_bound(millis: int, cycle: CostCycle)
    requires
        -AMOUNT_LIMIT_MILLIS <= millis <= AMOUNT_LIMIT_MILLIS,
    ensures
        -(ITEM_MONTHLY_LIMIT as int) <= monthly_equiv(millis, cycle) <= ITEM_MONTHLY_LIMIT as int,
{
    match cycle {
        CostCycle::Daily => {
            assert(monthly_equiv(millis, cycle) == millis * 91320);
        },
        CostCycle::Weekly => {
            assert(monthly_equiv(millis, cycle) == millis * 13044);
        },
        CostCycle::Monthly => {
            assert(monthly_equiv(millis, cycle) == millis * 3000);
        },
        CostCycle::Yearly => {
            assert(monthly_equiv(millis, cycle) == millis * 250);
        },
    }
}

/// The monthly total of a list of cost items: the exact sum of every
/// item's monthly equivalent, used identically for summaries, bars and
/// pie fractions so that no two totals can disagree.
pub fn monthly_total(items: &Vec<CostItem>) -> (r: i128)
    requires
        forall|k: int| 0 <= k < items@.len() ==> (#[trigger] items@[k]).wf(),
    ensures
        r == spec_monthly_total(items@),
        -(items@.len() as int) * (ITEM_MONTHLY_LIMIT as int) <= r <= (items@.len() as int) * (
        ITEM_MONTHLY_LIMIT as int),
{
    let mut total: i128 = 0;
    let mut i: usize = 0;
    while i < items.len()
        invariant
            i <= items@.len(),
            forall|k: int| 0 <= k < items@.len() ==> (#[trigger] items@[k]).wf(),
            total == spec_monthly_total(items@.take(i as int)),
            -(i as int) * (ITEM_MONTHLY_LIMIT as int) <= total <= (i as int) * (
            ITEM_MONTHLY_LIMIT as int),
        decreases items@.len() - i,
    {
        let part = normalize_monthly(&items[i].cost, &items[i].cost_cycle);
        proof {
            assert(items@.take(i + 1 as int).drop_last() =~= items@.take(i as int));
            assert(items@.take(i + 1 as int).last() == items@[i as int]);
            lemma_monthly_equiv_bound(items@[i as int].cost.millis as int, items@[i as int].cost_cycle);
        }
        total = total + part as i128;
        i = i + 1;
    }
    proof {
        assert(items@.take(items@.len() as int) =~= items@);
    }
    total
}

/// The index the application assigns each expense bucket in its fixed
/// thirteen-entry order, from housing to other.
pub open spec fn spec_category_index(cat: ExpenceCategory) -> int {
    match cat {
        ExpenceCategory::Housing => 0,
        ExpenceCategory::Transportation => 1,
        ExpenceCategory::Groceries => 2,
        ExpenceCategory::Healthcare => 3,
        ExpenceCategory::PersonalCare => 4,
        ExpenceCategory::DiningOut => 5,
        ExpenceCategory::Entertainment => 6,
        ExpenceCategory::Shopping => 7,
        ExpenceCategory::Savings => 8,
        ExpenceCategory::DebtPayments => 9,
        ExpenceCategory::Utilities => 10,
        ExpenceCategory::Insurance => 11,
        ExpenceCategory::Other => 12,
    }
}

/// Executable form of [`spec_category_index`].
pub fn category_index(cat: &ExpenceCategory) -> (r: usize)
    ensures
        r == spec_category_index(*cat),
        r < 13,
{
    match cat {
        ExpenceCategory::Housing => 0,
        ExpenceCategory::Transportation => 1,
        ExpenceCategory::Groceries => 2,
        ExpenceCategory::Healthcare => 3,
        ExpenceCategory::PersonalCare => 4,
        ExpenceCategory::DiningOut => 5,
        ExpenceCategory::Entertainment => 6,
        ExpenceCategory::Shopping => 7,
        ExpenceCategory::Savings => 8,
        ExpenceCategory::DebtPayments => 9,
        ExpenceCategory::Utilities => 10,
        ExpenceCategory::Insurance => 11,
        ExpenceCategory::Other => 12,
    }
}

/// The monthly total contributed by the items whose bucket has index
/// `idx` in the fixed category order.
pub open spec fn spec_category_total(items: Seq<CostItem>, idx: int) -> int
    decreases items.len(),
{
    if items.len() == 0 {
        0
    } else {
        spec_category_total(items.drop_last(), idx) + (
        if spec_category_index(items.last().cost_category) == idx {
            monthly_equiv(items.last().cost.millis as int, items.last().cost_cycle)
        } else {
            0
        })
    }
}

/// The sum of the first `n` buckets' monthly totals.
pub open spec fn spec_category_sum(items: Seq<CostItem>, n: int) -> int
    decreases n,
{
    if n <= 0 {
        0
    } else {
        spec_category_sum(items, n - 1) + spec_category_total(items, n - 1)
    }
}

/// Appending one item raises exactly its own bucket's share of the sum.
proof fn lemma_category_sum_step(items: Seq<CostItem>, n: int)
    requires
        items.len() > 0,
    ensures
        spec_category_sum(items, n) == spec_category_sum(items.drop_last(), n) + (
        if 0 <= spec_category_index(items.last().cost_category) < n {
            monthly_equiv(items.last().cost.millis as int, items.last().cost_cycle)
        } else {
            0
        }),
    decreases n,
{
    if n > 0 {
        lemma_category_sum_step(items, n - 1);
    }
}

/// The category breakdown and the overall total never disagree: the
/// thirteen per-bucket monthly totals add up to exactly the monthly
/// total of all items, because every item lands in exactly one bucket
/// and every figure comes from the same conversion.
pub proof fn lemma_category_totals_cover_monthly_total(items: Seq<CostItem>)
    ensures
        spec_category_sum(items, 13) == spec_monthly_total(items),
    decreases items.len(),
{
    if items.len() == 0 {
        assert(spec_category_sum(items, 13) == 0) by {
            reveal_with_fuel(spec_category_sum, 14);
        }
    } else {
        lemma_category_totals_cover_monthly_total(items.drop_last());
        lemma_category_sum_step(items, 13);
    }
}

/// The per-bucket monthly totals behind the category bar and pie charts:
/// entry `j` is the exact monthly total of the items in bucket `j`.
pub fn category_totals(items: &Vec<CostItem>) -> (r: Vec<i128>)
    requires
        forall|k: int| 0 <= k < items@.len() ==> (#[trigger] items@[k]).wf(),
    ensures
        r@.len() == 13,
        forall|j: int| 0 <= j < 13 ==> r@[j] == spec_category_total(items@, j),
{
    let mut totals: Vec<i128> = Vec::new();
    let mut j: usize = 0;
    while j < 13
        invariant
            j <= 13,
            totals@.len() == j,
            forall|k: int| 0 <= k < j ==> totals@[k] == 0,
        decreases 13 - j,
    {
        totals.push(0);
        j = j + 1;
    }
    let mut i: usize = 0;
    while i < items.len()
        invariant
            i <= items@.len(),
            forall|k: int| 0 <= k < items@.len() ==> (#[trigger] items@[k]).wf(),
            totals@.len() == 13,
            forall|k: int|
                0 <= k < 13 ==> totals@[k] == spec_category_total(items@.take(i as int), k),
            forall|k: int|
                0 <= k < 13 ==> -(i as int) * (ITEM_MONTHLY_LIMIT as int) <= #[trigger] totals@[k]
                    <= (i as int) * (ITEM_MONTHLY_LIMIT as int),
        decreases items@.len() - i,
    {
        let part = normalize_monthly(&items[i].cost, &items[i].cost_cycle);
        let idx = category_index(&items[i].cost_category);
        proof {
            lemma_monthly_equiv_bound(items@[i as int].cost.millis as int, items@[i as int].cost_cycle);
        }
        let updated = totals[idx] + part as i128;
        totals.set(idx, updated);
        proof {
            assert(items@.take(i + 1 as int).drop_last() =~= items@.take(i as int));
            assert(items@.take(i + 1 as int).last() == items@[i as int]);
        }
        i = i + 1;
    }
    proof {
        assert(items@.take(items@.len() as int) =~= items@);
    }
    totals
}

/// The sum of income amounts as recorded, in thousandths, without cycle
/// normalization: the figure the income-used pie compares spending against.
pub open spec fn spec_income_amount_sum(items: Seq<IncomeItem>) -> int
    decreases items.len(),
{
    if items.len() == 0 {
        0
    } else {
        spec_income_amount_sum(items.drop_last()) + items.last().amount.millis as int
    }
}

/// Adds up income amounts as recorded, without normalizing cycles.
pub fn income_amount_sum(items: &Vec<IncomeItem>) -> (r: i128)
    requires
        forall|k: int| 0 <= k < items@.len() ==> (#[trigger] items@[k]).wf(),
    ensures
        r == spec_income_amount_sum(items@),
{
    let mut total: i128 = 0;
    let mut i: usize = 0;
    while i < items.len()
        invariant
            i <= items@.len(),
            forall|k: int| 0 <= k < items@.len() ==> (#[trigger] items@[k]).wf(),
            total == spec_income_amount_sum(items@.take(i as int)),
            -(i as int) * (crate::items::AMOUNT_LIMIT_MILLIS as int) <= total <= (i as int) * (
            crate::items::AMOUNT_LIMIT_MILLIS as int),
        decreases items@.len() - i,
    {
        proof {
            assert(items@.take(i + 1 as int).drop_last() =~= items@.take(i as int));
            assert(items@.take(i + 1 as int).last() == items@[i as int]);
        }
        total = total + items[i].amount.millis as i128;
        i = i + 1;
    }
    proof {
        assert(items@.take(items@.len() as int) =~= items@);
    }
    total
}

/// The whole-percent share `cost` is of `income`, both in scaled units:
/// the fraction clamped into [0, 1], times one hundred, rounded to the
/// nearest whole number with halves rounding up. Zero when income is not
/// positive, as a share of nothing is not a meaningful figure.
pub open spec fn spec_percent_of_income(cost: int, income: int) -> int {
    if income <= 0 || cost <= 0 {
        0
    } else if cost >= income {
        100
    } else if 2 * ((100 * cost) % income) >= income {
        (100 * cost) / income + 1
    } else {
        (100 * cost) / income
    }
}

/// The rounded percentage of income that spending uses, shown at the
/// center of the income-used pie.
pub fn percent_of_income(cost: i128, income: i128) -> (p: u32)
    requires
        -(i128::MAX / 100) <= cost <= i128::MAX / 100,
        income <= i128::MAX / 100,
    ensures
        p == spec_percent_of_income(cost as int, income as int),
        p <= 100,
{
    if income <= 0 || cost <= 0 {
        0
    } else if cost >= income {
        100
    } else {
        let c = cost as u128;
        let s = income as u128;
        let q = (100 * c) / s;
        let r = (100 * c) % s;
        proof {
            vstd::arithmetic::div_mod::lemma_fundamental_div_mod(100 * (c as int), s as int);
            vstd::arithmetic::div_mod::lemma_mod_bound(100 * (c as int), s as int);
            assert(q < 100) by (nonlinear_arith)
                requires
                    100 * (c as int) == (s as int) * (q as int) + (r as int),
                    0 <= (r as int) < (s as int),
                    0 < (c as int) < (s as int),
            ;
            assert(q == (100 * (cost as int)) / (income as int));
            assert(r == (100 * (cost as int)) % (income as int));
        }
        if 2 * r >= s {
            (q + 1) as u32
        } else {
            q as u32
        }
    }
}

/// Whether a cost item's model records the given cycle.
pub open spec fn has_cycle(m: CostItemModel, cycle: CostCycle) -> bool {
    m.cost_cycle == cycle
}

/// The items recorded on a given cycle, in their stored order: the
/// source of the dedicated yearly-items and monthly-items tables.
pub fn filter_by_cycle(items: &Vec<CostItem>, cycle: &CostCycle) -> (r: Vec<CostItem>)
    ensures
        r.deep_view() == items.deep_view().filter(|m: CostItemModel| has_cycle(m, *cycle)),
{
    let mut out: Vec<CostItem> = Vec::new();
    let mut i: usize = 0;
    while i < items.len()
        invariant
            i <= items@.len(),
            out.deep_view() == items.deep_view().take(i as int).filter(
                |m: CostItemModel| has_cycle(m, *cycle),
            ),
        decreases items@.len() - i,
    {
        proof {
            reveal(Seq::filter);
            assert(items.deep_view().take(i + 1 as int).drop_last() =~= items.deep_view().take(
                i as int,
            ));
            assert(items.deep_view().take(i + 1 as int).last() == items@[i as int]@);
        }
        let keep = match (&items[i].cost_cycle, cycle) {
            (CostCycle::Daily, CostCycle::Daily) => true,
            (CostCycle::Weekly, CostCycle::Weekly) => true,
            (CostCycle::Monthly, CostCycle::Monthly) => true,
            (CostCycle::Yearly, CostCycle::Yearly) => true,
            _ => false,
        };
        if keep {
            let it = items[i].clone();
            out.push(it);
        }
        proof {
            assert(out.deep_view() =~= items.deep_view().take(i + 1 as int).filter(
                |m: CostItemModel| has_cycle(m, *cycle),
            ));
        }
        i = i + 1;
    }
    proof {
        assert(items.deep_view().take(items@.len() as int) =~= items.deep_view());
    }
    out
}

} // verus!
