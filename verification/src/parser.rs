//! The quick-add parser: one line of free text becomes a structured line
//! item. Markers pick the recurrence cycle (`\cycle`) and the category
//! (`@category`); keyword fallbacks cover unmarked input; the last numeric
//! token (after an optional `$` or `€` prefix) becomes the amount and the
//! remaining tokens, rejoined, the display name.
//!
//! A numeric token is an optional `+` or `-` sign, one or more digits, and
//! optionally a decimal point with one to three digits of fraction; its
//! magnitude must stay within [`AMOUNT_LIMIT_MILLIS`].

use vstd::prelude::*;

use crate::items::{Amount, CostCycle, CostItem, ExpenceCategory, IncomeCategory, IncomeItem,
    AMOUNT_LIMIT_MILLIS};
use crate::text::{all_digits, contains_str, digit_val, digits_val, eq_str, has_substring,
    is_digit, is_digit_char, leading_count, lower_seq, remove_all_str, remove_every,
    strip_currency, tokens_of, trim_seq, upper_char};

verus! {

/// The lowercased, trimmed form of the raw input on which all extraction
/// works.
pub open spec fn canon_input(raw: Seq<char>) -> Seq<char> {
    lower_seq(trim_seq(raw))
}

/// Whether a token begins with the given marker character.
pub open spec fn starts_with(t: Seq<char>, c: char) -> bool {
    t.len() > 0 && t[0] == c
}

/// The tokens that begin with `c`, in order.
pub open spec fn with_first(toks: Seq<Seq<char>>, c: char) -> Seq<Seq<char>> {
    toks.filter(|t: Seq<char>| starts_with(t, c))
}

/// The tokens that do not begin with `c`, in order.
pub open spec fn without_first(toks: Seq<Seq<char>>, c: char) -> Seq<Seq<char>> {
    toks.filter(|t: Seq<char>| !starts_with(t, c))
}

/// A `\cycle` marker word mapped to a cycle; anything unrecognized means
/// monthly.
pub open spec fn spec_cycle_of_word(w: Seq<char>) -> CostCycle {
    if w == "daily"@ || w == "day"@ || w == "d"@ {
        CostCycle::Daily
    } else if w == "weekly"@ || w == "week"@ || w == "w"@ {
        CostCycle::Weekly
    } else if w == "monthly"@ || w == "month"@ || w == "m"@ {
        CostCycle::Monthly
    } else if w == "yearly"@ || w == "year"@ || w == "annual"@ || w == "y"@ {
        CostCycle::Yearly
    } else {
        CostCycle::Monthly
    }
}

/// An `@category` marker word mapped to an expense bucket; anything
/// unrecognized means `Other`.
pub open spec fn spec_expense_cat_of_word(w: Seq<char>) -> ExpenceCategory {
    if w == "housing"@ || w == "house"@ || w == "rent"@ || w == "mortgage"@ {
        ExpenceCategory::Housing
    } else if w == "transportation"@ || w == "transport"@ || w == "travel"@ || w == "car"@ || w
        == "bus"@ || w == "train"@ || w == "gas"@ || w == "fuel"@ {
        ExpenceCategory::Transportation
    } else if w == "groceries"@ || w == "grocery"@ || w == "food"@ || w == "supermarket"@ {
        ExpenceCategory::Groceries
    } else if w == "healthcare"@ || w == "health"@ || w == "medical"@ || w == "doctor"@ || w
        == "medicine"@ || w == "pharmacy"@ {
        ExpenceCategory::Healthcare
    } else if w == "personalcare"@ || w == "personal"@ || w == "care"@ || w == "hygiene"@ || w
        == "beauty"@ || w == "haircut"@ {
        ExpenceCategory::PersonalCare
    } else if w == "diningout"@ || w == "dining"@ || w == "restaurant"@ || w == "takeout"@ || w
        == "coffee"@ || w == "lunch"@ {
        ExpenceCategory::DiningOut
    } else if w == "entertainment"@ || w == "fun"@ || w == "movie"@ || w == "games"@ || w
        == "netflix"@ || w == "streaming"@ || w == "concert"@ {
        ExpenceCategory::Entertainment
    } else if w == "shopping"@ || w == "shop"@ || w == "clothes"@ || w == "clothing"@ || w
        == "retail"@ {
        ExpenceCategory::Shopping
    } else if w == "savings"@ || w == "save"@ || w == "investment"@ || w == "invest"@ {
        ExpenceCategory::Savings
    } else if w == "debt"@ || w == "debtpayments"@ || w == "loan"@ || w == "credit"@ || w
        == "payment"@ {
        ExpenceCategory::DebtPayments
    } else if w == "utilities"@ || w == "utility"@ || w == "electricity"@ || w == "water"@ || w
        == "internet"@ || w == "phone"@ {
        ExpenceCategory::Utilities
    } else if w == "insurance"@ || w == "insure"@ || w == "policy"@ {
        ExpenceCategory::Insurance
    } else {
        ExpenceCategory::Other
    }
}

/// Keyword fallback over the whole input for the expense bucket, checked
/// in a fixed priority order.
pub open spec fn spec_expense_cat_fallback(input: Seq<char>) -> ExpenceCategory {
    if has_substring(input, "rent"@) || has_substring(input, "mortgage"@) || has_substring(
        input,
        "utilities"@,
    ) {
        ExpenceCategory::Housing
    } else if has_substring(input, "transport"@) || has_substring(input, "gas"@) || has_substring(
        input,
        "car"@,
    ) || has_substring(input, "bus"@) {
        ExpenceCategory::Transportation
    } else if has_substring(input, "food"@) || has_substring(input, "grocery"@) || has_substring(
        input,
        "groceries"@,
    ) {
        ExpenceCategory::Groceries
    } else if has_substring(input, "restaurant"@) || has_substring(input, "dining"@)
        || has_substring(input, "coffee"@) || has_substring(input, "lunch"@) {
        ExpenceCategory::DiningOut
    } else if has_substring(input, "movie"@) || has_substring(input, "entertainment"@)
        || has_substring(input, "netflix"@) {
        ExpenceCategory::Entertainment
    } else if has_substring(input, "doctor"@) || has_substring(input, "health"@) || has_substring(
        input,
        "medicine"@,
    ) {
        ExpenceCategory::Healthcare
    } else if has_substring(input, "save"@) || has_substring(input, "saving"@) {
        ExpenceCategory::Savings
    } else if has_substring(input, "insurance"@) || has_substring(input, "insure"@) {
        ExpenceCategory::Insurance
    } else {
        ExpenceCategory::Other
    }
}

/// An `@category` marker word mapped to an income bucket; anything
/// unrecognized means `Other`.
pub open spec fn spec_income_cat_of_word(w: Seq<char>) -> IncomeCategory {
    if w == "salary"@ || w == "wage"@ || w == "job"@ || w == "work"@ || w == "employment"@ || w
        == "paycheck"@ {
        IncomeCategory::Salary
    } else if w == "freelance"@ || w == "freelancing"@ || w == "contract"@ || w == "contractor"@
        || w == "consulting"@ || w == "gig"@ {
        IncomeCategory::Freelance
    } else if w == "investment"@ || w == "invest"@ || w == "dividend"@ || w == "capital"@ || w
        == "stock"@ || w == "crypto"@ || w == "trading"@ || w == "portfolio"@ {
        IncomeCategory::Investment
    } else if w == "sidehustle"@ || w == "side"@ || w == "hustle"@ || w == "business"@ || w
        == "startup"@ || w == "venture"@ || w == "entrepreneurship"@ {
        IncomeCategory::SideHustle
    } else if w == "bonus"@ || w == "commission"@ || w == "incentive"@ || w == "reward"@ || w
        == "tip"@ || w == "gratuity"@ {
        IncomeCategory::Bonus
    } else if w == "gift"@ || w == "present"@ || w == "donation"@ || w == "inheritance"@ || w
        == "windfall"@ || w == "lottery"@ {
        IncomeCategory::Gift
    } else {
        IncomeCategory::Other
    }
}

/// Keyword fallback over the whole input for the income bucket.
pub open spec fn spec_income_cat_fallback(input: Seq<char>) -> IncomeCategory {
    if has_substring(input, "salary"@) || has_substring(input, "wage"@) || has_substring(
        input,
        "job"@,
    ) || has_substring(input, "work"@) {
        IncomeCategory::Salary
    } else if has_substring(input, "freelance"@) || has_substring(input, "contract"@)
        || has_substring(input, "consulting"@) {
        IncomeCategory::Freelance
    } else if has_substring(input, "invest"@) || has_substring(input, "dividend"@)
        || has_substring(input, "stock"@) || has_substring(input, "crypto"@) {
        IncomeCategory::Investment
    } else if has_substring(input, "business"@) || has_substring(input, "side"@) || has_substring(
        input,
        "hustle"@,
    ) {
        IncomeCategory::SideHustle
    } else if has_substring(input, "bonus"@) || has_substring(input, "commission"@)
        || has_substring(input, "tip"@) {
        IncomeCategory::Bonus
    } else if has_substring(input, "gift"@) || has_substring(input, "present"@) || has_substring(
        input,
        "inheritance"@,
    ) {
        IncomeCategory::Gift
    } else {
        IncomeCategory::Other
    }
}

/// The predicate for a run of digits.
pub open spec fn digit_pred() -> spec_fn(char) -> bool {
    |c: char| is_digit_char(c)
}

/// What one fractional digit is worth in thousandths, by fraction length.
pub open spec fn frac_scale(n: int) -> int {
    if n == 1 {
        100
    } else if n == 2 {
        10
    } else {
        1
    }
}

/// `Some(v)` when `v` stays within the amount limit.
pub open spec fn check_limit(v: int) -> Option<int> {
    if v > AMOUNT_LIMIT_MILLIS {
        Option::None
    } else {
        Option::Some(v)
    }
}

/// The value in thousandths denoted by an unsigned numeric token: one or
/// more digits, optionally a decimal point and one to three digits of
/// fraction; nothing else, and nothing over the amount limit.
pub open spec fn spec_parse_unsigned(s: Seq<char>) -> Option<int> {
    let k = leading_count(s, digit_pred()) as int;
    if k == 0 {
        Option::None
    } else if k == s.len() {
        check_limit(digits_val(s) * 1000)
    } else if s[k] == '.' {
        let frac = s.skip(k + 1);
        if 1 <= frac.len() <= 3 && all_digits(frac) {
            check_limit(digits_val(s.take(k)) * 1000 + digits_val(frac) * frac_scale(frac.len() as int))
        } else {
            Option::None
        }
    } else {
        Option::None
    }
}

/// The signed value in thousandths denoted by a numeric token.
pub open spec fn spec_parse_millis(s: Seq<char>) -> Option<int> {
    if s.len() > 0 && (s[0] == '-' || s[0] == '+') {
        match spec_parse_unsigned(s.skip(1)) {
            Option::Some(v) => Option::Some(
                if s[0] == '-' {
                    -v
                } else {
                    v
                },
            ),
            Option::None => Option::None,
        }
    } else {
        spec_parse_unsigned(s)
    }
}

/// Whether a token, after currency signs are stripped, parses as an
/// amount.
pub open spec fn is_amount_token(w: Seq<char>) -> bool {
    spec_parse_millis(strip_currency(w)) is Some
}

/// The value of the last token that parses as an amount, if any: a later
/// numeric token silently overrides an earlier one.
pub open spec fn spec_last_amount(ws: Seq<Seq<char>>) -> Option<int>
    decreases ws.len(),
{
    if ws.len() == 0 {
        Option::None
    } else {
        match spec_parse_millis(strip_currency(ws.last())) {
            Option::Some(v) => Option::Some(v),
            Option::None => spec_last_amount(ws.drop_last()),
        }
    }
}

/// The tokens that do not parse as amounts, in order: the material of
/// the display name.
pub open spec fn name_tokens(ws: Seq<Seq<char>>) -> Seq<Seq<char>> {
    ws.filter(|w: Seq<char>| !is_amount_token(w))
}

/// The recurrence cycle the input selects: the first `\`-marked token if
/// one exists, else the first of the literal words daily, weekly,
/// yearly or annual, monthly found anywhere in the marker-free text,
/// else monthly.
pub open spec fn spec_quick_cycle(raw: Seq<char>) -> CostCycle {
    let toks = tokens_of(canon_input(raw));
    let bs = with_first(toks, '\\');
    if bs.len() > 0 {
        spec_cycle_of_word(bs[0].skip(1))
    } else {
        let base = crate::text::join_with_spaces(without_first(toks, '@'));
        if has_substring(base, "daily"@) {
            CostCycle::Daily
        } else if has_substring(base, "weekly"@) {
            CostCycle::Weekly
        } else if has_substring(base, "yearly"@) || has_substring(base, "annual"@) {
            CostCycle::Yearly
        } else {
            CostCycle::Monthly
        }
    }
}

/// The text left for amount and name extraction once cycle and category
/// markers are taken out: with a `\` marker, the marker-free tokens
/// rejoined; without one, the `@`-free text with the matched cycle
/// keyword struck out and the result trimmed.
pub open spec fn spec_residual(raw: Seq<char>) -> Seq<char> {
    let toks = tokens_of(canon_input(raw));
    let bs = with_first(toks, '\\');
    if bs.len() > 0 {
        crate::text::join_with_spaces(without_first(without_first(toks, '@'), '\\'))
    } else {
        let base = crate::text::join_with_spaces(without_first(toks, '@'));
        if has_substring(base, "daily"@) {
            trim_seq(remove_every(base, "daily"@))
        } else if has_substring(base, "weekly"@) {
            trim_seq(remove_every(base, "weekly"@))
        } else if has_substring(base, "yearly"@) || has_substring(base, "annual"@) {
            trim_seq(remove_every(remove_every(base, "yearly"@), "annual"@))
        } else if has_substring(base, "monthly"@) {
            trim_seq(remove_every(base, "monthly"@))
        } else {
            base
        }
    }
}

/// The first `@`-marked token's remainder, if any `@`-marked token
/// exists.
pub open spec fn spec_cat_word(raw: Seq<char>) -> Option<Seq<char>> {
    let at = with_first(tokens_of(canon_input(raw)), '@');
    if at.len() > 0 {
        Option::Some(at[0].skip(1))
    } else {
        Option::None
    }
}

/// The amount the input selects, in thousandths: the last numeric token
/// of the residual text, or zero when none parses.
pub open spec fn spec_quick_amount(raw: Seq<char>) -> int {
    match spec_last_amount(tokens_of(spec_residual(raw))) {
        Option::Some(v) => v,
        Option::None => 0,
    }
}

/// The display name the input selects: the non-numeric residual tokens
/// rejoined with single spaces and the first character capitalized, or
/// the fixed text `New Item` when none are left.
pub open spec fn spec_quick_name(raw: Seq<char>) -> Seq<char> {
    let joined = crate::text::join_with_spaces(name_tokens(tokens_of(spec_residual(raw))));
    if joined.len() == 0 {
        "New Item"@
    } else {
        seq![upper_char(joined[0])] + joined.skip(1)
    }
}

/// The expense bucket the input selects: the first `@`-marked token if
/// one exists, else the keyword fallback over the whole canonical input.
pub open spec fn spec_quick_expense_category(raw: Seq<char>) -> ExpenceCategory {
    match spec_cat_word(raw) {
        Option::Some(w) => spec_expense_cat_of_word(w),
        Option::None => spec_expense_cat_fallback(canon_input(raw)),
    }
}

/// The income bucket the input selects, analogously.
pub open spec fn spec_quick_income_category(raw: Seq<char>) -> IncomeCategory {
    match spec_cat_word(raw) {
        Option::Some(w) => spec_income_cat_of_word(w),
        Option::None => spec_income_cat_fallback(canon_input(raw)),
    }
}

/// Copies a token's characters.
fn copy_chars(t: &Vec<char>) -> (r: Vec<char>)
    ensures
        r@ == t@,
{
    let mut out: Vec<char> = Vec::new();
    let mut i: usize = 0;
    while i < t.len()
        invariant
            i <= t@.len(),
            out@.len() == i,
            forall|k: int| 0 <= k < i ==> out@[k] == t@[k],
        decreases t@.len() - i,
    {
        out.push(t[i]);
        i = i + 1;
    }
    proof {
        assert(out@ =~= t@);
    }
    out
}

/// A token with its first character removed.
fn tail_chars(t: &Vec<char>) -> (r: Vec<char>)
    requires
        t@.len() >= 1,
    ensures
        r@ == t@.skip(1),
{
    let mut out: Vec<char> = Vec::new();
    let mut i: usize = 1;
    while i < t.len()
        invariant
            1 <= i <= t@.len(),
            out@.len() == i - 1,
            forall|k: int| 0 <= k < i - 1 ==> out@[k] == t@[1 + k],
        decreases t@.len() - i,
    {
        out.push(t[i]);
        i = i + 1;
    }
    proof {
        assert(out@ =~= t@.skip(1));
    }
    out
}

/// The tokens that begin with `c`.
fn filter_with_first(toks: &Vec<Vec<char>>, c: char) -> (r: Vec<Vec<char>>)
    ensures
        r.deep_view() == with_first(toks.deep_view(), c),
{
    let mut out: Vec<Vec<char>> = Vec::new();
    let mut i: usize = 0;
    proof {
        reveal(Seq::filter);
        assert(out.deep_view() =~~= with_first(toks.deep_view().take(0), c));
    }
    while i < toks.len()
        invariant
            i <= toks@.len(),
            toks.deep_view().len() == toks@.len(),
            out.deep_view() == with_first(toks.deep_view().take(i as int), c),
        decreases toks@.len() - i,
    {
        let ghost prev = out.deep_view();
        let keep = toks[i].len() > 0 && toks[i][0] == c;
        if keep {
            let t = copy_chars(&toks[i]);
            out.push(t);
        }
        proof {
            reveal(Seq::filter);
            let dv = toks.deep_view();
            assert(dv.take(i + 1 as int).drop_last() =~= dv.take(i as int));
            assert(dv.take(i + 1 as int).last() == dv[i as int]);
            assert(dv[i as int] == toks@[i as int]@);
            if keep {
                assert(out.deep_view() =~~= prev.push(toks@[i as int]@));
            }
            assert(out.deep_view() =~~= with_first(dv.take(i + 1 as int), c));
        }
        i = i + 1;
    }
    proof {
        assert(toks.deep_view().take(toks@.len() as int) =~= toks.deep_view());
    }
    out
}

/// The tokens that do not begin with `c`.
fn filter_without_first(toks: &Vec<Vec<char>>, c: char) -> (r: Vec<Vec<char>>)
    ensures
        r.deep_view() == without_first(toks.deep_view(), c),
{
    let mut out: Vec<Vec<char>> = Vec::new();
    let mut i: usize = 0;
    proof {
        reveal(Seq::filter);
        assert(out.deep_view() =~~= without_first(toks.deep_view().take(0), c));
    }
    while i < toks.len()
        invariant
            i <= toks@.len(),
            toks.deep_view().len() == toks@.len(),
            out.deep_view() == without_first(toks.deep_view().take(i as int), c),
        decreases toks@.len() - i,
    {
        let ghost prev = out.deep_view();
        let keep = !(toks[i].len() > 0 && toks[i][0] == c);
        if keep {
            let t = copy_chars(&toks[i]);
            out.push(t);
        }
        proof {
            reveal(Seq::filter);
            let dv = toks.deep_view();
            assert(dv.take(i + 1 as int).drop_last() =~= dv.take(i as int));
            assert(dv.take(i + 1 as int).last() == dv[i as int]);
            assert(dv[i as int] == toks@[i as int]@);
            if keep {
                assert(out.deep_view() =~~= prev.push(toks@[i as int]@));
            }
            assert(out.deep_view() =~~= without_first(dv.take(i + 1 as int), c));
        }
        i = i + 1;
    }
    proof {
        assert(toks.deep_view().take(toks@.len() as int) =~= toks.deep_view());
    }
    out
}

/// Executable form of [`spec_cycle_of_word`].
fn cycle_of_word(w: &Vec<char>) -> (r: CostCycle)
    ensures
        r == spec_cycle_of_word(w@),
{
    if eq_str(w, "daily") || eq_str(w, "day") || eq_str(w, "d") {
        CostCycle::Daily
    } else if eq_str(w, "weekly") || eq_str(w, "week") || eq_str(w, "w") {
        CostCycle::Weekly
    } else if eq_str(w, "monthly") || eq_str(w, "month") || eq_str(w, "m") {
        CostCycle::Monthly
    } else if eq_str(w, "yearly") || eq_str(w, "year") || eq_str(w, "annual") || eq_str(w, "y") {
        CostCycle::Yearly
    } else {
        CostCycle::Monthly
    }
}

/// Executable form of [`spec_expense_cat_of_word`].
fn expense_cat_of_word(w: &Vec<char>) -> (r: ExpenceCategory)
    ensures
        r == spec_expense_cat_of_word(w@),
{
    if eq_str(w, "housing") || eq_str(w, "house") || eq_str(w, "rent") || eq_str(w, "mortgage") {
        ExpenceCategory::Housing
    } else if eq_str(w, "transportation") || eq_str(w, "transport") || eq_str(w, "travel")
        || eq_str(w, "car") || eq_str(w, "bus") || eq_str(w, "train") || eq_str(w, "gas") || eq_str(
        w,
        "fuel",
    ) {
        ExpenceCategory::Transportation
    } else if eq_str(w, "groceries") || eq_str(w, "grocery") || eq_str(w, "food") || eq_str(
        w,
        "supermarket",
    ) {
        ExpenceCategory::Groceries
    } else if eq_str(w, "healthcare") || eq_str(w, "health") || eq_str(w, "medical") || eq_str(
        w,
        "doctor",
    ) || eq_str(w, "medicine") || eq_str(w, "pharmacy") {
        ExpenceCategory::Healthcare
    } else if eq_str(w, "personalcare") || eq_str(w, "personal") || eq_str(w, "care") || eq_str(
        w,
        "hygiene",
    ) || eq_str(w, "beauty") || eq_str(w, "haircut") {
        ExpenceCategory::PersonalCare
    } else if eq_str(w, "diningout") || eq_str(w, "dining") || eq_str(w, "restaurant") || eq_str(
        w,
        "takeout",
    ) || eq_str(w, "coffee") || eq_str(w, "lunch") {
        ExpenceCategory::DiningOut
    } else if eq_str(w, "entertainment") || eq_str(w, "fun") || eq_str(w, "movie") || eq_str(
        w,
        "games",
    ) || eq_str(w, "netflix") || eq_str(w, "streaming") || eq_str(w, "concert") {
        ExpenceCategory::Entertainment
    } else if eq_str(w, "shopping") || eq_str(w, "shop") || eq_str(w, "clothes") || eq_str(
        w,
        "clothing",
    ) || eq_str(w, "retail") {
        ExpenceCategory::Shopping
    } else if eq_str(w, "savings") || eq_str(w, "save") || eq_str(w, "investment") || eq_str(
        w,
        "invest",
    ) {
        ExpenceCategory::Savings
    } else if eq_str(w, "debt") || eq_str(w, "debtpayments") || eq_str(w, "loan") || eq_str(
        w,
        "credit",
    ) || eq_str(w, "payment") {
        ExpenceCategory::DebtPayments
    } else if eq_str(w, "utilities") || eq_str(w, "utility") || eq_str(w, "electricity") || eq_str(
        w,
        "water",
    ) || eq_str(w, "internet") || eq_str(w, "phone") {
        ExpenceCategory::Utilities
    } else if eq_str(w, "insurance") || eq_str(w, "insure") || eq_str(w, "policy") {
        ExpenceCategory::Insurance
    } else {
        ExpenceCategory::Other
    }
}

/// Executable form of [`spec_expense_cat_fallback`].
fn expense_cat_fallback(input: &Vec<char>) -> (r: ExpenceCategory)
    ensures
        r == spec_expense_cat_fallback(input@),
{
    if contains_str(input, "rent") || contains_str(input, "mortgage") || contains_str(
        input,
        "utilities",
    ) {
        ExpenceCategory::Housing
    } else if contains_str(input, "transport") || contains_str(input, "gas") || contains_str(
        input,
        "car",
    ) || contains_str(input, "bus") {
        ExpenceCategory::Transportation
    } else if contains_str(input, "food") || contains_str(input, "grocery") || contains_str(
        input,
        "groceries",
    ) {
        ExpenceCategory::Groceries
    } else if contains_str(input, "restaurant") || contains_str(input, "dining") || contains_str(
        input,
        "coffee",
    ) || contains_str(input, "lunch") {
        ExpenceCategory::DiningOut
    } else if contains_str(input, "movie") || contains_str(input, "entertainment")
        || contains_str(input, "netflix") {
        ExpenceCategory::Entertainment
    } else if contains_str(input, "doctor") || contains_str(input, "health") || contains_str(
        input,
        "medicine",
    ) {
        ExpenceCategory::Healthcare
    } else if contains_str(input, "save") || contains_str(input, "saving") {
        ExpenceCategory::Savings
    } else if contains_str(input, "insurance") || contains_str(input, "insure") {
        ExpenceCategory::Insurance
    } else {
        ExpenceCategory::Other
    }
}

/// Executable form of [`spec_income_cat_of_word`].
fn income_cat_of_word(w: &Vec<char>) -> (r: IncomeCategory)
    ensures
        r == spec_income_cat_of_word(w@),
{
    if eq_str(w, "salary") || eq_str(w, "wage") || eq_str(w, "job") || eq_str(w, "work") || eq_str(
        w,
        "employment",
    ) || eq_str(w, "paycheck") {
        IncomeCategory::Salary
    } else if eq_str(w, "freelance") || eq_str(w, "freelancing") || eq_str(w, "contract")
        || eq_str(w, "contractor") || eq_str(w, "consulting") || eq_str(w, "gig") {
        IncomeCategory::Freelance
    } else if eq_str(w, "investment") || eq_str(w, "invest") || eq_str(w, "dividend") || eq_str(
        w,
        "capital",
    ) || eq_str(w, "stock") || eq_str(w, "crypto") || eq_str(w, "trading") || eq_str(
        w,
        "portfolio",
    ) {
        IncomeCategory::Investment
    } else if eq_str(w, "sidehustle") || eq_str(w, "side") || eq_str(w, "hustle") || eq_str(
        w,
        "business",
    ) || eq_str(w, "startup") || eq_str(w, "venture") || eq_str(w, "entrepreneurship") {
        IncomeCategory::SideHustle
    } else if eq_str(w, "bonus") || eq_str(w, "commission") || eq_str(w, "incentive") || eq_str(
        w,
        "reward",
    ) || eq_str(w, "tip") || eq_str(w, "gratuity") {
        IncomeCategory::Bonus
    } else if eq_str(w, "gift") || eq_str(w, "present") || eq_str(w, "donation") || eq_str(
        w,
        "inheritance",
    ) || eq_str(w, "windfall") || eq_str(w, "lottery") {
        IncomeCategory::Gift
    } else {
        IncomeCategory::Other
    }
}

/// Executable form of [`spec_income_cat_fallback`].
fn income_cat_fallback(input: &Vec<char>) -> (r: IncomeCategory)
    ensures
        r == spec_income_cat_fallback(input@),
{
    if contains_str(input, "salary") || contains_str(input, "wage") || contains_str(input, "job")
        || contains_str(input, "work") {
        IncomeCategory::Salary
    } else if contains_str(input, "freelance") || contains_str(input, "contract")
        || contains_str(input, "consulting") {
        IncomeCategory::Freelance
    } else if contains_str(input, "invest") || contains_str(input, "dividend") || contains_str(
        input,
        "stock",
    ) || contains_str(input, "crypto") {
        IncomeCategory::Investment
    } else if contains_str(input, "business") || contains_str(input, "side") || contains_str(
        input,
        "hustle",
    ) {
        IncomeCategory::SideHustle
    } else if contains_str(input, "bonus") || contains_str(input, "commission") || contains_str(
        input,
        "tip",
    ) {
        IncomeCategory::Bonus
    } else if contains_str(input, "gift") || contains_str(input, "present") || contains_str(
        input,
        "inheritance",
    ) {
        IncomeCategory::Gift
    } else {
        IncomeCategory::Other
    }
}

/// The numeric value of one digit character.
fn digit_value(c: char) -> (d: i64)
    requires
        is_digit_char(c),
    ensures
        d == digit_val(c),
        0 <= d <= 9,
{
    match c {
        '0' => 0,
        '1' => 1,
        '2' => 2,
        '3' => 3,
        '4' => 4,
        '5' => 5,
        '6' => 6,
        '7' => 7,
        '8' => 8,
        _ => 9,
    }
}

/// Parses one token as a signed amount in thousandths, exactly as
/// [`spec_parse_millis`] defines it.
fn parse_amount_token(w: &Vec<char>) -> (r: Option<i64>)
    ensures
        (match r {
            Option::Some(v) => spec_parse_millis(w@) == Option::Some(v as int)
                && -AMOUNT_LIMIT_MILLIS <= v <= AMOUNT_LIMIT_MILLIS,
            Option::None => spec_parse_millis(w@) is None,
        }),
{
    let n: usize = w.len();
    let neg: bool;
    let a: usize;
    if n > 0 && (w[0] == '-' || w[0] == '+') {
        neg = w[0] == '-';
        a = 1;
    } else {
        neg = false;
        a = 0;
    }
    let ghost s = w@.skip(a as int);
    proof {
        assert(w@.skip(0) =~= w@);
    }
    let mut j: usize = a;
    let mut val: i64 = 0;
    let mut big: bool = false;
    while j < n && is_digit(w[j])
        invariant
            a <= j <= n,
            n == w@.len(),
            s == w@.skip(a as int),
            all_digits(s.take(j - a)),
            !big ==> 0 <= val <= 1_000_000_000 && val == digits_val(s.take(j - a)),
            big ==> digits_val(s.take(j - a)) > 1_000_000_000,
        decreases n - j,
    {
        let ghost ds = s.take(j - a);
        let ghost ds2 = s.take(j + 1 - a);
        proof {
            assert(ds2.drop_last() =~= ds);
            assert(ds2.last() == w@[j as int]);
        }
        let d = digit_value(w[j]);
        if big {
        } else {
            let nv = val * 10 + d;
            if nv > 1_000_000_000 {
                big = true;
            } else {
                val = nv;
            }
        }
        j = j + 1;
    }
    let k: usize = j - a;
    proof {
        assert forall|k2: int| 0 <= k2 < k implies digit_pred()(#[trigger] s[k2]) by {
            assert(s.take(k as int)[k2] == s[k2]);
            assert(is_digit_char(s.take(k as int)[k2]));
        }
        if j == n {
            assert(k == s.len());
        } else {
            assert(!is_digit_char(w@[j as int]));
            assert(s[k as int] == w@[j as int]);
            assert(!digit_pred()(s[k as int]));
        }
        crate::text::lemma_leading_count_is(s, digit_pred(), k as int);
    }
    if k == 0 {
        return Option::None;
    }
    if j == n {
        proof {
            assert(s.take(k as int) =~= s);
        }
        if big {
            return Option::None;
        }
        let millis = val * 1000;
        if neg {
            return Option::Some(-millis);
        } else {
            return Option::Some(millis);
        }
    }
    if w[j] != '.' {
        return Option::None;
    }
    let flen: usize = n - (j + 1);
    let ghost frac = s.skip(k + 1);
    proof {
        assert(frac =~= w@.skip(j + 1 as int));
    }
    if flen < 1 || flen > 3 {
        return Option::None;
    }
    let mut all_ok: bool = true;
    let mut q: usize = j + 1;
    while q < n
        invariant
            j + 1 <= q <= n,
            n == w@.len(),
            frac == w@.skip(j + 1 as int),
            all_ok ==> all_digits(frac.take(q - (j + 1))),
            !all_ok ==> (exists|k2: int|
                0 <= k2 < q - (j + 1) && !is_digit_char(#[trigger] frac[k2])),
        decreases n - q,
    {
        let ghost fs = frac.take(q - (j + 1));
        let ghost fs2 = frac.take(q + 1 - (j + 1));
        proof {
            assert(fs2.drop_last() =~= fs);
            assert(fs2.last() == frac[q - (j + 1)] == w@[q as int]);
        }
        if !is_digit(w[q]) {
            all_ok = false;
        }
        q = q + 1;
    }
    proof {
        assert(frac.take(n - (j + 1)) =~= frac);
    }
    if !all_ok {
        proof {
            assert(!all_digits(frac));
        }
        return Option::None;
    }
    let mut p: usize = j + 1;
    let mut fval: i64 = 0;
    while p < n
        invariant
            j + 1 <= p <= n,
            n == w@.len(),
            frac == w@.skip(j + 1 as int),
            n - (j + 1) <= 3,
            all_digits(frac),
            0 <= fval == digits_val(frac.take(p - (j + 1))),
            fval <= (if p - (j + 1) == 0 {
                0int
            } else if p - (j + 1) == 1 {
                9int
            } else if p - (j + 1) == 2 {
                99int
            } else {
                999int
            }),
        decreases n - p,
    {
        let ghost fs = frac.take(p - (j + 1));
        let ghost fs2 = frac.take(p + 1 - (j + 1));
        proof {
            assert(fs2.drop_last() =~= fs);
            assert(fs2.last() == frac[p - (j + 1)] == w@[p as int]);
            assert(is_digit_char(frac[p - (j + 1)]));
        }
        let d = digit_value(w[p]);
        fval = fval * 10 + d;
        p = p + 1;
    }
    proof {
        assert(frac.take(n - (j + 1)) =~= frac);
    }
    let fpart: i64 = if flen == 1 {
        fval * 100
    } else if flen == 2 {
        fval * 10
    } else {
        fval
    };
    proof {
        assert(frac.take(n - (j + 1)) =~= frac);
        assert(fval == digits_val(frac));
        assert(fpart == digits_val(frac) * frac_scale(flen as int));
        assert(0 <= fpart <= 999);
    }
    if big {
        proof {
            assert(digits_val(s.take(k as int)) * 1000 + digits_val(frac) * frac_scale(flen as int)
                > AMOUNT_LIMIT_MILLIS);
        }
        return Option::None;
    }
    let millis = val * 1000 + fpart;
    if millis > AMOUNT_LIMIT_MILLIS {
        return Option::None;
    }
    if neg {
        Option::Some(-millis)
    } else {
        Option::Some(millis)
    }
}

/// What the shared part of a quick-add parse yields: everything but the
/// category, which differs between the expense and income domains.
struct QuickParts {
    name: String,
    amount_millis: i64,
    cycle: CostCycle,
    cat_word: Option<Vec<char>>,
    canon: Vec<char>,
}

/// Runs the cycle, amount and name extraction shared by both quick-add
/// domains, and hands back the first `@`-marker word for the caller's
/// category lookup.
fn parse_core(raw: &str) -> (r: QuickParts)
    ensures
        r.name@ == spec_quick_name(raw@),
        r.amount_millis == spec_quick_amount(raw@),
        -AMOUNT_LIMIT_MILLIS <= r.amount_millis <= AMOUNT_LIMIT_MILLIS,
        r.cycle == spec_quick_cycle(raw@),
        (match r.cat_word {
            Option::Some(wv) => spec_cat_word(raw@) == Option::Some(wv@),
            Option::None => spec_cat_word(raw@) is None,
        }),
        r.canon@ == canon_input(raw@),
{
    let chars = crate::text::chars_of(raw);
    let trimmed = crate::text::trim(&chars);
    let canon = crate::text::lower_vec(&trimmed);
    let toks = crate::text::tokenize(&canon);
    let bs = filter_with_first(&toks, '\\');
    let at = filter_with_first(&toks, '@');
    proof {
        broadcast use vstd::seq_lib::group_filter_ensures;

    }
    let cycle: CostCycle;
    let residual: Vec<char>;
    if bs.len() > 0 {
        proof {
            assert(bs.deep_view()[0] == bs@[0]@);
            assert(starts_with(bs.deep_view()[0], '\\'));
        }
        let tail = tail_chars(&bs[0]);
        cycle = cycle_of_word(&tail);
        let non_at = filter_without_first(&toks, '@');
        let plain = filter_without_first(&non_at, '\\');
        residual = crate::text::join_tokens(&plain);
    } else {
        let non_at = filter_without_first(&toks, '@');
        let base = crate::text::join_tokens(&non_at);
        proof {
            reveal_strlit("daily");
            reveal_strlit("weekly");
            reveal_strlit("yearly");
            reveal_strlit("annual");
            reveal_strlit("monthly");
        }
        if contains_str(&base, "daily") {
            let stripped = remove_all_str(&base, "daily");
            residual = crate::text::trim(&stripped);
            cycle = CostCycle::Daily;
        } else if contains_str(&base, "weekly") {
            let stripped = remove_all_str(&base, "weekly");
            residual = crate::text::trim(&stripped);
            cycle = CostCycle::Weekly;
        } else if contains_str(&base, "yearly") || contains_str(&base, "annual") {
            let s1 = remove_all_str(&base, "yearly");
            let s2 = remove_all_str(&s1, "annual");
            residual = crate::text::trim(&s2);
            cycle = CostCycle::Yearly;
        } else if contains_str(&base, "monthly") {
            let stripped = remove_all_str(&base, "monthly");
            residual = crate::text::trim(&stripped);
            cycle = CostCycle::Monthly;
        } else {
            residual = base;
            cycle = CostCycle::Monthly;
        }
    }
    proof {
        assert(residual@ == spec_residual(raw@));
        assert(cycle == spec_quick_cycle(raw@));
    }
    let words = crate::text::tokenize(&residual);
    let mut amount: Option<i64> = Option::None;
    let mut name_parts: Vec<Vec<char>> = Vec::new();
    let mut i: usize = 0;
    proof {
        reveal(Seq::filter);
        assert(name_parts.deep_view() =~~= name_tokens(words.deep_view().take(0)));
    }
    while i < words.len()
        invariant
            i <= words@.len(),
            words.deep_view().len() == words@.len(),
            (match amount {
                Option::Some(v) => spec_last_amount(words.deep_view().take(i as int))
                    == Option::Some(v as int) && -AMOUNT_LIMIT_MILLIS <= v <= AMOUNT_LIMIT_MILLIS,
                Option::None => spec_last_amount(words.deep_view().take(i as int)) is None,
            }),
            name_parts.deep_view() == name_tokens(words.deep_view().take(i as int)),
        decreases words@.len() - i,
    {
        let ghost prev = name_parts.deep_view();
        let clean = crate::text::strip_currency_marks(&words[i]);
        let parsed = parse_amount_token(&clean);
        proof {
            reveal(Seq::filter);
            let dv = words.deep_view();
            assert(dv.take(i + 1 as int).drop_last() =~= dv.take(i as int));
            assert(dv.take(i + 1 as int).last() == dv[i as int]);
            assert(dv[i as int] == words@[i as int]@);
        }
        match parsed {
            Option::Some(v) => {
                amount = Option::Some(v);
                proof {
                    assert(is_amount_token(words@[i as int]@));
                    assert(name_parts.deep_view() =~~= name_tokens(
                        words.deep_view().take(i + 1 as int),
                    ));
                }
            },
            Option::None => {
                let t = copy_chars(&words[i]);
                name_parts.push(t);
                proof {
                    assert(!is_amount_token(words@[i as int]@));
                    assert(name_parts.deep_view() =~~= prev.push(words@[i as int]@));
                    assert(name_parts.deep_view() =~~= name_tokens(
                        words.deep_view().take(i + 1 as int),
                    ));
                }
            },
        }
        i = i + 1;
    }
    proof {
        assert(words.deep_view().take(words@.len() as int) =~= words.deep_view());
    }
    let joined = crate::text::join_tokens(&name_parts);
    let name: String;
    if joined.len() == 0 {
        name = String::from_str("New Item");
    } else {
        let mut cap: Vec<char> = Vec::new();
        cap.push(crate::text::to_upper(joined[0]));
        let mut ci: usize = 1;
        while ci < joined.len()
            invariant
                1 <= ci <= joined@.len(),
                cap@.len() == ci,
                cap@[0] == upper_char(joined@[0]),
                forall|k: int| 1 <= k < ci ==> cap@[k] == joined@[k],
            decreases joined@.len() - ci,
        {
            cap.push(joined[ci]);
            ci = ci + 1;
        }
        proof {
            assert(cap@ =~= seq![upper_char(joined@[0])] + joined@.skip(1));
        }
        name = crate::text::string_from_chars(&cap);
    }
    let amount_millis: i64 = match amount {
        Option::Some(v) => v,
        Option::None => 0,
    };
    let cat_word: Option<Vec<char>> = if at.len() > 0 {
        proof {
            assert(at.deep_view()[0] == at@[0]@);
            assert(starts_with(at.deep_view()[0], '@'));
        }
        let t = tail_chars(&at[0]);
        Option::Some(t)
    } else {
        Option::None
    };
    QuickParts { name, amount_millis, cycle, cat_word, canon }
}

/// Parses one line of quick-add text into an expense item. The parse
/// never fails: missing pieces default to a zero amount, a monthly
/// cycle, the bucket `Other` and the name `New Item`.
pub fn parse_quick_add_expense(raw: &str) -> (item: CostItem)
    ensures
        item@.what == spec_quick_name(raw@),
        item@.cost_millis == spec_quick_amount(raw@),
        item@.cost_cycle == spec_quick_cycle(raw@),
        item@.cost_category == spec_quick_expense_category(raw@),
        item@.id == 0,
        item@.tags is None,
        item.wf(),
{
    let parts = parse_core(raw);
    let category = match &parts.cat_word {
        Option::Some(wv) => expense_cat_of_word(wv),
        Option::None => expense_cat_fallback(&parts.canon),
    };
    CostItem {
        id: 0,
        what: parts.name,
        cost: Amount { millis: parts.amount_millis },
        cost_cycle: parts.cycle,
        cost_category: category,
        tags: Option::None,
    }
}

/// Parses one line of quick-add text into an income item, with the
/// income synonym tables in place of the expense ones.
pub fn parse_quick_add_income(raw: &str) -> (item: IncomeItem)
    ensures
        item@.source == spec_quick_name(raw@),
        item@.amount_millis == spec_quick_amount(raw@),
        item@.income_cycle == spec_quick_cycle(raw@),
        item@.category == spec_quick_income_category(raw@),
        item@.tags is None,
        item.wf(),
{
    let parts = parse_core(raw);
    let category = match &parts.cat_word {
        Option::Some(wv) => income_cat_of_word(wv),
        Option::None => income_cat_fallback(&parts.canon),
    };
    IncomeItem {
        source: parts.name,
        category,
        amount: Amount { millis: parts.amount_millis },
        income_cycle: parts.cycle,
        tags: Option::None,
    }
}

} // verus!
