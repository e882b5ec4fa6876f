//! The quick-add input widgets' state: the pending input line, the
//! marker-triggered suggestion lists, and submission. Rendering is not
//! here; a front end reads these fields, feeds edits back into `input`,
//! and calls [`QuickAdd::update_suggestions`] and [`QuickAdd::submit`].

use vstd::prelude::*;

use crate::items::{CostItem, IncomeItem};
use crate::parser::{parse_quick_add_expense, parse_quick_add_income, spec_quick_amount,
    spec_quick_cycle, spec_quick_expense_category, spec_quick_income_category, spec_quick_name};
use crate::text::{chars_of, lower_seq, lower_vec, string_from_chars, trim, trim_seq};

verus! {

/// The suffix of `s` after its last occurrence of `c`; all of `s` when
/// `c` does not occur.
pub open spec fn after_last(s: Seq<char>, c: char) -> Seq<char>
    decreases s.len(),
{
    if s.len() == 0 {
        Seq::empty()
    } else if s.last() == c {
        Seq::empty()
    } else {
        after_last(s.drop_last(), c).push(s.last())
    }
}

/// The suffix after the last occurrence starts right after that
/// occurrence.
proof fn lemma_after_last_is(s: Seq<char>, c: char, n: int)
    requires
        0 <= n <= s.len(),
        n == 0 || s[n - 1] == c,
        forall|k: int| n <= k < s.len() ==> s[k] != c,
    ensures
        after_last(s, c) == s.skip(n),
    decreases s.len(),
{
    if s.len() == 0 {
        assert(s.skip(0) =~= Seq::<char>::empty());
    } else if n == s.len() {
        assert(s.skip(n) =~= Seq::<char>::empty());
    } else {
        assert(s.last() != c);
        assert(forall|k: int| n <= k < s.drop_last().len() ==> s.drop_last()[k] != c);
        lemma_after_last_is(s.drop_last(), c, n);
        assert(after_last(s, c) =~= s.skip(n));
    }
}

/// Whether a marker character occurs in `s`.
pub open spec fn has_char(s: Seq<char>, c: char) -> bool {
    exists|k: int| 0 <= k < s.len() && s[k] == c
}

/// Whether `p` is a prefix of `n`.
pub open spec fn is_prefix(p: Seq<char>, n: Seq<char>) -> bool {
    p.len() <= n.len() && n.take(p.len() as int) == p
}

/// The position right after the last occurrence of `c`, and whether one
/// occurs at all.
fn find_after_last(v: &Vec<char>, c: char) -> (r: (bool, usize))
    ensures
        r.0 == has_char(v@, c),
        r.1 <= v@.len(),
        r.0 ==> r.1 >= 1 && v@[r.1 - 1] == c,
        after_last(v@, c) == v@.skip(r.1 as int),
{
    let mut cut: usize = 0;
    let mut found: bool = false;
    let mut i: usize = 0;
    while i < v.len()
        invariant
            i <= v@.len(),
            cut <= i,
            found == (exists|k: int| 0 <= k < i && v@[k] == c),
            !found ==> cut == 0,
            found ==> cut >= 1 && v@[cut - 1] == c,
            forall|k: int| cut <= k < i ==> v@[k] != c,
        decreases v@.len() - i,
    {
        if v[i] == c {
            found = true;
            cut = i + 1;
        }
        i = i + 1;
    }
    proof {
        assert(forall|k: int| cut <= k < v@.len() ==> v@[k] != c);
        if found {
            lemma_after_last_is(v@, c, cut as int);
        } else {
            assert(forall|k: int| 0 <= k < v@.len() ==> v@[k] != c);
            lemma_after_last_is(v@, c, 0);
            assert(v@.skip(0) =~= v@);
        }
        assert(after_last(v@, c) == v@.skip(cut as int));
    }
    (found, cut)
}

/// The lowercased text after the last occurrence of the marker: what a
/// partially typed marker word is matched against.
pub open spec fn spec_marker_prefix(input: Seq<char>, c: char) -> Seq<char> {
    lower_seq(after_last(input, c))
}

/// Computes the lowercased text after the last marker occurrence.
fn marker_prefix(v: &Vec<char>, c: char) -> (r: (bool, Vec<char>))
    ensures
        r.0 == has_char(v@, c),
        r.1@ == spec_marker_prefix(v@, c),
{
    let (found, cut) = find_after_last(v, c);
    let mut suffix: Vec<char> = Vec::new();
    let mut i: usize = cut;
    while i < v.len()
        invariant
            cut <= i <= v@.len(),
            suffix@.len() == i - cut,
            forall|k: int| 0 <= k < i - cut ==> suffix@[k] == v@[cut + k],
        decreases v@.len() - i,
    {
        suffix.push(v[i]);
        i = i + 1;
    }
    proof {
        assert(suffix@ =~= v@.skip(cut as int));
    }
    (found, crate::text::lower_vec(&suffix))
}

/// Whether the name starts with the typed prefix.
fn name_has_prefix(name: &str, p: &Vec<char>) -> (r: bool)
    ensures
        r == is_prefix(p@, name@),
{
    let n: usize = name.unicode_len();
    if p.len() > n {
        return false;
    }
    let mut i: usize = 0;
    while i < p.len()
        invariant
            i <= p@.len() <= n,
            n == name@.len(),
            forall|k: int| 0 <= k < i ==> name@[k] == p@[k],
        decreases p@.len() - i,
    {
        if name.get_char(i) != p[i] {
            proof {
                assert(name@.take(p@.len() as int)[i as int] != p@[i as int]);
            }
            return false;
        }
        i = i + 1;
    }
    proof {
        assert(name@.take(p@.len() as int) =~= p@);
    }
    true
}

/// The name when the prefix matches it, else nothing.
pub open spec fn pick(name: Seq<char>, p: Seq<char>) -> Seq<Seq<char>> {
    if is_prefix(p, name) {
        seq![name]
    } else {
        Seq::empty()
    }
}

/// The canonical expense category names whose spelling starts with the
/// typed prefix, in the fixed menu order.
pub open spec fn spec_expense_name_matches(p: Seq<char>) -> Seq<Seq<char>> {
    pick("housing"@, p) + pick("transportation"@, p) + pick("groceries"@, p) + pick(
        "healthcare"@,
        p,
    ) + pick("personalcare"@, p) + pick("diningout"@, p) + pick("entertainment"@, p) + pick(
        "shopping"@,
        p,
    ) + pick("savings"@, p) + pick("debt"@, p) + pick("utilities"@, p) + pick("insurance"@, p)
        + pick("other"@, p)
}

/// The canonical income category names matching the typed prefix.
pub open spec fn spec_income_name_matches(p: Seq<char>) -> Seq<Seq<char>> {
    pick("salary"@, p) + pick("freelance"@, p) + pick("investment"@, p) + pick("sidehustle"@, p)
        + pick("bonus"@, p) + pick("gift"@, p) + pick("other"@, p)
}

/// The cycle names matching the typed prefix.
pub open spec fn spec_cycle_name_matches(p: Seq<char>) -> Seq<Seq<char>> {
    pick("daily"@, p) + pick("weekly"@, p) + pick("monthly"@, p) + pick("yearly"@, p) + pick(
        "d"@,
        p,
    ) + pick("w"@, p) + pick("m"@, p) + pick("y"@, p)
}

/// Appends `name` to the list when the prefix matches it.
fn push_match(out: &mut Vec<String>, name: &str, p: &Vec<char>)
    ensures
        final(out).deep_view() == old(out).deep_view() + pick(name@, p@),
{
    let ghost prev = out.deep_view();
    if name_has_prefix(name, p) {
        out.push(String::from_str(name));
        proof {
            assert(out.deep_view() =~~= prev + pick(name@, p@));
        }
    } else {
        proof {
            assert(out.deep_view() =~~= prev + pick(name@, p@));
        }
    }
}

/// The edit a suggestion click makes: everything after the last marker
/// is replaced by the chosen name and a trailing space; with no marker
/// in the input, the marker and name alone remain.
pub open spec fn spec_apply_suggestion(input: Seq<char>, c: char, name: Seq<char>) -> Seq<char> {
    if has_char(input, c) {
        input.take(input.len() - after_last(input, c).len() - 1) + seq![c] + name + seq![' ']
    } else {
        seq![c] + name + seq![' ']
    }
}

/// Rewrites the input as a suggestion click does.
fn apply_suggestion(input: &String, c: char, name: &str) -> (r: String)
    ensures
        r@ == spec_apply_suggestion(input@, c, name@),
{
    let chars = chars_of(input.as_str());
    let (found, cut) = find_after_last(&chars, c);
    let mut out: Vec<char> = Vec::new();
    if found {
        let mut i: usize = 0;
        while i < cut - 1
            invariant
                found,
                1 <= cut <= chars@.len(),
                i <= cut - 1,
                out@.len() == i,
                forall|k: int| 0 <= k < i ==> out@[k] == chars@[k],
            decreases cut - i,
        {
            out.push(chars[i]);
            i = i + 1;
        }
        proof {
            assert(out@ =~= input@.take(cut - 1));
            assert(cut - 1 == input@.len() - after_last(input@, c).len() - 1);
        }
    }
    out.push(c);
    let name_chars = chars_of(name);
    let mut j: usize = 0;
    let ghost mid = out@;
    while j < name_chars.len()
        invariant
            j <= name_chars@.len(),
            name_chars@ == name@,
            out@ == mid + name@.take(j as int),
        decreases name_chars@.len() - j,
    {
        proof {
            assert(mid + name@.take(j + 1 as int) =~= (mid + name@.take(j as int)).push(
                name@[j as int],
            ));
        }
        out.push(name_chars[j]);
        j = j + 1;
    }
    out.push(' ');
    proof {
        assert(name@.take(name@.len() as int) =~= name@);
        assert(out@ =~= spec_apply_suggestion(input@, c, name@));
    }
    string_from_chars(&out)
}

/// The expense quick-add widget: the line being typed and the
/// suggestion lists the marker characters bring up.
#[derive(Debug)]
pub struct QuickAdd {
    pub input: String,
    pub show_category_suggestions: bool,
    pub show_cycle_suggestions: bool,
    pub filtered_categories: Vec<String>,
    pub filtered_cycles: Vec<String>,
}

impl Default for QuickAdd {
    /// An empty widget: no input, nothing suggested.
    fn default() -> (r: Self)
        ensures
            r.input@ == Seq::<char>::empty(),
            !r.show_category_suggestions,
            !r.show_cycle_suggestions,
            r.filtered_categories@.len() == 0,
            r.filtered_cycles@.len() == 0,
    {
        QuickAdd {
            input: String::new(),
            show_category_suggestions: false,
            show_cycle_suggestions: false,
            filtered_categories: Vec::new(),
            filtered_cycles: Vec::new(),
        }
    }
}

impl QuickAdd {
    pub fn new() -> (r: Self)
        ensures
            r.input@ == Seq::<char>::empty(),
            !r.show_category_suggestions,
            !r.show_cycle_suggestions,
            r.filtered_categories@.len() == 0,
            r.filtered_cycles@.len() == 0,
    {
        Self::default()
    }

    /// Recomputes both suggestion lists from the current input: with a
    /// marker present, the canonical names the typed tail is a prefix
    /// of; without one, the suggestions are hidden and left as they
    /// were.
    pub fn update_suggestions(&mut self)
        ensures
            final(self).input@ == old(self).input@,
            ({
                let inp = old(self).input@;
                let post = *final(self);
                &&& (has_char(inp, '@') ==> post.filtered_categories.deep_view()
                    == spec_expense_name_matches(spec_marker_prefix(inp, '@'))
                    && post.show_category_suggestions == (post.filtered_categories@.len() > 0))
                &&& (!has_char(inp, '@') ==> !post.show_category_suggestions
                    && post.filtered_categories@ == old(self).filtered_categories@)
                &&& (has_char(inp, '\\') ==> post.filtered_cycles.deep_view()
                    == spec_cycle_name_matches(spec_marker_prefix(inp, '\\'))
                    && post.show_cycle_suggestions == (post.filtered_cycles@.len() > 0))
                &&& (!has_char(inp, '\\') ==> !post.show_cycle_suggestions
                    && post.filtered_cycles@ == old(self).filtered_cycles@)
            }),
    {
        let chars = chars_of(self.input.as_str());
        let (has_at, cat_prefix) = marker_prefix(&chars, '@');
        if has_at {
            let mut cats: Vec<String> = Vec::new();
            proof {
                assert(cats.deep_view() =~~= Seq::<Seq<char>>::empty());
                assert(Seq::<Seq<char>>::empty() + pick("housing"@, cat_prefix@) =~~= pick(
                    "housing"@,
                    cat_prefix@,
                ));
            }
            push_match(&mut cats, "housing", &cat_prefix);
            push_match(&mut cats, "transportation", &cat_prefix);
            push_match(&mut cats, "groceries", &cat_prefix);
            push_match(&mut cats, "healthcare", &cat_prefix);
            push_match(&mut cats, "personalcare", &cat_prefix);
            push_match(&mut cats, "diningout", &cat_prefix);
            push_match(&mut cats, "entertainment", &cat_prefix);
            push_match(&mut cats, "shopping", &cat_prefix);
            push_match(&mut cats, "savings", &cat_prefix);
            push_match(&mut cats, "debt", &cat_prefix);
            push_match(&mut cats, "utilities", &cat_prefix);
            push_match(&mut cats, "insurance", &cat_prefix);
            push_match(&mut cats, "other", &cat_prefix);
            self.show_category_suggestions = cats.len() > 0;
            self.filtered_categories = cats;
        } else {
            self.show_category_suggestions = false;
        }
        let (has_bs, cyc_prefix) = marker_prefix(&chars, '\\');
        if has_bs {
            let mut cycles: Vec<String> = Vec::new();
            proof {
                assert(cycles.deep_view() =~~= Seq::<Seq<char>>::empty());
                assert(Seq::<Seq<char>>::empty() + pick("daily"@, cyc_prefix@) =~~= pick(
                    "daily"@,
                    cyc_prefix@,
                ));
            }
            push_match(&mut cycles, "daily", &cyc_prefix);
            push_match(&mut cycles, "weekly", &cyc_prefix);
            push_match(&mut cycles, "monthly", &cyc_prefix);
            push_match(&mut cycles, "yearly", &cyc_prefix);
            push_match(&mut cycles, "d", &cyc_prefix);
            push_match(&mut cycles, "w", &cyc_prefix);
            push_match(&mut cycles, "m", &cyc_prefix);
            push_match(&mut cycles, "y", &cyc_prefix);
            self.show_cycle_suggestions = cycles.len() > 0;
            self.filtered_cycles = cycles;
        } else {
            self.show_cycle_suggestions = false;
        }
    }

    /// A click on a category suggestion: the typed tail becomes the
    /// chosen name and the list closes.
    pub fn apply_category_suggestion(&mut self, name: &str)
        ensures
            final(self).input@ == spec_apply_suggestion(old(self).input@, '@', name@),
            !final(self).show_category_suggestions,
            final(self).show_cycle_suggestions == old(self).show_cycle_suggestions,
    {
        self.input = apply_suggestion(&self.input, '@', name);
        self.show_category_suggestions = false;
    }

    /// A click on a cycle suggestion.
    pub fn apply_cycle_suggestion(&mut self, name: &str)
        ensures
            final(self).input@ == spec_apply_suggestion(old(self).input@, '\\', name@),
            !final(self).show_cycle_suggestions,
            final(self).show_category_suggestions == old(self).show_category_suggestions,
    {
        self.input = apply_suggestion(&self.input, '\\', name);
        self.show_cycle_suggestions = false;
    }

    /// Submission: whitespace-only input yields nothing and is kept;
    /// anything else is parsed into a cost item, and the line and the
    /// suggestions are cleared.
    pub fn submit(&mut self) -> (r: Option<CostItem>)
        ensures
            ({
                let inp = old(self).input@;
                let post = *final(self);
                if trim_seq(inp).len() == 0 {
                    r is None && post.input@ == inp
                } else {
                    match r {
                        Option::Some(item) => item@.what == spec_quick_name(inp)
                            && item@.cost_millis == spec_quick_amount(inp) && item@.cost_cycle
                            == spec_quick_cycle(inp) && item@.cost_category
                            == spec_quick_expense_category(inp) && item@.id == 0
                            && item@.tags is None && item.wf() && post.input@
                            == Seq::<char>::empty() && !post.show_category_suggestions
                            && !post.show_cycle_suggestions,
                        Option::None => false,
                    }
                }
            }),
    {
        let chars = chars_of(self.input.as_str());
        let trimmed = trim(&chars);
        if trimmed.len() == 0 {
            return Option::None;
        }
        let item = parse_quick_add_expense(self.input.as_str());
        self.input = String::new();
        self.show_category_suggestions = false;
        self.show_cycle_suggestions = false;
        Option::Some(item)
    }
}

/// The income quick-add widget: the same mechanics over the income
/// category names.
#[derive(Debug)]
pub struct QuickAddIncome {
    pub input: String,
    pub show_category_suggestions: bool,
    pub show_cycle_suggestions: bool,
    pub filtered_categories: Vec<String>,
    pub filtered_cycles: Vec<String>,
}

impl Default for QuickAddIncome {
    /// An empty widget: no input, nothing suggested.
    fn default() -> (r: Self)
        ensures
            r.input@ == Seq::<char>::empty(),
            !r.show_category_suggestions,
            !r.show_cycle_suggestions,
            r.filtered_categories@.len() == 0,
            r.filtered_cycles@.len() == 0,
    {
        QuickAddIncome {
            input: String::new(),
            show_category_suggestions: false,
            show_cycle_suggestions: false,
            filtered_categories: Vec::new(),
            filtered_cycles: Vec::new(),
        }
    }
}

impl QuickAddIncome {
    pub fn new() -> (r: Self)
        ensures
            r.input@ == Seq::<char>::empty(),
            !r.show_category_suggestions,
            !r.show_cycle_suggestions,
            r.filtered_categories@.len() == 0,
            r.filtered_cycles@.len() == 0,
    {
        Self::default()
    }

    /// Recomputes both suggestion lists from the current input, over
    /// the income category names.
    pub fn update_suggestions(&mut self)
        ensures
            final(self).input@ == old(self).input@,
            ({
                let inp = old(self).input@;
                let post = *final(self);
                &&& (has_char(inp, '@') ==> post.filtered_categories.deep_view()
                    == spec_income_name_matches(spec_marker_prefix(inp, '@'))
                    && post.show_category_suggestions == (post.filtered_categories@.len() > 0))
                &&& (!has_char(inp, '@') ==> !post.show_category_suggestions
                    && post.filtered_categories@ == old(self).filtered_categories@)
                &&& (has_char(inp, '\\') ==> post.filtered_cycles.deep_view()
                    == spec_cycle_name_matches(spec_marker_prefix(inp, '\\'))
                    && post.show_cycle_suggestions == (post.filtered_cycles@.len() > 0))
                &&& (!has_char(inp, '\\') ==> !post.show_cycle_suggestions
                    && post.filtered_cycles@ == old(self).filtered_cycles@)
            }),
    {
        let chars = chars_of(self.input.as_str());
        let (has_at, cat_prefix) = marker_prefix(&chars, '@');
        if has_at {
            let mut cats: Vec<String> = Vec::new();
            proof {
                assert(cats.deep_view() =~~= Seq::<Seq<char>>::empty());
                assert(Seq::<Seq<char>>::empty() + pick("salary"@, cat_prefix@) =~~= pick(
                    "salary"@,
                    cat_prefix@,
                ));
            }
            push_match(&mut cats, "salary", &cat_prefix);
            push_match(&mut cats, "freelance", &cat_prefix);
            push_match(&mut cats, "investment", &cat_prefix);
            push_match(&mut cats, "sidehustle", &cat_prefix);
            push_match(&mut cats, "bonus", &cat_prefix);
            push_match(&mut cats, "gift", &cat_prefix);
            push_match(&mut cats, "other", &cat_prefix);
            self.show_category_suggestions = cats.len() > 0;
            self.filtered_categories = cats;
        } else {
            self.show_category_suggestions = false;
        }
        let (has_bs, cyc_prefix) = marker_prefix(&chars, '\\');
        if has_bs {
            let mut cycles: Vec<String> = Vec::new();
            proof {
                assert(cycles.deep_view() =~~= Seq::<Seq<char>>::empty());
                assert(Seq::<Seq<char>>::empty() + pick("daily"@, cyc_prefix@) =~~= pick(
                    "daily"@,
                    cyc_prefix@,
                ));
            }
            push_match(&mut cycles, "daily", &cyc_prefix);
            push_match(&mut cycles, "weekly", &cyc_prefix);
            push_match(&mut cycles, "monthly", &cyc_prefix);
            push_match(&mut cycles, "yearly", &cyc_prefix);
            push_match(&mut cycles, "d", &cyc_prefix);
            push_match(&mut cycles, "w", &cyc_prefix);
            push_match(&mut cycles, "m", &cyc_prefix);
            push_match(&mut cycles, "y", &cyc_prefix);
            self.show_cycle_suggestions = cycles.len() > 0;
            self.filtered_cycles = cycles;
        } else {
            self.show_cycle_suggestions = false;
        }
    }

    /// A click on a category suggestion.
    pub fn apply_category_suggestion(&mut self, name: &str)
        ensures
            final(self).input@ == spec_apply_suggestion(old(self).input@, '@', name@),
            !final(self).show_category_suggestions,
            final(self).show_cycle_suggestions == old(self).show_cycle_suggestions,
    {
        self.input = apply_suggestion(&self.input, '@', name);
        self.show_category_suggestions = false;
    }

    /// A click on a cycle suggestion.
    pub fn apply_cycle_suggestion(&mut self, name: &str)
        ensures
            final(self).input@ == spec_apply_suggestion(old(self).input@, '\\', name@),
            !final(self).show_cycle_suggestions,
            final(self).show_category_suggestions == old(self).show_category_suggestions,
    {
        self.input = apply_suggestion(&self.input, '\\', name);
        self.show_cycle_suggestions = false;
    }

    /// Submission: whitespace-only input yields nothing; anything else
    /// is parsed into an income item and the line is cleared.
    pub fn submit(&mut self) -> (r: Option<IncomeItem>)
        ensures
            ({
                let inp = old(self).input@;
                let post = *final(self);
                if trim_seq(inp).len() == 0 {
                    r is None && post.input@ == inp
                } else {
                    match r {
                        Option::Some(item) => item@.source == spec_quick_name(inp)
                            && item@.amount_millis == spec_quick_amount(inp) && item@.income_cycle
                            == spec_quick_cycle(inp) && item@.category
                            == spec_quick_income_category(inp) && item@.tags is None && item.wf()
                            && post.input@ == Seq::<char>::empty()
                            && !post.show_category_suggestions && !post.show_cycle_suggestions,
                        Option::None => false,
                    }
                }
            }),
    {
        let chars = chars_of(self.input.as_str());
        let trimmed = trim(&chars);
        if trimmed.len() == 0 {
            return Option::None;
        }
        let item = parse_quick_add_income(self.input.as_str());
        self.input = String::new();
        self.show_category_suggestions = false;
        self.show_cycle_suggestions = false;
        Option::Some(item)
    }
}

} // verus!
