//! The data model: recurrence cycles, category enumerations, money amounts,
//! and the cost and income line items built from them.

use vstd::prelude::*;

verus! {

/// Billing or earning frequency of a line item.
#[derive(Debug, Clone, Copy, PartialEq, Eq, Structural)]
pub enum CostCycle {
    Daily,
    Weekly,
    Monthly,
    Yearly,
}

/// Closed set of expense buckets.
#[derive(Debug, Clone, Copy, PartialEq, Eq, Structural)]
pub enum ExpenceCategory {
    Housing,
    Transportation,
    Groceries,
    Healthcare,
    PersonalCare,
    DiningOut,
    Entertainment,
    Shopping,
    Savings,
    DebtPayments,
    Utilities,
    Insurance,
    Other,
}

/// Closed set of income buckets.
#[derive(Debug, Clone, Copy, PartialEq, Eq, Structural)]
pub enum IncomeCategory {
    Salary,
    Freelance,
    Investment,
    SideHustle,
    Bonus,
    Gift,
    Other,
}

/// Largest magnitude an [`Amount`] may hold, in thousandths of a unit
/// (one billion whole units). The bound keeps every monthly-equivalent
/// figure, which scales an amount by at most 91320, inside `i64`.
pub const AMOUNT_LIMIT_MILLIS: i64 = 1_000_000_000_000;

/// A money value in thousandths of a currency unit, so that quick-add
/// input with up to three decimal places is held exactly.
#[derive(Debug, Clone, Copy, PartialEq, Eq, Structural)]
pub struct Amount {
    pub millis: i64,
}

impl Amount {
    /// The magnitude stays within [`AMOUNT_LIMIT_MILLIS`].
    pub open spec fn wf(self) -> bool {
        -AMOUNT_LIMIT_MILLIS <= self.millis <= AMOUNT_LIMIT_MILLIS
    }

    pub fn zero() -> (r: Amount)
        ensures
            r.millis == 0,
            r.wf(),
    {
        Amount { millis: 0 }
    }

    /// Builds an amount from a count of thousandths of a unit.
    pub fn from_millis(millis: i64) -> (r: Amount)
        requires
            -AMOUNT_LIMIT_MILLIS <= millis <= AMOUNT_LIMIT_MILLIS,
        ensures
            r.millis == millis,
            r.wf(),
    {
        Amount { millis }
    }

    /// Builds an amount from whole currency units.
    pub fn from_units(units: i64) -> (r: Amount)
        requires
            -1_000_000_000 <= units <= 1_000_000_000,
        ensures
            r.millis == units * 1000,
            r.wf(),
    {
        Amount { millis: units * 1000 }
    }
}

/// A recurring expense record.
#[derive(Debug)]
pub struct CostItem {
    pub id: u64,
    pub what: String,
    pub cost: Amount,
    pub cost_cycle: CostCycle,
    pub cost_category: ExpenceCategory,
    pub tags: Option<Vec<String>>,
}

/// The mathematical value of a [`CostItem`].
pub ghost struct CostItemModel {
    pub id: int,
    pub what: Seq<char>,
    pub cost_millis: int,
    pub cost_cycle: CostCycle,
    pub cost_category: ExpenceCategory,
    pub tags: Option<Seq<Seq<char>>>,
}

impl View for CostItem {
    type V = CostItemModel;

    open spec fn view(&self) -> CostItemModel {
        CostItemModel {
            id: self.id as int,
            what: self.what@,
            cost_millis: self.cost.millis as int,
            cost_cycle: self.cost_cycle,
            cost_category: self.cost_category,
            tags: match self.tags {
                Option::None => Option::None,
                Option::Some(v) => Option::Some(v.deep_view()),
            },
        }
    }
}

impl DeepView for CostItem {
    type V = CostItemModel;

    open spec fn deep_view(&self) -> CostItemModel {
        self.view()
    }
}

/// A recurring income record.
#[derive(Debug)]
pub struct IncomeItem {
    pub source: String,
    pub category: IncomeCategory,
    pub amount: Amount,
    pub income_cycle: CostCycle,
    pub tags: Option<Vec<String>>,
}

/// The mathematical value of an [`IncomeItem`].
pub ghost struct IncomeItemModel {
    pub source: Seq<char>,
    pub category: IncomeCategory,
    pub amount_millis: int,
    pub income_cycle: CostCycle,
    pub tags: Option<Seq<Seq<char>>>,
}

impl View for IncomeItem {
    type V = IncomeItemModel;

    open spec fn view(&self) -> IncomeItemModel {
        IncomeItemModel {
            source: self.source@,
            category: self.category,
            amount_millis: self.amount.millis as int,
            income_cycle: self.income_cycle,
            tags: match self.tags {
                Option::None => Option::None,
                Option::Some(v) => Option::Some(v.deep_view()),
            },
        }
    }
}

impl DeepView for IncomeItem {
    type V = IncomeItemModel;

    open spec fn deep_view(&self) -> IncomeItemModel {
        self.view()
    }
}

impl CostItem {
    pub open spec fn wf(self) -> bool {
        self.cost.wf()
    }

    /// The tag list as a sequence of character sequences; no tag list and
    /// an empty one look alike here.
    pub open spec fn spec_tags(self) -> Seq<Seq<char>> {
        match self@.tags {
            Option::None => Seq::empty(),
            Option::Some(ts) => ts,
        }
    }
}

impl IncomeItem {
    pub open spec fn wf(self) -> bool {
        self.amount.wf()
    }
}

/// A character a tag may hold once normalized: ASCII letters, digits and
/// underscores.
pub open spec fn is_tag_char(c: char) -> bool {
    ('0' <= c && c <= '9') || ('a' <= c && c <= 'z') || ('A' <= c && c <= 'Z') || c == '_'
}

/// Executable form of [`is_tag_char`].
pub fn tag_char(c: char) -> (r: bool)
    ensures
        r == is_tag_char(c),
{
    ('0' <= c && c <= '9') || ('a' <= c && c <= 'z') || ('A' <= c && c <= 'Z') || c == '_'
}

/// The normal form of raw tag input: trimmed, every whitespace character
/// replaced by an underscore, and lowercased. `None` when nothing is
/// left or a character other than an ASCII letter, digit or underscore
/// remains.
pub open spec fn spec_normalize_tag(raw: Seq<char>) -> Option<Seq<char>> {
    let t = crate::text::lower_seq(
        crate::text::trim_seq(raw).map_values(
            |c: char|
                if crate::text::is_space_char(c) {
                    '_'
                } else {
                    c
                },
        ),
    );
    if t.len() > 0 && (forall|k: int| 0 <= k < t.len() ==> is_tag_char(#[trigger] t[k])) {
        Option::Some(t)
    } else {
        Option::None
    }
}

/// Normalizes raw tag input, exactly as [`spec_normalize_tag`] defines
/// it.
pub fn normalize_tag(raw: &str) -> (r: Option<String>)
    ensures
        (match r {
            Option::Some(s) => spec_normalize_tag(raw@) == Option::Some(s@),
            Option::None => spec_normalize_tag(raw@) is None,
        }),
{
    let chars = crate::text::chars_of(raw);
    let trimmed = crate::text::trim(&chars);
    let mut replaced: Vec<char> = Vec::new();
    let mut i: usize = 0;
    while i < trimmed.len()
        invariant
            i <= trimmed@.len(),
            replaced@.len() == i,
            forall|k: int|
                0 <= k < i ==> replaced@[k] == (if crate::text::is_space_char(trimmed@[k]) {
                    '_'
                } else {
                    trimmed@[k]
                }),
        decreases trimmed@.len() - i,
    {
        if crate::text::is_space(trimmed[i]) {
            replaced.push('_');
        } else {
            replaced.push(trimmed[i]);
        }
        i = i + 1;
    }
    proof {
        assert(replaced@ =~= trimmed@.map_values(
            |c: char|
                if crate::text::is_space_char(c) {
                    '_'
                } else {
                    c
                },
        ));
    }
    let lowered = crate::text::lower_vec(&replaced);
    if lowered.len() == 0 {
        return Option::None;
    }
    let mut j: usize = 0;
    while j < lowered.len()
        invariant
            j <= lowered@.len(),
            lowered@.len() > 0,
            lowered@ == crate::text::lower_seq(
                crate::text::trim_seq(raw@).map_values(
                    |c: char|
                        if crate::text::is_space_char(c) {
                            '_'
                        } else {
                            c
                        },
                ),
            ),
            forall|k: int| 0 <= k < j ==> is_tag_char(#[trigger] lowered@[k]),
        decreases lowered@.len() - j,
    {
        if !tag_char(lowered[j]) {
            return Option::None;
        }
        j = j + 1;
    }
    Option::Some(crate::text::string_from_chars(&lowered))
}

/// A tag list with `t` added unless it is already present: adding is a
/// no-op on a list that holds the tag.
pub open spec fn spec_add_tag(ts: Seq<Seq<char>>, t: Seq<char>) -> Seq<Seq<char>> {
    if ts.contains(t) {
        ts
    } else {
        ts.push(t)
    }
}

/// Adding the same tag twice changes nothing the second time: the tag
/// set, and in particular its size, is left as the first addition made
/// it.
pub proof fn lemma_add_tag_idempotent(ts: Seq<Seq<char>>, t: Seq<char>)
    ensures
        spec_add_tag(spec_add_tag(ts, t), t) == spec_add_tag(ts, t),
{
    if !ts.contains(t) {
        assert(ts.push(t)[ts.len() as int] == t);
        assert(ts.push(t).contains(t));
    }
}

impl CostItem {
    /// Adds a normalized tag to the item unless it already carries it;
    /// every other field is left alone.
    pub fn add_tag(&mut self, tag: String)
        ensures
            final(self).spec_tags() == spec_add_tag(old(self).spec_tags(), tag@),
            final(self)@.tags is Some,
            final(self)@.id == old(self)@.id,
            final(self)@.what == old(self)@.what,
            final(self)@.cost_millis == old(self)@.cost_millis,
            final(self)@.cost_cycle == old(self)@.cost_cycle,
            final(self)@.cost_category == old(self)@.cost_category,
            final(self).cost == old(self).cost,
    {
        let mut new_tags: Vec<String> = Vec::new();
        let mut present: bool = false;
        match &self.tags {
            Option::Some(v) => {
                let mut i: usize = 0;
                while i < v.len()
                    invariant
                        i <= v@.len(),
                        new_tags@.len() == i,
                        forall|k: int| 0 <= k < i ==> new_tags@[k]@ == v@[k]@,
                        present <==> (exists|k: int| 0 <= k < i && v.deep_view()[k] == tag@),
                    decreases v@.len() - i,
                {
                    if v[i].eq(&tag) {
                        present = true;
                        proof {
                            assert(v.deep_view()[i as int] == tag@);
                        }
                    }
                    new_tags.push(v[i].clone());
                    i = i + 1;
                }
                proof {
                    assert(new_tags.deep_view() =~= v.deep_view());
                    assert(present <==> v.deep_view().contains(tag@));
                }
            },
            Option::None => {},
        }
        if !present {
            new_tags.push(tag);
        }
        proof {
            assert(new_tags.deep_view() =~= spec_add_tag(old(self).spec_tags(), tag@));
        }
        self.tags = Option::Some(new_tags);
    }

    /// Removes the tag at a position; an emptied list becomes no list at
    /// all, as the display distinguishes the two.
    pub fn remove_tag(&mut self, idx: usize)
        requires
            idx < old(self).spec_tags().len(),
        ensures
            final(self).spec_tags() == old(self).spec_tags().remove(idx as int),
            final(self)@.id == old(self)@.id,
            final(self)@.what == old(self)@.what,
            final(self)@.cost_millis == old(self)@.cost_millis,
            final(self)@.cost_cycle == old(self)@.cost_cycle,
            final(self)@.cost_category == old(self)@.cost_category,
            final(self).cost == old(self).cost,
            final(self)@.tags is Some <==> old(self).spec_tags().len() > 1,
    {
        let mut new_tags: Vec<String> = Vec::new();
        match &self.tags {
            Option::Some(v) => {
                let mut i: usize = 0;
                while i < v.len()
                    invariant
                        idx < v@.len(),
                        i <= v@.len(),
                        new_tags@.len() == (if i <= idx {
                            i as int
                        } else {
                            i - 1
                        }),
                        forall|k: int| 0 <= k < i && k < idx ==> new_tags@[k]@ == v@[k]@,
                        forall|k: int| idx < k < i ==> new_tags@[k - 1]@ == v@[k]@,
                    decreases v@.len() - i,
                {
                    if i != idx {
                        new_tags.push(v[i].clone());
                    }
                    i = i + 1;
                }
                proof {
                    assert(new_tags.deep_view() =~= v.deep_view().remove(idx as int));
                }
            },
            Option::None => {
                proof {
                    assert(false);
                }
            },
        }
        if new_tags.len() == 0 {
            self.tags = Option::None;
            proof {
                assert(old(self).spec_tags().remove(idx as int) =~= Seq::<Seq<char>>::empty());
            }
        } else {
            self.tags = Option::Some(new_tags);
        }
    }
}

impl Clone for CostItem {
    fn clone(&self) -> (r: Self)
        ensures
            r@ == self@,
    {
        CostItem {
            id: self.id,
            what: self.what.clone(),
            cost: self.cost,
            cost_cycle: self.cost_cycle,
            cost_category: self.cost_category,
            tags: clone_tags(&self.tags),
        }
    }
}

impl Clone for IncomeItem {
    fn clone(&self) -> (r: Self)
        ensures
            r@ == self@,
    {
        IncomeItem {
            source: self.source.clone(),
            category: self.category,
            amount: self.amount,
            income_cycle: self.income_cycle,
            tags: clone_tags(&self.tags),
        }
    }
}

/// Clones an optional tag list, keeping every tag's characters.
fn clone_tags(tags: &Option<Vec<String>>) -> (r: Option<Vec<String>>)
    ensures
        (match (r, tags) {
            (Option::Some(rv), Option::Some(tv)) => rv.deep_view() == tv.deep_view(),
            (Option::None, Option::None) => true,
            _ => false,
        }),
{
    match tags {
        Option::None => Option::None,
        Option::Some(v) => {
            let mut out: Vec<String> = Vec::new();
            let mut i: usize = 0;
            while i < v.len()
                invariant
                    i <= v.len(),
                    out.len() == i,
                    forall|k: int| 0 <= k < i ==> out@[k]@ == v@[k]@,
                decreases v.len() - i,
            {
                out.push(v[i].clone());
                i = i + 1;
            }
            proof {
                assert(out.deep_view() =~= v.deep_view());
            }
            Option::Some(out)
        },
    }
}

impl Default for CostItem {
    /// An empty record: zero cost on a weekly cycle in the bucket `Other`.
    fn default() -> (r: Self)
        ensures
            r@.id == 0,
            r@.what == Seq::<char>::empty(),
            r@.cost_millis == 0,
            r@.cost_cycle is Weekly,
            r@.cost_category is Other,
            r@.tags is None,
            r.wf(),
    {
        CostItem {
            id: 0,
            what: String::new(),
            cost: Amount { millis: 0 },
            cost_cycle: CostCycle::Weekly,
            cost_category: ExpenceCategory::Other,
            tags: Option::None,
        }
    }
}

impl Default for IncomeItem {
    /// An empty record: zero salary income on a monthly cycle.
    fn default() -> (r: Self)
        ensures
            r@.source == Seq::<char>::empty(),
            r@.category is Salary,
            r@.amount_millis == 0,
            r@.income_cycle is Monthly,
            r@.tags is None,
            r.wf(),
    {
        IncomeItem {
            source: String::new(),
            category: IncomeCategory::Salary,
            amount: Amount { millis: 0 },
            income_cycle: CostCycle::Monthly,
            tags: Option::None,
        }
    }
}

} // verus!
