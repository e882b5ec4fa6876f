//! The cost-item table's interaction state: which column orders the
//! rows and in which direction, the per-row tag input buffers, and the
//! sorted view of the items that the table renders.

use vstd::prelude::*;

use crate::items::{CostCycle, CostItem, CostItemModel, ExpenceCategory};
use crate::normalize::{monthly_equiv, normalize_monthly};

verus! {

/// A sortable column of the table.
#[derive(Debug, Clone, Copy, PartialEq, Eq, Structural)]
pub enum SortColumn {
    What,
    Cost,
    Category,
    Cycle,
}

/// A sort direction.
#[derive(Debug, Clone, Copy, PartialEq, Eq, Structural)]
pub enum SortOrder {
    Ascending,
    Descending,
}

/// The direction a repeated click on the same column header switches to.
pub open spec fn spec_flip(ord: SortOrder) -> SortOrder {
    match ord {
        SortOrder::Ascending => SortOrder::Descending,
        SortOrder::Descending => SortOrder::Ascending,
    }
}

/// Lexicographic order on character sequences, by code point; this is
/// the order `str` comparison gives, since UTF-8 preserves it.
pub open spec fn lex_le(a: Seq<char>, b: Seq<char>) -> bool
    decreases a.len(),
{
    if a.len() == 0 {
        true
    } else if b.len() == 0 {
        false
    } else if a[0] != b[0] {
        a[0] < b[0]
    } else {
        lex_le(a.skip(1), b.skip(1))
    }
}

/// Any two sequences are lexicographically comparable.
proof fn lemma_lex_le_total(a: Seq<char>, b: Seq<char>)
    ensures
        lex_le(a, b) || lex_le(b, a),
    decreases a.len(),
{
    if a.len() > 0 && b.len() > 0 && a[0] == b[0] {
        lemma_lex_le_total(a.skip(1), b.skip(1));
    }
}

/// Lexicographic order is transitive.
proof fn lemma_lex_le_trans(a: Seq<char>, b: Seq<char>, c: Seq<char>)
    requires
        lex_le(a, b),
        lex_le(b, c),
    ensures
        lex_le(a, c),
    decreases a.len(),
{
    if a.len() > 0 && b.len() > 0 && c.len() > 0 && a[0] == b[0] && b[0] == c[0] {
        lemma_lex_le_trans(a.skip(1), b.skip(1), c.skip(1));
    }
}

/// Compares two strings lexicographically by character.
fn lex_le_str(a: &String, b: &String) -> (r: bool)
    ensures
        r == lex_le(a@, b@),
{
    let av = crate::text::chars_of(a.as_str());
    let bv = crate::text::chars_of(b.as_str());
    let mut i: usize = 0;
    proof {
        assert(a@.skip(0) =~= a@);
        assert(b@.skip(0) =~= b@);
    }
    while i < av.len() && i < bv.len()
        invariant
            i <= av@.len(),
            i <= bv@.len(),
            av@ == a@,
            bv@ == b@,
            lex_le(a@, b@) == lex_le(a@.skip(i as int), b@.skip(i as int)),
        decreases av@.len() - i,
    {
        if av[i] != bv[i] {
            return av[i] < bv[i];
        }
        proof {
            assert(a@.skip(i as int).skip(1) =~= a@.skip(i + 1 as int));
            assert(b@.skip(i as int).skip(1) =~= b@.skip(i + 1 as int));
        }
        i = i + 1;
    }
    av.len() <= bv.len()
}

/// The rank of an expense bucket under the name ordering the table
/// sorts by: buckets compare alphabetically by their display names.
pub open spec fn spec_category_rank(cat: ExpenceCategory) -> int {
    match cat {
        ExpenceCategory::DebtPayments => 0,
        ExpenceCategory::DiningOut => 1,
        ExpenceCategory::Entertainment => 2,
        ExpenceCategory::Groceries => 3,
        ExpenceCategory::Healthcare => 4,
        ExpenceCategory::Housing => 5,
        ExpenceCategory::Insurance => 6,
        ExpenceCategory::Other => 7,
        ExpenceCategory::PersonalCare => 8,
        ExpenceCategory::Savings => 9,
        ExpenceCategory::Shopping => 10,
        ExpenceCategory::Transportation => 11,
        ExpenceCategory::Utilities => 12,
    }
}

/// Executable form of [`spec_category_rank`].
pub fn category_rank(cat: &ExpenceCategory) -> (r: u8)
    ensures
        r == spec_category_rank(*cat),
{
    match cat {
        ExpenceCategory::DebtPayments => 0,
        ExpenceCategory::DiningOut => 1,
        ExpenceCategory::Entertainment => 2,
        ExpenceCategory::Groceries => 3,
        ExpenceCategory::Healthcare => 4,
        ExpenceCategory::Housing => 5,
        ExpenceCategory::Insurance => 6,
        ExpenceCategory::Other => 7,
        ExpenceCategory::PersonalCare => 8,
        ExpenceCategory::Savings => 9,
        ExpenceCategory::Shopping => 10,
        ExpenceCategory::Transportation => 11,
        ExpenceCategory::Utilities => 12,
    }
}

/// The rank of a cycle under the same name ordering.
pub open spec fn spec_cycle_rank(cycle: CostCycle) -> int {
    match cycle {
        CostCycle::Daily => 0,
        CostCycle::Monthly => 1,
        CostCycle::Weekly => 2,
        CostCycle::Yearly => 3,
    }
}

/// Executable form of [`spec_cycle_rank`].
pub fn cycle_rank(cycle: &CostCycle) -> (r: u8)
    ensures
        r == spec_cycle_rank(*cycle),
{
    match cycle {
        CostCycle::Daily => 0,
        CostCycle::Monthly => 1,
        CostCycle::Weekly => 2,
        CostCycle::Yearly => 3,
    }
}

/// The ascending order a column induces on items: names
/// lexicographically, costs by monthly equivalent, categories and
/// cycles by their name ranks.
pub open spec fn spec_col_le(col: SortColumn, a: CostItemModel, b: CostItemModel) -> bool {
    match col {
        SortColumn::What => lex_le(a.what, b.what),
        SortColumn::Cost => monthly_equiv(a.cost_millis, a.cost_cycle) <= monthly_equiv(
            b.cost_millis,
            b.cost_cycle,
        ),
        SortColumn::Category => spec_category_rank(a.cost_category) <= spec_category_rank(
            b.cost_category,
        ),
        SortColumn::Cycle => spec_cycle_rank(a.cost_cycle) <= spec_cycle_rank(b.cost_cycle),
    }
}

/// The order the table sorts by: the column order, reversed when
/// descending.
pub open spec fn spec_key_le(col: SortColumn, ord: SortOrder, a: CostItemModel, b: CostItemModel) -> bool {
    match ord {
        SortOrder::Ascending => spec_col_le(col, a, b),
        SortOrder::Descending => spec_col_le(col, b, a),
    }
}

/// Any two items are comparable under the table's order.
proof fn lemma_key_le_total(col: SortColumn, ord: SortOrder, a: CostItemModel, b: CostItemModel)
    ensures
        spec_key_le(col, ord, a, b) || spec_key_le(col, ord, b, a),
{
    if col is What {
        lemma_lex_le_total(a.what, b.what);
    }
}

/// The table's order is transitive.
proof fn lemma_key_le_trans(
    col: SortColumn,
    ord: SortOrder,
    a: CostItemModel,
    b: CostItemModel,
    c: CostItemModel,
)
    requires
        spec_key_le(col, ord, a, b),
        spec_key_le(col, ord, b, c),
    ensures
        spec_key_le(col, ord, a, c),
{
    if col is What {
        match ord {
            SortOrder::Ascending => lemma_lex_le_trans(a.what, b.what, c.what),
            SortOrder::Descending => lemma_lex_le_trans(c.what, b.what, a.what),
        }
    }
}

/// Compares two items under a column and direction.
fn item_le(col: &SortColumn, ord: &SortOrder, a: &CostItem, b: &CostItem) -> (r: bool)
    requires
        a.wf(),
        b.wf(),
    ensures
        r == spec_key_le(*col, *ord, a@, b@),
{
    match ord {
        SortOrder::Ascending => col_le(col, a, b),
        SortOrder::Descending => col_le(col, b, a),
    }
}

/// Compares two items under a column, ascending.
fn col_le(col: &SortColumn, a: &CostItem, b: &CostItem) -> (r: bool)
    requires
        a.wf(),
        b.wf(),
    ensures
        r == spec_col_le(*col, a@, b@),
{
    match col {
        SortColumn::What => lex_le_str(&a.what, &b.what),
        SortColumn::Cost => normalize_monthly(&a.cost, &a.cost_cycle) <= normalize_monthly(
            &b.cost,
            &b.cost_cycle,
        ),
        SortColumn::Category => category_rank(&a.cost_category) <= category_rank(&b.cost_category),
        SortColumn::Cycle => cycle_rank(&a.cost_cycle) <= cycle_rank(&b.cost_cycle),
    }
}

/// The first position in the tag input buffers holding the given item
/// id, or -1.
pub open spec fn spec_buf_find(bufs: Seq<(u64, String)>, id: u64) -> int
    decreases bufs.len(),
{
    if bufs.len() == 0 {
        -1
    } else if bufs[0].0 == id {
        0
    } else {
        let r = spec_buf_find(bufs.drop_first(), id);
        if r == -1 {
            -1
        } else {
            1 + r
        }
    }
}

/// The first matching position is exactly where a left-to-right scan
/// stops.
proof fn lemma_buf_find_is(bufs: Seq<(u64, String)>, id: u64, n: int)
    requires
        0 <= n <= bufs.len(),
        forall|k: int| 0 <= k < n ==> (#[trigger] bufs[k]).0 != id,
        n == bufs.len() || bufs[n].0 == id,
    ensures
        spec_buf_find(bufs, id) == (if n == bufs.len() {
            -1int
        } else {
            n
        }),
    decreases n,
{
    if bufs.len() == 0 {
    } else if n == 0 {
    } else {
        assert(forall|k: int| 0 <= k < n - 1 ==> (#[trigger] bufs.drop_first()[k]).0 != id);
        lemma_buf_find_is(bufs.drop_first(), id, n - 1);
    }
}

/// The table's interaction state: one pending tag input per row, and
/// the sort column and direction the headers have selected.
#[derive(Debug)]
pub struct CostItemTable {
    pub tag_inputs: Vec<(u64, String)>,
    pub sort_column: Option<SortColumn>,
    pub sort_order: SortOrder,
}

impl CostItemTable {
    /// A fresh table: nothing buffered, no sort selected.
    pub fn new() -> (r: Self)
        ensures
            r.tag_inputs@ == Seq::<(u64, String)>::empty(),
            r.sort_column is None,
            r.sort_order is Ascending,
    {
        let r = CostItemTable {
            tag_inputs: Vec::new(),
            sort_column: Option::None,
            sort_order: SortOrder::Ascending,
        };
        proof {
            assert(r.tag_inputs@ =~= Seq::<(u64, String)>::empty());
        }
        r
    }

    /// A click on a column header: the same column again reverses the
    /// direction; a new column sorts ascending.
    pub fn handle_sort_click(&mut self, column: SortColumn)
        ensures
            final(self).tag_inputs@ == old(self).tag_inputs@,
            ({
                let post = *final(self);
                if old(self).sort_column == Option::Some(column) {
                    post.sort_column == old(self).sort_column && post.sort_order == spec_flip(
                        old(self).sort_order,
                    )
                } else {
                    post.sort_column == Option::Some(column) && post.sort_order is Ascending
                }
            }),
    {
        let same = match &self.sort_column {
            Option::Some(current) => *current == column,
            Option::None => false,
        };
        if same {
            self.sort_order = match self.sort_order {
                SortOrder::Ascending => SortOrder::Descending,
                SortOrder::Descending => SortOrder::Ascending,
            };
        } else {
            self.sort_column = Option::Some(column);
            self.sort_order = SortOrder::Ascending;
        }
    }

    /// The buffered tag input for a row, empty when none is held.
    pub fn tag_input(&self, id: u64) -> (r: String)
        ensures
            ({
                let k = spec_buf_find(self.tag_inputs@, id);
                if k >= 0 {
                    r@ == self.tag_inputs@[k].1@
                } else {
                    r@ == Seq::<char>::empty()
                }
            }),
    {
        let mut i: usize = 0;
        let n: usize = self.tag_inputs.len();
        while i < n && self.tag_inputs[i].0 != id
            invariant
                i <= n,
                n == self.tag_inputs@.len(),
                forall|k: int| 0 <= k < i ==> (#[trigger] self.tag_inputs@[k]).0 != id,
            decreases n - i,
        {
            i = i + 1;
        }
        proof {
            lemma_buf_find_is(self.tag_inputs@, id, i as int);
        }
        if i < n {
            self.tag_inputs[i].1.clone()
        } else {
            String::new()
        }
    }

    /// Stores a row's pending tag input, replacing the buffer the row
    /// already has or adding one at the end.
    pub fn set_tag_input(&mut self, id: u64, text: String)
        ensures
            final(self).sort_column == old(self).sort_column,
            final(self).sort_order == old(self).sort_order,
            ({
                let k = spec_buf_find(old(self).tag_inputs@, id);
                if k >= 0 {
                    final(self).tag_inputs@ == old(self).tag_inputs@.update(k, (id, text))
                } else {
                    final(self).tag_inputs@ == old(self).tag_inputs@.push((id, text))
                }
            }),
    {
        let mut i: usize = 0;
        let n: usize = self.tag_inputs.len();
        while i < n && self.tag_inputs[i].0 != id
            invariant
                i <= n,
                n == self.tag_inputs@.len(),
                forall|k: int| 0 <= k < i ==> (#[trigger] self.tag_inputs@[k]).0 != id,
        decreases n - i,
        {
            i = i + 1;
        }
        proof {
            lemma_buf_find_is(self.tag_inputs@, id, i as int);
        }
        if i < n {
            self.tag_inputs.set(i, (id, text));
        } else {
            self.tag_inputs.push((id, text));
        }
    }

    /// One item's exact monthly-equivalent cost in scaled units, the
    /// figure the cost column sorts by.
    pub fn to_monthly_cost(&self, item: &CostItem) -> (r: i64)
        requires
            item.wf(),
        ensures
            r == monthly_equiv(item@.cost_millis, item@.cost_cycle),
    {
        normalize_monthly(&item.cost, &item.cost_cycle)
    }

    /// The rows in display order, each with the position it holds in
    /// the store: unsorted when no column is selected, otherwise a
    /// permutation of the rows ordered by the selected column and
    /// direction.
    pub fn get_sorted_items(&self, items: &Vec<CostItem>) -> (r: Vec<(usize, CostItem)>)
        requires
            forall|k: int| 0 <= k < items@.len() ==> (#[trigger] items@[k]).wf(),
        ensures
            ({
                let src = Seq::new(items@.len(), |k: int| (k as usize, items@[k]@));
                match self.sort_column {
                    Option::None => r.deep_view() == src,
                    Option::Some(col) => r.deep_view().to_multiset() == src.to_multiset() && (
                    forall|x: int, y: int|
                        0 <= x < y < r.deep_view().len() ==> spec_key_le(
                            col,
                            self.sort_order,
                            (#[trigger] r.deep_view()[x]).1,
                            (#[trigger] r.deep_view()[y]).1,
                        )),
                }
            }),
    {
        let ghost src = Seq::new(items@.len(), |k: int| (k as usize, items@[k]@));
        match &self.sort_column {
            Option::None => {
                let mut out: Vec<(usize, CostItem)> = Vec::new();
                let mut i: usize = 0;
                while i < items.len()
                    invariant
                        i <= items@.len(),
                        out@.len() == i,
                        forall|k: int| 0 <= k < i ==> (#[trigger] out@[k]).0 == k as usize,
                        forall|k: int| 0 <= k < i ==> (#[trigger] out@[k]).1@ == items@[k]@,
                    decreases items@.len() - i,
                {
                    let it = items[i].clone();
                    out.push((i, it));
                    i = i + 1;
                }
                proof {
                    assert forall|k: int| 0 <= k < out@.len() implies #[trigger] out.deep_view()[k]
                        == src[k] by {
                        assert(out.deep_view()[k] == out@[k].deep_view());
                        assert(out@[k].deep_view() == (out@[k].0, out@[k].1@));
                    }
                    assert(out.deep_view() =~= src);
                }
                out
            },
            Option::Some(col) => {
                let col = *col;
                let ord = self.sort_order;
                let mut out: Vec<(usize, CostItem)> = Vec::new();
                let mut i: usize = 0;
                proof {
                    assert(out.deep_view() =~~= Seq::<(usize, CostItemModel)>::empty());
                    assert(src.take(0) =~= Seq::<(usize, CostItemModel)>::empty());
                }
                while i < items.len()
                    invariant
                        i <= items@.len(),
                        col == self.sort_column->0,
                        ord == self.sort_order,
                        forall|k: int| 0 <= k < items@.len() ==> (#[trigger] items@[k]).wf(),
                        src == Seq::new(items@.len(), |k: int| (k as usize, items@[k]@)),
                        out.deep_view().len() == out@.len(),
                        forall|k: int| 0 <= k < out@.len() ==> (#[trigger] out@[k]).1.wf(),
                        out.deep_view().to_multiset() == src.take(i as int).to_multiset(),
                        forall|x: int, y: int|
                            0 <= x < y < out@.len() ==> spec_key_le(
                                col,
                                ord,
                                (#[trigger] out.deep_view()[x]).1,
                                (#[trigger] out.deep_view()[y]).1,
                            ),
                    decreases items@.len() - i,
                {
                    let it = items[i].clone();
                    let mut j: usize = out.len();
                    while j > 0 && !item_le(&col, &ord, &out[j - 1].1, &it)
                        invariant
                            j <= out@.len(),
                            it.wf(),
                            it@ == items@[i as int]@,
                            i < items@.len(),
                            out.deep_view().len() == out@.len(),
                            forall|k: int| 0 <= k < out@.len() ==> (#[trigger] out@[k]).1.wf(),
                            forall|k: int|
                                j <= k < out@.len() ==> !spec_key_le(
                                    col,
                                    ord,
                                    (#[trigger] out.deep_view()[k]).1,
                                    it@,
                                ),
                        decreases j,
                    {
                        j = j - 1;
                    }
                    let ghost before = out.deep_view();
                    let ghost pair = (i, items@[i as int]@);
                    out.insert(j, (i, it));
                    proof {
                        assert(out.deep_view() =~~= before.insert(j as int, pair));
                        vstd::seq_lib::to_multiset_insert(before, j as int, pair);
                        assert(src.take(i + 1 as int).drop_last() =~= src.take(i as int));
                        assert(src.take(i + 1 as int) =~= src.take(i as int).push(src[i as int]));
                        vstd::seq_lib::to_multiset_build(src.take(i as int), src[i as int]);
                        assert(src[i as int].1 == items@[i as int]@);
                        let ndv = out.deep_view();
                        assert forall|x: int, y: int|
                            0 <= x < y < ndv.len() implies spec_key_le(
                            col,
                            ord,
                            (#[trigger] ndv[x]).1,
                            (#[trigger] ndv[y]).1,
                        ) by {
                            if y < j {
                            } else if x == j && y > j {
                                assert(!spec_key_le(col, ord, before[y - 1].1, pair.1));
                                lemma_key_le_total(col, ord, before[y - 1].1, pair.1);
                            } else if x < j && y == j {
                                if x < j - 1 {
                                    lemma_key_le_trans(
                                        col,
                                        ord,
                                        before[x].1,
                                        before[j - 1].1,
                                        pair.1,
                                    );
                                }
                            } else if x > j {
                            } else if x < j && y > j {
                            }
                        }
                    }
                    i = i + 1;
                }
                proof {
                    assert(src.take(items@.len() as int) =~= src);
                }
                out
            },
        }
    }
}

} // verus!
