//! The in-memory store of records and the reducer that applies events
//! to it: every change the interface can make — navigation, adding,
//! updating and deleting cost and income items — goes through
//! [`RustedBudgetAppState::handle_event`], so rendering stays decoupled
//! from state.

use vstd::prelude::*;

use crate::items::{CostItem, CostItemModel, IncomeItem, IncomeItemModel};

verus! {

/// Which screen the application shows.
#[derive(Debug, Clone, Copy, PartialEq, Eq, Structural)]
pub enum AppView {
    Home,
    CostItems,
    Settings,
}

/// Everything the interface can ask the store to do.
#[derive(Debug)]
pub enum AppEvent {
    ChangeView(AppView),
    AddCostItem(CostItem),
    UpdateCostItem { id: u64, item: CostItem },
    DeleteCostItem(u64),
    AddIncomeItem(IncomeItem),
    UpdateIncomeItem { index: usize, item: IncomeItem },
    DeleteIncomeItem(usize),
    ToggleMenu,
    SaveData,
    LoadData,
}

/// Whether the items an event carries are well formed.
pub open spec fn event_wf(event: AppEvent) -> bool {
    match event {
        AppEvent::AddCostItem(item) => item.wf(),
        AppEvent::UpdateCostItem { id, item } => item.wf(),
        AppEvent::AddIncomeItem(item) => item.wf(),
        AppEvent::UpdateIncomeItem { index, item } => item.wf(),
        _ => true,
    }
}

/// All records the application holds: cost items keyed by the id stored
/// in each, income items by position, and the next id to hand out.
#[derive(Debug)]
pub struct BudgetData {
    pub cost_items: Vec<CostItem>,
    pub income_items: Vec<IncomeItem>,
    pub next_cost_id: u64,
}

impl BudgetData {
    /// The cost records as mathematical values, in stored order.
    pub open spec fn cost_models(self) -> Seq<CostItemModel> {
        self.cost_items.deep_view()
    }

    /// The income records as mathematical values, in stored order.
    pub open spec fn income_models(self) -> Seq<IncomeItemModel> {
        self.income_items.deep_view()
    }

    /// Every item is well formed, every cost id was handed out (so lies
    /// below the next one), and no two cost items share an id.
    pub open spec fn wf(self) -> bool {
        &&& forall|k: int|
            0 <= k < self.cost_items@.len() ==> (#[trigger] self.cost_items@[k]).wf()
        &&& forall|k: int|
            0 <= k < self.income_items@.len() ==> (#[trigger] self.income_items@[k]).wf()
        &&& forall|k: int|
            0 <= k < self.cost_models().len() ==> (#[trigger] self.cost_models()[k]).id
                < self.next_cost_id as int
        &&& forall|a: int, b: int|
            0 <= a < b < self.cost_models().len() ==> (#[trigger] self.cost_models()[a]).id != (
            #[trigger] self.cost_models()[b]).id
    }
}

impl Default for BudgetData {
    /// An empty store, handing out ids from zero.
    fn default() -> (r: Self)
        ensures
            r.cost_models() == Seq::<CostItemModel>::empty(),
            r.income_models() == Seq::<IncomeItemModel>::empty(),
            r.next_cost_id == 0,
            r.wf(),
    {
        let r = BudgetData { cost_items: Vec::new(), income_items: Vec::new(), next_cost_id: 0 };
        proof {
            assert(r.cost_models() =~= Seq::<CostItemModel>::empty());
            assert(r.income_models() =~= Seq::<IncomeItemModel>::empty());
        }
        r
    }
}

/// The first position holding the cost item with the given id, or -1.
pub open spec fn spec_find_cost(s: Seq<CostItemModel>, id: int) -> int
    decreases s.len(),
{
    if s.len() == 0 {
        -1
    } else if s[0].id == id {
        0
    } else {
        let r = spec_find_cost(s.drop_first(), id);
        if r == -1 {
            -1
        } else {
            1 + r
        }
    }
}

/// The first matching position is exactly where a left-to-right scan
/// stops.
proof fn lemma_find_cost_is(s: Seq<CostItemModel>, id: int, n: int)
    requires
        0 <= n <= s.len(),
        forall|k: int| 0 <= k < n ==> (#[trigger] s[k]).id != id,
        n == s.len() || s[n].id == id,
    ensures
        spec_find_cost(s, id) == (if n == s.len() {
            -1int
        } else {
            n
        }),
    decreases n,
{
    if s.len() == 0 {
    } else if n == 0 {
    } else {
        assert(s[0].id != id);
        assert(forall|k: int| 0 <= k < n - 1 ==> (#[trigger] s.drop_first()[k]).id != id);
        lemma_find_cost_is(s.drop_first(), id, n - 1);
    }
}

/// Whether two stores hold the same records and the same next id.
pub open spec fn same_records(a: BudgetData, b: BudgetData) -> bool {
    a.cost_models() == b.cost_models() && a.income_models() == b.income_models()
        && a.next_cost_id == b.next_cost_id
}

/// The application state: the screen in view plus the store.
#[derive(Debug)]
pub struct RustedBudgetAppState {
    pub current_view: AppView,
    pub budget_data: BudgetData,
}

impl Default for RustedBudgetAppState {
    /// The home screen over an empty store.
    fn default() -> (r: Self)
        ensures
            r.current_view is Home,
            r.budget_data.cost_models() == Seq::<CostItemModel>::empty(),
            r.budget_data.income_models() == Seq::<IncomeItemModel>::empty(),
            r.budget_data.next_cost_id == 0,
            r.budget_data.wf(),
    {
        RustedBudgetAppState { current_view: AppView::Home, budget_data: BudgetData::default() }
    }
}

impl RustedBudgetAppState {
    /// Applies one event to the state. Adding a cost item stamps it with
    /// the next free id; updating or deleting by an id or index that is
    /// not there changes nothing; the menu toggle and the save and load
    /// placeholders change no records.
    pub fn handle_event(&mut self, event: AppEvent)
        requires
            old(self).budget_data.wf(),
            old(self).budget_data.next_cost_id < u64::MAX,
            event_wf(event),
        ensures
            final(self).budget_data.wf(),
            ({
                let pre = *old(self);
                let post = *final(self);
                match event {
                    AppEvent::ChangeView(v) => post.current_view == v && same_records(
                        pre.budget_data,
                        post.budget_data,
                    ),
                    AppEvent::AddCostItem(item) => post.budget_data.cost_models()
                        == pre.budget_data.cost_models().push(
                        (CostItemModel { id: pre.budget_data.next_cost_id as int, ..item@ }),
                    ) && post.budget_data.next_cost_id == pre.budget_data.next_cost_id + 1
                        && post.budget_data.income_models() == pre.budget_data.income_models()
                        && post.current_view == pre.current_view,
                    AppEvent::UpdateCostItem { id, item } => ({
                        let k = spec_find_cost(pre.budget_data.cost_models(), id as int);
                        &&& (k >= 0 ==> post.budget_data.cost_models()
                            == pre.budget_data.cost_models().update(
                            k,
                            (CostItemModel { id: id as int, ..item@ }),
                        ))
                        &&& (k == -1 ==> post.budget_data.cost_models()
                            == pre.budget_data.cost_models())
                        &&& post.budget_data.income_models() == pre.budget_data.income_models()
                        &&& post.budget_data.next_cost_id == pre.budget_data.next_cost_id
                        &&& post.current_view == pre.current_view
                    }),
                    AppEvent::DeleteCostItem(id) => ({
                        let k = spec_find_cost(pre.budget_data.cost_models(), id as int);
                        &&& (k >= 0 ==> post.budget_data.cost_models()
                            == pre.budget_data.cost_models().remove(k))
                        &&& (k == -1 ==> post.budget_data.cost_models()
                            == pre.budget_data.cost_models())
                        &&& post.budget_data.income_models() == pre.budget_data.income_models()
                        &&& post.budget_data.next_cost_id == pre.budget_data.next_cost_id
                        &&& post.current_view == pre.current_view
                    }),
                    AppEvent::AddIncomeItem(item) => post.budget_data.income_models()
                        == pre.budget_data.income_models().push(item@)
                        && post.budget_data.cost_models() == pre.budget_data.cost_models()
                        && post.budget_data.next_cost_id == pre.budget_data.next_cost_id
                        && post.current_view == pre.current_view,
                    AppEvent::UpdateIncomeItem { index, item } => ({
                        &&& (index < pre.budget_data.income_models().len()
                            ==> post.budget_data.income_models()
                            == pre.budget_data.income_models().update(index as int, item@))
                        &&& (index >= pre.budget_data.income_models().len()
                            ==> post.budget_data.income_models()
                            == pre.budget_data.income_models())
                        &&& post.budget_data.cost_models() == pre.budget_data.cost_models()
                        &&& post.budget_data.next_cost_id == pre.budget_data.next_cost_id
                        &&& post.current_view == pre.current_view
                    }),
                    AppEvent::DeleteIncomeItem(index) => ({
                        &&& (index < pre.budget_data.income_models().len()
                            ==> post.budget_data.income_models()
                            == pre.budget_data.income_models().remove(index as int))
                        &&& (index >= pre.budget_data.income_models().len()
                            ==> post.budget_data.income_models()
                            == pre.budget_data.income_models())
                        &&& post.budget_data.cost_models() == pre.budget_data.cost_models()
                        &&& post.budget_data.next_cost_id == pre.budget_data.next_cost_id
                        &&& post.current_view == pre.current_view
                    }),
                    _ => post.current_view == pre.current_view && same_records(
                        pre.budget_data,
                        post.budget_data,
                    ),
                }
            }),
    {
        match event {
            AppEvent::ChangeView(v) => {
                self.current_view = v;
            },
            AppEvent::AddCostItem(item) => {
                let mut item = item;
                item.id = self.budget_data.next_cost_id;
                let ghost before = self.budget_data.cost_models();
                self.budget_data.cost_items.push(item);
                self.budget_data.next_cost_id = self.budget_data.next_cost_id + 1;
                proof {
                    assert(self.budget_data.cost_models() =~= before.push(item@));
                }
            },
            AppEvent::UpdateCostItem { id, item } => {
                let ghost before = self.budget_data.cost_models();
                let items = &mut self.budget_data.cost_items;
                let mut i: usize = 0;
                let mut found: bool = false;
                let ghost mut fidx: int = -1;
                while i < items.len()
                    invariant
                        i <= items@.len(),
                        item.wf(),
                        items.deep_view().len() == items@.len() == before.len(),
                        !found ==> fidx == -1 && items.deep_view() == before && (forall|k: int|
                            0 <= k < i ==> (#[trigger] before[k]).id != id as int),
                        found ==> 0 <= fidx < i && (#[trigger] before[fidx]).id == id as int && (
                        forall|k2: int|
                            0 <= k2 < fidx ==> (#[trigger] before[k2]).id != id as int)
                            && items.deep_view() == before.update(
                            fidx,
                            (CostItemModel { id: id as int, ..item@ }),
                        ),
                        forall|k: int| 0 <= k < items@.len() ==> (#[trigger] items@[k]).wf(),
                    decreases items@.len() - i,
                {
                    if !found && items[i].id == id {
                        let mut replacement = item.clone();
                        replacement.id = id;
                        items.set(i, replacement);
                        found = true;
                        proof {
                            fidx = i as int;
                            assert(items.deep_view() =~= before.update(
                                fidx,
                                (CostItemModel { id: id as int, ..item@ }),
                            ));
                        }
                    }
                    i = i + 1;
                }
                proof {
                    if found {
                        lemma_find_cost_is(before, id as int, fidx);
                    } else {
                        lemma_find_cost_is(before, id as int, before.len() as int);
                    }
                }
            },
            AppEvent::DeleteCostItem(id) => {
                let ghost before = self.budget_data.cost_models();
                let items = &mut self.budget_data.cost_items;
                let mut i: usize = 0;
                let n: usize = items.len();
                while i < n && items[i].id != id
                    invariant
                        i <= n,
                        n == items@.len(),
                        items.deep_view() == before,
                        forall|k: int| 0 <= k < i ==> (#[trigger] before[k]).id != id as int,
                    decreases n - i,
                {
                    i = i + 1;
                }
                proof {
                    lemma_find_cost_is(before, id as int, i as int);
                }
                if i < n {
                    items.remove(i);
                    proof {
                        assert(items.deep_view() =~= before.remove(i as int));
                    }
                }
            },
            AppEvent::AddIncomeItem(item) => {
                let ghost before = self.budget_data.income_models();
                self.budget_data.income_items.push(item);
                proof {
                    assert(self.budget_data.income_models() =~= before.push(
                        self.budget_data.income_items@.last()@,
                    ));
                }
            },
            AppEvent::UpdateIncomeItem { index, item } => {
                let ghost before = self.budget_data.income_models();
                if index < self.budget_data.income_items.len() {
                    self.budget_data.income_items.set(index, item);
                    proof {
                        assert(self.budget_data.income_models() =~= before.update(
                            index as int,
                            self.budget_data.income_items@[index as int]@,
                        ));
                    }
                }
            },
            AppEvent::DeleteIncomeItem(index) => {
                let ghost before = self.budget_data.income_models();
                if index < self.budget_data.income_items.len() {
                    self.budget_data.income_items.remove(index);
                    proof {
                        assert(self.budget_data.income_models() =~= before.remove(index as int));
                    }
                }
            },
            AppEvent::ToggleMenu => {},
            AppEvent::SaveData => {},
            AppEvent::LoadData => {},
        }
    }
}

} // verus!
