//! Removing the rows of terminals that nothing refers to any more.

use std::collections::HashSet;
use vstd::prelude::*;
use crate::layout::LiveLayout;
use crate::layout::PaneItem;
use crate::layout::panes;
use crate::saved::SavedItems;
use crate::saved::SavedLayout;
use crate::saved::SavedPane;
use crate::saved::SavedPanel;
use crate::saved::SerializedItems;
use crate::saved::SerializedPaneGroup;
use crate::saved::SerializedTerminalPanel;
use crate::saved::groups_view;
use crate::saved::saved_panes;
use crate::saved::saved_panes_all;
use crate::serialize::persistent_ids;
use crate::serialize::saved_layout;
use crate::terminal_db::RowView;
use crate::terminal_db::TableView;
use crate::terminal_db::TerminalDb;

verus! {

broadcast use vstd::std_specs::hash::group_hash_axioms;

/// The kind of the items of a workspace that are terminals.
pub const CENTER_TERMINAL_KIND: &'static str = "Terminal";

/// An item that is saved with the center panes of a workspace.
#[derive(Clone, Debug, PartialEq, Eq)]
pub struct CenterItem {
    pub workspace_id: i64,
    pub item_id: u64,
    pub kind: String,
}

/// What is stored of the terminal panel of a workspace.
#[derive(Debug, PartialEq, Eq)]
pub enum StoredPanel {
    /// Nothing is stored.
    Missing,
    /// What is stored cannot be read, for the reason given.
    Invalid(String),
    Valid(SerializedTerminalPanel),
}

/// Why the rows of a workspace were not cleaned up.
#[derive(Clone, Debug, PartialEq, Eq)]
pub enum CleanupError {
    /// What is stored of the terminal panel cannot be read, for the reason given.
    InvalidPanel(String),
}

impl CleanupError {
    /// The text of the error.
    pub fn message(&self) -> (message: String)
        ensures
            message@ == "failed to parse TerminalPanel state while cleaning up terminals"@,
    {
        "failed to parse TerminalPanel state while cleaning up terminals".to_owned()
    }
}

/// The id of an item that may be absent, as a set.
pub open spec fn optional_id(id: Option<u64>) -> Set<u64> {
    match id {
        Some(id) => set![id],
        None => Set::empty(),
    }
}

/// The ids of the terminals to which a saved pane refers.
pub open spec fn pane_ids(pane: SavedPane) -> Set<u64> {
    pane.children.to_set().union(optional_id(pane.active_item))
}

/// The ids of the terminals to which a saved layout refers.
pub open spec fn layout_ids(layout: SavedLayout) -> Set<u64>
    decreases layout,
{
    match layout {
        SavedLayout::Pane(pane) => pane_ids(pane),
        SavedLayout::Group { children, .. } => layouts_ids(children),
    }
}

/// The ids of the terminals to which a sequence of saved layouts refers.
pub open spec fn layouts_ids(children: Seq<SavedLayout>) -> Set<u64>
    decreases children,
{
    if children.len() == 0 {
        Set::empty()
    } else {
        layouts_ids(children.drop_last()).union(layout_ids(children.last()))
    }
}

/// The ids of the terminals to which the saved tabs of a panel refer.
pub open spec fn items_ids(items: SavedItems) -> Set<u64> {
    match items {
        SavedItems::NoSplits(children) => children.to_set(),
        SavedItems::WithSplits(layout) => layout_ids(layout),
    }
}

/// The ids of the terminals to which a saved panel refers.
pub open spec fn panel_ids(panel: SavedPanel) -> Set<u64> {
    items_ids(panel.items).union(optional_id(panel.active_item_id))
}

/// The ids of the terminals to which what is stored of a panel refers.
pub open spec fn stored_panel_ids(panel: StoredPanel) -> Set<u64> {
    match panel {
        StoredPanel::Valid(panel) => panel_ids(panel@),
        _ => Set::empty(),
    }
}

impl CenterItem {
    /// Whether the item is a terminal of a workspace.
    pub open spec fn is_terminal_of(self, workspace_id: i64) -> bool {
        self.workspace_id == workspace_id && self.kind@ == CENTER_TERMINAL_KIND@
    }
}

/// The ids of the terminals in the center panes of a workspace.
pub open spec fn center_ids(items: Seq<CenterItem>, workspace_id: i64) -> Set<u64>
    decreases items.len(),
{
    if items.len() == 0 {
        Set::empty()
    } else {
        let before = center_ids(items.drop_last(), workspace_id);
        if items.last().is_terminal_of(workspace_id) {
            before.insert(items.last().item_id)
        } else {
            before
        }
    }
}

fn extend_ids(item_ids: &mut HashSet<u64>, more: &Vec<u64>)
    ensures
        final(item_ids)@ == old(item_ids)@.union(more@.to_set()),
{
    let mut index: usize = 0;
    let ghost before = item_ids@;
    assert(before.union(more@.take(0).to_set()) =~= before);
    while index < more.len()
        invariant
            index <= more.len(),
            item_ids@ == before.union(more@.take(index as int).to_set()),
        decreases more.len() - index,
    {
        item_ids.insert(more[index]);
        proof {
            lemma_take_to_set(more@, index as int);
        }
        assert(item_ids@ =~= before.union(more@.take(index + 1).to_set()));
        index += 1;
    }
    assert(more@.take(index as int) =~= more@);
}

proof fn lemma_take_to_set(ids: Seq<u64>, index: int)
    requires
        0 <= index < ids.len(),
    ensures
        ids.take(index + 1).to_set() == ids.take(index).to_set().insert(ids[index]),
{
    let before = ids.take(index);
    let after = ids.take(index + 1);
    assert forall|id: u64| after.to_set().contains(id) <==> before.to_set().insert(
        ids[index],
    ).contains(id) by {
        if before.contains(id) {
            let at = choose|at: int| 0 <= at < before.len() && before[at] == id;
            assert(after[at] == id);
        }
        assert(after[index] == ids[index]);
        if after.contains(id) && id != ids[index] {
            let at = choose|at: int| 0 <= at < after.len() && after[at] == id;
            assert(before[at] == id);
        }
    }
    assert(after.to_set() =~= before.to_set().insert(ids[index]));
}

fn extend_id(item_ids: &mut HashSet<u64>, id: Option<u64>)
    ensures
        final(item_ids)@ == old(item_ids)@.union(optional_id(id)),
{
    if let Some(id) = id {
        item_ids.insert(id);
    }
    assert(item_ids@ =~= old(item_ids)@.union(optional_id(id)));
}

/// Adds the ids of the terminals to which the saved tabs of a panel refer.
pub fn collect_serialized_terminal_ids(
    serialized_items: &SerializedItems,
    item_ids: &mut HashSet<u64>,
)
    ensures
        final(item_ids)@ == old(item_ids)@.union(items_ids(serialized_items@)),
{
    match serialized_items {
        SerializedItems::NoSplits(children) => extend_ids(item_ids, children),
        SerializedItems::WithSplits(pane_group) => collect_serialized_pane_group_terminal_ids(
            pane_group,
            item_ids,
        ),
    }
}

/// Adds the ids of the terminals to which a saved split tree refers.
pub fn collect_serialized_pane_group_terminal_ids(
    pane_group: &SerializedPaneGroup,
    item_ids: &mut HashSet<u64>,
)
    ensures
        final(item_ids)@ == old(item_ids)@.union(layout_ids(pane_group@)),
    decreases pane_group,
{
    match pane_group {
        SerializedPaneGroup::Pane(pane) => {
            extend_ids(item_ids, &pane.children);
            extend_id(item_ids, pane.active_item);
            assert(item_ids@ =~= old(item_ids)@.union(layout_ids(pane_group@)));
        },
        SerializedPaneGroup::Group { axis, flexes, children } => {
            let mut index: usize = 0;
            let ghost before = item_ids@;
            assert(before.union(layouts_ids(groups_view(children@.take(0)))) =~= before);
            while index < children.len()
                invariant
                    index <= children.len(),
                    pane_group matches SerializedPaneGroup::Group { children: every, .. } && every
                        == *children,
                    item_ids@ == before.union(
                        layouts_ids(groups_view(children@.take(index as int))),
                    ),
                decreases children.len() - index,
            {
                proof {
                    let next = children@.take(index + 1);
                    assert(next.drop_last() =~= children@.take(index as int));
                    let views = groups_view(next);
                    assert(views.drop_last() =~= groups_view(children@.take(index as int)));
                }
                collect_serialized_pane_group_terminal_ids(&children[index], item_ids);
                assert(item_ids@ =~= before.union(
                    layouts_ids(groups_view(children@.take(index + 1))),
                ));
                index += 1;
            }
            assert(children@.take(index as int) =~= children@);
        },
    }
}

/// Adds the ids of the terminals in the center panes of a workspace.
fn collect_center_terminal_ids(
    items: &Vec<CenterItem>,
    workspace_id: i64,
    item_ids: &mut HashSet<u64>,
)
    ensures
        final(item_ids)@ == old(item_ids)@.union(center_ids(items@, workspace_id)),
{
    let terminal = CENTER_TERMINAL_KIND.to_owned();
    let mut index: usize = 0;
    let ghost before = item_ids@;
    assert(before.union(center_ids(items@.take(0), workspace_id)) =~= before);
    while index < items.len()
        invariant
            index <= items.len(),
            terminal@ == CENTER_TERMINAL_KIND@,
            item_ids@ == before.union(center_ids(items@.take(index as int), workspace_id)),
        decreases items.len() - index,
    {
        let item = &items[index];
        assert(items@.take(index + 1).drop_last() =~= items@.take(index as int));
        if item.workspace_id == workspace_id && item.kind == terminal {
            item_ids.insert(item.item_id);
        }
        assert(item_ids@ =~= before.union(center_ids(items@.take(index + 1), workspace_id)));
        index += 1;
    }
    assert(items@.take(index as int) =~= items@);
}

/// The terminals that stay in the table: those that are loaded, those in the center panes, and
/// those in the panel.
pub open spec fn protected_ids(
    alive_items: Seq<u64>,
    center_items: Seq<CenterItem>,
    panel: StoredPanel,
    workspace_id: i64,
) -> Set<u64> {
    alive_items.to_set().union(center_ids(center_items, workspace_id)).union(
        stored_panel_ids(panel),
    )
}

/// The rows that are left of a table once those of a workspace are gone that are not protected.
pub open spec fn cleaned_rows(
    rows: Map<(i64, u64), RowView>,
    workspace_id: i64,
    protected: Set<u64>,
) -> Map<(i64, u64), RowView> {
    Map::new(
        |key: (i64, u64)| rows.contains_key(key) && (key.0 != workspace_id || protected.contains(
            key.1,
        )),
        |key: (i64, u64)| rows[key],
    )
}

/// The ids in `stored` that are not protected, in the same order.
pub open spec fn stale_ids(stored: Seq<u64>, protected: Set<u64>) -> Seq<u64> {
    stored.filter(|id: u64| !protected.contains(id))
}

/// The ids of the terminals in `stored` that are not protected, in the same order.
pub fn stale_terminal_ids(stored: &Vec<u64>, protected: &HashSet<u64>) -> (stale: Vec<u64>)
    ensures
        stale@ == stale_ids(stored@, protected@),
{
    let mut stale: Vec<u64> = Vec::new();
    let mut index: usize = 0;
    proof {
        reveal(Seq::filter);
    }
    while index < stored.len()
        invariant
            index <= stored.len(),
            stale@ == stale_ids(stored@.take(index as int), protected@),
        decreases stored.len() - index,
    {
        proof {
            reveal(Seq::filter);
            assert(stored@.take(index + 1).drop_last() =~= stored@.take(index as int));
        }
        if !protected.contains(&stored[index]) {
            stale.push(stored[index]);
        }
        index += 1;
    }
    assert(stored@.take(index as int) =~= stored@);
    stale
}

/// Whether a cleanup led from one table to another: the rows that are not protected are gone and
/// their ids are told, or nothing has changed because the panel cannot be read.
pub open spec fn cleans_up(
    before: TableView,
    alive_items: Seq<u64>,
    workspace_id: i64,
    center_items: Seq<CenterItem>,
    panel: StoredPanel,
    result: Result<Vec<u64>, CleanupError>,
    after: TableView,
) -> bool {
    let protected = protected_ids(alive_items, center_items, panel, workspace_id);
    match result {
        Ok(deleted) => {
            &&& !(panel is Invalid)
            &&& after == (TableView {
                rows: cleaned_rows(before.rows, workspace_id, protected),
                ..before
            })
            &&& deleted@.no_duplicates()
            &&& forall|id: u64| #[trigger]
                deleted@.contains(id) <==> before.rows.contains_key((workspace_id, id))
                    && !protected.contains(id)
        },
        Err(CleanupError::InvalidPanel(reason)) => {
            &&& panel matches StoredPanel::Invalid(cause) && reason@ == cause@
            &&& after == before
        },
    }
}

/// Deletes the rows of the terminals of a workspace that are neither loaded (`alive_items`) nor
/// referred to by the center panes or by the panel of the workspace. Returns the ids of the
/// terminals whose rows are gone. Where the panel cannot be read, nothing is deleted.
pub fn delete_unloaded_terminals_in_database(
    alive_items: &Vec<u64>,
    workspace_id: i64,
    db: &mut TerminalDb,
    center_items: &Vec<CenterItem>,
    panel: &StoredPanel,
) -> (result: Result<Vec<u64>, CleanupError>)
    requires
        old(db).wf(),
    ensures
        final(db).wf(),
        cleans_up(
            old(db)@,
            alive_items@,
            workspace_id,
            center_items@,
            *panel,
            result,
            final(db)@,
        ),
{
    let mut protected_item_ids: HashSet<u64> = HashSet::new();
    extend_ids(&mut protected_item_ids, alive_items);
    assert(protected_item_ids@ =~= alive_items@.to_set());
    collect_center_terminal_ids(center_items, workspace_id, &mut protected_item_ids);
    match panel {
        StoredPanel::Missing => {},
        StoredPanel::Invalid(reason) => {
            return Err(CleanupError::InvalidPanel(reason.clone()));
        },
        StoredPanel::Valid(serialized_panel) => {
            extend_id(&mut protected_item_ids, serialized_panel.active_item_id);
            collect_serialized_terminal_ids(&serialized_panel.items, &mut protected_item_ids);
        },
    }
    let ghost protected = protected_ids(alive_items@, center_items@, *panel, workspace_id);
    assert(protected_item_ids@ =~= protected);
    let stored = db.item_ids(workspace_id);
    let stale = stale_terminal_ids(&stored, &protected_item_ids);
    proof {
        lemma_filter_ids(stored@, protected);
    }
    let mut index: usize = 0;
    let ghost rows = db@.rows;
    assert(db@.rows =~= rows_without(rows, workspace_id, stale@.take(0)));
    while index < stale.len()
        invariant
            db.wf(),
            index <= stale.len(),
            db@.workspaces == old(db)@.workspaces,
            db@.rows == rows_without(rows, workspace_id, stale@.take(index as int)),
        decreases stale.len() - index,
    {
        db.delete(stale[index], workspace_id);
        proof {
            let before = stale@.take(index as int);
            let after = stale@.take(index + 1);
            assert(after =~= before.push(stale@[index as int]));
            assert forall|id: u64| after.contains(id) <==> before.contains(id) || id
                == stale@[index as int] by {
                if before.contains(id) {
                    let at = choose|at: int| 0 <= at < before.len() && before[at] == id;
                    assert(after[at] == id);
                }
                assert(after[index as int] == stale@[index as int]);
                if after.contains(id) && id != stale@[index as int] {
                    let at = choose|at: int| 0 <= at < after.len() && after[at] == id;
                    assert(before[at] == id);
                }
            }
            assert(db@.rows =~= rows_without(rows, workspace_id, after));
        }
        index += 1;
    }
    assert(stale@.take(index as int) =~= stale@);
    assert(db@.rows =~= cleaned_rows(rows, workspace_id, protected));
    Ok(stale)
}

spec fn rows_without(
    rows: Map<(i64, u64), RowView>,
    workspace_id: i64,
    ids: Seq<u64>,
) -> Map<(i64, u64), RowView> {
    Map::new(
        |key: (i64, u64)| rows.contains_key(key) && !(key.0 == workspace_id && ids.contains(
            key.1,
        )),
        |key: (i64, u64)| rows[key],
    )
}

proof fn lemma_filter_ids(ids: Seq<u64>, protected: Set<u64>)
    requires
        ids.no_duplicates(),
    ensures
        stale_ids(ids, protected).no_duplicates(),
        forall|id: u64| #[trigger]
            stale_ids(ids, protected).contains(id) <==> ids.contains(id) && !protected.contains(
                id,
            ),
    decreases ids.len(),
{
    reveal(Seq::filter);
    if ids.len() > 0 {
        let before = ids.drop_last();
        lemma_filter_ids(before, protected);
        let last = ids.last();
        let stale = stale_ids(before, protected);
        assert(!before.contains(last)) by {
            if before.contains(last) {
                let at = choose|at: int| 0 <= at < before.len() && before[at] == last;
                assert(ids[at] == ids[ids.len() - 1]);
            }
        }
        assert forall|id: u64| ids.contains(id) <==> before.contains(id) || id == last by {
            if before.contains(id) {
                let at = choose|at: int| 0 <= at < before.len() && before[at] == id;
                assert(ids[at] == id);
            }
            assert(ids[ids.len() - 1] == last);
            if ids.contains(id) && id != last {
                let at = choose|at: int| 0 <= at < ids.len() && ids[at] == id;
                assert(before[at] == id);
            }
        }
        assert forall|id: u64| stale.push(last).contains(id) <==> stale.contains(id) || id
            == last by {
            if stale.contains(id) {
                let at = choose|at: int| 0 <= at < stale.len() && stale[at] == id;
                assert(stale.push(last)[at] == id);
            }
            assert(stale.push(last)[stale.len() as int] == last);
            if stale.push(last).contains(id) && id != last {
                let at = choose|at: int|
                    0 <= at < stale.push(last).len() && stale.push(last)[at] == id;
                assert(stale[at] == id);
            }
        }
        assert(!stale.contains(last));
        let after = stale_ids(ids, protected);
        assert(after == if protected.contains(last) {
            stale
        } else {
            stale.push(last)
        });
        assert forall|id: u64| #[trigger] after.contains(id) <==> ids.contains(id)
            && !protected.contains(id) by {
            assert(stale.contains(id) <==> before.contains(id) && !protected.contains(id));
            assert(stale.push(last).contains(id) <==> stale.contains(id) || id == last);
        }
    }
}

/// A cleanup deletes rows of its own workspace alone, none that is protected, and changes no row
/// that it leaves.
pub proof fn law_cleanup_deletes_stale_rows_alone(
    rows: Map<(i64, u64), RowView>,
    workspace_id: i64,
    protected: Set<u64>,
    key: (i64, u64),
)
    ensures
        cleaned_rows(rows, workspace_id, protected).contains_key(key) <==> rows.contains_key(key)
            && (key.0 != workspace_id || protected.contains(key.1)),
        cleaned_rows(rows, workspace_id, protected).contains_key(key) ==> cleaned_rows(
            rows,
            workspace_id,
            protected,
        )[key] == rows[key],
{
}

/// A cleanup keeps the rows of the terminals that are loaded.
pub proof fn law_loaded_terminals_are_kept(
    rows: Map<(i64, u64), RowView>,
    workspace_id: i64,
    alive_items: Seq<u64>,
    center_items: Seq<CenterItem>,
    panel: StoredPanel,
    item_id: u64,
)
    requires
        rows.contains_key((workspace_id, item_id)),
        alive_items.contains(item_id),
    ensures
        cleaned_rows(
            rows,
            workspace_id,
            protected_ids(alive_items, center_items, panel, workspace_id),
        ).contains_key((workspace_id, item_id)),
{
}

/// The order of two cleanups does not matter, and to repeat one changes nothing more.
pub proof fn law_cleanups_commute(
    rows: Map<(i64, u64), RowView>,
    workspace_id: i64,
    first: Set<u64>,
    second: Set<u64>,
)
    ensures
        cleaned_rows(cleaned_rows(rows, workspace_id, first), workspace_id, second)
            == cleaned_rows(cleaned_rows(rows, workspace_id, second), workspace_id, first),
        cleaned_rows(cleaned_rows(rows, workspace_id, first), workspace_id, second)
            == cleaned_rows(rows, workspace_id, first.intersect(second)),
        cleaned_rows(cleaned_rows(rows, workspace_id, first), workspace_id, first)
            == cleaned_rows(rows, workspace_id, first),
{
    let both = cleaned_rows(rows, workspace_id, first.intersect(second));
    assert(cleaned_rows(cleaned_rows(rows, workspace_id, first), workspace_id, second) =~= both);
    assert(cleaned_rows(cleaned_rows(rows, workspace_id, second), workspace_id, first) =~= both);
    assert(cleaned_rows(cleaned_rows(rows, workspace_id, first), workspace_id, first)
        =~= cleaned_rows(rows, workspace_id, first));
}

/// The rows that are left after a sequence of cleanups, each with the ids that were loaded then.
pub open spec fn cleaned_repeatedly(
    rows: Map<(i64, u64), RowView>,
    workspace_id: i64,
    alive_items: Seq<Seq<u64>>,
    center_items: Seq<CenterItem>,
    panel: StoredPanel,
) -> Map<(i64, u64), RowView>
    decreases alive_items.len(),
{
    if alive_items.len() == 0 {
        rows
    } else {
        cleaned_rows(
            cleaned_repeatedly(rows, workspace_id, alive_items.drop_last(), center_items, panel),
            workspace_id,
            protected_ids(alive_items.last(), center_items, panel, workspace_id),
        )
    }
}

/// A terminal in a center pane or in the panel keeps its row through any number of cleanups,
/// whichever terminals are loaded at each of them.
pub proof fn law_saved_terminals_survive(
    rows: Map<(i64, u64), RowView>,
    workspace_id: i64,
    alive_items: Seq<Seq<u64>>,
    center_items: Seq<CenterItem>,
    panel: StoredPanel,
    item_id: u64,
)
    requires
        rows.contains_key((workspace_id, item_id)),
        center_ids(center_items, workspace_id).contains(item_id) || stored_panel_ids(
            panel,
        ).contains(item_id),
    ensures
        ({
            let left = cleaned_repeatedly(rows, workspace_id, alive_items, center_items, panel);
            left.contains_key((workspace_id, item_id)) && left[(workspace_id, item_id)]
                == rows[(workspace_id, item_id)]
        }),
    decreases alive_items.len(),
{
    if alive_items.len() > 0 {
        law_saved_terminals_survive(
            rows,
            workspace_id,
            alive_items.drop_last(),
            center_items,
            panel,
            item_id,
        );
    }
}

/// A terminal to which neither the center panes nor the panel refer, and that is not loaded at
/// one of a sequence of cleanups, has no row after them.
pub proof fn law_orphans_are_deleted(
    rows: Map<(i64, u64), RowView>,
    workspace_id: i64,
    alive_items: Seq<Seq<u64>>,
    center_items: Seq<CenterItem>,
    panel: StoredPanel,
    item_id: u64,
    unloaded: int,
)
    requires
        !center_ids(center_items, workspace_id).contains(item_id),
        !stored_panel_ids(panel).contains(item_id),
        0 <= unloaded < alive_items.len(),
        !alive_items[unloaded].contains(item_id),
    ensures
        !cleaned_repeatedly(
            rows,
            workspace_id,
            alive_items,
            center_items,
            panel,
        ).contains_key((workspace_id, item_id)),
    decreases alive_items.len(),
{
    if unloaded < alive_items.len() - 1 {
        law_orphans_are_deleted(
            rows,
            workspace_id,
            alive_items.drop_last(),
            center_items,
            panel,
            item_id,
            unloaded,
        );
    }
}

proof fn lemma_layout_ids(layout: SavedLayout, index: int)
    requires
        0 <= index < saved_panes(layout).len(),
    ensures
        pane_ids(saved_panes(layout)[index]).subset_of(layout_ids(layout)),
    decreases layout,
{
    if let SavedLayout::Group { children, .. } = layout {
        lemma_layouts_ids(children, index);
    }
}

proof fn lemma_layouts_ids(children: Seq<SavedLayout>, index: int)
    requires
        0 <= index < saved_panes_all(children).len(),
    ensures
        pane_ids(saved_panes_all(children)[index]).subset_of(layouts_ids(children)),
    decreases children,
{
    let before = saved_panes_all(children.drop_last());
    if index < before.len() {
        lemma_layouts_ids(children.drop_last(), index);
    } else {
        lemma_layout_ids(children.last(), index - before.len());
    }
}

/// A panel that is saved protects every terminal of it that a reopening brings back: each tab
/// that is saved, in whichever pane it stands.
pub proof fn law_saved_panel_protects_its_terminals(
    layout: LiveLayout,
    active_pane: u64,
    active_item_id: Option<u64>,
    pane: int,
    tab: int,
)
    requires
        0 <= pane < panes(layout).len(),
        0 <= tab < panes(layout)[pane].items.len(),
        panes(layout)[pane].items[tab].persists(),
    ensures
        panel_ids(
            SavedPanel {
                items: SavedItems::WithSplits(saved_layout(layout, active_pane)),
                active_item_id,
            },
        ).contains(panes(layout)[pane].items[tab].item_id()),
{
    let saved = saved_layout(layout, active_pane);
    let items = panes(layout)[pane].items;
    crate::layout_laws::law_every_pane_is_saved(layout, active_pane);
    lemma_layout_ids(saved, pane);
    crate::serialize::lemma_persistent_ids_contain(items, tab);
    assert(saved_panes(saved)[pane].children == persistent_ids(items));
    assert(pane_ids(saved_panes(saved)[pane]).contains(items[tab].item_id()));
}

proof fn lemma_layout_ids_come_from_panes(layout: SavedLayout, id: u64)
    requires
        layout_ids(layout).contains(id),
    ensures
        exists|i: int|
            0 <= i < saved_panes(layout).len() && pane_ids(
                #[trigger] saved_panes(layout)[i],
            ).contains(id),
    decreases layout,
{
    match layout {
        SavedLayout::Pane(pane) => {
            assert(saved_panes(layout)[0] == pane);
        },
        SavedLayout::Group { children, .. } => {
            lemma_layouts_ids_come_from_panes(children, id);
        },
    }
}

proof fn lemma_layouts_ids_come_from_panes(children: Seq<SavedLayout>, id: u64)
    requires
        layouts_ids(children).contains(id),
    ensures
        exists|i: int|
            0 <= i < saved_panes_all(children).len() && pane_ids(
                #[trigger] saved_panes_all(children)[i],
            ).contains(id),
    decreases children,
{
    let before = saved_panes_all(children.drop_last());
    let last = saved_panes(children.last());
    if layouts_ids(children.drop_last()).contains(id) {
        lemma_layouts_ids_come_from_panes(children.drop_last(), id);
        let i = choose|i: int|
            0 <= i < before.len() && pane_ids(#[trigger] before[i]).contains(id);
        assert(saved_panes_all(children)[i] == before[i]);
    } else {
        lemma_layout_ids_come_from_panes(children.last(), id);
        let i = choose|i: int| 0 <= i < last.len() && pane_ids(#[trigger] last[i]).contains(id);
        assert(saved_panes_all(children)[before.len() + i] == last[i]);
    }
}

/// Whether a saved pane refers to a terminal: as one of its tabs, or as its active one.
pub open spec fn pane_refers_to(pane: SavedPane, id: u64) -> bool {
    pane.children.contains(id) || pane.active_item == Some(id)
}

/// A saved layout refers to a terminal if and only if one of its panes does, whether the layout
/// is a single pane or a tree of splits.
pub proof fn law_layout_refers_to_what_its_panes_do(layout: SavedLayout, id: u64)
    ensures
        layout_ids(layout).contains(id) <==> exists|i: int|
            0 <= i < saved_panes(layout).len() && pane_refers_to(
                #[trigger] saved_panes(layout)[i],
                id,
            ),
{
    if layout_ids(layout).contains(id) {
        lemma_layout_ids_come_from_panes(layout, id);
        let i = choose|i: int|
            0 <= i < saved_panes(layout).len() && pane_ids(
                #[trigger] saved_panes(layout)[i],
            ).contains(id);
        assert(pane_refers_to(saved_panes(layout)[i], id));
    }
    if exists|i: int|
        0 <= i < saved_panes(layout).len() && pane_refers_to(
            #[trigger] saved_panes(layout)[i],
            id,
        ) {
        let i = choose|i: int|
            0 <= i < saved_panes(layout).len() && pane_refers_to(
                #[trigger] saved_panes(layout)[i],
                id,
            );
        lemma_layout_ids(layout, i);
        assert(pane_ids(saved_panes(layout)[i]).contains(id));
    }
}

/// Whether a saved panel refers to a terminal: as the active one of a panel without splits, as
/// one of the tabs of such a panel, or in one of its panes.
pub open spec fn panel_refers_to(panel: SavedPanel, id: u64) -> bool {
    ||| panel.active_item_id == Some(id)
    ||| match panel.items {
        SavedItems::NoSplits(children) => children.contains(id),
        SavedItems::WithSplits(layout) => exists|i: int|
            0 <= i < saved_panes(layout).len() && pane_refers_to(
                #[trigger] saved_panes(layout)[i],
                id,
            ),
    }
}

/// Saved tabs refer to a terminal if and only if it is one of the tabs, or one of their panes
/// refers to it.
pub proof fn law_saved_tabs_refer_to_their_terminals(items: SavedItems, id: u64)
    ensures
        items_ids(items).contains(id) <==> panel_refers_to(
            SavedPanel { items, active_item_id: None },
            id,
        ),
{
    if let SavedItems::WithSplits(layout) = items {
        law_layout_refers_to_what_its_panes_do(layout, id);
    }
}

proof fn lemma_center_ids(items: Seq<CenterItem>, workspace_id: i64, id: u64)
    ensures
        center_ids(items, workspace_id).contains(id) <==> exists|i: int|
            0 <= i < items.len() && (#[trigger] items[i]).item_id == id && items[i].workspace_id
                == workspace_id && items[i].kind@ == "Terminal"@,
    decreases items.len(),
{
    if items.len() > 0 {
        let before = items.drop_last();
        let last = items.len() - 1;
        lemma_center_ids(before, workspace_id, id);
        if center_ids(before, workspace_id).contains(id) {
            let i = choose|i: int|
                0 <= i < before.len() && (#[trigger] before[i]).item_id == id
                    && before[i].workspace_id == workspace_id && before[i].kind@ == "Terminal"@;
            assert(items[i].item_id == id);
        } else if exists|i: int|
            0 <= i < items.len() && (#[trigger] items[i]).item_id == id && items[i].workspace_id
                == workspace_id && items[i].kind@ == "Terminal"@ {
            let i = choose|i: int|
                0 <= i < items.len() && (#[trigger] items[i]).item_id == id
                    && items[i].workspace_id == workspace_id && items[i].kind@ == "Terminal"@;
            if i < last {
                assert(before[i].item_id == id);
            }
        } else {
            assert(!(items[last].item_id == id && items[last].is_terminal_of(workspace_id)));
        }
        if center_ids(items, workspace_id).contains(id) && !center_ids(
            before,
            workspace_id,
        ).contains(id) {
            assert(items[last].item_id == id);
        }
    }
}

/// What a cleanup leaves of a table, told by what refers to a terminal. A row of another workspace
/// stays. A row of the workspace stays if and only if its terminal is loaded, is one of the
/// terminals in the center panes of that workspace, or is one to which the stored panel refers.
/// A row that stays is not changed.
pub proof fn law_cleanup_keeps_what_is_referred_to(
    rows: Map<(i64, u64), RowView>,
    workspace_id: i64,
    alive_items: Seq<u64>,
    center_items: Seq<CenterItem>,
    panel: StoredPanel,
    key: (i64, u64),
)
    ensures
        ({
            let left = cleaned_rows(
                rows,
                workspace_id,
                protected_ids(alive_items, center_items, panel, workspace_id),
            );
            let is_loaded = alive_items.contains(key.1);
            let is_in_center = exists|i: int|
                0 <= i < center_items.len() && (#[trigger] center_items[i]).item_id == key.1
                    && center_items[i].workspace_id == workspace_id && center_items[i].kind@
                    == "Terminal"@;
            let is_in_panel = panel matches StoredPanel::Valid(stored) && panel_refers_to(
                stored@,
                key.1,
            );
            &&& left.contains_key(key) <==> rows.contains_key(key) && (key.0 != workspace_id
                || is_loaded || is_in_center || is_in_panel)
            &&& left.contains_key(key) ==> left[key] == rows[key]
        }),
{
    lemma_center_ids(center_items, workspace_id, key.1);
    if let StoredPanel::Valid(stored) = panel {
        law_saved_tabs_refer_to_their_terminals(stored@.items, key.1);
    }
}

/// A terminal that is saved with a panel keeps its row: whichever other terminals are loaded, a
/// cleanup that is given the stored panel keeps the row of every terminal tab in which no task
/// runs, of whichever pane of the layout, be the layout a tree of splits or a single pane.
pub proof fn law_saved_tabs_keep_their_rows(
    rows: Map<(i64, u64), RowView>,
    workspace_id: i64,
    alive_items: Seq<u64>,
    center_items: Seq<CenterItem>,
    stored: SerializedTerminalPanel,
    layout: LiveLayout,
    active_pane: u64,
    pane: int,
    tab: int,
)
    requires
        stored@.items == SavedItems::WithSplits(saved_layout(layout, active_pane)),
        0 <= pane < panes(layout).len(),
        0 <= tab < panes(layout)[pane].items.len(),
        panes(layout)[pane].items[tab] matches PaneItem::Terminal(terminal) && !terminal.is_task,
        rows.contains_key(
            (workspace_id, panes(layout)[pane].items[tab]->Terminal_0.serialized_item_id),
        ),
    ensures
        ({
            let key = (
                workspace_id,
                panes(layout)[pane].items[tab]->Terminal_0.serialized_item_id,
            );
            let left = cleaned_rows(
                rows,
                workspace_id,
                protected_ids(alive_items, center_items, StoredPanel::Valid(stored), workspace_id),
            );
            left.contains_key(key) && left[key] == rows[key]
        }),
{
    law_saved_panel_protects_its_terminals(
        layout,
        active_pane,
        stored@.active_item_id,
        pane,
        tab,
    );
}

/// The stale ids are told one by one, from left to right: a further id comes behind the others if
/// it is not protected, and else adds nothing.
pub proof fn law_stale_ids_are_told_one_by_one(stored: Seq<u64>, protected: Set<u64>, id: u64)
    ensures
        stale_ids(Seq::empty(), protected).len() == 0,
        stale_ids(stored.push(id), protected) == if protected.contains(id) {
            stale_ids(stored, protected)
        } else {
            stale_ids(stored, protected).push(id)
        },
{
    reveal(Seq::filter);
    assert(stored.push(id).drop_last() =~= stored);
}

/// A cleanup has one outcome. If the stored panel cannot be read, it fails for that reason and
/// changes nothing. Else a row is left if and only if it belongs to another workspace, or its
/// terminal is loaded, in the center panes of the workspace, or referred to by the stored panel,
/// if there is one. What is left is not changed, and the ids that are told are those of the rows
/// that are gone, each once.
pub proof fn law_a_cleanup_has_one_outcome(
    before: TableView,
    alive_items: Seq<u64>,
    workspace_id: i64,
    center_items: Seq<CenterItem>,
    panel: StoredPanel,
    result: Result<Vec<u64>, CleanupError>,
    after: TableView,
    key: (i64, u64),
)
    requires
        cleans_up(before, alive_items, workspace_id, center_items, panel, result, after),
    ensures
        after.workspaces == before.workspaces,
        panel matches StoredPanel::Invalid(cause) ==> {
            &&& result matches Err(CleanupError::InvalidPanel(reason)) && reason@ == cause@
            &&& after.rows == before.rows
        },
        !(panel is Invalid) ==> {
            let is_in_center = exists|i: int|
                0 <= i < center_items.len() && (#[trigger] center_items[i]).item_id == key.1
                    && center_items[i].workspace_id == workspace_id && center_items[i].kind@
                    == "Terminal"@;
            let is_in_panel = panel matches StoredPanel::Valid(stored) && panel_refers_to(
                stored@,
                key.1,
            );
            &&& result matches Ok(deleted)
            &&& deleted@.no_duplicates()
            &&& after.rows.contains_key(key) <==> before.rows.contains_key(key) && (key.0
                != workspace_id || alive_items.contains(key.1) || is_in_center || is_in_panel)
            &&& after.rows.contains_key(key) ==> after.rows[key] == before.rows[key]
            &&& deleted@.contains(key.1) <==> before.rows.contains_key((workspace_id, key.1))
                && !after.rows.contains_key((workspace_id, key.1))
        },
{
    law_cleanup_keeps_what_is_referred_to(
        before.rows,
        workspace_id,
        alive_items,
        center_items,
        panel,
        key,
    );
}

} // verus!
