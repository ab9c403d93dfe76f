//! The table of saved terminals.

use vstd::prelude::*;
use vstd::utf8::decode_utf8;
use vstd::utf8::valid_utf8;
use crate::native_path::NativePath;
use crate::native_path::PathView;
use crate::native_path::path_text;
use crate::native_path::path_view;
use crate::terminal_source::SHELL_TERMINAL_KIND;
use crate::terminal_source::SerializedTerminalSource;
use crate::terminal_source::SourceErrorView;
use crate::terminal_source::SourceView;
use crate::terminal_source::TerminalSourceError;
use crate::terminal_source::TMUX_TERMINAL_KIND;
use crate::terminal_source::kind_of_session;
use crate::terminal_source::law_only_shells_are_shells;
use crate::terminal_source::law_source_round_trips;
use crate::terminal_source::read_terminal_source;
use crate::terminal_source::source_of_row;
use crate::terminal_source::terminal_kind;
use crate::terminal_source::text_view;

verus! {

/// A row of the table. A terminal is identified by its workspace and its own id.
#[derive(Clone, Debug, PartialEq, Eq)]
pub struct TerminalRow {
    pub workspace_id: i64,
    pub item_id: u64,
    /// The path of the working directory.
    pub working_directory: Option<NativePath>,
    /// The same path as a text.
    pub working_directory_path: Option<String>,
    pub custom_title: Option<String>,
    pub terminal_kind: String,
    pub remote_tmux_session_name: Option<String>,
}

/// What the table holds of a terminal.
pub struct RowView {
    pub working_directory: Option<PathView>,
    pub working_directory_path: Option<Seq<char>>,
    pub custom_title: Option<Seq<char>>,
    pub terminal_kind: Seq<char>,
    pub remote_tmux_session_name: Option<Seq<char>>,
}

impl View for TerminalRow {
    type V = RowView;

    open spec fn view(&self) -> RowView {
        RowView {
            working_directory: path_view(self.working_directory),
            working_directory_path: text_view(self.working_directory_path),
            custom_title: text_view(self.custom_title),
            terminal_kind: self.terminal_kind@,
            remote_tmux_session_name: text_view(self.remote_tmux_session_name),
        }
    }
}

impl TerminalRow {
    /// The workspace and the id by which the terminal is identified.
    pub open spec fn key(self) -> (i64, u64) {
        (self.workspace_id, self.item_id)
    }

    /// The row of a terminal of which nothing is known yet. It shows a shell.
    pub fn new(item_id: u64, workspace_id: i64) -> (row: TerminalRow)
        ensures
            row.key() == (workspace_id, item_id),
            row@ == RowView::blank(),
    {
        TerminalRow {
            workspace_id,
            item_id,
            working_directory: None,
            working_directory_path: None,
            custom_title: None,
            terminal_kind: SHELL_TERMINAL_KIND.to_owned(),
            remote_tmux_session_name: None,
        }
    }
}

impl RowView {
    /// The row of a terminal of which nothing is known yet.
    pub open spec fn blank() -> RowView {
        RowView {
            working_directory: None,
            working_directory_path: None,
            custom_title: None,
            terminal_kind: SHELL_TERMINAL_KIND@,
            remote_tmux_session_name: None,
        }
    }

    /// The row with a source.
    pub open spec fn with_source(self, session_name: Option<Seq<char>>) -> RowView {
        RowView {
            terminal_kind: kind_of_session(session_name),
            remote_tmux_session_name: session_name,
            ..self
        }
    }

    /// The row with a title.
    pub open spec fn with_title(self, custom_title: Option<Seq<char>>) -> RowView {
        RowView { custom_title, ..self }
    }

    /// The row with a working directory.
    pub open spec fn with_directory(self, path: PathView, text: Seq<char>) -> RowView {
        RowView { working_directory: Some(path), working_directory_path: Some(text), ..self }
    }
}

/// Why a change of the table is refused.
#[derive(Clone, Copy, Debug, PartialEq, Eq, Structural)]
pub enum TerminalDbError {
    /// There is no workspace with the id.
    UnknownWorkspace,
    /// The workspace already has a terminal with the id.
    DuplicateTerminal,
}

/// What a [`TerminalDb`] holds: the workspaces that there are, and the rows of their terminals.
#[verifier::ext_equal]
pub struct TableView {
    pub workspaces: Set<i64>,
    pub rows: Map<(i64, u64), RowView>,
}

impl TableView {
    /// The row of a terminal, or a blank one where there is none.
    pub open spec fn row_or_blank(self, key: (i64, u64)) -> RowView {
        if self.rows.contains_key(key) {
            self.rows[key]
        } else {
            RowView::blank()
        }
    }

    /// The table with a row. An older row of the same terminal gives way to it.
    pub open spec fn with_row(self, key: (i64, u64), row: RowView) -> TableView {
        TableView { rows: self.rows.insert(key, row), ..self }
    }

    /// Whether the attempt to put a row into the table led to `after`: the row is in it if the
    /// workspace of its terminal exists, and else nothing has changed.
    pub open spec fn saves_row(
        self,
        key: (i64, u64),
        row: RowView,
        result: Result<(), TerminalDbError>,
        after: TableView,
    ) -> bool {
        match result {
            Ok(()) => self.workspaces.contains(key.0) && after == self.with_row(key, row),
            Err(error) => {
                &&& error == TerminalDbError::UnknownWorkspace
                &&& !self.workspaces.contains(key.0)
                &&& after == self
            },
        }
    }

    /// Whether the attempt to save a title led to `after`.
    pub open spec fn saves_title(
        self,
        key: (i64, u64),
        custom_title: Option<Seq<char>>,
        result: Result<(), TerminalDbError>,
        after: TableView,
    ) -> bool {
        self.saves_row(key, self.row_or_blank(key).with_title(custom_title), result, after)
    }

    /// Whether the attempt to save a working directory led to `after`.
    pub open spec fn saves_directory(
        self,
        key: (i64, u64),
        path: PathView,
        text: Seq<char>,
        result: Result<(), TerminalDbError>,
        after: TableView,
    ) -> bool {
        self.saves_row(key, self.row_or_blank(key).with_directory(path, text), result, after)
    }

    /// Whether the attempt to save a source led to `after`.
    pub open spec fn saves_source(
        self,
        key: (i64, u64),
        session_name: Option<Seq<char>>,
        result: Result<(), TerminalDbError>,
        after: TableView,
    ) -> bool {
        self.saves_row(key, self.row_or_blank(key).with_source(session_name), result, after)
    }

    /// Whether the attempt to move a terminal from one key to another led to `after`.
    pub open spec fn moves_terminal(
        self,
        from: (i64, u64),
        to: (i64, u64),
        result: Result<(), TerminalDbError>,
        after: TableView,
    ) -> bool {
        &&& after.workspaces == self.workspaces
        &&& match result {
            Ok(()) => if self.rows.contains_key(from) {
                &&& self.workspaces.contains(to.0)
                &&& to == from || !self.rows.contains_key(to)
                &&& after.rows == moved_rows(self.rows, from, to)
            } else {
                after == self
            },
            Err(TerminalDbError::UnknownWorkspace) => {
                &&& self.rows.contains_key(from)
                &&& !self.workspaces.contains(to.0)
                &&& after == self
            },
            Err(TerminalDbError::DuplicateTerminal) => {
                &&& self.rows.contains_key(from)
                &&& to != from
                &&& self.rows.contains_key(to)
                &&& after == self
            },
        }
    }

    /// What the table says of the source of a terminal.
    pub open spec fn source(self, key: (i64, u64)) -> Result<
        Option<SourceView>,
        SourceErrorView,
    > {
        if self.rows.contains_key(key) {
            let row = self.rows[key];
            match source_of_row(row.terminal_kind, row.remote_tmux_session_name) {
                Ok(source) => Ok(Some(source)),
                Err(error) => Err(error),
            }
        } else {
            Ok(None)
        }
    }
}

/// The rows of a table in which a terminal has moved from one key to another.
pub open spec fn moved_rows(
    rows: Map<(i64, u64), RowView>,
    from: (i64, u64),
    to: (i64, u64),
) -> Map<(i64, u64), RowView> {
    rows.remove(from).insert(to, rows[from])
}

/// The rows in `rows` by their keys.
pub open spec fn rows_view(rows: Seq<TerminalRow>) -> Map<(i64, u64), RowView>
    decreases rows.len(),
{
    if rows.len() == 0 {
        Map::empty()
    } else {
        rows_view(rows.drop_last()).insert(rows.last().key(), rows.last()@)
    }
}

/// Whether no two rows are of the same terminal.
pub open spec fn are_distinct(rows: Seq<TerminalRow>) -> bool {
    forall|i: int, j: int|
        0 <= i < j < rows.len() ==> (#[trigger] rows[i]).key() != (#[trigger] rows[j]).key()
}

proof fn lemma_rows_view(rows: Seq<TerminalRow>)
    requires
        are_distinct(rows),
    ensures
        forall|i: int|
            0 <= i < rows.len() ==> #[trigger] rows_view(rows).contains_key(rows[i].key())
                && rows_view(rows)[rows[i].key()] == rows[i]@,
        forall|key: (i64, u64)| #[trigger]
            rows_view(rows).contains_key(key) ==> exists|i: int|
                0 <= i < rows.len() && (#[trigger] rows[i]).key() == key,
    decreases rows.len(),
{
    if rows.len() > 0 {
        let before = rows.drop_last();
        lemma_rows_view(before);
        assert forall|i: int| 0 <= i < rows.len() implies #[trigger] rows_view(rows).contains_key(
            rows[i].key(),
        ) && rows_view(rows)[rows[i].key()] == rows[i]@ by {
            if i < before.len() {
                assert(before[i] == rows[i]);
                assert(rows_view(before).contains_key(before[i].key()));
                assert(rows[i].key() != rows[rows.len() - 1].key());
            }
        }
        assert forall|key: (i64, u64)| #[trigger] rows_view(rows).contains_key(key) implies exists|
            i: int,
        |
            0 <= i < rows.len() && (#[trigger] rows[i]).key() == key by {
            if key == rows.last().key() {
                assert(rows[rows.len() - 1].key() == key);
            } else {
                assert(rows_view(before).contains_key(key));
                let i = choose|i: int| 0 <= i < before.len() && (#[trigger] before[i]).key() == key;
                assert(rows[i].key() == key);
            }
        }
    }
}

/// The table of saved terminals, and the workspaces to which they belong.
#[derive(Clone, Debug, PartialEq, Eq)]
pub struct TerminalDb {
    workspaces: Vec<i64>,
    rows: Vec<TerminalRow>,
}

impl View for TerminalDb {
    type V = TableView;

    closed spec fn view(&self) -> TableView {
        TableView { workspaces: self.workspaces@.to_set(), rows: rows_view(self.rows@) }
    }
}

impl TerminalDb {
    /// What holds of every table: a terminal has one row at most, and its workspace exists.
    pub closed spec fn wf(&self) -> bool {
        &&& are_distinct(self.rows@)
        &&& forall|i: int|
            0 <= i < self.rows.len() ==> self.workspaces@.contains(
                (#[trigger] self.rows[i]).workspace_id,
            )
    }

    /// An empty table for the terminals of `workspaces`.
    pub fn new(workspaces: Vec<i64>) -> (db: TerminalDb)
        ensures
            db.wf(),
            db@ == (TableView { workspaces: workspaces@.to_set(), rows: Map::empty() }),
    {
        TerminalDb { workspaces, rows: Vec::new() }
    }

    fn has_workspace(&self, workspace_id: i64) -> (known: bool)
        ensures
            known == self@.workspaces.contains(workspace_id),
            known == self.workspaces@.contains(workspace_id),
    {
        let mut index: usize = 0;
        while index < self.workspaces.len()
            invariant
                index <= self.workspaces.len(),
                forall|i: int| 0 <= i < index ==> self.workspaces[i] != workspace_id,
            decreases self.workspaces.len() - index,
        {
            if self.workspaces[index] == workspace_id {
                assert(self.workspaces@[index as int] == workspace_id);
                return true;
            }
            index += 1;
        }
        false
    }

    fn find(&self, item_id: u64, workspace_id: i64) -> (found: Option<usize>)
        requires
            self.wf(),
        ensures
            match found {
                Some(index) => {
                    &&& index < self.rows.len()
                    &&& self.rows[index as int].key() == (workspace_id, item_id)
                    &&& self@.rows.contains_key((workspace_id, item_id))
                    &&& self@.rows[(workspace_id, item_id)] == self.rows[index as int]@
                },
                None => {
                    &&& !self@.rows.contains_key((workspace_id, item_id))
                    &&& forall|i: int|
                        0 <= i < self.rows.len() ==> (#[trigger] self.rows[i]).key() != (
                            workspace_id,
                            item_id,
                        )
                },
            },
    {
        proof {
            lemma_rows_view(self.rows@);
        }
        let mut index: usize = 0;
        while index < self.rows.len()
            invariant
                self.wf(),
                index <= self.rows.len(),
                forall|i: int|
                    0 <= i < index ==> (#[trigger] self.rows[i]).key() != (workspace_id, item_id),
            decreases self.rows.len() - index,
        {
            if self.rows[index].workspace_id == workspace_id && self.rows[index].item_id
                == item_id {
                proof {
                    lemma_rows_view(self.rows@);
                }
                assert(rows_view(self.rows@).contains_key(self.rows@[index as int].key()));
                return Some(index);
            }
            index += 1;
        }
        None
    }

    /// The row of a terminal for a change, taken out of the table: the one it has, or a new one.
    fn take_row(&mut self, item_id: u64, workspace_id: i64) -> (row: TerminalRow)
        requires
            old(self).wf(),
        ensures
            final(self).wf(),
            row.key() == (workspace_id, item_id),
            row@ == old(self)@.row_or_blank((workspace_id, item_id)),
            final(self).workspaces@ == old(self).workspaces@,
            final(self)@ == (TableView {
                rows: old(self)@.rows.remove((workspace_id, item_id)),
                ..old(self)@
            }),
    {
        let ghost before = self.rows@;
        match self.find(item_id, workspace_id) {
            Some(index) => {
                let row = self.rows.remove(index);
                proof {
                    let key = (workspace_id, item_id);
                    let after = self.rows@;
                    assert forall|i: int| 0 <= i < after.len() implies #[trigger] after[i]
                        == before[if i < index {
                        i
                    } else {
                        i + 1
                    }] by {}
                    assert(are_distinct(after));
                    lemma_rows_view(before);
                    lemma_rows_view(after);
                    assert forall|other: (i64, u64)|
                        rows_view(after).contains_key(other) <==> rows_view(before).remove(
                            key,
                        ).contains_key(other) by {
                        if rows_view(before).remove(key).contains_key(other) {
                            let i = choose|i: int|
                                0 <= i < before.len() && (#[trigger] before[i]).key() == other;
                            let at = if i < index {
                                i
                            } else {
                                i - 1
                            };
                            assert(after[at] == before[i]);
                            assert(rows_view(after).contains_key(after[at].key()));
                        }
                        if rows_view(after).contains_key(other) {
                            let i = choose|i: int|
                                0 <= i < after.len() && (#[trigger] after[i]).key() == other;
                            let at = if i < index {
                                i
                            } else {
                                i + 1
                            };
                            assert(after[i] == before[at]);
                            assert(rows_view(before).contains_key(before[at].key()));
                        }
                    }
                    assert forall|other: (i64, u64)| rows_view(after).contains_key(other) implies
                        rows_view(after)[other] == rows_view(before)[other] by {
                        let i = choose|i: int|
                            0 <= i < after.len() && (#[trigger] after[i]).key() == other;
                        let at = if i < index {
                            i
                        } else {
                            i + 1
                        };
                        assert(after[i] == before[at]);
                        assert(rows_view(before).contains_key(before[at].key()));
                        assert(rows_view(after).contains_key(after[i].key()));
                    }
                    assert(rows_view(after) =~= rows_view(before).remove(key));
                }
                row
            },
            None => {
                assert(self@.rows.remove((workspace_id, item_id)) =~= self@.rows);
                TerminalRow::new(item_id, workspace_id)
            },
        }
    }

    /// Adds the row of a terminal that has none.
    fn add_row(&mut self, row: TerminalRow)
        requires
            old(self).wf(),
            old(self).workspaces@.contains(row.workspace_id),
            !old(self)@.rows.contains_key(row.key()),
        ensures
            final(self).wf(),
            final(self)@ == old(self)@.with_row(row.key(), row@),
    {
        let ghost before = self.rows@;
        self.rows.push(row);
        proof {
            lemma_rows_view(before);
            assert(self.rows@.drop_last() =~= before);
            assert forall|i: int, j: int| 0 <= i < j < self.rows@.len() implies (
            #[trigger] self.rows@[i]).key() != (#[trigger] self.rows@[j]).key() by {
                if j == before.len() {
                    assert(rows_view(before).contains_key(before[i].key()));
                }
            }
        }
    }

    /// Puts a row into the table as it is. An older row of the same terminal gives way to it.
    pub fn put_row(&mut self, row: TerminalRow) -> (result: Result<(), TerminalDbError>)
        requires
            old(self).wf(),
        ensures
            final(self).wf(),
            old(self)@.saves_row(row.key(), row@, result, final(self)@),
    {
        if !self.has_workspace(row.workspace_id) {
            return Err(TerminalDbError::UnknownWorkspace);
        }
        let _ = self.take_row(row.item_id, row.workspace_id);
        self.add_row(row);
        assert(self@ =~= old(self)@.with_row(row.key(), row@));
        Ok(())
    }

    /// The row of a terminal, if it has one.
    pub fn row(&self, item_id: u64, workspace_id: i64) -> (row: Option<&TerminalRow>)
        requires
            self.wf(),
        ensures
            match row {
                Some(row) => {
                    &&& row.key() == (workspace_id, item_id)
                    &&& self@.rows.contains_key(row.key())
                    &&& self@.rows[row.key()] == row@
                },
                None => !self@.rows.contains_key((workspace_id, item_id)),
            },
    {
        match self.find(item_id, workspace_id) {
            Some(index) => Some(&self.rows[index]),
            None => None,
        }
    }

    /// Moves a terminal to another workspace. A terminal that has no row is left alone.
    pub fn update_workspace_id(&mut self, new_id: i64, old_id: i64, item_id: u64) -> (result:
        Result<(), TerminalDbError>)
        requires
            old(self).wf(),
        ensures
            final(self).wf(),
            old(self)@.moves_terminal(
                (old_id, item_id),
                (new_id, item_id),
                result,
                final(self)@,
            ),
    {
        if self.find(item_id, old_id).is_none() {
            return Ok(());
        }
        if !self.has_workspace(new_id) {
            proof {
                let to = (new_id, item_id);
                lemma_rows_view(self.rows@);
                if self@.rows.contains_key(to) {
                    let i = choose|i: int|
                        0 <= i < self.rows@.len() && (#[trigger] self.rows@[i]).key() == to;
                    assert(self.workspaces@.contains(self.rows[i].workspace_id));
                }
            }
            return Err(TerminalDbError::UnknownWorkspace);
        }
        if new_id != old_id && self.find(item_id, new_id).is_some() {
            return Err(TerminalDbError::DuplicateTerminal);
        }
        let mut row = self.take_row(item_id, old_id);
        row.workspace_id = new_id;
        self.add_row(row);
        Ok(())
    }

    /// Saves the working directory of a terminal: its path, and the text of the path.
    pub fn save_working_directory(
        &mut self,
        item_id: u64,
        workspace_id: i64,
        working_directory: NativePath,
    ) -> (result: Result<(), TerminalDbError>)
        requires
            old(self).wf(),
        ensures
            final(self).wf(),
            old(self)@.saves_directory(
                (workspace_id, item_id),
                working_directory@,
                path_text(working_directory@),
                result,
                final(self)@,
            ),
            working_directory@ matches PathView::Bytes(bytes) ==> valid_utf8(bytes) ==> path_text(
                working_directory@,
            ) == decode_utf8(bytes),
    {
        let text = working_directory.to_string_lossy();
        self.save_working_directory_as(item_id, workspace_id, working_directory, text)
    }

    /// Saves the working directory of a terminal, given as its path and the text of the path.
    pub fn save_working_directory_as(
        &mut self,
        item_id: u64,
        workspace_id: i64,
        working_directory: NativePath,
        text: String,
    ) -> (result: Result<(), TerminalDbError>)
        requires
            old(self).wf(),
        ensures
            final(self).wf(),
            old(self)@.saves_directory(
                (workspace_id, item_id),
                working_directory@,
                text@,
                result,
                final(self)@,
            ),
    {
        if !self.has_workspace(workspace_id) {
            return Err(TerminalDbError::UnknownWorkspace);
        }
        let mut row = self.take_row(item_id, workspace_id);
        row.working_directory = Some(working_directory);
        row.working_directory_path = Some(text);
        self.add_row(row);
        assert(self@ =~= old(self)@.with_row(row.key(), row@));
        Ok(())
    }

    /// The path of the working directory of a terminal. The outer `None` says that
    /// the terminal has no row, the inner one that its row holds no working directory.
    pub fn get_working_directory(&self, item_id: u64, workspace_id: i64) -> (directory: Option<
        Option<NativePath>,
    >)
        requires
            self.wf(),
        ensures
            match directory {
                Some(directory) => {
                    &&& self@.rows.contains_key((workspace_id, item_id))
                    &&& self@.rows[(workspace_id, item_id)].working_directory == path_view(
                        directory,
                    )
                },
                None => !self@.rows.contains_key((workspace_id, item_id)),
            },
    {
        match self.find(item_id, workspace_id) {
            Some(index) => match &self.rows[index].working_directory {
                Some(directory) => Some(Some(directory.clone())),
                None => Some(None),
            },
            None => None,
        }
    }

    /// Saves the title that was given to a terminal.
    pub fn save_custom_title(
        &mut self,
        item_id: u64,
        workspace_id: i64,
        custom_title: Option<String>,
    ) -> (result: Result<(), TerminalDbError>)
        requires
            old(self).wf(),
        ensures
            final(self).wf(),
            old(self)@.saves_title(
                (workspace_id, item_id),
                text_view(custom_title),
                result,
                final(self)@,
            ),
    {
        if !self.has_workspace(workspace_id) {
            return Err(TerminalDbError::UnknownWorkspace);
        }
        let mut row = self.take_row(item_id, workspace_id);
        row.custom_title = custom_title;
        self.add_row(row);
        assert(self@ =~= old(self)@.with_row(row.key(), row@));
        Ok(())
    }

    /// The title that was given to a terminal. The outer `None` says that the terminal has no
    /// row, the inner one that its row holds no title.
    pub fn get_custom_title(&self, item_id: u64, workspace_id: i64) -> (title: Option<
        Option<String>,
    >)
        requires
            self.wf(),
        ensures
            match title {
                Some(title) => {
                    &&& self@.rows.contains_key((workspace_id, item_id))
                    &&& self@.rows[(workspace_id, item_id)].custom_title == text_view(title)
                },
                None => !self@.rows.contains_key((workspace_id, item_id)),
            },
    {
        match self.find(item_id, workspace_id) {
            Some(index) => match &self.rows[index].custom_title {
                Some(title) => Some(Some(title.clone())),
                None => Some(None),
            },
            None => None,
        }
    }

    /// Saves what a terminal shows: a tmux session if there is a name of one, else a shell.
    pub fn save_terminal_source(
        &mut self,
        item_id: u64,
        workspace_id: i64,
        tmux_session_name: Option<String>,
    ) -> (result: Result<(), TerminalDbError>)
        requires
            old(self).wf(),
        ensures
            final(self).wf(),
            old(self)@.saves_source(
                (workspace_id, item_id),
                text_view(tmux_session_name),
                result,
                final(self)@,
            ),
    {
        if !self.has_workspace(workspace_id) {
            return Err(TerminalDbError::UnknownWorkspace);
        }
        let kind = terminal_kind(&tmux_session_name).to_owned();
        let mut row = self.take_row(item_id, workspace_id);
        row.terminal_kind = kind;
        row.remote_tmux_session_name = tmux_session_name;
        self.add_row(row);
        assert(self@ =~= old(self)@.with_row(row.key(), row@));
        Ok(())
    }

    /// What a terminal shows; `None` for a terminal that has no row.
    pub fn get_terminal_source(&self, item_id: u64, workspace_id: i64) -> (source: Result<
        Option<SerializedTerminalSource>,
        TerminalSourceError,
    >)
        requires
            self.wf(),
        ensures
            match source {
                Ok(Some(source)) => self@.source((workspace_id, item_id)) == Ok::<
                    Option<SourceView>,
                    SourceErrorView,
                >(Some(source@)),
                Ok(None) => self@.source((workspace_id, item_id)) == Ok::<
                    Option<SourceView>,
                    SourceErrorView,
                >(None),
                Err(error) => self@.source((workspace_id, item_id)) == Err::<
                    Option<SourceView>,
                    SourceErrorView,
                >(error@),
            },
    {
        match self.find(item_id, workspace_id) {
            Some(index) => {
                let row = &self.rows[index];
                match read_terminal_source(&row.terminal_kind, &row.remote_tmux_session_name) {
                    Ok(source) => Ok(Some(source)),
                    Err(error) => Err(error),
                }
            },
            None => Ok(None),
        }
    }

    /// The ids of the terminals of a workspace.
    pub fn item_ids(&self, workspace_id: i64) -> (ids: Vec<u64>)
        requires
            self.wf(),
        ensures
            ids@.no_duplicates(),
            forall|id: u64| #[trigger]
                ids@.contains(id) <==> self@.rows.contains_key((workspace_id, id)),
    {
        let mut ids: Vec<u64> = Vec::new();
        let mut index: usize = 0;
        while index < self.rows.len()
            invariant
                self.wf(),
                index <= self.rows.len(),
                ids@.no_duplicates(),
                forall|id: u64| #[trigger]
                    ids@.contains(id) <==> exists|i: int|
                        0 <= i < index && (#[trigger] self.rows[i]).key() == (workspace_id, id),
            decreases self.rows.len() - index,
        {
            let row = &self.rows[index];
            if row.workspace_id == workspace_id {
                let ghost before = ids@;
                let item_id = row.item_id;
                assert(row.key() == (workspace_id, item_id));
                assert(!before.contains(item_id));
                ids.push(item_id);
                assert forall|id: u64| #[trigger]
                    ids@.contains(id) <==> exists|i: int|
                        0 <= i < index + 1 && (#[trigger] self.rows[i]).key() == (
                            workspace_id,
                            id,
                        ) by {
                    if id == item_id {
                        assert(ids@[before.len() as int] == id);
                        assert(self.rows[index as int].key() == (workspace_id, id));
                    } else {
                        assert(ids@.contains(id) <==> before.contains(id)) by {
                            if before.contains(id) {
                                let at = choose|at: int|
                                    0 <= at < before.len() && before[at] == id;
                                assert(ids@[at] == id);
                            }
                            if ids@.contains(id) {
                                let at = choose|at: int| 0 <= at < ids@.len() && ids@[at] == id;
                                assert(before[at] == id);
                            }
                        }
                    }
                }
            }
            index += 1;
        }
        proof {
            lemma_rows_view(self.rows@);
            assert forall|id: u64| #[trigger]
                ids@.contains(id) <==> self@.rows.contains_key((workspace_id, id)) by {
                if ids@.contains(id) {
                    let i = choose|i: int|
                        0 <= i < self.rows.len() && (#[trigger] self.rows[i]).key() == (
                            workspace_id,
                            id,
                        );
                    assert(rows_view(self.rows@).contains_key(self.rows@[i].key()));
                }
                if self@.rows.contains_key((workspace_id, id)) {
                    let i = choose|i: int|
                        0 <= i < self.rows@.len() && (#[trigger] self.rows@[i]).key() == (
                            workspace_id,
                            id,
                        );
                    assert(self.rows[i].key() == (workspace_id, id));
                }
            }
        }
        ids
    }

    /// Deletes the row of a terminal, if it has one.
    pub fn delete(&mut self, item_id: u64, workspace_id: i64)
        requires
            old(self).wf(),
        ensures
            final(self).wf(),
            final(self)@ == (TableView {
                rows: old(self)@.rows.remove((workspace_id, item_id)),
                ..old(self)@
            }),
    {
        let _ = self.take_row(item_id, workspace_id);
    }
}

/// What was saved as the source of a terminal is read back: the session with its exact name, or
/// a shell. It does not matter what the table held before.
pub proof fn law_saved_source_is_read_back(
    table: TableView,
    key: (i64, u64),
    session_name: Option<Seq<char>>,
)
    ensures
        table.with_row(key, table.row_or_blank(key).with_source(session_name)).source(key) == Ok::<
            Option<SourceView>,
            SourceErrorView,
        >(
            Some(
                match session_name {
                    Some(session_name) => SourceView::Tmux(session_name),
                    None => SourceView::Shell,
                },
            ),
        ),
{
    law_source_round_trips(session_name);
}

/// What was saved as the title or the working directory of a terminal is read back, the directory
/// with its text. It does not matter what the table held before.
pub proof fn law_saved_columns_are_read_back(
    table: TableView,
    key: (i64, u64),
    custom_title: Option<Seq<char>>,
    path: PathView,
    text: Seq<char>,
)
    ensures
        table.with_row(key, table.row_or_blank(key).with_title(custom_title)).rows[key].custom_title
            == custom_title,
        ({
            let row = table.row_or_blank(key).with_directory(path, text);
            let saved = table.with_row(key, row).rows[key];
            &&& saved.working_directory == Some(path)
            &&& saved.working_directory_path == Some(text)
        }),
{
}

/// A terminal of which only a title or a working directory was saved shows a shell.
pub proof fn law_terminals_default_to_shell(
    table: TableView,
    key: (i64, u64),
    custom_title: Option<Seq<char>>,
    path: PathView,
    text: Seq<char>,
)
    requires
        !table.rows.contains_key(key),
    ensures
        table.with_row(key, table.row_or_blank(key).with_title(custom_title)).source(key) == Ok::<
            Option<SourceView>,
            SourceErrorView,
        >(Some(SourceView::Shell)),
        table.with_row(key, table.row_or_blank(key).with_directory(path, text)).source(key)
            == Ok::<Option<SourceView>, SourceErrorView>(Some(SourceView::Shell)),
{
}

/// A tmux terminal without the name of a session is an error, and never a shell.
pub proof fn law_invalid_tmux_source_is_no_shell(table: TableView, key: (i64, u64))
    requires
        table.rows.contains_key(key),
        table.rows[key].terminal_kind == TMUX_TERMINAL_KIND@,
        table.rows[key].remote_tmux_session_name is None,
    ensures
        table.source(key) == Err::<Option<SourceView>, SourceErrorView>(
            SourceErrorView::MissingSessionName,
        ),
{
    law_only_shells_are_shells(TMUX_TERMINAL_KIND@, None);
}

/// The title, the working directory and the source of a terminal are saved independently: saving
/// one keeps the two others, so that the order of saves of different kinds does not matter.
pub proof fn law_columns_are_independent(
    row: RowView,
    session_name: Option<Seq<char>>,
    custom_title: Option<Seq<char>>,
    path: PathView,
    text: Seq<char>,
)
    ensures
        row.with_title(custom_title).with_source(session_name) == row.with_source(
            session_name,
        ).with_title(custom_title),
        row.with_title(custom_title).with_directory(path, text) == row.with_directory(
            path,
            text,
        ).with_title(custom_title),
        row.with_source(session_name).with_directory(path, text) == row.with_directory(
            path,
            text,
        ).with_source(session_name),
{
}

/// Of two saves of the same kind the later one counts.
pub proof fn law_the_last_save_counts(
    row: RowView,
    first: (Option<Seq<char>>, Option<Seq<char>>, PathView, Seq<char>),
    last: (Option<Seq<char>>, Option<Seq<char>>, PathView, Seq<char>),
)
    ensures
        row.with_source(first.0).with_source(last.0) == row.with_source(last.0),
        row.with_title(first.1).with_title(last.1) == row.with_title(last.1),
        row.with_directory(first.2, first.3).with_directory(last.2, last.3) == row.with_directory(
            last.2,
            last.3,
        ),
{
}

/// Saving something of one terminal changes nothing of another, even of one with the same id in
/// another workspace.
pub proof fn law_other_terminals_are_untouched(
    table: TableView,
    key: (i64, u64),
    row: RowView,
    other: (i64, u64),
)
    requires
        other != key,
    ensures
        table.with_row(key, row).rows.contains_key(other) == table.rows.contains_key(other),
        table.rows.contains_key(other) ==> table.with_row(key, row).rows[other]
            == table.rows[other],
        table.with_row(key, row).source(other) == table.source(other),
{
}

/// A terminal that is moved keeps its row, and to move it back undoes the move.
pub proof fn law_moving_back_undoes_a_move(
    rows: Map<(i64, u64), RowView>,
    from: (i64, u64),
    to: (i64, u64),
)
    requires
        rows.contains_key(from),
        from == to || !rows.contains_key(to),
    ensures
        moved_rows(rows, from, to)[to] == rows[from],
        moved_rows(moved_rows(rows, from, to), to, from) == rows,
{
    assert(moved_rows(moved_rows(rows, from, to), to, from) =~= rows);
}

/// Whether an attempt to save something of a terminal led from one table to another in which
/// nothing else differs. It succeeds if and only if the workspace exists. Then the terminal has a
/// row, and every other row and the workspaces are as before; else everything is as before.
pub open spec fn changes_one_row(
    before: TableView,
    key: (i64, u64),
    result: Result<(), TerminalDbError>,
    after: TableView,
) -> bool {
    &&& after.workspaces == before.workspaces
    &&& if before.workspaces.contains(key.0) {
        &&& result is Ok
        &&& after.rows.contains_key(key)
        &&& forall|other: (i64, u64)|
            other != key ==> (#[trigger] after.rows.contains_key(other)
                <==> before.rows.contains_key(other))
        &&& forall|other: (i64, u64)|
            other != key && before.rows.contains_key(other) ==> #[trigger] after.rows[other]
                == before.rows[other]
    } else {
        &&& result == Err::<(), TerminalDbError>(TerminalDbError::UnknownWorkspace)
        &&& after.rows == before.rows
    }
}

/// A row that is put into the table is in it as it is, and nothing else has changed.
pub proof fn law_putting_a_row_changes_it_alone(
    before: TableView,
    key: (i64, u64),
    row: RowView,
    result: Result<(), TerminalDbError>,
    after: TableView,
)
    requires
        before.saves_row(key, row, result, after),
    ensures
        changes_one_row(before, key, result, after),
        result is Ok ==> after.rows[key] == row,
{
}

/// Saving a title changes the title alone: the row keeps the working directory, its text, the
/// kind and the session that it had in the table. A terminal without a row gets one that shows a
/// shell and has no working directory.
pub proof fn law_saving_a_title_keeps_the_rest(
    before: TableView,
    key: (i64, u64),
    custom_title: Option<Seq<char>>,
    result: Result<(), TerminalDbError>,
    after: TableView,
)
    requires
        before.saves_title(key, custom_title, result, after),
    ensures
        changes_one_row(before, key, result, after),
        result is Ok ==> after.rows[key].custom_title == custom_title,
        result is Ok && before.rows.contains_key(key) ==> {
            &&& after.rows[key].working_directory == before.rows[key].working_directory
            &&& after.rows[key].working_directory_path == before.rows[key].working_directory_path
            &&& after.rows[key].terminal_kind == before.rows[key].terminal_kind
            &&& after.rows[key].remote_tmux_session_name
                == before.rows[key].remote_tmux_session_name
        },
        result is Ok && !before.rows.contains_key(key) ==> {
            &&& after.rows[key].working_directory is None
            &&& after.rows[key].working_directory_path is None
            &&& after.rows[key].terminal_kind == "shell"@
            &&& after.rows[key].remote_tmux_session_name is None
        },
{
}

/// Saving a source changes the kind and the session alone: the row keeps the working directory,
/// its text and the title that it had in the table. A terminal without a row gets one without a
/// working directory and a title.
pub proof fn law_saving_a_source_keeps_the_rest(
    before: TableView,
    key: (i64, u64),
    session_name: Option<Seq<char>>,
    result: Result<(), TerminalDbError>,
    after: TableView,
)
    requires
        before.saves_source(key, session_name, result, after),
    ensures
        changes_one_row(before, key, result, after),
        result is Ok ==> {
            &&& after.rows[key].remote_tmux_session_name == session_name
            &&& session_name is Some ==> after.rows[key].terminal_kind == "remote_tmux"@
            &&& session_name is None ==> after.rows[key].terminal_kind == "shell"@
        },
        result is Ok && before.rows.contains_key(key) ==> {
            &&& after.rows[key].working_directory == before.rows[key].working_directory
            &&& after.rows[key].working_directory_path == before.rows[key].working_directory_path
            &&& after.rows[key].custom_title == before.rows[key].custom_title
        },
        result is Ok && !before.rows.contains_key(key) ==> {
            &&& after.rows[key].working_directory is None
            &&& after.rows[key].working_directory_path is None
            &&& after.rows[key].custom_title is None
        },
{
}

/// Saving a working directory changes the directory and its text alone: the row keeps the title,
/// the kind and the session that it had in the table. A terminal without a row gets one that
/// shows a shell and has no title.
pub proof fn law_saving_a_directory_keeps_the_rest(
    before: TableView,
    key: (i64, u64),
    path: PathView,
    text: Seq<char>,
    result: Result<(), TerminalDbError>,
    after: TableView,
)
    requires
        before.saves_directory(key, path, text, result, after),
    ensures
        changes_one_row(before, key, result, after),
        result is Ok ==> {
            &&& after.rows[key].working_directory == Some(path)
            &&& after.rows[key].working_directory_path == Some(text)
        },
        result is Ok && before.rows.contains_key(key) ==> {
            &&& after.rows[key].custom_title == before.rows[key].custom_title
            &&& after.rows[key].terminal_kind == before.rows[key].terminal_kind
            &&& after.rows[key].remote_tmux_session_name
                == before.rows[key].remote_tmux_session_name
        },
        result is Ok && !before.rows.contains_key(key) ==> {
            &&& after.rows[key].custom_title is None
            &&& after.rows[key].terminal_kind == "shell"@
            &&& after.rows[key].remote_tmux_session_name is None
        },
{
}

/// What the table says of a terminal follows from the kind and the session in its row: nothing
/// for a terminal without a row, else a shell, a session, or an error.
pub proof fn law_the_row_tells_the_source(table: TableView, key: (i64, u64))
    ensures
        !table.rows.contains_key(key) ==> table.source(key) == Ok::<
            Option<SourceView>,
            SourceErrorView,
        >(None),
        table.rows.contains_key(key) ==> {
            let kind = table.rows[key].terminal_kind;
            let name = table.rows[key].remote_tmux_session_name;
            &&& kind == "shell"@ ==> table.source(key) == Ok::<Option<SourceView>, SourceErrorView>(
                Some(SourceView::Shell),
            )
            &&& kind == "remote_tmux"@ && name is Some ==> table.source(key) == Ok::<
                Option<SourceView>,
                SourceErrorView,
            >(Some(SourceView::Tmux(name->0)))
            &&& kind == "remote_tmux"@ && name is None ==> table.source(key) == Err::<
                Option<SourceView>,
                SourceErrorView,
            >(SourceErrorView::MissingSessionName)
            &&& kind != "shell"@ && kind != "remote_tmux"@ ==> table.source(key) == Err::<
                Option<SourceView>,
                SourceErrorView,
            >(SourceErrorView::UnknownKind(kind))
        },
{
    if table.rows.contains_key(key) {
        crate::terminal_source::law_every_kind_is_told_apart(
            table.rows[key].terminal_kind,
            table.rows[key].remote_tmux_session_name,
        );
    }
}

/// A move takes the row of a terminal from one key to another as it is. The old key has no row
/// after it, unless it is the new one, and no other row is touched.
pub proof fn law_a_move_touches_one_terminal(
    rows: Map<(i64, u64), RowView>,
    from: (i64, u64),
    to: (i64, u64),
    other: (i64, u64),
)
    requires
        rows.contains_key(from),
    ensures
        moved_rows(rows, from, to).contains_key(to),
        moved_rows(rows, from, to)[to] == rows[from],
        from != to ==> !moved_rows(rows, from, to).contains_key(from),
        other != from && other != to ==> {
            &&& moved_rows(rows, from, to).contains_key(other) <==> rows.contains_key(other)
            &&& rows.contains_key(other) ==> moved_rows(rows, from, to)[other] == rows[other]
        },
{
}

/// The attempt to move a terminal has one outcome. A terminal without a row is left alone. One
/// with a row moves, unless there is no such workspace or the workspace has a terminal with the
/// id already; then nothing changes. The row moves as it is, and no other row is touched.
pub proof fn law_a_move_has_one_outcome(
    before: TableView,
    from: (i64, u64),
    to: (i64, u64),
    result: Result<(), TerminalDbError>,
    after: TableView,
    other: (i64, u64),
)
    requires
        before.moves_terminal(from, to, result, after),
        before.rows.contains_key(to) ==> before.workspaces.contains(to.0),
    ensures
        after.workspaces == before.workspaces,
        !before.rows.contains_key(from) ==> result is Ok && after.rows == before.rows,
        before.rows.contains_key(from) ==> {
            let is_taken = from != to && before.rows.contains_key(to);
            &&& !before.workspaces.contains(to.0) ==> result == Err::<(), TerminalDbError>(
                TerminalDbError::UnknownWorkspace,
            )
            &&& is_taken ==> result == Err::<(), TerminalDbError>(
                TerminalDbError::DuplicateTerminal,
            )
            &&& before.workspaces.contains(to.0) && !is_taken <==> result is Ok
            &&& result is Err ==> after.rows == before.rows
            &&& result is Ok ==> {
                &&& after.rows.contains_key(to)
                &&& after.rows[to] == before.rows[from]
                &&& from != to ==> !after.rows.contains_key(from)
                &&& other != from && other != to ==> {
                    &&& after.rows.contains_key(other) <==> before.rows.contains_key(other)
                    &&& before.rows.contains_key(other) ==> after.rows[other] == before.rows[other]
                }
            }
        },
{
}

} // verus!
