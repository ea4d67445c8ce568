//! The rules of the interface that need no terminal: what a key stands for,
//! what a typed command asks, and where the cursor goes.

use crate::version::store::FieldBuilder;
use crate::version::{PlainValueView, PlaintextValue};
use vstd::prelude::*;

verus! {

/// A key as the terminal reports it.
#[derive(Debug, Clone, Copy, PartialEq, Eq, Structural)]
pub enum Key {
    Backspace,
    Left,
    Right,
    Up,
    Down,
    Home,
    End,
    PageUp,
    PageDown,
    BackTab,
    Delete,
    Insert,
    F(u8),
    Char(char),
    Alt(char),
    Ctrl(char),
    Null,
    Esc,
}

/// What a key asks for while no text is being entered.
#[derive(Debug, Clone, Copy, PartialEq, Eq, Structural)]
pub enum Cmd {
    Up,
    Down,
    Left,
    Right,
    ScrollUp,
    ScrollDown,
    StartSearch,
    StartCommand,
    Quit,
    Select,
}

impl Cmd {
    /// What `key` asks for: the arrows and `h`, `j`, `k`, `l` move, Ctrl-e
    /// and Ctrl-y scroll, `/` searches, `:` starts a command, `q` quits, and
    /// the return key selects. Every other key asks for nothing.
    pub open spec fn spec_from_key(key: Key) -> Option<Cmd> {
        match key {
            Key::Left => Some(Cmd::Left),
            Key::Down => Some(Cmd::Down),
            Key::Up => Some(Cmd::Up),
            Key::Right => Some(Cmd::Right),
            Key::Ctrl(c) => if c == 'e' {
                Some(Cmd::ScrollDown)
            } else if c == 'y' {
                Some(Cmd::ScrollUp)
            } else {
                None
            },
            Key::Char(c) => if c == 'h' {
                Some(Cmd::Left)
            } else if c == 'j' {
                Some(Cmd::Down)
            } else if c == 'k' {
                Some(Cmd::Up)
            } else if c == 'l' {
                Some(Cmd::Right)
            } else if c == '/' {
                Some(Cmd::StartSearch)
            } else if c == ':' {
                Some(Cmd::StartCommand)
            } else if c == 'q' {
                Some(Cmd::Quit)
            } else if c == '\n' {
                Some(Cmd::Select)
            } else {
                None
            },
            _ => None,
        }
    }

    /// Tells what `key` asks for.
    pub fn from_key(key: Key) -> (cmd: Option<Cmd>)
        ensures
            cmd == Cmd::spec_from_key(key),
    {
        match key {
            Key::Left => Some(Cmd::Left),
            Key::Down => Some(Cmd::Down),
            Key::Up => Some(Cmd::Up),
            Key::Right => Some(Cmd::Right),
            Key::Ctrl(c) => if c == 'e' {
                Some(Cmd::ScrollDown)
            } else if c == 'y' {
                Some(Cmd::ScrollUp)
            } else {
                None
            },
            Key::Char(c) => if c == 'h' {
                Some(Cmd::Left)
            } else if c == 'j' {
                Some(Cmd::Down)
            } else if c == 'k' {
                Some(Cmd::Up)
            } else if c == 'l' {
                Some(Cmd::Right)
            } else if c == '/' {
                Some(Cmd::StartSearch)
            } else if c == ':' {
                Some(Cmd::StartCommand)
            } else if c == 'q' {
                Some(Cmd::Quit)
            } else if c == '\n' {
                Some(Cmd::Select)
            } else {
                None
            },
            _ => None,
        }
    }
}

/// What a command typed after `:` asks for.
#[derive(Debug, Clone, Copy, PartialEq, Eq, Structural)]
pub enum Command {
    /// Add an entry.
    New,
    /// Ask for the password; `redo` to ask again though the store is
    /// already unlocked.
    Unlock { redo: bool },
    /// Leave, unless there are unsaved changes.
    Quit,
    /// Leave, whatever is unsaved.
    ForceQuit,
    /// Write the store.
    Write,
    /// Write the store, and leave if that went well.
    WriteQuit,
    /// Delete the entry that is shown.
    Delete,
    /// Nothing that is known.
    Unknown,
}

impl Command {
    /// What the text `cmd` asks for.
    pub open spec fn spec_parse(cmd: Seq<char>) -> Command {
        if cmd == "new"@ {
            Command::New
        } else if cmd == "unlock"@ || cmd == "decrypt"@ {
            Command::Unlock { redo: false }
        } else if cmd == "unlock!"@ || cmd == "decrypt!"@ {
            Command::Unlock { redo: true }
        } else if cmd == "q"@ || cmd == "quit"@ || cmd == "q(uit)"@ {
            Command::Quit
        } else if cmd == "q!"@ || cmd == "quit!"@ || cmd == "q(uit)!"@ {
            Command::ForceQuit
        } else if cmd == "w"@ || cmd == "write"@ || cmd == "w(rite)"@ {
            Command::Write
        } else if cmd == "wq"@ {
            Command::WriteQuit
        } else if cmd == "delete"@ {
            Command::Delete
        } else {
            Command::Unknown
        }
    }

    /// Tells what the text `cmd` asks for.
    pub fn parse(cmd: &str) -> (command: Command)
        ensures
            command == Command::spec_parse(cmd@),
    {
        if crate::utils::str_equal(cmd, "new") {
            Command::New
        } else if crate::utils::str_equal(cmd, "unlock") || crate::utils::str_equal(cmd, "decrypt") {
            Command::Unlock { redo: false }
        } else if crate::utils::str_equal(cmd, "unlock!") || crate::utils::str_equal(
            cmd,
            "decrypt!",
        ) {
            Command::Unlock { redo: true }
        } else if crate::utils::str_equal(cmd, "q") || crate::utils::str_equal(cmd, "quit")
            || crate::utils::str_equal(cmd, "q(uit)") {
            Command::Quit
        } else if crate::utils::str_equal(cmd, "q!") || crate::utils::str_equal(cmd, "quit!")
            || crate::utils::str_equal(cmd, "q(uit)!") {
            Command::ForceQuit
        } else if crate::utils::str_equal(cmd, "w") || crate::utils::str_equal(cmd, "write")
            || crate::utils::str_equal(cmd, "w(rite)") {
            Command::Write
        } else if crate::utils::str_equal(cmd, "wq") {
            Command::WriteQuit
        } else if crate::utils::str_equal(cmd, "delete") {
            Command::Delete
        } else {
            Command::Unknown
        }
    }
}

/// The part of the currently-displayed entry that has the cursor over it
#[derive(Debug, Copy, Clone, PartialEq, Eq, Structural)]
pub enum EntrySelectState {
    Name,
    Tags,
    Field { idx: usize },
    Plus,
}

impl EntrySelectState {
    /// Where the cursor is after a step down in an entry of `num_fields`
    /// fields: from the name to the tags, from the tags to the first field,
    /// from a field to the next, and from the last field, or the tags where
    /// there are no fields, to the plus sign, where it stays.
    pub open spec fn spec_down(self, num_fields: usize) -> EntrySelectState {
        match self {
            EntrySelectState::Name => EntrySelectState::Tags,
            EntrySelectState::Tags => if num_fields == 0 {
                EntrySelectState::Plus
            } else {
                EntrySelectState::Field { idx: 0 }
            },
            EntrySelectState::Field { idx } => if idx + 1 >= num_fields {
                EntrySelectState::Plus
            } else {
                EntrySelectState::Field { idx: (idx + 1) as usize }
            },
            EntrySelectState::Plus => EntrySelectState::Plus,
        }
    }

    /// Moves the cursor a step down.
    pub fn down(self, num_fields: usize) -> (next: EntrySelectState)
        ensures
            next == self.spec_down(num_fields),
            self.within(num_fields) ==> next.within(num_fields),
    {
        match self {
            EntrySelectState::Name => EntrySelectState::Tags,
            EntrySelectState::Tags => if num_fields == 0 {
                EntrySelectState::Plus
            } else {
                EntrySelectState::Field { idx: 0 }
            },
            EntrySelectState::Field { idx } => if idx >= num_fields || idx + 1 >= num_fields {
                EntrySelectState::Plus
            } else {
                EntrySelectState::Field { idx: idx + 1 }
            },
            EntrySelectState::Plus => EntrySelectState::Plus,
        }
    }

    /// Where the cursor is after a step up in an entry of `num_fields`
    /// fields: the way of `spec_down` backwards, staying at the name.
    pub open spec fn spec_up(self, num_fields: usize) -> EntrySelectState {
        match self {
            EntrySelectState::Name => EntrySelectState::Name,
            EntrySelectState::Tags => EntrySelectState::Name,
            EntrySelectState::Field { idx } => if idx == 0 {
                EntrySelectState::Tags
            } else {
                EntrySelectState::Field { idx: (idx - 1) as usize }
            },
            EntrySelectState::Plus => if num_fields == 0 {
                EntrySelectState::Tags
            } else {
                EntrySelectState::Field { idx: (num_fields - 1) as usize }
            },
        }
    }

    /// Moves the cursor a step up.
    pub fn up(self, num_fields: usize) -> (next: EntrySelectState)
        ensures
            next == self.spec_up(num_fields),
            self.within(num_fields) ==> next.within(num_fields),
    {
        match self {
            EntrySelectState::Name => EntrySelectState::Name,
            EntrySelectState::Tags => EntrySelectState::Name,
            EntrySelectState::Field { idx } => if idx == 0 {
                EntrySelectState::Tags
            } else {
                EntrySelectState::Field { idx: idx - 1 }
            },
            EntrySelectState::Plus => if num_fields == 0 {
                EntrySelectState::Tags
            } else {
                EntrySelectState::Field { idx: num_fields - 1 }
            },
        }
    }

    /// Where the cursor is after the field at `field_idx` was deleted and
    /// `num_fields` are left: on the field before it, or on the first; on the
    /// tags where none is left.
    pub open spec fn spec_after_delete(field_idx: usize, num_fields: usize) -> EntrySelectState {
        if num_fields == 0 {
            EntrySelectState::Tags
        } else if field_idx == 0 {
            EntrySelectState::Field { idx: 0 }
        } else {
            EntrySelectState::Field { idx: (field_idx - 1) as usize }
        }
    }

    /// Places the cursor after a field was deleted.
    pub fn after_delete(field_idx: usize, num_fields: usize) -> (next: EntrySelectState)
        ensures
            next == EntrySelectState::spec_after_delete(field_idx, num_fields),
            field_idx <= num_fields ==> next.within(num_fields),
    {
        if num_fields == 0 {
            EntrySelectState::Tags
        } else if field_idx == 0 {
            EntrySelectState::Field { idx: 0 }
        } else {
            EntrySelectState::Field { idx: field_idx - 1 }
        }
    }

    /// Whether the cursor is on something that an entry of `num_fields`
    /// fields has.
    pub open spec fn within(self, num_fields: usize) -> bool {
        self matches EntrySelectState::Field { idx } ==> idx < num_fields
    }
}

/// The kinds of value that a new field can be given.
#[derive(Debug, Clone, Copy, PartialEq, Eq, Structural)]
pub enum NewValueKind {
    Manual,
    Totp,
}

/// What is being asked of the user while a field is set.
#[derive(Debug, Clone)]
pub enum ModifyFieldState {
    Name,
    ManualValue { protected: bool },
    TotpIssuer,
    // While getting the secret, we need to store the previously-entered 'issuer'
    TotpSecret { issuer: String },
}

/// What the text entered at the bottom of the screen is for.
pub enum CommandKind {
    Search { return_to_main: bool, previous: Option<String> },
    Command { return_to_main: bool },
    ModifyEntryMeta,
    ModifyField {
        // The builder is an Option so that it can be taken once the field is
        // complete; it is there until then.
        builder: Option<FieldBuilder>,
        state: ModifyFieldState,
        value_kind: NewValueKind,
        old_value: Option<PlaintextValue>,
        field_idx: usize,
    },
    Decrypt { return_to_main: bool, redo: bool },
}

/// Whether the text that is entered for a field is to be protected: it is
/// if the text that the field held was.
pub open spec fn spec_kept_protection(old_value: Option<PlainValueView>) -> bool {
    match old_value {
        Some(PlainValueView::Manual { protected, .. }) => protected,
        _ => false,
    }
}

/// The text to start from when the value of a field is entered: the text
/// that the field held, if it held text.
pub open spec fn spec_text_to_edit(old_value: Option<PlainValueView>) -> Seq<char> {
    match old_value {
        Some(PlainValueView::Manual { value, .. }) => value,
        _ => Seq::empty(),
    }
}

/// The text to start from when the issuer of a one-time password is
/// entered: the issuer that the field had, if it held a seed.
pub open spec fn spec_issuer_to_edit(old_value: Option<PlainValueView>) -> Seq<char> {
    match old_value {
        Some(PlainValueView::Totp { issuer, .. }) => issuer,
        _ => Seq::empty(),
    }
}

/// The text to start from when the seed of a one-time password is entered:
/// the seed that the field had, if it held one.
pub open spec fn spec_seed_to_edit(old_value: Option<PlainValueView>) -> Seq<char> {
    match old_value {
        Some(PlainValueView::Totp { secret, .. }) => secret,
        _ => Seq::empty(),
    }
}

/// Tells what is asked next once the name of a field was entered, and the
/// text to start from: for text its value, for a seed its issuer.
pub fn after_name(kind: NewValueKind, old_value: &Option<PlaintextValue>) -> (next: (
    ModifyFieldState,
    String,
))
    ensures
        match kind {
            NewValueKind::Manual => {
                &&& next.0 matches ModifyFieldState::ManualValue { protected }
                &&& next.0->protected == spec_kept_protection(old_value_view(*old_value))
                &&& next.1@ == spec_text_to_edit(old_value_view(*old_value))
            },
            NewValueKind::Totp => {
                &&& next.0 is TotpIssuer
                &&& next.1@ == spec_issuer_to_edit(old_value_view(*old_value))
            },
        },
{
    match kind {
        NewValueKind::Manual => match old_value {
            Some(PlaintextValue::Manual { value, protected }) => (
                ModifyFieldState::ManualValue { protected: *protected },
                value.clone(),
            ),
            _ => (ModifyFieldState::ManualValue { protected: false }, String::new()),
        },
        NewValueKind::Totp => match old_value {
            Some(PlaintextValue::Totp { issuer, .. }) => (
                ModifyFieldState::TotpIssuer,
                issuer.clone(),
            ),
            _ => (ModifyFieldState::TotpIssuer, String::new()),
        },
    }
}

/// The model of a value that a field had before it was edited.
pub open spec fn old_value_view(old_value: Option<PlaintextValue>) -> Option<PlainValueView> {
    match old_value {
        Some(v) => Some(v@),
        None => None,
    }
}

/// Gives the seed to start from once the issuer of a one-time password was
/// entered.
pub fn seed_to_edit(old_value: &Option<PlaintextValue>) -> (secret: String)
    ensures
        secret@ == spec_seed_to_edit(old_value_view(*old_value)),
{
    match old_value {
        Some(PlaintextValue::Totp { secret, .. }) => secret.clone(),
        _ => String::new(),
    }
}

/// Where the list of entries at the side is scrolled to, and which of its
/// rows is selected.
#[derive(Debug, Clone, Copy, PartialEq, Eq, Structural)]
pub struct Sidebar {
    /// The index, in what is listed, of the row at the top.
    pub start_entries_row: usize,
    /// The selected row, counted from the row at the top.
    pub selected_entries_row: usize,
}

impl Sidebar {
    /// The index, in what is listed, of the selected row.
    pub open spec fn spec_index(self) -> int {
        self.start_entries_row + self.selected_entries_row
    }

    /// The index of the selected row does not leave the range of indices.
    pub open spec fn wf(self) -> bool {
        self.spec_index() <= usize::MAX
    }

    /// The index, in what is listed, of the selected row.
    pub fn index(&self) -> (idx: usize)
        requires
            self.wf(),
        ensures
            idx == self.spec_index(),
    {
        self.start_entries_row + self.selected_entries_row
    }

    /// The entry that the selected row shows: the entry found at the row's
    /// index in the filtered list where there is one, and the entry of that
    /// index otherwise; none where the index is past the end.
    pub open spec fn spec_selected_entry(
        self,
        filter: Option<Seq<usize>>,
        num_entries: usize,
    ) -> Option<usize> {
        match filter {
            Some(list) => if self.spec_index() < list.len() {
                Some(list[self.spec_index()])
            } else {
                None
            },
            None => if self.spec_index() >= num_entries {
                None
            } else {
                Some(self.spec_index() as usize)
            },
        }
    }

    /// Tells which entry the selected row shows.
    pub fn selected_entry(&self, filter: &Option<Vec<usize>>, num_entries: usize) -> (entry:
        Option<usize>)
        requires
            self.wf(),
        ensures
            entry == self.spec_selected_entry(filter_view(*filter), num_entries),
    {
        let idx: usize = self.index();
        match filter {
            Some(list) => if idx < list.len() {
                Some(list[idx])
            } else {
                None
            },
            None => if idx >= num_entries {
                None
            } else {
                Some(idx)
            },
        }
    }

    /// The sidebar after a step down in a list of `num_items` rows of which
    /// `last_height` are on the screen: nothing moves on the last row;
    /// otherwise the selection moves down a row, or, at the bottom of the
    /// screen, the list scrolls by one.
    pub open spec fn spec_down(self, num_items: usize, last_height: usize) -> Sidebar {
        if num_items == 0 || self.spec_index() >= num_items - 1 {
            self
        } else if self.selected_entries_row < last_height - 1 {
            Sidebar { selected_entries_row: (self.selected_entries_row + 1) as usize, ..self }
        } else {
            Sidebar { start_entries_row: (self.start_entries_row + 1) as usize, ..self }
        }
    }

    /// Moves a step down.
    pub fn down(self, num_items: usize, last_height: usize) -> (next: Sidebar)
        requires
            self.wf(),
            last_height > 0,
        ensures
            next == self.spec_down(num_items, last_height),
            next.wf(),
            next.spec_index() == if num_items == 0 || self.spec_index() >= num_items - 1 {
                self.spec_index()
            } else {
                self.spec_index() + 1
            },
    {
        if num_items == 0 || self.index() >= num_items - 1 {
            self
        } else if self.selected_entries_row < last_height - 1 {
            Sidebar { selected_entries_row: self.selected_entries_row + 1, ..self }
        } else {
            Sidebar { start_entries_row: self.start_entries_row + 1, ..self }
        }
    }

    /// The sidebar after a step up: nothing moves on the first row; otherwise
    /// the selection moves up a row, or, at the top of the screen, the list
    /// scrolls by one.
    pub open spec fn spec_up(self) -> Sidebar {
        if self.selected_entries_row == 0 {
            if self.start_entries_row == 0 {
                self
            } else {
                Sidebar { start_entries_row: (self.start_entries_row - 1) as usize, ..self }
            }
        } else {
            Sidebar { selected_entries_row: (self.selected_entries_row - 1) as usize, ..self }
        }
    }

    /// Moves a step up.
    pub fn up(self) -> (next: Sidebar)
        ensures
            next == self.spec_up(),
            self.wf() ==> next.wf(),
            next.spec_index() == if self.spec_index() == 0 {
                0
            } else {
                self.spec_index() - 1
            },
    {
        if self.selected_entries_row == 0 {
            if self.start_entries_row == 0 {
                self
            } else {
                Sidebar { start_entries_row: self.start_entries_row - 1, ..self }
            }
        } else {
            Sidebar { selected_entries_row: self.selected_entries_row - 1, ..self }
        }
    }

    /// The sidebar after the list was scrolled up by one under the
    /// selection, which stays on its entry: nothing moves at the top of the list.
    pub open spec fn spec_scroll_up(self) -> Sidebar {
        if self.start_entries_row == 0 {
            self
        } else {
            Sidebar {
                start_entries_row: (self.start_entries_row - 1) as usize,
                selected_entries_row: (self.selected_entries_row + 1) as usize,
            }
        }
    }

    /// Scrolls the list up by one.
    pub fn scroll_up(self) -> (next: Sidebar)
        requires
            self.wf(),
        ensures
            next == self.spec_scroll_up(),
            next.wf(),
            next.spec_index() == self.spec_index(),
    {
        if self.start_entries_row == 0 {
            self
        } else {
            Sidebar {
                start_entries_row: self.start_entries_row - 1,
                selected_entries_row: self.selected_entries_row + 1,
            }
        }
    }

    /// The sidebar after the list of `num_items` rows was scrolled down by
    /// one: nothing moves once the last row is at the top; the selection
    /// stays on its entry, or on the top row where its entry leaves the screen.
    pub open spec fn spec_scroll_down(self, num_items: usize) -> Sidebar {
        if num_items == 0 || self.start_entries_row >= num_items - 1 {
            self
        } else {
            Sidebar {
                start_entries_row: (self.start_entries_row + 1) as usize,
                selected_entries_row: if self.selected_entries_row == 0 {
                    0
                } else {
                    (self.selected_entries_row - 1) as usize
                },
            }
        }
    }

    /// Scrolls the list down by one.
    pub fn scroll_down(self, num_items: usize) -> (next: Sidebar)
        requires
            self.wf(),
        ensures
            next == self.spec_scroll_down(num_items),
            next.wf(),
    {
        if num_items == 0 || self.start_entries_row >= num_items - 1 {
            self
        } else {
            Sidebar {
                start_entries_row: self.start_entries_row + 1,
                selected_entries_row: if self.selected_entries_row == 0 {
                    0
                } else {
                    self.selected_entries_row - 1
                },
            }
        }
    }

    /// The sidebar brought back into a list that has shrunk to `num_items`
    /// rows: at the top where the list is empty; otherwise the selection is
    /// on the row it was on, or on the last row if that is gone, the list
    /// scrolled up as far as that takes and the selected row moved up for the
    /// rest.
    pub open spec fn spec_clamped(self, num_items: usize) -> Sidebar {
        if num_items == 0 {
            Sidebar { start_entries_row: 0, selected_entries_row: 0 }
        } else if self.spec_index() > num_items - 1 {
            let diff = self.spec_index() - (num_items - 1);
            if self.start_entries_row >= diff {
                Sidebar { start_entries_row: (self.start_entries_row - diff) as usize, ..self }
            } else {
                Sidebar { start_entries_row: 0, selected_entries_row: (num_items - 1) as usize }
            }
        } else {
            self
        }
    }

    /// Brings the sidebar back into a list of `num_items` rows.
    pub fn clamped(self, num_items: usize) -> (next: Sidebar)
        requires
            self.wf(),
        ensures
            next == self.spec_clamped(num_items),
            next.wf(),
            num_items > 0 ==> next.spec_index() < num_items,
            num_items > 0 && self.spec_index() < num_items ==> next == self,
    {
        if num_items == 0 {
            return Sidebar { start_entries_row: 0, selected_entries_row: 0 };
        }
        let max_idx: usize = num_items - 1;
        let current_idx: usize = self.index();
        if current_idx > max_idx {
            let diff: usize = current_idx - max_idx;
            let new_start: usize = if self.start_entries_row >= diff {
                self.start_entries_row - diff
            } else {
                0
            };
            let remaining_diff: usize = diff - (self.start_entries_row - new_start);
            Sidebar {
                start_entries_row: new_start,
                selected_entries_row: self.selected_entries_row - remaining_diff,
            }
        } else {
            self
        }
    }

    /// The row at the top after the entry that was shown was deleted from
    /// the list: one row up, if there is one.
    pub fn after_delete(self) -> (next: Sidebar)
        ensures
            next.selected_entries_row == self.selected_entries_row,
            next.start_entries_row == if self.start_entries_row == 0 {
                0
            } else {
                (self.start_entries_row - 1) as usize
            },
            self.wf() ==> next.wf(),
    {
        Sidebar {
            start_entries_row: if self.start_entries_row == 0 {
                0
            } else {
                self.start_entries_row - 1
            },
            ..self
        }
    }
}

/// The model of a list of the indices of the entries that a search found.
pub open spec fn filter_view(filter: Option<Vec<usize>>) -> Option<Seq<usize>> {
    match filter {
        Some(list) => Some(list@),
        None => None,
    }
}

/// The first place at which `idx` stands in `list`; the length of the list
/// where it stands nowhere.
pub open spec fn spec_first_place(list: Seq<usize>, idx: usize) -> int
    decreases list.len(),
{
    if list.len() == 0 || list[0] == idx {
        0
    } else {
        1 + spec_first_place(list.skip(1), idx)
    }
}

/// A place before which `idx` does not stand, and which holds it or is the
/// end of the list, is the first place of `idx`.
pub proof fn lemma_first_place(list: Seq<usize>, idx: usize, place: int)
    requires
        0 <= place <= list.len(),
        forall|j: int| 0 <= j < place ==> list[j] != idx,
        place < list.len() ==> list[place] == idx,
    ensures
        spec_first_place(list, idx) == place,
    decreases place,
{
    if place > 0 {
        assert(list[0] != idx);
        let rest = list.skip(1);
        assert forall|j: int| 0 <= j < place - 1 implies rest[j] != idx by {
            assert(rest[j] == list[j + 1]);
        }
        lemma_first_place(rest, idx, place - 1);
    }
}

/// Finds the first place at which `idx` stands in `list`.
pub fn first_place(list: &Vec<usize>, idx: usize) -> (place: usize)
    ensures
        place == spec_first_place(list@, idx),
        place <= list@.len(),
{
    let mut i: usize = 0;
    while i < list.len()
        invariant
            i <= list.len(),
            forall|j: int| 0 <= j < i ==> list@[j] != idx,
        decreases list.len() - i,
    {
        if list[i] == idx {
            proof {
                lemma_first_place(list@, idx, i as int);
            }
            return i;
        }
        i += 1;
    }
    proof {
        lemma_first_place(list@, idx, i as int);
    }
    i
}

/// Takes the entry `idx` out of the list of entries that a search found: the
/// first place where it stands goes. Tells whether the entry was listed;
/// where no search is on, every entry is.
pub fn remove_from_filter(filter: &mut Option<Vec<usize>>, idx: usize) -> (removed: bool)
    ensures
        match filter_view(*old(filter)) {
            None => removed && *final(filter) == *old(filter),
            Some(list) => {
                &&& removed == (spec_first_place(list, idx) < list.len())
                &&& filter_view(*final(filter)) == Some(
                    if removed {
                        list.remove(spec_first_place(list, idx))
                    } else {
                        list
                    },
                )
            },
        },
{
    match filter {
        None => true,
        Some(list) => {
            let place: usize = first_place(list, idx);
            if place < list.len() {
                list.remove(place);
                true
            } else {
                false
            }
        },
    }
}

} // verus!
