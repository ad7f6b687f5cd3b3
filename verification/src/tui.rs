//! The decisions of the interactive terminal screens: the main menu, the check lists
//! (item selector and whitelist manager), and how whitelist entries are built.
use vstd::prelude::*;

use crate::config::DynamicCacheItem;
use crate::text::{
    concat, decimal, push_decimal, push_str, starts_with, str_eq, trim_end_matches,
    trim_end_matches_seq,
};

verus! {

/// What the user picked in the main menu.
#[derive(Clone, Copy, Debug, PartialEq, Eq, Structural)]
pub enum MainMenuAction {
    Clean,
    Uninstall,
    Optimize,
    Analyze,
    Status,
    Purge,
    Installer,
    TouchID,
    History,
    Quit,
}

/// The main menu's entries, top to bottom.
pub open spec fn menu_actions_spec() -> Seq<MainMenuAction> {
    seq![
        MainMenuAction::Clean,
        MainMenuAction::Uninstall,
        MainMenuAction::Optimize,
        MainMenuAction::Analyze,
        MainMenuAction::Status,
        MainMenuAction::Purge,
        MainMenuAction::Installer,
        MainMenuAction::TouchID,
        MainMenuAction::History,
        MainMenuAction::Quit,
    ]
}

/// The main menu's entries, top to bottom.
pub fn menu_actions() -> (out: Vec<MainMenuAction>)
    ensures
        out@ == menu_actions_spec(),
{
    let out = vec![
        MainMenuAction::Clean,
        MainMenuAction::Uninstall,
        MainMenuAction::Optimize,
        MainMenuAction::Analyze,
        MainMenuAction::Status,
        MainMenuAction::Purge,
        MainMenuAction::Installer,
        MainMenuAction::TouchID,
        MainMenuAction::History,
        MainMenuAction::Quit,
    ];
    assert(out@ =~= menu_actions_spec());
    out
}

/// A key press, as the list screens understand it.
#[derive(Clone, Copy, Debug, PartialEq, Eq, Structural)]
pub enum ListKey {
    Up,
    Down,
    Toggle,
    ToggleAll,
    Confirm,
    Cancel,
    Other,
}

/// What a character key means on the list screens: `k` up, `j` down, space toggles,
/// `a`/`A` toggles all, `q`/`Q` cancels.
pub open spec fn list_key_for_char_spec(c: char) -> ListKey {
    if c == 'k' {
        ListKey::Up
    } else if c == 'j' {
        ListKey::Down
    } else if c == ' ' {
        ListKey::Toggle
    } else if c == 'a' || c == 'A' {
        ListKey::ToggleAll
    } else if c == 'q' || c == 'Q' {
        ListKey::Cancel
    } else {
        ListKey::Other
    }
}

/// What a character key means on the list screens.
pub fn list_key_for_char(c: char) -> (k: ListKey)
    ensures
        k == list_key_for_char_spec(c),
{
    if c == 'k' {
        ListKey::Up
    } else if c == 'j' {
        ListKey::Down
    } else if c == ' ' {
        ListKey::Toggle
    } else if c == 'a' || c == 'A' {
        ListKey::ToggleAll
    } else if c == 'q' || c == 'Q' {
        ListKey::Cancel
    } else {
        ListKey::Other
    }
}

/// The cursor after `Up` (one up, stopping at the top) or `Down` (one down, stopping at
/// the last of `len` rows); any other key leaves it.
pub open spec fn move_cursor(cursor: nat, len: nat, key: ListKey) -> nat {
    match key {
        ListKey::Up => if cursor > 0 {
            (cursor - 1) as nat
        } else {
            cursor
        },
        ListKey::Down => if cursor + 1 < len {
            cursor + 1
        } else {
            cursor
        },
        _ => cursor,
    }
}

/// The cursor of a list of `len` rows after a key press.
pub fn list_cursor_step(cursor: usize, len: usize, key: ListKey) -> (r: usize)
    requires
        cursor < len || cursor == 0,
    ensures
        r == move_cursor(cursor as nat, len as nat, key),
        r < len || r == 0,
{
    match key {
        ListKey::Up => if cursor > 0 {
            cursor - 1
        } else {
            cursor
        },
        ListKey::Down => if cursor + 1 < len {
            cursor + 1
        } else {
            cursor
        },
        _ => cursor,
    }
}

/// Where the main menu goes on a key: `Some(action)` when it closes (`Confirm` picks the
/// entry under the cursor, `Cancel` quits), `None` when it stays open.
pub open spec fn menu_choice(cursor: nat, key: ListKey) -> Option<MainMenuAction> {
    match key {
        ListKey::Confirm => Some(menu_actions_spec()[cursor as int]),
        ListKey::Cancel => Some(MainMenuAction::Quit),
        _ => None,
    }
}

/// One key press in the main menu: the new cursor, and the action when the menu closes.
pub fn main_menu_step(cursor: usize, key: ListKey) -> (r: (usize, Option<MainMenuAction>))
    requires
        cursor < 10,
    ensures
        r.0 == move_cursor(cursor as nat, 10, key),
        r.0 < 10,
        r.1 == menu_choice(cursor as nat, key),
{
    let actions = menu_actions();
    let next = match key {
        ListKey::Up => if cursor > 0 {
            cursor - 1
        } else {
            cursor
        },
        ListKey::Down => if cursor + 1 < actions.len() {
            cursor + 1
        } else {
            cursor
        },
        _ => cursor,
    };
    let choice = match key {
        ListKey::Confirm => Some(actions[cursor]),
        ListKey::Cancel => Some(MainMenuAction::Quit),
        _ => None,
    };
    (next, choice)
}

/// What a key did to a check list.
#[derive(Clone, Copy, Debug, PartialEq, Eq, Structural)]
pub enum ListOutcome {
    Continue,
    Confirmed,
    Cancelled,
}

/// The state of a check list: the cursor, and for each row whether it is selected and
/// whether it can be changed at all.
pub struct Checklist {
    pub cursor: usize,
    pub selected: Vec<bool>,
    pub disabled: Vec<bool>,
}

/// The abstract state of a check list.
pub struct ChecklistView {
    pub cursor: nat,
    pub selected: Seq<bool>,
    pub disabled: Seq<bool>,
}

impl View for Checklist {
    type V = ChecklistView;

    open spec fn view(&self) -> ChecklistView {
        ChecklistView { cursor: self.cursor as nat, selected: self.selected@, disabled: self.disabled@ }
    }
}

/// As many flags as rows, and the cursor on a row (or at zero when there is none).
pub open spec fn checklist_wf(s: ChecklistView) -> bool {
    &&& s.selected.len() == s.disabled.len()
    &&& (s.cursor < s.selected.len() || (s.selected.len() == 0 && s.cursor == 0))
}

/// Whether some row that can change is not selected.
pub open spec fn any_enabled_unselected(s: ChecklistView) -> bool {
    exists|i: int| 0 <= i < s.selected.len() && !s.selected[i] && !s.disabled[i]
}

/// The selection after `Toggle`: the row under the cursor flips, unless it is disabled.
pub open spec fn toggled(s: ChecklistView) -> Seq<bool> {
    if s.cursor < s.selected.len() && !s.disabled[s.cursor as int] {
        s.selected.update(s.cursor as int, !s.selected[s.cursor as int])
    } else {
        s.selected
    }
}

/// The selection after `ToggleAll`: every row that can change becomes selected when one
/// of them was not, and unselected otherwise.
pub open spec fn toggled_all(s: ChecklistView) -> Seq<bool> {
    let v = any_enabled_unselected(s);
    Seq::new(s.selected.len(), |i: int| if s.disabled[i] { s.selected[i] } else { v })
}

/// A check list after one key press, and what the key did.
pub open spec fn checklist_step(s: ChecklistView, key: ListKey) -> (ChecklistView, ListOutcome) {
    let len = s.selected.len();
    match key {
        ListKey::Up | ListKey::Down => (
            ChecklistView { cursor: move_cursor(s.cursor, len, key), ..s },
            ListOutcome::Continue,
        ),
        ListKey::Toggle => (ChecklistView { selected: toggled(s), ..s }, ListOutcome::Continue),
        ListKey::ToggleAll => (ChecklistView { selected: toggled_all(s), ..s }, ListOutcome::Continue),
        ListKey::Confirm => (s, ListOutcome::Confirmed),
        ListKey::Cancel => (s, ListOutcome::Cancelled),
        ListKey::Other => (s, ListOutcome::Continue),
    }
}

impl Checklist {
    /// A check list with the cursor on the first row.
    pub fn new(selected: Vec<bool>, disabled: Vec<bool>) -> (c: Checklist)
        requires
            selected.len() == disabled.len(),
        ensures
            c@ == (ChecklistView { cursor: 0, selected: selected@, disabled: disabled@ }),
            checklist_wf(c@),
    {
        Checklist { cursor: 0, selected, disabled }
    }

    /// Applies one key press.
    pub fn handle_key(&mut self, key: ListKey) -> (outcome: ListOutcome)
        requires
            checklist_wf(old(self)@),
        ensures
            (final(self)@, outcome) == checklist_step(old(self)@, key),
            checklist_wf(final(self)@),
    {
        let len = self.selected.len();
        match key {
            ListKey::Up => {
                if self.cursor > 0 {
                    self.cursor = self.cursor - 1;
                }
                ListOutcome::Continue
            },
            ListKey::Down => {
                if self.cursor + 1 < len {
                    self.cursor = self.cursor + 1;
                }
                ListOutcome::Continue
            },
            ListKey::Toggle => {
                if self.cursor < len && !self.disabled[self.cursor] {
                    let cur = self.selected[self.cursor];
                    self.selected.set(self.cursor, !cur);
                }
                ListOutcome::Continue
            },
            ListKey::ToggleAll => {
                let ghost s0 = self@;
                let mut any = false;
                let mut i: usize = 0;
                while i < len
                    invariant
                        i <= len,
                        len == self.selected.len(),
                        self@ == s0,
                        checklist_wf(s0),
                        any == exists|j: int| 0 <= j < i && !s0.selected[j] && !s0.disabled[j],
                    decreases len - i,
                {
                    if !self.selected[i] && !self.disabled[i] {
                        any = true;
                    }
                    i = i + 1;
                }
                assert(any == any_enabled_unselected(s0));
                let mut k: usize = 0;
                while k < len
                    invariant
                        k <= len,
                        len == self.selected.len(),
                        self.disabled@ == s0.disabled,
                        self.cursor == s0.cursor,
                        s0.selected.len() == len,
                        checklist_wf(s0),
                        any == any_enabled_unselected(s0),
                        forall|j: int|
                            0 <= j < len ==> #[trigger] self.selected@[j] == if j < k {
                                toggled_all(s0)[j]
                            } else {
                                s0.selected[j]
                            },
                    decreases len - k,
                {
                    if !self.disabled[k] {
                        self.selected.set(k, any);
                    }
                    k = k + 1;
                }
                assert(self.selected@ =~= toggled_all(s0));
                ListOutcome::Continue
            },
            ListKey::Confirm => ListOutcome::Confirmed,
            ListKey::Cancel => ListOutcome::Cancelled,
            ListKey::Other => ListOutcome::Continue,
        }
    }

    /// How many rows are selected.
    pub fn selected_count(&self) -> (n: usize)
        ensures
            n == self.selected@.filter(|b: bool| b).len(),
    {
        let mut n: usize = 0;
        let mut i: usize = 0;
        while i < self.selected.len()
            invariant
                i <= self.selected.len(),
                n == self.selected@.take(i as int).filter(|b: bool| b).len(),
                n <= i,
            decreases self.selected.len() - i,
        {
            proof {
                assert(self.selected@.take(i + 1) =~= self.selected@.take(i as int).push(
                    self.selected@[i as int],
                ));
                self.selected@.take(i as int).lemma_filter_push(self.selected@[i as int], |b: bool| b);
            }
            if self.selected[i] {
                n = n + 1;
            }
            i = i + 1;
        }
        assert(self.selected@.take(self.selected.len() as int) =~= self.selected@);
        n
    }
}

/// Toggling the same row twice leaves a check list as it was.
pub proof fn lemma_toggle_twice(s: ChecklistView)
    requires
        checklist_wf(s),
    ensures
        checklist_step(checklist_step(s, ListKey::Toggle).0, ListKey::Toggle).0 == s,
{
    let s1 = checklist_step(s, ListKey::Toggle).0;
    let s2 = checklist_step(s1, ListKey::Toggle).0;
    assert(s2.selected =~= s.selected);
}

/// After `ToggleAll` every row that can change has the same state and the others are
/// untouched; a second `ToggleAll` flips all rows that can change, when there are any.
pub proof fn lemma_toggle_all(s: ChecklistView)
    requires
        checklist_wf(s),
    ensures
        ({
            let s1 = checklist_step(s, ListKey::ToggleAll).0;
            let s2 = checklist_step(s1, ListKey::ToggleAll).0;
            &&& checklist_wf(s1)
            &&& forall|i: int| 0 <= i < s.selected.len() && s.disabled[i] ==> s1.selected[i] == s.selected[i]
            &&& forall|i: int, j: int|
                0 <= i < s.selected.len() && 0 <= j < s.selected.len() && !s.disabled[i] && !s.disabled[j]
                    ==> s1.selected[i] == s1.selected[j]
            &&& forall|i: int|
                0 <= i < s.selected.len() && !s.disabled[i] ==> s2.selected[i] == !s1.selected[i]
        }),
{
    let s1 = checklist_step(s, ListKey::ToggleAll).0;
    if any_enabled_unselected(s) {
        assert forall|i: int| 0 <= i < s.selected.len() && !s.disabled[i] implies s1.selected[i] by {}
        assert(!any_enabled_unselected(s1));
    } else {
        let e = exists|i: int| 0 <= i < s.selected.len() && !s.disabled[i];
        if e {
            let i = choose|i: int| 0 <= i < s.selected.len() && !s.disabled[i];
            assert(!s1.selected[i]);
            assert(any_enabled_unselected(s1));
        }
    }
}

/// A cursor stays on a row whatever keys are pressed.
pub proof fn lemma_step_keeps_wf(s: ChecklistView, key: ListKey)
    requires
        checklist_wf(s),
    ensures
        checklist_wf(checklist_step(s, key).0),
{
}

/// The first visible row when the list shows `visible` rows and keeps the cursor on
/// screen.
pub open spec fn scroll_offset_spec(cursor: nat, visible: nat) -> nat {
    if cursor >= visible {
        (cursor - visible + 1) as nat
    } else {
        0
    }
}

/// The first visible row when the list shows `visible` rows and keeps the cursor on
/// screen.
pub fn scroll_offset(cursor: usize, visible: usize) -> (r: usize)
    requires
        cursor < usize::MAX,
    ensures
        r == scroll_offset_spec(cursor as nat, visible as nat),
{
    if cursor >= visible {
        cursor - visible + 1
    } else {
        0
    }
}

/// A row offered by the item selector.
pub struct SelectableItem {
    pub id: usize,
    pub title: String,
    pub detail: String,
    pub size_formatted: String,
    pub is_selected: bool,
    pub is_disabled: bool,
}

/// The ids of the selected rows, in order.
pub open spec fn selected_ids_spec(items: Seq<SelectableItem>) -> Seq<usize> {
    items.filter(|i: SelectableItem| i.is_selected).map_values(|i: SelectableItem| i.id)
}

/// The ids of the selected rows, in order.
pub fn selected_ids(items: &Vec<SelectableItem>) -> (out: Vec<usize>)
    ensures
        out@ == selected_ids_spec(items@),
{
    let mut out: Vec<usize> = Vec::new();
    let mut i: usize = 0;
    while i < items.len()
        invariant
            i <= items.len(),
            out@ == selected_ids_spec(items@.take(i as int)),
        decreases items.len() - i,
    {
        proof {
            assert(items@.take(i + 1) =~= items@.take(i as int).push(items@[i as int]));
            items@.take(i as int).lemma_filter_push(items@[i as int], |i: SelectableItem| i.is_selected);
        }
        if items[i].is_selected {
            out.push(items[i].id);
            assert(out@ =~= selected_ids_spec(items@.take(i + 1)));
        } else {
            assert(out@ =~= selected_ids_spec(items@.take(i + 1)));
        }
        i = i + 1;
    }
    assert(items@.take(items.len() as int) =~= items@);
    out
}

/// The selector's header: `"<title> (<n> of <total> selected)"`.
pub fn selector_header(title: &str, selected: usize, total: usize) -> (out: String)
    requires
        selected <= u64::MAX,
        total <= u64::MAX,
    ensures
        out@ == title@ + " ("@ + decimal(selected as nat) + " of "@ + decimal(total as nat)
            + " selected)"@,
{
    let mut out = String::new();
    push_str(&mut out, title);
    push_str(&mut out, " (");
    push_decimal(&mut out, selected as u64);
    push_str(&mut out, " of ");
    push_decimal(&mut out, total as u64);
    push_str(&mut out, " selected)");
    out
}

/// A row of the whitelist manager.
pub struct WhitelistEntry {
    pub display_name: String,
    pub pattern: String,
    pub category: String,
    pub is_selected: bool,
    pub is_custom: bool,
}

/// What a whitelist row holds: name, pattern, category, selected, custom.
pub type EntryView = (Seq<char>, Seq<char>, Seq<char>, bool, bool);

impl View for WhitelistEntry {
    type V = EntryView;

    open spec fn view(&self) -> EntryView {
        (self.display_name@, self.pattern@, self.category@, self.is_selected, self.is_custom)
    }
}

/// A pattern without a trailing `"/*"` and then without trailing `'*'`s.
pub open spec fn pattern_stem(p: Seq<char>) -> Seq<char> {
    trim_end_matches_seq(trim_end_matches_seq(p, "/*"@), "*"@)
}

/// Whether a saved whitelist pattern `p` protects the cache with pattern `item`: the
/// two are equal, their stems are equal, or either starts with the other's stem.
pub open spec fn pattern_covers_spec(p: Seq<char>, item: Seq<char>) -> bool {
    let ps = pattern_stem(p);
    let is = pattern_stem(item);
    p == item || ps == is || ps.is_prefix_of(item) || is.is_prefix_of(p)
}

/// `pattern_stem`.
fn pattern_stem_exec(p: &str) -> (out: String)
    ensures
        out@ == pattern_stem(p@),
{
    let a = trim_end_matches(p, "/*");
    trim_end_matches(a.as_str(), "*")
}

/// Whether a saved whitelist pattern protects the cache with pattern `item`.
pub fn pattern_covers(p: &str, item: &str) -> (r: bool)
    ensures
        r == pattern_covers_spec(p@, item@),
{
    let ps = pattern_stem_exec(p);
    let is = pattern_stem_exec(item);
    str_eq(p, item) || str_eq(ps.as_str(), is.as_str()) || starts_with(item, ps.as_str())
        || starts_with(p, is.as_str())
}

/// Whether one of the saved patterns protects the cache with pattern `item`.
pub open spec fn covered_by_any(current: Seq<Seq<char>>, item: Seq<char>) -> bool {
    exists|k: int| 0 <= k < current.len() && pattern_covers_spec(#[trigger] current[k], item)
}

/// The row for a catalogue entry.
pub open spec fn catalogue_row(
    item: (Seq<char>, Seq<char>, Seq<char>),
    current: Seq<Seq<char>>,
) -> EntryView {
    (item.0, item.1, item.2, covered_by_any(current, item.1), false)
}

/// The row for a saved pattern that no catalogue entry has.
pub open spec fn custom_row(p: Seq<char>) -> EntryView {
    ("Custom: "@ + p, p, "custom"@, true, true)
}

/// Whether some row has pattern `p`.
pub open spec fn has_pattern(rows: Seq<EntryView>, p: Seq<char>) -> bool {
    exists|k: int| 0 <= k < rows.len() && (#[trigger] rows[k]).1 == p
}

/// `rows` followed by a custom row for each saved pattern, in order, that no row before
/// it has.
pub open spec fn with_custom_rows(rows: Seq<EntryView>, current: Seq<Seq<char>>) -> Seq<EntryView>
    decreases current.len(),
{
    if current.len() == 0 {
        rows
    } else {
        let r = with_custom_rows(rows, current.drop_last());
        let p = current.last();
        if has_pattern(r, p) {
            r
        } else {
            r.push(custom_row(p))
        }
    }
}

/// The selected rows first, then the others, each group in its order.
pub open spec fn selected_first(rows: Seq<EntryView>) -> Seq<EntryView> {
    rows.filter(|e: EntryView| e.3) + rows.filter(|e: EntryView| !e.3)
}

/// The whitelist manager's rows.
pub open spec fn whitelist_rows(
    catalogue: Seq<(Seq<char>, Seq<char>, Seq<char>)>,
    current: Seq<Seq<char>>,
) -> Seq<EntryView> {
    selected_first(
        with_custom_rows(
            catalogue.map_values(|i: (Seq<char>, Seq<char>, Seq<char>)| catalogue_row(i, current)),
            current,
        ),
    )
}

pub fn covered_by_any_exec(current: &Vec<String>, item: &str) -> (r: bool)
    ensures
        r == covered_by_any(current@.map_values(|s: String| s@), item@),
{
    let ghost cv = current@.map_values(|s: String| s@);
    let mut k: usize = 0;
    while k < current.len()
        invariant
            k <= current.len(),
            cv == current@.map_values(|s: String| s@),
            forall|j: int| 0 <= j < k ==> !pattern_covers_spec(#[trigger] cv[j], item@),
        decreases current.len() - k,
    {
        if pattern_covers(current[k].as_str(), item) {
            assert(pattern_covers_spec(cv[k as int], item@));
            return true;
        }
        k = k + 1;
    }
    false
}

fn has_pattern_exec(rows: &Vec<WhitelistEntry>, p: &str) -> (r: bool)
    ensures
        r == has_pattern(rows@.map_values(|e: WhitelistEntry| e@), p@),
{
    let ghost rv = rows@.map_values(|e: WhitelistEntry| e@);
    let mut k: usize = 0;
    while k < rows.len()
        invariant
            k <= rows.len(),
            rv == rows@.map_values(|e: WhitelistEntry| e@),
            forall|j: int| 0 <= j < k ==> (#[trigger] rv[j]).1 != p@,
        decreases rows.len() - k,
    {
        if str_eq(rows[k].pattern.as_str(), p) {
            assert(rv[k as int].1 == p@);
            return true;
        }
        k = k + 1;
    }
    false
}

fn copy_entry(e: &WhitelistEntry) -> (out: WhitelistEntry)
    ensures
        out@ == e@,
{
    WhitelistEntry {
        display_name: e.display_name.clone(),
        pattern: e.pattern.clone(),
        category: e.category.clone(),
        is_selected: e.is_selected,
        is_custom: e.is_custom,
    }
}

/// The whitelist manager's rows: each catalogue entry, selected when a saved pattern
/// protects it; then each saved pattern that no row has yet, as a selected custom row;
/// the selected rows moved to the top, keeping the order within each group.
pub fn build_whitelist_entries(catalogue: &Vec<DynamicCacheItem>, current: &Vec<String>) -> (out: Vec<
    WhitelistEntry,
>)
    ensures
        out@.map_values(|e: WhitelistEntry| e@) == whitelist_rows(
            catalogue@.map_values(|i: DynamicCacheItem| i@),
            current@.map_values(|s: String| s@),
        ),
{
    let ghost cat = catalogue@.map_values(|i: DynamicCacheItem| i@);
    let ghost cur = current@.map_values(|s: String| s@);
    let ghost base = cat.map_values(|i: (Seq<char>, Seq<char>, Seq<char>)| catalogue_row(i, cur));
    let mut rows: Vec<WhitelistEntry> = Vec::new();
    let mut i: usize = 0;
    while i < catalogue.len()
        invariant
            i <= catalogue.len(),
            cat == catalogue@.map_values(|i: DynamicCacheItem| i@),
            cur == current@.map_values(|s: String| s@),
            base == cat.map_values(|i: (Seq<char>, Seq<char>, Seq<char>)| catalogue_row(i, cur)),
            rows@.map_values(|e: WhitelistEntry| e@) == base.take(i as int),
        decreases catalogue.len() - i,
    {
        let item = &catalogue[i];
        let ghost before = rows@.map_values(|e: WhitelistEntry| e@);
        assert(cat[i as int] == item@);
        let sel = covered_by_any_exec(current, item.pattern.as_str());
        rows.push(
            WhitelistEntry {
                display_name: item.display_name.clone(),
                pattern: item.pattern.clone(),
                category: item.category.clone(),
                is_selected: sel,
                is_custom: false,
            },
        );
        proof {
            assert(base.take(i + 1) =~= base.take(i as int).push(base[i as int]));
            assert(rows@.map_values(|e: WhitelistEntry| e@) =~= before.push(base[i as int]));
        }
        i = i + 1;
    }
    assert(base.take(catalogue.len() as int) =~= base);
    assert(with_custom_rows(base, cur.take(0)) == base) by {
        assert(cur.take(0) =~= Seq::<Seq<char>>::empty());
    }
    let mut c: usize = 0;
    while c < current.len()
        invariant
            c <= current.len(),
            cur == current@.map_values(|s: String| s@),
            rows@.map_values(|e: WhitelistEntry| e@) == with_custom_rows(base, cur.take(c as int)),
        decreases current.len() - c,
    {
        let p = current[c].as_str();
        let ghost before = rows@.map_values(|e: WhitelistEntry| e@);
        proof {
            assert(cur.take(c + 1).drop_last() =~= cur.take(c as int));
            assert(cur.take(c + 1).last() == p@);
        }
        if !has_pattern_exec(&rows, p) {
            rows.push(
                WhitelistEntry {
                    display_name: concat("Custom: ", p),
                    pattern: p.to_string(),
                    category: "custom".to_string(),
                    is_selected: true,
                    is_custom: true,
                },
            );
            assert(rows@.map_values(|e: WhitelistEntry| e@) =~= before.push(custom_row(p@)));
        }
        c = c + 1;
    }
    assert(cur.take(current.len() as int) =~= cur);
    let ghost all = rows@.map_values(|e: WhitelistEntry| e@);
    let mut selected_rows: Vec<WhitelistEntry> = Vec::new();
    let mut other_rows: Vec<WhitelistEntry> = Vec::new();
    let mut k: usize = 0;
    while k < rows.len()
        invariant
            k <= rows.len(),
            all == rows@.map_values(|e: WhitelistEntry| e@),
            selected_rows@.map_values(|e: WhitelistEntry| e@) == all.take(k as int).filter(
                |e: EntryView| e.3,
            ),
            other_rows@.map_values(|e: WhitelistEntry| e@) == all.take(k as int).filter(
                |e: EntryView| !e.3,
            ),
        decreases rows.len() - k,
    {
        let ghost s_before = selected_rows@.map_values(|e: WhitelistEntry| e@);
        let ghost o_before = other_rows@.map_values(|e: WhitelistEntry| e@);
        let e = copy_entry(&rows[k]);
        proof {
            assert(e@ == all[k as int]);
            assert(all.take(k + 1) =~= all.take(k as int).push(e@));
            all.take(k as int).lemma_filter_push(e@, |e: EntryView| e.3);
            all.take(k as int).lemma_filter_push(e@, |e: EntryView| !e.3);
        }
        if e.is_selected {
            selected_rows.push(e);
            assert(selected_rows@.map_values(|e: WhitelistEntry| e@) =~= s_before.push(all[k as int]));
        } else {
            other_rows.push(e);
            assert(other_rows@.map_values(|e: WhitelistEntry| e@) =~= o_before.push(all[k as int]));
        }
        k = k + 1;
    }
    let ghost sv = selected_rows@.map_values(|e: WhitelistEntry| e@);
    let ghost ov = other_rows@.map_values(|e: WhitelistEntry| e@);
    selected_rows.append(&mut other_rows);
    proof {
        assert(all.take(all.len() as int) =~= all);
        assert(selected_rows@.map_values(|e: WhitelistEntry| e@) =~= sv + ov);
    }
    selected_rows
}

/// The patterns of the selected rows, in order: what the whitelist manager saves.
pub fn chosen_patterns(rows: &Vec<WhitelistEntry>, selected: &Vec<bool>) -> (out: Vec<String>)
    requires
        rows.len() == selected.len(),
    ensures
        out@.map_values(|s: String| s@) == Seq::new(rows.len() as nat, |i: int| (rows@[i].pattern@, selected@[i])).filter(
            |x: (Seq<char>, bool)| x.1,
        ).map_values(|x: (Seq<char>, bool)| x.0),
{
    let ghost pairs = Seq::new(rows.len() as nat, |i: int| (rows@[i].pattern@, selected@[i]));
    let mut out: Vec<String> = Vec::new();
    let mut i: usize = 0;
    while i < rows.len()
        invariant
            i <= rows.len(),
            rows.len() == selected.len(),
            pairs == Seq::new(rows.len() as nat, |i: int| (rows@[i].pattern@, selected@[i])),
            out@.map_values(|s: String| s@) == pairs.take(i as int).filter(|x: (Seq<char>, bool)| x.1).map_values(
                |x: (Seq<char>, bool)| x.0,
            ),
        decreases rows.len() - i,
    {
        let ghost before = out@.map_values(|s: String| s@);
        proof {
            assert(pairs.take(i + 1) =~= pairs.take(i as int).push(pairs[i as int]));
            pairs.take(i as int).lemma_filter_push(pairs[i as int], |x: (Seq<char>, bool)| x.1);
        }
        if selected[i] {
            out.push(rows[i].pattern.clone());
            assert(out@.map_values(|s: String| s@) =~= before.push(rows@[i as int].pattern@));
        }
        i = i + 1;
    }
    assert(pairs.take(rows.len() as int) =~= pairs);
    out
}

} // verus!
