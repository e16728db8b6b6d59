use vstd::prelude::*;

verus! {

// ---------------------------------------------------------------- text

/// The lower-case form of a text, as `str::to_lowercase` gives it.
pub uninterp spec fn lowercase(s: Seq<char>) -> Seq<char>;

/// Calls `str::to_lowercase`; its result, the Unicode lower-case mapping of every
/// character, is named here and not restated.
#[verifier::external_body]
fn to_lowercase(s: &str) -> (r: String)
    ensures
        r@ == lowercase(s@),
{
    s.to_lowercase()
}

/// Collects characters into a `String` (`FromIterator<char>`), which keeps them in order.
#[verifier::external_body]
fn collect_chars(chars: &[char]) -> (r: String)
    ensures
        r@ == chars@,
{
    chars.iter().collect()
}

/// Whether `needle` occurs in `hay` as a run of characters.
pub open spec fn contains_seq(hay: Seq<char>, needle: Seq<char>) -> bool {
    exists|i: int| 0 <= i && i + needle.len() <= hay.len() && #[trigger] hay.subrange(i, i + needle.len()) == needle
}

fn occurs_at(hay: &str, needle: &str, at: usize) -> (r: bool)
    requires
        at + needle@.len() <= hay@.len(),
    ensures
        r == (hay@.subrange(at as int, at + needle@.len()) == needle@),
{
    let h = hay.unicode_len();
    let n = needle.unicode_len();
    let mut k: usize = 0;
    while k < n
        invariant
            k <= n,
            n == needle@.len(),
            h == hay@.len(),
            at + n <= hay@.len(),
            forall|j: int| 0 <= j < k ==> hay@[at + j] == needle@[j],
        decreases n - k,
    {
        if hay.get_char(at + k) != needle.get_char(k) {
            assert(hay@.subrange(at as int, at + n)[k as int] != needle@[k as int]);
            return false;
        }
        k = k + 1;
    }
    assert(hay@.subrange(at as int, at + n) =~= needle@);
    true
}

/// Whether `needle` occurs in `hay`.
pub fn contains_text(hay: &str, needle: &str) -> (r: bool)
    ensures
        r == contains_seq(hay@, needle@),
{
    let h = hay.unicode_len();
    let n = needle.unicode_len();
    if n > h {
        return false;
    }
    if n == 0 {
        assert(hay@.subrange(0, 0int + needle@.len()) =~= needle@);
        return true;
    }
    let mut at: usize = 0;
    while at <= h - n
        invariant
            h == hay@.len(),
            n == needle@.len(),
            1 <= n <= h,
            at <= h - n + 1,
            forall|i: int| 0 <= i < at ==> #[trigger] hay@.subrange(i, i + n) != needle@,
        decreases h + 1 - at,
    {
        if occurs_at(hay, needle, at) {
            assert(hay@.subrange(at as int, at + needle@.len()) == needle@);
            return true;
        }
        at = at + 1;
    }
    false
}

// ---------------------------------------------------------------- items

#[derive(Clone, Copy, Debug, PartialEq, Eq, Structural)]
pub enum SelectItemRole {
    Value,
    Action,
}

#[derive(Clone, Copy, Debug, PartialEq, Eq, Structural)]
pub enum SelectFilterMode {
    Normal,
    /// The item shows whatever the filter says.
    AlwaysVisible,
}

/// One item of a select list.
#[derive(Clone, Debug, PartialEq, Eq)]
pub struct SelectItem {
    pub id: usize,
    pub label: String,
    pub role: SelectItemRole,
    pub filter_mode: SelectFilterMode,
}

pub struct ItemView {
    pub id: usize,
    pub label: Seq<char>,
    pub role: SelectItemRole,
    pub filter_mode: SelectFilterMode,
}

impl View for SelectItem {
    type V = ItemView;

    open spec fn view(&self) -> ItemView {
        ItemView { id: self.id, label: self.label@, role: self.role, filter_mode: self.filter_mode }
    }
}

pub open spec fn items_view(items: Seq<SelectItem>) -> Seq<ItemView> {
    items.map_values(|i: SelectItem| i@)
}

impl SelectItem {
    /// An ordinary value item.
    pub fn value(id: usize, label: String) -> (r: Self)
        ensures
            r@ == (ItemView { id, label: label@, role: SelectItemRole::Value, filter_mode: SelectFilterMode::Normal }),
    {
        SelectItem { id, label, role: SelectItemRole::Value, filter_mode: SelectFilterMode::Normal }
    }
}

/// What the choice of an item hands back.
#[derive(Clone, Copy, Debug, PartialEq, Eq, Structural)]
pub struct SelectCommit {
    pub id: usize,
    pub role: SelectItemRole,
}

#[derive(Clone, Copy, Debug, PartialEq, Eq, Structural)]
pub enum SelectOutcome {
    /// The key changed nothing that the caller reacts to.
    Idle,
    Opened,
    Closed,
    Committed(SelectCommit),
}

/// The keys that a select list reads.
#[derive(Clone, Copy, Debug, PartialEq, Eq, Structural)]
pub enum SelectKey {
    Enter,
    Esc,
    Up,
    Down,
    PageUp,
    PageDown,
    Backspace,
    Left,
    Right,
    Char(char),
    Other,
}

// ---------------------------------------------------------------- filtering

/// An item shows under a lower-cased filter when it always shows, or when its lower-cased
/// label holds the filter.
pub open spec fn item_shows(item: ItemView, lowered_label: Seq<char>, lowered_filter: Seq<char>) -> bool {
    item.filter_mode == SelectFilterMode::AlwaysVisible || contains_seq(lowered_label, lowered_filter)
}

/// The positions of the items that show, given the lower-cased labels and filter.
pub open spec fn shown_prefix(
    items: Seq<ItemView>,
    lowered: Seq<Seq<char>>,
    lowered_filter: Seq<char>,
    n: nat,
) -> Seq<usize>
    decreases n,
{
    if n == 0 {
        Seq::empty()
    } else {
        let rest = shown_prefix(items, lowered, lowered_filter, (n - 1) as nat);
        if item_shows(items[n - 1], lowered[n - 1], lowered_filter) {
            rest.push((n - 1) as usize)
        } else {
            rest
        }
    }
}

pub open spec fn all_positions(n: nat) -> Seq<usize> {
    Seq::new(n, |i: int| i as usize)
}

/// The positions of the items that a filter shows, in order: all of them under an empty
/// filter, else those that show under the lower-cased filter.
pub open spec fn resolve_spec(items: Seq<ItemView>, filter: Seq<char>) -> Seq<usize> {
    if filter.len() == 0 {
        all_positions(items.len())
    } else {
        shown_prefix(
            items,
            Seq::new(items.len(), |i: int| lowercase(items[i].label)),
            lowercase(filter),
            items.len(),
        )
    }
}

/// The positions of the items that show, given each label and the filter lower-cased.
pub fn shown_items(items: &Vec<SelectItem>, lowered: &Vec<String>, lowered_filter: &String) -> (r: Vec<usize>)
    requires
        lowered.len() == items.len(),
    ensures
        r@ == shown_prefix(
            items_view(items@),
            lowered@.map_values(|s: String| s@),
            lowered_filter@,
            items.len() as nat,
        ),
{
    let ghost iv = items_view(items@);
    let ghost lv = lowered@.map_values(|s: String| s@);
    let mut out: Vec<usize> = Vec::new();
    let mut i: usize = 0;
    while i < items.len()
        invariant
            i <= items.len(),
            lowered.len() == items.len(),
            iv == items_view(items@),
            lv == lowered@.map_values(|s: String| s@),
            out@ == shown_prefix(iv, lv, lowered_filter@, i as nat),
        decreases items.len() - i,
    {
        let always = matches!(items[i].filter_mode, SelectFilterMode::AlwaysVisible);
        let hit = always || contains_text(lowered[i].as_str(), lowered_filter.as_str());
        assert(hit == item_shows(iv[i as int], lv[i as int], lowered_filter@));
        if hit {
            out.push(i);
        }
        i = i + 1;
    }
    out
}

/// The items a filter shows, by position in the list.
#[derive(Clone, Debug, PartialEq, Eq)]
pub struct SelectResolvedItems {
    indices: Vec<usize>,
}

impl View for SelectResolvedItems {
    type V = Seq<usize>;

    closed spec fn view(&self) -> Seq<usize> {
        self.indices@
    }
}

impl SelectResolvedItems {
    pub fn len(&self) -> (r: usize)
        ensures
            r == self@.len(),
    {
        self.indices.len()
    }

    pub fn is_empty(&self) -> (r: bool)
        ensures
            r == (self@.len() == 0),
    {
        self.indices.len() == 0
    }

    /// The list position of the `filtered_index`-th shown item.
    pub fn item_index(&self, filtered_index: usize) -> (r: Option<usize>)
        ensures
            r == if filtered_index < self@.len() { Some(self@[filtered_index as int]) } else { None::<usize> },
    {
        if filtered_index < self.indices.len() {
            Some(self.indices[filtered_index])
        } else {
            None
        }
    }
}

// ---------------------------------------------------------------- the state

/// A select list's state: whether it is open, its filter with a cursor, the focused item
/// among those shown, and how far the shown items are scrolled.
#[derive(Clone, Debug, PartialEq, Eq)]
pub struct SelectState {
    open: bool,
    filter: Vec<char>,
    filter_cursor: usize,
    focused_filtered_index: usize,
    scroll_offset: usize,
}

pub struct SelectView {
    pub open: bool,
    pub filter: Seq<char>,
    pub cursor: usize,
    pub focus: usize,
    pub scroll: usize,
}

impl View for SelectState {
    type V = SelectView;

    closed spec fn view(&self) -> SelectView {
        SelectView {
            open: self.open,
            filter: self.filter@,
            cursor: self.filter_cursor,
            focus: self.focused_filtered_index,
            scroll: self.scroll_offset,
        }
    }
}

pub open spec fn min_usize(a: usize, b: usize) -> usize {
    if a <= b {
        a
    } else {
        b
    }
}

/// Focus and scroll kept among `count` shown items.
pub open spec fn clamp_spec(s: SelectView, count: nat) -> SelectView {
    if count == 0 {
        SelectView { focus: 0, scroll: 0, ..s }
    } else {
        SelectView {
            focus: min_usize(s.focus, (count - 1) as usize),
            scroll: min_usize(s.scroll, (count - 1) as usize),
            ..s
        }
    }
}

/// The scroll that keeps the focused item among the `max_visible` shown rows.
pub open spec fn visible_spec(s: SelectView, max_visible: usize) -> SelectView {
    let m = if max_visible >= 1 { max_visible } else { 1usize };
    if s.focus < s.scroll {
        SelectView { scroll: s.focus, ..s }
    } else if s.focus >= s.scroll.saturating_add(m) {
        SelectView { scroll: s.focus.saturating_add(1).saturating_sub(m), ..s }
    } else {
        s
    }
}

pub open spec fn count_of(items: Seq<ItemView>, s: SelectView) -> nat {
    resolve_spec(items, s.filter).len()
}

/// Moves the focus to `focus`, then keeps it among the shown items and rows.
pub open spec fn refocus_spec(s: SelectView, focus: usize, items: Seq<ItemView>, max_visible: usize) -> SelectView {
    let moved = SelectView { focus, ..s };
    visible_spec(clamp_spec(moved, count_of(items, moved)), max_visible)
}

/// After the filter changed: the first shown item is focused, unscrolled.
pub open spec fn reset_spec(s: SelectView, items: Seq<ItemView>) -> SelectView {
    let moved = SelectView { focus: 0, scroll: 0, ..s };
    clamp_spec(moved, count_of(items, moved))
}

pub open spec fn focused_item_spec(s: SelectView, items: Seq<ItemView>) -> Option<usize> {
    let shown = resolve_spec(items, s.filter);
    if (s.focus as int) < shown.len() {
        Some(shown[s.focus as int])
    } else {
        None
    }
}

pub open spec fn commit_spec(items: Seq<ItemView>, index: Option<usize>) -> Option<SelectCommit> {
    match index {
        Some(i) => if (i as int) < items.len() {
            Some(SelectCommit { id: items[i as int].id, role: items[i as int].role })
        } else {
            None
        },
        None => None,
    }
}

/// What a key does to a select list, and what it reports.
pub open spec fn handle_key_spec(
    s: SelectView,
    key: SelectKey,
    items: Seq<ItemView>,
    max_visible: usize,
) -> (SelectView, SelectOutcome) {
    if !s.open {
        if key == SelectKey::Enter {
            let opened = SelectView { open: true, ..s };
            (visible_spec(clamp_spec(opened, count_of(items, opened)), max_visible), SelectOutcome::Opened)
        } else {
            (s, SelectOutcome::Idle)
        }
    } else {
        let step = if max_visible >= 1 { max_visible } else { 1usize };
        match key {
            SelectKey::Esc => (closed_view(), SelectOutcome::Closed),
            SelectKey::Enter => match commit_spec(items, focused_item_spec(s, items)) {
                Some(c) => (s, SelectOutcome::Committed(c)),
                None => (s, SelectOutcome::Idle),
            },
            SelectKey::Up => (refocus_spec(s, s.focus.saturating_sub(1), items, max_visible), SelectOutcome::Idle),
            SelectKey::Down => (refocus_spec(s, s.focus.saturating_add(1), items, max_visible), SelectOutcome::Idle),
            SelectKey::PageUp => (refocus_spec(s, s.focus.saturating_sub(step), items, max_visible), SelectOutcome::Idle),
            SelectKey::PageDown => (refocus_spec(s, s.focus.saturating_add(step), items, max_visible), SelectOutcome::Idle),
            SelectKey::Backspace => if s.cursor == 0 || s.cursor > s.filter.len() {
                (s, SelectOutcome::Idle)
            } else {
                let removed = SelectView {
                    filter: s.filter.remove(s.cursor - 1),
                    cursor: (s.cursor - 1) as usize,
                    ..s
                };
                (reset_spec(removed, items), SelectOutcome::Idle)
            },
            SelectKey::Left => (SelectView { cursor: s.cursor.saturating_sub(1), ..s }, SelectOutcome::Idle),
            SelectKey::Right => (
                SelectView { cursor: min_usize(s.cursor.saturating_add(1), s.filter.len() as usize), ..s },
                SelectOutcome::Idle,
            ),
            SelectKey::Char(ch) => if s.cursor <= s.filter.len() && s.cursor < usize::MAX {
                let inserted = SelectView {
                    filter: s.filter.insert(s.cursor as int, ch),
                    cursor: (s.cursor + 1) as usize,
                    ..s
                };
                (reset_spec(inserted, items), SelectOutcome::Idle)
            } else {
                (s, SelectOutcome::Idle)
            },
            SelectKey::Other => (s, SelectOutcome::Idle),
        }
    }
}

/// The list after `ch` is typed at the cursor.
pub open spec fn insert_char_spec(s: SelectView, ch: char, items: Seq<ItemView>) -> SelectView {
    reset_spec(
        SelectView { filter: s.filter.insert(s.cursor as int, ch), cursor: (s.cursor + 1) as usize, ..s },
        items,
    )
}

/// The list after the character before the cursor is deleted; unchanged where there is
/// none.
pub open spec fn backspace_spec(s: SelectView, items: Seq<ItemView>) -> SelectView {
    if s.cursor == 0 || s.cursor > s.filter.len() {
        s
    } else {
        reset_spec(SelectView { filter: s.filter.remove(s.cursor - 1), cursor: (s.cursor - 1) as usize, ..s }, items)
    }
}

/// In any state of the list, typing a character and then deleting it gives back the
/// filter and the cursor it had, with the first shown item focused and nothing scrolled.
pub proof fn lemma_backspace_undoes_insert_char(s: SelectView, ch: char, items: Seq<ItemView>)
    requires
        s.cursor <= s.filter.len(),
        s.cursor < usize::MAX,
    ensures
        backspace_spec(insert_char_spec(s, ch, items), items) == reset_spec(s, items),
        backspace_spec(insert_char_spec(s, ch, items), items).filter == s.filter,
        backspace_spec(insert_char_spec(s, ch, items), items).cursor == s.cursor,
        backspace_spec(insert_char_spec(s, ch, items), items).focus == 0,
        backspace_spec(insert_char_spec(s, ch, items), items).scroll == 0,
{
    assert(s.filter.insert(s.cursor as int, ch).remove(s.cursor as int) =~= s.filter);
}

/// In an open list, typing a character and then deleting it with backspace gives back the
/// filter and the cursor it had, with the first shown item focused and nothing scrolled.
pub proof fn lemma_backspace_undoes_char(s: SelectView, ch: char, items: Seq<ItemView>, max_visible: usize)
    requires
        s.open,
        s.cursor <= s.filter.len(),
        s.cursor < usize::MAX,
    ensures
        ({
            let typed = handle_key_spec(s, SelectKey::Char(ch), items, max_visible).0;
            let deleted = handle_key_spec(typed, SelectKey::Backspace, items, max_visible).0;
            &&& deleted.filter == s.filter
            &&& deleted.cursor == s.cursor
            &&& deleted == reset_spec(s, items)
        }),
{
    let typed = handle_key_spec(s, SelectKey::Char(ch), items, max_visible).0;
    assert(typed.filter == s.filter.insert(s.cursor as int, ch));
    assert(typed.cursor == s.cursor + 1);
    assert(s.filter.insert(s.cursor as int, ch).remove(s.cursor as int) =~= s.filter);
}

/// The rows a page holds: `max_visible`, and at least one.
pub open spec fn page_rows(max_visible: usize) -> usize {
    if max_visible >= 1 { max_visible } else { 1usize }
}

proof fn lemma_shown_prefix_len(items: Seq<ItemView>, lowered: Seq<Seq<char>>, lowered_filter: Seq<char>, n: nat)
    ensures
        shown_prefix(items, lowered, lowered_filter, n).len() <= n,
    decreases n,
{
    if n > 0 {
        lemma_shown_prefix_len(items, lowered, lowered_filter, (n - 1) as nat);
    }
}

/// No more items are shown than there are.
pub proof fn lemma_count_at_most_items(items: Seq<ItemView>, s: SelectView)
    ensures
        count_of(items, s) <= items.len(),
{
    if s.filter.len() != 0 {
        lemma_shown_prefix_len(
            items,
            Seq::new(items.len(), |i: int| lowercase(items[i].label)),
            lowercase(s.filter),
            items.len(),
        );
    }
}

/// Moving in an open list keeps its filter and cursor and stays open. Up and Down move the
/// focus by one shown item, PageUp and PageDown by a whole page of rows, never past the
/// first or the last shown item (and to the first where nothing is shown); the scroll then
/// keeps the focused item among the rows shown.
pub proof fn lemma_navigation_moves_focus(s: SelectView, key: SelectKey, items: Seq<ItemView>, max_visible: usize)
    requires
        s.open,
        key == SelectKey::Up || key == SelectKey::Down || key == SelectKey::PageUp || key == SelectKey::PageDown,
        items.len() <= usize::MAX,
    ensures
        ({
            let (r, outcome) = handle_key_spec(s, key, items, max_visible);
            let count = count_of(items, s);
            let m = page_rows(max_visible);
            let target: int = match key {
                SelectKey::Up => if s.focus >= 1 { s.focus - 1 } else { 0 },
                SelectKey::Down => s.focus + 1,
                SelectKey::PageUp => if s.focus >= m { s.focus - m } else { 0 },
                _ => s.focus + m,
            };
            &&& outcome == SelectOutcome::Idle
            &&& r.open && r.filter == s.filter && r.cursor == s.cursor
            &&& count == 0 ==> r.focus == 0 && r.scroll == 0
            &&& count > 0 ==> r.focus == if target < count { target } else { count - 1 }
            &&& r.scroll <= r.focus < r.scroll + m
        }),
{
    lemma_count_at_most_items(items, s);
}

/// Typing and deleting change the filter at the cursor and then focus the first shown item
/// without scrolling; moving the cursor keeps the filter and the focus; Esc closes the
/// list and forgets the filter; Enter on an open list commits the focused shown item.
pub proof fn lemma_editing_and_commit(s: SelectView, key: SelectKey, items: Seq<ItemView>, max_visible: usize)
    requires
        s.open,
        s.filter.len() <= usize::MAX,
    ensures
        ({
            let (r, outcome) = handle_key_spec(s, key, items, max_visible);
            &&& key == SelectKey::Esc ==> r == closed_view() && outcome == SelectOutcome::Closed
            &&& (key matches SelectKey::Char(ch) && s.cursor <= s.filter.len() && s.cursor < usize::MAX) ==> r.filter
                == s.filter.insert(s.cursor as int, key->Char_0) && r.cursor == s.cursor + 1 && r.focus == 0 && r.scroll
                == 0
            &&& (key == SelectKey::Backspace && 0 < s.cursor <= s.filter.len()) ==> r.filter == s.filter.remove(
                s.cursor - 1,
            ) && r.cursor == s.cursor - 1 && r.focus == 0 && r.scroll == 0
            &&& key == SelectKey::Left ==> r == SelectView { cursor: s.cursor.saturating_sub(1), ..s }
            &&& key == SelectKey::Right ==> r.filter == s.filter && r.focus == s.focus && r.scroll == s.scroll
                && r.cursor == if s.cursor < s.filter.len() { s.cursor + 1 } else { s.filter.len() as int }
            &&& key == SelectKey::Enter ==> r == s && match commit_spec(items, focused_item_spec(s, items)) {
                Some(c) => outcome == SelectOutcome::Committed(c),
                None => outcome == SelectOutcome::Idle,
            }
        }),
{
}

/// A closed list opens on Enter, keeping its filter and cursor, with the focus kept among
/// the shown items and rows; every other key leaves a closed list as it is. In an open
/// list, a key that does nothing (another key, a backspace with nothing before the cursor,
/// a character where the cursor is past the filter) leaves it as it is.
pub proof fn lemma_keys_that_do_nothing(s: SelectView, key: SelectKey, items: Seq<ItemView>, max_visible: usize)
    requires
        items.len() <= usize::MAX,
    ensures
        ({
            let (r, outcome) = handle_key_spec(s, key, items, max_visible);
            let count = count_of(items, s);
            &&& !s.open && key == SelectKey::Enter ==> outcome == SelectOutcome::Opened && r.open && r.filter
                == s.filter && r.cursor == s.cursor && (count == 0 ==> r.focus == 0) && (count > 0 ==> r.focus
                == if s.focus < count { s.focus as int } else { count - 1 }) && r.scroll <= r.focus < r.scroll
                + page_rows(max_visible)
            &&& !s.open && key != SelectKey::Enter ==> r == s && outcome == SelectOutcome::Idle
            &&& s.open && key == SelectKey::Other ==> r == s && outcome == SelectOutcome::Idle
            &&& s.open && key == SelectKey::Backspace && s.cursor == 0 ==> r == s && outcome == SelectOutcome::Idle
            &&& s.open && (key is Char) && s.cursor > s.filter.len() ==> r == s && outcome == SelectOutcome::Idle
        }),
{
    lemma_count_at_most_items(items, SelectView { open: true, ..s });
}

pub open spec fn closed_view() -> SelectView {
    SelectView { open: false, filter: Seq::empty(), cursor: 0, focus: 0, scroll: 0 }
}

impl SelectState {
    /// A closed list without a filter.
    pub fn new() -> (r: Self)
        ensures
            r@ == closed_view(),
    {
        let r = SelectState {
            open: false,
            filter: Vec::new(),
            filter_cursor: 0,
            focused_filtered_index: 0,
            scroll_offset: 0,
        };
        assert(r@.filter =~= Seq::<char>::empty());
        r
    }

    pub fn is_open(&self) -> (r: bool)
        ensures
            r == self@.open,
    {
        self.open
    }

    pub fn filter(&self) -> (r: String)
        ensures
            r@ == self@.filter,
    {
        collect_chars(self.filter.as_slice())
    }

    /// The filter up to the cursor.
    pub fn filter_prefix(&self) -> (r: String)
        ensures
            r@ == self@.filter.subrange(0, min_usize(self@.cursor, self@.filter.len() as usize) as int),
    {
        let end = if self.filter_cursor <= self.filter.len() { self.filter_cursor } else { self.filter.len() };
        let mut head: Vec<char> = Vec::new();
        let mut i: usize = 0;
        while i < end
            invariant
                i <= end,
                end <= self.filter.len(),
                head@ == self.filter@.subrange(0, i as int),
            decreases end - i,
        {
            head.push(self.filter[i]);
            assert(head@ =~= self.filter@.subrange(0, i + 1));
            i = i + 1;
        }
        collect_chars(head.as_slice())
    }

    pub fn focused_filtered_index(&self) -> (r: usize)
        ensures
            r == self@.focus,
    {
        self.focused_filtered_index
    }

    pub fn scroll_offset(&self) -> (r: usize)
        ensures
            r == self@.scroll,
    {
        self.scroll_offset
    }

    fn filter_len(&self) -> (r: usize)
        ensures
            r == self@.filter.len(),
    {
        self.filter.len()
    }

    /// The items the current filter shows.
    pub fn resolve_items(&self, items: &Vec<SelectItem>) -> (r: SelectResolvedItems)
        ensures
            r@ == resolve_spec(items_view(items@), self@.filter),
    {
        let ghost iv = items_view(items@);
        if self.filter.len() == 0 {
            let mut all: Vec<usize> = Vec::new();
            let mut i: usize = 0;
            while i < items.len()
                invariant
                    i <= items.len(),
                    all@ == all_positions(i as nat),
                decreases items.len() - i,
            {
                all.push(i);
                assert(all@ =~= all_positions((i + 1) as nat));
                i = i + 1;
            }
            return SelectResolvedItems { indices: all };
        }
        let text = collect_chars(self.filter.as_slice());
        let lowered_filter = to_lowercase(text.as_str());
        let mut lowered: Vec<String> = Vec::new();
        let mut i: usize = 0;
        while i < items.len()
            invariant
                i <= items.len(),
                iv == items_view(items@),
                lowered@.len() == i,
                forall|j: int| 0 <= j < i ==> (#[trigger] lowered@[j])@ == lowercase(iv[j].label),
            decreases items.len() - i,
        {
            lowered.push(to_lowercase(items[i].label.as_str()));
            i = i + 1;
        }
        let shown = shown_items(items, &lowered, &lowered_filter);
        assert(lowered@.map_values(|s: String| s@) =~= Seq::new(iv.len(), |k: int| lowercase(iv[k].label)));
        SelectResolvedItems { indices: shown }
    }

    /// The list position of the focused item, if an item is focused.
    pub fn focused_item_index(&self, items: &Vec<SelectItem>) -> (r: Option<usize>)
        ensures
            r == focused_item_spec(self@, items_view(items@)),
    {
        self.resolve_items(items).item_index(self.focused_filtered_index)
    }

    /// The list position of the item with id `selected`, if there is one.
    pub fn selected_item_index(items: &Vec<SelectItem>, selected: Option<usize>) -> (r: Option<usize>)
        ensures
            match r {
                Some(i) => selected is Some && i < items.len() && items@[i as int].id == selected->0
                    && forall|j: int| 0 <= j < i ==> items@[j].id != selected->0,
                None => selected is None || forall|j: int| 0 <= j < items.len() ==> items@[j].id != selected->0,
            },
    {
        let wanted = match selected {
            Some(s) => s,
            None => {
                return None;
            },
        };
        let mut i: usize = 0;
        while i < items.len()
            invariant
                i <= items.len(),
                selected == Some(wanted),
                forall|j: int| 0 <= j < i ==> items@[j].id != wanted,
            decreases items.len() - i,
        {
            if items[i].id == wanted {
                return Some(i);
            }
            i = i + 1;
        }
        None
    }

    fn commit_item(&self, items: &Vec<SelectItem>, item_index: Option<usize>) -> (r: Option<SelectCommit>)
        ensures
            r == commit_spec(items_view(items@), item_index),
    {
        match item_index {
            Some(i) => if i < items.len() {
                Some(SelectCommit { id: items[i].id, role: items[i].role })
            } else {
                None
            },
            None => None,
        }
    }

    /// Chooses the focused item.
    pub fn commit_focused(&self, items: &Vec<SelectItem>) -> (r: Option<SelectCommit>)
        ensures
            r == commit_spec(items_view(items@), focused_item_spec(self@, items_view(items@))),
    {
        let index = self.focused_item_index(items);
        self.commit_item(items, index)
    }

    /// Chooses the `filtered_index`-th shown item.
    pub fn commit_filtered_index(&self, items: &Vec<SelectItem>, filtered_index: usize) -> (r: Option<SelectCommit>)
        ensures
            r == commit_spec(items_view(items@), {
                let shown = resolve_spec(items_view(items@), self@.filter);
                if (filtered_index as int) < shown.len() { Some(shown[filtered_index as int]) } else { None::<usize> }
            }),
    {
        let index = self.resolve_items(items).item_index(filtered_index);
        self.commit_item(items, index)
    }

    fn clamp_focus(&mut self, items: &Vec<SelectItem>)
        ensures
            final(self)@ == clamp_spec(old(self)@, count_of(items_view(items@), old(self)@)),
    {
        let filtered_count = self.resolve_items(items).len();
        if filtered_count == 0 {
            self.focused_filtered_index = 0;
            self.scroll_offset = 0;
        } else {
            if self.focused_filtered_index > filtered_count - 1 {
                self.focused_filtered_index = filtered_count - 1;
            }
            if self.scroll_offset > filtered_count - 1 {
                self.scroll_offset = filtered_count - 1;
            }
        }
    }

    fn ensure_focus_visible(&mut self, max_visible_items: usize)
        ensures
            final(self)@ == visible_spec(old(self)@, max_visible_items),
    {
        let max_visible_items = if max_visible_items >= 1 { max_visible_items } else { 1 };
        if self.focused_filtered_index < self.scroll_offset {
            self.scroll_offset = self.focused_filtered_index;
        } else if self.focused_filtered_index >= self.scroll_offset.saturating_add(max_visible_items) {
            self.scroll_offset = self.focused_filtered_index.saturating_add(1).saturating_sub(max_visible_items);
        }
    }

    fn refocus(&mut self, focus: usize, items: &Vec<SelectItem>, max_visible_items: usize)
        ensures
            final(self)@ == refocus_spec(old(self)@, focus, items_view(items@), max_visible_items),
    {
        self.focused_filtered_index = focus;
        self.clamp_focus(items);
        self.ensure_focus_visible(max_visible_items);
    }

    fn reset_filter_position(&mut self, items: &Vec<SelectItem>)
        ensures
            final(self)@ == reset_spec(old(self)@, items_view(items@)),
    {
        self.focused_filtered_index = 0;
        self.scroll_offset = 0;
        self.clamp_focus(items);
    }

    /// Opens the list with the item `selected` focused, or the first one.
    pub fn open_with_selected(&mut self, items: &Vec<SelectItem>, selected: Option<usize>, max_visible_items: usize)
        ensures
            final(self)@ == visible_spec(
                clamp_spec(
                    SelectView {
                        open: true,
                        filter: Seq::empty(),
                        cursor: 0,
                        focus: match Self::selected_position(items@, selected) {
                            Some(i) => i,
                            None => 0,
                        },
                        scroll: 0,
                    },
                    items@.len(),
                ),
                max_visible_items,
            ),
    {
        self.open = true;
        self.filter = Vec::new();
        self.filter_cursor = 0;
        self.focused_filtered_index = match Self::selected_item_index(items, selected) {
            Some(i) => i,
            None => 0,
        };
        proof {
            let found = Self::selected_position(items@, selected);
            if let Some(s) = selected {
                if exists|j: int| 0 <= j < items.len() && items@[j].id == s {
                    let j = choose|j: int| 0 <= j < items.len() && items@[j].id == s
                        && forall|k: int| 0 <= k < j ==> items@[k].id != s;
                    assert(found == Some(j as usize));
                }
            }
        }
        self.scroll_offset = 0;
        assert(self.filter@ =~= Seq::<char>::empty());
        assert(resolve_spec(items_view(items@), Seq::empty()).len() == items@.len());
        self.clamp_focus(items);
        self.ensure_focus_visible(max_visible_items);
    }

    /// The position of the first item with id `selected`.
    pub open spec fn selected_position(items: Seq<SelectItem>, selected: Option<usize>) -> Option<usize> {
        match selected {
            Some(s) => if exists|j: int| 0 <= j < items.len() && items[j].id == s
                && forall|k: int| 0 <= k < j ==> items[k].id != s {
                Some(
                    (choose|j: int| 0 <= j < items.len() && items[j].id == s
                        && forall|k: int| 0 <= k < j ==> items[k].id != s) as usize,
                )
            } else {
                None
            },
            None => None,
        }
    }

    /// Closes the list and clears the filter.
    pub fn close(&mut self)
        ensures
            final(self)@ == closed_view(),
    {
        self.open = false;
        self.filter = Vec::new();
        self.filter_cursor = 0;
        self.focused_filtered_index = 0;
        self.scroll_offset = 0;
        assert(self.filter@ =~= Seq::<char>::empty());
    }

    /// Scrolls one row up, keeping the focus among the rows shown.
    pub fn scroll_up(&mut self, items: &Vec<SelectItem>, max_visible_items: usize)
        ensures
            final(self)@ == clamp_spec(
                {
                    let scroll = old(self)@.scroll.saturating_sub(1);
                    let bottom = scroll.saturating_add(max_visible_items);
                    SelectView {
                        scroll,
                        focus: if old(self)@.focus >= bottom { bottom.saturating_sub(1) } else { old(self)@.focus },
                        ..old(self)@
                    }
                },
                count_of(items_view(items@), old(self)@),
            ),
    {
        self.scroll_offset = self.scroll_offset.saturating_sub(1);
        if self.focused_filtered_index >= self.scroll_offset.saturating_add(max_visible_items) {
            self.focused_filtered_index = self.scroll_offset.saturating_add(max_visible_items).saturating_sub(1);
        }
        self.clamp_focus(items);
    }

    /// Scrolls one row down as far as the shown items go, keeping the focus among them.
    pub fn scroll_down(&mut self, items: &Vec<SelectItem>, max_visible_items: usize)
        ensures
            final(self)@ == clamp_spec(
                {
                    let count = count_of(items_view(items@), old(self)@);
                    let max_scroll = (count as usize).saturating_sub(max_visible_items);
                    let scroll = min_usize(old(self)@.scroll.saturating_add(1), max_scroll);
                    SelectView {
                        scroll,
                        focus: if old(self)@.focus < scroll { scroll } else { old(self)@.focus },
                        ..old(self)@
                    }
                },
                count_of(items_view(items@), old(self)@),
            ),
    {
        let filtered_count = self.resolve_items(items).len();
        let max_scroll = filtered_count.saturating_sub(max_visible_items);
        let next = self.scroll_offset.saturating_add(1);
        self.scroll_offset = if next <= max_scroll { next } else { max_scroll };
        if self.focused_filtered_index < self.scroll_offset {
            self.focused_filtered_index = self.scroll_offset;
        }
        self.clamp_focus(items);
    }

    /// Types `ch` at the cursor, which moves past it; the first shown item is then focused.
    pub fn insert_char(&mut self, ch: char, items: &Vec<SelectItem>)
        requires
            old(self)@.cursor <= old(self)@.filter.len(),
            old(self)@.cursor < usize::MAX,
        ensures
            final(self)@ == insert_char_spec(old(self)@, ch, items_view(items@)),
    {
        self.filter.insert(self.filter_cursor, ch);
        self.filter_cursor = self.filter_cursor + 1;
        self.reset_filter_position(items);
    }

    /// Deletes the character before the cursor, if there is one; the first shown item is
    /// then focused.
    pub fn backspace(&mut self, items: &Vec<SelectItem>)
        ensures
            final(self)@ == backspace_spec(old(self)@, items_view(items@)),
    {
        if self.filter_cursor == 0 || self.filter_cursor > self.filter.len() {
            return;
        }
        self.filter.remove(self.filter_cursor - 1);
        self.filter_cursor = self.filter_cursor - 1;
        self.reset_filter_position(items);
    }

    /// Applies a key: Enter opens a closed list or chooses the focused item; Esc closes;
    /// the arrows and page keys move the focus; the others edit the filter.
    pub fn handle_key(&mut self, key: SelectKey, items: &Vec<SelectItem>, max_visible_items: usize) -> (r: SelectOutcome)
        ensures
            (final(self)@, r) == handle_key_spec(old(self)@, key, items_view(items@), max_visible_items),
    {
        if !self.open {
            if let SelectKey::Enter = key {
                self.open = true;
                self.clamp_focus(items);
                self.ensure_focus_visible(max_visible_items);
                return SelectOutcome::Opened;
            }
            return SelectOutcome::Idle;
        }
        let step = if max_visible_items >= 1 { max_visible_items } else { 1 };
        match key {
            SelectKey::Esc => {
                self.close();
                SelectOutcome::Closed
            },
            SelectKey::Enter => match self.commit_focused(items) {
                Some(commit) => SelectOutcome::Committed(commit),
                None => SelectOutcome::Idle,
            },
            SelectKey::Up => {
                let focus = self.focused_filtered_index.saturating_sub(1);
                self.refocus(focus, items, max_visible_items);
                SelectOutcome::Idle
            },
            SelectKey::Down => {
                let focus = self.focused_filtered_index.saturating_add(1);
                self.refocus(focus, items, max_visible_items);
                SelectOutcome::Idle
            },
            SelectKey::PageUp => {
                let focus = self.focused_filtered_index.saturating_sub(step);
                self.refocus(focus, items, max_visible_items);
                SelectOutcome::Idle
            },
            SelectKey::PageDown => {
                let focus = self.focused_filtered_index.saturating_add(step);
                self.refocus(focus, items, max_visible_items);
                SelectOutcome::Idle
            },
            SelectKey::Backspace => {
                self.backspace(items);
                SelectOutcome::Idle
            },
            SelectKey::Left => {
                self.filter_cursor = self.filter_cursor.saturating_sub(1);
                SelectOutcome::Idle
            },
            SelectKey::Right => {
                let next = self.filter_cursor.saturating_add(1);
                let len = self.filter_len();
                self.filter_cursor = if next <= len { next } else { len };
                SelectOutcome::Idle
            },
            SelectKey::Char(ch) => {
                if self.filter_cursor <= self.filter.len() && self.filter_cursor < usize::MAX {
                    self.insert_char(ch, items);
                }
                SelectOutcome::Idle
            },
            SelectKey::Other => SelectOutcome::Idle,
        }
    }
}

} // verus!
