use vstd::prelude::*;
use crate::action::{Action, ActionView, TorrentEntry, TorrentEntryView, action_views};
use crate::event::{Event, KeyCode, pressed, is_press_of};
use crate::feed::{NyaaChannel, NyaaItem, opt_item_view};
use crate::input::{InputComponent, input_actions, input_event_faults, input_step};
use crate::mode::Mode;
use crate::popup::{PopupComponent, popup_actions, popup_event_faults};
use crate::table::{TableCursor, moved_down, moved_up};
use crate::text::{decimal_text, opt_text, usize_text};
use crate::vo::Vo;

verus! {

/// What the screens read of the application state.
pub struct AppCtxt {
    pub vo: Vo,
    pub width: u16,
    pub height: u16,
    pub mode: Mode,
    pub channel: Option<NyaaChannel>,
    pub items: Vec<NyaaItem>,
    pub selected_item: Option<NyaaItem>,
    pub torrent_handles: Vec<TorrentEntry>,
}

/// The search bar, holding the text field of the query.
pub struct SearchComponent {
    pub input: InputComponent,
}

/// The table of search results.
pub struct ItemsComponent {
    pub table: TableCursor,
}

/// The description of the selected result.
pub struct SelectedItemComponent {}

/// The table of torrents of the download session.
pub struct DownloadedItemsComponent {
    pub table: TableCursor,
    pub visible: bool,
}

/// All the screens, in the order they receive events.
pub struct Components {
    pub search: SearchComponent,
    pub items: ItemsComponent,
    pub selected_item: SelectedItemComponent,
    pub downloaded_items: DownloadedItemsComponent,
    pub popup: PopupComponent,
}

/// The address of the nyaa.si RSS search for `query`.
pub open spec fn search_url(query: Seq<char>) -> Seq<char> {
    "https://nyaa.si/?page=rss&q="@ + query
}

/// The actions of the search bar itself: `Enter` in the search mode searches
/// for the query typed so far.
pub open spec fn search_actions(event: Event, mode: Mode, query: Seq<char>) -> Seq<ActionView> {
    if mode is Search && is_press_of(event, KeyCode::Enter) {
        seq![ActionView::Search(search_url(query))]
    } else {
        Seq::empty()
    }
}

/// Whether `key` moves a table selection up (`k` or `Up`).
pub open spec fn is_up_key(key: KeyCode) -> bool {
    key == KeyCode::Char('k') || key == KeyCode::Up
}

/// Whether `key` moves a table selection down (`j` or `Down`).
pub open spec fn is_down_key(key: KeyCode) -> bool {
    key == KeyCode::Char('j') || key == KeyCode::Down
}

/// Whether `key` opens the selected result (`l`, space or `Enter`).
pub open spec fn is_open_key(key: KeyCode) -> bool {
    key == KeyCode::Char('l') || key == KeyCode::Char(' ') || key == KeyCode::Enter
}

/// Whether `key` plays the selected torrent (`p`, space or `Enter`).
pub open spec fn is_play_key(key: KeyCode) -> bool {
    key == KeyCode::Char('p') || key == KeyCode::Char(' ') || key == KeyCode::Enter
}

/// The number of results of the searched channel, if there is one.
pub open spec fn channel_len(channel: Option<NyaaChannel>) -> Option<nat> {
    match channel {
        Some(c) => Some(c.items@.len()),
        None => None,
    }
}

/// The key pressed while the results are shown.
pub open spec fn items_key(event: Event, mode: Mode) -> Option<KeyCode> {
    if mode is Results {
        pressed(event)
    } else {
        None
    }
}

/// The selected row of the results after a key event.
pub open spec fn items_selection(selected: Option<usize>, results: Option<nat>, event: Event, mode: Mode) -> Option<usize> {
    match items_key(event, mode) {
        Some(key) => if is_up_key(key) {
            if results is Some { moved_up(selected) } else { None }
        } else if is_down_key(key) {
            match results {
                Some(n) => moved_down(selected, n as usize),
                None => selected,
            }
        } else {
            selected
        },
        None => selected,
    }
}

/// The actions of the results table: `Esc` leaves it, opening a row that
/// holds a result selects that result and shows it.
pub open spec fn items_actions(selected: Option<usize>, results: Option<nat>, event: Event, mode: Mode) -> Seq<ActionView> {
    match items_key(event, mode) {
        Some(key) => if key == KeyCode::Esc {
            seq![ActionView::Enter(Mode::Normal)]
        } else if is_open_key(key) && results is Some && selected is Some && selected->0 < results->0 {
            seq![ActionView::SelectItem(selected->0), ActionView::Enter(Mode::Selected)]
        } else {
            Seq::empty()
        },
        None => Seq::empty(),
    }
}

/// The selected row of the results after an action: a new channel selects
/// its first result.
pub open spec fn items_selection_after(selected: Option<usize>, action: ActionView) -> Option<usize> {
    if action is SetChannel {
        Some(1usize)
    } else {
        selected
    }
}

/// The actions of the description of the selected result: `h` returns to
/// the results, `Esc` to the normal mode, `i` to the search, and opening it
/// downloads its link.
pub open spec fn selected_actions(item: Option<NyaaItem>, event: Event, mode: Mode) -> Seq<ActionView> {
    if mode is Selected && pressed(event) is Some {
        let key = pressed(event)->0;
        if key == KeyCode::Char('h') {
            seq![ActionView::Enter(Mode::Results)]
        } else if key == KeyCode::Esc {
            seq![ActionView::Enter(Mode::Normal)]
        } else if key == KeyCode::Char('i') {
            seq![ActionView::Enter(Mode::Search)]
        } else if is_open_key(key) && item is Some && opt_text(item->0.link) is Some {
            seq![ActionView::Download(opt_text(item->0.link)->0)]
        } else {
            Seq::empty()
        }
    } else {
        Seq::empty()
    }
}

/// The key pressed while the visible downloads table is open, with the mode
/// it was opened from.
pub open spec fn downloads_key(visible: bool, event: Event, mode: Mode) -> Option<(KeyCode, Mode)> {
    match mode {
        Mode::Downloads(prev) => if visible && pressed(event) is Some {
            Some((pressed(event)->0, *prev))
        } else {
            None
        },
        _ => None,
    }
}

/// The file of a torrent that is streamed: the first of its selected files,
/// or file 0.
pub open spec fn stream_file(t: TorrentEntryView) -> usize {
    match t.only_files {
        Some(f) => if f.len() > 0 { f[0] } else { 0 },
        None => 0,
    }
}

/// The address at which the session streams a torrent.
pub open spec fn stream_url(t: TorrentEntryView) -> Seq<char> {
    "http://127.0.0.1:3030/torrents/"@ + decimal_text(t.id as nat) + "/stream/"@ + decimal_text(stream_file(t) as nat)
}

/// The torrent shown on table row `row` (row 1 is the first torrent).
pub open spec fn torrent_at_row(torrents: Seq<TorrentEntry>, row: usize) -> Option<TorrentEntryView> {
    let i = if row >= 1 { row - 1 } else { 0 };
    if i < torrents.len() {
        Some(torrents[i]@)
    } else {
        None
    }
}

/// The selected row of the downloads table after a key event.
pub open spec fn downloads_selection(selected: Option<usize>, torrents: nat, visible: bool, event: Event, mode: Mode) -> Option<usize> {
    match downloads_key(visible, event, mode) {
        Some((key, _)) => if is_up_key(key) {
            moved_up(selected)
        } else if is_down_key(key) {
            moved_down(selected, torrents as usize)
        } else {
            selected
        },
        None => selected,
    }
}

/// The actions of the downloads table: playing the selected torrent enters
/// the player and plays its stream, `Esc` returns to the mode the table was
/// opened from.
pub open spec fn downloads_actions(selected: Option<usize>, torrents: Seq<TorrentEntry>, visible: bool, event: Event, mode: Mode) -> Seq<ActionView> {
    match downloads_key(visible, event, mode) {
        Some((key, prev)) => if is_play_key(key) && selected is Some && torrent_at_row(torrents, selected->0) is Some {
            seq![ActionView::Enter(Mode::Player), ActionView::Play(stream_url(torrent_at_row(torrents, selected->0)->0))]
        } else if key == KeyCode::Esc {
            seq![ActionView::Enter(prev)]
        } else {
            Seq::empty()
        },
        None => Seq::empty(),
    }
}

/// The downloads table after an action: entering the downloads shows it with
/// its first torrent selected.
pub open spec fn downloads_after(visible: bool, selected: Option<usize>, action: ActionView) -> (bool, Option<usize>) {
    if action matches ActionView::Enter(Mode::Downloads(_)) {
        (true, Some(1usize))
    } else {
        (visible, selected)
    }
}

impl SearchComponent {
    /// An empty search bar.
    pub fn new() -> (c: SearchComponent)
        ensures
            c.input.input@ == Seq::<char>::empty(),
            c.input.idx == 0,
            !c.input.focused,
            c.input.show_cursor,
            c.input.last_cursor_tick == 0,
    {
        SearchComponent { input: InputComponent::new() }
    }

    /// `Enter` in the search mode sends the search for the typed query; then
    /// the text field handles the event.
    pub fn dispatch_event(&mut self, event: Event, mode: &Mode, now: u64) -> (actions: Vec<Action>)
        requires
            old(self).input.wf(),
            old(self).input.idx < usize::MAX,
            !input_event_faults(old(self).input.input@, old(self).input.idx as int, event, *mode),
        ensures
            action_views(actions@) == search_actions(event, *mode, old(self).input.input@) + input_actions(event, *mode),
            final(self).input.wf(),
            input_step(&old(self).input, &final(self).input, event, *mode, now),
    {
        let mut actions: Vec<Action> = Vec::new();
        if let Mode::Search = mode {
            if let Event::Key(k) = event {
                if let (KeyCode::Enter, crate::event::KeyEventKind::Press) = (k.code, k.kind) {
                    let url = String::from_str("https://nyaa.si/?page=rss&q=").concat(self.input.content().as_str());
                    actions.push(Action::Search(url));
                }
            }
        }
        let mut more = self.input.dispatch_event(event, mode, now);
        let ghost first = actions@;
        let ghost rest = more@;
        proof {
            assert(action_views(first) =~= search_actions(event, *mode, old(self).input.input@));
        }
        actions.append(&mut more);
        proof {
            assert(action_views(actions@) =~= action_views(first) + action_views(rest));
        }
        actions
    }
}

impl ItemsComponent {
    /// A results table with nothing selected.
    pub fn new() -> (c: ItemsComponent)
        ensures
            c.table.selected is None,
    {
        ItemsComponent { table: TableCursor::new() }
    }

    /// Handles a key event while the results are shown: `Esc` returns to the
    /// normal mode, `k`/`Up` and `j`/`Down` move the selection, and `l`,
    /// space or `Enter` select the result on the selected row and show it.
    pub fn dispatch_event(&mut self, event: Event, cx: &AppCtxt) -> (actions: Vec<Action>)
        ensures
            action_views(actions@) == items_actions(old(self).table.selected, channel_len(cx.channel), event, cx.mode),
            final(self).table.selected == items_selection(old(self).table.selected, channel_len(cx.channel), event, cx.mode),
    {
        let mut actions: Vec<Action> = Vec::new();
        if let Mode::Results = cx.mode {
            if let Some(code) = event.pressed_key() {
                match code {
                    KeyCode::Esc => {
                        actions.push(Action::Enter(Mode::Normal));
                    },
                    KeyCode::Char('k') | KeyCode::Up => {
                        if cx.channel.is_some() {
                            self.table.up();
                        } else {
                            self.table.select(None);
                        }
                    },
                    KeyCode::Char('j') | KeyCode::Down => {
                        if let Some(channel) = &cx.channel {
                            let max = channel.items.len();
                            self.table.down(max);
                        }
                    },
                    KeyCode::Char('l') | KeyCode::Char(' ') | KeyCode::Enter => {
                        if let Some(channel) = &cx.channel {
                            if let Some(item_idx) = self.table.selected() {
                                if item_idx < channel.items.len() {
                                    actions.push(Action::SelectItem(item_idx));
                                    actions.push(Action::Enter(Mode::Selected));
                                }
                            }
                        }
                    },
                    _ => {},
                }
            }
        }
        proof {
            assert(action_views(actions@) =~= items_actions(old(self).table.selected, channel_len(cx.channel), event, cx.mode));
        }
        actions
    }

    /// A new channel selects its first result.
    pub fn dispatch_action(&mut self, action: &Action)
        ensures
            final(self).table.selected == items_selection_after(old(self).table.selected, action@),
    {
        if let Action::SetChannel(_) = action {
            self.table.select(Some(1));
        }
    }
}

impl SelectedItemComponent {
    /// The description of the selected result.
    pub fn new() -> SelectedItemComponent {
        SelectedItemComponent {}
    }

    /// Handles a key event while the selected result is shown.
    pub fn dispatch_event(&self, event: Event, cx: &AppCtxt) -> (actions: Vec<Action>)
        ensures
            action_views(actions@) == selected_actions(cx.selected_item, event, cx.mode),
    {
        let mut actions: Vec<Action> = Vec::new();
        if let Mode::Selected = cx.mode {
            if let Some(code) = event.pressed_key() {
                match code {
                    KeyCode::Char('h') => {
                        actions.push(Action::Enter(Mode::Results));
                    },
                    KeyCode::Esc => {
                        actions.push(Action::Enter(Mode::Normal));
                    },
                    KeyCode::Char('i') => {
                        actions.push(Action::Enter(Mode::Search));
                    },
                    KeyCode::Char('l') | KeyCode::Char(' ') | KeyCode::Enter => {
                        if let Some(item) = &cx.selected_item {
                            if let Some(link) = &item.link {
                                actions.push(Action::Download(link.clone()));
                            }
                        }
                    },
                    _ => {},
                }
            }
        }
        proof {
            assert(action_views(actions@) =~= selected_actions(cx.selected_item, event, cx.mode));
        }
        actions
    }
}

/// The address at which the session streams a torrent.
pub fn stream_address(t: &TorrentEntry) -> (url: String)
    ensures
        url@ == stream_url(t@),
{
    let file = match &t.only_files {
        Some(f) => if f.len() > 0 { f[0] } else { 0 },
        None => 0,
    };
    String::from_str("http://127.0.0.1:3030/torrents/")
        .concat(usize_text(t.id).as_str())
        .concat("/stream/")
        .concat(usize_text(file).as_str())
}

impl DownloadedItemsComponent {
    /// A hidden downloads table with nothing selected.
    pub fn new() -> (c: DownloadedItemsComponent)
        ensures
            !c.visible,
            c.table.selected is None,
    {
        DownloadedItemsComponent { visible: false, table: TableCursor::new() }
    }

    /// Handles a key event while the visible downloads table is open:
    /// `k`/`Up` and `j`/`Down` move the selection, `p`, space or `Enter` play
    /// the torrent of the selected row, `Esc` hides the table and returns to
    /// the mode it was opened from.
    pub fn dispatch_event(&mut self, event: Event, cx: &AppCtxt) -> (actions: Vec<Action>)
        ensures
            action_views(actions@) == downloads_actions(old(self).table.selected, cx.torrent_handles@, old(self).visible, event, cx.mode),
            final(self).table.selected == downloads_selection(old(self).table.selected, cx.torrent_handles@.len(), old(self).visible, event, cx.mode),
            final(self).visible == (old(self).visible && !(downloads_key(old(self).visible, event, cx.mode) matches Some((k, _)) && k == KeyCode::Esc)),
    {
        let mut actions: Vec<Action> = Vec::new();
        if self.visible {
            if let Mode::Downloads(prev_mode) = &cx.mode {
                if let Some(code) = event.pressed_key() {
                    match code {
                        KeyCode::Char('k') | KeyCode::Up => {
                            self.table.up();
                        },
                        KeyCode::Char('j') | KeyCode::Down => {
                            let max = cx.torrent_handles.len();
                            self.table.down(max);
                        },
                        KeyCode::Char('p') | KeyCode::Char(' ') | KeyCode::Enter => {
                            if let Some(item_idx) = self.table.selected() {
                                let i = item_idx.saturating_sub(1);
                                if i < cx.torrent_handles.len() {
                                    let url = stream_address(&cx.torrent_handles[i]);
                                    actions.push(Action::Enter(Mode::Player));
                                    actions.push(Action::Play(url));
                                }
                            }
                        },
                        KeyCode::Esc => {
                            self.visible = false;
                            actions.push(Action::Enter(prev_mode.duplicate()));
                        },
                        _ => {},
                    }
                }
            }
        }
        proof {
            assert(action_views(actions@) =~= downloads_actions(old(self).table.selected, cx.torrent_handles@, old(self).visible, event, cx.mode));
        }
        actions
    }

    /// Entering the downloads shows the table with its first torrent selected.
    pub fn dispatch_action(&mut self, action: &Action)
        ensures
            (final(self).visible, final(self).table.selected) == downloads_after(old(self).visible, old(self).table.selected, action@),
    {
        if let Action::Enter(Mode::Downloads(_)) = action {
            self.visible = true;
            self.table.select(Some(1));
        }
    }
}

/// The actions all screens send for an event, in the order they receive it:
/// search bar, its text field, results, selected result, downloads, popup.
pub open spec fn component_actions(c: &Components, cx: &AppCtxt, event: Event) -> Seq<ActionView> {
    search_actions(event, cx.mode, c.search.input.input@)
        + input_actions(event, cx.mode)
        + items_actions(c.items.table.selected, channel_len(cx.channel), event, cx.mode)
        + selected_actions(cx.selected_item, event, cx.mode)
        + downloads_actions(c.downloaded_items.table.selected, cx.torrent_handles@, c.downloaded_items.visible, event, cx.mode)
        + popup_actions(c.popup.visible, event, cx.mode)
}

/// The events the screens cannot take: an edit the search text cannot take, or
/// moving right in a popup without buttons.
pub open spec fn component_event_faults(c: &Components, cx: &AppCtxt, event: Event) -> bool {
    input_event_faults(c.search.input.input@, c.search.input.idx as int, event, cx.mode) || popup_event_faults(&c.popup, event, cx.mode)
}

/// How the screens change on an event.
pub open spec fn components_stepped(old: &Components, new: &Components, cx: &AppCtxt, event: Event, now: u64) -> bool {
    &&& input_step(&old.search.input, &new.search.input, event, cx.mode, now)
    &&& new.items.table.selected == items_selection(old.items.table.selected, channel_len(cx.channel), event, cx.mode)
    &&& new.downloaded_items.table.selected == downloads_selection(old.downloaded_items.table.selected, cx.torrent_handles@.len(),
        old.downloaded_items.visible, event, cx.mode)
    &&& new.downloaded_items.visible == (old.downloaded_items.visible && !(downloads_key(old.downloaded_items.visible, event, cx.mode) matches Some((k, _)) && k == KeyCode::Esc))
    &&& new.popup.selected == (match crate::popup::popup_key(old.popup.visible, event, cx.mode) {
        Some((key, _)) => crate::popup::popup_selected(old.popup.selected, old.popup.buttons@.len(), key),
        None => old.popup.selected,
    })
    &&& new.popup.visible == (old.popup.visible && !(crate::popup::popup_key(old.popup.visible, event, cx.mode) matches Some((k, _)) && k == KeyCode::Esc))
    &&& new.popup.title == old.popup.title
    &&& new.popup.description == old.popup.description
    &&& new.popup.buttons == old.popup.buttons
}

/// The screens after an action, as far as actions change them.
pub open spec fn components_after_action(old: &Components, new: &Components, action: ActionView) -> bool {
    &&& new.items.table.selected == items_selection_after(old.items.table.selected, action)
    &&& (new.downloaded_items.visible, new.downloaded_items.table.selected) == downloads_after(old.downloaded_items.visible,
        old.downloaded_items.table.selected, action)
    &&& new.search == old.search
    &&& new.popup == old.popup
}

impl Components {
    /// All screens in their initial state; the popup is hidden, titled
    /// "Popup", with no description and no buttons.
    pub fn new() -> (c: Components)
        ensures
            c.search.input.input@ == Seq::<char>::empty(),
            c.search.input.idx == 0,
            !c.search.input.focused,
            c.search.input.show_cursor,
            c.search.input.last_cursor_tick == 0,
            c.items.table.selected is None,
            !c.downloaded_items.visible,
            c.downloaded_items.table.selected is None,
            c.popup.title@ == "Popup"@,
            c.popup.description@ == ""@,
            c.popup.buttons@.len() == 0,
            c.popup.selected == 0,
            !c.popup.visible,
    {
        Components {
            search: SearchComponent::new(),
            items: ItemsComponent::new(),
            selected_item: SelectedItemComponent::new(),
            downloaded_items: DownloadedItemsComponent::new(),
            popup: PopupComponent::new(String::from_str("Popup"), String::from_str(""), Vec::new()),
        }
    }

    /// Lets the screens follow the clock: the search field's cursor blinks.
    pub fn tick(&mut self, now: u64)
        ensures
            final(self).search.input.input@ == old(self).search.input.input@,
            final(self).search.input.idx == old(self).search.input.idx,
            final(self).search.input.focused == old(self).search.input.focused,
            ({
                let i = old(self).search.input;
                let due = i.focused && now >= i.last_cursor_tick && now - i.last_cursor_tick >= crate::input::BLINK_MILLIS;
                &&& final(self).search.input.show_cursor == if due { !i.show_cursor } else { i.show_cursor }
                &&& final(self).search.input.last_cursor_tick == if due { now } else { i.last_cursor_tick }
            }),
            final(self).items == old(self).items,
            final(self).downloaded_items == old(self).downloaded_items,
            final(self).popup == old(self).popup,
    {
        self.search.input.tick(now);
    }

    /// Hands an event to every screen in turn and collects what they send.
    pub fn dispatch_event(&mut self, event: Event, cx: &AppCtxt, now: u64) -> (actions: Vec<Action>)
        requires
            old(self).search.input.wf(),
            old(self).search.input.idx < usize::MAX,
            !component_event_faults(old(self), cx, event),
        ensures
            action_views(actions@) == component_actions(old(self), cx, event),
            components_stepped(old(self), final(self), cx, event, now),
            final(self).search.input.wf(),
    {
        let mut actions = self.search.dispatch_event(event, &cx.mode, now);
        let ghost a0 = actions@;
        let mut more = self.items.dispatch_event(event, cx);
        let ghost a1 = more@;
        actions.append(&mut more);
        let mut more = self.selected_item.dispatch_event(event, cx);
        let ghost a2 = more@;
        actions.append(&mut more);
        let mut more = self.downloaded_items.dispatch_event(event, cx);
        let ghost a3 = more@;
        actions.append(&mut more);
        let mut more = self.popup.dispatch_event(event, &cx.mode);
        let ghost a4 = more@;
        actions.append(&mut more);
        proof {
            assert(actions@ == a0 + a1 + a2 + a3 + a4);
            assert(action_views(actions@) =~= action_views(a0) + action_views(a1) + action_views(a2) + action_views(a3) + action_views(a4));
        }
        actions
    }

    /// Hands an action to the screens that follow actions.
    pub fn dispatch_action(&mut self, action: &Action)
        ensures
            components_after_action(old(self), final(self), action@),
    {
        self.items.dispatch_action(action);
        self.downloaded_items.dispatch_action(action);
    }
}

/// Handing the same action to the screens a second time changes nothing
/// more: the application does so after each action, to no effect.
pub proof fn lemma_dispatch_action_idempotent(selected: Option<usize>, visible: bool, dl_selected: Option<usize>, action: ActionView)
    ensures
        items_selection_after(items_selection_after(selected, action), action) == items_selection_after(selected, action),
        downloads_after(downloads_after(visible, dl_selected, action).0, downloads_after(visible, dl_selected, action).1, action)
            == downloads_after(visible, dl_selected, action),
{
}

/// The centre title of the search bar: the application's name with the
/// current video output, `Qara[<output>]`.
pub fn header_title(vo: Vo) -> (s: String)
    ensures
        s@ == "Qara["@ + crate::vo::vo_name(vo) + "]"@,
{
    String::from_str("Qara[").concat(vo.name().as_str()).concat("]")
}

impl Components {
    /// Whether the screens cannot take `event` (see `component_event_faults`).
    pub fn event_faults(&self, cx: &AppCtxt, event: Event) -> (b: bool)
        ensures
            b == component_event_faults(self, cx, event),
    {
        let key = event.pressed_key();
        let search_faults = match (&cx.mode, key) {
            (Mode::Search, Some(k)) => self.search.input.faults_on(k),
            _ => false,
        };
        let right_in_empty_popup = match (&cx.mode, key) {
            (Mode::Popup(_), Some(KeyCode::Char('l'))) | (Mode::Popup(_), Some(KeyCode::Right)) =>
                self.popup.visible && self.popup.buttons.len() == 0,
            _ => false,
        };
        search_faults || right_in_empty_popup
    }
}

/// On the results screen, `Esc` makes the results table send exactly
/// `Enter(Normal)` and leaves its selection as it was, whatever is selected
/// and whether or not there are results.
pub proof fn lemma_results_escape_returns_to_normal(selected: Option<usize>, results: Option<nat>)
    ensures
        items_actions(selected, results, crate::event::key_press(KeyCode::Esc), Mode::Results) == seq![ActionView::Enter(Mode::Normal)],
        items_selection(selected, results, crate::event::key_press(KeyCode::Esc), Mode::Results) == selected,
{
}

/// On the results screen, opening row `r` (with `l`, space or `Enter`)
/// selects result `r` and shows it when the channel has a result `r`, and
/// sends nothing otherwise.
pub proof fn lemma_results_open_selects_row(r: usize, n: nat, key: KeyCode)
    requires
        key == KeyCode::Char('l') || key == KeyCode::Char(' ') || key == KeyCode::Enter,
    ensures
        r < n ==> items_actions(Some(r), Some(n), crate::event::key_press(key), Mode::Results)
            == seq![ActionView::SelectItem(r), ActionView::Enter(Mode::Selected)],
        r >= n ==> items_actions(Some(r), Some(n), crate::event::key_press(key), Mode::Results) == Seq::<ActionView>::empty(),
        items_actions(None, Some(n), crate::event::key_press(key), Mode::Results) == Seq::<ActionView>::empty(),
        items_actions(Some(r), None, crate::event::key_press(key), Mode::Results) == Seq::<ActionView>::empty(),
{
}

/// On the description of a result: `i` makes it send exactly
/// `Enter(Search)`, `h` exactly `Enter(Results)`, `Esc` exactly
/// `Enter(Normal)`, and opening it downloads the result's link when it has one.
pub proof fn lemma_selected_item_keys(item: Option<NyaaItem>)
    ensures
        selected_actions(item, crate::event::key_press(KeyCode::Char('i')), Mode::Selected) == seq![ActionView::Enter(Mode::Search)],
        selected_actions(item, crate::event::key_press(KeyCode::Char('h')), Mode::Selected) == seq![ActionView::Enter(Mode::Results)],
        selected_actions(item, crate::event::key_press(KeyCode::Esc), Mode::Selected) == seq![ActionView::Enter(Mode::Normal)],
        item is Some && item->0.link is Some ==> selected_actions(item, crate::event::key_press(KeyCode::Enter), Mode::Selected)
            == seq![ActionView::Download(item->0.link->0@)],
        (item is None || item->0.link is None) ==> selected_actions(item, crate::event::key_press(KeyCode::Enter), Mode::Selected)
            == Seq::<ActionView>::empty(),
{
    if let Some(it) = item {
        if let Some(l) = it.link {
            assert(opt_text(it.link) == Some(l@));
        }
    }
}

/// In the visible downloads table opened from any mode, playing the selected
/// row `r` (with `p`, space or `Enter`), for `1 <= r <= ` the number of
/// torrents, enters the player and plays the stream of torrent `r - 1` (row 0
/// is the header): `http://127.0.0.1:3030/torrents/<id>/stream/<file>`, the
/// file being the first of its selected files, or 0.
pub proof fn lemma_downloads_play_selected_row(torrents: Seq<TorrentEntry>, r: usize, key: KeyCode, opened_from: Mode)
    requires
        1 <= r <= torrents.len(),
        key == KeyCode::Char('p') || key == KeyCode::Char(' ') || key == KeyCode::Enter,
    ensures
        ({
            let t = torrents[r - 1];
            let file: usize = match t.only_files {
                Some(f) => if f@.len() > 0 { f@[0] } else { 0 },
                None => 0,
            };
            downloads_actions(Some(r), torrents, true, crate::event::key_press(key), Mode::Downloads(Box::new(opened_from)))
                == seq![
                    ActionView::Enter(Mode::Player),
                    ActionView::Play("http://127.0.0.1:3030/torrents/"@ + decimal_text(t.id as nat) + "/stream/"@ + decimal_text(file as nat)),
                ]
        }),
{
}

} // verus!
