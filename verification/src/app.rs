use vstd::prelude::*;
use crate::action::{Action, ActionView, TorrentEntry, action_views};
use crate::components::{AppCtxt, Components, component_actions, component_event_faults, components_stepped, components_after_action};
use crate::event::{Event, KeyCode, KeyEvent, KeyEventKind};
use crate::feed::{NyaaChannel, FeedError, parse_channel, rss_feed_items, item_views, copy_items, opt_item_view};
use crate::mode::Mode;
use crate::text::texts;
use crate::vo::{Vo, vo_next, vo_prev};
use crate::table::clamped_to_rows;

verus! {

/// What the application is asked to play: which output, which stream, and
/// the size of the terminal.
pub struct PlayRequest {
    pub vo: Vo,
    pub url: String,
    pub width: u16,
    pub height: u16,
}

/// The work the application does for a decision: send an action to itself,
/// fetch a feed, add a torrent to the session, stop or start the player.
pub enum Command {
    Send(Action),
    FetchFeed(String),
    AddTorrent(String),
    StopPlayer,
    StartPlayer(PlayRequest),
}

/// The plain value of a command.
pub enum CommandView {
    Send(ActionView),
    FetchFeed(Seq<char>),
    AddTorrent(Seq<char>),
    StopPlayer,
    StartPlayer(Vo, Seq<char>, u16, u16),
}

impl View for Command {
    type V = CommandView;

    open spec fn view(&self) -> CommandView {
        match self {
            Command::Send(a) => CommandView::Send(a@),
            Command::FetchFeed(u) => CommandView::FetchFeed(u@),
            Command::AddTorrent(u) => CommandView::AddTorrent(u@),
            Command::StopPlayer => CommandView::StopPlayer,
            Command::StartPlayer(p) => CommandView::StartPlayer(p.vo, p.url@, p.width, p.height),
        }
    }
}

/// The plain values of a list of commands.
pub open spec fn command_views(commands: Seq<Command>) -> Seq<CommandView> {
    commands.map_values(|c: Command| c@)
}

/// Sending each action, in order.
pub open spec fn sends(actions: Seq<ActionView>) -> Seq<CommandView> {
    actions.map_values(|a: ActionView| CommandView::Send(a))
}

/// The stream the test key `p` plays.
pub open spec fn test_stream_url() -> Seq<char> {
    "http://127.0.0.1:3030/torrents/0/stream/0"@
}

/// Stopping the player, when one runs.
pub open spec fn stop_player(running: bool) -> Seq<CommandView> {
    if running {
        seq![CommandView::StopPlayer]
    } else {
        Seq::empty()
    }
}

/// The state the application decides on.
pub struct AppState {
    pub cx: AppCtxt,
    pub components: Components,
    pub quit: bool,
    /// Whether a player was started and not stopped since.
    pub player_running: bool,
    /// Whether the download session is up.
    pub session_ready: bool,
}

/// The commands for a key event of the application itself (the screens see
/// the event too). Only presses count. In the normal mode: `q` quits, `i`
/// searches, `s` shows the results of a search, `l` the downloads, space the
/// selected result, `,` and `.` step through the video outputs and `p` plays
/// a test stream in the terminal. In the player, `q` stops it.
pub open spec fn key_commands(s: &AppState, key: KeyEvent) -> Seq<CommandView> {
    if !(key.kind is Press) {
        Seq::empty()
    } else {
        match s.cx.mode {
            Mode::Normal => match key.code {
                KeyCode::Char('q') => seq![CommandView::Send(ActionView::Quit)],
                KeyCode::Char('i') => seq![CommandView::Send(ActionView::Enter(Mode::Search))],
                KeyCode::Char('s') => if s.cx.channel is Some {
                    seq![CommandView::Send(ActionView::Enter(Mode::Results))]
                } else {
                    Seq::empty()
                },
                KeyCode::Char('l') => seq![CommandView::Send(ActionView::Enter(Mode::Downloads(Box::new(Mode::Normal))))],
                KeyCode::Char(' ') => if s.cx.selected_item is Some {
                    seq![CommandView::Send(ActionView::Enter(Mode::Selected))]
                } else {
                    Seq::empty()
                },
                KeyCode::Char(',') => seq![CommandView::Send(ActionView::PrevVo)],
                KeyCode::Char('.') => seq![CommandView::Send(ActionView::NextVo)],
                KeyCode::Char('p') => stop_player(s.player_running) + seq![
                    CommandView::Send(ActionView::Enter(Mode::Player)),
                    CommandView::StartPlayer(Vo::Ansi, test_stream_url(), s.cx.width, s.cx.height),
                ],
                _ => Seq::empty(),
            },
            Mode::Player => if key.code == KeyCode::Char('q') {
                stop_player(s.player_running) + seq![CommandView::Send(ActionView::Enter(Mode::Normal))]
            } else {
                Seq::empty()
            },
            _ => Seq::empty(),
        }
    }
}

/// Whether a key event starts the player (`p` in the normal mode).
pub open spec fn key_starts_player(s: &AppState, key: KeyEvent) -> bool {
    key.kind is Press && s.cx.mode is Normal && key.code == KeyCode::Char('p')
}

/// Whether a key event stops the player (`q` in the player).
pub open spec fn key_stops_player(s: &AppState, key: KeyEvent) -> bool {
    key.kind is Press && s.cx.mode is Player && key.code == KeyCode::Char('q')
}

/// The commands for an event of the application itself.
pub open spec fn event_commands(s: &AppState, event: Event) -> Seq<CommandView> {
    match event {
        Event::Key(k) => key_commands(s, k),
        _ => Seq::empty(),
    }
}

/// Whether the player runs after an event.
pub open spec fn player_after_event(s: &AppState, event: Event) -> bool {
    match event {
        Event::Key(k) => if key_starts_player(s, k) {
            true
        } else if key_stops_player(s, k) {
            false
        } else {
            s.player_running
        },
        _ => s.player_running,
    }
}

/// The commands for an action.
pub open spec fn action_commands(s: &AppState, action: ActionView) -> Seq<CommandView> {
    match action {
        ActionView::Search(url) => seq![CommandView::Send(ActionView::Enter(Mode::Searching)), CommandView::FetchFeed(url)],
        ActionView::Download(link) => if s.session_ready {
            seq![CommandView::AddTorrent(link)]
        } else {
            Seq::empty()
        },
        ActionView::Play(url) => stop_player(s.player_running) + seq![CommandView::StartPlayer(s.cx.vo, url, s.cx.width, s.cx.height)],
        _ => Seq::empty(),
    }
}

/// The context after an action.
pub open spec fn cx_after_action(old: &AppCtxt, new: &AppCtxt, action: ActionView) -> bool {
    &&& new.width == old.width
    &&& new.height == old.height
    &&& new.mode == (match action {
        ActionView::Enter(m) => m,
        ActionView::Popup(_, _, _) => Mode::Popup(Box::new(old.mode)),
        _ => old.mode,
    })
    &&& new.vo == (match action {
        ActionView::NextVo => vo_next(old.vo),
        ActionView::PrevVo => vo_prev(old.vo),
        _ => old.vo,
    })
    &&& (match action {
        ActionView::SetChannel(c) => new.channel matches Some(n) && n@ == c && item_views(new.items@) == c.items,
        _ => new.channel == old.channel && new.items == old.items,
    })
    &&& opt_item_view(new.selected_item) == (match action {
        ActionView::SelectItem(i) => match old.channel {
            Some(c) => if i < c.items@.len() { Some(c.items@[i as int]@) } else { opt_item_view(old.selected_item) },
            None => opt_item_view(old.selected_item),
        },
        _ => opt_item_view(old.selected_item),
    })
    &&& (action is SelectItem || new.selected_item == old.selected_item)
    &&& new.torrent_handles@.map_values(|t: TorrentEntry| t@) == (match action {
        ActionView::AppendHandle(t) => old.torrent_handles@.map_values(|t: TorrentEntry| t@).push(t),
        _ => old.torrent_handles@.map_values(|t: TorrentEntry| t@),
    })
    &&& (action is AppendHandle || new.torrent_handles == old.torrent_handles)
}

impl AppState {
    /// The state at start-up for a terminal of `width` by `height` cells:
    /// normal mode, the `mpv` output, nothing searched, selected or downloaded.
    pub fn new(width: u16, height: u16) -> (s: AppState)
        ensures
            s.cx.vo == Vo::Mpv,
            s.cx.width == width,
            s.cx.height == height,
            s.cx.mode == Mode::Normal,
            s.cx.channel is None,
            s.cx.items@.len() == 0,
            s.cx.selected_item is None,
            s.cx.torrent_handles@.len() == 0,
            !s.quit,
            !s.player_running,
            !s.session_ready,
            s.components.search.input.wf(),
            s.components.search.input.input@.len() == 0,
            !s.components.search.input.focused,
            s.components.items.table.selected is None,
            !s.components.downloaded_items.visible,
            s.components.downloaded_items.table.selected is None,
            !s.components.popup.visible,
            s.components.popup.buttons@.len() == 0,
            s.components.popup.selected == 0,
            s.components.popup.title@ == "Popup"@,
            s.components.popup.description@ == ""@,
            s.components.search.input.idx == 0,
            s.components.search.input.show_cursor,
            s.components.search.input.last_cursor_tick == 0,
    {
        AppState {
            cx: AppCtxt {
                vo: Vo::default_output(),
                width,
                height,
                mode: Mode::Normal,
                channel: None,
                items: Vec::new(),
                selected_item: None,
                torrent_handles: Vec::new(),
            },
            components: Components::new(),
            quit: false,
            player_running: false,
            session_ready: false,
        }
    }

    /// Records that the download session is up.
    pub fn session_started(&mut self)
        ensures
            final(self).session_ready,
            final(self).cx == old(self).cx,
            final(self).components == old(self).components,
            final(self).quit == old(self).quit,
            final(self).player_running == old(self).player_running,
    {
        self.session_ready = true;
    }

    /// Sets the video output chosen at start-up.
    pub fn set_vo(&mut self, vo: Vo)
        ensures
            final(self).cx.vo == vo,
            final(self).cx.mode == old(self).cx.mode,
            final(self).cx.width == old(self).cx.width,
            final(self).cx.height == old(self).cx.height,
            final(self).cx.channel == old(self).cx.channel,
            final(self).cx.items == old(self).cx.items,
            final(self).cx.selected_item == old(self).cx.selected_item,
            final(self).cx.torrent_handles == old(self).cx.torrent_handles,
            final(self).components == old(self).components,
            final(self).quit == old(self).quit,
            final(self).player_running == old(self).player_running,
            final(self).session_ready == old(self).session_ready,
    {
        self.cx.vo = vo;
    }

    /// Records that the results table was drawn with `rows` rows (header
    /// included): its selection stays on them. The table is drawn only while
    /// there is a channel.
    pub fn results_drawn(&mut self, rows: usize)
        ensures
            final(self).components.items.table.selected == if old(self).cx.channel is Some {
                clamped_to_rows(old(self).components.items.table.selected, rows)
            } else {
                old(self).components.items.table.selected
            },
            final(self).cx == old(self).cx,
            final(self).components.search == old(self).components.search,
            final(self).components.downloaded_items == old(self).components.downloaded_items,
            final(self).components.popup == old(self).components.popup,
            final(self).quit == old(self).quit,
            final(self).player_running == old(self).player_running,
            final(self).session_ready == old(self).session_ready,
    {
        if self.cx.channel.is_some() {
            self.components.items.table.clamp_to_rows(rows);
        }
    }

    /// Records that the downloads table was drawn with `rows` rows (header
    /// included): its selection stays on them. The table is drawn only while
    /// it is visible.
    pub fn downloads_drawn(&mut self, rows: usize)
        ensures
            final(self).components.downloaded_items.table.selected == if old(self).components.downloaded_items.visible {
                clamped_to_rows(old(self).components.downloaded_items.table.selected, rows)
            } else {
                old(self).components.downloaded_items.table.selected
            },
            final(self).components.downloaded_items.visible == old(self).components.downloaded_items.visible,
            final(self).cx == old(self).cx,
            final(self).components.search == old(self).components.search,
            final(self).components.items == old(self).components.items,
            final(self).components.popup == old(self).components.popup,
            final(self).quit == old(self).quit,
            final(self).player_running == old(self).player_running,
            final(self).session_ready == old(self).session_ready,
    {
        if self.components.downloaded_items.visible {
            self.components.downloaded_items.table.clamp_to_rows(rows);
        }
    }

    /// Whether the screens are drawn: not while the player has the terminal.
    pub fn should_render(&self) -> (b: bool)
        ensures
            b == !(self.cx.mode is Player),
    {
        match self.cx.mode {
            Mode::Player => false,
            _ => true,
        }
    }

    fn stop_player_if_running(&mut self, commands: &mut Vec<Command>)
        ensures
            command_views(final(commands)@) == command_views(old(commands)@) + stop_player(old(self).player_running),
            !final(self).player_running,
            final(self).cx == old(self).cx,
            final(self).components == old(self).components,
            final(self).quit == old(self).quit,
            final(self).session_ready == old(self).session_ready,
    {
        let ghost before = commands@;
        if self.player_running {
            commands.push(Command::StopPlayer);
            self.player_running = false;
        }
        proof {
            assert(command_views(commands@) =~= command_views(before) + stop_player(old(self).player_running));
        }
    }

    /// Decides on a key event: see `key_commands`.
    pub fn handle_key_event(&mut self, key: KeyEvent) -> (commands: Vec<Command>)
        ensures
            command_views(commands@) == key_commands(old(self), key),
            final(self).player_running == player_after_event(old(self), Event::Key(key)),
            final(self).cx == old(self).cx,
            final(self).components == old(self).components,
            final(self).quit == old(self).quit,
            final(self).session_ready == old(self).session_ready,
    {
        let mut commands: Vec<Command> = Vec::new();
        if let KeyEventKind::Press = key.kind {
            match self.cx.mode {
                Mode::Normal => match key.code {
                    KeyCode::Char('q') => {
                        commands.push(Command::Send(Action::Quit));
                    },
                    KeyCode::Char('i') => {
                        commands.push(Command::Send(Action::Enter(Mode::Search)));
                    },
                    KeyCode::Char('s') => {
                        if self.cx.channel.is_some() {
                            commands.push(Command::Send(Action::Enter(Mode::Results)));
                        }
                    },
                    KeyCode::Char('l') => {
                        commands.push(Command::Send(Action::Enter(Mode::Downloads(Box::new(self.cx.mode.duplicate())))));
                    },
                    KeyCode::Char(' ') => {
                        if self.cx.selected_item.is_some() {
                            commands.push(Command::Send(Action::Enter(Mode::Selected)));
                        }
                    },
                    KeyCode::Char(',') => {
                        commands.push(Command::Send(Action::PrevVo));
                    },
                    KeyCode::Char('.') => {
                        commands.push(Command::Send(Action::NextVo));
                    },
                    KeyCode::Char('p') => {
                        self.stop_player_if_running(&mut commands);
                        self.player_running = true;
                        let url = String::from_str("http://127.0.0.1:3030/torrents/0/stream/0");
                        commands.push(Command::Send(Action::Enter(Mode::Player)));
                        commands.push(Command::StartPlayer(PlayRequest { vo: Vo::Ansi, url, width: self.cx.width, height: self.cx.height }));
                    },
                    _ => {},
                },
                Mode::Player => {
                    if let KeyCode::Char('q') = key.code {
                        self.stop_player_if_running(&mut commands);
                        commands.push(Command::Send(Action::Enter(Mode::Normal)));
                    }
                },
                _ => {},
            }
        }
        proof {
            assert(command_views(commands@) =~= key_commands(old(self), key));
        }
        commands
    }

    /// Decides on a terminal event: key events go to `handle_key_event`.
    pub fn handle_event(&mut self, event: Event) -> (commands: Vec<Command>)
        ensures
            command_views(commands@) == event_commands(old(self), event),
            final(self).player_running == player_after_event(old(self), event),
            final(self).cx == old(self).cx,
            final(self).components == old(self).components,
            final(self).quit == old(self).quit,
            final(self).session_ready == old(self).session_ready,
    {
        match event {
            Event::Key(key) => self.handle_key_event(key),
            Event::Mouse => Vec::new(),
            Event::Other => Vec::new(),
        }
    }

    /// Applies an action: changes the mode, the output, the channel, the
    /// selected result or the torrents as it says, shows a popup over the
    /// current mode, and returns the work it asks for (see `action_commands`).
    /// The screens that follow actions see it too.
    pub fn execute_action(&mut self, action: Action) -> (commands: Vec<Command>)
        ensures
            command_views(commands@) == action_commands(old(self), action@),
            cx_after_action(&old(self).cx, &final(self).cx, action@),
            app_components_after_action(&old(self).components, &final(self).components, action@),
            final(self).quit == (old(self).quit || action@ is Quit),
            final(self).player_running == (old(self).player_running || action@ is Play),
            final(self).session_ready == old(self).session_ready,
    {
        let ghost a = action@;
        self.components.dispatch_action(&action);
        let mut commands: Vec<Command> = Vec::new();
        match action {
            Action::Quit => {
                self.quit = true;
            },
            Action::Enter(mode) => {
                self.cx.mode = mode;
            },
            Action::Search(url) => {
                commands.push(Command::Send(Action::Enter(Mode::Searching)));
                commands.push(Command::FetchFeed(url));
            },
            Action::SetChannel(channel) => {
                self.cx.items = copy_items(&channel.items);
                self.cx.channel = Some(channel);
            },
            Action::SelectItem(idx) => {
                let mut chosen: Option<crate::feed::NyaaItem> = None;
                if let Some(channel) = &self.cx.channel {
                    if idx < channel.items.len() {
                        chosen = Some(channel.items[idx].duplicate());
                    }
                }
                if let Some(item) = chosen {
                    self.cx.selected_item = Some(item);
                }
            },
            Action::Download(link) => {
                if self.session_ready {
                    commands.push(Command::AddTorrent(link));
                }
            },
            Action::AppendHandle(handle) => {
                self.cx.torrent_handles.push(handle);
                proof {
                    crate::text::lemma_map_push(old(self).cx.torrent_handles@, handle, |t: TorrentEntry| t@);
                }
            },
            Action::DeleteHandle(_, _) => {},
            Action::Popup(title, description, buttons) => {
                self.cx.mode = Mode::Popup(Box::new(self.cx.mode.duplicate()));
                self.components.popup.update(&title, &description, &buttons);
            },
            Action::Play(url) => {
                self.stop_player_if_running(&mut commands);
                self.player_running = true;
                commands.push(Command::StartPlayer(PlayRequest { vo: self.cx.vo, url, width: self.cx.width, height: self.cx.height }));
            },
            Action::NextVo => {
                self.cx.vo = self.cx.vo.next();
            },
            Action::PrevVo => {
                self.cx.vo = self.cx.vo.prev();
            },
        }
        proof {
            assert(command_views(commands@) =~= action_commands(old(self), a));
        }
        commands
    }
}

/// The screens after an action of the application: the results and
/// downloads tables follow it, a popup action shows the popup with its
/// texts, and nothing else changes.
pub open spec fn app_components_after_action(old: &Components, new: &Components, action: ActionView) -> bool {
    &&& new.items.table.selected == crate::components::items_selection_after(old.items.table.selected, action)
    &&& (new.downloaded_items.visible, new.downloaded_items.table.selected) == crate::components::downloads_after(
        old.downloaded_items.visible, old.downloaded_items.table.selected, action)
    &&& new.search == old.search
    &&& (match action {
        ActionView::Popup(t, d, b) => {
            &&& new.popup.title@ == t
            &&& new.popup.description@ == d
            &&& texts(new.popup.buttons@) == b
            &&& new.popup.selected == old.popup.selected
            &&& new.popup.visible
        },
        _ => new.popup == old.popup,
    })
}

impl AppState {
    /// Applies an action taken from the queue, then hands it to the screens
    /// once more, as the event loop does; the second hand-over changes nothing.
    pub fn on_action(&mut self, action: Action) -> (commands: Vec<Command>)
        ensures
            command_views(commands@) == action_commands(old(self), action@),
            cx_after_action(&old(self).cx, &final(self).cx, action@),
            app_components_after_action(&old(self).components, &final(self).components, action@),
            final(self).quit == (old(self).quit || action@ is Quit),
            final(self).player_running == (old(self).player_running || action@ is Play),
            final(self).session_ready == old(self).session_ready,
    {
        let again = action.duplicate();
        let commands = self.execute_action(action);
        self.components.dispatch_action(&again);
        proof {
            crate::components::lemma_dispatch_action_idempotent(
                old(self).components.items.table.selected,
                old(self).components.downloaded_items.visible,
                old(self).components.downloaded_items.table.selected,
                again@,
            );
        }
        commands
    }

    /// Decides on a terminal event: first the application itself, then every
    /// screen, whose actions are sent in order.
    pub fn on_event(&mut self, event: Event, now: u64) -> (commands: Vec<Command>)
        requires
            old(self).components.search.input.wf(),
            old(self).components.search.input.idx < usize::MAX,
            !component_event_faults(&old(self).components, &old(self).cx, event),
        ensures
            command_views(commands@) == event_commands(old(self), event) + sends(component_actions(&old(self).components, &old(self).cx, event)),
            final(self).player_running == player_after_event(old(self), event),
            components_stepped(&old(self).components, &final(self).components, &old(self).cx, event, now),
            final(self).components.search.input.wf(),
            final(self).cx == old(self).cx,
            final(self).quit == old(self).quit,
            final(self).session_ready == old(self).session_ready,
    {
        let mut commands = self.handle_event(event);
        let ghost first = commands@;
        let actions = self.components.dispatch_event(event, &self.cx, now);
        let mut k: usize = 0;
        while k < actions.len()
            invariant
                k <= actions@.len(),
                command_views(commands@) == command_views(first) + sends(action_views(actions@).take(k as int)),
            decreases actions@.len() - k,
        {
            let ghost before = commands@;
            commands.push(Command::Send(actions[k].duplicate()));
            proof {
                crate::text::lemma_map_push(before, commands@.last(), |c: Command| c@);
                assert(commands@ =~= before.push(commands@.last()));
                assert(action_views(actions@).take(k + 1) =~= action_views(actions@).take(k as int).push(actions@[k as int]@));
                crate::text::lemma_map_push(action_views(actions@).take(k as int), actions@[k as int]@, |a: ActionView| CommandView::Send(a));
                assert(command_views(commands@) =~= command_views(first) + sends(action_views(actions@).take(k + 1)));
            }
            k = k + 1;
        }
        proof {
            assert(action_views(actions@).take(actions@.len() as int) =~= action_views(actions@));
        }
        commands
    }

    /// Lets the screens follow the clock.
    pub fn tick(&mut self, now: u64)
        ensures
            final(self).cx == old(self).cx,
            final(self).quit == old(self).quit,
            final(self).player_running == old(self).player_running,
            final(self).session_ready == old(self).session_ready,
            final(self).components.search.input.input@ == old(self).components.search.input.input@,
            final(self).components.search.input.idx == old(self).components.search.input.idx,
            final(self).components.search.input.focused == old(self).components.search.input.focused,
            ({
                let i = old(self).components.search.input;
                let due = i.focused && now >= i.last_cursor_tick && now - i.last_cursor_tick >= crate::input::BLINK_MILLIS;
                &&& final(self).components.search.input.show_cursor == if due { !i.show_cursor } else { i.show_cursor }
                &&& final(self).components.search.input.last_cursor_tick == if due { now } else { i.last_cursor_tick }
            }),
            final(self).components.items == old(self).components.items,
            final(self).components.downloaded_items == old(self).components.downloaded_items,
            final(self).components.popup == old(self).components.popup,
    {
        self.components.tick(now);
    }
}

/// The actions sent once the feed of a search is fetched: the channel it
/// holds, then the results screen. A feed that does not parse sends nothing.
pub fn feed_received(bytes: &[u8]) -> (r: Result<Vec<Action>, FeedError>)
    ensures
        match r {
            Ok(actions) => {
                &&& actions@.len() == 2
                &&& actions@[0]@ matches ActionView::SetChannel(c)
                &&& Some(c.items) == rss_feed_items(bytes@)
                &&& c.selected_item is None
                &&& actions@[1]@ == ActionView::Enter(Mode::Results)
            },
            Err(e) => rss_feed_items(bytes@) is None && e == FeedError::Malformed,
        },
{
    match parse_channel(bytes) {
        Ok(channel) => {
            let actions = channel_actions(channel);
            proof {
                assert(action_views(actions@).len() == actions@.len());
                assert(actions@.len() == 2);
                assert(action_views(actions@)[0] == actions@[0]@);
                assert(action_views(actions@)[1] == actions@[1]@);
            }
            Ok(actions)
        },
        Err(e) => Err(e),
    }
}

/// The actions sent for the channel of a fetched feed: the channel itself,
/// then the results screen.
pub fn channel_actions(channel: NyaaChannel) -> (actions: Vec<Action>)
    ensures
        action_views(actions@) == seq![ActionView::SetChannel(channel@), ActionView::Enter(Mode::Results)],
{
    let ghost c = channel@;
    let mut actions: Vec<Action> = Vec::new();
    actions.push(Action::SetChannel(channel));
    actions.push(Action::Enter(Mode::Results));
    proof {
        assert(action_views(actions@) =~= seq![ActionView::SetChannel(c), ActionView::Enter(Mode::Results)]);
    }
    actions
}

/// The action sent once a download was added to the session: the torrent
/// joins the list, or a popup reports the error with the buttons "kk" and "quit".
pub fn download_finished(result: Result<TorrentEntry, String>) -> (a: Action)
    ensures
        match result {
            Ok(t) => a@ == ActionView::AppendHandle(t@),
            Err(msg) => a@ == ActionView::Popup("Error"@, msg@, seq!["kk"@, "quit"@]),
        },
{
    match result {
        Ok(t) => Action::AppendHandle(t),
        Err(msg) => {
            let mut buttons: Vec<String> = Vec::new();
            buttons.push(String::from_str("kk"));
            buttons.push(String::from_str("quit"));
            proof {
                assert(texts(buttons@) =~= seq!["kk"@, "quit"@]);
            }
            Action::Popup(String::from_str("Error"), msg, buttons)
        },
    }
}

/// A press of `Esc`.
pub open spec fn esc_press() -> Event {
    Event::Key(KeyEvent { code: KeyCode::Esc, kind: KeyEventKind::Press })
}

/// The downloads opened from mode `m` close with `Esc` back to `m`: entering
/// them shows the table, and `Esc` there makes the screens send `Enter(m)`,
/// and nothing else, while the application itself sends nothing.
pub proof fn lemma_downloads_return_to_opener(s0: &AppState, s1: &AppState, m: Mode)
    requires
        cx_after_action(&s0.cx, &s1.cx, ActionView::Enter(Mode::Downloads(Box::new(m)))),
        app_components_after_action(&s0.components, &s1.components, ActionView::Enter(Mode::Downloads(Box::new(m)))),
    ensures
        s1.cx.mode == Mode::Downloads(Box::new(m)),
        s1.components.downloaded_items.visible,
        s1.components.downloaded_items.table.selected == Some(1usize),
        component_actions(&s1.components, &s1.cx, esc_press()) == seq![ActionView::Enter(m)],
        event_commands(s1, esc_press()) == Seq::<CommandView>::empty(),
{
    assert(component_actions(&s1.components, &s1.cx, esc_press()) =~= seq![ActionView::Enter(m)]);
}

/// A popup shown over mode `m` closes with `Esc` back to `m`: the popup
/// action shows it over `m`, and `Esc` makes the screens send `Enter(m)`,
/// and nothing else, while the application itself sends nothing.
pub proof fn lemma_popup_returns_to_opener(s0: &AppState, s1: &AppState, title: Seq<char>, description: Seq<char>, buttons: Seq<Seq<char>>)
    requires
        cx_after_action(&s0.cx, &s1.cx, ActionView::Popup(title, description, buttons)),
        app_components_after_action(&s0.components, &s1.components, ActionView::Popup(title, description, buttons)),
    ensures
        s1.cx.mode == Mode::Popup(Box::new(s0.cx.mode)),
        s1.components.popup.visible,
        component_actions(&s1.components, &s1.cx, esc_press()) == seq![ActionView::Enter(s0.cx.mode)],
        event_commands(s1, esc_press()) == Seq::<CommandView>::empty(),
{
    assert(component_actions(&s1.components, &s1.cx, esc_press()) =~= seq![ActionView::Enter(s0.cx.mode)]);
}

/// Only key presses move the application: a released or repeated key, a
/// mouse event or any other event asks for no work of the application itself.
pub proof fn lemma_only_presses_count(s: &AppState, event: Event)
    requires
        !(event matches Event::Key(k) && k.kind is Press),
    ensures
        event_commands(s, event) == Seq::<CommandView>::empty(),
        player_after_event(s, event) == s.player_running,
{
}

/// At most one player runs: whenever a player is started while one runs, the
/// running one is stopped first.
pub proof fn lemma_one_player_at_a_time(s: &AppState, url: Seq<char>, key: KeyEvent)
    requires
        s.player_running,
    ensures
        action_commands(s, ActionView::Play(url))[0] == CommandView::StopPlayer,
        key_starts_player(s, key) ==> key_commands(s, key)[0] == CommandView::StopPlayer,
{
}

/// A press of the key `code`.
pub open spec fn press_of(code: KeyCode) -> KeyEvent {
    KeyEvent { code, kind: KeyEventKind::Press }
}

/// In the normal mode, `s` shows the results exactly when a search returned
/// a channel, whether or not a result is selected; otherwise it does nothing.
pub proof fn lemma_s_shows_results_when_searched(s: &AppState)
    requires
        s.cx.mode is Normal,
    ensures
        s.cx.channel is Some ==> key_commands(s, press_of(KeyCode::Char('s'))) == seq![CommandView::Send(ActionView::Enter(Mode::Results))],
        s.cx.channel is None ==> key_commands(s, press_of(KeyCode::Char('s'))) == Seq::<CommandView>::empty(),
{
}

/// The keys of the normal mode: `q` quits, `i` enters the search, `l` opens
/// the downloads over the normal mode, space shows the selected result when
/// there is one, `,` and `.` step the video output back and forth.
pub proof fn lemma_normal_mode_keys(s: &AppState)
    requires
        s.cx.mode is Normal,
    ensures
        key_commands(s, press_of(KeyCode::Char('q'))) == seq![CommandView::Send(ActionView::Quit)],
        key_commands(s, press_of(KeyCode::Char('i'))) == seq![CommandView::Send(ActionView::Enter(Mode::Search))],
        key_commands(s, press_of(KeyCode::Char('l'))) == seq![CommandView::Send(ActionView::Enter(Mode::Downloads(Box::new(Mode::Normal))))],
        s.cx.selected_item is Some ==> key_commands(s, press_of(KeyCode::Char(' '))) == seq![CommandView::Send(ActionView::Enter(Mode::Selected))],
        s.cx.selected_item is None ==> key_commands(s, press_of(KeyCode::Char(' '))) == Seq::<CommandView>::empty(),
        key_commands(s, press_of(KeyCode::Char(','))) == seq![CommandView::Send(ActionView::PrevVo)],
        key_commands(s, press_of(KeyCode::Char('.'))) == seq![CommandView::Send(ActionView::NextVo)],
        key_commands(s, press_of(KeyCode::Esc)) == Seq::<CommandView>::empty(),
{
}

/// In the player, `q` stops the running player and returns to the normal
/// mode; `p` in the normal mode stops a running player, enters the player and
/// starts a terminal player on the test stream at the terminal's size.
pub proof fn lemma_player_keys(s: &AppState)
    ensures
        s.cx.mode is Player ==> key_commands(s, press_of(KeyCode::Char('q')))
            == (if s.player_running { seq![CommandView::StopPlayer] } else { Seq::empty() }) + seq![CommandView::Send(ActionView::Enter(Mode::Normal))],
        s.cx.mode is Normal ==> key_commands(s, press_of(KeyCode::Char('p')))
            == (if s.player_running { seq![CommandView::StopPlayer] } else { Seq::empty() }) + seq![
                CommandView::Send(ActionView::Enter(Mode::Player)),
                CommandView::StartPlayer(Vo::Ansi, "http://127.0.0.1:3030/torrents/0/stream/0"@, s.cx.width, s.cx.height),
            ],
{
}

} // verus!
