use qara::action::{Action, TorrentEntry};
use qara::app::{download_finished, feed_received, AppState, Command};
use qara::components::stream_address;
use qara::event::{Event, KeyCode, KeyEvent, KeyEventKind};
use qara::feed::{FeedError, FeedExtension, NyaaChannel, NyaaItem};
use qara::mode::Mode;
use qara::vo::Vo;

fn press(code: KeyCode) -> Event {
    Event::Key(KeyEvent { code, kind: KeyEventKind::Press })
}

fn item(title: &str, link: &str) -> NyaaItem {
    NyaaItem {
        title: Some(title.to_string()),
        link: Some(link.to_string()),
        extensions: vec![FeedExtension { namespace: "nyaa".to_string(), name: "seeders".to_string(), values: vec![Some("3".to_string())] }],
    }
}

fn sent(commands: Vec<Command>) -> Vec<Action> {
    commands
        .into_iter()
        .map(|c| match c {
            Command::Send(a) => a,
            _ => panic!("expected only sends"),
        })
        .collect()
}

fn run(state: &mut AppState, event: Event) -> Vec<Command> {
    let mut queue: std::collections::VecDeque<Command> = state.on_event(event, 0).into();
    let mut work = Vec::new();
    while let Some(c) = queue.pop_front() {
        match c {
            Command::Send(a) => queue.extend(state.on_action(a)),
            other => work.push(other),
        }
    }
    work
}

#[test]
fn new_state_defaults() {
    let s = AppState::new(80, 24);
    assert_eq!(s.cx.vo, Vo::Mpv);
    assert!(matches!(s.cx.mode, Mode::Normal));
    assert!(s.should_render());
    assert!(!s.quit);
}

#[test]
fn quit_key_quits() {
    let mut s = AppState::new(80, 24);
    let commands = s.on_event(press(KeyCode::Char('q')), 0);
    let actions = sent(commands);
    assert!(matches!(actions.as_slice(), [Action::Quit]));
    s.on_action(Action::Quit);
    assert!(s.quit);
}

#[test]
fn released_keys_are_ignored() {
    let mut s = AppState::new(80, 24);
    let commands = s.on_event(Event::Key(KeyEvent { code: KeyCode::Char('q'), kind: KeyEventKind::Release }), 0);
    assert!(commands.is_empty());
    assert!(s.on_event(Event::Mouse, 0).is_empty());
}

#[test]
fn search_flow_builds_the_query_url() {
    let mut s = AppState::new(80, 24);
    assert!(run(&mut s, press(KeyCode::Char('i'))).is_empty());
    assert!(matches!(s.cx.mode, Mode::Search));
    assert!(s.components.search.input.focused);
    for ch in "one piece".chars() {
        run(&mut s, press(KeyCode::Char(ch)));
    }
    let work = run(&mut s, press(KeyCode::Enter));
    assert!(matches!(s.cx.mode, Mode::Searching));
    match work.as_slice() {
        [Command::FetchFeed(url)] => assert_eq!(url, "https://nyaa.si/?page=rss&q=one piece"),
        _ => panic!("expected a fetch"),
    }
}

#[test]
fn results_selection_and_download() {
    let mut s = AppState::new(80, 24);
    s.session_started();
    let channel = NyaaChannel::new(vec![item("a", "http://a"), item("b", "http://b"), item("c", "http://c")]);
    s.on_action(Action::SetChannel(channel));
    s.on_action(Action::Enter(Mode::Results));
    assert_eq!(s.components.items.table.selected(), Some(1));
    assert_eq!(s.cx.items.len(), 3);
    run(&mut s, press(KeyCode::Char('j')));
    run(&mut s, press(KeyCode::Down));
    run(&mut s, press(KeyCode::Down));
    assert_eq!(s.components.items.table.selected(), Some(3));
    run(&mut s, press(KeyCode::Up));
    assert_eq!(s.components.items.table.selected(), Some(2));
    run(&mut s, press(KeyCode::Enter));
    assert!(matches!(s.cx.mode, Mode::Selected));
    assert_eq!(s.cx.selected_item.as_ref().unwrap().title.as_deref(), Some("c"));
    let work = run(&mut s, press(KeyCode::Char('l')));
    match work.as_slice() {
        [Command::AddTorrent(link)] => assert_eq!(link, "http://c"),
        _ => panic!("expected a download"),
    }
    run(&mut s, press(KeyCode::Char('h')));
    assert!(matches!(s.cx.mode, Mode::Results));
}

#[test]
fn download_without_session_does_nothing() {
    let mut s = AppState::new(80, 24);
    assert!(s.on_action(Action::Download("http://x".to_string())).is_empty());
}

#[test]
fn downloads_close_back_to_opener() {
    let mut s = AppState::new(80, 24);
    s.on_action(Action::AppendHandle(TorrentEntry { id: 4, only_files: Some(vec![2, 5]) }));
    run(&mut s, press(KeyCode::Char('l')));
    assert!(matches!(&s.cx.mode, Mode::Downloads(prev) if matches!(**prev, Mode::Normal)));
    assert!(s.components.downloaded_items.visible);
    assert_eq!(s.components.downloaded_items.table.selected(), Some(1));
    let work = run(&mut s, press(KeyCode::Char('p')));
    assert!(matches!(s.cx.mode, Mode::Player));
    match work.as_slice() {
        [Command::StartPlayer(p)] => {
            assert_eq!(p.url, "http://127.0.0.1:3030/torrents/4/stream/2");
            assert_eq!(p.vo, Vo::Mpv);
            assert_eq!((p.width, p.height), (80, 24));
        },
        _ => panic!("expected the player to start"),
    }
    assert!(s.player_running);
    assert!(!s.should_render());
    let work = run(&mut s, press(KeyCode::Char('q')));
    assert!(matches!(work.as_slice(), [Command::StopPlayer]));
    assert!(!s.player_running);
    assert!(matches!(s.cx.mode, Mode::Normal));
}

#[test]
fn downloads_escape_returns_to_results() {
    let mut s = AppState::new(80, 24);
    s.on_action(Action::Enter(Mode::Downloads(Box::new(Mode::Results))));
    let work = run(&mut s, press(KeyCode::Esc));
    assert!(work.is_empty());
    assert!(matches!(s.cx.mode, Mode::Results));
    assert!(!s.components.downloaded_items.visible);
}

#[test]
fn popup_over_current_mode() {
    let mut s = AppState::new(80, 24);
    s.on_action(Action::Enter(Mode::Results));
    s.on_action(download_finished(Err("no handle".to_string())));
    assert!(matches!(&s.cx.mode, Mode::Popup(prev) if matches!(**prev, Mode::Results)));
    assert_eq!(s.components.popup.description, "no handle");
    assert_eq!(s.components.popup.buttons, vec!["kk".to_string(), "quit".to_string()]);
    run(&mut s, press(KeyCode::Esc));
    assert!(matches!(s.cx.mode, Mode::Results));
    assert!(!s.components.popup.visible);
}

#[test]
fn finished_download_joins_the_list() {
    let a = download_finished(Ok(TorrentEntry { id: 7, only_files: None }));
    assert!(matches!(a, Action::AppendHandle(TorrentEntry { id: 7, only_files: None })));
}

#[test]
fn playing_again_stops_the_running_player() {
    let mut s = AppState::new(100, 30);
    let first = s.on_action(Action::Play("u1".to_string()));
    assert!(matches!(first.as_slice(), [Command::StartPlayer(_)]));
    let second = s.on_action(Action::Play("u2".to_string()));
    assert!(matches!(second.as_slice(), [Command::StopPlayer, Command::StartPlayer(_)]));
}

#[test]
fn test_key_plays_in_the_terminal() {
    let mut s = AppState::new(100, 30);
    let commands = s.on_event(press(KeyCode::Char('p')), 0);
    match commands.as_slice() {
        [Command::Send(Action::Enter(Mode::Player)), Command::StartPlayer(p)] => {
            assert_eq!(p.vo, Vo::Ansi);
            assert_eq!(p.url, "http://127.0.0.1:3030/torrents/0/stream/0");
        },
        _ => panic!("unexpected commands"),
    }
}

#[test]
fn output_keys_step_the_output() {
    let mut s = AppState::new(80, 24);
    run(&mut s, press(KeyCode::Char('.')));
    assert_eq!(s.cx.vo, Vo::Ascii);
    run(&mut s, press(KeyCode::Char(',')));
    run(&mut s, press(KeyCode::Char(',')));
    assert_eq!(s.cx.vo, Vo::Kitty);
    s.set_vo(Vo::Ansi);
    assert_eq!(s.cx.vo, Vo::Ansi);
}

#[test]
fn blinking_follows_the_clock() {
    let mut s = AppState::new(80, 24);
    s.on_event(press(KeyCode::Char('i')), 100);
    s.tick(700);
    assert!(!s.components.search.input.show_cursor);
}

#[test]
fn stream_address_uses_first_selected_file() {
    assert_eq!(stream_address(&TorrentEntry { id: 12, only_files: None }), "http://127.0.0.1:3030/torrents/12/stream/0");
    assert_eq!(stream_address(&TorrentEntry { id: 0, only_files: Some(vec![]) }), "http://127.0.0.1:3030/torrents/0/stream/0");
    assert_eq!(stream_address(&TorrentEntry { id: 3, only_files: Some(vec![9, 1]) }), "http://127.0.0.1:3030/torrents/3/stream/9");
}

const FEED: &str = r#"<?xml version="1.0" encoding="UTF-8"?>
<rss version="2.0" xmlns:nyaa="https://nyaa.si/xmlns/nyaa">
<channel>
<title>Nyaa - search</title>
<link>https://nyaa.si/</link>
<description>RSS</description>
<item>
<title>Show 01</title>
<link>https://nyaa.si/download/1.torrent</link>
<nyaa:seeders>12</nyaa:seeders>
<nyaa:size>1.2 GiB</nyaa:size>
<nyaa:downloads>345</nyaa:downloads>
</item>
<item>
<title>Bare</title>
<link>https://nyaa.si/download/2.torrent</link>
</item>
</channel>
</rss>"#;

#[test]
fn feed_parses_into_channel_and_results() {
    let actions = feed_received(FEED.as_bytes()).unwrap();
    assert_eq!(actions.len(), 2);
    match &actions[0] {
        Action::SetChannel(c) => {
            assert_eq!(c.items.len(), 2);
            let first = &c.items[0];
            assert_eq!(first.title.as_deref(), Some("Show 01"));
            assert_eq!(first.link.as_deref(), Some("https://nyaa.si/download/1.torrent"));
            assert_eq!(first.nyaa_value("seeders").as_deref(), Some("12"));
            assert_eq!(first.nyaa_value("size").as_deref(), Some("1.2 GiB"));
            assert!(!c.items[1].has_nyaa());
            assert!(c.selected_item.is_none());
        },
        _ => panic!("expected the channel first"),
    }
    assert!(matches!(actions[1], Action::Enter(Mode::Results)));
}

#[test]
fn malformed_feed_is_refused() {
    assert!(matches!(feed_received(b"not a feed"), Err(FeedError::Malformed)));
}

#[test]
fn faulting_events_are_recognised() {
    let mut s = AppState::new(80, 24);
    assert!(!s.components.event_faults(&s.cx, press(KeyCode::Right)));
    s.on_action(Action::Enter(Mode::Search));
    assert!(s.components.event_faults(&s.cx, press(KeyCode::Right)));
    run(&mut s, press(KeyCode::Char('x')));
    assert!(!s.components.event_faults(&s.cx, press(KeyCode::Right)));
}

#[test]
fn drawing_clamps_the_results_selection() {
    let mut s = AppState::new(80, 24);
    let partial = NyaaItem { title: Some("p".into()), link: Some("http://p".into()), extensions: vec![] };
    s.on_action(Action::SetChannel(NyaaChannel::new(vec![item("a", "http://a"), partial, item("c", "http://c")])));
    s.on_action(Action::Enter(Mode::Results));
    run(&mut s, press(KeyCode::Down));
    run(&mut s, press(KeyCode::Down));
    assert_eq!(s.components.items.table.selected(), Some(3));
    s.results_drawn(3);
    assert_eq!(s.components.items.table.selected(), Some(2));
    run(&mut s, press(KeyCode::Enter));
    assert!(matches!(s.cx.mode, Mode::Selected));
    assert_eq!(s.cx.selected_item.as_ref().unwrap().title.as_deref(), Some("c"));
}

#[test]
fn drawing_clamps_the_downloads_selection() {
    let mut s = AppState::new(80, 24);
    s.downloads_drawn(1);
    assert_eq!(s.components.downloaded_items.table.selected(), None);
    s.on_action(Action::Enter(Mode::Downloads(Box::new(Mode::Normal))));
    s.downloads_drawn(1);
    assert_eq!(s.components.downloaded_items.table.selected(), Some(0));
}

#[test]
fn channel_actions_set_the_channel_then_show_results() {
    let actions = qara::app::channel_actions(NyaaChannel::new(vec![item("a", "http://a")]));
    assert_eq!(actions.len(), 2);
    assert!(matches!(&actions[0], Action::SetChannel(c) if c.items.len() == 1));
    assert!(matches!(actions[1], Action::Enter(Mode::Results)));
}
