use qara::mode::Mode;
use qara::vo::{playback_for, startup_vo, Playback, Vo};

#[test]
fn vo_next_walks_the_cycle() {
    assert_eq!(Vo::Ascii.next(), Vo::Ansi);
    assert_eq!(Vo::Ansi.next(), Vo::Kitty);
    assert_eq!(Vo::Kitty.next(), Vo::Mpv);
    assert_eq!(Vo::Mpv.next(), Vo::Ascii);
}

#[test]
fn vo_prev_walks_the_cycle_backwards() {
    assert_eq!(Vo::Ascii.prev(), Vo::Mpv);
    assert_eq!(Vo::Ansi.prev(), Vo::Ascii);
    assert_eq!(Vo::Kitty.prev(), Vo::Ansi);
    assert_eq!(Vo::Mpv.prev(), Vo::Kitty);
}

#[test]
fn vo_next_then_prev_is_identity() {
    for vo in [Vo::Ascii, Vo::Ansi, Vo::Kitty, Vo::Mpv] {
        assert_eq!(vo.next().prev(), vo);
        assert_eq!(vo.prev().next(), vo);
        assert_eq!(vo.next().next().next().next(), vo);
        assert_ne!(vo.next(), vo);
    }
}

#[test]
fn vo_names() {
    assert_eq!(Vo::Ascii.name(), "ascii");
    assert_eq!(Vo::Ansi.name(), "ansi");
    assert_eq!(Vo::Kitty.name(), "kitty");
    assert_eq!(Vo::Mpv.name(), "mpv");
    assert_eq!(Vo::default_output(), Vo::Mpv);
}

#[test]
fn playback_per_output() {
    assert_eq!(playback_for(Vo::Ascii, true), Playback::Nothing);
    assert_eq!(playback_for(Vo::Kitty, true), Playback::Nothing);
    assert_eq!(playback_for(Vo::Ansi, false), Playback::Ansi);
    assert_eq!(playback_for(Vo::Mpv, true), Playback::Mpv);
    assert_eq!(playback_for(Vo::Mpv, false), Playback::Ansi);
}

#[test]
fn startup_output_choice() {
    assert_eq!(startup_vo(Vo::Mpv, true, false), Some(Vo::Mpv));
    assert_eq!(startup_vo(Vo::Mpv, false, true), Some(Vo::Ansi));
    assert_eq!(startup_vo(Vo::Mpv, false, false), None);
}

#[test]
fn mode_texts() {
    assert_eq!(Mode::Normal.describe(), "normal");
    assert_eq!(Mode::Search.describe(), "search");
    assert_eq!(Mode::Searching.describe(), "searching your query...");
    assert_eq!(Mode::Results.describe(), "items list");
    assert_eq!(Mode::Selected.describe(), "selected item info");
    assert_eq!(Mode::Player.describe(), "player");
}

#[test]
fn nested_mode_texts() {
    let m = Mode::Popup(Box::new(Mode::Downloads(Box::new(Mode::Results))));
    assert_eq!(m.describe(), "items list -> downloads -> popup");
    assert!(matches!(m.duplicate(), Mode::Popup(inner) if matches!(*inner, Mode::Downloads(_))));
    assert!(matches!(Mode::default(), Mode::Normal));
    assert!(Mode::Normal.is_normal());
    assert!(!Mode::Player.is_normal());
}

#[test]
fn search_bar_title_names_the_output() {
    assert_eq!(qara::components::header_title(Vo::Kitty), "Qara[kitty]");
}
