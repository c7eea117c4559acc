use chat_composer::gesture::GestureTimer;
use chat_composer::network::{net_step, NetAction, NetEvent, NetState};
use chat_composer::viewport::{flatten_log, Viewport};

fn chars(s: &str) -> Vec<char> {
    s.chars().collect()
}

fn strings(lines: &Vec<Vec<char>>) -> Vec<String> {
    lines.iter().map(|l| l.iter().collect()).collect()
}

#[test]
fn new_message_scrolls_to_bottom() {
    let log: Vec<Vec<char>> = (0..12).map(|i| chars(&format!("m{}", i))).collect();
    let mut v = Viewport::new();
    v.draw(&log, 5);
    v.settle(12, 20);
    assert_eq!(v.scroll_offset(), 0);
    v.follow();
    let shown = v.draw(&log, 5);
    assert_eq!(v.scroll_offset(), 7);
    assert_eq!(strings(&shown), vec!["m7", "m8", "m9", "m10", "m11"]);
    assert!(!v.follows_tail());
}

#[test]
fn scroll_offset_clamped_after_resize() {
    let log: Vec<Vec<char>> = vec![chars("a\nb\nc"), chars("d\ne")];
    let mut v = Viewport::new();
    let shown = v.draw(&log, 2);
    assert_eq!(v.scroll_offset(), 3);
    assert_eq!(strings(&shown), vec!["d", "e"]);
    let shown = v.draw(&log, 4);
    assert_eq!(v.scroll_offset(), 1);
    assert_eq!(strings(&shown), vec!["b", "c", "d", "e"]);
    let shown = v.draw(&log, 10);
    assert_eq!(v.scroll_offset(), 0);
    assert_eq!(shown.len(), 5);
    let empty: Vec<Vec<char>> = Vec::new();
    let shown = v.draw(&empty, 3);
    assert_eq!(v.scroll_offset(), 0);
    assert!(shown.is_empty());
}

#[test]
fn flatten_splits_like_str_split() {
    let log = vec![chars("a\nb"), chars(""), chars("c\n"), chars("\n")];
    assert_eq!(strings(&flatten_log(&log)), vec!["a", "b", "", "c", "", "", ""]);
}

#[test]
fn gesture_window_is_half_a_second() {
    let mut g = GestureTimer::new();
    assert!(!g.on_enter(0));
    g.on_tab(1000);
    assert_eq!(g.last_tab(), Some(1000));
    assert!(g.on_enter(1499));
    assert!(!g.on_enter(1499));
    g.on_tab(1000);
    assert!(!g.on_enter(1500));
    g.on_tab(2000);
    assert!(g.on_enter(1000));
}

#[test]
fn network_steps() {
    assert_eq!(net_step(NetState::Connecting, NetEvent::ConnectOk), (NetState::Running, NetAction::ReportConnected));
    assert_eq!(net_step(NetState::Connecting, NetEvent::ConnectFailed), (NetState::Stopped, NetAction::ReportConnectFailure));
    assert_eq!(net_step(NetState::Running, NetEvent::ReadText), (NetState::Running, NetAction::Deliver));
    assert_eq!(net_step(NetState::Running, NetEvent::ReadWouldBlock), (NetState::Running, NetAction::Backoff));
    assert_eq!(net_step(NetState::Running, NetEvent::ReadOther), (NetState::Running, NetAction::Proceed));
    assert_eq!(net_step(NetState::Running, NetEvent::SendOk), (NetState::Running, NetAction::Proceed));
    assert_eq!(net_step(NetState::Running, NetEvent::SendFailed), (NetState::Stopped, NetAction::ReportSendFailure));
    assert_eq!(net_step(NetState::Running, NetEvent::ReadFailed), (NetState::Stopped, NetAction::ReportReceiveFailure));
    assert_eq!(net_step(NetState::Stopped, NetEvent::ReadText), (NetState::Stopped, NetAction::Halt));
}
