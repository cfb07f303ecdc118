use flight_chat::flow::Reply;
use flight_chat::host::{Action, Monitor, Position, Size, Window};
use flight_chat::split::{
    fits, is_latest, layout, next_epoch, set_split_view, Reveal, SplitView,
};

fn monitor(x: i32, y: i32, width: u32, height: u32) -> Monitor {
    Monitor { position: Position { x, y }, size: Size { width, height } }
}

/// Performs a request, with these answers to the questions for a monitor.
fn perform(
    mut request: SplitView,
    current: Option<Monitor>,
    primary: Option<Monitor>,
) -> (Vec<Action>, Result<Reply, String>) {
    let mut seen = Vec::new();
    while let Some(action) = request.action().cloned() {
        match action {
            Action::CurrentMonitor => request.report_monitor(current),
            Action::PrimaryMonitor => {
                let chosen = request.arranges_on(primary);
                assert_eq!(chosen, current.or(primary));
                request.report_monitor(primary)
            }
            _ => request.report(Ok(())),
        }
        seen.push(action);
    }
    (seen, request.answer().unwrap())
}

fn arranged(layout: [i64; 8], epoch: u64) -> Vec<Action> {
    let position = |i: usize| Position { x: layout[i] as i32, y: layout[i + 1] as i32 };
    let size = |i: usize| Size { width: layout[i] as u32, height: layout[i + 1] as u32 };
    vec![
        Action::Find(Window::Main),
        Action::Find(Window::Chat),
        Action::CurrentMonitor,
        Action::PrimaryMonitor,
        Action::Show(Window::Main),
        Action::Move(Window::Main, position(0)),
        Action::Resize(Window::Main, size(2)),
        Action::Show(Window::Chat),
        Action::Move(Window::Chat, position(4)),
        Action::Resize(Window::Chat, size(6)),
        Action::Focus(Window::Main),
        Action::RevealLater(epoch),
    ]
}

#[test]
fn opening_on_the_current_monitor() {
    let current = monitor(-1921, 30, 1921, 1080);
    let (seen, answer) =
        perform(set_split_view(true, 7), Some(current), Some(monitor(0, 0, 800, 600)));
    assert_eq!(seen, arranged([-1921, 30, 960, 1044, -961, 30, 961, 1044], 7));
    assert_eq!(answer, Ok(Reply::Done));
}

#[test]
fn opening_on_the_primary_monitor() {
    let (seen, answer) = perform(set_split_view(true, 8), None, Some(monitor(5, 6, 900, 600)));
    assert_eq!(seen, arranged([5, 6, 520, 620, 525, 6, 520, 620], 8));
    assert_eq!(answer, Ok(Reply::Done));
}

#[test]
fn opening_without_a_monitor() {
    let (seen, answer) = perform(set_split_view(true, 9), None, None);
    assert_eq!(seen.len(), 4);
    assert_eq!(answer, Err("未找到可用显示器".to_string()));
}

#[test]
fn closing() {
    let (seen, answer) = perform(set_split_view(false, 3), None, None);
    assert_eq!(
        seen,
        vec![
            Action::Find(Window::Main),
            Action::Find(Window::Chat),
            Action::Show(Window::Main),
            Action::Resize(Window::Main, Size { width: 1240, height: 840 }),
            Action::Center(Window::Main),
            Action::Focus(Window::Main),
            Action::HideLater(3),
        ]
    );
    assert_eq!(answer, Ok(Reply::Done));
}

#[test]
fn split_view_failures() {
    let mut request = set_split_view(true, 1);
    request.report(Err("x".to_string()));
    assert_eq!(request.answer(), Some(Err("未找到 Flight 主窗口".to_string())));
    let mut request = set_split_view(false, 1);
    request.report(Ok(()));
    request.report(Err("x".to_string()));
    assert_eq!(request.answer(), Some(Err("网页登录窗口尚未创建".to_string())));
    let mut request = set_split_view(true, 1);
    request.report(Ok(()));
    request.report(Ok(()));
    request.report(Err("no display".to_string()));
    assert!(request.action().is_none());
    assert_eq!(request.answer(), Some(Err("no display".to_string())));
}

#[test]
fn layouts() {
    let even = layout(&monitor(0, 0, 2560, 1440));
    assert_eq!(even.main_size, Size { width: 1280, height: 1404 });
    assert_eq!(even.chat_size, Size { width: 1280, height: 1404 });
    assert_eq!(even.chat_position, Position { x: 1280, y: 0 });
    let narrow = layout(&monitor(0, 0, 1039, 655));
    assert_eq!(narrow.main_size, Size { width: 520, height: 620 });
    assert_eq!(narrow.chat_size, Size { width: 520, height: 620 });
    let exact = layout(&monitor(0, 0, 1041, 657));
    assert_eq!(exact.main_size, Size { width: 520, height: 621 });
    assert_eq!(exact.chat_size, Size { width: 521, height: 621 });
    let nothing = layout(&monitor(0, 0, 0, 0));
    assert_eq!(nothing.chat_size, Size { width: 520, height: 620 });
}

#[test]
fn room_for_the_chat_window() {
    assert!(fits(&monitor(i32::MAX - 520, 0, 100, 100)));
    assert!(!fits(&monitor(i32::MAX - 519, 0, 100, 100)));
    assert!(fits(&monitor(i32::MIN, 0, u32::MAX, 100)));
    assert!(fits(&monitor(0, 0, u32::MAX, 100)));
    assert!(!fits(&monitor(1, 0, u32::MAX, 100)));
}

#[test]
fn revealing_while_current() {
    let mut task = Reveal::new(4);
    for delay in [150, 600, 1200] {
        assert_eq!(task.delay(), Some(delay));
        assert!(task.wake(4));
    }
    assert_eq!(task.delay(), None);
    assert!(!task.wake(4));
}

#[test]
fn superseded_reveal_ends() {
    let mut task = Reveal::new(4);
    assert!(task.wake(4));
    assert!(!task.wake(5));
    assert_eq!(task.delay(), None);
    assert!(!task.wake(4));
}

#[test]
fn request_numbers() {
    assert_eq!(next_epoch(0), 1);
    assert_eq!(next_epoch(41), 42);
    assert!(is_latest(42, 42));
    assert!(!is_latest(42, 43));
}
