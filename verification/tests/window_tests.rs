use dnsd::window::ConnectionWindow;

#[test]
fn last_success_wins() {
    let mut w: ConnectionWindow<u32, &str> = ConnectionWindow::new();
    w.on_item(Some(Err("timeout")));
    w.on_item(Some(Ok(1)));
    w.on_item(Some(Err("refused")));
    w.on_item(Some(Ok(2)));
    w.on_item(Some(Err("late")));
    assert!(w.is_open());
    w.on_item(None);
    assert!(!w.is_open());
    assert_eq!(w.finish(), Some(Ok(2)));
    assert_eq!(w.finish(), None);
}

#[test]
fn last_error_without_success() {
    let mut w: ConnectionWindow<u32, &str> = ConnectionWindow::new();
    w.on_item(Some(Err("first")));
    w.on_item(Some(Err("second")));
    assert_eq!(w.finish(), Some(Err("second")));
}

#[test]
fn nothing_received() {
    let mut w: ConnectionWindow<u32, &str> = ConnectionWindow::new();
    w.on_item(None);
    assert_eq!(w.finish(), None);
}
