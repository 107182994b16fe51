use motion_desk::session::{Action, DeskCmd, Link, Session};

#[test]
fn first_command_connects() {
    let mut s = Session::new();
    assert_eq!(s.on_command(DeskCmd::Refresh), vec![Action::AnnounceConnecting, Action::Connect]);
    assert!(s.is_connecting());
    assert_eq!(s.on_connect_result(true), vec![Action::AnnounceConnected, Action::ReportHeight]);
    assert_eq!(s.link(), Link::Online);
}

#[test]
fn failed_connection_drops_command() {
    let mut s = Session::new();
    s.on_command(DeskCmd::GoTo(11000));
    assert_eq!(s.on_connect_result(false), vec![Action::AnnounceDisconnected]);
    assert_eq!(s.link(), Link::Offline);
    // The next command tries again.
    assert_eq!(s.on_command(DeskCmd::Stop), vec![Action::AnnounceConnecting, Action::Connect]);
}

#[test]
fn new_move_aborts_running_one() {
    let mut s = Session::new();
    s.on_command(DeskCmd::GoTo(11000));
    assert_eq!(s.on_connect_result(true), vec![Action::AnnounceConnected, Action::StartMove(11000)]);
    assert_eq!(
        s.on_command(DeskCmd::GoTo(7500)),
        vec![Action::AbortMove, Action::StartMove(7500)]
    );
    assert_eq!(s.on_command(DeskCmd::Refresh), vec![Action::ReportHeight]);
    assert_eq!(s.on_command(DeskCmd::Stop), vec![Action::AbortMove, Action::StopAndReport]);
    assert_eq!(s.on_command(DeskCmd::Stop), vec![Action::StopAndReport]);
    assert_eq!(s.on_command(DeskCmd::SaveSlot(2)), vec![Action::SaveHeight(2)]);
}

#[test]
fn lost_link_aborts_and_disconnects() {
    let mut s = Session::new();
    s.on_command(DeskCmd::GoTo(9000));
    s.on_connect_result(true);
    assert_eq!(s.on_link_lost(), vec![Action::AbortMove, Action::AnnounceDisconnected]);
    assert_eq!(s.link(), Link::Offline);
    assert_eq!(s.on_link_lost(), vec![Action::AnnounceDisconnected]);
}

#[test]
fn connect_result_without_pending_command() {
    let mut s = Session::new();
    assert_eq!(s.on_connect_result(true), vec![]);
    assert_eq!(s.link(), Link::Offline);
}
