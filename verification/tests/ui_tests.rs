use motion_desk::config::Config;
use motion_desk::position::{MAX_HEIGHT, MIN_HEIGHT};
use motion_desk::session::DeskCmd;
use motion_desk::ui::{panel_request, tray_click, ClickAction, ConnState, PanelRequest};

#[test]
fn conn_labels() {
    assert_eq!(ConnState::Connecting.label(), "연결 중...");
    assert_eq!(ConnState::Connected.label(), "연결됨");
    assert_eq!(ConnState::Disconnected.label(), "연결 안 됨");
}

#[test]
fn panel_words() {
    let c = Config::new();
    assert_eq!(panel_request("up", &c), PanelRequest::Run(DeskCmd::GoTo(MAX_HEIGHT)));
    assert_eq!(panel_request("down", &c), PanelRequest::Run(DeskCmd::GoTo(MIN_HEIGHT)));
    assert_eq!(panel_request("stop", &c), PanelRequest::Run(DeskCmd::Stop));
    assert_eq!(panel_request("refresh", &c), PanelRequest::Run(DeskCmd::Refresh));
    assert_eq!(panel_request("quit", &c), PanelRequest::Quit);
    assert_eq!(panel_request("Stop", &c), PanelRequest::Ignore);
    assert_eq!(panel_request("", &c), PanelRequest::Ignore);
    assert_eq!(panel_request("sit", &c), PanelRequest::Ignore);
}

#[test]
fn panel_favourites() {
    let mut c = Config::new();
    c.set_fav(1, 11000);
    assert_eq!(panel_request("fav:1", &c), PanelRequest::Run(DeskCmd::GoTo(11000)));
    assert_eq!(panel_request("fav:+1", &c), PanelRequest::Run(DeskCmd::GoTo(11000)));
    assert_eq!(panel_request("fav:0", &c), PanelRequest::Ignore);
    assert_eq!(panel_request("fav:3", &c), PanelRequest::Ignore);
    assert_eq!(panel_request("fav:", &c), PanelRequest::Ignore);
    assert_eq!(panel_request("fav:x", &c), PanelRequest::Ignore);
}

#[test]
fn panel_save_slots() {
    let c = Config::new();
    assert_eq!(panel_request("save:0", &c), PanelRequest::Run(DeskCmd::SaveSlot(0)));
    assert_eq!(panel_request("save:2", &c), PanelRequest::Run(DeskCmd::SaveSlot(2)));
    assert_eq!(panel_request("save:3", &c), PanelRequest::Ignore);
    assert_eq!(panel_request("save:-1", &c), PanelRequest::Ignore);
}

#[test]
fn tray_clicks() {
    assert_eq!(tray_click(true, None), ClickAction::ClosePanel);
    assert_eq!(tray_click(true, Some(10)), ClickAction::ClosePanel);
    assert_eq!(tray_click(false, None), ClickAction::OpenPanel);
    assert_eq!(tray_click(false, Some(299)), ClickAction::Ignore);
    assert_eq!(tray_click(false, Some(300)), ClickAction::OpenPanel);
}
