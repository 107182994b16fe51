//! Decisions of the tray interface: connection labels, the messages the panel
//! posts, and what a click on the tray icon does.
use vstd::prelude::*;
use vstd::utf8::encode_utf8;
use crate::config::{Config, FAV_SLOTS};
use crate::decimal::{parse_usize, spec_parse_usize};
use crate::position::{MAX_HEIGHT, MIN_HEIGHT};
use crate::session::DeskCmd;

verus! {

/// Connection state shown in the panel.
#[derive(Debug, Clone, Copy, PartialEq, Eq, Structural)]
pub enum ConnState {
    /// Connecting; nothing can be operated.
    Connecting,
    /// Connected; everything can be operated.
    Connected,
    /// Connection failed or lost; only refreshing (reconnecting) works.
    Disconnected,
}

impl ConnState {
    /// The label shown for this state.
    pub fn label(self) -> (s: &'static str)
        ensures
            s@ == (match self {
                ConnState::Connecting => "연결 중..."@,
                ConnState::Connected => "연결됨"@,
                ConnState::Disconnected => "연결 안 됨"@,
            }),
    {
        match self {
            ConnState::Connecting => "연결 중...",
            ConnState::Connected => "연결됨",
            ConnState::Disconnected => "연결 안 됨",
        }
    }
}

/// What a message posted by the panel asks for.
#[derive(Debug, Clone, Copy, PartialEq, Eq, Structural)]
pub enum PanelRequest {
    /// Send this command to the desk.
    Run(DeskCmd),
    /// Quit the application (the desk stops by itself once the link drops).
    Quit,
    /// Nothing to do.
    Ignore,
}

/// Whether `m` starts with `p`.
pub open spec fn has_prefix(m: Seq<u8>, p: Seq<u8>) -> bool {
    m.len() >= p.len() && m.subrange(0, p.len() as int) == p
}

/// The request a panel message (as bytes) makes: `up`/`down` hold-to-move
/// towards the limits, `stop`, `refresh`, `quit`, `fav:N` to go to favourite
/// `N` when it is set, `save:N` to store the current height in slot `N`.
pub open spec fn spec_panel_request(m: Seq<u8>, cfg: Config) -> PanelRequest {
    if m == seq![0x75u8, 0x70u8] /* "up" */ {
        PanelRequest::Run(DeskCmd::GoTo(MAX_HEIGHT))
    } else if m == seq![0x64u8, 0x6Fu8, 0x77u8, 0x6Eu8] /* "down" */ {
        PanelRequest::Run(DeskCmd::GoTo(MIN_HEIGHT))
    } else if m == seq![0x73u8, 0x74u8, 0x6Fu8, 0x70u8] /* "stop" */ {
        PanelRequest::Run(DeskCmd::Stop)
    } else if m == seq![0x72u8, 0x65u8, 0x66u8, 0x72u8, 0x65u8, 0x73u8, 0x68u8] /* "refresh" */ {
        PanelRequest::Run(DeskCmd::Refresh)
    } else if m == seq![0x71u8, 0x75u8, 0x69u8, 0x74u8] /* "quit" */ {
        PanelRequest::Quit
    } else if has_prefix(m, seq![0x66u8, 0x61u8, 0x76u8, 0x3Au8] /* "fav:" */) {
        match spec_parse_usize(m.subrange(4, m.len() as int)) {
            Some(i) => if i < FAV_SLOTS && cfg.spec_favs()[i] is Some {
                PanelRequest::Run(DeskCmd::GoTo(cfg.spec_favs()[i].unwrap()))
            } else {
                PanelRequest::Ignore
            },
            None => PanelRequest::Ignore,
        }
    } else if has_prefix(m, seq![0x73u8, 0x61u8, 0x76u8, 0x65u8, 0x3Au8] /* "save:" */) {
        match spec_parse_usize(m.subrange(5, m.len() as int)) {
            Some(i) => if i < FAV_SLOTS {
                PanelRequest::Run(DeskCmd::SaveSlot(i as usize))
            } else {
                PanelRequest::Ignore
            },
            None => PanelRequest::Ignore,
        }
    } else {
        PanelRequest::Ignore
    }
}

fn same_bytes(m: &[u8], w: &[u8]) -> (b: bool)
    ensures
        b == (m@ == w@),
{
    if m.len() != w.len() {
        return false;
    }
    let mut i: usize = 0;
    while i < m.len()
        invariant
            i <= m@.len() == w@.len(),
            forall|j: int| 0 <= j < i ==> m@[j] == w@[j],
        decreases m@.len() - i,
    {
        if m[i] != w[i] {
            return false;
        }
        i = i + 1;
    }
    assert(m@ =~= w@);
    true
}

fn starts_with(m: &[u8], p: &[u8]) -> (b: bool)
    ensures
        b == has_prefix(m@, p@),
{
    if m.len() < p.len() {
        return false;
    }
    let mut i: usize = 0;
    while i < p.len()
        invariant
            i <= p@.len() <= m@.len(),
            forall|j: int| 0 <= j < i ==> m@[j] == p@[j],
        decreases p@.len() - i,
    {
        if m[i] != p[i] {
            assert(m@.subrange(0, p@.len() as int)[i as int] != p@[i as int]);
            return false;
        }
        i = i + 1;
    }
    assert(m@.subrange(0, p@.len() as int) =~= p@);
    true
}

fn tail(m: &[u8], start: usize) -> (t: Vec<u8>)
    requires
        start <= m@.len(),
    ensures
        t@ == m@.subrange(start as int, m@.len() as int),
{
    let mut t: Vec<u8> = Vec::new();
    let mut i: usize = start;
    while i < m.len()
        invariant
            start <= i <= m@.len(),
            t@ =~= m@.subrange(start as int, i as int),
        decreases m@.len() - i,
    {
        t.push(m[i]);
        i = i + 1;
    }
    t
}

/// The request a panel message makes, read from its UTF-8 bytes.
pub fn panel_request(msg: &str, cfg: &Config) -> (r: PanelRequest)
    ensures
        r == spec_panel_request(encode_utf8(msg@), *cfg),
{
    let m = msg.as_bytes();
    let up = [0x75u8, 0x70u8]; // "up"
    let down = [0x64u8, 0x6Fu8, 0x77u8, 0x6Eu8]; // "down"
    let stop = [0x73u8, 0x74u8, 0x6Fu8, 0x70u8]; // "stop"
    let refresh = [0x72u8, 0x65u8, 0x66u8, 0x72u8, 0x65u8, 0x73u8, 0x68u8]; // "refresh"
    let quit = [0x71u8, 0x75u8, 0x69u8, 0x74u8]; // "quit"
    let fav = [0x66u8, 0x61u8, 0x76u8, 0x3Au8]; // "fav:"
    let save = [0x73u8, 0x61u8, 0x76u8, 0x65u8, 0x3Au8]; // "save:"
    assert(up@ =~= seq![0x75u8, 0x70u8]);
    assert(down@ =~= seq![0x64u8, 0x6Fu8, 0x77u8, 0x6Eu8]);
    assert(stop@ =~= seq![0x73u8, 0x74u8, 0x6Fu8, 0x70u8]);
    assert(refresh@ =~= seq![0x72u8, 0x65u8, 0x66u8, 0x72u8, 0x65u8, 0x73u8, 0x68u8]);
    assert(quit@ =~= seq![0x71u8, 0x75u8, 0x69u8, 0x74u8]);
    assert(fav@ =~= seq![0x66u8, 0x61u8, 0x76u8, 0x3Au8]);
    assert(save@ =~= seq![0x73u8, 0x61u8, 0x76u8, 0x65u8, 0x3Au8]);
    if same_bytes(m, up.as_slice()) {
        PanelRequest::Run(DeskCmd::GoTo(MAX_HEIGHT))
    } else if same_bytes(m, down.as_slice()) {
        PanelRequest::Run(DeskCmd::GoTo(MIN_HEIGHT))
    } else if same_bytes(m, stop.as_slice()) {
        PanelRequest::Run(DeskCmd::Stop)
    } else if same_bytes(m, refresh.as_slice()) {
        PanelRequest::Run(DeskCmd::Refresh)
    } else if same_bytes(m, quit.as_slice()) {
        PanelRequest::Quit
    } else if starts_with(m, fav.as_slice()) {
        let digits = tail(m, 4);
        match parse_usize(digits.as_slice()) {
            Some(i) => match cfg.fav(i) {
                Some(h) => PanelRequest::Run(DeskCmd::GoTo(h)),
                None => PanelRequest::Ignore,
            },
            None => PanelRequest::Ignore,
        }
    } else if starts_with(m, save.as_slice()) {
        let digits = tail(m, 5);
        match parse_usize(digits.as_slice()) {
            Some(i) => if i < FAV_SLOTS {
                PanelRequest::Run(DeskCmd::SaveSlot(i))
            } else {
                PanelRequest::Ignore
            },
            None => PanelRequest::Ignore,
        }
    } else {
        PanelRequest::Ignore
    }
}

/// The message `fav:` followed by the single digit `d`.
pub open spec fn fav_message(d: int) -> Seq<u8> {
    seq![0x66u8, 0x61u8, 0x76u8, 0x3Au8, (0x30 + d) as u8]
}

/// The message `save:` followed by the single digit `d`.
pub open spec fn save_message(d: int) -> Seq<u8> {
    seq![0x73u8, 0x61u8, 0x76u8, 0x65u8, 0x3Au8, (0x30 + d) as u8]
}

proof fn lemma_single_digit(d: int)
    requires
        0 <= d <= 9,
    ensures
        spec_parse_usize(seq![(0x30 + d) as u8]) == Some(d),
{
    let s = seq![(0x30 + d) as u8];
    assert(s.drop_last() =~= Seq::<u8>::empty());
    assert(crate::decimal::digits_value(s.drop_last()) == 0);
    assert(crate::decimal::all_digits(s));
}

/// Law: `fav:N` for a single digit `N` goes to the `N`-th favourite (counted
/// from 0: `fav1`, `fav2`, `fav3`) when it is set, and does nothing when it is
/// unset or there is no such slot.
pub proof fn law_fav_message(cfg: Config, d: int)
    requires
        0 <= d <= 9,
    ensures
        d == 0 ==> spec_panel_request(fav_message(d), cfg) == (match cfg.fav1 {
            Some(h) => PanelRequest::Run(DeskCmd::GoTo(h)),
            None => PanelRequest::Ignore,
        }),
        d == 1 ==> spec_panel_request(fav_message(d), cfg) == (match cfg.fav2 {
            Some(h) => PanelRequest::Run(DeskCmd::GoTo(h)),
            None => PanelRequest::Ignore,
        }),
        d == 2 ==> spec_panel_request(fav_message(d), cfg) == (match cfg.fav3 {
            Some(h) => PanelRequest::Run(DeskCmd::GoTo(h)),
            None => PanelRequest::Ignore,
        }),
        d >= 3 ==> spec_panel_request(fav_message(d), cfg) == PanelRequest::Ignore,
{
    let m = fav_message(d);
    assert(m.subrange(0, 4) =~= seq![0x66u8, 0x61u8, 0x76u8, 0x3Au8]);
    assert(m.subrange(4, 5) =~= seq![(0x30 + d) as u8]);
    lemma_single_digit(d);
    assert(m.len() == 5);
    assert(m != seq![0x75u8, 0x70u8]);
    assert(m != seq![0x64u8, 0x6Fu8, 0x77u8, 0x6Eu8]);
    assert(m != seq![0x73u8, 0x74u8, 0x6Fu8, 0x70u8]);
    assert(m != seq![0x72u8, 0x65u8, 0x66u8, 0x72u8, 0x65u8, 0x73u8, 0x68u8]);
    assert(m != seq![0x71u8, 0x75u8, 0x69u8, 0x74u8]);
}

/// Law: `save:N` for a single digit `N` stores the current height in slot `N`
/// when there is such a slot, and does nothing otherwise.
pub proof fn law_save_message(cfg: Config, d: int)
    requires
        0 <= d <= 9,
    ensures
        d < FAV_SLOTS ==> spec_panel_request(save_message(d), cfg) == PanelRequest::Run(
            DeskCmd::SaveSlot(d as usize),
        ),
        d >= FAV_SLOTS ==> spec_panel_request(save_message(d), cfg) == PanelRequest::Ignore,
{
    let m = save_message(d);
    assert(m.subrange(0, 5) =~= seq![0x73u8, 0x61u8, 0x76u8, 0x65u8, 0x3Au8]);
    assert(m.subrange(5, 6) =~= seq![(0x30 + d) as u8]);
    lemma_single_digit(d);
    assert(m.len() == 6);
    assert(m != seq![0x75u8, 0x70u8]);
    assert(m != seq![0x64u8, 0x6Fu8, 0x77u8, 0x6Eu8]);
    assert(m != seq![0x73u8, 0x74u8, 0x6Fu8, 0x70u8]);
    assert(m != seq![0x72u8, 0x65u8, 0x66u8, 0x72u8, 0x65u8, 0x73u8, 0x68u8]);
    assert(m != seq![0x71u8, 0x75u8, 0x69u8, 0x74u8]);
    assert(!has_prefix(m, seq![0x66u8, 0x61u8, 0x76u8, 0x3Au8])) by {
        assert(m.subrange(0, 4)[0] == 0x73u8);
    }
}

/// Time after the panel closed by losing focus during which a click on the
/// tray icon is taken as part of that closing, in milliseconds.
pub const REOPEN_GUARD_MS: u128 = 300;

/// What a left click on the tray icon does.
#[derive(Debug, Clone, Copy, PartialEq, Eq, Structural)]
pub enum ClickAction {
    ClosePanel,
    OpenPanel,
    Ignore,
}

/// A click closes an open panel; otherwise it opens the panel, unless the
/// panel closed by losing focus less than `REOPEN_GUARD_MS` ago.
pub fn tray_click(panel_open: bool, ms_since_focus_close: Option<u128>) -> (a: ClickAction)
    ensures
        a == (if panel_open {
            ClickAction::ClosePanel
        } else if ms_since_focus_close matches Some(ms) && ms < REOPEN_GUARD_MS {
            ClickAction::Ignore
        } else {
            ClickAction::OpenPanel
        }),
{
    if panel_open {
        ClickAction::ClosePanel
    } else {
        match ms_since_focus_close {
            Some(ms) => if ms < REOPEN_GUARD_MS {
                ClickAction::Ignore
            } else {
                ClickAction::OpenPanel
            },
            None => ClickAction::OpenPanel,
        }
    }
}

} // verus!
