//! The connection session of the tray application: which outside work to do
//! for each command, connection outcome and lost link. The driver performs the
//! actions (Bluetooth, timers, window updates) and reports back.
use vstd::prelude::*;

verus! {

/// A command for the desk, heights in tenths of a millimetre.
#[derive(Debug, Clone, Copy, PartialEq, Eq, Structural)]
pub enum DeskCmd {
    /// Move to this height.
    GoTo(u32),
    /// Store the current height in this favourite slot.
    SaveSlot(usize),
    /// Stop moving.
    Stop,
    /// Read and show the current height (connecting first if needed).
    Refresh,
}

/// One piece of outside work for the driver.
#[derive(Debug, Clone, Copy, PartialEq, Eq, Structural)]
pub enum Action {
    /// Show "connecting" in the title and the panel.
    AnnounceConnecting,
    /// Scan and connect, then report the outcome to `on_connect_result`.
    Connect,
    /// Record the height at connection, subscribe to position notifications
    /// and show "connected".
    AnnounceConnected,
    /// Show "not connected" in the title and the panel.
    AnnounceDisconnected,
    /// Abort the move in progress.
    AbortMove,
    /// Show the target and start moving to it in the background.
    StartMove(u32),
    /// Stop the desk, then read and show its height.
    StopAndReport,
    /// Read and show the height.
    ReportHeight,
    /// Read the height and store it in this favourite slot.
    SaveHeight(usize),
}

/// State of the link to the desk.
#[derive(Debug, Clone, Copy, PartialEq, Eq, Structural)]
pub enum Link {
    Offline,
    Connecting,
    Online,
}

/// Abstract state of a session.
pub struct SessionView {
    pub link: Link,
    /// The command waiting for the connection.
    pub pending: Option<DeskCmd>,
    /// Whether a move task is held.
    pub mover: bool,
}

impl SessionView {
    /// A command waits exactly while connecting, and moves run only online.
    pub open spec fn wf(self) -> bool {
        &&& (self.link == Link::Connecting) == (self.pending is Some)
        &&& self.mover ==> self.link == Link::Online
    }
}

/// Whether an action does work on a connected desk.
pub open spec fn uses_desk(a: Action) -> bool {
    match a {
        Action::StartMove(_) | Action::StopAndReport | Action::ReportHeight | Action::SaveHeight(
            _,
        ) => true,
        _ => false,
    }
}

/// Running a command on a connected desk: a new move or a stop first aborts
/// the move in progress; the other commands leave it alone.
pub open spec fn spec_run(mover: bool, cmd: DeskCmd) -> (bool, Seq<Action>) {
    let abort = if mover { seq![Action::AbortMove] } else { Seq::<Action>::empty() };
    match cmd {
        DeskCmd::GoTo(h) => (true, abort.push(Action::StartMove(h))),
        DeskCmd::Stop => (false, abort.push(Action::StopAndReport)),
        DeskCmd::Refresh => (mover, seq![Action::ReportHeight]),
        DeskCmd::SaveSlot(i) => (mover, seq![Action::SaveHeight(i)]),
    }
}

/// A command: run it when online, otherwise connect first and keep it waiting.
pub open spec fn spec_on_command(s: SessionView, cmd: DeskCmd) -> (SessionView, Seq<Action>) {
    if s.link == Link::Online {
        let (m, acts) = spec_run(s.mover, cmd);
        (SessionView { mover: m, ..s }, acts)
    } else {
        (
            SessionView { link: Link::Connecting, pending: Some(cmd), mover: false },
            seq![Action::AnnounceConnecting, Action::Connect],
        )
    }
}

/// The outcome of a connection attempt: on success the waiting command runs,
/// on failure it is dropped.
pub open spec fn spec_on_connect_result(s: SessionView, ok: bool) -> (SessionView, Seq<Action>) {
    match s.pending {
        Some(cmd) => if ok {
            let (m, acts) = spec_run(false, cmd);
            (
                SessionView { link: Link::Online, pending: None, mover: m },
                seq![Action::AnnounceConnected] + acts,
            )
        } else {
            (
                SessionView { link: Link::Offline, pending: None, mover: false },
                seq![Action::AnnounceDisconnected],
            )
        },
        None => (s, Seq::<Action>::empty()),
    }
}

/// A lost link: the move in progress is aborted and the desk is dropped until
/// the next command reconnects.
pub open spec fn spec_on_link_lost(s: SessionView) -> (SessionView, Seq<Action>) {
    let abort = if s.mover { seq![Action::AbortMove] } else { Seq::<Action>::empty() };
    (
        SessionView { link: Link::Offline, pending: None, mover: false },
        abort.push(Action::AnnounceDisconnected),
    )
}

/// The connection session.
pub struct Session {
    link: Link,
    pending: Option<DeskCmd>,
    mover: bool,
}

impl View for Session {
    type V = SessionView;

    closed spec fn view(&self) -> SessionView {
        SessionView { link: self.link, pending: self.pending, mover: self.mover }
    }
}

fn run(mover: bool, cmd: DeskCmd) -> (r: (bool, Vec<Action>))
    ensures
        (r.0, r.1@) == spec_run(mover, cmd),
{
    let mut acts: Vec<Action> = Vec::new();
    match cmd {
        DeskCmd::GoTo(h) => {
            if mover {
                acts.push(Action::AbortMove);
            }
            acts.push(Action::StartMove(h));
            assert(acts@ =~= spec_run(mover, cmd).1);
            (true, acts)
        },
        DeskCmd::Stop => {
            if mover {
                acts.push(Action::AbortMove);
            }
            acts.push(Action::StopAndReport);
            assert(acts@ =~= spec_run(mover, cmd).1);
            (false, acts)
        },
        DeskCmd::Refresh => {
            acts.push(Action::ReportHeight);
            assert(acts@ =~= spec_run(mover, cmd).1);
            (mover, acts)
        },
        DeskCmd::SaveSlot(i) => {
            acts.push(Action::SaveHeight(i));
            assert(acts@ =~= spec_run(mover, cmd).1);
            (mover, acts)
        },
    }
}

impl Session {
    #[verifier::type_invariant]
    spec fn inv(self) -> bool {
        self@.wf()
    }

    /// A session with no desk yet.
    pub fn new() -> (s: Session)
        ensures
            s@.link == Link::Offline,
            s@.pending is None,
            !s@.mover,
    {
        Session { link: Link::Offline, pending: None, mover: false }
    }

    /// The state of the link.
    pub fn link(&self) -> (l: Link)
        ensures
            l == self@.link,
    {
        self.link
    }

    /// Whether a connection attempt is under way.
    pub fn is_connecting(&self) -> (b: bool)
        ensures
            b == (self@.link == Link::Connecting),
    {
        match self.link {
            Link::Connecting => true,
            _ => false,
        }
    }

    /// The work to do for a command. Commands are taken one at a time: none
    /// while a connection attempt is under way.
    pub fn on_command(&mut self, cmd: DeskCmd) -> (acts: Vec<Action>)
        requires
            old(self)@.link != Link::Connecting,
        ensures
            (final(self)@, acts@) == spec_on_command(old(self)@, cmd),
            final(self)@.wf(),
    {
        proof {
            use_type_invariant(&*self);
        }
        match self.link {
            Link::Online => {
                let (m, acts) = run(self.mover, cmd);
                *self = Session { link: Link::Online, pending: None, mover: m };
                acts
            },
            _ => {
                *self = Session { link: Link::Connecting, pending: Some(cmd), mover: false };
                let mut acts: Vec<Action> = Vec::new();
                acts.push(Action::AnnounceConnecting);
                acts.push(Action::Connect);
                assert(acts@ =~= seq![Action::AnnounceConnecting, Action::Connect]);
                acts
            },
        }
    }

    /// The work to do once the connection attempt has succeeded (`ok`) or failed.
    pub fn on_connect_result(&mut self, ok: bool) -> (acts: Vec<Action>)
        ensures
            (final(self)@, acts@) == spec_on_connect_result(old(self)@, ok),
            final(self)@.wf(),
    {
        proof {
            use_type_invariant(&*self);
        }
        match self.pending {
            Some(cmd) => {
                if ok {
                    let (m, run_acts) = run(false, cmd);
                    *self = Session { link: Link::Online, pending: None, mover: m };
                    let mut acts: Vec<Action> = Vec::new();
                    acts.push(Action::AnnounceConnected);
                    let mut i: usize = 0;
                    while i < run_acts.len()
                        invariant
                            i <= run_acts@.len(),
                            acts@ =~= seq![Action::AnnounceConnected] + run_acts@.subrange(
                                0,
                                i as int,
                            ),
                        decreases run_acts@.len() - i,
                    {
                        acts.push(run_acts[i]);
                        i = i + 1;
                    }
                    assert(run_acts@.subrange(0, run_acts@.len() as int) =~= run_acts@);
                    acts
                } else {
                    *self = Session { link: Link::Offline, pending: None, mover: false };
                    let mut acts: Vec<Action> = Vec::new();
                    acts.push(Action::AnnounceDisconnected);
                    assert(acts@ =~= seq![Action::AnnounceDisconnected]);
                    acts
                }
            },
            None => Vec::new(),
        }
    }

    /// The work to do when a read, write or move failed: the link is dropped.
    pub fn on_link_lost(&mut self) -> (acts: Vec<Action>)
        ensures
            (final(self)@, acts@) == spec_on_link_lost(old(self)@),
            final(self)@.wf(),
    {
        let mut acts: Vec<Action> = Vec::new();
        if self.mover {
            acts.push(Action::AbortMove);
        }
        acts.push(Action::AnnounceDisconnected);
        assert(acts@ =~= spec_on_link_lost(self@).1);
        *self = Session { link: Link::Offline, pending: None, mover: false };
        acts
    }
}

/// Law: the desk is only worked on over a live link; every action that uses
/// it is ordered when the session is online, whatever came before.
pub proof fn law_desk_used_only_online(s: SessionView, cmd: DeskCmd, ok: bool)
    requires
        s.wf(),
    ensures
        s.link != Link::Connecting ==> (forall|k: int|
            0 <= k < spec_on_command(s, cmd).1.len() && #[trigger] uses_desk(
                spec_on_command(s, cmd).1[k],
            ) ==> spec_on_command(s, cmd).0.link == Link::Online),
        forall|k: int|
            0 <= k < spec_on_connect_result(s, ok).1.len() && #[trigger] uses_desk(
                spec_on_connect_result(s, ok).1[k],
            ) ==> spec_on_connect_result(s, ok).0.link == Link::Online,
        forall|k: int|
            0 <= k < spec_on_link_lost(s).1.len() ==> !#[trigger] uses_desk(
                spec_on_link_lost(s).1[k],
            ),
{
    let lost = spec_on_link_lost(s).1;
    assert forall|k: int| 0 <= k < lost.len() implies !#[trigger] uses_desk(lost[k]) by {
        if s.mover {
            assert(lost =~= seq![Action::AbortMove, Action::AnnounceDisconnected]);
        } else {
            assert(lost =~= seq![Action::AnnounceDisconnected]);
        }
    }
    if s.link == Link::Online {
        assert(spec_on_command(s, cmd).0.link == Link::Online);
    } else if s.link == Link::Offline {
        let c = spec_on_command(s, cmd).1;
        assert(c =~= seq![Action::AnnounceConnecting, Action::Connect]);
        assert forall|k: int| 0 <= k < c.len() implies !#[trigger] uses_desk(c[k]) by {}
    }
    let r = spec_on_connect_result(s, ok).1;
    if s.pending is Some && !ok {
        assert forall|k: int| 0 <= k < r.len() implies !#[trigger] uses_desk(r[k]) by {}
    }
}

/// Law: at most one move runs at a time; a move that is started while another
/// runs is preceded by the abort of the running one.
pub proof fn law_one_move_at_a_time(s: SessionView, h: u32)
    requires
        s.wf(),
        s.link == Link::Online,
    ensures
        s.mover ==> spec_on_command(s, DeskCmd::GoTo(h)).1 == seq![
            Action::AbortMove,
            Action::StartMove(h),
        ],
        !s.mover ==> spec_on_command(s, DeskCmd::GoTo(h)).1 == seq![Action::StartMove(h)],
        spec_on_command(s, DeskCmd::GoTo(h)).0.mover,
{
    if s.mover {
        assert(seq![Action::AbortMove].push(Action::StartMove(h)) =~= seq![
            Action::AbortMove,
            Action::StartMove(h),
        ]);
    } else {
        assert(Seq::<Action>::empty().push(Action::StartMove(h)) =~= seq![Action::StartMove(h)]);
    }
}

/// Law: every transition keeps the session well formed, and a lost link
/// always leaves it offline with no move held.
pub proof fn law_session_wf(s: SessionView, cmd: DeskCmd, ok: bool)
    requires
        s.wf(),
    ensures
        s.link != Link::Connecting ==> spec_on_command(s, cmd).0.wf(),
        spec_on_connect_result(s, ok).0.wf(),
        spec_on_link_lost(s).0.wf(),
        spec_on_link_lost(s).0.link == Link::Offline,
        !spec_on_link_lost(s).0.mover,
{
}

/// An input of the session, as the driver reports it.
#[derive(Debug, Clone, Copy, PartialEq, Eq, Structural)]
pub enum SessionEvent {
    /// A command was taken from the queue.
    Command(DeskCmd),
    /// The connection attempt succeeded (`true`) or failed.
    ConnectResult(bool),
    /// A read, write or move failed.
    LinkLost,
}

/// The transition of the session for one event.
pub open spec fn spec_step(s: SessionView, e: SessionEvent) -> (SessionView, Seq<Action>) {
    match e {
        SessionEvent::Command(cmd) => spec_on_command(s, cmd),
        SessionEvent::ConnectResult(ok) => spec_on_connect_result(s, ok),
        SessionEvent::LinkLost => spec_on_link_lost(s),
    }
}

/// Whether the driver may report `e` in state `s`: no command is taken while a
/// connection attempt is under way.
pub open spec fn allowed(s: SessionView, e: SessionEvent) -> bool {
    !(e is Command && s.link == Link::Connecting)
}

/// Whether the events `es` may be reported one after the other from `s`.
pub open spec fn valid_run(s: SessionView, es: Seq<SessionEvent>) -> bool
    decreases es.len(),
{
    es.len() == 0 || (allowed(s, es[0]) && valid_run(spec_step(s, es[0]).0, es.drop_first()))
}

/// State after the events `es`.
pub open spec fn run_end(s: SessionView, es: Seq<SessionEvent>) -> SessionView
    decreases es.len(),
{
    if es.len() == 0 {
        s
    } else {
        run_end(spec_step(s, es[0]).0, es.drop_first())
    }
}

/// All the actions ordered during the events `es`, in order.
pub open spec fn run_actions(s: SessionView, es: Seq<SessionEvent>) -> Seq<Action>
    decreases es.len(),
{
    if es.len() == 0 {
        seq![]
    } else {
        spec_step(s, es[0]).1 + run_actions(spec_step(s, es[0]).0, es.drop_first())
    }
}

/// What the user has been shown: a connection attempt announced and not yet
/// resolved (`connecting`), and whether a desk is held (`held`).
pub struct Shown {
    pub connecting: bool,
    pub held: bool,
}

/// How an action moves what the user has been shown, `None` where it breaks
/// the rules: "connecting" is announced only with no attempt open and no desk
/// held; a connection is attempted only inside an announced attempt and with
/// no desk held; "connected" closes an open attempt; "not connected" closes
/// any attempt and drops the desk; the desk is used only while held and with
/// no attempt open.
pub open spec fn shown_step(t: Shown, a: Action) -> Option<Shown> {
    match a {
        Action::AnnounceConnecting => if !t.connecting && !t.held {
            Some(Shown { connecting: true, held: false })
        } else {
            None
        },
        Action::Connect => if t.connecting && !t.held {
            Some(t)
        } else {
            None
        },
        Action::AnnounceConnected => if t.connecting {
            Some(Shown { connecting: false, held: true })
        } else {
            None
        },
        Action::AnnounceDisconnected => Some(Shown { connecting: false, held: false }),
        Action::AbortMove => Some(t),
        _ => if !t.connecting && t.held {
            Some(t)
        } else {
            None
        },
    }
}

/// What the user has been shown after the actions `acts`, `None` where a rule breaks.
pub open spec fn shown_after(t: Shown, acts: Seq<Action>) -> Option<Shown>
    decreases acts.len(),
{
    if acts.len() == 0 {
        Some(t)
    } else {
        match shown_step(t, acts[0]) {
            Some(n) => shown_after(n, acts.drop_first()),
            None => None,
        }
    }
}

/// What the user is shown in state `s`.
pub open spec fn shown_of(s: SessionView) -> Shown {
    Shown { connecting: s.link == Link::Connecting, held: s.link == Link::Online }
}

proof fn lemma_shown_concat(t: Shown, a: Seq<Action>, b: Seq<Action>)
    ensures
        shown_after(t, a + b) == (match shown_after(t, a) {
            Some(m) => shown_after(m, b),
            None => None,
        }),
    decreases a.len(),
{
    if a.len() == 0 {
        assert(a + b =~= b);
    } else {
        assert((a + b).drop_first() =~= a.drop_first() + b);
        assert((a + b)[0] == a[0]);
        match shown_step(t, a[0]) {
            Some(n) => lemma_shown_concat(n, a.drop_first(), b),
            None => {},
        }
    }
}

proof fn lemma_shown_one(t: Shown, x: Action)
    ensures
        shown_after(t, seq![x]) == shown_step(t, x),
{
    assert(seq![x].drop_first() =~= Seq::<Action>::empty());
    assert(seq![x][0] == x);
    if let Some(n) = shown_step(t, x) {
        assert(shown_after(n, Seq::<Action>::empty()) == Some(n));
    }
}

proof fn lemma_shown_two(t: Shown, x: Action, y: Action)
    ensures
        shown_after(t, seq![x, y]) == (match shown_step(t, x) {
            Some(m) => shown_step(m, y),
            None => None,
        }),
{
    assert(seq![x, y].drop_first() =~= seq![y]);
    assert(seq![x, y][0] == x);
    match shown_step(t, x) {
        Some(m) => lemma_shown_one(m, y),
        None => {},
    }
}

proof fn lemma_run_online(mover: bool, cmd: DeskCmd)
    ensures
        shown_after(Shown { connecting: false, held: true }, spec_run(mover, cmd).1) == Some(
            Shown { connecting: false, held: true },
        ),
{
    let t = Shown { connecting: false, held: true };
    match cmd {
        DeskCmd::GoTo(h) => {
            if mover {
                assert(spec_run(mover, cmd).1 =~= seq![Action::AbortMove, Action::StartMove(h)]);
                lemma_shown_two(t, Action::AbortMove, Action::StartMove(h));
            } else {
                assert(spec_run(mover, cmd).1 =~= seq![Action::StartMove(h)]);
                lemma_shown_one(t, Action::StartMove(h));
            }
        },
        DeskCmd::Stop => {
            if mover {
                assert(spec_run(mover, cmd).1 =~= seq![Action::AbortMove, Action::StopAndReport]);
                lemma_shown_two(t, Action::AbortMove, Action::StopAndReport);
            } else {
                assert(spec_run(mover, cmd).1 =~= seq![Action::StopAndReport]);
                lemma_shown_one(t, Action::StopAndReport);
            }
        },
        DeskCmd::Refresh => {
            lemma_shown_one(t, Action::ReportHeight);
        },
        DeskCmd::SaveSlot(i) => {
            lemma_shown_one(t, Action::SaveHeight(i));
        },
    }
}

proof fn lemma_step_shown(s: SessionView, e: SessionEvent)
    requires
        s.wf(),
        allowed(s, e),
    ensures
        shown_after(shown_of(s), spec_step(s, e).1) == Some(shown_of(spec_step(s, e).0)),
        spec_step(s, e).0.wf(),
{
    let t = shown_of(s);
    match e {
        SessionEvent::Command(cmd) => {
            if s.link == Link::Online {
                lemma_run_online(s.mover, cmd);
            } else {
                lemma_shown_two(t, Action::AnnounceConnecting, Action::Connect);
            }
        },
        SessionEvent::ConnectResult(ok) => {
            match s.pending {
                Some(cmd) => {
                    if ok {
                        lemma_shown_concat(t, seq![Action::AnnounceConnected], spec_run(false, cmd).1);
                        lemma_shown_one(t, Action::AnnounceConnected);
                        lemma_run_online(false, cmd);
                    } else {
                        lemma_shown_one(t, Action::AnnounceDisconnected);
                    }
                },
                None => {},
            }
        },
        SessionEvent::LinkLost => {
            if s.mover {
                assert(spec_on_link_lost(s).1 =~= seq![Action::AbortMove, Action::AnnounceDisconnected]);
                lemma_shown_two(t, Action::AbortMove, Action::AnnounceDisconnected);
            } else {
                assert(spec_on_link_lost(s).1 =~= seq![Action::AnnounceDisconnected]);
                lemma_shown_one(t, Action::AnnounceDisconnected);
            }
        },
    }
}

/// Law: over any run of events the driver may report, the actions keep the
/// rules of `shown_step`: every "connecting" is resolved by exactly one
/// "connected" or "not connected" before the next command is taken, a
/// connection is attempted only while no desk is held, none is attempted
/// again after "connected" until "not connected", and the desk is used only
/// while held. What the user is shown at the end matches the session's state.
pub proof fn law_session_runs(s: SessionView, es: Seq<SessionEvent>)
    requires
        s.wf(),
        valid_run(s, es),
    ensures
        shown_after(shown_of(s), run_actions(s, es)) == Some(shown_of(run_end(s, es))),
        run_end(s, es).wf(),
    decreases es.len(),
{
    if es.len() > 0 {
        let (n, acts) = spec_step(s, es[0]);
        lemma_step_shown(s, es[0]);
        law_session_runs(n, es.drop_first());
        lemma_shown_concat(shown_of(s), acts, run_actions(n, es.drop_first()));
    }
}

/// Law, in the words of the connection states shown: a command taken while no
/// desk is held announces "connecting" and attempts a connection; the outcome
/// that follows announces exactly one of "connected" or "not connected" (first,
/// and never again in that step), after which the next command can be taken.
pub proof fn law_connecting_resolved(s: SessionView, cmd: DeskCmd, ok: bool)
    requires
        s.wf(),
        s.link == Link::Offline,
    ensures
        spec_on_command(s, cmd).1 == seq![Action::AnnounceConnecting, Action::Connect],
        ({
            let acts = spec_on_connect_result(spec_on_command(s, cmd).0, ok).1;
            &&& acts.len() > 0
            &&& acts[0] == (if ok {
                Action::AnnounceConnected
            } else {
                Action::AnnounceDisconnected
            })
            &&& forall|k: int|
                1 <= k < acts.len() ==> #[trigger] acts[k] != Action::AnnounceConnected
                    && acts[k] != Action::AnnounceDisconnected && acts[k] != Action::AnnounceConnecting
                    && acts[k] != Action::Connect
        }),
        spec_on_connect_result(spec_on_command(s, cmd).0, ok).0.link != Link::Connecting,
{
    let s1 = spec_on_command(s, cmd).0;
    let acts = spec_on_connect_result(s1, ok).1;
    if ok {
        let r = spec_run(false, cmd).1;
        assert(acts == seq![Action::AnnounceConnected] + r);
        assert forall|k: int| 1 <= k < acts.len() implies #[trigger] acts[k]
            != Action::AnnounceConnected && acts[k] != Action::AnnounceDisconnected && acts[k]
            != Action::AnnounceConnecting && acts[k] != Action::Connect by {
            assert(acts[k] == r[k - 1]);
            assert(uses_desk(r[k - 1]) || r[k - 1] == Action::AbortMove) by {
                match cmd {
                    DeskCmd::GoTo(h) => {
                        assert(r =~= seq![Action::StartMove(h)]);
                    },
                    DeskCmd::Stop => {
                        assert(r =~= seq![Action::StopAndReport]);
                    },
                    _ => {},
                }
            }
        }
    }
}

/// Whether an event is a command that neither moves nor stops the desk.
pub open spec fn keeps_move(e: SessionEvent) -> bool {
    e == SessionEvent::Command(DeskCmd::Refresh) || exists|i: usize|
        e == SessionEvent::Command(DeskCmd::SaveSlot(i))
}

/// Law: online, reading or saving the height leaves a running move running
/// (and the link up); a stop always ends with the stop command and leaves no
/// move, and begins by aborting the move exactly when one runs; a new move is
/// always held.
pub proof fn law_move_flag(s: SessionView, i: usize, h: u32)
    requires
        s.wf(),
        s.link == Link::Online,
    ensures
        spec_on_command(s, DeskCmd::SaveSlot(i)).0.mover == s.mover,
        spec_on_command(s, DeskCmd::SaveSlot(i)).0.link == Link::Online,
        spec_on_command(s, DeskCmd::Refresh).0.mover == s.mover,
        spec_on_command(s, DeskCmd::Refresh).0.link == Link::Online,
        !spec_on_command(s, DeskCmd::Stop).0.mover,
        spec_on_command(s, DeskCmd::Stop).1 == (if s.mover {
            seq![Action::AbortMove, Action::StopAndReport]
        } else {
            seq![Action::StopAndReport]
        }),
        spec_on_command(s, DeskCmd::GoTo(h)).0.mover,
{
    assert(seq![Action::AbortMove].push(Action::StopAndReport) =~= seq![
        Action::AbortMove,
        Action::StopAndReport,
    ]);
    assert(Seq::<Action>::empty().push(Action::StopAndReport) =~= seq![Action::StopAndReport]);
}

/// Law: once a move runs, any number of height reads and favourite saves
/// later, a stop aborts that move before stopping the desk.
pub proof fn law_stop_aborts_running_move(s: SessionView, es: Seq<SessionEvent>)
    requires
        s.wf(),
        s.link == Link::Online,
        s.mover,
        forall|k: int| 0 <= k < es.len() ==> keeps_move(#[trigger] es[k]),
    ensures
        run_end(s, es).link == Link::Online,
        run_end(s, es).mover,
        spec_on_command(run_end(s, es), DeskCmd::Stop).1 == seq![
            Action::AbortMove,
            Action::StopAndReport,
        ],
    decreases es.len(),
{
    if es.len() > 0 {
        let e = es[0];
        assert(keeps_move(e));
        if e != SessionEvent::Command(DeskCmd::Refresh) {
            let i = choose|i: usize| e == SessionEvent::Command(DeskCmd::SaveSlot(i));
            law_move_flag(s, i, 0);
        } else {
            law_move_flag(s, 0, 0);
        }
        let n = spec_step(s, e).0;
        assert forall|k: int| 0 <= k < es.drop_first().len() implies keeps_move(
            #[trigger] es.drop_first()[k],
        ) by {
            assert(es.drop_first()[k] == es[k + 1]);
        }
        law_stop_aborts_running_move(n, es.drop_first());
    } else {
        law_move_flag(s, 0, 0);
    }
}

} // verus!
