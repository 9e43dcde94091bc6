//! The playlist coordinator: the session record shared by the supervisor and
//! the event listener, and the decisions taken on each submission, player
//! event and process exit.

use vstd::prelude::*;

use crate::command::{encode_command, frame, loadfile_json, run_json, LoadFile, MpvCommand};
use crate::player::{spawn_args, spawn_args_spec};

verus! {

/// A karaoke track: video, instrumental audio and subtitles, any of which may
/// be missing, and the title shown by the player.
#[derive(Clone, Debug, PartialEq, Eq)]
pub struct TrackBundle {
    pub video: Option<String>,
    pub instrumental: Option<String>,
    pub subtitle: Option<String>,
    pub title: String,
}

impl TrackBundle {
    /// A bundle can be played when it has a video or an instrumental.
    pub open spec fn playable(&self) -> bool {
        self.video is Some || self.instrumental is Some
    }

    /// The file opened as the playlist item: the video, or else the instrumental.
    pub open spec fn primary(&self) -> Seq<char> {
        match self.video {
            Some(v) => v@,
            None => match self.instrumental {
                Some(i) => i@,
                None => Seq::<char>::empty(),
            },
        }
    }
}

/// A value carried by a property-change event of the player.
#[derive(Clone, Debug, PartialEq, Eq)]
pub enum EventValue {
    Bool(bool),
    Number(i64),
    Str(String),
    Unknown,
}

/// An event of the player, as the coordinator sees it.
#[derive(Clone, Debug, PartialEq, Eq)]
pub enum PlayerEvent {
    /// A file started playing.
    FileStarted,
    /// An observed property changed; `id` is the one given when subscribing.
    PropertyChange { id: u64, value: EventValue },
    /// Any other event.
    Other,
}

/// Subscription id of the observed idle property.
pub const IDLE_OBSERVER: u64 = 1;

/// The event that reports the player becoming idle, its item finished.
pub open spec fn idle_event() -> PlayerEvent {
    PlayerEvent::PropertyChange { id: IDLE_OBSERVER, value: EventValue::Bool(true) }
}

/// What the embedding application is asked to do, in order.
#[derive(Clone, Debug, PartialEq, Eq)]
pub enum Action {
    /// Launch the player with these arguments.
    Spawn { args: Vec<String> },
    /// Send this line to the player's IPC endpoint.
    Send { frame: String },
}

/// An action, with its strings as character sequences.
pub enum ActionView {
    Spawn(Seq<Seq<char>>),
    Send(Seq<char>),
}

impl Action {
    pub open spec fn view(&self) -> ActionView {
        match self {
            Action::Spawn { args } => ActionView::Spawn(crate::command::strings_view(args@)),
            Action::Send { frame } => ActionView::Send(frame@),
        }
    }
}

pub open spec fn actions_view(a: Seq<Action>) -> Seq<ActionView> {
    a.map_values(|x: Action| x.view())
}

/// The `loadfile` line that opens `url`, titled `title`, in place of the
/// current item, with the file's first audio track selected.
pub open spec fn loadfile_frame(url: Seq<char>, title: Seq<char>) -> Seq<char> {
    frame(
        loadfile_json(
            url,
            "replace"@,
            None,
            seq![("aid"@, "1"@), ("force-media-title"@, title)],
        ),
    )
}

/// The line that adds `file` as an extra audio track without selecting it.
pub open spec fn audio_add_frame(file: Seq<char>) -> Seq<char> {
    frame(run_json("audio-add"@, seq![file, "auto"@]))
}

/// The line that runs command `name` with the single argument `arg`.
pub open spec fn run_frame1(name: Seq<char>, arg: Seq<char>) -> Seq<char> {
    frame(run_json(name, seq![arg]))
}

/// The line that makes the player quit.
pub open spec fn quit_frame() -> Seq<char> {
    frame(run_json("quit"@, Seq::<Seq<char>>::empty()))
}

/// The lines that load `b`: its primary file, then the instrumental as an
/// extra, unselected audio track when there is a video too, then the subtitles.
pub open spec fn load_actions(b: TrackBundle) -> Seq<ActionView> {
    seq![ActionView::Send(loadfile_frame(b.primary(), b.title@))] + if b.video is Some
        && b.instrumental is Some {
        seq![ActionView::Send(audio_add_frame(b.instrumental.unwrap()@))]
    } else {
        Seq::<ActionView>::empty()
    } + match b.subtitle {
        Some(s) => seq![ActionView::Send(run_frame1("sub-add"@, s@))],
        None => Seq::<ActionView>::empty(),
    }
}

/// The session record.
pub struct SessionView {
    pub process_running: bool,
    pub playback_started: bool,
    pub queue: Seq<TrackBundle>,
    /// The bundle loaded into the player, taken off the queue.
    pub loaded: Option<TrackBundle>,
    pub socket: Seq<char>,
}

/// Submitting `b` with `token`: a bundle that cannot be played is ignored; one
/// submitted while the player runs joins the back of the queue; otherwise the
/// player is launched and the front of the queue, with `b` behind it, is loaded.
pub open spec fn submit_spec(s: SessionView, b: TrackBundle, token: Seq<char>) -> (
    SessionView,
    Seq<ActionView>,
) {
    if !b.playable() {
        (s, Seq::<ActionView>::empty())
    } else if s.process_running {
        (SessionView { queue: s.queue.push(b), ..s }, Seq::<ActionView>::empty())
    } else {
        let q = s.queue.push(b);
        (
            SessionView {
                process_running: true,
                playback_started: false,
                queue: q.drop_first(),
                loaded: Some(q[0]),
                socket: s.socket,
            },
            seq![ActionView::Spawn(spawn_args_spec(s.socket, token))] + load_actions(q[0]),
        )
    }
}

/// The reaction to a player event: a started file marks playback as begun; the
/// idle event after playback began loads the next bundle, or quits the player
/// when the queue is empty; anything else changes nothing.
pub open spec fn event_spec(s: SessionView, e: PlayerEvent) -> (SessionView, Seq<ActionView>) {
    match e {
        PlayerEvent::FileStarted => (
            SessionView { playback_started: true, ..s },
            Seq::<ActionView>::empty(),
        ),
        PlayerEvent::PropertyChange { id, value } => {
            if id == IDLE_OBSERVER && value == EventValue::Bool(true) && s.process_running
                && s.playback_started {
                if s.queue.len() > 0 {
                    (
                        SessionView {
                            playback_started: false,
                            queue: s.queue.drop_first(),
                            loaded: Some(s.queue[0]),
                            ..s
                        },
                        load_actions(s.queue[0]),
                    )
                } else {
                    (
                        SessionView {
                            process_running: false,
                            playback_started: false,
                            loaded: None,
                            ..s
                        },
                        seq![ActionView::Send(quit_frame())],
                    )
                }
            } else {
                (s, Seq::<ActionView>::empty())
            }
        },
        PlayerEvent::Other => (s, Seq::<ActionView>::empty()),
    }
}

/// The player process exited: the session no longer runs and nothing is
/// loaded; the queue is kept.
pub open spec fn terminated_spec(s: SessionView) -> SessionView {
    SessionView { process_running: false, playback_started: false, loaded: None, ..s }
}

/// The player could not be launched: the session no longer runs, and the
/// bundle that was to be loaded goes back to the front of the queue.
pub open spec fn spawn_failed_spec(s: SessionView) -> SessionView {
    SessionView {
        process_running: false,
        playback_started: false,
        queue: match s.loaded {
            Some(b) => seq![b] + s.queue,
            None => s.queue,
        },
        loaded: None,
        socket: s.socket,
    }
}

/// The playlist coordinator of one player session.
pub struct Session {
    socket: String,
    process_running: bool,
    playback_started: bool,
    queue: Vec<TrackBundle>,
    loaded: Option<TrackBundle>,
}

impl View for Session {
    type V = SessionView;

    closed spec fn view(&self) -> SessionView {
        SessionView {
            process_running: self.process_running,
            playback_started: self.playback_started,
            queue: self.queue@,
            loaded: self.loaded,
            socket: self.socket@,
        }
    }
}

fn string_from(s: &String) -> (r: String)
    ensures
        r@ == s@,
{
    s.clone()
}

/// The actions that load `b`.
pub fn bundle_actions(b: &TrackBundle) -> (r: Vec<Action>)
    ensures
        actions_view(r@) == load_actions(*b),
        b.video is None && b.instrumental is Some ==> r@[0].view() == ActionView::Send(
            loadfile_frame(b.instrumental.unwrap()@, b.title@),
        ),
{
    let primary = match &b.video {
        Some(v) => string_from(v),
        None => match &b.instrumental {
            Some(i) => string_from(i),
            None => String::new(),
        },
    };
    let mut load = LoadFile::default();
    load.url = primary;
    load.options = vec![
        (String::from_str("aid"), String::from_str("1")),
        (String::from_str("force-media-title"), string_from(&b.title)),
    ];
    let ghost opts = load.options@;
    assert(crate::options::options_view(opts) =~= seq![
        ("aid"@, "1"@),
        ("force-media-title"@, b.title@),
    ]);
    let mut r = vec![Action::Send { frame: encode_command(&MpvCommand::LoadFile(load)) }];
    if b.video.is_some() {
        match &b.instrumental {
            Some(i) => {
                let args = vec![string_from(i), String::from_str("auto")];
                assert(crate::command::strings_view(args@) =~= seq![i@, "auto"@]);
                let c = MpvCommand::Run { name: String::from_str("audio-add"), args };
                r.push(Action::Send { frame: encode_command(&c) });
            },
            None => {},
        }
    }
    match &b.subtitle {
        Some(s) => {
            let args = vec![string_from(s)];
            assert(crate::command::strings_view(args@) =~= seq![s@]);
            let c = MpvCommand::Run { name: String::from_str("sub-add"), args };
            r.push(Action::Send { frame: encode_command(&c) });
        },
        None => {},
    }
    assert(actions_view(r@) =~= load_actions(*b));
    r
}

impl Session {
    /// A session whose player is not running, with an empty queue, for a
    /// player listening on `socket`.
    pub fn new(socket: String) -> (r: Session)
        ensures
            r@ == (SessionView {
                process_running: false,
                playback_started: false,
                queue: Seq::<TrackBundle>::empty(),
                loaded: None,
                socket: socket@,
            }),
    {
        Session {
            socket,
            process_running: false,
            playback_started: false,
            queue: Vec::new(),
            loaded: None,
        }
    }

    pub fn process_running(&self) -> (r: bool)
        ensures
            r == self@.process_running,
    {
        self.process_running
    }

    pub fn playback_started(&self) -> (r: bool)
        ensures
            r == self@.playback_started,
    {
        self.playback_started
    }

    /// Number of bundles waiting behind the loaded one.
    pub fn queued(&self) -> (r: usize)
        ensures
            r == self@.queue.len(),
    {
        self.queue.len()
    }

    /// Address of the player's IPC endpoint.
    pub fn socket(&self) -> (r: &String)
        ensures
            r@ == self@.socket,
    {
        &self.socket
    }

    /// Takes a bundle submitted by the user, authorised by `token`, and returns
    /// what to do: launch the player and load a bundle, or nothing.
    pub fn submit_bundle(&mut self, bundle: TrackBundle, token: &str) -> (r: Vec<Action>)
        ensures
            (final(self)@, actions_view(r@)) == submit_spec(old(self)@, bundle, token@),
    {
        if bundle.video.is_none() && bundle.instrumental.is_none() {
            let r: Vec<Action> = Vec::new();
            assert(actions_view(r@) =~= Seq::<ActionView>::empty());
            return r;
        }
        self.queue.push(bundle);
        if self.process_running {
            let r: Vec<Action> = Vec::new();
            assert(actions_view(r@) =~= Seq::<ActionView>::empty());
            return r;
        }
        let first = self.queue.remove(0);
        let mut r = vec![Action::Spawn { args: spawn_args(self.socket.as_str(), token) }];
        let mut load = bundle_actions(&first);
        r.append(&mut load);
        self.loaded = Some(first);
        self.process_running = true;
        self.playback_started = false;
        assert(actions_view(r@) =~= seq![ActionView::Spawn(spawn_args_spec(self.socket@, token@))]
            + load_actions(first));
        r
    }

    /// Reacts to one event of the player.
    pub fn on_event(&mut self, event: &PlayerEvent) -> (r: Vec<Action>)
        ensures
            (final(self)@, actions_view(r@)) == event_spec(old(self)@, *event),
    {
        let mut r: Vec<Action> = Vec::new();
        assert(actions_view(r@) =~= Seq::<ActionView>::empty());
        match event {
            PlayerEvent::FileStarted => {
                self.playback_started = true;
            },
            PlayerEvent::PropertyChange { id, value } => {
                let idle = match value {
                    EventValue::Bool(b) => *b,
                    _ => false,
                };
                if *id == IDLE_OBSERVER && idle && self.process_running && self.playback_started {
                    self.playback_started = false;
                    if self.queue.len() > 0 {
                        let next = self.queue.remove(0);
                        r = bundle_actions(&next);
                        self.loaded = Some(next);
                    } else {
                        self.process_running = false;
                        self.loaded = None;
                        let args: Vec<String> = Vec::new();
                        assert(crate::command::strings_view(args@) =~= Seq::<Seq<char>>::empty());
                        let c = MpvCommand::Run { name: String::from_str("quit"), args };
                        r.push(Action::Send { frame: encode_command(&c) });
                        assert(actions_view(r@) =~= seq![ActionView::Send(quit_frame())]);
                    }
                }
            },
            PlayerEvent::Other => {},
        }
        r
    }

    /// The player process exited.
    pub fn on_process_terminated(&mut self)
        ensures
            final(self)@ == terminated_spec(old(self)@),
    {
        self.process_running = false;
        self.playback_started = false;
        self.loaded = None;
    }

    /// The player could not be launched; a later submission launches it again.
    pub fn on_spawn_failed(&mut self)
        ensures
            final(self)@ == spawn_failed_spec(old(self)@),
            !final(self)@.process_running,
    {
        self.process_running = false;
        self.playback_started = false;
        match self.loaded.take() {
            Some(b) => {
                let ghost q = self.queue@;
                self.queue.insert(0, b);
                assert(self.queue@ =~= seq![b] + q);
            },
            None => {},
        }
    }
}

} // verus!
