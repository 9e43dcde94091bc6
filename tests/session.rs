use karaberus_player::{
    bundle_actions, Action, EventValue, PlayerEvent, Session, TrackBundle, IDLE_OBSERVER,
};

fn bundle(video: Option<&str>, inst: Option<&str>, sub: Option<&str>, title: &str) -> TrackBundle {
    TrackBundle {
        video: video.map(|s| s.to_string()),
        instrumental: inst.map(|s| s.to_string()),
        subtitle: sub.map(|s| s.to_string()),
        title: title.to_string(),
    }
}

fn send(frame: &str) -> Action {
    Action::Send { frame: frame.to_string() }
}

fn load(url: &str, title: &str) -> Action {
    send(&format!(
        "{{\"command\":{{\"name\":\"loadfile\",\"url\":\"{url}\",\"flags\":\"replace\",\"options\":\"aid=%1%1,force-media-title=%{}%{title}\"}}}}\n",
        title.len()
    ))
}

fn idle() -> PlayerEvent {
    PlayerEvent::PropertyChange { id: IDLE_OBSERVER, value: EventValue::Bool(true) }
}

fn spawn(socket: &str, token: &str) -> Action {
    Action::Spawn {
        args: vec![
            "--idle=once".to_string(),
            "--quiet".to_string(),
            "--save-position-on-quit=no".to_string(),
            format!("--input-ipc-server={socket}"),
            format!("--http-header-fields=Authorization: Bearer {token}"),
        ],
    }
}

fn quit() -> Action {
    send("{\"command\":[\"quit\"]}\n")
}

#[test]
fn first_submission_spawns_loads_and_attaches_tracks() {
    let mut s = Session::new("/run/mpv.sock".to_string());
    let actions = s.submit_bundle(bundle(Some("v.mp4"), Some("i.mp3"), Some("s.srt"), "Song"), "tok");
    assert_eq!(
        actions,
        vec![
            spawn("/run/mpv.sock", "tok"),
            load("v.mp4", "Song"),
            send("{\"command\":[\"audio-add\",\"i.mp3\",\"auto\"]}\n"),
            send("{\"command\":[\"sub-add\",\"s.srt\"]}\n"),
        ]
    );
    assert!(s.process_running());
    assert!(!s.playback_started());
    assert_eq!(s.queued(), 0);
    assert_eq!(s.on_event(&PlayerEvent::FileStarted), vec![]);
    assert!(s.playback_started());
    assert_eq!(s.on_event(&idle()), vec![quit()]);
    assert!(!s.process_running());
}

#[test]
fn second_submission_waits_for_end_of_first() {
    let mut s = Session::new("pipe".to_string());
    let first = s.submit_bundle(bundle(Some("a.mp4"), None, None, "A"), "t");
    assert_eq!(first.len(), 2);
    assert_eq!(s.on_event(&PlayerEvent::FileStarted), vec![]);
    let second = s.submit_bundle(bundle(Some("b.mp4"), Some("b.mp3"), None, "B"), "t");
    assert_eq!(second, vec![]);
    assert_eq!(s.queued(), 1);
    assert_eq!(
        s.on_event(&idle()),
        vec![load("b.mp4", "B"), send("{\"command\":[\"audio-add\",\"b.mp3\",\"auto\"]}\n")]
    );
    assert_eq!(s.queued(), 0);
    assert!(s.process_running());
}

#[test]
fn instrumental_alone_is_loaded_as_primary() {
    let b = bundle(None, Some("i.mp3"), None, "Inst");
    assert_eq!(bundle_actions(&b), vec![load("i.mp3", "Inst")]);
    let b = bundle(None, Some("i.mp3"), Some("s.ass"), "Inst");
    assert_eq!(
        bundle_actions(&b),
        vec![load("i.mp3", "Inst"), send("{\"command\":[\"sub-add\",\"s.ass\"]}\n")]
    );
}

#[test]
fn video_alone_is_loaded_without_extra_audio() {
    let b = bundle(Some("v.webm"), None, None, "V");
    assert_eq!(bundle_actions(&b), vec![load("v.webm", "V")]);
}

#[test]
fn bundles_play_in_submission_order() {
    let mut s = Session::new("sock".to_string());
    s.submit_bundle(bundle(Some("1.mp4"), None, None, "one"), "t");
    for (v, t) in [("2.mp4", "two"), ("3.mp4", "three"), ("4.mp4", "four")] {
        assert_eq!(s.submit_bundle(bundle(Some(v), None, None, t), "t"), vec![]);
    }
    assert_eq!(s.queued(), 3);
    for (v, t) in [("2.mp4", "two"), ("3.mp4", "three"), ("4.mp4", "four")] {
        s.on_event(&PlayerEvent::FileStarted);
        assert_eq!(s.on_event(&idle()), vec![load(v, t)]);
    }
    s.on_event(&PlayerEvent::FileStarted);
    assert_eq!(s.on_event(&idle()), vec![quit()]);
}

#[test]
fn quit_is_sent_exactly_once() {
    let mut s = Session::new("sock".to_string());
    s.submit_bundle(bundle(Some("v.mp4"), None, None, "v"), "t");
    s.on_event(&PlayerEvent::FileStarted);
    assert_eq!(s.on_event(&idle()), vec![quit()]);
    assert!(!s.process_running());
    assert_eq!(s.on_event(&idle()), vec![]);
    assert_eq!(s.on_event(&PlayerEvent::FileStarted), vec![]);
    assert_eq!(s.on_event(&idle()), vec![]);
    s.on_process_terminated();
    assert!(!s.process_running());
}

#[test]
fn repeated_submissions_spawn_one_process() {
    let mut s = Session::new("sock".to_string());
    let mut spawns = 0;
    for i in 0..5 {
        let name = format!("{i}.mp4");
        for a in s.submit_bundle(bundle(Some(&name), None, None, "x"), "t") {
            if let Action::Spawn { .. } = a {
                spawns += 1;
            }
        }
    }
    assert_eq!(spawns, 1);
    assert_eq!(s.queued(), 4);
}

#[test]
fn startup_idle_does_not_advance_the_queue() {
    let mut s = Session::new("sock".to_string());
    s.submit_bundle(bundle(Some("a.mp4"), None, None, "a"), "t");
    s.submit_bundle(bundle(Some("b.mp4"), None, None, "b"), "t");
    assert_eq!(s.on_event(&idle()), vec![]);
    assert_eq!(s.queued(), 1);
    assert!(s.process_running());
}

#[test]
fn other_events_and_properties_are_ignored() {
    let mut s = Session::new("sock".to_string());
    s.submit_bundle(bundle(Some("a.mp4"), None, None, "a"), "t");
    s.on_event(&PlayerEvent::FileStarted);
    let ignored = [
        PlayerEvent::Other,
        PlayerEvent::PropertyChange { id: 7, value: EventValue::Bool(true) },
        PlayerEvent::PropertyChange { id: IDLE_OBSERVER, value: EventValue::Bool(false) },
        PlayerEvent::PropertyChange { id: IDLE_OBSERVER, value: EventValue::Number(1) },
        PlayerEvent::PropertyChange { id: IDLE_OBSERVER, value: EventValue::Str("yes".to_string()) },
        PlayerEvent::PropertyChange { id: IDLE_OBSERVER, value: EventValue::Unknown },
    ];
    for e in ignored.iter() {
        assert_eq!(s.on_event(e), vec![]);
    }
    assert!(s.process_running());
    assert!(s.playback_started());
}

#[test]
fn bundle_without_media_is_ignored() {
    let mut s = Session::new("sock".to_string());
    assert_eq!(s.submit_bundle(bundle(None, None, Some("s.srt"), "x"), "t"), vec![]);
    assert!(!s.process_running());
    assert_eq!(s.queued(), 0);
}

#[test]
fn restart_after_exit_resumes_the_queue() {
    let mut s = Session::new("sock".to_string());
    s.submit_bundle(bundle(Some("a.mp4"), None, None, "a"), "t");
    s.submit_bundle(bundle(Some("b.mp4"), None, None, "b"), "t");
    s.on_process_terminated();
    assert!(!s.process_running());
    assert_eq!(s.queued(), 1);
    let actions = s.submit_bundle(bundle(Some("c.mp4"), None, None, "c"), "t2");
    assert_eq!(actions, vec![spawn("sock", "t2"), load("b.mp4", "b")]);
    assert_eq!(s.queued(), 1);
    assert_eq!(s.socket(), "sock");
}

#[test]
fn loadfile_keeps_first_audio_track_selected() {
    let actions = bundle_actions(&bundle(Some("v.mp4"), Some("i.mp3"), None, "Song"));
    assert_eq!(
        actions[0],
        send("{\"command\":{\"name\":\"loadfile\",\"url\":\"v.mp4\",\"flags\":\"replace\",\"options\":\"aid=%1%1,force-media-title=%4%Song\"}}\n")
    );
    assert_eq!(actions[1], send("{\"command\":[\"audio-add\",\"i.mp3\",\"auto\"]}\n"));
}

#[test]
fn failed_launch_lets_the_next_submission_retry() {
    let mut s = Session::new("sock".to_string());
    let first = s.submit_bundle(bundle(Some("a.mp4"), None, None, "a"), "t");
    assert_eq!(first[0], spawn("sock", "t"));
    s.on_spawn_failed();
    assert!(!s.process_running());
    assert_eq!(s.queued(), 1);
    let again = s.submit_bundle(bundle(Some("b.mp4"), None, None, "b"), "t");
    assert_eq!(again, vec![spawn("sock", "t"), load("a.mp4", "a")]);
    assert_eq!(s.queued(), 1);
    s.on_event(&PlayerEvent::FileStarted);
    assert_eq!(s.on_event(&idle()), vec![load("b.mp4", "b")]);
}

#[test]
fn failed_launch_with_nothing_loaded_keeps_the_queue() {
    let mut s = Session::new("sock".to_string());
    s.on_spawn_failed();
    assert!(!s.process_running());
    assert_eq!(s.queued(), 0);
}
