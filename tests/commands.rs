use karaberus_player::{encode_command, subscription_frame, LoadFile, Mpv, MpvCommand};

#[test]
fn default_loadfile_replaces_with_no_options() {
    let l = LoadFile::default();
    assert_eq!(l.url, "");
    assert_eq!(l.flags, "replace");
    assert_eq!(l.index, None);
    assert!(l.options.is_empty());
}

#[test]
fn loadfile_frame_leaves_out_absent_fields() {
    let mut l = LoadFile::default();
    l.url = "v.mp4".to_string();
    assert_eq!(
        encode_command(&MpvCommand::LoadFile(l)),
        "{\"command\":{\"name\":\"loadfile\",\"url\":\"v.mp4\",\"flags\":\"replace\"}}\n"
    );
}

#[test]
fn loadfile_frame_with_index_and_options() {
    let mut l = LoadFile::default();
    l.url = "https://host/a,b.mkv".to_string();
    l.flags = "append".to_string();
    l.index = Some(-3);
    l.options = vec![("sub-file".to_string(), "c,d.srt".to_string())];
    assert_eq!(
        encode_command(&MpvCommand::LoadFile(l)),
        "{\"command\":{\"name\":\"loadfile\",\"url\":\"https://host/a,b.mkv\",\"flags\":\"append\",\"index\":-3,\"options\":\"sub-file=%7%c,d.srt\"}}\n"
    );
}

#[test]
fn mpv_loadfile_builds_the_frame() {
    let mpv = Mpv { socket: "/tmp/mpv.sock".to_string() };
    let mut l = LoadFile::default();
    l.url = "v.mp4".to_string();
    l.index = Some(12);
    assert_eq!(
        mpv.loadfile(l),
        "{\"command\":{\"name\":\"loadfile\",\"url\":\"v.mp4\",\"flags\":\"replace\",\"index\":12}}\n"
    );
}

#[test]
fn strings_are_escaped_as_json() {
    let mut l = LoadFile::default();
    l.url = "C:\\songs\\\"best\".mp4".to_string();
    assert_eq!(
        encode_command(&MpvCommand::LoadFile(l)),
        "{\"command\":{\"name\":\"loadfile\",\"url\":\"C:\\\\songs\\\\\\\"best\\\".mp4\",\"flags\":\"replace\"}}\n"
    );
    let c = MpvCommand::Run { name: "show-text".to_string(), args: vec!["a\nb".to_string()] };
    assert_eq!(encode_command(&c), "{\"command\":[\"show-text\",\"a\\nb\"]}\n");
}

#[test]
fn run_command_frames() {
    let quit = MpvCommand::Run { name: "quit".to_string(), args: vec![] };
    assert_eq!(encode_command(&quit), "{\"command\":[\"quit\"]}\n");
    let add = MpvCommand::Run {
        name: "audio-add".to_string(),
        args: vec!["i.mp3".to_string(), "select".to_string()],
    };
    assert_eq!(encode_command(&add), "{\"command\":[\"audio-add\",\"i.mp3\",\"select\"]}\n");
}

#[test]
fn observe_property_frame() {
    let c = MpvCommand::ObserveProperty { id: 42, property: "eof-reached".to_string() };
    assert_eq!(encode_command(&c), "{\"command\":[\"observe_property\",42,\"eof-reached\"]}\n");
    assert_eq!(subscription_frame(), "{\"command\":[\"observe_property\",1,\"idle-active\"]}\n");
}

#[test]
fn every_frame_is_one_line() {
    let mut l = LoadFile::default();
    l.url = "line\nbreak.mp4".to_string();
    l.options = vec![("force-media-title".to_string(), "two\nlines".to_string())];
    let frames = [
        encode_command(&MpvCommand::LoadFile(l)),
        encode_command(&MpvCommand::Run { name: "a\nb".to_string(), args: vec!["\r\n".to_string()] }),
        subscription_frame(),
    ];
    for f in frames.iter() {
        assert!(f.ends_with('\n'));
        assert_eq!(f.matches('\n').count(), 1);
    }
}
