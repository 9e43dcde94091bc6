use karaberus_player::{decode_options, encode_options};

fn pairs(items: &[(&str, &str)]) -> Vec<(String, String)> {
    items.iter().map(|(k, v)| (k.to_string(), v.to_string())).collect()
}

#[test]
fn encode_prefixes_each_value_with_its_length() {
    let opts = pairs(&[("audio-file", "a,b.mp3"), ("sub-file", "c.srt")]);
    assert_eq!(encode_options(&opts), "audio-file=%7%a,b.mp3,sub-file=%5%c.srt");
}

#[test]
fn round_trip_keeps_commas_inside_values() {
    let opts = pairs(&[("audio-file", "a,b.mp3"), ("sub-file", "c.srt")]);
    let encoded = encode_options(&opts);
    assert_eq!(decode_options(&encoded), Some(opts));
}

#[test]
fn round_trip_of_awkward_values() {
    let opts = pairs(&[("a", ""), ("b", "%1%,x=y"), ("c", "10,20,30")]);
    let encoded = encode_options(&opts);
    assert_eq!(encoded, "a=%0%,b=%7%%1%,x=y,c=%8%10,20,30");
    assert_eq!(decode_options(&encoded), Some(opts));
}

#[test]
fn length_prefix_counts_utf8_bytes() {
    let opts = pairs(&[("force-media-title", "café ♪")]);
    let encoded = encode_options(&opts);
    assert_eq!(encoded, "force-media-title=%9%café ♪");
    assert_eq!(decode_options(&encoded), Some(opts));
}

#[test]
fn empty_options_encode_to_empty_string() {
    assert_eq!(encode_options(&Vec::new()), "");
    assert_eq!(decode_options(""), Some(Vec::new()));
}

#[test]
fn single_entry_round_trip() {
    let opts = pairs(&[("aid", "1")]);
    assert_eq!(encode_options(&opts), "aid=%1%1");
    assert_eq!(decode_options("aid=%1%1"), Some(opts));
}

#[test]
fn decode_rejects_malformed_strings() {
    assert_eq!(decode_options("aid=1"), None);
    assert_eq!(decode_options("aid"), None);
    assert_eq!(decode_options("aid=%%1"), None);
    assert_eq!(decode_options("aid=%x%1"), None);
    assert_eq!(decode_options("aid=%5%ab"), None);
    assert_eq!(decode_options("aid=%1%12"), None);
    assert_eq!(decode_options("aid=%1%1,"), None);
    assert_eq!(decode_options("aid=%1%1;b=%1%2"), None);
    assert_eq!(decode_options("t=%1%é"), None);
    assert_eq!(decode_options("a=%99999999999999999999999%x"), None);
}
