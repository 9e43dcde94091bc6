//! What the process supervisor computes: the player's command line and the
//! address of its IPC endpoint.

use vstd::prelude::*;

use crate::command::strings_view;

verus! {

/// Arguments of the player process: start idle and quit after the playlist,
/// stay quiet, keep no resume positions, listen on `socket`, and send `token`
/// as a bearer token with every HTTP request.
pub open spec fn spawn_args_spec(socket: Seq<char>, token: Seq<char>) -> Seq<Seq<char>> {
    seq![
        "--idle=once"@,
        "--quiet"@,
        "--save-position-on-quit=no"@,
        "--input-ipc-server="@ + socket,
        "--http-header-fields=Authorization: Bearer "@ + token,
    ]
}

/// `prefix` followed by `rest`, as a new string.
fn joined(prefix: &str, rest: &str) -> (r: String)
    ensures
        r@ == prefix@ + rest@,
{
    let mut r = String::from_str(prefix);
    r.append(rest);
    r
}

/// The player's command line for a session on `socket` authorised by `token`.
pub fn spawn_args(socket: &str, token: &str) -> (r: Vec<String>)
    ensures
        strings_view(r@) == spawn_args_spec(socket@, token@),
{
    let r = vec![
        String::from_str("--idle=once"),
        String::from_str("--quiet"),
        String::from_str("--save-position-on-quit=no"),
        joined("--input-ipc-server=", socket),
        joined("--http-header-fields=Authorization: Bearer ", token),
    ];
    assert(strings_view(r@) =~= spawn_args_spec(socket@, token@));
    r
}

} // verus!

verus! {

/// One line of the player's console output, tagged with its stream.
#[derive(Clone, Debug, PartialEq, Eq)]
pub enum LogEvent {
    Stdout(String),
    Stderr(String),
}

/// The stream a line of output came from.
#[derive(PartialEq, Eq, Structural, Clone, Copy, Debug)]
pub enum OutputStream {
    Stdout,
    Stderr,
}

impl LogEvent {
    pub open spec fn text(&self) -> Seq<char> {
        match self {
            LogEvent::Stdout(s) => s@,
            LogEvent::Stderr(s) => s@,
        }
    }

    pub open spec fn stream(&self) -> OutputStream {
        match self {
            LogEvent::Stdout(_) => OutputStream::Stdout,
            LogEvent::Stderr(_) => OutputStream::Stderr,
        }
    }
}

/// Relies on `String::from_utf8`: it succeeds exactly on valid UTF-8 and then
/// holds the decoded characters.
#[verifier::external_body]
fn string_from_utf8(bytes: Vec<u8>) -> (r: Option<String>)
    ensures
        r is Some <==> vstd::utf8::valid_utf8(bytes@),
        r matches Some(s) ==> s@ == vstd::utf8::decode_utf8(bytes@),
{
    String::from_utf8(bytes).ok()
}

/// Decodes one line of the player's output. A line that is not UTF-8 is
/// refused with `ProtocolDecodeError`; the stream goes on with the next one.
pub fn log_event(stream: OutputStream, line: Vec<u8>) -> (r: Result<
    LogEvent,
    crate::transport::PlayerError,
>)
    ensures
        r is Ok <==> vstd::utf8::valid_utf8(line@),
        r matches Ok(e) ==> e.text() == vstd::utf8::decode_utf8(line@) && e.stream() == stream,
        r matches Err(e) ==> e == crate::transport::PlayerError::ProtocolDecodeError,
{
    match string_from_utf8(line) {
        Some(s) => match stream {
            OutputStream::Stdout => Ok(LogEvent::Stdout(s)),
            OutputStream::Stderr => Ok(LogEvent::Stderr(s)),
        },
        None => Err(crate::transport::PlayerError::ProtocolDecodeError),
    }
}

/// Where the player's endpoint lives: the override when one is set, else a
/// named pipe on Windows, else the socket path in the runtime directory.
pub fn endpoint_address(override_address: Option<String>, windows: bool, runtime_path: String) -> (r:
    String)
    ensures
        r@ == match override_address {
            Some(a) => a@,
            None => if windows {
                "karaberus-mpv"@
            } else {
                runtime_path@
            },
        },
{
    match override_address {
        Some(a) => a,
        None => if windows {
            String::from_str("karaberus-mpv")
        } else {
            runtime_path
        },
    }
}

/// Command line of a one-off player with no IPC endpoint: the bearer token,
/// the subtitles if any, then the video with the instrumental as an external
/// audio file, or whichever of the two is present.
pub open spec fn standalone_args_spec(
    auth: Seq<char>,
    video: Option<Seq<char>>,
    inst: Option<Seq<char>>,
    sub: Option<Seq<char>>,
) -> Option<Seq<Seq<char>>> {
    let head = seq!["--http-header-fields=Authorization: Bearer "@ + auth] + match sub {
        Some(s) => seq!["--sub-file="@ + s],
        None => Seq::<Seq<char>>::empty(),
    };
    match (video, inst) {
        (Some(v), Some(i)) => Some(head + seq!["--external-file="@ + i, v]),
        (Some(v), None) => Some(head + seq![v]),
        (None, Some(i)) => Some(head + seq![i]),
        (None, None) => None,
    }
}

pub open spec fn opt_view(o: Option<String>) -> Option<Seq<char>> {
    match o {
        Some(s) => Some(s@),
        None => None,
    }
}

/// The one-off player's arguments, or `None` when there is nothing to play.
pub fn standalone_args(
    auth: &str,
    video: Option<String>,
    inst: Option<String>,
    sub: Option<String>,
) -> (r: Option<Vec<String>>)
    ensures
        match r {
            Some(a) => standalone_args_spec(auth@, opt_view(video), opt_view(inst), opt_view(sub))
                == Some(strings_view(a@)),
            None => standalone_args_spec(auth@, opt_view(video), opt_view(inst), opt_view(sub))
                is None,
        },
{
    if video.is_none() && inst.is_none() {
        return None;
    }
    let ghost sv = opt_view(sub);
    let mut a = vec![joined("--http-header-fields=Authorization: Bearer ", auth)];
    match sub {
        Some(s) => a.push(joined("--sub-file=", s.as_str())),
        None => {},
    }
    let ghost head = strings_view(a@);
    assert(head =~= seq!["--http-header-fields=Authorization: Bearer "@ + auth@] + match sv {
        Some(s) => seq!["--sub-file="@ + s],
        None => Seq::<Seq<char>>::empty(),
    });
    match (video, inst) {
        (Some(v), Some(i)) => {
            a.push(joined("--external-file=", i.as_str()));
            a.push(v);
        },
        (Some(v), None) => a.push(v),
        (None, Some(i)) => a.push(i),
        (None, None) => {},
    }
    assert(strings_view(a@) =~= standalone_args_spec(
        auth@,
        opt_view(video),
        opt_view(inst),
        opt_view(sub),
    ).unwrap());
    Some(a)
}

} // verus!
