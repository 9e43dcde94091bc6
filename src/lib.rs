//! Orchestration of an mpv player process used as a karaoke playback engine:
//! the command protocol spoken over its IPC endpoint, the process arguments,
//! and the playlist state machine that decides what to load next.

mod command;
mod event;
mod laws;
mod options;
mod options_decode;
mod player;
mod session;
mod transport;
mod update;

pub use options::{
    byte_len, char_width, decimal, encode_options, encode_options_spec, option_entry,
    options_view,
};
pub use command::{
    command_frame, command_json, encode_command, frame, json_quoted, loadfile_json, observe_json,
    no_newline, quoted_args, run_json, signed_decimal, single_line, strings_view, LoadFile, MpvCommand,
};
pub use player::{
    endpoint_address, log_event, opt_view, spawn_args, spawn_args_spec, standalone_args,
    standalone_args_spec, LogEvent, OutputStream,
};
pub use session::{
    actions_view, audio_add_frame, bundle_actions, event_spec, idle_event, load_actions, loadfile_frame, quit_frame,
    run_frame1, spawn_failed_spec, submit_spec, terminated_spec, Action, ActionView, EventValue, PlayerEvent,
    Session, SessionView, TrackBundle, IDLE_OBSERVER,
};
pub use laws::{
    lemma_enqueue_while_playing, lemma_fifo, lemma_loads_only_send, lemma_no_second_spawn,
    lemma_single_spawn, lemma_quit_once, lemma_rounds_load_in_order,
    lemma_stopped_stays_silent, loads_of, play_round, play_rounds, run_events, submit_all,
};
pub use transport::{
    ConnectDecision, ConnectRetry, Mpv, PlayerError, CONNECT_RETRIES, RETRY_DELAY_MS,
};
pub use options_decode::{
    decode_options, decode_options_spec, digits_number, encodable, find_from, lemma_options_round_trip,
    parse_entries, parse_entry, parse_number, value_end,
};
pub use event::{classify_event, decode_event, event_fields_of, event_of, subscription_frame};
pub use update::{update_message_spec, update_prompt, update_title_spec};
