//! Commands of mpv's JSON IPC protocol, each sent as one line of the form
//! `{"command":...}` followed by a newline.

use vstd::prelude::*;

use crate::options::{decimal, encode_options, encode_options_spec, options_view};

verus! {

/// The JSON string literal that stands for `s`: quotes and escapes included.
pub uninterp spec fn json_quoted(s: Seq<char>) -> Seq<char>;

/// Relies on `serde_json::to_string` applied to a `str`: it returns the JSON
/// string literal for `s`, between double quotes, with every character below
/// U+0020 escaped. Writing a `str` into memory cannot fail, so the error arm is
/// never taken.
#[verifier::external_body]
fn json_string(s: &str) -> (r: String)
    ensures
        r@ == json_quoted(s@),
        r@.len() >= 2,
        r@[0] == '"',
        r@.last() == '"',
        forall|i: int| 0 <= i < r@.len() ==> (r@[i] as u32) >= 0x20,
{
    match serde_json::to_string(s) {
        Ok(q) => q,
        Err(_) => String::new(),
    }
}

/// A `loadfile` request: open `url` in the player, with per-file options.
#[derive(Clone, Debug, PartialEq, Eq)]
pub struct LoadFile {
    pub url: String,
    /// `replace`, `append` or `append-play`.
    pub flags: String,
    /// Playlist position, used by mpv's insert flags.
    pub index: Option<i32>,
    /// Per-file options, in the order in which they are encoded.
    pub options: Vec<(String, String)>,
}

impl Default for LoadFile {
    fn default() -> (r: LoadFile)
        ensures
            r.url@ == Seq::<char>::empty(),
            r.flags@ == "replace"@,
            r.index is None,
            r.options@.len() == 0,
    {
        LoadFile {
            url: String::new(),
            flags: String::from_str("replace"),
            index: None,
            options: Vec::new(),
        }
    }
}

/// A request to the player.
#[derive(Clone, Debug, PartialEq, Eq)]
pub enum MpvCommand {
    LoadFile(LoadFile),
    /// Subscribe to changes of `property`; the player tags its events with `id`.
    ObserveProperty { id: u64, property: String },
    /// Any command given by name, with string arguments.
    Run { name: String, args: Vec<String> },
}

/// Decimal notation of a signed integer.
pub open spec fn signed_decimal(i: int) -> Seq<char> {
    if i < 0 {
        seq!['-'] + decimal((-i) as nat)
    } else {
        decimal(i as nat)
    }
}

/// The strings as character sequences.
pub open spec fn strings_view(v: Seq<String>) -> Seq<Seq<char>> {
    v.map_values(|s: String| s@)
}

/// The JSON object of a `loadfile` request. `index` and `options` are left out
/// when absent or empty.
pub open spec fn loadfile_json(
    url: Seq<char>,
    flags: Seq<char>,
    index: Option<i32>,
    opts: Seq<(Seq<char>, Seq<char>)>,
) -> Seq<char> {
    "{\"name\":\"loadfile\",\"url\":"@ + json_quoted(url) + ",\"flags\":"@ + json_quoted(flags)
        + match index {
        Some(i) => ",\"index\":"@ + signed_decimal(i as int),
        None => Seq::<char>::empty(),
    } + if opts.len() == 0 {
        Seq::<char>::empty()
    } else {
        ",\"options\":"@ + json_quoted(encode_options_spec(opts))
    } + "}"@
}

/// Each argument as a JSON string, each preceded by a comma.
pub open spec fn quoted_args(args: Seq<Seq<char>>) -> Seq<char>
    decreases args.len(),
{
    if args.len() == 0 {
        Seq::<char>::empty()
    } else {
        quoted_args(args.drop_last()) + ","@ + json_quoted(args.last())
    }
}

/// The JSON array of a command given by name.
pub open spec fn run_json(name: Seq<char>, args: Seq<Seq<char>>) -> Seq<char> {
    "["@ + json_quoted(name) + quoted_args(args) + "]"@
}

/// The JSON array of an `observe_property` request.
pub open spec fn observe_json(id: u64, property: Seq<char>) -> Seq<char> {
    "[\"observe_property\","@ + decimal(id as nat) + ","@ + json_quoted(property) + "]"@
}

/// The JSON value that follows `"command":` for `c`.
pub open spec fn command_json(c: MpvCommand) -> Seq<char> {
    match c {
        MpvCommand::LoadFile(l) => loadfile_json(l.url@, l.flags@, l.index, options_view(l.options@)),
        MpvCommand::ObserveProperty { id, property } => observe_json(id, property@),
        MpvCommand::Run { name, args } => run_json(name@, strings_view(args@)),
    }
}

/// One line of the protocol, carrying `json` as its command.
pub open spec fn frame(json: Seq<char>) -> Seq<char> {
    "{\"command\":"@ + json + "}\n"@
}

/// The line sent to the player for `c`.
pub open spec fn command_frame(c: MpvCommand) -> Seq<char> {
    frame(command_json(c))
}

/// `s` holds no line break.
pub open spec fn no_newline(s: Seq<char>) -> bool {
    forall|i: int| 0 <= i < s.len() ==> s[i] != '\n'
}

/// `s` is one line: its only line break ends it.
pub open spec fn single_line(s: Seq<char>) -> bool {
    s.len() > 0 && s.last() == '\n' && no_newline(s.drop_last())
}

proof fn lemma_no_newline_concat(a: Seq<char>, b: Seq<char>)
    requires
        no_newline(a),
        no_newline(b),
    ensures
        no_newline(a + b),
{
    assert forall|i: int| 0 <= i < (a + b).len() implies (a + b)[i] != '\n' by {
        if i < a.len() {
            assert((a + b)[i] == a[i]);
        } else {
            assert((a + b)[i] == b[i - a.len()]);
        }
    }
}

proof fn lemma_decimal_no_newline(n: nat)
    ensures
        no_newline(decimal(n)),
{
    crate::options_decode::lemma_decimal(n);
}

/// Appends `piece`, which holds no line break.
fn append_text(out: &mut String, piece: &str)
    requires
        no_newline(piece@),
    ensures
        final(out)@ == old(out)@ + piece@,
        no_newline(old(out)@) ==> no_newline(final(out)@),
{
    let ghost before = out@;
    out.append(piece);
    proof {
        if no_newline(before) {
            lemma_no_newline_concat(before, piece@);
        }
    }
}

/// Appends the JSON string literal for `s`.
fn append_quoted(out: &mut String, s: &str)
    ensures
        final(out)@ == old(out)@ + json_quoted(s@),
        no_newline(old(out)@) ==> no_newline(final(out)@),
{
    let q = json_string(s);
    assert(no_newline(q@)) by {
        assert forall|i: int| 0 <= i < q@.len() implies q@[i] != '\n' by {
            assert((q@[i] as u32) >= 0x20);
        }
    }
    append_text(out, q.as_str());
}

/// Appends the decimal notation of `n`.
fn append_decimal(out: &mut String, n: u64)
    ensures
        final(out)@ == old(out)@ + decimal(n as nat),
        no_newline(old(out)@) ==> no_newline(final(out)@),
{
    let ghost before = out@;
    crate::options::push_decimal(out, n);
    proof {
        lemma_decimal_no_newline(n as nat);
        if no_newline(before) {
            lemma_no_newline_concat(before, decimal(n as nat));
        }
    }
}

fn push_decimal_i32(out: &mut String, i: i32)
    ensures
        final(out)@ == old(out)@ + signed_decimal(i as int),
        no_newline(old(out)@) ==> no_newline(final(out)@),
{
    if i < 0 {
        proof {
            reveal_strlit("-");
        }
        append_text(out, "-");
        append_decimal(out, (-(i as i64)) as u64);
    } else {
        append_decimal(out, i as u64);
    }
    assert(out@ =~= old(out)@ + signed_decimal(i as int));
}

fn push_loadfile(out: &mut String, l: &LoadFile)
    ensures
        final(out)@ == old(out)@ + loadfile_json(l.url@, l.flags@, l.index, options_view(l.options@)),
        no_newline(old(out)@) ==> no_newline(final(out)@),
{
    proof {
        reveal_strlit("{\"name\":\"loadfile\",\"url\":");
        reveal_strlit(",\"flags\":");
        reveal_strlit(",\"index\":");
        reveal_strlit(",\"options\":");
        reveal_strlit("}");
    }
    append_text(out, "{\"name\":\"loadfile\",\"url\":");
    append_quoted(out, l.url.as_str());
    append_text(out, ",\"flags\":");
    append_quoted(out, l.flags.as_str());
    match l.index {
        Some(i) => {
            append_text(out, ",\"index\":");
            push_decimal_i32(out, i);
        },
        None => {},
    }
    if l.options.len() > 0 {
        let opts = encode_options(&l.options);
        append_text(out, ",\"options\":");
        append_quoted(out, opts.as_str());
    }
    append_text(out, "}");
    assert(out@ =~= old(out)@ + loadfile_json(l.url@, l.flags@, l.index, options_view(l.options@)));
}

fn push_args(out: &mut String, args: &Vec<String>)
    ensures
        final(out)@ == old(out)@ + quoted_args(strings_view(args@)),
        no_newline(old(out)@) ==> no_newline(final(out)@),
{
    let ghost start = out@;
    let mut i: usize = 0;
    while i < args.len()
        invariant
            0 <= i <= args.len(),
            out@ == start + quoted_args(strings_view(args@.take(i as int))),
            no_newline(start) ==> no_newline(out@),
        decreases args.len() - i,
    {
        proof {
            reveal_strlit(",");
        }
        append_text(out, ",");
        append_quoted(out, args[i].as_str());
        assert(strings_view(args@.take(i + 1)).drop_last() =~= strings_view(args@.take(i as int)));
        assert(strings_view(args@.take(i + 1)).last() == args@[i as int]@);
        assert(out@ =~= start + quoted_args(strings_view(args@.take(i + 1))));
        i += 1;
    }
    assert(args@.take(args.len() as int) =~= args@);
}

/// The line to send to the player for `command`: a single line, ended by its
/// only line break.
pub fn encode_command(command: &MpvCommand) -> (r: String)
    ensures
        r@ == command_frame(*command),
        single_line(r@),
{
    proof {
        reveal_strlit("{\"command\":");
        reveal_strlit("[\"observe_property\",");
        reveal_strlit(",");
        reveal_strlit("[");
        reveal_strlit("]");
        reveal_strlit("}\n");
    }
    let mut out = String::new();
    append_text(&mut out, "{\"command\":");
    match command {
        MpvCommand::LoadFile(l) => push_loadfile(&mut out, l),
        MpvCommand::ObserveProperty { id, property } => {
            append_text(&mut out, "[\"observe_property\",");
            append_decimal(&mut out, *id);
            append_text(&mut out, ",");
            append_quoted(&mut out, property.as_str());
            append_text(&mut out, "]");
        },
        MpvCommand::Run { name, args } => {
            append_text(&mut out, "[");
            append_quoted(&mut out, name.as_str());
            push_args(&mut out, args);
            append_text(&mut out, "]");
        },
    }
    let ghost body = out@;
    out.append("}\n");
    proof {
        assert(out@.drop_last() =~= body + seq!['}']);
        lemma_no_newline_concat(body, seq!['}']);
    }
    assert(out@ =~= command_frame(*command));
    out
}

} // verus!
