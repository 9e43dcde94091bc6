//! The `loadfile` option string: `key=%N%value` entries joined by commas, where
//! `N` is the length of `value` in UTF-8 bytes. The length prefix lets a value
//! hold commas or any other delimiter.

use vstd::prelude::*;

verus! {

/// Number of bytes that `c` takes in UTF-8.
pub open spec fn char_width(c: char) -> nat {
    let u = c as u32;
    if u <= 0x7F {
        1
    } else if u <= 0x7FF {
        2
    } else if u <= 0xFFFF {
        3
    } else {
        4
    }
}

/// Number of bytes that `s` takes in UTF-8.
pub open spec fn byte_len(s: Seq<char>) -> nat
    decreases s.len(),
{
    if s.len() == 0 {
        0
    } else {
        byte_len(s.drop_last()) + char_width(s.last())
    }
}

pub open spec fn digit_char(d: nat) -> char {
    seq!['0', '1', '2', '3', '4', '5', '6', '7', '8', '9'][d as int]
}

/// Decimal notation of `n`, most significant digit first, without leading zeros.
pub open spec fn decimal(n: nat) -> Seq<char>
    decreases n,
{
    if n < 10 {
        seq![digit_char(n)]
    } else {
        decimal(n / 10).push(digit_char(n % 10))
    }
}

/// One entry of the option string.
pub open spec fn option_entry(key: Seq<char>, value: Seq<char>) -> Seq<char> {
    key + seq!['=', '%'] + decimal(byte_len(value)) + seq!['%'] + value
}

/// The option string of `opts`, entries in order, separated by commas.
pub open spec fn encode_options_spec(opts: Seq<(Seq<char>, Seq<char>)>) -> Seq<char>
    decreases opts.len(),
{
    if opts.len() == 0 {
        seq![]
    } else if opts.len() == 1 {
        option_entry(opts[0].0, opts[0].1)
    } else {
        encode_options_spec(opts.drop_last()) + seq![','] + option_entry(
            opts.last().0,
            opts.last().1,
        )
    }
}

/// The options as pairs of character sequences.
pub open spec fn options_view(opts: Seq<(String, String)>) -> Seq<(Seq<char>, Seq<char>)> {
    opts.map_values(|p: (String, String)| (p.0@, p.1@))
}

proof fn lemma_byte_len_concat(a: Seq<char>, b: Seq<char>)
    ensures
        byte_len(a + b) == byte_len(a) + byte_len(b),
    decreases b.len(),
{
    if b.len() == 0 {
        assert(a + b =~= a);
    } else {
        lemma_byte_len_concat(a, b.drop_last());
        assert((a + b).drop_last() =~= a + b.drop_last());
    }
}

proof fn lemma_width_of_scalar(c: char)
    ensures
        vstd::utf8::encode_scalar(c as u32).len() == char_width(c),
{
    vstd::utf8::char_is_scalar(c);
}

/// The UTF-8 length that `str::len` reports is `byte_len`.
proof fn lemma_byte_len_utf8(s: Seq<char>)
    ensures
        vstd::utf8::encode_utf8(s).len() == byte_len(s),
    decreases s.len(),
{
    if s.len() > 0 {
        lemma_byte_len_utf8(s.drop_first());
        lemma_width_of_scalar(s[0]);
        lemma_byte_len_concat(seq![s[0]], s.drop_first());
        assert(seq![s[0]] + s.drop_first() =~= s);
        assert(seq![s[0]].drop_last() =~= Seq::<char>::empty());
        assert(byte_len(Seq::<char>::empty()) == 0);
        assert(byte_len(seq![s[0]]) == char_width(s[0]));
        assert(vstd::utf8::encode_utf8(s) == vstd::utf8::encode_scalar(s[0] as u32)
            + vstd::utf8::encode_utf8(s.drop_first()));
    }
}

fn digit_str(d: usize) -> (r: &'static str)
    requires
        d < 10,
    ensures
        r@ == seq![digit_char(d as nat)],
{
    proof {
        reveal_strlit("0");
        reveal_strlit("1");
        reveal_strlit("2");
        reveal_strlit("3");
        reveal_strlit("4");
        reveal_strlit("5");
        reveal_strlit("6");
        reveal_strlit("7");
        reveal_strlit("8");
        reveal_strlit("9");
    }
    let r = match d {
        0 => "0",
        1 => "1",
        2 => "2",
        3 => "3",
        4 => "4",
        5 => "5",
        6 => "6",
        7 => "7",
        8 => "8",
        _ => "9",
    };
    assert(r@ =~= seq![digit_char(d as nat)]);
    r
}

/// Appends the decimal notation of `n` to `out`.
pub(crate) fn push_decimal(out: &mut String, n: u64)
    ensures
        final(out)@ == old(out)@ + decimal(n as nat),
    decreases n,
{
    if n >= 10 {
        push_decimal(out, n / 10);
    }
    out.append(digit_str((n % 10) as usize));
    assert(final(out)@ =~= old(out)@ + decimal(n as nat));
}

/// Appends one `key=%N%value` entry to `out`.
fn push_entry(out: &mut String, key: &str, value: &str)
    ensures
        final(out)@ == old(out)@ + option_entry(key@, value@),
{
    proof {
        reveal_strlit("=%");
        reveal_strlit("%");
        lemma_byte_len_utf8(value@);
    }
    out.append(key);
    out.append("=%");
    push_decimal(out, value.as_bytes().len() as u64);
    out.append("%");
    out.append(value);
    assert(out@ =~= old(out)@ + option_entry(key@, value@));
}

/// Encodes `options` in order as a length-prefixed option string.
pub fn encode_options(options: &Vec<(String, String)>) -> (r: String)
    ensures
        r@ == encode_options_spec(options_view(options@)),
{
    let mut out = String::new();
    let mut i: usize = 0;
    while i < options.len()
        invariant
            0 <= i <= options.len(),
            out@ == encode_options_spec(options_view(options@.take(i as int))),
        decreases options.len() - i,
    {
        let ghost before = out@;
        proof {
            reveal_strlit(",");
        }
        if i > 0 {
            out.append(",");
        }
        push_entry(&mut out, options[i].0.as_str(), options[i].1.as_str());
        proof {
            let v = options_view(options@.take(i + 1));
            assert(v.drop_last() =~= options_view(options@.take(i as int)));
            assert(v.last() == (options@[i as int].0@, options@[i as int].1@));
            if i == 0 {
                assert(out@ =~= encode_options_spec(v));
            } else {
                assert(out@ =~= before + seq![','] + option_entry(v.last().0, v.last().1));
                assert(out@ =~= encode_options_spec(v));
            }
        }
        i += 1;
    }
    assert(options@.take(options.len() as int) =~= options@);
    out
}

} // verus!
