//! Reading an option string back by position: each value is taken by its
//! length prefix, so commas inside values do not split them.

use vstd::prelude::*;

use crate::options::{byte_len, char_width, decimal, digit_char, encode_options_spec, option_entry};

verus! {

pub open spec fn is_digit(c: char) -> bool {
    48 <= (c as u32) <= 57
}

pub open spec fn digit_value(c: char) -> nat {
    if is_digit(c) {
        ((c as u32) - 48) as nat
    } else {
        0
    }
}

/// The number written by the digits of `d`.
pub open spec fn digits_number(d: Seq<char>) -> nat
    decreases d.len(),
{
    if d.len() == 0 {
        0
    } else {
        digits_number(d.drop_last()) * 10 + digit_value(d.last())
    }
}

/// The length prefix `d`: one or more digits, at most `usize::MAX`.
pub open spec fn parse_number(d: Seq<char>) -> Option<nat> {
    if d.len() > 0 && (forall|i: int| 0 <= i < d.len() ==> is_digit(#[trigger] d[i]))
        && digits_number(d) <= usize::MAX {
        Some(digits_number(d))
    } else {
        None
    }
}

/// Position of the first `c` in `s` at or after `p`, or `s.len()` if none.
pub open spec fn find_from(s: Seq<char>, p: int, c: char) -> int
    decreases s.len() - p,
{
    if p < 0 || p >= s.len() {
        s.len() as int
    } else if s[p] == c {
        p
    } else {
        find_from(s, p + 1, c)
    }
}

/// End of the value that starts at `j` and takes `n` bytes, or -1 when the
/// characters from `j` do not add up to exactly `n` bytes.
pub open spec fn value_end(s: Seq<char>, j: int, n: nat) -> int
    decreases s.len() - j, n,
{
    if n == 0 {
        j
    } else if j < 0 || j >= s.len() || char_width(s[j]) > n {
        -1
    } else {
        value_end(s, j + 1, (n - char_width(s[j])) as nat)
    }
}

/// The entry that starts at `p`: its key, its value and where it ends.
pub open spec fn parse_entry(s: Seq<char>, p: int) -> Option<(Seq<char>, Seq<char>, int)> {
    let e = find_from(s, p, '=');
    if p < 0 || e + 1 >= s.len() || s[e + 1] != '%' {
        None
    } else {
        let q = find_from(s, e + 2, '%');
        if q >= s.len() {
            None
        } else {
            match parse_number(s.subrange(e + 2, q)) {
                None => None,
                Some(n) => {
                    let j = value_end(s, q + 1, n);
                    if j < 0 {
                        None
                    } else {
                        Some((s.subrange(p, e), s.subrange(q + 1, j), j))
                    }
                },
            }
        }
    }
}

/// The entries from `p` on, appended to `acc`.
pub open spec fn parse_entries(s: Seq<char>, p: int, acc: Seq<(Seq<char>, Seq<char>)>) -> Option<
    Seq<(Seq<char>, Seq<char>)>,
>
    decreases s.len() - p,
{
    match parse_entry(s, p) {
        None => None,
        Some((k, v, j)) => {
            let acc2 = acc.push((k, v));
            if j <= p || j > s.len() {
                None
            } else if j == s.len() {
                Some(acc2)
            } else if s[j] == ',' {
                parse_entries(s, j + 1, acc2)
            } else {
                None
            }
        },
    }
}

/// The options that `s` encodes, if it is a well-formed option string.
pub open spec fn decode_options_spec(s: Seq<char>) -> Option<Seq<(Seq<char>, Seq<char>)>> {
    if s.len() == 0 {
        Some(Seq::<(Seq<char>, Seq<char>)>::empty())
    } else {
        parse_entries(s, 0, Seq::<(Seq<char>, Seq<char>)>::empty())
    }
}

/// Options that the encoding can carry: no key holds `=`, and each value's
/// length in bytes fits a `usize`.
pub open spec fn encodable(o: Seq<(Seq<char>, Seq<char>)>) -> bool {
    forall|i: int|
        0 <= i < o.len() ==> !(#[trigger] o[i]).0.contains('=') && byte_len(o[i].1)
            <= usize::MAX
}

proof fn lemma_find_from(s: Seq<char>, p: int, i: int, c: char)
    requires
        0 <= p <= i < s.len(),
        s[i] == c,
        forall|k: int| p <= k < i ==> s[k] != c,
    ensures
        find_from(s, p, c) == i,
    decreases i - p,
{
    if p < i {
        lemma_find_from(s, p + 1, i, c);
    }
}

proof fn lemma_digit_char(d: nat)
    requires
        d < 10,
    ensures
        is_digit(digit_char(d)),
        digit_value(digit_char(d)) == d,
{
    reveal_with_fuel(digit_char, 1);
    assert(seq!['0', '1', '2', '3', '4', '5', '6', '7', '8', '9'][d as int] as u32 == 48 + d);
}

pub(crate) proof fn lemma_decimal(n: nat)
    ensures
        decimal(n).len() > 0,
        forall|i: int| 0 <= i < decimal(n).len() ==> is_digit(#[trigger] decimal(n)[i]),
        digits_number(decimal(n)) == n,
    decreases n,
{
    if n < 10 {
        lemma_digit_char(n);
        assert(decimal(n).drop_last() =~= Seq::<char>::empty());
        assert(digits_number(Seq::<char>::empty()) == 0);
    } else {
        lemma_decimal(n / 10);
        lemma_digit_char(n % 10);
        assert(decimal(n).drop_last() =~= decimal(n / 10));
        assert((n / 10) * 10 + n % 10 == n);
    }
}

proof fn lemma_byte_len_first(w: Seq<char>)
    requires
        w.len() > 0,
    ensures
        byte_len(w) == char_width(w[0]) + byte_len(w.drop_first()),
        char_width(w[0]) >= 1,
    decreases w.len(),
{
    if w.len() > 1 {
        lemma_byte_len_first(w.drop_last());
        assert(w.drop_last().drop_first() =~= w.drop_first().drop_last());
    } else {
        assert(w.drop_first() =~= Seq::<char>::empty());
        assert(w.drop_last() =~= Seq::<char>::empty());
    }
}

proof fn lemma_value_end(s: Seq<char>, j: int, w: Seq<char>)
    requires
        0 <= j,
        j + w.len() <= s.len(),
        s.subrange(j, j + w.len()) == w,
    ensures
        value_end(s, j, byte_len(w)) == j + w.len(),
    decreases w.len(),
{
    if w.len() > 0 {
        lemma_byte_len_first(w);
        assert(s[j] == w[0]);
        assert(s.subrange(j + 1, j + 1 + w.drop_first().len()) =~= w.drop_first());
        lemma_value_end(s, j + 1, w.drop_first());
    }
}

/// An entry written after any text `x` is read back from where it starts.
proof fn lemma_parse_entry(x: Seq<char>, k: Seq<char>, v: Seq<char>, y: Seq<char>)
    requires
        !k.contains('='),
        byte_len(v) <= usize::MAX,
    ensures
        parse_entry(x + option_entry(k, v) + y, x.len() as int) == Some(
            (k, v, (x.len() + option_entry(k, v).len()) as int),
        ),
{
    let s = x + option_entry(k, v) + y;
    let p = x.len() as int;
    let d = decimal(byte_len(v));
    lemma_decimal(byte_len(v));
    let e = p + k.len();
    assert forall|i: int| p <= i < e implies s[i] != '=' by {
        assert(s[i] == k[i - p]);
    }
    assert(s[e] == '=');
    lemma_find_from(s, p, e, '=');
    assert(s[e + 1] == '%');
    let q = e + 2 + d.len();
    assert forall|i: int| e + 2 <= i < q implies s[i] != '%' by {
        assert(s[i] == d[i - e - 2]);
        assert(is_digit(d[i - e - 2]));
    }
    assert(s[q] == '%');
    lemma_find_from(s, e + 2, q, '%');
    assert(s.subrange(e + 2, q) =~= d);
    assert(s.subrange(q + 1, q + 1 + v.len()) =~= v);
    lemma_value_end(s, q + 1, v);
    assert(s.subrange(p, e) =~= k);
}

/// The option string of a list that starts with `x`.
proof fn lemma_encode_front(x: (Seq<char>, Seq<char>), t: Seq<(Seq<char>, Seq<char>)>)
    ensures
        encode_options_spec(seq![x] + t) == option_entry(x.0, x.1) + if t.len() == 0 {
            Seq::<char>::empty()
        } else {
            seq![','] + encode_options_spec(t)
        },
    decreases t.len(),
{
    let o = seq![x] + t;
    if t.len() == 0 {
        assert(o =~= seq![x]);
        assert(option_entry(x.0, x.1) + Seq::<char>::empty() =~= option_entry(x.0, x.1));
    } else {
        assert(o.drop_last() =~= seq![x] + t.drop_last());
        lemma_encode_front(x, t.drop_last());
        assert(o.last() == t.last());
        if t.len() == 1 {
            assert(t.drop_last() =~= Seq::<(Seq<char>, Seq<char>)>::empty());
        }
        assert(encode_options_spec(o) =~= option_entry(x.0, x.1) + (seq![',']
            + encode_options_spec(t)));
    }
}

proof fn lemma_parse_encoded(
    x: Seq<char>,
    o: Seq<(Seq<char>, Seq<char>)>,
    acc: Seq<(Seq<char>, Seq<char>)>,
)
    requires
        o.len() > 0,
        encodable(o),
    ensures
        parse_entries(x + encode_options_spec(o), x.len() as int, acc) == Some(acc + o),
    decreases o.len(),
{
    let t = o.drop_first();
    assert(o =~= seq![o[0]] + t);
    lemma_encode_front(o[0], t);
    let ent = option_entry(o[0].0, o[0].1);
    let r = if t.len() == 0 {
        Seq::<char>::empty()
    } else {
        seq![','] + encode_options_spec(t)
    };
    let s = x + encode_options_spec(o);
    assert(s =~= x + ent + r);
    assert(!o[0].0.contains('=') && byte_len(o[0].1) <= usize::MAX);
    lemma_parse_entry(x, o[0].0, o[0].1, r);
    let j = x.len() + ent.len();
    if t.len() == 0 {
        assert(acc.push((o[0].0, o[0].1)) =~= acc + o);
    } else {
        assert(s[j as int] == ',');
        assert(encodable(t)) by {
            assert forall|i: int| 0 <= i < t.len() implies !(#[trigger] t[i]).0.contains('=')
                && byte_len(t[i].1) <= usize::MAX by {
                assert(t[i] == o[i + 1]);
            }
        }
        assert(s =~= (x + ent + seq![',']) + encode_options_spec(t));
        lemma_parse_encoded(x + ent + seq![','], t, acc.push(o[0]));
        assert(acc.push(o[0]) + t =~= acc + o);
    }
}

/// Decoding an option string by position gives back the options it was made
/// from, values holding commas included.
pub proof fn lemma_options_round_trip(o: Seq<(Seq<char>, Seq<char>)>)
    requires
        encodable(o),
    ensures
        decode_options_spec(encode_options_spec(o)) == Some(o),
{
    if o.len() == 0 {
        assert(o =~= Seq::<(Seq<char>, Seq<char>)>::empty());
    } else {
        lemma_parse_encoded(Seq::<char>::empty(), o, Seq::<(Seq<char>, Seq<char>)>::empty());
        assert(Seq::<char>::empty() + encode_options_spec(o) =~= encode_options_spec(o));
        assert(Seq::<(Seq<char>, Seq<char>)>::empty() + o =~= o);
        assert(encode_options_spec(o).len() > 0) by {
            lemma_encode_front(o[0], o.drop_first());
            assert(o =~= seq![o[0]] + o.drop_first());
        }
    }
}

fn char_width_of(c: char) -> (r: usize)
    ensures
        r == char_width(c),
{
    let u = c as u32;
    if u <= 0x7F {
        1
    } else if u <= 0x7FF {
        2
    } else if u <= 0xFFFF {
        3
    } else {
        4
    }
}

/// Position of the first `c` at or after `p`, or the length.
fn find_char(s: &str, len: usize, p: usize, c: char) -> (r: usize)
    requires
        len == s@.len(),
        p <= len,
    ensures
        r == find_from(s@, p as int, c),
        p <= r <= len,
{
    let mut j = p;
    while j < len && s.get_char(j) != c
        invariant
            len == s@.len(),
            p <= j <= len,
            find_from(s@, p as int, c) == find_from(s@, j as int, c),
        decreases len - j,
    {
        j = j + 1;
    }
    j
}

/// End of the value of `n` bytes that starts at `j`, if the characters add
/// up to exactly `n` bytes.
fn scan_value(s: &str, len: usize, j: usize, n: usize) -> (r: Option<usize>)
    requires
        len == s@.len(),
        j <= len,
    ensures
        match r {
            Some(e) => e as int == value_end(s@, j as int, n as nat) && j <= e <= len,
            None => value_end(s@, j as int, n as nat) < 0,
        },
{
    let mut k = j;
    let mut left = n;
    while left > 0
        invariant
            len == s@.len(),
            j <= k <= len,
            value_end(s@, j as int, n as nat) == value_end(s@, k as int, left as nat),
        decreases left,
    {
        if k >= len {
            return None;
        }
        let w = char_width_of(s.get_char(k));
        if w > left {
            return None;
        }
        left = left - w;
        k = k + 1;
    }
    Some(k)
}

proof fn lemma_digits_grow(d: Seq<char>, i: int)
    requires
        0 <= i <= d.len(),
    ensures
        digits_number(d.take(i)) <= digits_number(d),
    decreases d.len() - i,
{
    if i < d.len() {
        lemma_digits_grow(d, i + 1);
        assert(d.take(i + 1).drop_last() =~= d.take(i));
    } else {
        assert(d.take(i) =~= d);
    }
}

/// The length prefix written in `s` from `from` to `to`.
fn read_number(s: &str, from: usize, to: usize) -> (r: Option<usize>)
    requires
        from <= to <= s@.len(),
    ensures
        match r {
            Some(n) => parse_number(s@.subrange(from as int, to as int)) == Some(n as nat),
            None => parse_number(s@.subrange(from as int, to as int)) is None,
        },
{
    let ghost d = s@.subrange(from as int, to as int);
    if from == to {
        return None;
    }
    let mut acc: usize = 0;
    let mut i = from;
    while i < to
        invariant
            from <= i <= to <= s@.len(),
            d == s@.subrange(from as int, to as int),
            forall|k: int| 0 <= k < i - from ==> is_digit(#[trigger] d[k]),
            acc as nat == digits_number(d.take(i - from)),
        decreases to - i,
    {
        let c = s.get_char(i);
        assert(c == d[i - from]);
        let u = c as u32;
        if u < 48 || u > 57 {
            return None;
        }
        let dv = (u - 48) as usize;
        assert(d.take(i - from + 1).drop_last() =~= d.take(i - from));
        if acc > (usize::MAX - dv) / 10 {
            proof {
                lemma_digits_grow(d, i - from + 1);
            }
            return None;
        }
        acc = acc * 10 + dv;
        i = i + 1;
    }
    assert(d.take(to - from) =~= d);
    Some(acc)
}

/// The entry that starts at `p`.
fn read_entry(s: &str, len: usize, p: usize) -> (r: Option<(String, String, usize)>)
    requires
        len == s@.len(),
        p <= len,
    ensures
        match r {
            Some((k, v, j)) => parse_entry(s@, p as int) == Some((k@, v@, j as int)) && j <= len,
            None => parse_entry(s@, p as int) is None,
        },
{
    let e = find_char(s, len, p, '=');
    if e >= len || e + 1 == len || s.get_char(e + 1) != '%' {
        return None;
    }
    let q = find_char(s, len, e + 2, '%');
    if q >= len {
        return None;
    }
    match read_number(s, e + 2, q) {
        None => None,
        Some(n) => match scan_value(s, len, q + 1, n) {
            None => None,
            Some(j) => {
                let k = String::from_str(s.substring_char(p, e));
                let v = String::from_str(s.substring_char(q + 1, j));
                Some((k, v, j))
            },
        },
    }
}

/// Reads an option string back into its entries, in order; `None` when `s`
/// is not a well-formed option string.
pub fn decode_options(s: &str) -> (r: Option<Vec<(String, String)>>)
    ensures
        match r {
            Some(v) => decode_options_spec(s@) == Some(crate::options::options_view(v@)),
            None => decode_options_spec(s@) is None,
        },
{
    let len = s.unicode_len();
    let mut out: Vec<(String, String)> = Vec::new();
    if len == 0 {
        assert(crate::options::options_view(out@) =~= Seq::<(Seq<char>, Seq<char>)>::empty());
        return Some(out);
    }
    let mut p: usize = 0;
    assert(crate::options::options_view(out@) =~= Seq::<(Seq<char>, Seq<char>)>::empty());
    loop
        invariant
            len == s@.len(),
            len > 0,
            p <= len,
            decode_options_spec(s@) == parse_entries(
                s@,
                p as int,
                crate::options::options_view(out@),
            ),
        decreases len - p,
    {
        match read_entry(s, len, p) {
            None => {
                return None;
            },
            Some((k, v, j)) => {
                let ghost acc = crate::options::options_view(out@);
                out.push((k, v));
                assert(crate::options::options_view(out@) =~= acc.push((k@, v@)));
                if j <= p {
                    return None;
                } else if j == len {
                    return Some(out);
                } else if s.get_char(j) == ',' {
                    p = j + 1;
                } else {
                    return None;
                }
            },
        }
    }
}

} // verus!
