use vstd::prelude::*;
use vstd::string::StringExecFns;

verus! {

/// The decimal digit character for `d`.
pub open spec fn spec_digit(d: int) -> char {
    if d == 0 {
        '0'
    } else if d == 1 {
        '1'
    } else if d == 2 {
        '2'
    } else if d == 3 {
        '3'
    } else if d == 4 {
        '4'
    } else if d == 5 {
        '5'
    } else if d == 6 {
        '6'
    } else if d == 7 {
        '7'
    } else if d == 8 {
        '8'
    } else {
        '9'
    }
}

/// The decimal text of `n`, most significant digit first, no sign and no
/// leading zeros (a single zero for zero).
pub open spec fn spec_dec(n: int) -> Seq<char>
    decreases n,
{
    if n < 10 {
        seq![spec_digit(n)]
    } else {
        spec_dec(n / 10).push(spec_digit(n % 10))
    }
}

fn digit_str(d: u64) -> (r: &'static str)
    requires
        d < 10,
    ensures
        r@ == seq![spec_digit(d as int)],
{
    let r = match d {
        0 => "0",
        1 => "1",
        2 => "2",
        3 => "3",
        4 => "4",
        5 => "5",
        6 => "6",
        7 => "7",
        8 => "8",
        _ => "9",
    };
    proof {
        reveal_strlit("0");
        reveal_strlit("1");
        reveal_strlit("2");
        reveal_strlit("3");
        reveal_strlit("4");
        reveal_strlit("5");
        reveal_strlit("6");
        reveal_strlit("7");
        reveal_strlit("8");
        reveal_strlit("9");
    }
    r
}

/// Renders `n` in decimal.
pub fn u64_to_dec(n: u64) -> (r: String)
    ensures
        r@ == spec_dec(n as int),
    decreases n,
{
    if n < 10 {
        String::from_str(digit_str(n))
    } else {
        let mut s = u64_to_dec(n / 10);
        s.append(digit_str(n % 10));
        s
    }
}

/// The exact decimal text of `i / 25` seconds: the integer part, then a
/// fractional part of at most two digits with trailing zeros dropped.
/// `i / 25` has an exact two-digit decimal expansion because
/// `i / 25 == (4 * i) / 100`.
pub open spec fn spec_time_text(i: int) -> Seq<char> {
    let whole = i / 25;
    let frac = (i % 25) * 4;
    if frac == 0 {
        spec_dec(whole)
    } else if frac % 10 == 0 {
        spec_dec(whole) + seq!['.', spec_digit(frac / 10)]
    } else {
        spec_dec(whole) + seq!['.', spec_digit(frac / 10), spec_digit(frac % 10)]
    }
}

/// Renders the time of sample `i` under the fixed 25-samples-per-second
/// convention.
pub fn time_text(i: u32) -> (r: String)
    ensures
        r@ == spec_time_text(i as int),
{
    let whole: u64 = (i as u64) / 25;
    let frac: u64 = ((i as u64) % 25) * 4;
    let mut s = u64_to_dec(whole);
    if frac != 0 {
        s.append(".");
        s.append(digit_str(frac / 10));
        if frac % 10 != 0 {
            s.append(digit_str(frac % 10));
        }
    }
    proof {
        reveal_strlit(".");
        assert(seq!['.'] + seq![spec_digit(frac as int / 10)] == seq![
            '.',
            spec_digit(frac as int / 10),
        ]);
        assert(seq!['.'] + seq![spec_digit(frac as int / 10)] + seq![spec_digit(frac as int % 10)]
            == seq!['.', spec_digit(frac as int / 10), spec_digit(frac as int % 10)]);
    }
    s
}

/// Spaces replaced by underscores: the sanitized form of a node id.
pub open spec fn spec_sanitize(s: Seq<u8>) -> Seq<u8> {
    s.map_values(|b: u8| if b == 32 { 95u8 } else { b })
}

/// Replaces every space with an underscore.
pub fn sanitize_name(s: &Vec<u8>) -> (r: Vec<u8>)
    ensures
        r@ == spec_sanitize(s@),
{
    let n = s.len();
    let mut out: Vec<u8> = Vec::new();
    let mut i: usize = 0;
    while i < n
        invariant
            s@.len() == n,
            i <= n,
            out@.len() == i,
            forall|j: int| 0 <= j < i ==> out@[j] == spec_sanitize(s@)[j],
        decreases n - i,
    {
        let b = s[i];
        if b == 32 {
            out.push(95);
        } else {
            out.push(b);
        }
        i = i + 1;
    }
    proof {
        assert(out@ =~= spec_sanitize(s@));
    }
    out
}

/// A byte of an attribute value as it is written: a double quote becomes
/// its character reference, everything else stays.
pub open spec fn spec_esc_byte(b: u8) -> Seq<u8> {
    if b == 34 {
        seq![38u8, 113u8, 117u8, 111u8, 116u8, 59u8]
    } else {
        seq![b]
    }
}

/// An attribute value with every double quote escaped.
pub open spec fn spec_escape_attr(s: Seq<u8>) -> Seq<u8>
    decreases s.len(),
{
    if s.len() == 0 {
        Seq::empty()
    } else {
        spec_escape_attr(s.drop_last()) + spec_esc_byte(s.last())
    }
}

/// Escapes double quotes for use inside a double-quoted attribute value.
pub fn escape_attr(s: &Vec<u8>) -> (r: Vec<u8>)
    ensures
        r@ == spec_escape_attr(s@),
{
    let n = s.len();
    let mut out: Vec<u8> = Vec::new();
    let mut i: usize = 0;
    while i < n
        invariant
            s@.len() == n,
            i <= n,
            out@ == spec_escape_attr(s@.take(i as int)),
        decreases n - i,
    {
        let b = s[i];
        if b == 34 {
            out.push(38);
            out.push(113);
            out.push(117);
            out.push(111);
            out.push(116);
            out.push(59);
        } else {
            out.push(b);
        }
        proof {
            let t = s@.take(i + 1);
            assert(t.drop_last() =~= s@.take(i as int));
            assert(t.last() == s@[i as int]);
        }
        i = i + 1;
    }
    proof {
        assert(s@.take(n as int) =~= s@);
    }
    out
}

/// The text that `bytes_to_text` produces for a byte string: UTF-8
/// decoding with invalid sequences replaced, a function of the bytes
/// alone.
pub uninterp spec fn utf8_text_of(b: Seq<u8>) -> Seq<char>;

/// Relies on String::from_utf8_lossy: decodes UTF-8, replacing invalid
/// sequences with the replacement character; the result depends on the
/// bytes alone.
#[verifier::external_body]
pub fn bytes_to_text(v: &Vec<u8>) -> (r: String)
    ensures
        r@ == utf8_text_of(v@),
{
    String::from_utf8_lossy(v.as_slice()).into_owned()
}

/// Relies on chrono::Utc::now: the current time rendered as text.
/// Nothing is promised of a value that depends on the clock.
#[verifier::external_body]
pub fn current_utc_text() -> String {
    chrono::Utc::now().to_string()
}

} // verus!
