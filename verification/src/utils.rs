//! Small text utilities: stripping the quotes around a JSON string and the
//! decimal names under which log records are stored.
use vstd::prelude::*;
use vstd::utf8::*;

verus! {

broadcast use {encode_utf8_valid_utf8, encode_utf8_decode_utf8};

/// The UTF-8 bytes of a string slice.
pub open spec fn bytes_of(s: &str) -> Seq<u8> {
    encode_utf8(s@)
}

/// A byte slice of `s` can be cut at byte offsets 1 and `len - 1`: the
/// string holds at least two bytes and neither offset falls inside the
/// encoding of a character (both the first and the last character take one
/// byte).
pub open spec fn trimmable(s: &str) -> bool {
    let b = bytes_of(s);
    &&& b.len() >= 2
    &&& is_char_boundary(b, 1)
    &&& is_char_boundary(b, b.len() - 1)
}

/// A valid UTF-8 sequence of one byte decodes to one character.
proof fn lemma_decode_single_byte(b: Seq<u8>)
    requires
        b.len() == 1,
        valid_utf8(b),
    ensures
        decode_utf8(b).len() == 1,
{
    reveal_with_fuel(decode_utf8, 2);
    assert(pop_first_scalar(b).len() == 0);
}

/// Removes the first and the last byte of `string`: `"\"sled\""` becomes
/// `"sled"`. This is how the text of a JSON string value loses its quotes.
pub fn trim_string(string: &mut str) -> (trimmed: &str)
    requires
        trimmable(old(string)),
    ensures
        bytes_of(trimmed) == bytes_of(old(string)).subrange(1, bytes_of(old(string)).len() - 1),
        trimmed@ == old(string)@.subrange(1, old(string)@.len() - 1),
        final(string)@ == old(string)@,
{
    let ghost s = string@;
    let ghost b = encode_utf8(s);
    let ghost n = b.len() as int;
    let len = string.as_bytes().len();
    let (_, rest) = string.split_at(1);
    let ghost r = b.subrange(1, n);
    proof {
        valid_utf8_split(b, 1);
        is_char_boundary_iff_not_is_continuation_byte(b, n - 1);
        assert(r[n - 2] == b[n - 1]);
        if n - 2 < r.len() {
            is_char_boundary_iff_not_is_continuation_byte(r, n - 2);
        }
        is_char_boundary_start_end_of_seq(r);
        assert(encode_utf8(rest@) == r);
    }
    let (mid, _) = rest.split_at(len - 2);
    proof {
        let m = r.subrange(0, n - 2);
        assert(encode_utf8(mid@) == m);
        assert(m == b.subrange(1, n - 1));
        decode_utf8_split(b, 1);
        decode_utf8_split(r, n - 2);
        valid_utf8_split(r, n - 2);
        assert(b.subrange(1, n as int) == r);
        lemma_decode_single_byte(b.subrange(0, 1));
        assert(r.subrange(n - 2, r.len() as int).len() == 1);
        lemma_decode_single_byte(r.subrange(n - 2, r.len() as int));
        assert(decode_utf8(b) == s);
        assert(decode_utf8(m) == mid@);
        assert(s =~= decode_utf8(b.subrange(0, 1)) + (mid@ + decode_utf8(r.subrange(n - 2, r.len() as int))));
        assert(mid@ =~= s.subrange(1, s.len() - 1));
    }
    mid
}

proof fn lemma_encode_concat(a: Seq<char>, b: Seq<char>)
    ensures
        encode_utf8(a + b) == encode_utf8(a) + encode_utf8(b),
    decreases a.len(),
{
    if a.len() == 0 {
        assert(a + b =~= b);
        assert(encode_utf8(a) + encode_utf8(b) =~= encode_utf8(b));
    } else {
        assert((a + b).drop_first() =~= a.drop_first() + b);
        assert((a + b)[0] == a[0]);
        lemma_encode_concat(a.drop_first(), b);
        assert(encode_utf8(a + b) =~= encode_utf8(a) + encode_utf8(b));
    }
}

/// Trimming undoes JSON quoting: a string whose text is a quote, then
/// `t`, then a quote, can be trimmed, and trimming it gives `t`.
pub proof fn law_trim_removes_quotes(s: &str, t: Seq<char>)
    requires
        s@ == seq!['"'] + t + seq!['"'],
    ensures
        trimmable(s),
        s@.subrange(1, s@.len() - 1) == t,
{
    let q = seq!['"'];
    lemma_encode_concat(q, t);
    lemma_encode_concat(q + t, q);
    assert(is_ascii_chars(q));
    is_ascii_chars_encode_utf8(q);
    let eq = encode_utf8(q);
    let et = encode_utf8(t);
    let b = encode_utf8(s@);
    assert(b == eq + et + eq);
    let n = b.len() as int;
    assert(n == et.len() + 2);
    assert(b[0] == 34u8);
    assert(b[n - 1] == 34u8);
    assert(!is_continuation_byte(b[1])) by {
        if t.len() == 0 {
            assert(et.len() == 0);
            assert(b[1] == 34u8);
        } else {
            encode_utf8_first_scalar(t);
            assert(b[1] == et[0]);
        }
    }
    is_char_boundary_iff_not_is_continuation_byte(b, 1);
    is_char_boundary_iff_not_is_continuation_byte(b, n - 1);
    assert(s@.subrange(1, s@.len() - 1) =~= t);
}

/// Compares two string slices, as `==` on `&str` does.
pub fn str_eq(a: &str, b: &str) -> (same: bool)
    ensures
        same == (a@ == b@),
{
    let x = a.as_bytes();
    let y = b.as_bytes();
    proof {
        assert(decode_utf8(encode_utf8(a@)) == a@);
        assert(decode_utf8(encode_utf8(b@)) == b@);
    }
    if x.len() != y.len() {
        return false;
    }
    let mut i: usize = 0;
    while i < x.len()
        invariant
            i <= x.len(),
            x.len() == y.len(),
            x@ == encode_utf8(a@),
            y@ == encode_utf8(b@),
            forall|j: int| 0 <= j < i ==> x@[j] == y@[j],
        decreases x.len() - i,
    {
        if x[i] != y[i] {
            return false;
        }
        i = i + 1;
    }
    assert(x@ =~= y@);
    true
}

/// The ten decimal digits, in order of their value.
pub open spec fn digit_chars() -> Seq<char> {
    seq!['0', '1', '2', '3', '4', '5', '6', '7', '8', '9']
}

/// `c` is one of the ASCII digits `0` to `9`.
pub open spec fn is_digit(c: char) -> bool {
    '0' <= c <= '9'
}

/// All characters of `s` are ASCII digits.
pub open spec fn all_digits(s: Seq<char>) -> bool {
    forall|i: int| 0 <= i < s.len() ==> is_digit(#[trigger] s[i])
}

/// The number that the digit string `s` denotes in base ten (leading zeros
/// allowed).
pub open spec fn digits_value(s: Seq<char>) -> nat
    decreases s.len(),
{
    if s.len() == 0 {
        0
    } else {
        digits_value(s.drop_last()) * 10 + (s.last() as nat - '0' as nat) as nat
    }
}

/// What `str::parse::<u64>` gives for the text `s`: an optional leading
/// `+`, then one or more ASCII digits whose value fits in a `u64`.
pub open spec fn parse_u64_spec(s: Seq<char>) -> Option<u64> {
    let d = if s.len() > 0 && s[0] == '+' {
        s.drop_first()
    } else {
        s
    };
    if d.len() > 0 && all_digits(d) && digits_value(d) <= u64::MAX {
        Some(digits_value(d) as u64)
    } else {
        None
    }
}

/// The decimal text of `n`, without sign or leading zeros.
pub open spec fn decimal(n: nat) -> Seq<char>
    decreases n,
{
    if n < 10 {
        seq![digit_chars()[n as int]]
    } else {
        decimal(n / 10).push(digit_chars()[(n % 10) as int])
    }
}

proof fn lemma_digits_value_prefix_grows(s: Seq<char>, i: int, j: int)
    requires
        0 <= i <= j <= s.len(),
        all_digits(s.subrange(0, j)),
    ensures
        digits_value(s.subrange(0, i)) <= digits_value(s.subrange(0, j)),
    decreases j - i,
{
    if i < j {
        let pj = s.subrange(0, j);
        assert(pj.drop_last() =~= s.subrange(0, j - 1));
        assert(is_digit(pj[j - 1]));
        assert(all_digits(s.subrange(0, j - 1))) by {
            assert forall|k: int| 0 <= k < j - 1 implies is_digit(#[trigger] s.subrange(0, j - 1)[k]) by {
                assert(s.subrange(0, j - 1)[k] == pj[k]);
            }
        }
        lemma_digits_value_prefix_grows(s, i, j - 1);
    }
}

proof fn lemma_digit_char(d: nat)
    requires
        d < 10,
    ensures
        is_digit(digit_chars()[d as int]),
        digit_chars()[d as int] as nat - '0' as nat == d,
{
    if d == 0 { assert(digit_chars()[0] == '0'); }
    else if d == 1 { assert(digit_chars()[1] == '1'); }
    else if d == 2 { assert(digit_chars()[2] == '2'); }
    else if d == 3 { assert(digit_chars()[3] == '3'); }
    else if d == 4 { assert(digit_chars()[4] == '4'); }
    else if d == 5 { assert(digit_chars()[5] == '5'); }
    else if d == 6 { assert(digit_chars()[6] == '6'); }
    else if d == 7 { assert(digit_chars()[7] == '7'); }
    else if d == 8 { assert(digit_chars()[8] == '8'); }
    else { assert(digit_chars()[9] == '9'); }
}

/// The decimal text of `n` is a digit string without a sign whose value is
/// `n`.
pub proof fn lemma_decimal_digits(n: nat)
    ensures
        decimal(n).len() > 0,
        all_digits(decimal(n)),
        digits_value(decimal(n)) == n,
        decimal(n)[0] != '+',
    decreases n,
{
    if n < 10 {
        lemma_digit_char(n);
        let d = decimal(n);
        assert(d.drop_last() =~= Seq::<char>::empty());
        assert(digits_value(Seq::<char>::empty()) == 0);
        assert(digits_value(d) == n);
    } else {
        lemma_digit_char(n % 10);
        lemma_decimal_digits(n / 10);
        let d = decimal(n);
        assert(d.drop_last() =~= decimal(n / 10));
        assert(digits_value(d) == digits_value(decimal(n / 10)) * 10 + n % 10);
        assert forall|i: int| 0 <= i < d.len() implies is_digit(#[trigger] d[i]) by {
            if i < d.len() - 1 {
                assert(d[i] == decimal(n / 10)[i]);
            }
        }
    }
}

/// Parsing the decimal text of a `u64` gives that number back.
pub proof fn lemma_parse_decimal(n: u64)
    ensures
        parse_u64_spec(decimal(n as nat)) == Some(n),
{
    lemma_decimal_digits(n as nat);
}

/// Parses `s` as `str::parse::<u64>` does: `Some` exactly when `s` is an
/// optional `+` followed by one or more ASCII digits whose value fits in a
/// `u64`.
pub fn parse_u64(s: &str) -> (r: Option<u64>)
    ensures
        r == parse_u64_spec(s@),
{
    let len = s.unicode_len();
    let mut start: usize = 0;
    if len > 0 && s.get_char(0) == '+' {
        start = 1;
    }
    let ghost d = s@.subrange(start as int, len as int);
    assert(d =~= (if s@.len() > 0 && s@[0] == '+' { s@.drop_first() } else { s@ }));
    if start >= len {
        assert(d.len() == 0);
        return None;
    }
    let mut i: usize = start;
    let mut acc: u64 = 0;
    while i < len
        invariant
            start <= i <= len,
            len == s@.len(),
            d == s@.subrange(start as int, len as int),
            d == (if s@.len() > 0 && s@[0] == '+' { s@.drop_first() } else { s@ }),
            all_digits(d.subrange(0, i - start)),
            acc == digits_value(d.subrange(0, i - start)),
        decreases len - i,
    {
        let c = s.get_char(i);
        let ghost k = i - start;
        assert(d[k] == c);
        if c < '0' || c > '9' {
            assert(!all_digits(d));
            return None;
        }
        assert(d.subrange(0, k + 1).drop_last() =~= d.subrange(0, k));
        assert(all_digits(d.subrange(0, k + 1))) by {
            assert forall|j: int| 0 <= j < k + 1 implies is_digit(#[trigger] d.subrange(0, k + 1)[j]) by {
                if j < k {
                    assert(d.subrange(0, k + 1)[j] == d.subrange(0, k)[j]);
                }
            }
        }
        let digit = (c as u32 - '0' as u32) as u64;
        assert(digit == c as nat - '0' as nat);
        assert(digits_value(d.subrange(0, k + 1)) == acc * 10 + digit);
        let next = match acc.checked_mul(10) {
            Some(m) => m.checked_add(digit),
            None => None,
        };
        match next {
            Some(v) => {
                acc = v;
            },
            None => {
                proof {
                    if all_digits(d) {
                        assert(d.subrange(0, d.len() as int) =~= d);
                        lemma_digits_value_prefix_grows(d, k + 1, d.len() as int);
                    }
                }
                return None;
            },
        }
        i = i + 1;
    }
    assert(d.subrange(0, i - start) =~= d);
    Some(acc)
}

/// The one-character text of the digit `d`.
fn digit_text(d: u64) -> (t: &'static str)
    requires
        d < 10,
    ensures
        t@ == seq![digit_chars()[d as int]],
{
    proof {
        reveal_strlit("0");
        reveal_strlit("1");
        reveal_strlit("2");
        reveal_strlit("3");
        reveal_strlit("4");
        reveal_strlit("5");
        reveal_strlit("6");
        reveal_strlit("7");
        reveal_strlit("8");
        reveal_strlit("9");
    }
    match d {
        0 => "0",
        1 => "1",
        2 => "2",
        3 => "3",
        4 => "4",
        5 => "5",
        6 => "6",
        7 => "7",
        8 => "8",
        _ => "9",
    }
}

/// The decimal text of `n`, as `n.to_string()` writes it.
pub fn u64_to_decimal(n: u64) -> (text: String)
    ensures
        text@ == decimal(n as nat),
    decreases n,
{
    if n < 10 {
        String::from_str(digit_text(n))
    } else {
        let mut text = u64_to_decimal(n / 10);
        text.append(digit_text(n % 10));
        text
    }
}

} // verus!
