//! The HTTP `Range` header of the local video file server: `u64` parsing as
//! `str::parse::<u64>` does it, and the byte range a header asks for.
use vstd::prelude::*;
use crate::text::{
    chars_of, decimal, digit_char, find_char, find_in, is_white_space, lemma_find_char, trim_end_ws,
    trim_range, trim_start_ws, trim_ws,
};

verus! {

/// Whether `c` is an ASCII decimal digit.
pub open spec fn is_digit(c: char) -> bool {
    48 <= (c as u32) <= 57
}

/// The value of an ASCII decimal digit.
pub open spec fn digit_value(c: char) -> nat {
    ((c as u32) - 48) as nat
}

/// The value of a string of decimal digits, most significant first.
pub open spec fn digits_value(s: Seq<char>) -> nat
    decreases s.len(),
{
    if s.len() == 0 {
        0
    } else {
        digits_value(s.drop_last()) * 10 + digit_value(s.last())
    }
}

/// The digits of an unsigned number: an optional leading `+` is dropped.
pub open spec fn unsigned_digits(s: Seq<char>) -> Seq<char> {
    if s.len() > 0 && s[0] == '+' {
        s.drop_first()
    } else {
        s
    }
}

/// What `s.parse::<u64>()` gives: `Some` exactly for an optional `+`
/// followed by one or more ASCII digits whose value fits in a `u64`.
pub open spec fn parse_u64(s: Seq<char>) -> Option<u64> {
    let d = unsigned_digits(s);
    if d.len() == 0 || !(forall|i: int| 0 <= i < d.len() ==> is_digit(d[i])) || digits_value(d)
        > u64::MAX {
        None
    } else {
        Some(digits_value(d) as u64)
    }
}

/// The smaller of two values.
pub open spec fn min_u64(a: u64, b: u64) -> u64 {
    if a <= b {
        a
    } else {
        b
    }
}

/// The inclusive byte range `(start, end)` that the `Range` header line `header`
/// asks of a file of `file_size` bytes.
///
/// The part after the first `=` is trimmed and split at its first `-`; the
/// number before it is the start (0 where it does not parse), the trimmed
/// number after it the end (the last byte where it is missing or does not
/// parse). Both are clamped to the last byte. A header without `=`, or
/// without `-` after it, asks for the whole file.
pub open spec fn spec_parse_range(header: Seq<char>, file_size: u64) -> (u64, u64)
    recommends
        file_size > 0,
{
    let last = (file_size - 1) as u64;
    match find_char(header, '=') {
        None => (0, last),
        Some(eq) => {
            let range_spec = trim_ws(header.skip(eq + 1));
            match find_char(range_spec, '-') {
                None => (0, last),
                Some(dash) => {
                    let start = match parse_u64(range_spec.take(dash)) {
                        Some(v) => v,
                        None => 0,
                    };
                    let end = if dash + 1 < range_spec.len() {
                        match parse_u64(trim_ws(range_spec.skip(dash + 1))) {
                            Some(v) => v,
                            None => last,
                        }
                    } else {
                        last
                    };
                    (min_u64(start, last), min_u64(end, last))
                },
            }
        },
    }
}

/// The decimal rendering of a number is a non-empty string of digits with
/// that value.
pub proof fn lemma_decimal_digits(n: nat)
    ensures
        decimal(n).len() >= 1,
        forall|i: int| 0 <= i < decimal(n).len() ==> is_digit(#[trigger] decimal(n)[i]),
        digits_value(decimal(n)) == n,
    decreases n,
{
    let d = digit_char(n % 10);
    assert(d as u32 == (n % 10) + 48);
    if n >= 10 {
        lemma_decimal_digits(n / 10);
        let s = decimal(n / 10);
        assert(decimal(n) == s.push(d));
        assert(decimal(n).drop_last() =~= s);
        assert(decimal(n).last() == d);
        assert(digit_value(d) == n % 10);
        assert(digits_value(decimal(n)) == digits_value(s) * 10 + digit_value(d));
        assert(n == (n / 10) * 10 + n % 10);
        assert forall|i: int| 0 <= i < decimal(n).len() implies is_digit(#[trigger] decimal(n)[i]) by {
            if i < s.len() {
                assert(decimal(n)[i] == s[i]);
            }
        }
    } else {
        assert(decimal(n) == seq![d]);
        assert(decimal(n).drop_last() =~= Seq::<char>::empty());
        assert(decimal(n).last() == d);
        assert(digit_value(d) == n % 10);
        assert(digits_value(decimal(n)) == digits_value(Seq::<char>::empty()) * 10 + digit_value(d));
    }
}

/// Parsing the decimal rendering of a `u64` gives it back.
pub proof fn lemma_parse_decimal(n: u64)
    ensures
        parse_u64(decimal(n as nat)) == Some(n),
        !is_white_space(decimal(n as nat)[0]),
        !is_white_space(decimal(n as nat).last()),
        forall|i: int| 0 <= i < decimal(n as nat).len() ==> decimal(n as nat)[i] != '-',
{
    lemma_decimal_digits(n as nat);
    let s = decimal(n as nat);
    assert(is_digit(s[0]));
    assert(unsigned_digits(s) == s);
    assert(is_digit(s.last()));
    assert forall|i: int| 0 <= i < s.len() implies s[i] != '-' by {
        assert(is_digit(s[i]));
    }
}

/// `find_char` of a concatenation: where the first part holds the
/// character, its position there.
proof fn lemma_find_char_concat(a: Seq<char>, b: Seq<char>, c: char)
    ensures
        find_char(a, c) matches Some(i) ==> find_char(a + b, c) == Some(i),
        find_char(a, c) is None ==> find_char(a + b, c) == match find_char(b, c) {
            Some(j) => Some(a.len() + j),
            None => None::<int>,
        },
    decreases a.len(),
{
    if a.len() > 0 {
        assert((a + b).drop_first() =~= a.drop_first() + b);
        assert((a + b)[0] == a[0]);
        lemma_find_char_concat(a.drop_first(), b, c);
    } else {
        assert(a + b =~= b);
    }
}

/// A string that starts and ends with other characters than white space
/// is its own trim.
proof fn lemma_trim_ws_unchanged(s: Seq<char>)
    requires
        s.len() > 0,
        !is_white_space(s[0]),
        !is_white_space(s.last()),
    ensures
        trim_ws(s) == s,
{
    assert(trim_start_ws(s) == s);
    assert(trim_end_ws(s) == s);
}

/// The header line a client sends for bytes `start` to `end`:
/// `Range: bytes=START-END`.
pub open spec fn range_header(start: u64, end: u64) -> Seq<char> {
    "Range: bytes="@ + decimal(start as nat) + "-"@ + decimal(end as nat)
}

/// In a `Range: bytes=` line, the first `=` ends the prefix.
proof fn lemma_range_prefix(rest: Seq<char>)
    ensures
        find_char("Range: bytes="@ + rest, '=') == Some(12int),
        ("Range: bytes="@ + rest).skip(13) == rest,
{
    reveal_strlit("Range: bytes=");
    let p = "Range: bytes="@;
    assert(p.len() == 13);
    assert(p[12] == '=');
    assert forall|j: int| 0 <= j < 12 implies p[j] != '=' by {}
    lemma_find_char(p, '=');
    match find_char(p, '=') {
        Some(k) => {
            if k < 12 {
                assert(p[k] != '=');
            }
            if k > 12 {
                assert(p[12] != '=');
            }
        },
        None => {
            assert(p[12] != '=');
        },
    }
    lemma_find_char_concat(p, rest, '=');
    assert((p + rest).skip(13) =~= rest);
}

/// `START-END` is trimmed to itself and split at the end of `START`.
proof fn lemma_range_spec_split(start: u64, end: u64)
    ensures
        ({
            let da = decimal(start as nat);
            let db = decimal(end as nat);
            let rest = da + "-"@ + db;
            &&& trim_ws(rest) == rest
            &&& find_char(rest, '-') == Some(da.len() as int)
            &&& rest.take(da.len() as int) == da
            &&& rest.skip(da.len() as int + 1) == db
            &&& da.len() + 1 < rest.len()
        }),
{
    reveal_strlit("-");
    let da = decimal(start as nat);
    let db = decimal(end as nat);
    let rest = da + "-"@ + db;
    lemma_parse_decimal(start);
    lemma_parse_decimal(end);
    lemma_decimal_digits(start as nat);
    lemma_decimal_digits(end as nat);
    assert("-"@ =~= seq!['-']);
    assert(rest[0] == da[0]);
    assert(rest.last() == db.last());
    lemma_trim_ws_unchanged(rest);
    lemma_find_char(da, '-');
    assert(find_char(da, '-') is None) by {
        match find_char(da, '-') {
            Some(k) => {
                assert(da[k] != '-');
            },
            None => {},
        }
    }
    assert(find_char("-"@ + db, '-') == Some(0int));
    lemma_find_char_concat(da, "-"@ + db, '-');
    assert(da + ("-"@ + db) =~= rest);
    assert(rest.take(da.len() as int) =~= da);
    assert(rest.skip(da.len() as int + 1) =~= db);
}

/// A request for bytes `start` to `end` of the file, inside the file, is
/// read as exactly that range.
pub proof fn law_parse_range_round_trip(start: u64, end: u64, file_size: u64)
    requires
        start <= end < file_size,
    ensures
        spec_parse_range(range_header(start, end), file_size) == (start, end),
{
    let da = decimal(start as nat);
    let db = decimal(end as nat);
    let rest = da + "-"@ + db;
    assert(range_header(start, end) =~= "Range: bytes="@ + rest);
    lemma_range_prefix(rest);
    lemma_range_spec_split(start, end);
    lemma_parse_decimal(start);
    lemma_parse_decimal(end);
    lemma_decimal_digits(end as nat);
    assert(trim_ws(db) == db) by {
        lemma_trim_ws_unchanged(db);
    }
}

/// A longer digit string never has a smaller value.
proof fn lemma_digits_value_prefix(s: Seq<char>, i: int, j: int)
    requires
        0 <= i <= j <= s.len(),
    ensures
        digits_value(s.take(i)) <= digits_value(s.take(j)),
    decreases j - i,
{
    if i < j {
        lemma_digits_value_prefix(s, i, j - 1);
        assert(s.take(j).drop_last() =~= s.take(j - 1));
    }
}

/// Parses `v[from..to]` as `str::parse::<u64>` does.
pub fn parse_u64_in(v: &Vec<char>, from: usize, to: usize) -> (r: Option<u64>)
    requires
        from <= to <= v@.len(),
    ensures
        r == parse_u64(v@.subrange(from as int, to as int)),
{
    let ghost s = v@.subrange(from as int, to as int);
    let mut i = from;
    if i < to && v[i] == '+' {
        i = i + 1;
    }
    let ghost d = v@.subrange(i as int, to as int);
    assert(d =~= unsigned_digits(s));
    if i == to {
        return None;
    }
    let start = i;
    let mut value: u64 = 0;
    while i < to
        invariant
            from <= start <= i <= to <= v@.len(),
            d == v@.subrange(start as int, to as int),
            s == v@.subrange(from as int, to as int),
            d == unsigned_digits(s),
            d.len() > 0,
            forall|k: int| 0 <= k < i - start ==> is_digit(d[k]),
            value as nat == digits_value(d.take(i - start)),
        decreases to - i,
    {
        let c = v[i];
        let cu = c as u32;
        if !(48 <= cu && cu <= 57) {
            assert(!is_digit(d[i - start]));
            return None;
        }
        let dv = (cu - 48) as u64;
        assert(d.take(i - start + 1).drop_last() =~= d.take(i - start));
        assert(d.take(i - start + 1).last() == c);
        if value > (u64::MAX - dv) / 10 {
            proof {
                assert(digits_value(d.take(i - start + 1)) == value * 10 + dv);
                assert(value * 10 + dv > u64::MAX) by (nonlinear_arith)
                    requires
                        value > (u64::MAX - dv) / 10,
                        dv <= 9,
                ;
                lemma_digits_value_prefix(d, i - start + 1, d.len() as int);
                assert(d.take(d.len() as int) =~= d);
            }
            return None;
        }
        assert(value * 10 + dv <= u64::MAX) by (nonlinear_arith)
            requires
                value <= (u64::MAX - dv) / 10,
                dv <= 9,
        ;
        value = value * 10 + dv;
        i = i + 1;
    }
    assert(d.take(d.len() as int) =~= d);
    Some(value)
}

/// The inclusive byte range that the `Range` header line `header` asks of a
/// file of `file_size` bytes (see `spec_parse_range`).
pub fn parse_range(header: &str, file_size: u64) -> (r: (u64, u64))
    requires
        file_size > 0,
    ensures
        r == spec_parse_range(header@, file_size),
        r.0 < file_size,
        r.1 < file_size,
{
    let v = chars_of(header);
    let last = file_size - 1;
    let n = v.len();
    assert(v@.subrange(0, n as int) =~= header@);
    let eq = match find_in(&v, 0, n, '=') {
        None => {
            return (0, last);
        },
        Some(eq) => eq,
    };
    proof {
        lemma_find_char(header@, '=');
    }
    let (a, b) = trim_range(&v, eq + 1, n);
    assert(v@.subrange(eq + 1, n as int) =~= header@.skip(eq + 1));
    let ghost range_spec = v@.subrange(a as int, b as int);
    let dash = match find_in(&v, a, b, '-') {
        None => {
            return (0, last);
        },
        Some(dash) => dash,
    };
    proof {
        lemma_find_char(range_spec, '-');
        assert(range_spec =~= trim_ws(header@.skip(eq + 1)));
    }
    assert(v@.subrange(a as int, dash as int) =~= range_spec.take(dash - a));
    let start = match parse_u64_in(&v, a, dash) {
        Some(x) => x,
        None => 0,
    };
    let end = if dash + 1 < b {
        let (c, e) = trim_range(&v, dash + 1, b);
        assert(v@.subrange(dash + 1, b as int) =~= range_spec.skip(dash - a + 1));
        match parse_u64_in(&v, c, e) {
            Some(x) => x,
            None => last,
        }
    } else {
        last
    };
    let s = if start <= last {
        start
    } else {
        last
    };
    let e = if end <= last {
        end
    } else {
        last
    };
    (s, e)
}

} // verus!
