//! Decimal text helpers shared by the textual grammars: digit sequences,
//! number printing and scanning over character vectors, and the round-trip
//! facts that tie the two together.

use vstd::prelude::*;
use vstd::std_specs::iter::IteratorSpec;

verus! {

broadcast use vstd::string::next_postcondition, vstd::string::axiom_spec_iter;

/// The decimal digit character for a value below ten.
pub open spec fn digit_char(d: int) -> char {
    if d == 0 { '0' }
    else if d == 1 { '1' }
    else if d == 2 { '2' }
    else if d == 3 { '3' }
    else if d == 4 { '4' }
    else if d == 5 { '5' }
    else if d == 6 { '6' }
    else if d == 7 { '7' }
    else if d == 8 { '8' }
    else { '9' }
}

pub open spec fn is_digit_char(c: char) -> bool {
    48 <= c as u32 && c as u32 <= 57
}

pub open spec fn digit_val(c: char) -> int {
    c as u32 - 48
}

/// The decimal representation of a non-negative integer, without sign.
pub open spec fn dec_digits(n: int) -> Seq<char>
    decreases n,
{
    if n <= 0 {
        seq![digit_char(0)]
    } else if n < 10 {
        seq![digit_char(n)]
    } else {
        dec_digits(n / 10).push(digit_char(n % 10))
    }
}

/// The decimal representation of a signed integer.
pub open spec fn sint_digits(n: int) -> Seq<char> {
    if n < 0 {
        seq!['-'] + dec_digits(-n)
    } else {
        dec_digits(n)
    }
}

/// The value of a sequence of decimal digit characters.
pub open spec fn digits_val(s: Seq<char>) -> int
    decreases s.len(),
{
    if s.len() == 0 {
        0
    } else {
        digits_val(s.drop_last()) * 10 + digit_val(s.last())
    }
}

pub open spec fn all_digits(s: Seq<char>) -> bool {
    forall|k: int| 0 <= k < s.len() ==> is_digit_char(#[trigger] s[k])
}

pub proof fn lemma_digit_char_val(d: int)
    requires
        0 <= d <= 9,
    ensures
        digit_val(digit_char(d)) == d,
        is_digit_char(digit_char(d)),
{
}

pub proof fn lemma_dec_digits_val(n: int)
    requires
        n >= 0,
    ensures
        digits_val(dec_digits(n)) == n,
        all_digits(dec_digits(n)),
        dec_digits(n).len() >= 1,
    decreases n,
{
    if n < 10 {
        lemma_digit_char_val(n);
        let s = dec_digits(n);
        assert(s == seq![digit_char(n)]);
        assert(s.drop_last() =~= Seq::<char>::empty());
        assert(s.last() == digit_char(n));
        assert(digits_val(s) == digits_val(s.drop_last()) * 10 + digit_val(s.last()));
        assert(digits_val(s.drop_last()) == 0);
    } else {
        lemma_dec_digits_val(n / 10);
        lemma_digit_char_val(n % 10);
        let s = dec_digits(n);
        assert(s == dec_digits(n / 10).push(digit_char(n % 10)));
        assert(s.drop_last() =~= dec_digits(n / 10));
        assert(s.last() == digit_char(n % 10));
        assert(digits_val(s) == digits_val(s.drop_last()) * 10 + digit_val(s.last()));
        assert(n / 10 * 10 + n % 10 == n) by (nonlinear_arith);
    }
}

pub proof fn lemma_digits_val_nonneg(s: Seq<char>)
    requires
        all_digits(s),
    ensures
        digits_val(s) >= 0,
    decreases s.len(),
{
    if s.len() > 0 {
        lemma_digits_val_nonneg(s.drop_last());
    }
}

/// Extending a digit string on the right can only keep or grow its value.
pub proof fn lemma_digits_val_prefix(s: Seq<char>, k: int)
    requires
        all_digits(s),
        0 <= k <= s.len(),
    ensures
        digits_val(s) >= digits_val(s.subrange(0, k)),
    decreases s.len() - k,
{
    if k < s.len() {
        let a = s.subrange(0, k);
        let b = s.subrange(0, k + 1);
        assert(b.drop_last() =~= a);
        lemma_digits_val_nonneg(a);
        lemma_digits_val_prefix(s, k + 1);
    } else {
        assert(s.subrange(0, k) =~= s);
    }
}

/// The first position at or after `i` that does not hold a decimal digit.
pub open spec fn digit_run_end(s: Seq<char>, i: int) -> int
    decreases s.len() - i,
{
    if i < 0 || i >= s.len() || !is_digit_char(s[i]) {
        i
    } else {
        digit_run_end(s, i + 1)
    }
}

pub proof fn lemma_digit_run_end_bounds(s: Seq<char>, i: int)
    requires
        0 <= i <= s.len(),
    ensures
        i <= digit_run_end(s, i) <= s.len(),
        forall|k: int| i <= k < digit_run_end(s, i) ==> is_digit_char(#[trigger] s[k]),
        digit_run_end(s, i) == s.len() || !is_digit_char(s[digit_run_end(s, i)]),
    decreases s.len() - i,
{
    if i < s.len() && is_digit_char(s[i]) {
        lemma_digit_run_end_bounds(s, i + 1);
    }
}

/// A run of digits followed by a non-digit (or the end) is the digit run.
pub proof fn lemma_digit_run_end_is(s: Seq<char>, i: int, j: int)
    requires
        0 <= i <= j <= s.len(),
        forall|k: int| i <= k < j ==> is_digit_char(#[trigger] s[k]),
        j == s.len() || !is_digit_char(s[j]),
    ensures
        digit_run_end(s, i) == j,
    decreases j - i,
{
    if i < j {
        lemma_digit_run_end_is(s, i + 1, j);
    }
}

/// Scanning at the printed digits of `n` yields `n` and stops right after
/// them, provided no further digit follows.
pub proof fn lemma_scan_at_digits(s: Seq<char>, i: int, n: int, max: int)
    requires
        0 <= i,
        0 <= n <= max,
        i + dec_digits(n).len() <= s.len(),
        s.subrange(i, i + dec_digits(n).len()) == dec_digits(n),
        i + dec_digits(n).len() == s.len() || !is_digit_char(s[i + dec_digits(n).len()]),
    ensures
        spec_scan_number(s, i, max) == Some((n, i + dec_digits(n).len())),
{
    let d = dec_digits(n);
    lemma_dec_digits_val(n);
    assert forall|k: int| i <= k < i + d.len() implies is_digit_char(#[trigger] s[k]) by {
        assert(s[k] == s.subrange(i, i + d.len())[k - i]);
    }
    lemma_digit_run_end_is(s, i, i + d.len());
}

/// The characters of a string slice, as a vector.
pub fn chars_vec(s: &str) -> (r: Vec<char>)
    ensures
        r@ == s@,
{
    let mut it = s.chars();
    let mut r: Vec<char> = Vec::new();
    loop
        invariant
            it.obeys_prophetic_iter_laws(),
            it.decrease() is Some,
            r@ + vstd::std_specs::iter::IteratorSpec::remaining(&it) == s@,
        decreases vstd::std_specs::iter::IteratorSpec::decrease(&it)->0,
    {
        let ghost prev = it;
        match it.next() {
            Some(c) => {
                r.push(c);
                proof {
                    assert(r@ + vstd::std_specs::iter::IteratorSpec::remaining(&it) =~= s@);
                }
            }
            None => {
                proof {
                    assert(r@ =~= s@);
                }
                return r;
            }
        }
    }
}

/// The numeric reading of an unsigned decimal text with an optional
/// leading plus sign, when the whole text is such a number not above
/// `max`.
pub open spec fn spec_parse_unsigned(s: Seq<char>, max: int) -> Option<int> {
    let body = if s.len() > 0 && s[0] == '+' {
        s.subrange(1, s.len() as int)
    } else {
        s
    };
    if body.len() == 0 || !all_digits(body) {
        None
    } else if digits_val(body) > max {
        None
    } else {
        Some(digits_val(body))
    }
}

/// The numeric reading of a signed decimal text: an optional single sign,
/// then digits, within the range of a 32-bit signed integer.
pub open spec fn spec_parse_i32(s: Seq<char>) -> Option<int> {
    if s.len() > 0 && s[0] == '-' {
        match spec_parse_unsigned(s.subrange(1, s.len() as int), 0x8000_0000) {
            None => None,
            Some(v) => Some(-v),
        }
    } else {
        spec_parse_unsigned(s, 0x7fff_ffff)
    }
}

/// Reads a whole text as an unsigned number at most `max`; any other text
/// is refused.
pub fn parse_unsigned(s: &str, max: u32) -> (r: Option<u32>)
    ensures
        (r matches Some(v) ==> v <= max && spec_parse_unsigned(s@, max as int) == Some(v as int)),
        (r is None ==> spec_parse_unsigned(s@, max as int) is None),
{
    let cs = chars_vec(s);
    let r = parse_unsigned_chars(&cs, 0, max);
    proof {
        assert(cs@.subrange(0, cs@.len() as int) =~= s@);
    }
    r
}

/// Reads the suffix of a character vector starting at `i` as an unsigned
/// number at most `max`.
pub fn parse_unsigned_chars(cs: &Vec<char>, i: usize, max: u32) -> (r: Option<u32>)
    requires
        i <= cs@.len(),
    ensures
        (r matches Some(v) ==> v <= max && spec_parse_unsigned(
            cs@.subrange(i as int, cs@.len() as int),
            max as int,
        ) == Some(v as int)),
        (r is None ==> spec_parse_unsigned(cs@.subrange(i as int, cs@.len() as int), max as int)
            is None),
{
    let ghost s = cs@.subrange(i as int, cs@.len() as int);
    let start: usize = if i < cs.len() && cs[i] == '+' {
        i + 1
    } else {
        i
    };
    let ghost body = if s.len() > 0 && s[0] == '+' {
        s.subrange(1, s.len() as int)
    } else {
        s
    };
    proof {
        assert(body =~= cs@.subrange(start as int, cs@.len() as int));
    }
    match scan_number(cs, start, max) {
        Some((v, j)) => {
            if j == cs.len() {
                proof {
                    let e = digit_run_end(cs@, start as int);
                    lemma_digit_run_end_bounds(cs@, start as int);
                    assert forall|k: int| 0 <= k < body.len() implies is_digit_char(
                        #[trigger] body[k],
                    ) by {
                        assert(body[k] == cs@[start + k]);
                    }
                    assert(body =~= cs@.subrange(start as int, j as int));
                }
                Some(v)
            } else {
                proof {
                    let e = digit_run_end(cs@, start as int);
                    lemma_digit_run_end_bounds(cs@, start as int);
                    assert(!is_digit_char(cs@[e]));
                    assert(body[e - start] == cs@[e]);
                    assert(!all_digits(body));
                }
                None
            }
        }
        None => {
            proof {
                let e = digit_run_end(cs@, start as int);
                lemma_digit_run_end_bounds(cs@, start as int);
                if e == start {
                    if body.len() > 0 {
                        assert(body[0] == cs@[start as int]);
                        assert(!is_digit_char(body[0]));
                    }
                } else {
                    let v = digits_val(cs@.subrange(start as int, e));
                    assert(v > max);
                    if e < cs@.len() {
                        assert(!is_digit_char(cs@[e]));
                        assert(body[e - start] == cs@[e]);
                        assert(!all_digits(body));
                    } else {
                        assert(body =~= cs@.subrange(start as int, e));
                    }
                }
            }
            None
        }
    }
}

/// Relies on String::push, whose documentation says it appends the given
/// char onto the end of the string.
pub assume_specification[ String::push ](s: &mut String, ch: char)
    ensures
        final(s)@ == old(s)@.push(ch),
;

/// Collects characters back into a string.
pub fn chars_to_string(v: &Vec<char>) -> (r: String)
    ensures
        r@ == v@,
{
    let mut r = String::new();
    let mut i: usize = 0;
    while i < v.len()
        invariant
            i <= v@.len(),
            r@ == v@.subrange(0, i as int),
        decreases v@.len() - i,
    {
        r.push(v[i]);
        proof {
            assert(v@.subrange(0, i + 1) =~= v@.subrange(0, i as int).push(v@[i as int]));
        }
        i = i + 1;
    }
    proof {
        assert(v@.subrange(0, v@.len() as int) =~= v@);
    }
    r
}

/// Reads a whole text as a signed 32-bit number; any other text is
/// refused.
pub fn parse_i32_text(s: &str) -> (r: Option<i32>)
    ensures
        (r matches Some(v) ==> spec_parse_i32(s@) == Some(v as int)),
        (r is None ==> spec_parse_i32(s@) is None),
{
    let cs = chars_vec(s);
    parse_i32_chars(&cs)
}

/// Reads a whole character vector as a signed 32-bit number.
pub fn parse_i32_chars(cs: &Vec<char>) -> (r: Option<i32>)
    ensures
        (r matches Some(v) ==> spec_parse_i32(cs@) == Some(v as int)),
        (r is None ==> spec_parse_i32(cs@) is None),
{
    if cs.len() > 0 && cs[0] == '-' {
        proof {
            assert(cs@.subrange(1, cs@.len() as int) =~= cs@.subrange(1, cs@.len() as int));
        }
        match parse_unsigned_chars(&cs, 1, 0x8000_0000) {
            None => None,
            Some(v) => {
                if v == 0x8000_0000 {
                    Some(i32::MIN)
                } else {
                    Some(-(v as i32))
                }
            }
        }
    } else {
        proof {
            assert(cs@.subrange(0, cs@.len() as int) =~= cs@);
        }
        match parse_unsigned_chars(&cs, 0, 0x7fff_ffff) {
            None => None,
            Some(v) => Some(v as i32),
        }
    }
}

/// The first comma at or after `i`, or the end of the text.
pub open spec fn comma_pos(s: Seq<char>, i: int) -> int
    decreases s.len() - i,
{
    if i < 0 || i >= s.len() || s[i] == ',' {
        i
    } else {
        comma_pos(s, i + 1)
    }
}

pub proof fn lemma_comma_pos(s: Seq<char>, i: int)
    requires
        0 <= i <= s.len(),
    ensures
        i <= comma_pos(s, i) <= s.len(),
        forall|k: int| i <= k < comma_pos(s, i) ==> s[k] != ',',
        comma_pos(s, i) == s.len() || s[comma_pos(s, i)] == ',',
    decreases s.len() - i,
{
    if i < s.len() && s[i] != ',' {
        lemma_comma_pos(s, i + 1);
    }
}

/// The comma-separated fields of the text from position `i` on. An empty
/// text is one empty field.
pub open spec fn spec_csv_fields(s: Seq<char>, i: int) -> Seq<Seq<char>>
    decreases s.len() - i,
    when 0 <= i <= s.len()
    via spec_csv_fields_dec
{
    let j = comma_pos(s, i);
    if j >= s.len() {
        seq![s.subrange(i, s.len() as int)]
    } else {
        seq![s.subrange(i, j)] + spec_csv_fields(s, j + 1)
    }
}

#[via_fn]
proof fn spec_csv_fields_dec(s: Seq<char>, i: int) {
    lemma_comma_pos(s, i);
}

/// Splits a text at commas.
pub fn csv_fields(s: &str) -> (r: Vec<Vec<char>>)
    ensures
        r@.map_values(|f: Vec<char>| f@) == spec_csv_fields(s@, 0),
{
    let cs = chars_vec(s);
    let ghost n = cs@.len() as int;
    let mut r: Vec<Vec<char>> = Vec::new();
    let mut i: usize = 0;
    loop
        invariant
            0 <= i <= cs@.len(),
            cs@ == s@,
            r@.map_values(|f: Vec<char>| f@) + spec_csv_fields(cs@, i as int) == spec_csv_fields(
                cs@,
                0,
            ),
        decreases cs@.len() - i + 1,
    {
        proof {
            lemma_comma_pos(cs@, i as int);
        }
        let mut j: usize = i;
        while j < cs.len() && cs[j] != ','
            invariant
                i <= j <= cs@.len(),
                j <= comma_pos(cs@, i as int),
                comma_pos(cs@, i as int) <= cs@.len(),
                comma_pos(cs@, i as int) == cs@.len() || cs@[comma_pos(cs@, i as int)] == ',',
                forall|k: int| i <= k < comma_pos(cs@, i as int) ==> cs@[k] != ',',
            decreases cs@.len() - j,
        {
            proof {
                if j == comma_pos(cs@, i as int) {
                    assert(false);
                }
            }
            j = j + 1;
        }
        proof {
            if j < comma_pos(cs@, i as int) {
                assert(cs@[j as int] != ',');
            }
            assert(j == comma_pos(cs@, i as int));
        }
        let mut field: Vec<char> = Vec::new();
        let mut k: usize = i;
        while k < j
            invariant
                i <= k <= j <= cs@.len(),
                field@ == cs@.subrange(i as int, k as int),
            decreases j - k,
        {
            field.push(cs[k]);
            proof {
                assert(cs@.subrange(i as int, k + 1) =~= cs@.subrange(i as int, k as int).push(
                    cs@[k as int],
                ));
            }
            k = k + 1;
        }
        let ghost old_r = r@;
        r.push(field);
        proof {
            assert(r@.map_values(|f: Vec<char>| f@) =~= old_r.map_values(|f: Vec<char>| f@).push(
                cs@.subrange(i as int, j as int),
            ));
        }
        if j >= cs.len() {
            proof {
                assert(r@.map_values(|f: Vec<char>| f@) =~= spec_csv_fields(cs@, 0));
            }
            return r;
        }
        proof {
            assert(spec_csv_fields(cs@, i as int) == seq![cs@.subrange(i as int, j as int)]
                + spec_csv_fields(cs@, j + 1));
            assert(r@.map_values(|f: Vec<char>| f@) + spec_csv_fields(cs@, j + 1)
                =~= old_r.map_values(|f: Vec<char>| f@) + spec_csv_fields(cs@, i as int));
        }
        i = j + 1;
    }
}

/// Appends one decimal digit to a string.
pub fn append_digit(s: &mut String, d: u8)
    requires
        d < 10,
    ensures
        final(s)@ == old(s)@ + seq![digit_char(d as int)],
{
    let t: &str = match d {
        0 => "0",
        1 => "1",
        2 => "2",
        3 => "3",
        4 => "4",
        5 => "5",
        6 => "6",
        7 => "7",
        8 => "8",
        _ => "9",
    };
    proof {
        reveal_strlit("0");
        reveal_strlit("1");
        reveal_strlit("2");
        reveal_strlit("3");
        reveal_strlit("4");
        reveal_strlit("5");
        reveal_strlit("6");
        reveal_strlit("7");
        reveal_strlit("8");
        reveal_strlit("9");
        assert(t@ =~= seq![digit_char(d as int)]);
    }
    s.append(t);
}

/// Appends the decimal text of a non-negative value to a string.
pub fn append_u32(s: &mut String, x: u32)
    ensures
        final(s)@ == old(s)@ + dec_digits(x as int),
    decreases x,
{
    if x >= 10 {
        append_u32(s, x / 10);
        append_digit(s, (x % 10) as u8);
        proof {
            assert(s@ =~= old(s)@ + dec_digits(x as int));
        }
    } else {
        append_digit(s, x as u8);
    }
}

/// Appends the decimal text of a wide non-negative value to a string.
pub fn append_u64(s: &mut String, x: u64)
    ensures
        final(s)@ == old(s)@ + dec_digits(x as int),
    decreases x,
{
    if x >= 10 {
        append_u64(s, x / 10);
        append_digit(s, (x % 10) as u8);
        proof {
            assert(s@ =~= old(s)@ + dec_digits(x as int));
        }
    } else {
        append_digit(s, x as u8);
    }
}

/// Appends the decimal text of a wide signed value to a string.
pub fn append_i64(s: &mut String, x: i64)
    ensures
        final(s)@ == old(s)@ + sint_digits(x as int),
{
    if x < 0 {
        proof {
            reveal_strlit("-");
            assert("-"@ =~= seq!['-']);
        }
        s.append("-");
        let m: u64 = if x == i64::MIN {
            0x8000_0000_0000_0000u64
        } else {
            (-x) as u64
        };
        append_u64(s, m);
        proof {
            assert(s@ =~= old(s)@ + sint_digits(x as int));
        }
    } else {
        append_u64(s, x as u64);
    }
}

/// Appends the decimal text of a signed value to a string.
pub fn append_i32(s: &mut String, x: i32)
    ensures
        final(s)@ == old(s)@ + sint_digits(x as int),
{
    if x < 0 {
        proof {
            reveal_strlit("-");
            assert("-"@ =~= seq!['-']);
        }
        s.append("-");
        let m: u32 = if x == i32::MIN { 0x8000_0000u32 } else { (-x) as u32 };
        append_u32(s, m);
        proof {
            assert(s@ =~= old(s)@ + sint_digits(x as int));
        }
    } else {
        append_u32(s, x as u32);
    }
}

/// The outcome of scanning an unsigned decimal number at position `i`:
/// the value of the longest digit run and the position after it, or
/// nothing when the run is empty or the value exceeds `max`.
pub open spec fn spec_scan_number(s: Seq<char>, i: int, max: int) -> Option<(int, int)> {
    let j = digit_run_end(s, i);
    let v = digits_val(s.subrange(i, j));
    if j == i || v > max {
        None
    } else {
        Some((v, j))
    }
}

/// Scans an unsigned decimal number, refusing values above `max`.
pub fn scan_number(s: &Vec<char>, i: usize, max: u32) -> (r: Option<(u32, usize)>)
    requires
        i <= s@.len(),
    ensures
        (r matches Some((v, j)) ==> i < j <= s@.len() && v <= max && spec_scan_number(
            s@,
            i as int,
            max as int,
        ) == Some((v as int, j as int))),
        (r is None ==> spec_scan_number(s@, i as int, max as int) is None),
{
    proof {
        lemma_digit_run_end_bounds(s@, i as int);
    }
    let ghost e = digit_run_end(s@, i as int);
    let mut j: usize = i;
    let mut acc: u64 = 0;
    loop
        invariant
            i <= j <= s@.len(),
            j <= e <= s@.len(),
            i as int <= e,
            e == digit_run_end(s@, i as int),
            forall|k: int| i <= k < e ==> is_digit_char(#[trigger] s@[k]),
            e == s@.len() || !is_digit_char(s@[e]),
            acc == digits_val(s@.subrange(i as int, j as int)),
            acc <= max,
        ensures
            i <= j <= s@.len(),
            j == e,
            acc == digits_val(s@.subrange(i as int, j as int)),
            acc <= max,
        decreases s@.len() - j,
    {
        if j >= s.len() {
            proof {
                lemma_digit_run_end_is(s@, i as int, j as int);
            }
            break;
        }
        let c = s[j];
        let u = c as u32;
        if !(48 <= u && u <= 57) {
            proof {
                assert(!is_digit_char(s@[j as int]));
                lemma_digit_run_end_is(s@, i as int, j as int);
            }
            break;
        }
        proof {
            assert(is_digit_char(s@[j as int]));
            if j == e {
                assert(false);
            }
            assert(j < e);
        }
        let d = (u - 48) as u64;
        let acc2: u64 = acc * 10 + d;
        proof {
            assert(s@.subrange(i as int, j + 1 as int).drop_last() =~= s@.subrange(
                i as int,
                j as int,
            ));
        }
        if acc2 > max as u64 {
            proof {
                let run = s@.subrange(i as int, e);
                assert(run.subrange(0, j + 1 - i) =~= s@.subrange(i as int, j + 1));
                lemma_digits_val_prefix(run, j + 1 - i);
            }
            return None;
        }
        acc = acc2;
        j = j + 1;
    }
    if j == i {
        None
    } else {
        Some((acc as u32, j))
    }
}

} // verus!
