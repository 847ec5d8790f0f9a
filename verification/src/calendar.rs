//! Calendar arithmetic on `YYYY-MM-DD` day strings: the previous day of a
//! date, as the activity streak walks back through active days.
use vstd::prelude::*;
use crate::text::{chars_of, push_char};

verus! {

// ---------- splitting ----------

/// `str::split(sep)`: the pieces between separators, in order. The empty
/// string splits into one empty piece.
pub open spec fn split_on(s: Seq<char>, sep: char) -> Seq<Seq<char>>
    decreases s.len(),
{
    if s.len() == 0 {
        seq![Seq::<char>::empty()]
    } else {
        let init = split_on(s.drop_last(), sep);
        if s.last() == sep {
            init.push(Seq::<char>::empty())
        } else {
            init.update(init.len() - 1, init.last().push(s.last()))
        }
    }
}

pub proof fn lemma_split_nonempty(s: Seq<char>, sep: char)
    ensures
        split_on(s, sep).len() >= 1,
    decreases s.len(),
{
    if s.len() > 0 {
        lemma_split_nonempty(s.drop_last(), sep);
    }
}

/// No piece of a split holds the separator.
pub proof fn lemma_split_pieces_lack_sep(s: Seq<char>, sep: char)
    ensures
        forall|k: int| 0 <= k < split_on(s, sep).len() ==> !(#[trigger] split_on(s, sep)[k]).contains(sep),
    decreases s.len(),
{
    if s.len() > 0 {
        lemma_split_pieces_lack_sep(s.drop_last(), sep);
        lemma_split_nonempty(s.drop_last(), sep);
        let init = split_on(s.drop_last(), sep);
        if s.last() != sep {
            let nl = init.last().push(s.last());
            assert forall|k: int| 0 <= k < split_on(s, sep).len() implies !(#[trigger] split_on(s, sep)[k]).contains(sep) by {
                if k == init.len() - 1 {
                    if nl.contains(sep) {
                        let j = choose|j: int| 0 <= j < nl.len() && nl[j] == sep;
                        if j < nl.len() - 1 {
                            assert(init.last()[j] == sep);
                            assert(init[init.len() - 1].contains(sep));
                        }
                    }
                }
            }
        } else {
            assert forall|k: int| 0 <= k < split_on(s, sep).len() implies !(#[trigger] split_on(s, sep)[k]).contains(sep) by {
                if k < init.len() {
                    assert(split_on(s, sep)[k] == init[k]);
                } else {
                    assert(split_on(s, sep)[k] =~= Seq::<char>::empty());
                }
            }
        }
    }
}

// ---------- integer parsing ----------

pub open spec fn is_digit(c: char) -> bool {
    '0' <= c && c <= '9'
}

pub open spec fn digit_val(c: char) -> int {
    c as int - '0' as int
}

pub open spec fn all_digits(s: Seq<char>) -> bool {
    forall|i: int| 0 <= i < s.len() ==> is_digit(#[trigger] s[i])
}

/// The decimal value of a string of digits.
pub open spec fn digits_value(s: Seq<char>) -> int
    decreases s.len(),
{
    if s.len() == 0 {
        0
    } else {
        digits_value(s.drop_last()) * 10 + digit_val(s.last())
    }
}

/// `<i64 as FromStr>::from_str`: an optional sign, then at least one ASCII
/// digit, with the value in range.
pub open spec fn parse_i64(s: Seq<char>) -> Option<i64> {
    if s.len() > 0 && (s[0] == '+' || s[0] == '-') {
        let body = s.drop_first();
        if body.len() > 0 && all_digits(body) {
            let v = if s[0] == '-' {
                -digits_value(body)
            } else {
                digits_value(body)
            };
            if i64::MIN <= v <= i64::MAX {
                Some(v as i64)
            } else {
                None
            }
        } else {
            None
        }
    } else if s.len() > 0 && all_digits(s) {
        let v = digits_value(s);
        if v <= i64::MAX {
            Some(v as i64)
        } else {
            None
        }
    } else {
        None
    }
}

pub proof fn lemma_digits_value_nonneg(s: Seq<char>)
    requires
        all_digits(s),
    ensures
        digits_value(s) >= 0,
    decreases s.len(),
{
    if s.len() > 0 {
        assert(all_digits(s.drop_last()));
        lemma_digits_value_nonneg(s.drop_last());
        assert(is_digit(s[s.len() - 1]));
    }
}

/// Extending a digit string never lowers its value.
pub proof fn lemma_digits_value_prefix(s: Seq<char>, k: int)
    requires
        all_digits(s),
        0 <= k <= s.len(),
    ensures
        digits_value(s.take(k)) <= digits_value(s),
    decreases s.len(),
{
    if k < s.len() {
        assert(all_digits(s.drop_last()));
        lemma_digits_value_prefix(s.drop_last(), k);
        assert(s.drop_last().take(k) =~= s.take(k));
        lemma_digits_value_nonneg(s.drop_last());
        assert(is_digit(s[s.len() - 1]));
    } else {
        assert(s.take(k) =~= s);
    }
}

/// A piece without '-' parses to a non-negative value, if at all.
pub proof fn lemma_parse_unsigned(s: Seq<char>)
    requires
        !s.contains('-'),
    ensures
        parse_i64(s) matches Some(v) ==> v >= 0,
{
    if s.len() > 0 && s[0] == '-' {
        assert(s.contains('-'));
    }
    if s.len() > 0 && s[0] == '+' {
        if all_digits(s.drop_first()) {
            lemma_digits_value_nonneg(s.drop_first());
        }
    } else if s.len() > 0 && all_digits(s) {
        lemma_digits_value_nonneg(s);
    }
}

/// Parses `v[from..to]` as an `i64`.
fn parse_i64_range(v: &Vec<char>, from: usize, to: usize) -> (r: Option<i64>)
    requires
        from <= to <= v.len(),
    ensures
        r == parse_i64(v@.subrange(from as int, to as int)),
{
    let ghost s = v@.subrange(from as int, to as int);
    if from >= to {
        return None;
    }
    assert(s[0] == v@[from as int]);
    let signed = v[from] == '+' || v[from] == '-';
    let neg = v[from] == '-';
    let start = if signed {
        from + 1
    } else {
        from
    };
    if start == to {
        assert(s.drop_first().len() == 0);
        return None;
    }
    let ghost body = v@.subrange(start as int, to as int);
    assert(signed ==> body =~= s.drop_first());
    assert(!signed ==> body =~= s);
    let limit: u64 = if neg {
        9223372036854775808u64
    } else {
        9223372036854775807u64
    };
    assert(limit >= 9);
    let mut mag: u64 = 0;
    let mut i = start;
    assert(v@.subrange(start as int, start as int) =~= Seq::<char>::empty());
    while i < to
        invariant
            from <= start <= i <= to <= v.len(),
            body == v@.subrange(start as int, to as int),
            all_digits(v@.subrange(start as int, i as int)),
            mag as int == digits_value(v@.subrange(start as int, i as int)),
            mag <= limit,
            limit >= 9,
            signed ==> body =~= s.drop_first(),
            !signed ==> body =~= s,
            s == v@.subrange(from as int, to as int),
            neg == (s[0] == '-'),
            signed == (s[0] == '+' || s[0] == '-'),
            limit == (if neg { 9223372036854775808u64 } else { 9223372036854775807u64 }),
        decreases to - i,
    {
        let c = v[i];
        assert(body[i - start] == c);
        if !(c >= '0' && c <= '9') {
            assert(!all_digits(body));
            return None;
        }
        let d = (c as u32 - '0' as u32) as u64;
        let ghost pre = v@.subrange(start as int, i as int);
        let ghost pre1 = v@.subrange(start as int, i + 1);
        assert(pre1.drop_last() =~= pre);
        assert(all_digits(pre1));
        assert(digits_value(pre1) == mag * 10 + d);
        if mag > (limit - d) / 10 {
            assert(mag * 10 + d > limit) by (nonlinear_arith)
                requires
                    mag > (limit - d) / 10,
                    d <= 9,
                    limit >= 9,
            ;
            proof {
                if all_digits(body) {
                    assert(body.take((i + 1 - start) as int) =~= pre1);
                    lemma_digits_value_prefix(body, (i + 1 - start) as int);
                }
            }
            return None;
        }
        assert(mag * 10 + d <= limit) by (nonlinear_arith)
            requires
                mag <= (limit - d) / 10,
                d <= 9,
                limit >= 9,
        ;
        mag = mag * 10 + d;
        i = i + 1;
    }
    assert(v@.subrange(start as int, i as int) =~= body);
    if neg {
        if mag == 9223372036854775808u64 {
            Some(i64::MIN)
        } else {
            Some(-(mag as i64))
        }
    } else {
        Some(mag as i64)
    }
}

/// The values of the pieces that parse, in order (`filter_map(parse)`).
pub open spec fn parsed_values(pieces: Seq<Seq<char>>) -> Seq<i64>
    decreases pieces.len(),
{
    if pieces.len() == 0 {
        Seq::empty()
    } else {
        let rest = parsed_values(pieces.drop_last());
        match parse_i64(pieces.last()) {
            Some(x) => rest.push(x),
            None => rest,
        }
    }
}

pub proof fn lemma_parsed_values_unsigned(pieces: Seq<Seq<char>>)
    requires
        forall|k: int| 0 <= k < pieces.len() ==> !(#[trigger] pieces[k]).contains('-'),
    ensures
        forall|k: int| 0 <= k < parsed_values(pieces).len() ==> #[trigger] parsed_values(pieces)[k] >= 0,
    decreases pieces.len(),
{
    if pieces.len() > 0 {
        let init = pieces.drop_last();
        assert forall|k: int| 0 <= k < init.len() implies !(#[trigger] init[k]).contains('-') by {
            assert(init[k] == pieces[k]);
        }
        lemma_parsed_values_unsigned(init);
        assert(!pieces[pieces.len() - 1].contains('-'));
        lemma_parse_unsigned(pieces.last());
        let rest = parsed_values(init);
        assert forall|k: int| 0 <= k < parsed_values(pieces).len() implies #[trigger] parsed_values(pieces)[k] >= 0 by {
            if k < rest.len() {
                assert(parsed_values(pieces)[k] == rest[k]);
            }
        }
    }
}

pub proof fn lemma_parsed_values_push(pieces: Seq<Seq<char>>, p: Seq<char>)
    ensures
        parsed_values(pieces.push(p)) == match parse_i64(p) {
            Some(x) => parsed_values(pieces).push(x),
            None => parsed_values(pieces),
        },
{
    assert(pieces.push(p).drop_last() =~= pieces);
}

/// The numbers of `s` split on '-' (`s.split('-').filter_map(|p| p.parse().ok())`).
pub open spec fn date_numbers(s: Seq<char>) -> Seq<i64> {
    parsed_values(split_on(s, '-'))
}

/// Splits `s` on '-' and keeps the pieces that parse as `i64`.
pub(crate) fn date_numbers_exec(s: &str) -> (parts: Vec<i64>)
    ensures
        parts@ == date_numbers(s@),
        forall|k: int| 0 <= k < parts@.len() ==> parts@[k] >= 0,
{
    let cs = chars_of(s);
    let mut parts: Vec<i64> = Vec::new();
    let mut seg_start: usize = 0;
    let mut i: usize = 0;
    let ghost mut done: Seq<Seq<char>> = Seq::empty();
    assert(cs@.take(0) =~= Seq::<char>::empty());
    assert(cs@.subrange(0, 0) =~= Seq::<char>::empty());
    assert(split_on(Seq::<char>::empty(), '-') =~= seq![Seq::<char>::empty()]);
    while i < cs.len()
        invariant
            cs@ == s@,
            seg_start <= i <= cs.len(),
            split_on(cs@.take(i as int), '-') == done.push(cs@.subrange(seg_start as int, i as int)),
            parts@ == parsed_values(done),
        decreases cs.len() - i,
    {
        let ghost t = cs@.take(i + 1);
        assert(t.drop_last() =~= cs@.take(i as int));
        assert(t.last() == cs@[i as int]);
        if cs[i] == '-' {
            let p = parse_i64_range(&cs, seg_start, i);
            proof {
                lemma_parsed_values_push(done, cs@.subrange(seg_start as int, i as int));
                done = done.push(cs@.subrange(seg_start as int, i as int));
            }
            match p {
                Some(x) => parts.push(x),
                None => {},
            }
            seg_start = i + 1;
            assert(cs@.subrange(seg_start as int, i + 1) =~= Seq::<char>::empty());
        } else {
            assert(cs@.subrange(seg_start as int, i + 1) =~= cs@.subrange(seg_start as int, i as int).push(cs@[i as int]));
        }
        i = i + 1;
    }
    assert(cs@.take(cs.len() as int) =~= cs@);
    let p = parse_i64_range(&cs, seg_start, cs.len());
    proof {
        lemma_parsed_values_push(done, cs@.subrange(seg_start as int, cs.len() as int));
    }
    match p {
        Some(x) => parts.push(x),
        None => {},
    }
    proof {
        lemma_split_pieces_lack_sep(s@, '-');
        lemma_parsed_values_unsigned(split_on(s@, '-'));
    }
    parts
}

// ---------- decimal rendering ----------

pub open spec fn digit_char(n: int) -> char {
    (n + '0' as int) as char
}

/// The decimal digits of `n`, without leading zeros.
pub open spec fn decimal(n: nat) -> Seq<char>
    decreases n,
{
    if n < 10 {
        seq![digit_char(n as int)]
    } else {
        decimal(n / 10).push(digit_char((n % 10) as int))
    }
}

pub open spec fn zeros(k: int) -> Seq<char> {
    Seq::new(k as nat, |i: int| '0')
}

/// `s` left-padded with '0' to at least `w` characters.
pub open spec fn zero_pad(s: Seq<char>, w: int) -> Seq<char> {
    if s.len() >= w {
        s
    } else {
        zeros(w - s.len()) + s
    }
}

/// `format!("{v:0w$}")`: sign-aware zero padding, the sign counting toward the width.
pub open spec fn render_int(v: int, w: int) -> Seq<char> {
    if v < 0 {
        seq!['-'] + zero_pad(decimal((-v) as nat), w - 1)
    } else {
        zero_pad(decimal(v as nat), w)
    }
}

/// `format!("{y:04}-{m:02}-{d:02}")`.
pub open spec fn render_date(y: int, m: int, d: int) -> Seq<char> {
    render_int(y, 4) + seq!['-'] + render_int(m, 2) + seq!['-'] + render_int(d, 2)
}

fn digit_char_exec(n: u64) -> (c: char)
    requires
        n < 10,
    ensures
        c == digit_char(n as int),
{
    let b: u8 = 48u8 + n as u8;
    b as char
}

fn push_decimal(out: &mut String, n: u64)
    ensures
        final(out)@ == old(out)@ + decimal(n as nat),
    decreases n,
{
    if n >= 10 {
        push_decimal(out, n / 10);
    }
    push_char(out, digit_char_exec(n % 10));
    assert(n < 10 ==> decimal(n as nat) =~= seq![digit_char(n as int)]);
}

fn decimal_len(n: u64) -> (len: usize)
    ensures
        len == decimal(n as nat).len(),
        len <= 20,
    decreases n,
{
    if n < 10 {
        1
    } else {
        let l = decimal_len(n / 10);
        proof {
            reveal_with_fuel(pow10, 20);
            lemma_decimal_len_pow((n / 10) as nat, 19);
        }
        l + 1
    }
}

/// Numbers below 10^k have at most k digits.
proof fn lemma_decimal_len_pow(n: nat, k: nat)
    requires
        k >= 1,
        n < pow10(k),
    ensures
        decimal(n).len() <= k,
    decreases n,
{
    if n >= 10 {
        if k == 1 {
            assert(pow10(1) == 10) by {
                reveal_with_fuel(pow10, 2);
            }
        } else {
            assert(pow10(k) == 10 * pow10((k - 1) as nat));
            assert(n / 10 < pow10((k - 1) as nat));
            lemma_decimal_len_pow(n / 10, (k - 1) as nat);
        }
    }
}

pub open spec fn pow10(k: nat) -> nat
    decreases k,
{
    if k == 0 {
        1
    } else {
        10 * pow10((k - 1) as nat)
    }
}

/// Appends `v` rendered as `format!("{v:0width$}")`.
fn push_int(out: &mut String, v: i64, width: usize)
    requires
        width <= 4,
    ensures
        final(out)@ == old(out)@ + render_int(v as int, width as int),
{
    let ghost start = out@;
    let neg = v < 0;
    let mag: u64 = if neg {
        (-(v as i128)) as u64
    } else {
        v as u64
    };
    let target: usize = if neg {
        if width > 0 {
            width - 1
        } else {
            0
        }
    } else {
        width
    };
    if neg {
        push_char(out, '-');
    }
    let ghost mid = out@;
    let len = decimal_len(mag);
    let mut k = len;
    while k < target
        invariant
            len <= k,
            len == decimal(mag as nat).len(),
            k <= target || k == len,
            out@ == mid + zeros(k - len),
        decreases target - k,
    {
        push_char(out, '0');
        assert(zeros(k + 1 - len) =~= zeros(k - len).push('0'));
        k = k + 1;
    }
    push_decimal(out, mag);
    proof {
        let ds = decimal(mag as nat);
        let w = if neg { width - 1 } else { width as int };
        if ds.len() >= w {
            assert(zeros(k - len) =~= Seq::<char>::empty());
            assert(zero_pad(ds, w) == ds);
        } else {
            assert(k == target);
            assert(zero_pad(ds, w) == zeros(w - ds.len()) + ds);
        }
        if neg {
            assert(out@ =~= start + (seq!['-'] + zero_pad(ds, w)));
        } else {
            assert(out@ =~= start + zero_pad(ds, w));
        }
    }
}

// ---------- the previous day ----------

pub open spec fn is_leap(y: int) -> bool {
    (y % 4 == 0 && y % 100 != 0) || y % 400 == 0
}

/// Days in month `m` of year `y`; 30 for a number that is no month.
pub open spec fn month_days(y: int, m: int) -> int {
    if m == 1 || m == 3 || m == 5 || m == 7 || m == 8 || m == 10 || m == 12 {
        31
    } else if m == 4 || m == 6 || m == 9 || m == 11 {
        30
    } else if m == 2 {
        if is_leap(y) {
            29
        } else {
            28
        }
    } else {
        30
    }
}

/// Whether `y` is a leap year (see [`is_leap`]).
#[verifier::spinoff_prover]
fn is_leap_exec(y: i64) -> (b: bool)
    ensures
        b == is_leap(y as int),
{
    let r4 = y % 4;
    let r100 = y % 100;
    let r400 = y % 400;
    assert((r4 == 0) == ((y as int) % 4 == 0));
    assert((r100 == 0) == ((y as int) % 100 == 0));
    assert((r400 == 0) == ((y as int) % 400 == 0));
    (r4 == 0 && r100 != 0) || r400 == 0
}

/// Days in month `m` of year `y` (see [`month_days`]).
fn month_days_exec(y: i64, m: i64) -> (n: i64)
    ensures
        n == month_days(y as int, m as int),
{
    let leap = is_leap_exec(y);
    if m == 1 || m == 3 || m == 5 || m == 7 || m == 8 || m == 10 || m == 12 {
        31
    } else if m == 4 || m == 6 || m == 9 || m == 11 {
        30
    } else if m == 2 {
        if leap {
            29
        } else {
            28
        }
    } else {
        30
    }
}

/// One day back from `(y, m, d)`: day 1 wraps to the last day of the
/// previous month, January to the previous year's December.
pub open spec fn prev_ymd(y: int, m: int, d: int) -> (int, int, int) {
    if d - 1 == 0 {
        let (y2, m2) = if m - 1 == 0 {
            (y - 1, 12int)
        } else {
            (y, m - 1)
        };
        (y2, m2, month_days(y2, m2))
    } else {
        (y, m, d - 1)
    }
}

/// The previous day of a `YYYY-MM-DD` text: the numbers of the text split on
/// '-' are taken as year, month and day; a text without exactly three
/// numbers gives the empty text.
pub open spec fn prev_day_text(s: Seq<char>) -> Seq<char> {
    let n = date_numbers(s);
    if n.len() != 3 {
        Seq::empty()
    } else {
        let p = prev_ymd(n[0] as int, n[1] as int, n[2] as int);
        render_date(p.0, p.1, p.2)
    }
}

/// The day before the `YYYY-MM-DD` date `date`, in the same format.
pub fn chrono_next_minus(date: &str) -> (prev: String)
    ensures
        prev@ == prev_day_text(date@),
{
    let parts = date_numbers_exec(date);
    if parts.len() != 3 {
        return String::new();
    }
    let mut y = parts[0];
    let mut m = parts[1];
    let mut d = parts[2];
    assert(y >= 0 && m >= 0 && d >= 0);
    d = d - 1;
    if d == 0 {
        m = m - 1;
        if m == 0 {
            m = 12;
            y = y - 1;
        }
        d = month_days_exec(y, m);
    }
    let out = render_date_exec(y, m, d);
    proof {
        let p = prev_ymd(parts@[0] as int, parts@[1] as int, parts@[2] as int);
        assert(p == (y as int, m as int, d as int));
    }
    out
}

/// `format!("{y:04}-{m:02}-{d:02}")`.
fn render_date_exec(y: i64, m: i64, d: i64) -> (out: String)
    ensures
        out@ == render_date(y as int, m as int, d as int),
{
    let mut out = String::new();
    push_int(&mut out, y, 4);
    push_char(&mut out, '-');
    push_int(&mut out, m, 2);
    push_char(&mut out, '-');
    push_int(&mut out, d, 2);
    assert(out@ =~= render_date(y as int, m as int, d as int));
    out
}

// ---------- laws ----------

/// `(y, m, d)` names a day of the proleptic Gregorian calendar.
pub open spec fn valid_date(y: int, m: int, d: int) -> bool {
    1 <= m <= 12 && 1 <= d <= month_days(y, m)
}

/// `a` is an earlier day than `b` (year, then month, then day).
pub open spec fn date_before(a: (int, int, int), b: (int, int, int)) -> bool {
    a.0 < b.0 || (a.0 == b.0 && (a.1 < b.1 || (a.1 == b.1 && a.2 < b.2)))
}

/// The previous day of a valid date is a valid date, earlier than it, with
/// no valid date in between: it is the calendar's previous day.
pub proof fn law_prev_is_previous_day(y: int, m: int, d: int)
    requires
        valid_date(y, m, d),
    ensures
        valid_date(prev_ymd(y, m, d).0, prev_ymd(y, m, d).1, prev_ymd(y, m, d).2),
        date_before(prev_ymd(y, m, d), (y, m, d)),
        forall|y2: int, m2: int, d2: int|
            #![trigger valid_date(y2, m2, d2)]
            valid_date(y2, m2, d2) && date_before(prev_ymd(y, m, d), (y2, m2, d2))
                ==> !date_before((y2, m2, d2), (y, m, d)),
{
}

pub proof fn lemma_split_without_sep(x: Seq<char>, sep: char)
    requires
        !x.contains(sep),
    ensures
        split_on(x, sep) == seq![x],
    decreases x.len(),
{
    if x.len() == 0 {
        assert(x =~= Seq::<char>::empty());
        assert(split_on(x, sep) =~= seq![x]);
    } else {
        let i = x.drop_last();
        assert(!i.contains(sep)) by {
            if i.contains(sep) {
                let j = choose|j: int| 0 <= j < i.len() && i[j] == sep;
                assert(x[j] == sep);
            }
        }
        lemma_split_without_sep(i, sep);
        assert(x[x.len() - 1] != sep);
        assert(i.push(x.last()) =~= x);
        assert(split_on(x, sep) =~= seq![x]);
    }
}

/// Splitting at a separator splits the two sides separately.
pub proof fn lemma_split_concat(x: Seq<char>, sep: char, y: Seq<char>)
    ensures
        split_on(x + seq![sep] + y, sep) == split_on(x, sep) + split_on(y, sep),
    decreases y.len(),
{
    let xs = x + seq![sep];
    if y.len() == 0 {
        assert(xs + y =~= xs);
        assert(xs.drop_last() =~= x);
        assert(split_on(y, sep) =~= seq![Seq::<char>::empty()]);
        assert(split_on(xs, sep) =~= split_on(x, sep) + split_on(y, sep));
    } else {
        let y1 = y.drop_last();
        lemma_split_concat(x, sep, y1);
        lemma_split_nonempty(y1, sep);
        assert((xs + y).drop_last() =~= xs + y1);
        assert((xs + y).last() == y.last());
        let a = split_on(x, sep);
        let b = split_on(y1, sep);
        if y.last() == sep {
            assert((a + b).push(Seq::<char>::empty()) =~= a + b.push(Seq::<char>::empty()));
        } else {
            assert((a + b).update(a.len() + b.len() - 1, (a + b).last().push(y.last())) =~= a + b.update(
                b.len() - 1,
                b.last().push(y.last()),
            ));
        }
    }
}

proof fn lemma_digits_value_decimal(n: nat)
    ensures
        all_digits(decimal(n)),
        digits_value(decimal(n)) == n,
        !decimal(n).contains('-'),
    decreases n,
{
    let ds = decimal(n);
    if n >= 10 {
        lemma_digits_value_decimal(n / 10);
        assert(ds.drop_last() =~= decimal(n / 10));
        assert(ds.last() == digit_char((n % 10) as int));
        assert(digit_val(digit_char((n % 10) as int)) == n % 10);
        assert((n / 10) * 10 + n % 10 == n);
        assert(digits_value(ds) == digits_value(decimal(n / 10)) * 10 + digit_val(ds.last()));
        assert(forall|i: int| 0 <= i < ds.len() - 1 ==> ds[i] == decimal(n / 10)[i]);
        if ds.contains('-') {
            let j = choose|j: int| 0 <= j < ds.len() && ds[j] == '-';
            if j < ds.len() - 1 {
                assert(decimal(n / 10)[j] == '-');
            }
        }
    } else {
        assert(ds.drop_last() =~= Seq::<char>::empty());
        assert(ds[0] == digit_char(n as int));
        assert(digit_val(ds[0]) == n);
        assert(digits_value(Seq::<char>::empty()) == 0);
        assert(ds.last() == ds[0]);
        assert(digits_value(ds) == digits_value(ds.drop_last()) * 10 + digit_val(ds.last()));
    }
}

proof fn lemma_digits_value_zeros(k: int, t: Seq<char>)
    requires
        k >= 0,
        all_digits(t),
    ensures
        all_digits(zeros(k) + t),
        digits_value(zeros(k) + t) == digits_value(t) + digits_value(zeros(k)) * pow10(t.len()),
        digits_value(zeros(k)) == 0,
    decreases t.len(), k,
{
    if t.len() == 0 {
        assert(zeros(k) + t =~= zeros(k));
        if k > 0 {
            assert(zeros(k).drop_last() =~= zeros(k - 1));
            lemma_digits_value_zeros(k - 1, t);
        } else {
            assert(zeros(k) =~= Seq::<char>::empty());
        }
    } else {
        let t1 = t.drop_last();
        lemma_digits_value_zeros(k, t1);
        assert((zeros(k) + t).drop_last() =~= zeros(k) + t1);
        assert(is_digit(t[t.len() - 1]));
    }
}

/// A non-negative number rendered with zero padding parses back to itself.
pub proof fn lemma_parse_rendered(v: int, w: int)
    requires
        0 <= v <= i64::MAX,
    ensures
        parse_i64(render_int(v, w)) == Some(v as i64),
        !render_int(v, w).contains('-'),
{
    let ds = decimal(v as nat);
    lemma_digits_value_decimal(v as nat);
    let r = render_int(v, w);
    if ds.len() >= w {
        assert(r == ds);
    } else {
        lemma_digits_value_zeros(w - ds.len(), ds);
        assert(r == zeros(w - ds.len()) + ds);
        if r.contains('-') {
            let j = choose|j: int| 0 <= j < r.len() && r[j] == '-';
            if j >= w - ds.len() {
                assert(ds[j - (w - ds.len())] == '-');
            }
        }
    }
    assert(r.len() > 0);
    assert(is_digit(r[0]));
}

/// The numbers of a rendered non-negative date are the date itself.
pub proof fn lemma_date_numbers_of_render(y: int, m: int, d: int)
    requires
        0 <= y <= i64::MAX,
        0 <= m <= i64::MAX,
        0 <= d <= i64::MAX,
    ensures
        date_numbers(render_date(y, m, d)) == seq![y as i64, m as i64, d as i64],
{
    let a = render_int(y, 4);
    let b = render_int(m, 2);
    let c = render_int(d, 2);
    lemma_parse_rendered(y, 4);
    lemma_parse_rendered(m, 2);
    lemma_parse_rendered(d, 2);
    lemma_split_concat(b, '-', c);
    lemma_split_concat(a, '-', b + seq!['-'] + c);
    assert(render_date(y, m, d) =~= a + seq!['-'] + (b + seq!['-'] + c));
    lemma_split_without_sep(a, '-');
    lemma_split_without_sep(b, '-');
    lemma_split_without_sep(c, '-');
    let pieces = seq![a, b, c];
    assert(split_on(render_date(y, m, d), '-') =~= pieces);
    assert(pieces.drop_last().drop_last().drop_last() =~= Seq::<Seq<char>>::empty());
    assert(pieces.drop_last().drop_last() =~= seq![a]);
    assert(pieces.drop_last() =~= seq![a, b]);
    assert(seq![a].drop_last() =~= Seq::<Seq<char>>::empty());
    assert(seq![a].last() == a);
    assert(parsed_values(Seq::<Seq<char>>::empty()) =~= Seq::<i64>::empty());
    assert(parsed_values(seq![a]) =~= seq![y as i64]);
    assert(parsed_values(seq![a, b]) =~= seq![y as i64, m as i64]);
}

/// On a rendered date the text function steps back exactly one calendar
/// day: it agrees with the date-level previous day.
pub proof fn law_prev_day_text_of_date(y: int, m: int, d: int)
    requires
        0 <= y <= 9999,
        0 <= m <= 99,
        0 <= d <= 99,
    ensures
        prev_day_text(render_date(y, m, d)) == ({
            let p = prev_ymd(y, m, d);
            render_date(p.0, p.1, p.2)
        }),
{
    lemma_date_numbers_of_render(y, m, d);
}

/// The length of each month, seen from the first of the next one: the day
/// before `(y, m + 1, 1)` is the 31st for January, March, May, July, August
/// and October, the 30th for April, June, September and November, and for
/// February the 29th in a Gregorian leap year (divisible by 4 and not by
/// 100, or by 400) and the 28th otherwise; the day before New Year is the
/// 31st of December of the year before.
pub proof fn law_month_lengths(y: int, m: int)
    requires
        1 <= m <= 11,
    ensures
        (m == 1 || m == 3 || m == 5 || m == 7 || m == 8 || m == 10) ==> prev_ymd(y, m + 1, 1) == (y, m, 31int),
        (m == 4 || m == 6 || m == 9 || m == 11) ==> prev_ymd(y, m + 1, 1) == (y, m, 30int),
        m == 2 ==> prev_ymd(y, 3, 1) == (y, 2int, if (y % 4 == 0 && y % 100 != 0) || y % 400 == 0 {
            29int
        } else {
            28int
        }),
        prev_ymd(y, 1, 1) == (y - 1, 12int, 31int),
{
}

/// The same on dates as text: for a year of four digits, the day before the
/// first of month `m + 1` is the last day of month `m`, with the month
/// lengths of the Gregorian calendar.
pub proof fn law_month_lengths_text(y: int, m: int)
    requires
        0 <= y <= 9999,
        1 <= m <= 11,
    ensures
        (m == 1 || m == 3 || m == 5 || m == 7 || m == 8 || m == 10) ==> prev_day_text(render_date(y, m + 1, 1))
            == render_date(y, m, 31),
        (m == 4 || m == 6 || m == 9 || m == 11) ==> prev_day_text(render_date(y, m + 1, 1)) == render_date(
            y,
            m,
            30,
        ),
        m == 2 ==> prev_day_text(render_date(y, 3, 1)) == render_date(
            y,
            2,
            if (y % 4 == 0 && y % 100 != 0) || y % 400 == 0 {
                29
            } else {
                28
            },
        ),
{
    law_prev_day_text_of_date(y, m + 1, 1);
    law_month_lengths(y, m);
}

} // verus!
