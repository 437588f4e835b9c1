//! The persisted state format: a plain character encoding of a session,
//! with a verified writer, a verified parser, and the round-trip theorem
//! tying them together.
//!
//! Numbers are fixed-width decimal (twenty digits, zero padded), strings
//! are length-prefixed, options carry a one-character tag. Nothing needs
//! escaping, so any task name and comment round-trips exactly.

use crate::state::{DailyState, SessionView};
use crate::strutil::push_char;
use crate::task::{view_opt_string, CompletedTask, DoneTaskView, NotCompletedTask, TaskView};
use vstd::prelude::*;

verus! {

/// How many decimal digits every encoded number occupies; enough for any
/// 64-bit value.
pub open spec fn num_width() -> int {
    20
}

/// The decimal digit character for `d`.
pub open spec fn digit_to_char(d: int) -> char {
    if d == 0 {
        '0'
    } else if d == 1 {
        '1'
    } else if d == 2 {
        '2'
    } else if d == 3 {
        '3'
    } else if d == 4 {
        '4'
    } else if d == 5 {
        '5'
    } else if d == 6 {
        '6'
    } else if d == 7 {
        '7'
    } else if d == 8 {
        '8'
    } else {
        '9'
    }
}

/// The value of a decimal digit character; ten marks everything else.
pub open spec fn char_to_digit(c: char) -> int {
    if c == '0' {
        0
    } else if c == '1' {
        1
    } else if c == '2' {
        2
    } else if c == '3' {
        3
    } else if c == '4' {
        4
    } else if c == '5' {
        5
    } else if c == '6' {
        6
    } else if c == '7' {
        7
    } else if c == '8' {
        8
    } else if c == '9' {
        9
    } else {
        10
    }
}

pub open spec fn is_digit_char(c: char) -> bool {
    char_to_digit(c) < 10
}

pub open spec fn all_digits(s: Seq<char>) -> bool {
    forall|i: int| 0 <= i < s.len() ==> is_digit_char(s[i])
}

pub open spec fn pow10(w: nat) -> int
    decreases w,
{
    if w == 0 {
        1
    } else {
        10 * pow10((w - 1) as nat)
    }
}

/// The last `w` decimal digits of `n`, most significant first.
pub open spec fn fmt_num_rec(n: int, w: nat) -> Seq<char>
    decreases w,
{
    if w == 0 {
        Seq::<char>::empty()
    } else {
        fmt_num_rec(n / 10, (w - 1) as nat).push(digit_to_char(n % 10))
    }
}

/// A number encoded as exactly twenty digits.
pub open spec fn spec_ser_num(n: u64) -> Seq<char> {
    fmt_num_rec(n as int, num_width() as nat)
}

/// The value a digit string denotes.
pub open spec fn digits_value(s: Seq<char>) -> int
    decreases s.len(),
{
    if s.len() == 0 {
        0
    } else {
        digits_value(s.drop_last()) * 10 + char_to_digit(s.last())
    }
}

proof fn lemma_digit_round_trip(d: int)
    requires
        0 <= d < 10,
    ensures
        char_to_digit(digit_to_char(d)) == d,
        is_digit_char(digit_to_char(d)),
{
}

proof fn lemma_pow10_pos(w: nat)
    ensures
        pow10(w) >= 1,
    decreases w,
{
    if w > 0 {
        lemma_pow10_pos((w - 1) as nat);
    }
}

proof fn lemma_fmt_num_len(n: int, w: nat)
    ensures
        fmt_num_rec(n, w).len() == w,
    decreases w,
{
    if w > 0 {
        lemma_fmt_num_len(n / 10, (w - 1) as nat);
    }
}

proof fn lemma_fmt_num_digits(n: int, w: nat)
    requires
        n >= 0,
    ensures
        all_digits(fmt_num_rec(n, w)),
    decreases w,
{
    if w > 0 {
        lemma_fmt_num_digits(n / 10, (w - 1) as nat);
        lemma_fmt_num_len(n / 10, (w - 1) as nat);
        let s = fmt_num_rec(n, w);
        assert forall|i: int| 0 <= i < s.len() implies is_digit_char(s[i]) by {
            if i < w - 1 {
                assert(s[i] == fmt_num_rec(n / 10, (w - 1) as nat)[i]);
            } else {
                lemma_digit_round_trip(n % 10);
            }
        }
    }
}

proof fn lemma_fmt_num_value(n: int, w: nat)
    requires
        0 <= n < pow10(w),
    ensures
        digits_value(fmt_num_rec(n, w)) == n,
    decreases w,
{
    if w == 0 {
    } else {
        lemma_pow10_pos((w - 1) as nat);
        assert(n / 10 < pow10((w - 1) as nat)) by {
            assert(pow10(w) == 10 * pow10((w - 1) as nat));
        };
        lemma_fmt_num_value(n / 10, (w - 1) as nat);
        lemma_fmt_num_len(n / 10, (w - 1) as nat);
        let s = fmt_num_rec(n, w);
        assert(s.drop_last() =~= fmt_num_rec(n / 10, (w - 1) as nat));
        lemma_digit_round_trip(n % 10);
    }
}

proof fn lemma_digits_value_nonneg(s: Seq<char>)
    requires
        all_digits(s),
    ensures
        digits_value(s) >= 0,
    decreases s.len(),
{
    if s.len() > 0 {
        assert(all_digits(s.drop_last()));
        lemma_digits_value_nonneg(s.drop_last());
    }
}

proof fn lemma_digits_value_concat(a: Seq<char>, b: Seq<char>)
    ensures
        digits_value(a + b) == digits_value(a) * pow10(b.len()) + digits_value(b),
    decreases b.len(),
{
    if b.len() == 0 {
        assert(a + b =~= a);
    } else {
        assert((a + b).drop_last() =~= a + b.drop_last());
        lemma_digits_value_concat(a, b.drop_last());
        assert((a + b).last() == b.last());
        assert(digits_value(a) * pow10(b.drop_last().len()) * 10 == digits_value(a) * pow10(
            b.len(),
        )) by (nonlinear_arith)
            requires
                pow10(b.len()) == 10 * pow10(b.drop_last().len()),
        ;
        assert((digits_value(a) * pow10(b.drop_last().len()) + digits_value(b.drop_last())) * 10
            == digits_value(a) * pow10(b.drop_last().len()) * 10 + digits_value(b.drop_last())
            * 10) by (nonlinear_arith);
    }
}

/// `u64::MAX` needs only twenty digits.
proof fn lemma_u64_fits_width()
    ensures
        u64::MAX < pow10(num_width() as nat),
{
    reveal_with_fuel(pow10, 21);
    assert(pow10(20) == 100000000000000000000);
}

/// A parsed number: exactly twenty digits at `i` whose value fits in
/// sixty-four bits.
pub open spec fn spec_parse_num(s: Seq<char>, i: int) -> Option<(u64, int)> {
    if 0 <= i && i + num_width() <= s.len() && all_digits(s.subrange(i, i + num_width()))
        && digits_value(s.subrange(i, i + num_width())) <= u64::MAX {
        Some((digits_value(s.subrange(i, i + num_width())) as u64, i + num_width()))
    } else {
        None
    }
}

/// Parsing reads back exactly the number the writer encoded.
proof fn lemma_parse_num_round_trip(s: Seq<char>, i: int, n: u64)
    requires
        0 <= i,
        i + num_width() <= s.len(),
        s.subrange(i, i + num_width()) == spec_ser_num(n),
    ensures
        spec_parse_num(s, i) == Some((n, i + num_width())),
{
    lemma_u64_fits_width();
    lemma_fmt_num_digits(n as int, num_width() as nat);
    lemma_fmt_num_value(n as int, num_width() as nat);
}

fn digit_char_exec(d: u64) -> (c: char)
    requires
        d < 10,
    ensures
        c == digit_to_char(d as int),
{
    if d == 0 {
        '0'
    } else if d == 1 {
        '1'
    } else if d == 2 {
        '2'
    } else if d == 3 {
        '3'
    } else if d == 4 {
        '4'
    } else if d == 5 {
        '5'
    } else if d == 6 {
        '6'
    } else if d == 7 {
        '7'
    } else if d == 8 {
        '8'
    } else {
        '9'
    }
}

fn char_digit_exec(c: char) -> (d: u64)
    ensures
        d as int == char_to_digit(c),
{
    if c == '0' {
        0
    } else if c == '1' {
        1
    } else if c == '2' {
        2
    } else if c == '3' {
        3
    } else if c == '4' {
        4
    } else if c == '5' {
        5
    } else if c == '6' {
        6
    } else if c == '7' {
        7
    } else if c == '8' {
        8
    } else if c == '9' {
        9
    } else {
        10
    }
}

/// Appends the last `w` decimal digits of `n`, most significant first.
fn append_num_rec(out: &mut String, n: u64, w: usize)
    ensures
        final(out)@ == old(out)@ + fmt_num_rec(n as int, w as nat),
    decreases w,
{
    if w == 0 {
        proof {
            assert(old(out)@ + fmt_num_rec(n as int, 0) =~= old(out)@);
        }
        return ;
    }
    append_num_rec(out, n / 10, w - 1);
    push_char(out, digit_char_exec(n % 10));
    proof {
        assert(out@ =~= old(out)@ + fmt_num_rec(n as int, w as nat));
    }
}

/// Appends a number as exactly twenty digits.
fn append_num(out: &mut String, n: u64)
    ensures
        final(out)@ == old(out)@ + spec_ser_num(n),
{
    append_num_rec(out, n, 20);
}

/// Reads a twenty-digit number at `i`.
fn parse_num(s: &str, i: usize) -> (r: Option<(u64, usize)>)
    ensures
        match r {
            Some(p) => spec_parse_num(s@, i as int) == Some((p.0, p.1 as int)),
            None => spec_parse_num(s@, i as int) is None,
        },
{
    let n = s.unicode_len();
    if n < 20 || i > n - 20 {
        return None;
    }
    let ghost win = s@.subrange(i as int, i as int + 20);
    let mut acc: u64 = 0;
    let mut k: usize = 0;
    proof {
        assert(s@.subrange(i as int, i as int) =~= Seq::<char>::empty());
    }
    while k < 20
        invariant
            n == s@.len(),
            i + 20 <= s@.len(),
            k <= 20,
            win == s@.subrange(i as int, i as int + 20),
            all_digits(s@.subrange(i as int, i as int + k as int)),
            digits_value(s@.subrange(i as int, i as int + k as int)) == acc as int,
        decreases 20 - k,
    {
        let ghost pre = s@.subrange(i as int, i as int + k as int);
        let c = s.get_char(i + k);
        let d = char_digit_exec(c);
        if d >= 10 {
            proof {
                assert(win[k as int] == s@[i + k]);
                assert(!is_digit_char(win[k as int]));
                assert(!all_digits(win));
            }
            return None;
        }
        if acc > (u64::MAX - d) / 10 {
            proof {
                let prefix = s@.subrange(i as int, i as int + k as int + 1);
                assert(prefix.drop_last() =~= pre);
                assert(prefix.last() == c);
                assert(digits_value(prefix) == acc * 10 + d);
                assert(acc * 10 + d > u64::MAX) by (nonlinear_arith)
                    requires
                        acc > (u64::MAX - d) / 10,
                        d < 10,
                        acc >= 0,
                        d >= 0,
                ;
                if all_digits(win) {
                    let rest = s@.subrange(i as int + k as int + 1, i as int + 20);
                    assert(win =~= prefix + rest);
                    lemma_digits_value_concat(prefix, rest);
                    assert(all_digits(rest)) by {
                        assert(forall|j: int|
                            0 <= j < rest.len() ==> rest[j] == win[k + 1 + j]);
                    };
                    lemma_digits_value_nonneg(rest);
                    lemma_pow10_pos(rest.len());
                    assert(digits_value(prefix) * pow10(rest.len()) >= digits_value(prefix))
                        by (nonlinear_arith)
                        requires
                            digits_value(prefix) >= 0,
                            pow10(rest.len()) >= 1,
                    ;
                    assert(digits_value(win) > u64::MAX);
                }
            }
            return None;
        }
        proof {
            let prefix = s@.subrange(i as int, i as int + k as int + 1);
            assert(prefix.drop_last() =~= pre);
            assert(prefix.last() == c);
            assert(acc * 10 + d <= u64::MAX) by (nonlinear_arith)
                requires
                    acc <= (u64::MAX - d) / 10,
                    d < 10,
                    acc >= 0,
                    d >= 0,
            ;
            assert(is_digit_char(c));
            assert(forall|j: int| 0 <= j < prefix.len() ==> is_digit_char(prefix[j]));
        }
        acc = acc * 10 + d;
        k += 1;
    }
    proof {
        assert(win =~= s@.subrange(i as int, i as int + 20));
    }
    Some((acc, i + 20))
}

/// A string encoded as its character count followed by its characters.
pub open spec fn spec_ser_string(v: Seq<char>) -> Seq<char> {
    fmt_num_rec(v.len() as int, num_width() as nat) + v
}

/// A parsed string: a number at `i`, then that many characters.
pub open spec fn spec_parse_string(s: Seq<char>, i: int) -> Option<(Seq<char>, int)> {
    match spec_parse_num(s, i) {
        Some((len, j)) => if j + len <= s.len() {
            Some((s.subrange(j, j + len as int), j + len as int))
        } else {
            None
        },
        None => None,
    }
}

proof fn lemma_parse_string_round_trip(s: Seq<char>, i: int, v: Seq<char>)
    requires
        0 <= i,
        v.len() <= u64::MAX,
        i + num_width() + v.len() <= s.len(),
        s.subrange(i, i + num_width() + v.len()) == spec_ser_string(v),
    ensures
        spec_parse_string(s, i) == Some((v, i + num_width() + v.len())),
{
    let w = s.subrange(i, i + num_width() + v.len());
    lemma_fmt_num_len(v.len() as int, num_width() as nat);
    assert(s.subrange(i, i + num_width()) =~= fmt_num_rec(v.len() as int, num_width() as nat))
        by {
        assert forall|k: int|
            0 <= k < num_width() implies s.subrange(i, i + num_width())[k] == #[trigger] fmt_num_rec(
            v.len() as int,
            num_width() as nat,
        )[k] by {
            assert(w[k] == s[i + k]);
            assert(w[k] == fmt_num_rec(v.len() as int, num_width() as nat)[k]);
        };
    };
    lemma_parse_num_round_trip(s, i, v.len() as u64);
    let j = i + num_width();
    assert(s.subrange(j, j + v.len()) =~= v) by {
        assert forall|k: int|
            0 <= k < v.len() implies s.subrange(j, j + v.len())[k] == #[trigger] v[k] by {
            assert(w[num_width() + k] == s[i + num_width() + k]);
            assert(w[num_width() + k] == v[k]);
        };
    };
}

/// An optional string: `N`, or `S` followed by the string.
pub open spec fn spec_ser_opt_string(o: Option<Seq<char>>) -> Seq<char> {
    match o {
        None => seq!['N'],
        Some(v) => seq!['S'] + spec_ser_string(v),
    }
}

pub open spec fn spec_parse_opt_string(s: Seq<char>, i: int) -> Option<(Option<Seq<char>>, int)> {
    if 0 <= i < s.len() {
        if s[i] == 'N' {
            Some((None, i + 1))
        } else if s[i] == 'S' {
            match spec_parse_string(s, i + 1) {
                Some((v, j)) => Some((Some(v), j)),
                None => None,
            }
        } else {
            None
        }
    } else {
        None
    }
}

proof fn lemma_parse_opt_string_round_trip(s: Seq<char>, i: int, o: Option<Seq<char>>)
    requires
        0 <= i,
        match o {
            Some(v) => v.len() <= u64::MAX,
            None => true,
        },
        i + spec_ser_opt_string(o).len() <= s.len(),
        s.subrange(i, i + spec_ser_opt_string(o).len() as int) == spec_ser_opt_string(o),
    ensures
        spec_parse_opt_string(s, i) == Some((o, i + spec_ser_opt_string(o).len())),
{
    let w = s.subrange(i, i + spec_ser_opt_string(o).len() as int);
    match o {
        None => {
            assert(s[i] == w[0]);
        }
        Some(v) => {
            lemma_fmt_num_len(v.len() as int, num_width() as nat);
            assert(s[i] == w[0]);
            assert(s[i] == 'S');
            assert(s.subrange(i + 1, i + 1 + num_width() + v.len()) =~= spec_ser_string(v)) by {
                assert forall|k: int|
                    0 <= k < num_width() + v.len() implies s.subrange(
                    i + 1,
                    i + 1 + num_width() + v.len(),
                )[k] == #[trigger] spec_ser_string(v)[k] by {
                    assert(w[1 + k] == s[i + 1 + k]);
                    assert(w[1 + k] == spec_ser_string(v)[k]);
                };
            };
            lemma_parse_string_round_trip(s, i + 1, v);
        }
    }
}

/// An optional number: `N`, or `S` followed by the number.
pub open spec fn spec_ser_opt_num(o: Option<u64>) -> Seq<char> {
    match o {
        None => seq!['N'],
        Some(n) => seq!['S'] + spec_ser_num(n),
    }
}

pub open spec fn spec_parse_opt_num(s: Seq<char>, i: int) -> Option<(Option<u64>, int)> {
    if 0 <= i < s.len() {
        if s[i] == 'N' {
            Some((None, i + 1))
        } else if s[i] == 'S' {
            match spec_parse_num(s, i + 1) {
                Some((n, j)) => Some((Some(n), j)),
                None => None,
            }
        } else {
            None
        }
    } else {
        None
    }
}

proof fn lemma_parse_opt_num_round_trip(s: Seq<char>, i: int, o: Option<u64>)
    requires
        0 <= i,
        i + spec_ser_opt_num(o).len() <= s.len(),
        s.subrange(i, i + spec_ser_opt_num(o).len() as int) == spec_ser_opt_num(o),
    ensures
        spec_parse_opt_num(s, i) == Some((o, i + spec_ser_opt_num(o).len())),
{
    let w = s.subrange(i, i + spec_ser_opt_num(o).len() as int);
    match o {
        None => {
            assert(s[i] == w[0]);
        }
        Some(n) => {
            lemma_fmt_num_len(n as int, num_width() as nat);
            assert(s[i] == w[0]);
            assert(s[i] == 'S');
            assert(s.subrange(i + 1, i + 1 + num_width()) =~= spec_ser_num(n)) by {
                assert forall|k: int|
                    0 <= k < num_width() implies s.subrange(i + 1, i + 1 + num_width())[k]
                    == #[trigger] spec_ser_num(n)[k] by {
                    assert(w[1 + k] == s[i + 1 + k]);
                    assert(w[1 + k] == spec_ser_num(n)[k]);
                };
            };
            lemma_parse_num_round_trip(s, i + 1, n);
        }
    }
}

/// An open task: its name, then its start time.
pub open spec fn spec_ser_open(t: TaskView) -> Seq<char> {
    spec_ser_string(t.name) + spec_ser_num(t.dt_start)
}

pub open spec fn spec_parse_open(s: Seq<char>, i: int) -> Option<(TaskView, int)> {
    match spec_parse_string(s, i) {
        Some((name, j)) => match spec_parse_num(s, j) {
            Some((st, k)) => Some((TaskView { name, dt_start: st }, k)),
            None => None,
        },
        None => None,
    }
}

proof fn lemma_parse_open_round_trip(s: Seq<char>, i: int, t: TaskView)
    requires
        0 <= i,
        t.name.len() <= u64::MAX,
        i + spec_ser_open(t).len() <= s.len(),
        s.subrange(i, i + spec_ser_open(t).len() as int) == spec_ser_open(t),
    ensures
        spec_parse_open(s, i) == Some((t, i + spec_ser_open(t).len())),
{
    let w = s.subrange(i, i + spec_ser_open(t).len() as int);
    lemma_fmt_num_len(t.name.len() as int, num_width() as nat);
    lemma_fmt_num_len(t.dt_start as int, num_width() as nat);
    let l1 = num_width() + t.name.len();
    assert(s.subrange(i, i + l1) =~= spec_ser_string(t.name)) by {
        assert forall|k: int|
            0 <= k < l1 implies s.subrange(i, i + l1)[k] == #[trigger] spec_ser_string(t.name)[k]
            by {
            assert(w[k] == s[i + k]);
            assert(w[k] == spec_ser_string(t.name)[k]);
        };
    };
    lemma_parse_string_round_trip(s, i, t.name);
    assert(s.subrange(i + l1, i + l1 + num_width()) =~= spec_ser_num(t.dt_start)) by {
        assert forall|k: int|
            0 <= k < num_width() implies s.subrange(i + l1, i + l1 + num_width())[k]
            == #[trigger] spec_ser_num(t.dt_start)[k] by {
            assert(w[l1 + k] == s[i + l1 + k]);
            assert(w[l1 + k] == spec_ser_num(t.dt_start)[k]);
        };
    };
    lemma_parse_num_round_trip(s, i + l1, t.dt_start);
}

/// The possibly absent open task: `N`, or `S` followed by the task.
pub open spec fn spec_ser_opt_open(o: Option<TaskView>) -> Seq<char> {
    match o {
        None => seq!['N'],
        Some(t) => seq!['S'] + spec_ser_open(t),
    }
}

pub open spec fn spec_parse_opt_open(s: Seq<char>, i: int) -> Option<(Option<TaskView>, int)> {
    if 0 <= i < s.len() {
        if s[i] == 'N' {
            Some((None, i + 1))
        } else if s[i] == 'S' {
            match spec_parse_open(s, i + 1) {
                Some((t, j)) => Some((Some(t), j)),
                None => None,
            }
        } else {
            None
        }
    } else {
        None
    }
}

proof fn lemma_parse_opt_open_round_trip(s: Seq<char>, i: int, o: Option<TaskView>)
    requires
        0 <= i,
        match o {
            Some(t) => t.name.len() <= u64::MAX,
            None => true,
        },
        i + spec_ser_opt_open(o).len() <= s.len(),
        s.subrange(i, i + spec_ser_opt_open(o).len() as int) == spec_ser_opt_open(o),
    ensures
        spec_parse_opt_open(s, i) == Some((o, i + spec_ser_opt_open(o).len())),
{
    let w = s.subrange(i, i + spec_ser_opt_open(o).len() as int);
    match o {
        None => {
            assert(s[i] == w[0]);
        }
        Some(t) => {
            assert(s[i] == w[0]);
            assert(s[i] == 'S');
            assert(s.subrange(i + 1, i + 1 + spec_ser_open(t).len()) =~= spec_ser_open(t)) by {
                assert forall|k: int|
                    0 <= k < spec_ser_open(t).len() implies s.subrange(
                    i + 1,
                    i + 1 + spec_ser_open(t).len(),
                )[k] == #[trigger] spec_ser_open(t)[k] by {
                    assert(w[1 + k] == s[i + 1 + k]);
                    assert(w[1 + k] == spec_ser_open(t)[k]);
                };
            };
            lemma_parse_open_round_trip(s, i + 1, t);
        }
    }
}

/// A completed task: name, start, end, optional comment.
pub open spec fn spec_ser_done(t: DoneTaskView) -> Seq<char> {
    spec_ser_string(t.name) + spec_ser_num(t.dt_start) + spec_ser_num(t.dt_end)
        + spec_ser_opt_string(t.end_comment)
}

/// A parsed completed task; a record that would end before it starts is
/// rejected.
pub open spec fn spec_parse_done(s: Seq<char>, i: int) -> Option<(DoneTaskView, int)> {
    match spec_parse_string(s, i) {
        Some((name, j1)) => match spec_parse_num(s, j1) {
            Some((st, j2)) => match spec_parse_num(s, j2) {
                Some((en, j3)) => match spec_parse_opt_string(s, j3) {
                    Some((cm, j4)) => if en >= st {
                        Some((DoneTaskView { name, dt_start: st, dt_end: en, end_comment: cm }, j4))
                    } else {
                        None
                    },
                    None => None,
                },
                None => None,
            },
            None => None,
        },
        None => None,
    }
}

proof fn lemma_parse_done_round_trip(s: Seq<char>, i: int, t: DoneTaskView)
    requires
        0 <= i,
        t.wf(),
        t.name.len() <= u64::MAX,
        match t.end_comment {
            Some(c) => c.len() <= u64::MAX,
            None => true,
        },
        i + spec_ser_done(t).len() <= s.len(),
        s.subrange(i, i + spec_ser_done(t).len() as int) == spec_ser_done(t),
    ensures
        spec_parse_done(s, i) == Some((t, i + spec_ser_done(t).len())),
{
    let w = s.subrange(i, i + spec_ser_done(t).len() as int);
    lemma_fmt_num_len(t.name.len() as int, num_width() as nat);
    lemma_fmt_num_len(t.dt_start as int, num_width() as nat);
    lemma_fmt_num_len(t.dt_end as int, num_width() as nat);
    let l1 = num_width() + t.name.len();
    let l2 = l1 + num_width();
    let l3 = l2 + num_width();
    let l4 = l3 + spec_ser_opt_string(t.end_comment).len();
    assert(s.subrange(i, i + l1) =~= spec_ser_string(t.name)) by {
        assert forall|k: int|
            0 <= k < l1 implies s.subrange(i, i + l1)[k] == #[trigger] spec_ser_string(t.name)[k]
            by {
            assert(w[k] == s[i + k]);
            assert(w[k] == spec_ser_string(t.name)[k]);
        };
    };
    lemma_parse_string_round_trip(s, i, t.name);
    assert(s.subrange(i + l1, i + l2) =~= spec_ser_num(t.dt_start)) by {
        assert forall|k: int|
            0 <= k < num_width() implies s.subrange(i + l1, i + l2)[k]
            == #[trigger] spec_ser_num(t.dt_start)[k] by {
            assert(w[l1 + k] == s[i + l1 + k]);
            assert(w[l1 + k] == spec_ser_num(t.dt_start)[k]);
        };
    };
    lemma_parse_num_round_trip(s, i + l1, t.dt_start);
    assert(s.subrange(i + l2, i + l3) =~= spec_ser_num(t.dt_end)) by {
        assert forall|k: int|
            0 <= k < num_width() implies s.subrange(i + l2, i + l3)[k]
            == #[trigger] spec_ser_num(t.dt_end)[k] by {
            assert(w[l2 + k] == s[i + l2 + k]);
            assert(w[l2 + k] == spec_ser_num(t.dt_end)[k]);
        };
    };
    lemma_parse_num_round_trip(s, i + l2, t.dt_end);
    assert(s.subrange(i + l3, i + l4) =~= spec_ser_opt_string(t.end_comment)) by {
        assert forall|k: int|
            0 <= k < spec_ser_opt_string(t.end_comment).len() implies s.subrange(i + l3, i + l4)[k]
            == #[trigger] spec_ser_opt_string(t.end_comment)[k] by {
            assert(w[l3 + k] == s[i + l3 + k]);
            assert(w[l3 + k] == spec_ser_opt_string(t.end_comment)[k]);
        };
    };
    lemma_parse_opt_string_round_trip(s, i + l3, t.end_comment);
}

/// Appends a length-prefixed string.
fn append_string(out: &mut String, s: &str)
    ensures
        final(out)@ == old(out)@ + spec_ser_string(s@),
        s@.len() <= u64::MAX,
{
    let l = s.unicode_len();
    append_num(out, l as u64);
    out.append(s);
    proof {
        assert(out@ =~= old(out)@ + spec_ser_string(s@));
    }
}

/// Appends an optional string with its tag.
fn append_opt_string(out: &mut String, o: &Option<String>)
    ensures
        final(out)@ == old(out)@ + spec_ser_opt_string(view_opt_string(*o)),
        match view_opt_string(*o) {
            Some(v) => v.len() <= u64::MAX,
            None => true,
        },
{
    match o {
        None => {
            push_char(out, 'N');
            proof {
                assert(out@ =~= old(out)@ + seq!['N']);
            }
        }
        Some(v) => {
            push_char(out, 'S');
            append_string(out, v.as_str());
            proof {
                assert(out@ =~= old(out)@ + (seq!['S'] + spec_ser_string(v@)));
            }
        }
    }
}

/// Appends a completed task.
fn append_done(out: &mut String, t: &CompletedTask)
    ensures
        final(out)@ == old(out)@ + spec_ser_done(t@),
        task_bounded(t@),
{
    append_string(out, t.name.as_str());
    append_num(out, t.dt_start);
    append_num(out, t.dt_end);
    append_opt_string(out, &t.end_comment);
    proof {
        assert(out@ =~= old(out)@ + spec_ser_done(t@));
    }
}

/// Reads a length-prefixed string at `i`.
fn parse_string(s: &str, i: usize) -> (r: Option<(String, usize)>)
    ensures
        match r {
            Some(p) => spec_parse_string(s@, i as int) == Some((p.0@, p.1 as int)),
            None => spec_parse_string(s@, i as int) is None,
        },
{
    match parse_num(s, i) {
        None => None,
        Some((len, j)) => {
            let n = s.unicode_len();
            if len > (n - j) as u64 {
                return None;
            }
            let end = j + (len as usize);
            let sub = s.substring_char(j, end);
            Some((sub.to_owned(), end))
        }
    }
}

/// Reads an optional string at `i`.
fn parse_opt_string(s: &str, i: usize) -> (r: Option<(Option<String>, usize)>)
    ensures
        match r {
            Some(p) => spec_parse_opt_string(s@, i as int) == Some(
                (view_opt_string(p.0), p.1 as int),
            ),
            None => spec_parse_opt_string(s@, i as int) is None,
        },
{
    let n = s.unicode_len();
    if i >= n {
        return None;
    }
    let c = s.get_char(i);
    if c == 'N' {
        Some((None, i + 1))
    } else if c == 'S' {
        match parse_string(s, i + 1) {
            Some((v, j)) => Some((Some(v), j)),
            None => None,
        }
    } else {
        None
    }
}

/// Reads an optional number at `i`.
fn parse_opt_num(s: &str, i: usize) -> (r: Option<(Option<u64>, usize)>)
    ensures
        match r {
            Some(p) => spec_parse_opt_num(s@, i as int) == Some((p.0, p.1 as int)),
            None => spec_parse_opt_num(s@, i as int) is None,
        },
{
    let n = s.unicode_len();
    if i >= n {
        return None;
    }
    let c = s.get_char(i);
    if c == 'N' {
        Some((None, i + 1))
    } else if c == 'S' {
        match parse_num(s, i + 1) {
            Some((v, j)) => Some((Some(v), j)),
            None => None,
        }
    } else {
        None
    }
}

/// Reads an open task at `i`.
fn parse_open(s: &str, i: usize) -> (r: Option<(NotCompletedTask, usize)>)
    ensures
        match r {
            Some(p) => spec_parse_open(s@, i as int) == Some((p.0@, p.1 as int)),
            None => spec_parse_open(s@, i as int) is None,
        },
{
    match parse_string(s, i) {
        None => None,
        Some((name, j)) => match parse_num(s, j) {
            None => None,
            Some((st, k)) => Some((NotCompletedTask { name, dt_start: st }, k)),
        },
    }
}

/// Reads a completed task at `i`.
fn parse_done(s: &str, i: usize) -> (r: Option<(CompletedTask, usize)>)
    ensures
        match r {
            Some(p) => spec_parse_done(s@, i as int) == Some((p.0@, p.1 as int)),
            None => spec_parse_done(s@, i as int) is None,
        },
{
    match parse_string(s, i) {
        None => None,
        Some((name, j1)) => match parse_num(s, j1) {
            None => None,
            Some((st, j2)) => match parse_num(s, j2) {
                None => None,
                Some((en, j3)) => match parse_opt_string(s, j3) {
                    None => None,
                    Some((cm, j4)) => {
                        if en >= st {
                            Some(
                                (
                                    CompletedTask {
                                        name,
                                        dt_start: st,
                                        dt_end: en,
                                        end_comment: cm,
                                    },
                                    j4,
                                ),
                            )
                        } else {
                            None
                        }
                    }
                },
            },
        },
    }
}

/// A journal: each completed task in order, oldest first. The entry count
/// stands just before it in the session encoding.
pub open spec fn spec_ser_journal(ts: Seq<DoneTaskView>) -> Seq<char>
    decreases ts.len(),
{
    if ts.len() == 0 {
        Seq::<char>::empty()
    } else {
        spec_ser_done(ts[0]) + spec_ser_journal(ts.drop_first())
    }
}

/// `count` completed tasks read in order from `i`.
pub open spec fn spec_parse_journal(s: Seq<char>, i: int, count: int) -> Option<
    (Seq<DoneTaskView>, int),
>
    decreases count,
{
    if count <= 0 {
        Some((Seq::<DoneTaskView>::empty(), i))
    } else {
        match spec_parse_done(s, i) {
            Some((t, j)) => match spec_parse_journal(s, j, count - 1) {
                Some((ts, k)) => Some((seq![t] + ts, k)),
                None => None,
            },
            None => None,
        }
    }
}

/// Every task a parsed journal holds is well formed: the parser rejects a
/// record that would end before it starts.
proof fn lemma_parse_journal_wf(s: Seq<char>, i: int, count: int)
    ensures
        match spec_parse_journal(s, i, count) {
            Some((ts, end)) => forall|k: int| 0 <= k < ts.len() ==> ts[k].wf(),
            None => true,
        },
    decreases count,
{
    if count > 0 {
        if spec_parse_done(s, i) is Some {
            let (t, j) = spec_parse_done(s, i)->Some_0;
            lemma_parse_journal_wf(s, j, count - 1);
            if spec_parse_journal(s, j, count - 1) is Some {
                let (ts, end) = spec_parse_journal(s, j, count - 1)->Some_0;
                assert(t.wf());
                assert forall|k: int| 0 <= k < (seq![t] + ts).len() implies (seq![t]
                    + ts)[k].wf() by {
                    if k > 0 {
                        assert((seq![t] + ts)[k] == ts[k - 1]);
                    }
                };
            }
        }
    }
}

proof fn lemma_ser_journal_snoc(ts: Seq<DoneTaskView>)
    requires
        ts.len() > 0,
    ensures
        spec_ser_journal(ts) == spec_ser_journal(ts.drop_last()) + spec_ser_done(ts.last()),
    decreases ts.len(),
{
    if ts.len() == 1 {
        assert(ts.drop_first() =~= Seq::<DoneTaskView>::empty());
        assert(ts.drop_last() =~= Seq::<DoneTaskView>::empty());
        assert(spec_ser_done(ts[0]) + Seq::<char>::empty() =~= spec_ser_done(ts[0]));
        assert(Seq::<char>::empty() + spec_ser_done(ts[0]) =~= spec_ser_done(ts[0]));
    } else {
        lemma_ser_journal_snoc(ts.drop_first());
        assert(ts.drop_first().drop_last() =~= ts.drop_last().drop_first());
        assert(ts.drop_first().last() == ts.last());
        assert(ts.drop_last()[0] == ts[0]);
        assert(spec_ser_journal(ts) =~= spec_ser_journal(ts.drop_last()) + spec_ser_done(
            ts.last(),
        ));
    }
}

proof fn lemma_parse_journal_round_trip(s: Seq<char>, i: int, ts: Seq<DoneTaskView>)
    requires
        0 <= i,
        forall|k: int| 0 <= k < ts.len() ==> (#[trigger] ts[k]).wf() && task_bounded(ts[k]),
        i + spec_ser_journal(ts).len() <= s.len(),
        s.subrange(i, i + spec_ser_journal(ts).len() as int) == spec_ser_journal(ts),
    ensures
        spec_parse_journal(s, i, ts.len() as int) == Some(
            (ts, i + spec_ser_journal(ts).len() as int),
        ),
    decreases ts.len(),
{
    if ts.len() == 0 {
        assert(ts =~= Seq::<DoneTaskView>::empty());
    } else {
        let t0 = ts[0];
        let rest = ts.drop_first();
        let w = s.subrange(i, i + spec_ser_journal(ts).len() as int);
        let d = spec_ser_done(t0).len() as int;
        assert(s.subrange(i, i + d) =~= spec_ser_done(t0)) by {
            assert forall|k: int|
                0 <= k < d implies s.subrange(i, i + d)[k] == #[trigger] spec_ser_done(t0)[k] by {
                assert(w[k] == s[i + k]);
                assert(w[k] == spec_ser_done(t0)[k]);
            };
        };
        lemma_parse_done_round_trip(s, i, t0);
        assert(s.subrange(i + d, i + d + spec_ser_journal(rest).len() as int)
            =~= spec_ser_journal(rest)) by {
            assert forall|k: int|
                0 <= k < spec_ser_journal(rest).len() implies s.subrange(
                i + d,
                i + d + spec_ser_journal(rest).len() as int,
            )[k] == #[trigger] spec_ser_journal(rest)[k] by {
                assert(w[d + k] == s[i + d + k]);
                assert(w[d + k] == spec_ser_journal(rest)[k]);
            };
        };
        assert(forall|k: int| 0 <= k < rest.len() ==> rest[k] == ts[k + 1]);
        lemma_parse_journal_round_trip(s, i + d, rest);
        assert(seq![t0] + rest =~= ts);
    }
}

/// Name and comment lengths that the length prefixes can hold.
pub open spec fn task_bounded(t: DoneTaskView) -> bool {
    &&& t.name.len() <= u64::MAX
    &&& match t.end_comment {
        Some(c) => c.len() <= u64::MAX,
        None => true,
    }
}

/// String lengths and the journal count fit their length prefixes; true of
/// every session the library actually holds in memory.
pub open spec fn session_bounded(v: SessionView) -> bool {
    &&& match v.current_task {
        Some(t) => t.name.len() <= u64::MAX,
        None => true,
    }
    &&& v.completed_tasks.len() <= u64::MAX
    &&& forall|i: int| 0 <= i < v.completed_tasks.len() ==> task_bounded(
        #[trigger] v.completed_tasks[i],
    )
}

/// A whole session: the open task, the counted journal, and the session
/// bounds.
pub open spec fn spec_serialize(v: SessionView) -> Seq<char> {
    spec_ser_opt_open(v.current_task) + fmt_num_rec(
        v.completed_tasks.len() as int,
        num_width() as nat,
    ) + spec_ser_journal(v.completed_tasks) + spec_ser_num(v.start_time) + spec_ser_opt_num(
        v.end_time,
    )
}

/// The session `s` encodes, if `s` is exactly one session encoding.
pub open spec fn spec_parse_session(s: Seq<char>) -> Option<SessionView> {
    match spec_parse_opt_open(s, 0) {
        Some((cur, i)) => match spec_parse_num(s, i) {
            Some((cnt, j)) => match spec_parse_journal(s, j, cnt as int) {
                Some((ts, k)) => match spec_parse_num(s, k) {
                    Some((st, l)) => match spec_parse_opt_num(s, l) {
                        Some((et, m)) => if m == s.len() {
                            Some(
                                SessionView {
                                    current_task: cur,
                                    completed_tasks: ts,
                                    start_time: st,
                                    end_time: et,
                                },
                            )
                        } else {
                            None
                        },
                        None => None,
                    },
                    None => None,
                },
                None => None,
            },
            None => None,
        },
        None => None,
    }
}

/// A session read back from a file is always well formed.
pub proof fn lemma_parse_session_wf(s: Seq<char>)
    ensures
        match spec_parse_session(s) {
            Some(v) => v.wf(),
            None => true,
        },
{
    if spec_parse_opt_open(s, 0) is Some {
        let (cur, i) = spec_parse_opt_open(s, 0)->Some_0;
        if spec_parse_num(s, i) is Some {
            let (cnt, j) = spec_parse_num(s, i)->Some_0;
            lemma_parse_journal_wf(s, j, cnt as int);
        }
    }
}

/// Saving a session and loading it back yields the session unchanged: the
/// round-trip law of the persisted state format.
#[verifier::rlimit(50)]
pub proof fn lemma_save_load_round_trip(v: SessionView)
    requires
        v.wf(),
        session_bounded(v),
    ensures
        spec_parse_session(spec_serialize(v)) == Some(v),
{
    let s = spec_serialize(v);
    let a = spec_ser_opt_open(v.current_task);
    let b = fmt_num_rec(v.completed_tasks.len() as int, num_width() as nat);
    let c = spec_ser_journal(v.completed_tasks);
    let d = spec_ser_num(v.start_time);
    let e = spec_ser_opt_num(v.end_time);
    lemma_fmt_num_len(v.completed_tasks.len() as int, num_width() as nat);
    lemma_fmt_num_len(v.start_time as int, num_width() as nat);
    let la = a.len() as int;
    let lb = la + num_width();
    let lc = lb + c.len() as int;
    let ld = lc + num_width();
    let le = ld + e.len() as int;
    assert(s.len() == le);
    assert(s.subrange(0, la) =~= a) by {
        assert forall|k: int| 0 <= k < la implies s.subrange(0, la)[k] == #[trigger] a[k] by {
            assert(s[k] == a[k]);
        };
    };
    lemma_parse_opt_open_round_trip(s, 0, v.current_task);
    assert(s.subrange(la, lb) =~= spec_ser_num(v.completed_tasks.len() as u64)) by {
        assert forall|k: int|
            0 <= k < num_width() implies s.subrange(la, lb)[k] == #[trigger] spec_ser_num(
            v.completed_tasks.len() as u64,
        )[k] by {
            assert(s[la + k] == b[k]);
        };
    };
    lemma_parse_num_round_trip(s, la, v.completed_tasks.len() as u64);
    assert(s.subrange(lb, lc) =~= c) by {
        assert forall|k: int| 0 <= k < c.len() implies s.subrange(lb, lc)[k] == #[trigger] c[k]
            by {
            assert(s[lb + k] == c[k]);
        };
    };
    lemma_parse_journal_round_trip(s, lb, v.completed_tasks);
    assert(s.subrange(lc, ld) =~= d) by {
        assert forall|k: int| 0 <= k < num_width() implies s.subrange(lc, ld)[k] == #[trigger] d[k]
            by {
            assert(s[lc + k] == d[k]);
        };
    };
    lemma_parse_num_round_trip(s, lc, v.start_time);
    assert(s.subrange(ld, le) =~= e) by {
        assert forall|k: int| 0 <= k < e.len() implies s.subrange(ld, le)[k] == #[trigger] e[k]
            by {
            assert(s[ld + k] == e[k]);
        };
    };
    lemma_parse_opt_num_round_trip(s, ld, v.end_time);
}

/// Writes the whole session in the persisted state format.
pub fn serialize_session(state: &DailyState) -> (r: String)
    ensures
        r@ == spec_serialize(state@),
        session_bounded(state@),
        state@.wf() ==> spec_parse_session(r@) == Some(state@),
{
    let mut out = String::new();
    match &state.current_task {
        None => {
            push_char(&mut out, 'N');
            proof {
                assert(out@ =~= spec_ser_opt_open(state@.current_task));
            }
        }
        Some(t) => {
            push_char(&mut out, 'S');
            append_string(&mut out, t.name.as_str());
            append_num(&mut out, t.dt_start);
            proof {
                assert(out@ =~= spec_ser_opt_open(state@.current_task));
            }
        }
    }
    append_num(&mut out, state.completed_tasks.len() as u64);
    let ghost after_count = out@;
    proof {
        assert(after_count =~= spec_ser_opt_open(state@.current_task) + fmt_num_rec(
            state@.completed_tasks.len() as int,
            num_width() as nat,
        ));
        assert(state@.completed_tasks.subrange(0, 0) =~= Seq::<DoneTaskView>::empty());
        assert(after_count + spec_ser_journal(state@.completed_tasks.subrange(0, 0)) =~= after_count);
    }
    let n = state.completed_tasks.len();
    let mut idx: usize = 0;
    while idx < n
        invariant
            n == state.completed_tasks@.len(),
            idx <= n,
            after_count == spec_ser_opt_open(state@.current_task) + fmt_num_rec(
                state@.completed_tasks.len() as int,
                num_width() as nat,
            ),
            out@ == after_count + spec_ser_journal(state@.completed_tasks.subrange(0, idx as int)),
            forall|k: int| 0 <= k < idx ==> task_bounded(#[trigger] state@.completed_tasks[k]),
        decreases n - idx,
    {
        append_done(&mut out, &state.completed_tasks[idx]);
        proof {
            let tsv = state@.completed_tasks;
            assert(tsv.subrange(0, idx as int + 1).drop_last() =~= tsv.subrange(0, idx as int));
            assert(tsv.subrange(0, idx as int + 1).last() == tsv[idx as int]);
            lemma_ser_journal_snoc(tsv.subrange(0, idx as int + 1));
            assert(tsv[idx as int] == state.completed_tasks@[idx as int]@);
            assert(out@ =~= after_count + spec_ser_journal(tsv.subrange(0, idx as int + 1)));
        }
        idx += 1;
    }
    proof {
        assert(state@.completed_tasks.subrange(0, n as int) =~= state@.completed_tasks);
    }
    append_num(&mut out, state.start_time);
    let ghost after_start = out@;
    match &state.end_time {
        None => {
            push_char(&mut out, 'N');
            proof {
                assert(out@ =~= after_start + spec_ser_opt_num(state@.end_time));
            }
        }
        Some(e) => {
            push_char(&mut out, 'S');
            append_num(&mut out, *e);
            proof {
                assert(out@ =~= after_start + spec_ser_opt_num(state@.end_time));
            }
        }
    }
    proof {
        assert(out@ =~= spec_serialize(state@));
        if state@.wf() {
            lemma_save_load_round_trip(state@);
        }
    }
    out
}

/// Reads the possibly absent open task at `i`.
fn parse_opt_open(s: &str, i: usize) -> (r: Option<(Option<NotCompletedTask>, usize)>)
    ensures
        match r {
            Some(p) => spec_parse_opt_open(s@, i as int) == Some(
                (
                    match p.0 {
                        Some(t) => Some(t@),
                        None => None,
                    },
                    p.1 as int,
                ),
            ),
            None => spec_parse_opt_open(s@, i as int) is None,
        },
{
    let n = s.unicode_len();
    if i >= n {
        return None;
    }
    let c = s.get_char(i);
    if c == 'N' {
        Some((None, i + 1))
    } else if c == 'S' {
        match parse_open(s, i + 1) {
            Some((t, j)) => Some((Some(t), j)),
            None => None,
        }
    } else {
        None
    }
}

/// Reads `count` completed tasks from `i`.
fn parse_journal(s: &str, i: usize, count: u64) -> (r: Option<(Vec<CompletedTask>, usize)>)
    ensures
        match r {
            Some(p) => spec_parse_journal(s@, i as int, count as int) == Some(
                (p.0@.map_values(|t: CompletedTask| t@), p.1 as int),
            ),
            None => spec_parse_journal(s@, i as int, count as int) is None,
        },
{
    let mut acc: Vec<CompletedTask> = Vec::new();
    let mut pos: usize = i;
    let mut k: u64 = 0;
    proof {
        assert(acc@.map_values(|t: CompletedTask| t@) =~= Seq::<DoneTaskView>::empty());
    }
    while k < count
        invariant
            k <= count,
            spec_parse_journal(s@, i as int, count as int) == (match spec_parse_journal(
                s@,
                pos as int,
                (count - k) as int,
            ) {
                Some((rest, end)) => Some(
                    (acc@.map_values(|t: CompletedTask| t@) + rest, end),
                ),
                None => None,
            }),
        decreases count - k,
    {
        match parse_done(s, pos) {
            None => {
                return None;
            }
            Some((t, j)) => {
                let ghost accv0 = acc@.map_values(|t: CompletedTask| t@);
                acc.push(t);
                pos = j;
                k = k + 1;
                proof {
                    let accv1 = acc@.map_values(|t: CompletedTask| t@);
                    assert(accv1 =~= accv0.push(t@));
                    let rem1 = (count - k) as int;
                    if spec_parse_journal(s@, pos as int, rem1) is Some {
                        let (rest2, end2) = spec_parse_journal(s@, pos as int, rem1)->Some_0;
                        assert(accv0 + (seq![t@] + rest2) =~= accv1 + rest2);
                    }
                }
            }
        }
    }
    proof {
        assert(acc@.map_values(|t: CompletedTask| t@) + Seq::<DoneTaskView>::empty()
            =~= acc@.map_values(|t: CompletedTask| t@));
    }
    Some((acc, pos))
}

/// Reads a whole session back from the persisted state format; anything
/// else yields nothing.
pub fn parse_session(s: &str) -> (r: Option<DailyState>)
    ensures
        match r {
            Some(d) => spec_parse_session(s@) == Some(d@),
            None => spec_parse_session(s@) is None,
        },
{
    match parse_opt_open(s, 0) {
        None => None,
        Some((cur, i)) => match parse_num(s, i) {
            None => None,
            Some((cnt, j)) => match parse_journal(s, j, cnt) {
                None => None,
                Some((ts, k)) => match parse_num(s, k) {
                    None => None,
                    Some((st, l)) => match parse_opt_num(s, l) {
                        None => None,
                        Some((et, m)) => {
                            if m == s.unicode_len() {
                                Some(
                                    DailyState {
                                        current_task: cur,
                                        completed_tasks: ts,
                                        start_time: st,
                                        end_time: et,
                                    },
                                )
                            } else {
                                None
                            }
                        }
                    },
                },
            },
        },
    }
}

} // verus!
