//! Progress lines of the build tool: `[N of M] Compiling Name` or
//! `[N of M] Skipping Name`, found anywhere in a line of free text.
use vstd::prelude::*;
use crate::text::{
    all_digits,
    chars_of,
    decimal,
    digit_char,
    digit_value,
    digits_value,
    is_digit,
    is_ws,
    occurs_at,
    push_decimal,
    string_of,
    trim,
    trim_bounds,
    trim_end,
    trim_start,
};
use vstd::string::StringExecFns;

verus! {

/// The first index at or after `i` that does not hold an ASCII digit.
pub open spec fn digit_run_end(t: Seq<char>, i: int) -> int
    decreases t.len() - i,
{
    if i < 0 || i >= t.len() {
        if i < 0 { i } else { t.len() as int }
    } else if is_digit(t[i]) {
        digit_run_end(t, i + 1)
    } else {
        i
    }
}

/// The first index at or after `i` that holds a newline, or the length of `t`.
pub open spec fn name_end(t: Seq<char>, i: int) -> int
    decreases t.len() - i,
{
    if i < 0 || i >= t.len() {
        if i < 0 { i } else { t.len() as int }
    } else if t[i] == '\n' {
        i
    } else {
        name_end(t, i + 1)
    }
}

/// Where the first number of a match at `k` ends.
pub open spec fn first_end(t: Seq<char>, k: int) -> int {
    digit_run_end(t, k + 1)
}

/// Where the second number of a match at `k` ends.
pub open spec fn second_end(t: Seq<char>, k: int) -> int {
    digit_run_end(t, first_end(t, k) + 4)
}

/// Where the unit name of a match at `k` starts.
pub open spec fn name_start(t: Seq<char>, k: int) -> int {
    let c = second_end(t, k) + 2;
    if occurs_at(t, "Compiling "@, c) {
        c + 10
    } else {
        c + 9
    }
}

/// The progress pattern matches `t` at index `k`: an opening bracket, digits,
/// ` of `, digits, `] `, `Compiling ` or `Skipping `, then at least one
/// character other than a newline.
pub open spec fn progress_match_at(t: Seq<char>, k: int) -> bool {
    let a = first_end(t, k);
    let b = second_end(t, k);
    let c = b + 2;
    let n = name_start(t, k);
    &&& 0 <= k < t.len()
    &&& t[k] == '['
    &&& a > k + 1
    &&& occurs_at(t, " of "@, a)
    &&& b > a + 4
    &&& occurs_at(t, "] "@, b)
    &&& (occurs_at(t, "Compiling "@, c) || occurs_at(t, "Skipping "@, c))
    &&& n < t.len()
    &&& t[n] != '\n'
}

/// The leftmost index at or after `i` where the pattern matches.
pub open spec fn first_match_from(t: Seq<char>, i: int) -> Option<int>
    decreases t.len() - i,
{
    if i < 0 || i >= t.len() {
        None
    } else if progress_match_at(t, i) {
        Some(i)
    } else {
        first_match_from(t, i + 1)
    }
}

/// The number written by the digits `t[lo..hi]`, if it fits in 32 bits.
pub open spec fn number_in(t: Seq<char>, lo: int, hi: int) -> Option<u32> {
    let v = digits_value(t.subrange(lo, hi));
    if v <= u32::MAX {
        Some(v as u32)
    } else {
        None
    }
}

/// What a progress line says: current unit, total units and unit name, taken
/// from the leftmost match; nothing if there is no match or a number does not
/// fit in 32 bits.
pub open spec fn progress_of(t: Seq<char>) -> Option<(u32, u32, Seq<char>)> {
    match first_match_from(t, 0) {
        None => None,
        Some(k) => {
            let a = first_end(t, k);
            let b = second_end(t, k);
            let n = name_start(t, k);
            match (number_in(t, k + 1, a), number_in(t, a + 4, b)) {
                (Some(c), Some(m)) => Some((c, m, t.subrange(n, name_end(t, n)))),
                _ => None,
            }
        },
    }
}

/// The percentage of `current` out of `total`, rounded down; none when `total` is zero.
pub open spec fn percentage_of(current: u32, total: u32) -> Option<u32> {
    if total == 0 {
        None
    } else {
        let p = current as int * 100 / total as int;
        Some(if p > u32::MAX { u32::MAX } else { p as u32 })
    }
}

/// The text shown for a progress step.
pub open spec fn progress_message_of(current: u32, total: u32, name: Seq<char>) -> Seq<char> {
    "["@ + decimal(current as nat) + "/"@ + decimal(total as nat) + "] "@ + name
}

/// One progress step, ready to show.
#[derive(Debug, Clone)]
pub struct ProgressEvent {
    pub message: String,
    pub percentage: Option<u32>,
    pub current: u32,
    pub module_name: String,
}

fn digit_run_end_exec(v: &Vec<char>, i: usize) -> (r: usize)
    requires
        i <= v@.len(),
    ensures
        r == digit_run_end(v@, i as int),
        i <= r <= v@.len(),
{
    let mut j = i;
    while j < v.len() && 48 <= v[j] as u32 && v[j] as u32 <= 57
        invariant
            i <= j <= v@.len(),
            digit_run_end(v@, i as int) == digit_run_end(v@, j as int),
        decreases v@.len() - j,
    {
        j = j + 1;
    }
    j
}

fn name_end_exec(v: &Vec<char>, i: usize) -> (r: usize)
    requires
        i <= v@.len(),
    ensures
        r == name_end(v@, i as int),
        i <= r <= v@.len(),
{
    let mut j = i;
    while j < v.len() && v[j] != '\n'
        invariant
            i <= j <= v@.len(),
            name_end(v@, i as int) == name_end(v@, j as int),
        decreases v@.len() - j,
    {
        j = j + 1;
    }
    j
}

fn occurs_lit(v: &Vec<char>, lit: &str, i: usize) -> (r: bool)
    ensures
        r == occurs_at(v@, lit@, i as int),
{
    let p = chars_of(lit);
    crate::text::occurs_at_exec(v, &p, i)
}

fn match_at_exec(v: &Vec<char>, k: usize) -> (r: bool)
    requires
        k < v@.len(),
    ensures
        r == progress_match_at(v@, k as int),
{
    let len = v.len();
    proof {
        reveal_strlit(" of ");
        reveal_strlit("] ");
        reveal_strlit("Compiling ");
        reveal_strlit("Skipping ");
    }
    if v[k] != '[' {
        return false;
    }
    let a = digit_run_end_exec(v, k + 1);
    if a == k + 1 || !occurs_lit(v, " of ", a) {
        return false;
    }
    let b = digit_run_end_exec(v, a + 4);
    if b == a + 4 || !occurs_lit(v, "] ", b) {
        return false;
    }
    let c = b + 2;
    let n = if occurs_lit(v, "Compiling ", c) {
        c + 10
    } else if occurs_lit(v, "Skipping ", c) {
        c + 9
    } else {
        return false;
    };
    n < v.len() && v[n] != '\n'
}

proof fn lemma_digits_step(s: Seq<char>, c: char)
    ensures
        digits_value(s.push(c)) == digits_value(s) * 10 + digit_value(c),
{
    assert(s.push(c).drop_last() =~= s);
}

fn number_exec(v: &Vec<char>, lo: usize, hi: usize) -> (r: Option<u32>)
    requires
        lo <= hi <= v@.len(),
        all_digits(v@.subrange(lo as int, hi as int)),
    ensures
        r == number_in(v@, lo as int, hi as int),
{
    let cap: u64 = 0x1_0000_0000;
    let mut acc: u64 = 0;
    let mut j = lo;
    while j < hi
        invariant
            lo <= j <= hi <= v@.len(),
            all_digits(v@.subrange(lo as int, hi as int)),
            cap == 0x1_0000_0000,
            acc == if digits_value(v@.subrange(lo as int, j as int)) >= cap {
                cap as int
            } else {
                digits_value(v@.subrange(lo as int, j as int)) as int
            },
        decreases hi - j,
    {
        let ghost old_val = digits_value(v@.subrange(lo as int, j as int));
        assert(v@.subrange(lo as int, hi as int)[j - lo] == v@[j as int]);
        let d = (v[j] as u32 - '0' as u32) as u64;
        proof {
            assert(v@.subrange(lo as int, j + 1) =~= v@.subrange(lo as int, j as int).push(
                v@[j as int],
            ));
            lemma_digits_step(v@.subrange(lo as int, j as int), v@[j as int]);
            if old_val >= cap {
                assert(old_val * 10 + d >= cap) by (nonlinear_arith)
                    requires
                        old_val >= cap,
                        d >= 0,
                ;
            }
        }
        if acc < cap {
            acc = acc * 10 + d;
            if acc > cap {
                acc = cap;
            }
        }
        j = j + 1;
    }
    if acc < cap {
        Some(acc as u32)
    } else {
        None
    }
}

proof fn lemma_digit_run_digits(t: Seq<char>, i: int)
    requires
        0 <= i <= t.len(),
    ensures
        i <= digit_run_end(t, i) <= t.len(),
        all_digits(t.subrange(i, digit_run_end(t, i))),
    decreases t.len() - i,
{
    if i < t.len() && is_digit(t[i]) {
        lemma_digit_run_digits(t, i + 1);
        let e = digit_run_end(t, i);
        assert forall|q: int| 0 <= q < e - i implies is_digit(#[trigger] t.subrange(i, e)[q]) by {
            if q > 0 {
                assert(t.subrange(i, e)[q] == t.subrange(i + 1, e)[q - 1]);
            }
        }
    }
}

/// Reads a progress line: the line is trimmed, then searched for the leftmost
/// match of the pattern.
pub fn parse_single_progress_line(line: &str) -> (r: Option<(u32, u32, String)>)
    ensures
        match progress_of(trim(line@)) {
            None => r is None,
            Some(p) => match r {
                Some(x) => x.0 == p.0 && x.1 == p.1 && x.2@ == p.2,
                None => false,
            },
        },
{
    let all = chars_of(line);
    let (lo, hi) = trim_bounds(&all, 0, all.len());
    assert(all@.subrange(0, all@.len() as int) =~= all@);
    let v = chars_of(string_of(&all, lo, hi).as_str());
    let ghost t = v@;
    assert(t == trim(line@));
    let mut k: usize = 0;
    while k < v.len()
        invariant
            t == v@,
            t == trim(line@),
            k <= v@.len(),
            first_match_from(t, 0) == first_match_from(t, k as int),
        decreases v@.len() - k,
    {
        if match_at_exec(&v, k) {
            proof {
                reveal_strlit(" of ");
                reveal_strlit("] ");
                reveal_strlit("Compiling ");
                reveal_strlit("Skipping ");
            }
            let a = digit_run_end_exec(&v, k + 1);
            let b = digit_run_end_exec(&v, a + 4);
            let c = b + 2;
            let n = if occurs_lit(&v, "Compiling ", c) {
                c + 10
            } else {
                c + 9
            };
            proof {
                lemma_digit_run_digits(t, k + 1);
                lemma_digit_run_digits(t, a + 4);
            }
            assert(n == name_start(t, k as int));
            assert(first_match_from(t, k as int) == Some(k as int));
            let first = number_exec(&v, k + 1, a);
            let second = number_exec(&v, a + 4, b);
            let e = name_end_exec(&v, n);
            assert(a == first_end(t, k as int));
            assert(b == second_end(t, k as int));
            if first.is_none() || second.is_none() {
                assert(progress_of(t) is None);
                return None;
            }
            let name = string_of(&v, n, e);
            assert(progress_of(t) == Some((first.unwrap(), second.unwrap(), name@)));
            return Some((first.unwrap(), second.unwrap(), name));
        }
        k = k + 1;
    }
    None
}

/// The percentage of `current` out of `total`, rounded down; none when `total` is zero.
pub fn progress_percentage(current: u32, total: u32) -> (r: Option<u32>)
    ensures
        r == percentage_of(current, total),
{
    if total == 0 {
        return None;
    }
    let p: u64 = (current as u64) * 100 / (total as u64);
    if p > u32::MAX as u64 {
        Some(u32::MAX)
    } else {
        Some(p as u32)
    }
}

/// The text shown for a progress step: `[current/total] name`.
pub fn progress_message(current: u32, total: u32, name: &str) -> (r: String)
    ensures
        r@ == progress_message_of(current, total, name@),
{
    let mut s = String::from_str("[");
    push_decimal(&mut s, current as u64);
    s.append("/");
    push_decimal(&mut s, total as u64);
    s.append("] ");
    s.append(name);
    assert(s@ =~= progress_message_of(current, total, name@));
    s
}

/// The progress step that a line of build output reports, if any.
pub fn progress_event(line: &str) -> (r: Option<ProgressEvent>)
    ensures
        match progress_of(trim(line@)) {
            None => r is None,
            Some(p) => r is Some && r->0.current == p.0 && r->0.module_name@ == p.2
                && r->0.percentage == percentage_of(p.0, p.1) && r->0.message@
                == progress_message_of(p.0, p.1, p.2),
        },
{
    match parse_single_progress_line(line) {
        None => None,
        Some((current, total, name)) => {
            let message = progress_message(current, total, name.as_str());
            Some(
                ProgressEvent {
                    message,
                    percentage: progress_percentage(current, total),
                    current,
                    module_name: name,
                },
            )
        },
    }
}

/// The progress line for unit `current` of `total` named `name`, with `verb`
/// being `"Compiling "` or `"Skipping "`.
pub open spec fn progress_line(current: u32, total: u32, verb: Seq<char>, name: Seq<char>) -> Seq<
    char,
> {
    "["@ + decimal(current as nat) + " of "@ + decimal(total as nat) + "] "@ + verb + name
}

proof fn lemma_digit_char(d: nat)
    requires
        d < 10,
    ensures
        is_digit(digit_char(d)),
        digit_value(digit_char(d)) == d,
{
}

proof fn lemma_decimal(n: nat)
    ensures
        decimal(n).len() >= 1,
        all_digits(decimal(n)),
        digits_value(decimal(n)) == n,
    decreases n,
{
    if n < 10 {
        lemma_digit_char(n);
        assert(decimal(n).drop_last() =~= Seq::<char>::empty());
        assert(digits_value(decimal(n)) == digits_value(Seq::<char>::empty()) * 10 + n);
    } else {
        lemma_decimal(n / 10);
        lemma_digit_char(n % 10);
        assert(decimal(n).drop_last() =~= decimal(n / 10));
        vstd::arithmetic::div_mod::lemma_fundamental_div_mod(n as int, 10);
        assert(digits_value(decimal(n)) == digits_value(decimal(n / 10)) * 10 + (n % 10));
    }
}

proof fn lemma_run_to(t: Seq<char>, i: int, j: int)
    requires
        0 <= i <= j <= t.len(),
        forall|q: int| i <= q < j ==> is_digit(#[trigger] t[q]),
        j == t.len() || !is_digit(t[j]),
    ensures
        digit_run_end(t, i) == j,
    decreases j - i,
{
    if i < j {
        lemma_run_to(t, i + 1, j);
    }
}

proof fn lemma_name_to_end(t: Seq<char>, i: int)
    requires
        0 <= i <= t.len(),
        forall|q: int| i <= q < t.len() ==> #[trigger] t[q] != '\n',
    ensures
        name_end(t, i) == t.len(),
    decreases t.len() - i,
{
    if i < t.len() {
        lemma_name_to_end(t, i + 1);
    }
}

/// A progress line `[current of total] Compiling name` (or `Skipping`) reads
/// back as `(current, total, name)`, provided the name is not empty, holds no
/// newline and does not end in whitespace; and a line on which the pattern
/// matches nowhere reads as nothing.
pub proof fn lemma_progress_round_trip(
    current: u32,
    total: u32,
    verb: Seq<char>,
    name: Seq<char>,
    other: Seq<char>,
)
    requires
        verb == "Compiling "@ || verb == "Skipping "@,
        name.len() > 0,
        forall|q: int| 0 <= q < name.len() ==> #[trigger] name[q] != '\n',
        !is_ws(name.last()),
    ensures
        progress_of(trim(progress_line(current, total, verb, name))) == Some(
            (current, total, name),
        ),
        (forall|k: int| !progress_match_at(trim(other), k)) ==> progress_of(trim(other)) is None,
{
    reveal_strlit("[");
    reveal_strlit(" of ");
    reveal_strlit("] ");
    reveal_strlit("Compiling ");
    reveal_strlit("Skipping ");
    let dc = decimal(current as nat);
    let dt = decimal(total as nat);
    lemma_decimal(current as nat);
    lemma_decimal(total as nat);
    let t = progress_line(current, total, verb, name);
    let a: int = 1 + dc.len() as int;
    let b: int = a + 4 + dt.len() as int;
    let c: int = b + 2;
    let n: int = c + verb.len() as int;
    assert(t.len() == n + name.len());
    // the line is its own trim
    assert(t[0] == '[');
    assert(t.last() == name.last());
    assert(trim_start(t) == t);
    assert(trim_end(t) == t);
    assert(trim(t) == t);
    // the pieces of the line
    assert(t.subrange(1, a) =~= dc);
    assert(t.subrange(a, a + 4) =~= " of "@);
    assert(t.subrange(a + 4, b) =~= dt);
    assert(t.subrange(b, b + 2) =~= "] "@);
    assert(t.subrange(c, n) =~= verb);
    assert(t.subrange(n, t.len() as int) =~= name);
    assert forall|q: int| 1 <= q < a implies is_digit(#[trigger] t[q]) by {
        assert(t[q] == dc[q - 1]);
    }
    assert(t[a] == ' ');
    lemma_run_to(t, 1, a);
    assert forall|q: int| a + 4 <= q < b implies is_digit(#[trigger] t[q]) by {
        assert(t[q] == dt[q - a - 4]);
    }
    assert(t[b] == ']');
    lemma_run_to(t, a + 4, b);
    if verb == "Skipping "@ {
        assert(t[c] == 'S');
        assert(t.subrange(c, c + 10)[0] == 'S');
        assert(!occurs_at(t, "Compiling "@, c));
    } else {
        assert(t.subrange(c, c + 10) =~= "Compiling "@);
    }
    assert(name_start(t, 0) == n);
    assert forall|q: int| n <= q < t.len() implies #[trigger] t[q] != '\n' by {
        assert(t[q] == name[q - n]);
    }
    lemma_name_to_end(t, n);
    assert(t[n] == name[0]);
    assert(progress_match_at(t, 0));
    assert(first_match_from(t, 0) == Some(0int));
    lemma_first_match_is_match(trim(other), 0);
}

proof fn lemma_first_match_is_match(t: Seq<char>, i: int)
    ensures
        first_match_from(t, i) matches Some(k) ==> progress_match_at(t, k),
    decreases t.len() - i,
{
    if 0 <= i < t.len() && !progress_match_at(t, i) {
        lemma_first_match_is_match(t, i + 1);
    }
}

} // verus!
