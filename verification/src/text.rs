//! Character-level scanning primitives shared by the diagnostic parser and
//! the configuration checks: character classes, run scanning, literal
//! prefix and substring search, line splitting, and decimal parsing.

use vstd::prelude::*;
use vstd::string::StringExecFns;

verus! {

/// Whitespace as the diagnostic grammar understands it.
pub open spec fn is_space(c: char) -> bool {
    c == ' ' || c == '\t' || c == '\n' || c == '\r' || c == '\u{b}' || c == '\u{c}'
}

/// Decimal digit.
pub open spec fn is_digit(c: char) -> bool {
    ('0' as u32) <= (c as u32) && (c as u32) <= ('9' as u32)
}

pub open spec fn digit_val(c: char) -> nat {
    ((c as u32) - ('0' as u32)) as nat
}

/// Numeric value of a digit sequence, most significant digit first.
pub open spec fn digits_val(s: Seq<char>) -> nat
    decreases s.len(),
{
    if s.len() == 0 {
        0
    } else {
        digits_val(s.drop_last()) * 10 + digit_val(s.last())
    }
}

/// End of the whitespace run that starts at `p`: the first position at or
/// after `p` holding a non-space character, or the end of the sequence.
pub open spec fn ws_end(l: Seq<char>, p: int) -> int
    decreases l.len() - p,
{
    if p < 0 || p >= l.len() {
        p
    } else if is_space(l[p]) {
        ws_end(l, p + 1)
    } else {
        p
    }
}

/// End of the digit run that starts at `p`.
pub open spec fn digit_end(l: Seq<char>, p: int) -> int
    decreases l.len() - p,
{
    if p < 0 || p >= l.len() {
        p
    } else if is_digit(l[p]) {
        digit_end(l, p + 1)
    } else {
        p
    }
}

pub proof fn lemma_ws_end_props(l: Seq<char>, p: int)
    requires
        0 <= p <= l.len(),
    ensures
        p <= ws_end(l, p) <= l.len(),
        forall|k: int| p <= k < ws_end(l, p) ==> is_space(l[k]),
    decreases l.len() - p,
{
    if p < l.len() && is_space(l[p]) {
        lemma_ws_end_props(l, p + 1);
    }
}

pub proof fn lemma_digit_end_props(l: Seq<char>, p: int)
    requires
        0 <= p <= l.len(),
    ensures
        p <= digit_end(l, p) <= l.len(),
        forall|k: int| p <= k < digit_end(l, p) ==> is_digit(l[k]),
    decreases l.len() - p,
{
    if p < l.len() && is_digit(l[p]) {
        lemma_digit_end_props(l, p + 1);
    }
}

pub fn is_space_char(c: char) -> (b: bool)
    ensures
        b == is_space(c),
{
    c == ' ' || c == '\t' || c == '\n' || c == '\r' || c == '\u{b}' || c == '\u{c}'
}

pub fn is_digit_char(c: char) -> (b: bool)
    ensures
        b == is_digit(c),
{
    let u = c as u32;
    ('0' as u32) <= u && u <= ('9' as u32)
}

pub fn ws_end_at(l: &Vec<char>, p: usize) -> (r: usize)
    requires
        p <= l@.len(),
    ensures
        r == ws_end(l@, p as int),
        p <= r <= l@.len(),
        forall|k: int| p <= k < r ==> is_space(l@[k]),
{
    let mut i = p;
    while i < l.len() && is_space_char(l[i])
        invariant
            p <= i <= l@.len(),
            ws_end(l@, p as int) == ws_end(l@, i as int),
            forall|k: int| p <= k < i ==> is_space(l@[k]),
        decreases l@.len() - i,
    {
        i = i + 1;
    }
    i
}

pub fn digit_end_at(l: &Vec<char>, p: usize) -> (r: usize)
    requires
        p <= l@.len(),
    ensures
        r == digit_end(l@, p as int),
        p <= r <= l@.len(),
        forall|k: int| p <= k < r ==> is_digit(l@[k]),
{
    let mut i = p;
    while i < l.len() && is_digit_char(l[i])
        invariant
            p <= i <= l@.len(),
            digit_end(l@, p as int) == digit_end(l@, i as int),
            forall|k: int| p <= k < i ==> is_digit(l@[k]),
        decreases l@.len() - i,
    {
        i = i + 1;
    }
    i
}

/// The pattern `pat` occurs in `l` starting at position `i`.
pub open spec fn prefix_at(l: Seq<char>, i: int, pat: Seq<char>) -> bool {
    0 <= i && i + pat.len() <= l.len() && l.subrange(i, i + pat.len()) == pat
}

pub fn prefix_at_exec(l: &Vec<char>, i: usize, pat: &Vec<char>) -> (b: bool)
    requires
        i <= l@.len(),
    ensures
        b == prefix_at(l@, i as int, pat@),
{
    if l.len() - i < pat.len() {
        return false;
    }
    let mut j: usize = 0;
    while j < pat.len()
        invariant
            0 <= j <= pat@.len(),
            i + pat@.len() <= l@.len(),
            l@.len() <= usize::MAX,
            forall|k: int| 0 <= k < j ==> l@[i + k] == pat@[k],
        decreases pat@.len() - j,
    {
        if l[i + j] != pat[j] {
            proof {
                assert(l@.subrange(i as int, i + pat@.len())[j as int] != pat@[j as int]);
            }
            return false;
        }
        j = j + 1;
    }
    proof {
        assert(l@.subrange(i as int, i + pat@.len()) =~= pat@);
    }
    true
}

/// The pattern occurs somewhere in `h`.
pub open spec fn contains_seq(h: Seq<char>, n: Seq<char>) -> bool {
    exists|i: int| prefix_at(h, i, n)
}

pub fn contains_exec(h: &Vec<char>, n: &Vec<char>) -> (b: bool)
    ensures
        b == contains_seq(h@, n@),
{
    if n.len() > h.len() {
        return false;
    }
    if n.len() == 0 {
        proof {
            assert(h@.subrange(0, 0) =~= n@);
            assert(prefix_at(h@, 0, n@));
        }
        return true;
    }
    let last = h.len() - n.len();
    let mut i: usize = 0;
    while i <= last
        invariant
            0 <= i <= last + 1,
            last == h@.len() - n@.len(),
            0 < n@.len() <= h@.len(),
            h@.len() <= usize::MAX,
            forall|k: int| 0 <= k < i ==> !prefix_at(h@, k, n@),
        decreases last + 1 - i,
    {
        if prefix_at_exec(h, i, n) {
            return true;
        }
        i = i + 1;
    }
    proof {
        assert(forall|k: int| prefix_at(h@, k, n@) ==> 0 <= k <= h@.len() - n@.len());
    }
    false
}

/// The characters of a string, one `char` per position of its view.
pub fn chars_of(s: &str) -> (v: Vec<char>)
    ensures
        v@ == s@,
{
    let n = s.unicode_len();
    let mut v: Vec<char> = Vec::new();
    let mut i: usize = 0;
    while i < n
        invariant
            0 <= i <= n,
            n == s@.len(),
            v@ == s@.take(i as int),
        decreases n - i,
    {
        let c = s.get_char(i);
        v.push(c);
        proof {
            assert(s@.take(i + 1) =~= s@.take(i as int).push(s@[i as int]));
        }
        i = i + 1;
    }
    proof {
        assert(s@.take(n as int) =~= s@);
    }
    v
}

/// A digit prefix never exceeds the value of the whole digit run.
proof fn lemma_digits_val_take_le(s: Seq<char>, i: int)
    requires
        0 <= i <= s.len(),
    ensures
        digits_val(s.take(i)) <= digits_val(s),
    decreases s.len() - i,
{
    if i < s.len() {
        assert(s.take(i + 1).drop_last() =~= s.take(i));
        assert(digits_val(s.take(i + 1)) == digits_val(s.take(i)) * 10 + digit_val(
            s.take(i + 1).last(),
        ));
        lemma_digits_val_take_le(s, i + 1);
    } else {
        assert(s.take(i) =~= s);
    }
}

/// Parse the decimal digits of `l[lo..hi]` as a `u32`; `None` exactly when
/// the value does not fit.
pub fn parse_u32_digits(l: &Vec<char>, lo: usize, hi: usize) -> (r: Option<u32>)
    requires
        lo <= hi <= l@.len(),
        forall|k: int| lo <= k < hi ==> is_digit(l@[k]),
    ensures
        match r {
            Some(v) => digits_val(l@.subrange(lo as int, hi as int)) <= u32::MAX && v
                == digits_val(l@.subrange(lo as int, hi as int)),
            None => digits_val(l@.subrange(lo as int, hi as int)) > u32::MAX,
        },
{
    let ghost whole = l@.subrange(lo as int, hi as int);
    let mut acc: u64 = 0;
    let mut i = lo;
    while i < hi
        invariant
            lo <= i <= hi <= l@.len(),
            forall|k: int| lo <= k < hi ==> is_digit(l@[k]),
            whole == l@.subrange(lo as int, hi as int),
            acc == digits_val(l@.subrange(lo as int, i as int)),
            acc <= u32::MAX,
        decreases hi - i,
    {
        let c = l[i];
        let d = (c as u32) - ('0' as u32);
        proof {
            assert(is_digit(l@[i as int]));
            assert(l@.subrange(lo as int, i + 1).drop_last() =~= l@.subrange(lo as int, i as int));
            assert(l@.subrange(lo as int, i + 1).last() == l@[i as int]);
        }
        acc = acc * 10 + (d as u64);
        i = i + 1;
        if acc > (u32::MAX as u64) {
            proof {
                assert(whole.take(i - lo) =~= l@.subrange(lo as int, i as int));
                lemma_digits_val_take_le(whole, i - lo);
            }
            return None;
        }
    }
    proof {
        assert(l@.subrange(lo as int, hi as int) =~= whole);
    }
    Some(acc as u32)
}

/// Position of the first newline of `s`, or `-1` when there is none.
pub open spec fn first_nl(s: Seq<char>) -> int
    decreases s.len(),
{
    if s.len() == 0 {
        -1
    } else if s[0] == '\n' {
        0
    } else {
        let r = first_nl(s.drop_first());
        if r < 0 {
            -1
        } else {
            r + 1
        }
    }
}

/// Drop one trailing carriage return, as line splitting does before a
/// newline.
pub open spec fn strip_cr(s: Seq<char>) -> Seq<char> {
    if s.len() > 0 && s.last() == '\r' {
        s.drop_last()
    } else {
        s
    }
}

/// The lines of `s`: split at each newline, dropping a carriage return
/// that immediately precedes one; a trailing newline opens no empty line.
pub open spec fn spec_lines(s: Seq<char>) -> Seq<Seq<char>>
    decreases s.len(),
{
    if s.len() == 0 {
        Seq::empty()
    } else {
        let i = first_nl(s);
        if i < 0 || i >= s.len() {
            seq![s]
        } else {
            seq![strip_cr(s.take(i))] + spec_lines(s.skip(i + 1))
        }
    }
}

pub proof fn lemma_first_nl_found(s: Seq<char>, m: int)
    requires
        0 <= m < s.len(),
        s[m] == '\n',
        forall|k: int| 0 <= k < m ==> s[k] != '\n',
    ensures
        first_nl(s) == m,
    decreases m,
{
    if m > 0 {
        lemma_first_nl_found(s.drop_first(), m - 1);
    }
}

/// A value that switches a boolean setting on: `1`, or `true` in any
/// letter case.
pub open spec fn is_truthy_chars(s: Seq<char>) -> bool {
    s == "1"@ || (s.len() == 4 && (s[0] == 't' || s[0] == 'T') && (s[1] == 'r' || s[1] == 'R') && (
    s[2] == 'u' || s[2] == 'U') && (s[3] == 'e' || s[3] == 'E'))
}

pub fn truthy(v: &str) -> (b: bool)
    ensures
        b == is_truthy_chars(v@),
{
    let c = chars_of(v);
    proof {
        reveal_strlit("1");
    }
    if c.len() == 1 && c[0] == '1' {
        proof {
            assert(v@ =~= "1"@);
        }
        return true;
    }
    if c.len() == 4 {
        return (c[0] == 't' || c[0] == 'T') && (c[1] == 'r' || c[1] == 'R') && (c[2] == 'u' || c[2]
            == 'U') && (c[3] == 'e' || c[3] == 'E');
    }
    false
}

/// The character of one decimal digit.
pub open spec fn digit_char(d: nat) -> char {
    if d == 0 {
        '0'
    } else if d == 1 {
        '1'
    } else if d == 2 {
        '2'
    } else if d == 3 {
        '3'
    } else if d == 4 {
        '4'
    } else if d == 5 {
        '5'
    } else if d == 6 {
        '6'
    } else if d == 7 {
        '7'
    } else if d == 8 {
        '8'
    } else {
        '9'
    }
}

/// The decimal rendering of a number, without leading zeroes.
pub open spec fn dec_str(n: nat) -> Seq<char>
    decreases n,
{
    if n < 10 {
        seq![digit_char(n)]
    } else {
        dec_str(n / 10).push(digit_char(n % 10))
    }
}

fn digit_str(d: u16) -> (s: &'static str)
    requires
        d < 10,
    ensures
        s@ == seq![digit_char(d as nat)],
{
    proof {
        reveal_strlit("0");
        reveal_strlit("1");
        reveal_strlit("2");
        reveal_strlit("3");
        reveal_strlit("4");
        reveal_strlit("5");
        reveal_strlit("6");
        reveal_strlit("7");
        reveal_strlit("8");
        reveal_strlit("9");
    }
    match d {
        0 => {
            proof {
                assert("0"@ =~= seq!['0']);
            }
            "0"
        },
        1 => {
            proof {
                assert("1"@ =~= seq!['1']);
            }
            "1"
        },
        2 => {
            proof {
                assert("2"@ =~= seq!['2']);
            }
            "2"
        },
        3 => {
            proof {
                assert("3"@ =~= seq!['3']);
            }
            "3"
        },
        4 => {
            proof {
                assert("4"@ =~= seq!['4']);
            }
            "4"
        },
        5 => {
            proof {
                assert("5"@ =~= seq!['5']);
            }
            "5"
        },
        6 => {
            proof {
                assert("6"@ =~= seq!['6']);
            }
            "6"
        },
        7 => {
            proof {
                assert("7"@ =~= seq!['7']);
            }
            "7"
        },
        8 => {
            proof {
                assert("8"@ =~= seq!['8']);
            }
            "8"
        },
        _ => {
            proof {
                assert("9"@ =~= seq!['9']);
            }
            "9"
        },
    }
}

/// Render a number in decimal.
pub fn decimal_of_u16(n: u16) -> (s: String)
    ensures
        s@ == dec_str(n as nat),
    decreases n,
{
    if n < 10 {
        digit_str(n).to_owned()
    } else {
        let mut s = decimal_of_u16(n / 10);
        s.append(digit_str(n % 10));
        proof {
            assert(dec_str((n / 10) as nat) + seq![digit_char((n % 10) as nat)] =~= dec_str(
                (n / 10) as nat,
            ).push(digit_char((n % 10) as nat)));
        }
        s
    }
}

pub proof fn lemma_first_nl_none(s: Seq<char>)
    requires
        forall|k: int| 0 <= k < s.len() ==> s[k] != '\n',
    ensures
        first_nl(s) == -1,
    decreases s.len(),
{
    if s.len() > 0 {
        lemma_first_nl_none(s.drop_first());
    }
}

} // verus!
