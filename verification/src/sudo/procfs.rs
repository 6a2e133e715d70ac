//! Reading the process facts that the sudo broker checks: a process's parent
//! and start time from `/proc/<pid>/stat`, whether it is traced from
//! `/proc/<pid>/status`, and whether the sudo executable can be trusted.

use crate::text::{decimal, is_whitespace, trim, trim_start, chars_of};
use vstd::prelude::*;

verus! {

/// Why a decimal number could not be read, as `str::parse` reports it.
#[derive(Clone, Copy, Debug, PartialEq, Eq, Structural)]
pub enum ParseIntErrorKind {
    Empty,
    InvalidDigit,
    PosOverflow,
}

impl ParseIntErrorKind {
    pub open spec fn spec_message(self) -> Seq<char> {
        match self {
            ParseIntErrorKind::Empty => "cannot parse integer from empty string"@,
            ParseIntErrorKind::InvalidDigit => "invalid digit found in string"@,
            ParseIntErrorKind::PosOverflow => "number too large to fit in target type"@,
        }
    }

    /// The error's text, as `ParseIntError` displays it.
    pub fn message(self) -> (m: &'static str)
        ensures
            m@ == self.spec_message(),
    {
        match self {
            ParseIntErrorKind::Empty => "cannot parse integer from empty string",
            ParseIntErrorKind::InvalidDigit => "invalid digit found in string",
            ParseIntErrorKind::PosOverflow => "number too large to fit in target type",
        }
    }
}

pub open spec fn is_digit(c: char) -> bool {
    '0' <= c && c <= '9'
}

pub open spec fn digit_value(c: char) -> nat {
    (c as u32 - '0' as u32) as nat
}

/// Reads decimal digits left to right; the first bad digit or the first
/// step past `max` is the error.
pub open spec fn parse_digits(s: Seq<char>, max: nat) -> Result<nat, ParseIntErrorKind>
    decreases s.len(),
{
    if s.len() == 0 {
        Ok(0)
    } else {
        match parse_digits(s.drop_last(), max) {
            Err(e) => Err(e),
            Ok(v) => if !is_digit(s.last()) {
                Err(ParseIntErrorKind::InvalidDigit)
            } else if v * 10 + digit_value(s.last()) > max {
                Err(ParseIntErrorKind::PosOverflow)
            } else {
                Ok(v * 10 + digit_value(s.last()))
            },
        }
    }
}

/// What `str::parse` gives for an unsigned integer type whose largest value is `max`.
pub open spec fn parse_unsigned(s: Seq<char>, max: nat) -> Result<nat, ParseIntErrorKind> {
    if s.len() == 0 {
        Err(ParseIntErrorKind::Empty)
    } else if s[0] == '+' {
        if s.len() == 1 {
            Err(ParseIntErrorKind::InvalidDigit)
        } else {
            parse_digits(s.drop_first(), max)
        }
    } else {
        parse_digits(s, max)
    }
}

proof fn lemma_parse_digits_err_extends(s: Seq<char>, k: int, max: nat)
    requires
        0 <= k <= s.len(),
        parse_digits(s.subrange(0, k), max) is Err,
    ensures
        parse_digits(s, max) == parse_digits(s.subrange(0, k), max),
    decreases s.len() - k,
{
    if k < s.len() {
        assert(s.drop_last().subrange(0, k) =~= s.subrange(0, k));
        lemma_parse_digits_err_extends(s.drop_last(), k, max);
    } else {
        assert(s.subrange(0, k) =~= s);
    }
}

fn parse_u64_chars(s: &Vec<char>, start: usize, end: usize, max: u64) -> (r: Result<u64, ParseIntErrorKind>)
    requires
        start <= end <= s@.len(),
        max >= 9,
    ensures
        match r {
            Ok(v) => v <= max && parse_digits(s@.subrange(start as int, end as int), max as nat) == Ok::<
                nat,
                ParseIntErrorKind,
            >(v as nat),
            Err(e) => parse_digits(s@.subrange(start as int, end as int), max as nat) == Err::<
                nat,
                ParseIntErrorKind,
            >(e),
        },
{
    let mut value: u64 = 0;
    let mut i = start;
    assert(s@.subrange(start as int, start as int) =~= Seq::<char>::empty());
    while i < end
        invariant
            start <= i <= end <= s@.len(),
            parse_digits(s@.subrange(start as int, i as int), max as nat) == Ok::<nat, ParseIntErrorKind>(
                value as nat,
            ),
            value <= max,
            max >= 9,
        decreases end - i,
    {
        let c = s[i];
        proof {
            let sub = s@.subrange(start as int, i + 1);
            assert(sub.drop_last() =~= s@.subrange(start as int, i as int));
            assert(sub.last() == c);
        }
        if !('0' <= c && c <= '9') {
            proof {
                let whole = s@.subrange(start as int, end as int);
                assert(whole.subrange(0, i - start + 1) =~= s@.subrange(start as int, i + 1));
                lemma_parse_digits_err_extends(whole, i - start + 1, max as nat);
            }
            return Err(ParseIntErrorKind::InvalidDigit);
        }
        let d = (c as u32 - '0' as u32) as u64;
        if value > (max - d) / 10 {
            assert(value * 10 + d > max) by (nonlinear_arith)
                requires
                    value > (max - d) / 10,
                    d <= 9,
                    max >= 9,
            ;
            proof {
                let whole = s@.subrange(start as int, end as int);
                assert(whole.subrange(0, i - start + 1) =~= s@.subrange(start as int, i + 1));
                lemma_parse_digits_err_extends(whole, i - start + 1, max as nat);
            }
            return Err(ParseIntErrorKind::PosOverflow);
        }
        assert(value * 10 + d <= max) by (nonlinear_arith)
            requires
                value <= (max - d) / 10,
                d <= 9,
        ;
        value = value * 10 + d;
        i = i + 1;
    }
    assert(s@.subrange(start as int, end as int) =~= s@.subrange(start as int, i as int));
    Ok(value)
}

/// Parses an unsigned decimal number of at most `max`, as `str::parse` does.
pub(crate) fn parse_unsigned_chars(s: &Vec<char>, start: usize, end: usize, max: u64) -> (r: Result<
    u64,
    ParseIntErrorKind,
>)
    requires
        start <= end <= s@.len(),
        max >= 9,
    ensures
        match r {
            Ok(v) => v <= max && parse_unsigned(s@.subrange(start as int, end as int), max as nat) == Ok::<
                nat,
                ParseIntErrorKind,
            >(v as nat),
            Err(e) => parse_unsigned(s@.subrange(start as int, end as int), max as nat) == Err::<
                nat,
                ParseIntErrorKind,
            >(e),
        },
{
    let ghost sub = s@.subrange(start as int, end as int);
    if start == end {
        return Err(ParseIntErrorKind::Empty);
    }
    if s[start] == '+' {
        if end - start == 1 {
            return Err(ParseIntErrorKind::InvalidDigit);
        }
        assert(sub.drop_first() =~= s@.subrange(start + 1, end as int));
        parse_u64_chars(s, start + 1, end, max)
    } else {
        parse_u64_chars(s, start, end, max)
    }
}

proof fn lemma_digit_char(d: nat)
    requires
        d < 10,
    ensures
        is_digit(crate::text::digit_char(d)),
        digit_value(crate::text::digit_char(d)) == d,
{
    let c = crate::text::digit_char(d);
    assert(c as u32 == 48 + d);
}

/// Reading back a decimal rendering gives the number.
pub proof fn lemma_parse_decimal(n: nat, max: nat)
    requires
        n <= max,
    ensures
        parse_digits(decimal(n), max) == Ok::<nat, ParseIntErrorKind>(n),
    decreases n,
{
    lemma_digit_char(n % 10);
    if n < 10 {
        let s = decimal(n);
        assert(s == seq![crate::text::digit_char(n)]);
        assert(s.drop_last() =~= Seq::<char>::empty());
        assert(s.last() == crate::text::digit_char(n));
        assert(parse_digits(s.drop_last(), max) == Ok::<nat, ParseIntErrorKind>(0));
        assert(is_digit(s.last()));
        assert(digit_value(s.last()) == n);
    } else {
        lemma_parse_decimal(n / 10, max);
        let s = decimal(n);
        assert(s.drop_last() == decimal(n / 10));
        assert(s.last() == crate::text::digit_char(n % 10));
        assert((n / 10) * 10 + n % 10 == n);
        assert(parse_digits(s.drop_last(), max) == Ok::<nat, ParseIntErrorKind>(n / 10));
        assert(is_digit(s.last()));
        assert(digit_value(s.last()) == n % 10);
    }
}

/// The white space that `split_ascii_whitespace` splits at.
pub open spec fn is_ascii_ws(c: char) -> bool {
    c == ' ' || c == '\t' || c == '\n' || c == '\u{0C}' || c == '\r'
}

/// The words of `s` between runs of ASCII white space, as
/// `split_ascii_whitespace` gives them; `current` is the word being read.
pub open spec fn words_from(s: Seq<char>, current: Seq<char>) -> Seq<Seq<char>>
    decreases s.len(),
{
    if s.len() == 0 {
        if current.len() == 0 {
            Seq::empty()
        } else {
            seq![current]
        }
    } else if is_ascii_ws(s[0]) {
        if current.len() == 0 {
            words_from(s.drop_first(), current)
        } else {
            seq![current] + words_from(s.drop_first(), Seq::empty())
        }
    } else {
        words_from(s.drop_first(), current.push(s[0]))
    }
}

pub open spec fn words(s: Seq<char>) -> Seq<Seq<char>> {
    words_from(s, Seq::empty())
}

/// The text after the last `)`, if there is one.
pub open spec fn after_last_paren(s: Seq<char>) -> Option<Seq<char>>
    decreases s.len(),
{
    if s.len() == 0 {
        None
    } else if s.last() == ')' {
        Some(Seq::empty())
    } else {
        match after_last_paren(s.drop_last()) {
            Some(rest) => Some(rest.push(s.last())),
            None => None,
        }
    }
}

/// The parent and start time of a process.
#[derive(Clone, Copy, Debug, PartialEq, Eq, Structural)]
pub struct ProcessStat {
    pub parent_pid: u32,
    pub start_time: u64,
}

/// Why a `/proc` file could not be read.
#[derive(Clone, Copy, Debug, PartialEq, Eq, Structural)]
pub enum ProcError {
    InvalidStat,
    MissingParentPid,
    MissingStartTime,
    MissingTracerPid,
    Number(ParseIntErrorKind),
}

impl ProcError {
    pub open spec fn spec_message(self) -> Seq<char> {
        match self {
            ProcError::InvalidStat => "invalid process stat"@,
            ProcError::MissingParentPid => "process stat omitted parent PID"@,
            ProcError::MissingStartTime => "process stat omitted start time"@,
            ProcError::MissingTracerPid => "process status omitted TracerPid"@,
            ProcError::Number(k) => k.spec_message(),
        }
    }

    /// The error's text.
    pub fn message(self) -> (m: &'static str)
        ensures
            m@ == self.spec_message(),
    {
        match self {
            ProcError::InvalidStat => "invalid process stat",
            ProcError::MissingParentPid => "process stat omitted parent PID",
            ProcError::MissingStartTime => "process stat omitted start time",
            ProcError::MissingTracerPid => "process status omitted TracerPid",
            ProcError::Number(k) => k.message(),
        }
    }
}

/// What `/proc/<pid>/stat` says: the fields after the command name (which
/// ends at the last `)`) are split at white space; the second is the parent
/// and the twentieth the start time.
pub open spec fn spec_parse_stat(stat: Seq<char>) -> Result<(nat, nat), ProcError> {
    match after_last_paren(stat) {
        None => Err(ProcError::InvalidStat),
        Some(rest) => {
            let fields = words(trim_start(rest));
            if fields.len() < 2 {
                Err(ProcError::MissingParentPid)
            } else {
                match parse_unsigned(fields[1], u32::MAX as nat) {
                    Err(e) => Err(ProcError::Number(e)),
                    Ok(parent) => if fields.len() < 20 {
                        Err(ProcError::MissingStartTime)
                    } else {
                        match parse_unsigned(fields[19], u64::MAX as nat) {
                            Err(e) => Err(ProcError::Number(e)),
                            Ok(start) => Ok((parent, start)),
                        }
                    },
                }
            }
        },
    }
}

proof fn lemma_after_last_paren(s: Seq<char>, p: int)
    requires
        0 <= p < s.len(),
        s[p] == ')',
        forall|j: int| p < j < s.len() ==> s[j] != ')',
    ensures
        after_last_paren(s) == Some(s.subrange(p + 1, s.len() as int)),
    decreases s.len(),
{
    if p == s.len() - 1 {
        assert(s.subrange(p + 1, s.len() as int) =~= Seq::<char>::empty());
    } else {
        assert(s.drop_last()[p] == s[p]);
        lemma_after_last_paren(s.drop_last(), p);
        assert(s.subrange(p + 1, s.len() as int) =~= s.drop_last().subrange(
            p + 1,
            s.drop_last().len() as int,
        ).push(s.last()));
    }
}

proof fn lemma_no_paren(s: Seq<char>)
    requires
        forall|j: int| 0 <= j < s.len() ==> s[j] != ')',
    ensures
        after_last_paren(s) is None,
    decreases s.len(),
{
    if s.len() > 0 {
        assert(s[s.len() - 1] == s.last());
        assert forall|j: int| 0 <= j < s.drop_last().len() implies s.drop_last()[j] != ')' by {
            assert(s.drop_last()[j] == s[j]);
        }
        lemma_no_paren(s.drop_last());
    }
}

fn is_ascii_ws_char(c: char) -> (b: bool)
    ensures
        b == is_ascii_ws(c),
{
    c == ' ' || c == '\t' || c == '\n' || c == '\u{0C}' || c == '\r'
}

/// Splits `s[start..]` into words: the start and end index of each.
fn split_words(s: &Vec<char>, start: usize) -> (r: Vec<(usize, usize)>)
    requires
        start <= s@.len(),
    ensures
        r@.len() == words(s@.subrange(start as int, s@.len() as int)).len(),
        forall|k: int|
            0 <= k < r@.len() ==> r@[k].0 <= r@[k].1 <= s@.len() && s@.subrange(
                r@[k].0 as int,
                r@[k].1 as int,
            ) == words(s@.subrange(start as int, s@.len() as int))[k],
{
    let n = s.len();
    let mut out: Vec<(usize, usize)> = Vec::new();
    let mut i = start;
    let mut word_start = start;
    let ghost all = s@.subrange(start as int, n as int);
    assert(s@.subrange(start as int, start as int) =~= Seq::<char>::empty());
    assert(out@.map_values(|w: (usize, usize)| s@.subrange(w.0 as int, w.1 as int)) =~= Seq::<
        Seq<char>,
    >::empty());
    assert(Seq::<Seq<char>>::empty() + words_from(all, Seq::<char>::empty()) =~= words(all));
    while i < n
        invariant
            n == s@.len(),
            start <= word_start <= i <= n,
            all == s@.subrange(start as int, n as int),
            words(all) == out@.map_values(|w: (usize, usize)| s@.subrange(w.0 as int, w.1 as int))
                + words_from(s@.subrange(i as int, n as int), s@.subrange(word_start as int, i as int)),
            forall|k: int| 0 <= k < out@.len() ==> (#[trigger] out@[k]).0 <= out@[k].1 <= n,
        decreases n - i,
    {
        let ghost rest = s@.subrange(i as int, n as int);
        let ghost cur = s@.subrange(word_start as int, i as int);
        assert(rest.drop_first() =~= s@.subrange(i + 1, n as int));
        assert(rest[0] == s@[i as int]);
        let ghost prev = out@.map_values(|w: (usize, usize)| s@.subrange(w.0 as int, w.1 as int));
        if is_ascii_ws_char(s[i]) {
            if word_start < i {
                out.push((word_start, i));
                assert(out@.map_values(|w: (usize, usize)| s@.subrange(w.0 as int, w.1 as int))
                    =~= prev.push(cur));
                assert(s@.subrange(i + 1, i + 1) =~= Seq::<char>::empty());
                assert(prev + (seq![cur] + words_from(rest.drop_first(), Seq::empty())) =~= prev.push(
                    cur,
                ) + words_from(rest.drop_first(), Seq::empty()));
            } else {
                assert(cur =~= Seq::<char>::empty());
                assert(s@.subrange(i + 1, i + 1) =~= Seq::<char>::empty());
            }
            word_start = i + 1;
        } else {
            assert(s@.subrange(word_start as int, i + 1) =~= cur.push(s@[i as int]));
        }
        i = i + 1;
    }
    let ghost cur = s@.subrange(word_start as int, n as int);
    let ghost prev = out@.map_values(|w: (usize, usize)| s@.subrange(w.0 as int, w.1 as int));
    assert(s@.subrange(n as int, n as int) =~= Seq::<char>::empty());
    if word_start < n {
        out.push((word_start, n));
        assert(out@.map_values(|w: (usize, usize)| s@.subrange(w.0 as int, w.1 as int)) =~= prev.push(
            cur,
        ));
        assert(prev + seq![cur] =~= prev.push(cur));
    } else {
        assert(cur =~= Seq::<char>::empty());
        assert(prev + Seq::<Seq<char>>::empty() =~= prev);
    }
    proof {
        let v = out@.map_values(|w: (usize, usize)| s@.subrange(w.0 as int, w.1 as int));
        assert(words(all) =~= v);
        assert forall|k: int| 0 <= k < out@.len() implies out@[k].0 <= out@[k].1 <= s@.len()
            && s@.subrange(out@[k].0 as int, out@[k].1 as int) == words(all)[k] by {
            assert(v[k] == s@.subrange(out@[k].0 as int, out@[k].1 as int));
        }
    }
    out
}

/// Reads the parent and start time from the text of `/proc/<pid>/stat`.
pub fn parse_process_stat(stat: &str) -> (r: Result<ProcessStat, ProcError>)
    ensures
        match r {
            Ok(st) => spec_parse_stat(stat@) == Ok::<(nat, nat), ProcError>(
                (st.parent_pid as nat, st.start_time as nat),
            ),
            Err(e) => spec_parse_stat(stat@) == Err::<(nat, nat), ProcError>(e),
        },
{
    let s = chars_of(stat);
    let n = s.len();
    let mut p = n;
    while p > 0 && s[p - 1] != ')'
        invariant
            p <= n == s@.len(),
            forall|j: int| p <= j < n ==> s@[j] != ')',
        decreases p,
    {
        p = p - 1;
    }
    if p == 0 {
        proof {
            lemma_no_paren(s@);
        }
        return Err(ProcError::InvalidStat);
    }
    proof {
        lemma_after_last_paren(s@, p - 1);
    }
    let mut start = p;
    while start < n && crate::text::char_is_whitespace(s[start])
        invariant
            p <= start <= n == s@.len(),
            trim_start(s@.subrange(p as int, n as int)) == trim_start(s@.subrange(start as int, n as int)),
        decreases n - start,
    {
        proof {
            let rest = s@.subrange(start as int, n as int);
            assert(rest.drop_first() =~= s@.subrange(start + 1, n as int));
            assert(rest[0] == s@[start as int]);
        }
        start = start + 1;
    }
    proof {
        let rest = s@.subrange(start as int, n as int);
        assert(rest.len() == 0 || !is_whitespace(rest[0]));
    }
    let fields = split_words(&s, start);
    if fields.len() < 2 {
        return Err(ProcError::MissingParentPid);
    }
    let parent = match parse_unsigned_chars(&s, fields[1].0, fields[1].1, 4294967295u64) {
        Ok(v) => v,
        Err(e) => {
            return Err(ProcError::Number(e));
        },
    };
    if fields.len() < 20 {
        return Err(ProcError::MissingStartTime);
    }
    let start_time = match parse_unsigned_chars(&s, fields[19].0, fields[19].1, u64::MAX) {
        Ok(v) => v,
        Err(e) => {
            return Err(ProcError::Number(e));
        },
    };
    Ok(ProcessStat { parent_pid: parent as u32, start_time })
}

/// The lines of a text, as `str::lines` gives them: split at `\n`, a `\r`
/// before it dropped, no empty line after a final `\n`.
pub open spec fn lines_from(s: Seq<char>, current: Seq<char>) -> Seq<Seq<char>>
    decreases s.len(),
{
    if s.len() == 0 {
        if current.len() == 0 {
            Seq::empty()
        } else {
            seq![strip_cr(current)]
        }
    } else if s[0] == '\n' {
        seq![strip_cr(current)] + lines_from(s.drop_first(), Seq::empty())
    } else {
        lines_from(s.drop_first(), current.push(s[0]))
    }
}

pub open spec fn strip_cr(line: Seq<char>) -> Seq<char> {
    if line.len() > 0 && line.last() == '\r' {
        line.drop_last()
    } else {
        line
    }
}

pub open spec fn lines(s: Seq<char>) -> Seq<Seq<char>> {
    lines_from(s, Seq::empty())
}

pub open spec fn has_prefix(s: Seq<char>, prefix: Seq<char>) -> bool {
    prefix.len() <= s.len() && s.subrange(0, prefix.len() as int) == prefix
}

/// The rest of the first line that starts with `prefix`.
pub open spec fn first_with_prefix(ls: Seq<Seq<char>>, prefix: Seq<char>) -> Option<Seq<char>>
    decreases ls.len(),
{
    if ls.len() == 0 {
        None
    } else if has_prefix(ls[0], prefix) {
        Some(ls[0].subrange(prefix.len() as int, ls[0].len() as int))
    } else {
        first_with_prefix(ls.drop_first(), prefix)
    }
}

/// What `/proc/<pid>/status` says of the tracer: the number on its
/// `TracerPid:` line.
pub open spec fn spec_tracer_pid(status: Seq<char>) -> Result<nat, ProcError> {
    match first_with_prefix(lines(status), "TracerPid:"@) {
        None => Err(ProcError::MissingTracerPid),
        Some(rest) => match parse_unsigned(trim(rest), u32::MAX as nat) {
            Ok(v) => Ok(v),
            Err(e) => Err(ProcError::Number(e)),
        },
    }
}

fn strip_cr_end(s: &Vec<char>, a: usize, b: usize) -> (e: usize)
    requires
        a <= b <= s@.len(),
    ensures
        a <= e <= b,
        s@.subrange(a as int, e as int) == strip_cr(s@.subrange(a as int, b as int)),
{
    let ghost line = s@.subrange(a as int, b as int);
    if b > a && s[b - 1] == '\r' {
        assert(line.last() == s@[b - 1]);
        assert(line.drop_last() =~= s@.subrange(a as int, b - 1));
        b - 1
    } else {
        b
    }
}

/// Splits `s` into lines: the start and end index of each.
fn split_lines(s: &Vec<char>) -> (r: Vec<(usize, usize)>)
    ensures
        r@.len() == lines(s@).len(),
        forall|k: int|
            0 <= k < r@.len() ==> (#[trigger] r@[k]).0 <= r@[k].1 <= s@.len() && s@.subrange(
                r@[k].0 as int,
                r@[k].1 as int,
            ) == lines(s@)[k],
{
    let n = s.len();
    let mut out: Vec<(usize, usize)> = Vec::new();
    let mut i: usize = 0;
    let mut line_start: usize = 0;
    assert(s@.subrange(0, 0) =~= Seq::<char>::empty());
    assert(s@.subrange(0, n as int) =~= s@);
    assert(out@.map_values(|w: (usize, usize)| s@.subrange(w.0 as int, w.1 as int)) =~= Seq::<
        Seq<char>,
    >::empty());
    assert(Seq::<Seq<char>>::empty() + lines_from(s@, Seq::<char>::empty()) =~= lines(s@));
    while i < n
        invariant
            n == s@.len(),
            line_start <= i <= n,
            lines(s@) == out@.map_values(|w: (usize, usize)| s@.subrange(w.0 as int, w.1 as int))
                + lines_from(s@.subrange(i as int, n as int), s@.subrange(line_start as int, i as int)),
            forall|k: int| 0 <= k < out@.len() ==> (#[trigger] out@[k]).0 <= out@[k].1 <= n,
        decreases n - i,
    {
        let ghost rest = s@.subrange(i as int, n as int);
        let ghost cur = s@.subrange(line_start as int, i as int);
        assert(rest.drop_first() =~= s@.subrange(i + 1, n as int));
        assert(rest[0] == s@[i as int]);
        let ghost prev = out@.map_values(|w: (usize, usize)| s@.subrange(w.0 as int, w.1 as int));
        if s[i] == '\n' {
            let e = strip_cr_end(s, line_start, i);
            out.push((line_start, e));
            assert(out@.map_values(|w: (usize, usize)| s@.subrange(w.0 as int, w.1 as int)) =~= prev.push(
                strip_cr(cur),
            ));
            assert(s@.subrange(i + 1, i + 1) =~= Seq::<char>::empty());
            assert(prev + (seq![strip_cr(cur)] + lines_from(rest.drop_first(), Seq::empty()))
                =~= prev.push(strip_cr(cur)) + lines_from(rest.drop_first(), Seq::empty()));
            line_start = i + 1;
        } else {
            assert(s@.subrange(line_start as int, i + 1) =~= cur.push(s@[i as int]));
        }
        i = i + 1;
    }
    let ghost cur = s@.subrange(line_start as int, n as int);
    let ghost prev = out@.map_values(|w: (usize, usize)| s@.subrange(w.0 as int, w.1 as int));
    assert(s@.subrange(n as int, n as int) =~= Seq::<char>::empty());
    if line_start < n {
        let e = strip_cr_end(s, line_start, n);
        out.push((line_start, e));
        assert(out@.map_values(|w: (usize, usize)| s@.subrange(w.0 as int, w.1 as int)) =~= prev.push(
            strip_cr(cur),
        ));
        assert(prev + seq![strip_cr(cur)] =~= prev.push(strip_cr(cur)));
    } else {
        assert(cur =~= Seq::<char>::empty());
        assert(prev + Seq::<Seq<char>>::empty() =~= prev);
    }
    proof {
        let v = out@.map_values(|w: (usize, usize)| s@.subrange(w.0 as int, w.1 as int));
        assert(lines(s@) =~= v);
        assert forall|k: int| 0 <= k < out@.len() implies (#[trigger] out@[k]).0 <= out@[k].1
            <= s@.len() && s@.subrange(out@[k].0 as int, out@[k].1 as int) == lines(s@)[k] by {
            assert(v[k] == s@.subrange(out@[k].0 as int, out@[k].1 as int));
        }
    }
    out
}

fn starts_with_at(s: &Vec<char>, a: usize, b: usize, prefix: &Vec<char>) -> (r: bool)
    requires
        a <= b <= s@.len(),
    ensures
        r == has_prefix(s@.subrange(a as int, b as int), prefix@),
{
    let ghost line = s@.subrange(a as int, b as int);
    if b - a < prefix.len() {
        return false;
    }
    let mut k: usize = 0;
    while k < prefix.len()
        invariant
            a + prefix@.len() <= b <= s@.len(),
            line == s@.subrange(a as int, b as int),
            k <= prefix@.len(),
            forall|j: int| 0 <= j < k ==> s@[a + j] == #[trigger] prefix@[j],
        decreases prefix@.len() - k,
    {
        if s[a + k] != prefix[k] {
            assert(line.subrange(0, prefix@.len() as int)[k as int] != prefix@[k as int]);
            return false;
        }
        k = k + 1;
    }
    assert(line.subrange(0, prefix@.len() as int) =~= prefix@);
    true
}

/// Reads the tracer's process id from the text of `/proc/<pid>/status`;
/// a process is traced when it is not 0.
pub fn parse_tracer_pid(status: &str) -> (r: Result<u32, ProcError>)
    ensures
        match r {
            Ok(v) => spec_tracer_pid(status@) == Ok::<nat, ProcError>(v as nat),
            Err(e) => spec_tracer_pid(status@) == Err::<nat, ProcError>(e),
        },
{
    let s = chars_of(status);
    let prefix = chars_of("TracerPid:");
    proof {
        reveal_strlit("TracerPid:");
    }
    let ranges = split_lines(&s);
    let ghost ls = lines(s@);
    let mut k: usize = 0;
    assert(ls.subrange(0, ls.len() as int) =~= ls);
    while k < ranges.len()
        invariant
            s@ == status@,
            ls == lines(s@),
            prefix@ == "TracerPid:"@,
            ranges@.len() == ls.len(),
            forall|j: int|
                0 <= j < ranges@.len() ==> (#[trigger] ranges@[j]).0 <= ranges@[j].1 <= s@.len()
                    && s@.subrange(ranges@[j].0 as int, ranges@[j].1 as int) == ls[j],
            k <= ls.len(),
            first_with_prefix(ls, prefix@) == first_with_prefix(ls.subrange(k as int, ls.len() as int), prefix@),
        decreases ranges@.len() - k,
    {
        let (a, b) = ranges[k];
        let ghost rest = ls.subrange(k as int, ls.len() as int);
        assert(rest.drop_first() =~= ls.subrange(k + 1, ls.len() as int));
        assert(rest[0] == ls[k as int]);
        if starts_with_at(&s, a, b, &prefix) {
            let ghost line = s@.subrange(a as int, b as int);
            let mut v: Vec<char> = Vec::new();
            let mut j = a + prefix.len();
            while j < b
                invariant
                    a + prefix@.len() <= j <= b <= s@.len(),
                    v@ == s@.subrange(a + prefix@.len(), j as int),
                decreases b - j,
            {
                v.push(s[j]);
                j = j + 1;
                assert(v@ =~= s@.subrange(a + prefix@.len(), j as int));
            }
            assert(v@ =~= line.subrange(prefix@.len() as int, line.len() as int));
            proof {
                assert(ls[k as int] == line);
                assert(has_prefix(rest[0], prefix@));
                assert(first_with_prefix(rest, prefix@) == Some(
                    line.subrange(prefix@.len() as int, line.len() as int),
                ));
                assert(s@ == status@);
            }
            let t = crate::text::trim_chars(&v);
            assert(t@.subrange(0, t@.len() as int) =~= t@);
            return match parse_unsigned_chars(&t, 0, t.len(), 4294967295u64) {
                Ok(value) => Ok(value as u32),
                Err(e) => Err(ProcError::Number(e)),
            };
        }
        k = k + 1;
    }
    Err(ProcError::MissingTracerPid)
}

/// What the sudo executable must be: a regular file owned by root, set-uid,
/// not writable by group or others, and executable.
pub open spec fn sudo_trusted(is_file: bool, uid: u32, mode: u32) -> bool {
    &&& is_file
    &&& uid == 0
    &&& mode & 0o4000 != 0
    &&& mode & 0o022 == 0
    &&& mode & 0o111 != 0
}

/// Whether the sudo executable's metadata meets the trust requirements.
pub fn sudo_meets_trust_requirements(is_file: bool, uid: u32, mode: u32) -> (b: bool)
    ensures
        b == sudo_trusted(is_file, uid, mode),
{
    is_file && uid == 0 && mode & 0o4000 != 0 && mode & 0o022 == 0 && mode & 0o111 != 0
}


// ---------------------------------------------------------------------------
// Ancestry
// ---------------------------------------------------------------------------

/// Most parents read while looking for an ancestor.
pub const MAX_ANCESTOR_STEPS: u32 = 128;

/// What an ancestor search does next.
#[derive(Clone, Copy, Debug, PartialEq, Eq, Structural)]
pub enum AncestorStep {
    /// The search is over: whether the ancestor was found.
    Answer(bool),
    /// The parent of this process is needed.
    ReadParent(u32),
}

/// A search up the process tree for an ancestor: the process reached and
/// how many parents were read.
#[derive(Clone, Copy, Debug, PartialEq, Eq, Structural)]
pub struct AncestorSearch {
    pub ancestor: u32,
    pub current: u32,
    pub steps: u32,
}

/// What the search does at `current`: it found the ancestor, or it needs
/// the parent of `current`.
pub open spec fn step_at(ancestor: u32, current: u32) -> AncestorStep {
    if current == ancestor {
        AncestorStep::Answer(true)
    } else {
        AncestorStep::ReadParent(current)
    }
}

/// Starts looking for `ancestor` among `pid` and its ancestors.
pub fn begin_ancestor_search(pid: u32, ancestor: u32) -> (r: (AncestorSearch, AncestorStep))
    ensures
        r.0 == (AncestorSearch { ancestor, current: pid, steps: 0 }),
        r.1 == step_at(ancestor, pid),
{
    let search = AncestorSearch { ancestor, current: pid, steps: 0 };
    if pid == ancestor {
        (search, AncestorStep::Answer(true))
    } else {
        (search, AncestorStep::ReadParent(pid))
    }
}

/// The search after reading the parent of the current process: a search
/// that already read as many parents as it may, the root (parent 0) or a
/// process that is its own parent ends it unfound; so does reaching the step
/// limit; otherwise it goes on at the parent.
pub open spec fn spec_after_parent(search: AncestorSearch, parent: u32) -> (AncestorSearch, AncestorStep) {
    if search.steps >= MAX_ANCESTOR_STEPS || parent == 0 || parent == search.current {
        (search, AncestorStep::Answer(false))
    } else {
        let next = AncestorSearch { ancestor: search.ancestor, current: parent, steps: (search.steps + 1) as u32 };
        if next.steps >= MAX_ANCESTOR_STEPS {
            (next, AncestorStep::Answer(false))
        } else {
            (next, step_at(search.ancestor, parent))
        }
    }
}

/// Continues a search with the parent that was read.
pub fn ancestor_search_step(search: AncestorSearch, parent: u32) -> (r: (AncestorSearch, AncestorStep))
    ensures
        r == spec_after_parent(search, parent),
{
    if search.steps >= MAX_ANCESTOR_STEPS || parent == 0 || parent == search.current {
        return (search, AncestorStep::Answer(false));
    }
    let next = AncestorSearch { ancestor: search.ancestor, current: parent, steps: search.steps + 1 };
    if next.steps >= MAX_ANCESTOR_STEPS {
        (next, AncestorStep::Answer(false))
    } else if parent == search.ancestor {
        (next, AncestorStep::Answer(true))
    } else {
        (next, AncestorStep::ReadParent(parent))
    }
}

/// A search finds the ancestor only at the ancestor itself, and asks for
/// parents only while under the step limit.
pub proof fn lemma_ancestor_search_sound(search: AncestorSearch, parent: u32)
    ensures
        spec_after_parent(search, parent).1 == AncestorStep::Answer(true) ==> spec_after_parent(
            search,
            parent,
        ).0.current == search.ancestor,
        spec_after_parent(search, parent).1 matches AncestorStep::ReadParent(p) ==> p
            == spec_after_parent(search, parent).0.current && spec_after_parent(search, parent).0.steps
            < MAX_ANCESTOR_STEPS,
        spec_after_parent(search, parent).0.ancestor == search.ancestor,
{
}


/// Whether the text of `/proc/<pid>/status` shows a tracer.
pub fn process_is_traced(status: &str) -> (r: Result<bool, ProcError>)
    ensures
        match spec_tracer_pid(status@) {
            Ok(v) => r == Ok::<bool, ProcError>(v != 0),
            Err(e) => r == Err::<bool, ProcError>(e),
        },
{
    match parse_tracer_pid(status) {
        Ok(v) => Ok(v != 0),
        Err(e) => Err(e),
    }
}

} // verus!
