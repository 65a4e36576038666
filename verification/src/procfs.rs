//! Parsing of the text that Linux reports in /proc/meminfo and /proc/stat,
//! and of the clock tick rate that `getconf CLK_TCK` prints.
//!
//! The text is split the way `str::split('\n')` and `str::split_whitespace`
//! split it, and numbers are read the way `from_str` reads them. Where the
//! server gives up on malformed text, the parsers here report
//! `ProcParseError::Malformed`.
use vstd::prelude::*;
use vstd::std_specs::iter::IteratorSpec;
use crate::stats::{Ram, RamData};

verus! {

/// Why reading /proc text did not give a result.
#[derive(Debug, Clone, Copy, PartialEq, Eq, Structural)]
pub enum ProcParseError {
    /// The lines that the result needs were not all present.
    Incomplete,
    /// A line lacks a field, a number does not parse or fit, or a result
    /// does not fit.
    Malformed,
}

/// The ticks one CPU spent in user, nice, system and idle time over the
/// measured interval.
#[derive(Debug, Clone, Copy, PartialEq, Eq, Structural)]
pub struct CpuTicks {
    pub user: u64,
    pub nice: u64,
    pub system: u64,
    pub idle: u64,
}

// ---------------------------------------------------------------------------
// Characters, lines and fields
// ---------------------------------------------------------------------------

/// The characters of `s`.
pub fn chars_of(s: &str) -> (v: Vec<char>)
    ensures
        v@ == s@,
{
    broadcast use vstd::string::group_string_axioms;
    let mut v: Vec<char> = Vec::new();
    let mut it = s.chars();
    assert(it.remaining() == s@);
    loop
        invariant
            v@ + it.remaining() == s@,
            it.decrease() is Some,
        ensures
            v@ == s@,
        decreases it.decrease()->0,
    {
        let ghost before = it.remaining();
        match it.next() {
            Some(c) => {
                v.push(c);
                assert(v@ + it.remaining() =~= s@) by {
                    assert(before =~= seq![c] + it.remaining());
                }
            },
            None => {
                assert(v@ =~= s@);
                break;
            },
        }
    }
    v
}

/// Unicode's White_Space property, which `char::is_whitespace` tests.
pub open spec fn is_white_space(c: char) -> bool {
    ||| c == '\t'
    ||| c == '\n'
    ||| c == '\u{0B}'
    ||| c == '\u{0C}'
    ||| c == '\r'
    ||| c == ' '
    ||| c == '\u{85}'
    ||| c == '\u{A0}'
    ||| c == '\u{1680}'
    ||| ('\u{2000}' <= c && c <= '\u{200A}')
    ||| c == '\u{2028}'
    ||| c == '\u{2029}'
    ||| c == '\u{202F}'
    ||| c == '\u{205F}'
    ||| c == '\u{3000}'
}

/// Whether `c` is white space.
pub fn white_space(c: char) -> (b: bool)
    ensures
        b == is_white_space(c),
{
    c == '\t' || c == '\n' || c == '\u{0B}' || c == '\u{0C}' || c == '\r' || c == ' ' || c == '\u{85}'
        || c == '\u{A0}' || c == '\u{1680}' || ('\u{2000}' <= c && c <= '\u{200A}') || c == '\u{2028}'
        || c == '\u{2029}' || c == '\u{202F}' || c == '\u{205F}' || c == '\u{3000}'
}

/// The pieces of `s` between line feeds, as `str::split('\n')` gives them:
/// one more piece than there are line feeds.
pub open spec fn split_lines(s: Seq<char>) -> Seq<Seq<char>>
    decreases s.len(),
{
    if s.len() == 0 {
        seq![Seq::empty()]
    } else {
        let rest = split_lines(s.drop_first());
        if s[0] == '\n' {
            seq![Seq::empty()] + rest
        } else {
            rest.update(0, seq![s[0]] + rest[0])
        }
    }
}

/// The maximal runs of characters that are not white space, as
/// `str::split_whitespace` gives them.
pub open spec fn ws_fields(s: Seq<char>) -> Seq<Seq<char>>
    decreases s.len(),
{
    if s.len() == 0 {
        Seq::empty()
    } else {
        let rest = ws_fields(s.drop_first());
        if is_white_space(s[0]) {
            rest
        } else if s.len() > 1 && !is_white_space(s[1]) {
            rest.update(0, seq![s[0]] + rest[0])
        } else {
            seq![seq![s[0]]] + rest
        }
    }
}

/// Whether `needle` occurs in `hay`.
pub open spec fn contains_seq(hay: Seq<char>, needle: Seq<char>) -> bool {
    exists|i: int| 0 <= i <= hay.len() - needle.len() && #[trigger] hay.subrange(i, i + needle.len()) == needle
}

proof fn lemma_split_lines_len(s: Seq<char>)
    ensures
        split_lines(s).len() >= 1,
    decreases s.len(),
{
    if s.len() > 0 {
        lemma_split_lines_len(s.drop_first());
    }
}

/// A stretch without line feeds joins the first piece of what follows it.
proof fn lemma_split_lines_prefix(a: Seq<char>, b: Seq<char>)
    requires
        forall|i: int| 0 <= i < a.len() ==> a[i] != '\n',
    ensures
        split_lines(a + b) == split_lines(b).update(0, a + split_lines(b)[0]),
    decreases a.len(),
{
    lemma_split_lines_len(b);
    if a.len() == 0 {
        assert(a + b =~= b);
        assert(split_lines(b).update(0, a + split_lines(b)[0]) =~= split_lines(b));
    } else {
        let t = a.drop_first();
        let sb = split_lines(b);
        lemma_split_lines_prefix(t, b);
        assert((a + b).drop_first() =~= t + b);
        assert((a + b)[0] == a[0]);
        let rest = split_lines(t + b);
        assert(rest == sb.update(0, t + sb[0]));
        assert(rest[0] == t + sb[0]);
        assert(seq![a[0]] + (t + sb[0]) =~= a + sb[0]);
        assert(split_lines(a + b) == rest.update(0, seq![a[0]] + rest[0]));
        assert(rest.update(0, seq![a[0]] + rest[0]) =~= sb.update(0, a + sb[0]));
    }
}

/// A run of non white space ends where white space or the text ends.
proof fn lemma_ws_fields_run(a: Seq<char>, b: Seq<char>)
    requires
        a.len() > 0,
        forall|i: int| 0 <= i < a.len() ==> !is_white_space(a[i]),
        b.len() == 0 || is_white_space(b[0]),
    ensures
        ws_fields(a + b) == seq![a] + ws_fields(b),
    decreases a.len(),
{
    let s = a + b;
    assert(s.drop_first() =~= a.drop_first() + b);
    assert(s[0] == a[0]);
    if a.len() == 1 {
        assert(a.drop_first() + b =~= b);
        assert(seq![s[0]] =~= a);
        assert(ws_fields(s) == seq![seq![s[0]]] + ws_fields(b));
    } else {
        lemma_ws_fields_run(a.drop_first(), b);
        assert(s[1] == a[1]);
        let rest = ws_fields(a.drop_first() + b);
        assert(rest == seq![a.drop_first()] + ws_fields(b));
        assert(rest[0] == a.drop_first());
        assert(seq![s[0]] + a.drop_first() =~= a);
        assert(ws_fields(s) == rest.update(0, seq![s[0]] + rest[0]));
        assert(rest.update(0, seq![s[0]] + rest[0]) =~= seq![a] + ws_fields(b));
    }
}

/// The pieces of `s` between line feeds.
pub fn lines_of(s: &Vec<char>) -> (lines: Vec<Vec<char>>)
    ensures
        lines@.map_values(|l: Vec<char>| l@) == split_lines(s@),
{
    let mut done: Vec<Vec<char>> = Vec::new();
    let mut cur: Vec<char> = Vec::new();
    let n = s.len();
    let mut i: usize = 0;
    assert(done@.map_values(|l: Vec<char>| l@) =~= Seq::<Seq<char>>::empty());
    assert(cur@ + s@.subrange(0, n as int) =~= s@);
    assert(Seq::<Seq<char>>::empty() + split_lines(s@) =~= split_lines(s@));
    while i < n
        invariant
            n == s@.len(),
            0 <= i <= n,
            forall|j: int| 0 <= j < cur@.len() ==> cur@[j] != '\n',
            split_lines(s@) == done@.map_values(|l: Vec<char>| l@) + split_lines(cur@ + s@.subrange(i as int, n as int)),
        decreases n - i,
    {
        let c = s[i];
        let ghost rest = s@.subrange(i + 1, n as int);
        let ghost d0 = done@.map_values(|l: Vec<char>| l@);
        let ghost c0 = cur@;
        assert(s@.subrange(i as int, n as int) =~= seq![c] + rest);
        if c == '\n' {
            proof {
                lemma_split_lines_prefix(c0, seq![c] + rest);
                assert((seq![c] + rest).drop_first() =~= rest);
                lemma_split_lines_len(rest);
                let sr = split_lines(seq![c] + rest);
                assert(sr == seq![Seq::<char>::empty()] + split_lines(rest));
                assert(sr.update(0, c0 + sr[0]) =~= seq![c0] + split_lines(rest));
                assert(Seq::<char>::empty() + rest =~= rest);
                assert(d0 + (seq![c0] + split_lines(rest)) =~= d0.push(c0) + split_lines(rest));
            }
            let mut line: Vec<char> = Vec::new();
            std::mem::swap(&mut line, &mut cur);
            done.push(line);
            assert(done@.map_values(|l: Vec<char>| l@) =~= d0.push(c0));
            assert(cur@ + rest =~= rest);
        } else {
            cur.push(c);
            assert(c0 + (seq![c] + rest) =~= cur@ + rest);
        }
        i = i + 1;
    }
    let ghost d0 = done@.map_values(|l: Vec<char>| l@);
    let ghost c0 = cur@;
    proof {
        assert(c0 + s@.subrange(n as int, n as int) =~= c0);
        lemma_split_lines_prefix(c0, Seq::empty());
        assert(c0 + Seq::<char>::empty() =~= c0);
        assert(split_lines(Seq::<char>::empty()) =~= seq![Seq::<char>::empty()]);
        assert(split_lines(c0) =~= seq![c0]);
    }
    done.push(cur);
    assert(done@.map_values(|l: Vec<char>| l@) =~= d0.push(c0));
    assert(d0 + seq![c0] =~= d0.push(c0));
    done
}

/// The white-space separated fields of `s`.
pub fn fields_of(s: &Vec<char>) -> (fields: Vec<Vec<char>>)
    ensures
        fields@.map_values(|f: Vec<char>| f@) == ws_fields(s@),
{
    let mut done: Vec<Vec<char>> = Vec::new();
    let mut cur: Vec<char> = Vec::new();
    let n = s.len();
    let mut i: usize = 0;
    assert(done@.map_values(|f: Vec<char>| f@) =~= Seq::<Seq<char>>::empty());
    assert(cur@ + s@.subrange(0, n as int) =~= s@);
    assert(Seq::<Seq<char>>::empty() + ws_fields(s@) =~= ws_fields(s@));
    while i < n
        invariant
            n == s@.len(),
            0 <= i <= n,
            forall|j: int| 0 <= j < cur@.len() ==> !is_white_space(cur@[j]),
            ws_fields(s@) == done@.map_values(|f: Vec<char>| f@) + ws_fields(cur@ + s@.subrange(i as int, n as int)),
        decreases n - i,
    {
        let c = s[i];
        let ghost rest = s@.subrange(i + 1, n as int);
        let ghost d0 = done@.map_values(|f: Vec<char>| f@);
        let ghost c0 = cur@;
        assert(s@.subrange(i as int, n as int) =~= seq![c] + rest);
        if white_space(c) {
            proof {
                assert((seq![c] + rest).drop_first() =~= rest);
                assert(ws_fields(seq![c] + rest) == ws_fields(rest));
            }
            if cur.len() > 0 {
                proof {
                    lemma_ws_fields_run(c0, seq![c] + rest);
                    assert(d0 + (seq![c0] + ws_fields(rest)) =~= d0.push(c0) + ws_fields(rest));
                }
                let mut field: Vec<char> = Vec::new();
                std::mem::swap(&mut field, &mut cur);
                done.push(field);
                assert(done@.map_values(|f: Vec<char>| f@) =~= d0.push(c0));
                assert(cur@ + rest =~= rest);
            } else {
                assert(c0 + (seq![c] + rest) =~= seq![c] + rest);
                assert(cur@ + rest =~= rest);
            }
        } else {
            cur.push(c);
            assert(c0 + (seq![c] + rest) =~= cur@ + rest);
        }
        i = i + 1;
    }
    assert(cur@ + s@.subrange(n as int, n as int) =~= cur@);
    if cur.len() > 0 {
        proof {
            lemma_ws_fields_run(cur@, Seq::empty());
            assert(cur@ + Seq::<char>::empty() =~= cur@);
            assert(ws_fields(Seq::<char>::empty()) =~= Seq::<Seq<char>>::empty());
        }
        let ghost d0 = done@.map_values(|f: Vec<char>| f@);
        let ghost c0 = cur@;
        done.push(cur);
        assert(done@.map_values(|f: Vec<char>| f@) =~= d0 + seq![c0]);
    } else {
        assert(done@.map_values(|f: Vec<char>| f@) + ws_fields(cur@) =~= done@.map_values(|f: Vec<char>| f@));
    }
    done
}

/// Whether `needle` occurs in `hay` at position `at`.
fn matches_at(hay: &Vec<char>, needle: &Vec<char>, at: usize) -> (b: bool)
    requires
        at + needle@.len() <= hay@.len(),
    ensures
        b == (hay@.subrange(at as int, at + needle@.len()) == needle@),
{
    let hl = hay.len();
    let mut j: usize = 0;
    while j < needle.len()
        invariant
            hl == hay@.len(),
            at + needle@.len() <= hay@.len(),
            0 <= j <= needle@.len(),
            forall|k: int| 0 <= k < j ==> hay@[at + k] == needle@[k],
        decreases needle@.len() - j,
    {
        if hay[at + j] != needle[j] {
            assert(hay@.subrange(at as int, at + needle@.len())[j as int] != needle@[j as int]);
            return false;
        }
        j = j + 1;
    }
    assert(hay@.subrange(at as int, at + needle@.len()) =~= needle@);
    true
}

/// Whether `needle` occurs in `hay`.
pub fn contains(hay: &Vec<char>, needle: &Vec<char>) -> (b: bool)
    ensures
        b == contains_seq(hay@, needle@),
{
    if needle.len() == 0 {
        assert(hay@.subrange(0, 0int + needle@.len()) =~= needle@);
        return true;
    }
    if needle.len() > hay.len() {
        return false;
    }
    let last = hay.len() - needle.len();
    let mut i: usize = 0;
    while i <= last
        invariant
            last == hay@.len() - needle@.len(),
            last < usize::MAX,
            0 <= i <= last + 1,
            forall|k: int| 0 <= k < i ==> #[trigger] hay@.subrange(k, k + needle@.len()) != needle@,
        decreases last + 1 - i,
    {
        if matches_at(hay, needle, i) {
            return true;
        }
        i = i + 1;
    }
    false
}

// ---------------------------------------------------------------------------
// Numbers
// ---------------------------------------------------------------------------

pub open spec fn is_digit(c: char) -> bool {
    '0' <= c && c <= '9'
}

pub open spec fn all_digits(s: Seq<char>) -> bool {
    forall|i: int| 0 <= i < s.len() ==> is_digit(#[trigger] s[i])
}

/// The value of the decimal digits `s`.
pub open spec fn digits_value(s: Seq<char>) -> nat
    decreases s.len(),
{
    if s.len() == 0 {
        0
    } else {
        digits_value(s.drop_last()) * 10 + (s.last() as int - '0' as int) as nat
    }
}

/// The digits of an unsigned number, after an optional plus sign.
pub open spec fn unsigned_body(s: Seq<char>) -> Seq<char> {
    if s.len() > 0 && s[0] == '+' {
        s.drop_first()
    } else {
        s
    }
}

/// The value of an unsigned decimal number as `from_str` reads it: an
/// optional plus sign, then one or more digits.
pub open spec fn unsigned_value(s: Seq<char>) -> Option<nat> {
    let body = unsigned_body(s);
    if body.len() == 0 || !all_digits(body) {
        None
    } else {
        Some(digits_value(body))
    }
}

/// `u64::from_str`.
pub open spec fn parse_u64_spec(s: Seq<char>) -> Option<u64> {
    match unsigned_value(s) {
        Some(v) => if v <= u64::MAX { Some(v as u64) } else { None },
        None => None,
    }
}

/// `u32::from_str`.
pub open spec fn parse_u32_spec(s: Seq<char>) -> Option<u32> {
    match unsigned_value(s) {
        Some(v) => if v <= u32::MAX { Some(v as u32) } else { None },
        None => None,
    }
}

/// `i64::from_str`: an optional sign, then one or more digits, with the
/// value in range.
pub open spec fn parse_i64_spec(s: Seq<char>) -> Option<i64> {
    if s.len() > 0 && s[0] == '-' {
        let body = s.drop_first();
        if body.len() == 0 || !all_digits(body) {
            None
        } else if digits_value(body) <= 0x8000_0000_0000_0000 {
            Some((-(digits_value(body) as int)) as i64)
        } else {
            None
        }
    } else {
        match unsigned_value(s) {
            Some(v) => if v <= i64::MAX { Some(v as i64) } else { None },
            None => None,
        }
    }
}

proof fn lemma_digits_value_prefix(s: Seq<char>, k: int)
    requires
        0 <= k <= s.len(),
        all_digits(s),
    ensures
        digits_value(s.subrange(0, k)) <= digits_value(s),
    decreases s.len(),
{
    if k < s.len() {
        assert(s.drop_last().subrange(0, k) =~= s.subrange(0, k));
        assert(all_digits(s.drop_last()));
        lemma_digits_value_prefix(s.drop_last(), k);
    } else {
        assert(s.subrange(0, k) =~= s);
    }
}

/// The value of the digits `s[from..]`, when they are all digits, at least
/// one, and the value fits in a u64.
fn digits_u64(s: &Vec<char>, from: usize) -> (r: Option<u64>)
    requires
        from <= s@.len(),
    ensures
        ({
            let body = s@.subrange(from as int, s@.len() as int);
            r == if body.len() == 0 || !all_digits(body) || digits_value(body) > u64::MAX {
                None
            } else {
                Some(digits_value(body) as u64)
            }
        }),
{
    let ghost body = s@.subrange(from as int, s@.len() as int);
    let n = s.len();
    if from == n {
        return None;
    }
    let mut acc: u64 = 0;
    let mut i: usize = from;
    while i < n
        invariant
            n == s@.len(),
            from <= i <= n,
            body == s@.subrange(from as int, n as int),
            all_digits(body.subrange(0, i - from)),
            acc == digits_value(body.subrange(0, i - from)),
        decreases n - i,
    {
        let c = s[i];
        assert(body.subrange(0, i - from + 1).drop_last() =~= body.subrange(0, i - from));
        assert(body[i - from] == c);
        if !('0' <= c && c <= '9') {
            assert(!all_digits(body));
            return None;
        }
        let d = (c as u32 - '0' as u32) as u128;
        let next: u128 = acc as u128 * 10 + d;
        assert(all_digits(body.subrange(0, i - from + 1)));
        assert(next == digits_value(body.subrange(0, i - from + 1)));
        if next > u64::MAX as u128 {
            proof {
                if all_digits(body) {
                    lemma_digits_value_prefix(body, i - from + 1);
                }
            }
            return None;
        }
        acc = next as u64;
        i = i + 1;
    }
    assert(body.subrange(0, n - from) =~= body);
    Some(acc)
}

/// Reads an unsigned number the way `u64::from_str` does.
pub fn parse_u64(s: &Vec<char>) -> (r: Option<u64>)
    ensures
        r == parse_u64_spec(s@),
{
    let from: usize = if s.len() > 0 && s[0] == '+' { 1 } else { 0 };
    assert(s@.subrange(from as int, s@.len() as int) =~= unsigned_body(s@));
    digits_u64(s, from)
}

/// Reads an unsigned number the way `u32::from_str` does.
pub fn parse_u32(s: &Vec<char>) -> (r: Option<u32>)
    ensures
        r == parse_u32_spec(s@),
{
    match parse_u64(s) {
        Some(v) => if v <= u32::MAX as u64 { Some(v as u32) } else { None },
        None => None,
    }
}

/// Reads a signed number the way `i64::from_str` does.
pub fn parse_i64(s: &Vec<char>) -> (r: Option<i64>)
    ensures
        r == parse_i64_spec(s@),
{
    if s.len() > 0 && s[0] == '-' {
        assert(s@.subrange(1, s@.len() as int) =~= s@.drop_first());
        match digits_u64(s, 1) {
            Some(v) => {
                if v < 0x8000_0000_0000_0000u64 {
                    Some(-(v as i64))
                } else if v == 0x8000_0000_0000_0000u64 {
                    Some(i64::MIN)
                } else {
                    None
                }
            },
            None => None,
        }
    } else {
        match parse_u64(s) {
            Some(v) => if v <= i64::MAX as u64 { Some(v as i64) } else { None },
            None => None,
        }
    }
}

// ---------------------------------------------------------------------------
// /proc/meminfo
// ---------------------------------------------------------------------------

/// What the scan of /proc/meminfo has gathered: how many of the two lines
/// it looks for it has met, and the last values read for each.
pub struct MemScan {
    pub found: nat,
    pub total: u64,
    pub free: u64,
}

/// The byte count on a meminfo line: its second field, a number of kB,
/// times 1024.
pub open spec fn meminfo_bytes(line: Seq<char>) -> Option<u64> {
    let fields = ws_fields(line);
    if fields.len() < 2 {
        None
    } else {
        match parse_u64_spec(fields[1]) {
            Some(v) => if v * 1024 <= u64::MAX { Some((v * 1024) as u64) } else { None },
            None => None,
        }
    }
}

/// The scan of meminfo lines from line `i` on: a line naming MemTotal sets
/// the total, else a line naming MemFree sets the free amount; each counts
/// as found; the scan stops once two were found. None when a line that it
/// reads is malformed.
pub open spec fn meminfo_scan(lines: Seq<Seq<char>>, i: int, acc: MemScan) -> Option<MemScan>
    decreases lines.len() - i,
{
    if i >= lines.len() || acc.found == 2 || i < 0 {
        Some(acc)
    } else if contains_seq(lines[i], "MemTotal"@) {
        match meminfo_bytes(lines[i]) {
            Some(b) => meminfo_scan(lines, i + 1, MemScan { found: acc.found + 1, total: b, free: acc.free }),
            None => None,
        }
    } else if contains_seq(lines[i], "MemFree"@) {
        match meminfo_bytes(lines[i]) {
            Some(b) => meminfo_scan(lines, i + 1, MemScan { found: acc.found + 1, total: acc.total, free: b }),
            None => None,
        }
    } else {
        meminfo_scan(lines, i + 1, acc)
    }
}

/// The memory usage that /proc/meminfo text reports: the total from the
/// MemTotal line, and the used amount as the total less the MemFree amount.
pub open spec fn meminfo_result(text: Seq<char>) -> Result<RamData, ProcParseError> {
    match meminfo_scan(split_lines(text), 0, MemScan { found: 0, total: 0, free: 0 }) {
        None => Err(ProcParseError::Malformed),
        Some(acc) => if acc.found != 2 {
            Err(ProcParseError::Incomplete)
        } else if acc.free > acc.total {
            Err(ProcParseError::Malformed)
        } else {
            Ok(RamData { bytes_used: (acc.total - acc.free) as u64, bytes_available: acc.total })
        },
    }
}

/// The byte count on a meminfo line.
fn line_bytes(line: &Vec<char>) -> (r: Option<u64>)
    ensures
        r == meminfo_bytes(line@),
{
    let fields = fields_of(line);
    if fields.len() < 2 {
        return None;
    }
    assert(fields@.map_values(|f: Vec<char>| f@)[1] == fields@[1]@);
    match parse_u64(&fields[1]) {
        Some(v) => if v <= u64::MAX / 1024 { Some(v * 1024) } else { None },
        None => None,
    }
}

/// Reads the memory usage from the text of /proc/meminfo.
pub fn parse_meminfo(text: &str) -> (r: Result<RamData, ProcParseError>)
    ensures
        r == meminfo_result(text@),
{
    let chars = chars_of(text);
    let lines = lines_of(&chars);
    let ghost ls = lines@.map_values(|l: Vec<char>| l@);
    let total_needle = chars_of("MemTotal");
    let free_needle = chars_of("MemFree");
    let mut found: usize = 0;
    let mut total: u64 = 0;
    let mut free: u64 = 0;
    let mut i: usize = 0;
    while i < lines.len() && found != 2
        invariant
            ls == lines@.map_values(|l: Vec<char>| l@),
            ls == split_lines(text@),
            total_needle@ == "MemTotal"@,
            free_needle@ == "MemFree"@,
            0 <= i <= lines@.len(),
            found <= 2,
            meminfo_scan(ls, 0, MemScan { found: 0, total: 0, free: 0 })
                == meminfo_scan(ls, i as int, MemScan { found: found as nat, total, free }),
        decreases lines@.len() - i,
    {
        assert(ls[i as int] == lines@[i as int]@);
        if contains(&lines[i], &total_needle) {
            match line_bytes(&lines[i]) {
                Some(b) => {
                    total = b;
                    found = found + 1;
                },
                None => return Err(ProcParseError::Malformed),
            }
        } else if contains(&lines[i], &free_needle) {
            match line_bytes(&lines[i]) {
                Some(b) => {
                    free = b;
                    found = found + 1;
                },
                None => return Err(ProcParseError::Malformed),
            }
        }
        i = i + 1;
    }
    if found != 2 {
        return Err(ProcParseError::Incomplete);
    }
    if free > total {
        return Err(ProcParseError::Malformed);
    }
    Ok(RamData { bytes_used: total - free, bytes_available: total })
}

/// What the scan of /proc/meminfo for the kernel (low) and user space
/// (high) memory has gathered: how many of the four lines it looks for it
/// has met, and the last values read for each.
pub struct MemSplitScan {
    pub found: nat,
    pub low_total: u64,
    pub low_free: u64,
    pub high_total: u64,
    pub high_free: u64,
}

/// The scan of meminfo lines from line `i` on: a line naming LowFree,
/// else LowTotal, else HighFree, else HighTotal sets that value (its second
/// field in kB, as bytes) and counts as found; the scan stops once four
/// were found. None when a line that it reads is malformed.
pub open spec fn meminfo_split_scan(lines: Seq<Seq<char>>, i: int, acc: MemSplitScan) -> Option<MemSplitScan>
    decreases lines.len() - i,
{
    if i >= lines.len() || acc.found == 4 || i < 0 {
        Some(acc)
    } else if contains_seq(lines[i], "LowFree"@) {
        match meminfo_bytes(lines[i]) {
            Some(b) => meminfo_split_scan(lines, i + 1, MemSplitScan { found: acc.found + 1, low_free: b, ..acc }),
            None => None,
        }
    } else if contains_seq(lines[i], "LowTotal"@) {
        match meminfo_bytes(lines[i]) {
            Some(b) => meminfo_split_scan(lines, i + 1, MemSplitScan { found: acc.found + 1, low_total: b, ..acc }),
            None => None,
        }
    } else if contains_seq(lines[i], "HighFree"@) {
        match meminfo_bytes(lines[i]) {
            Some(b) => meminfo_split_scan(lines, i + 1, MemSplitScan { found: acc.found + 1, high_free: b, ..acc }),
            None => None,
        }
    } else if contains_seq(lines[i], "HighTotal"@) {
        match meminfo_bytes(lines[i]) {
            Some(b) => meminfo_split_scan(lines, i + 1, MemSplitScan { found: acc.found + 1, high_total: b, ..acc }),
            None => None,
        }
    } else {
        meminfo_split_scan(lines, i + 1, acc)
    }
}

/// The scan before any line.
pub open spec fn empty_split_scan() -> MemSplitScan {
    MemSplitScan { found: 0, low_total: 0, low_free: 0, high_total: 0, high_free: 0 }
}

/// The kernel and user space memory that /proc/meminfo text reports: for
/// the kernel the LowTotal amount, and as used the LowTotal less the LowFree
/// amount; for user space the same of HighTotal and HighFree.
pub open spec fn meminfo_split_result(text: Seq<char>) -> Result<Ram, ProcParseError> {
    match meminfo_split_scan(split_lines(text), 0, empty_split_scan()) {
        None => Err(ProcParseError::Malformed),
        Some(a) => if a.found != 4 {
            Err(ProcParseError::Incomplete)
        } else if a.low_free > a.low_total || a.high_free > a.high_total {
            Err(ProcParseError::Malformed)
        } else {
            Ok(Ram {
                kernel: RamData { bytes_used: (a.low_total - a.low_free) as u64, bytes_available: a.low_total },
                user_space: RamData { bytes_used: (a.high_total - a.high_free) as u64, bytes_available: a.high_total },
            })
        },
    }
}

/// Reads the kernel and user space memory from the text of /proc/meminfo.
pub fn parse_meminfo_split(text: &str) -> (r: Result<Ram, ProcParseError>)
    ensures
        r == meminfo_split_result(text@),
{
    let chars = chars_of(text);
    let lines = lines_of(&chars);
    let ghost ls = lines@.map_values(|l: Vec<char>| l@);
    let low_free_needle = chars_of("LowFree");
    let low_total_needle = chars_of("LowTotal");
    let high_free_needle = chars_of("HighFree");
    let high_total_needle = chars_of("HighTotal");
    let mut found: usize = 0;
    let mut low_total: u64 = 0;
    let mut low_free: u64 = 0;
    let mut high_total: u64 = 0;
    let mut high_free: u64 = 0;
    let mut i: usize = 0;
    while i < lines.len() && found != 4
        invariant
            ls == lines@.map_values(|l: Vec<char>| l@),
            ls == split_lines(text@),
            low_free_needle@ == "LowFree"@,
            low_total_needle@ == "LowTotal"@,
            high_free_needle@ == "HighFree"@,
            high_total_needle@ == "HighTotal"@,
            0 <= i <= lines@.len(),
            found <= 4,
            meminfo_split_scan(ls, 0, empty_split_scan()) == meminfo_split_scan(
                ls,
                i as int,
                MemSplitScan { found: found as nat, low_total, low_free, high_total, high_free },
            ),
        decreases lines@.len() - i,
    {
        assert(ls[i as int] == lines@[i as int]@);
        if contains(&lines[i], &low_free_needle) {
            match line_bytes(&lines[i]) {
                Some(b) => {
                    low_free = b;
                    found = found + 1;
                },
                None => return Err(ProcParseError::Malformed),
            }
        } else if contains(&lines[i], &low_total_needle) {
            match line_bytes(&lines[i]) {
                Some(b) => {
                    low_total = b;
                    found = found + 1;
                },
                None => return Err(ProcParseError::Malformed),
            }
        } else if contains(&lines[i], &high_free_needle) {
            match line_bytes(&lines[i]) {
                Some(b) => {
                    high_free = b;
                    found = found + 1;
                },
                None => return Err(ProcParseError::Malformed),
            }
        } else if contains(&lines[i], &high_total_needle) {
            match line_bytes(&lines[i]) {
                Some(b) => {
                    high_total = b;
                    found = found + 1;
                },
                None => return Err(ProcParseError::Malformed),
            }
        }
        i = i + 1;
    }
    if found != 4 {
        return Err(ProcParseError::Incomplete);
    }
    if low_free > low_total || high_free > high_total {
        return Err(ProcParseError::Malformed);
    }
    Ok(Ram {
        kernel: RamData { bytes_used: low_total - low_free, bytes_available: low_total },
        user_space: RamData { bytes_used: high_total - high_free, bytes_available: high_total },
    })
}


// ---------------------------------------------------------------------------
// /proc/stat
// ---------------------------------------------------------------------------

pub open spec fn in_i64(x: int) -> bool {
    i64::MIN <= x <= i64::MAX
}

/// The ticks that a counter read three times, as `a`, `b` and `c`, gained
/// over the measured interval, from the second reading to the third:
/// `c - b`. None when the counter went back.
pub open spec fn tick_delta(a: i64, b: i64, c: i64) -> Option<u64> {
    if c < b {
        None
    } else {
        Some((c - b) as u64)
    }
}

/// Field `k` of a stat line, read as a signed number.
pub open spec fn stat_field(fields: Seq<Seq<char>>, k: int) -> Option<i64> {
    if 0 <= k < fields.len() {
        parse_i64_spec(fields[k])
    } else {
        None
    }
}

/// The interval ticks of one CPU line, read in three snapshots: fields 1 to 4
/// (user, nice, system, idle).
pub open spec fn cpu_line_ticks(f1: Seq<Seq<char>>, f2: Seq<Seq<char>>, f3: Seq<Seq<char>>) -> Option<CpuTicks> {
    let d = |k: int|
        match (stat_field(f1, k), stat_field(f2, k), stat_field(f3, k)) {
            (Some(a), Some(b), Some(c)) => tick_delta(a, b, c),
            _ => None,
        };
    match (d(1), d(2), d(3), d(4)) {
        (Some(user), Some(nice), Some(system), Some(idle)) => Some(CpuTicks { user, nice, system, idle }),
        _ => None,
    }
}

pub open spec fn min3(a: int, b: int, c: int) -> int {
    if a <= b && a <= c {
        a
    } else if b <= c {
        b
    } else {
        c
    }
}

/// The tick deltas of the CPU lines from line `i` on, taking the three
/// snapshots line by line while the first snapshot's line names a cpu; none
/// when a line that is read lacks a field or a number.
pub open spec fn stat_scan(l1: Seq<Seq<char>>, l2: Seq<Seq<char>>, l3: Seq<Seq<char>>, i: int) -> Option<Seq<CpuTicks>>
    decreases min3(l1.len() as int, l2.len() as int, l3.len() as int) - i,
{
    if i < 0 || i >= min3(l1.len() as int, l2.len() as int, l3.len() as int) {
        Some(Seq::empty())
    } else {
        let f1 = ws_fields(l1[i]);
        if f1.len() == 0 {
            None
        } else if !contains_seq(f1[0], "cpu"@) {
            Some(Seq::empty())
        } else {
            match cpu_line_ticks(f1, ws_fields(l2[i]), ws_fields(l3[i])) {
                None => None,
                Some(t) => match stat_scan(l1, l2, l3, i + 1) {
                    None => None,
                    Some(rest) => Some(seq![t] + rest),
                },
            }
        }
    }
}

/// The tick deltas that three snapshots of /proc/stat give, the overall
/// "cpu" line first, then one per core.
pub open spec fn stat_result(s1: Seq<char>, s2: Seq<char>, s3: Seq<char>) -> Result<Seq<CpuTicks>, ProcParseError> {
    match stat_scan(split_lines(s1), split_lines(s2), split_lines(s3), 0) {
        Some(t) => Ok(t),
        None => Err(ProcParseError::Malformed),
    }
}

/// The ticks gained from the reading `b` to the reading `c`.
fn delta(a: i64, b: i64, c: i64) -> (r: Option<u64>)
    ensures
        r == tick_delta(a, b, c),
{
    if c < b {
        None
    } else {
        let d = c as i128 - b as i128;
        Some(d as u64)
    }
}

/// The busy ticks (user, nice and system) and all the ticks (those and
/// idle) of one CPU; none when a sum does not fit in 64 bits.
pub open spec fn busy_and_total(t: CpuTicks) -> Option<(u64, u64)> {
    let busy = t.user + t.nice + t.system;
    let total = busy + t.idle;
    if total > u64::MAX {
        None
    } else {
        Some((busy as u64, total as u64))
    }
}

/// Every CPU whose ticks add up within 64 bits gets its busy ticks (user,
/// nice and system) and all its ticks (those and idle), whatever their
/// values, a fully busy or a fully idle CPU included; only sums past 64
/// bits give none. The busy ticks never exceed all the ticks.
pub proof fn lemma_busy_and_total(t: CpuTicks)
    ensures
        t.user + t.nice + t.system + t.idle <= u64::MAX ==> busy_and_total(t) == Some(
            ((t.user + t.nice + t.system) as u64, (t.user + t.nice + t.system + t.idle) as u64),
        ),
        t.user + t.nice + t.system + t.idle > u64::MAX ==> busy_and_total(t) is None,
        busy_and_total(t) matches Some((busy, total)) ==> busy <= total,
{
}

/// The busy ticks and all the ticks of one CPU, from which its usage share
/// is the first over the second.
pub fn cpu_busy_total(t: &CpuTicks) -> (r: Option<(u64, u64)>)
    ensures
        r == busy_and_total(*t),
        t.user + t.nice + t.system + t.idle <= u64::MAX
            ==> r == Some(((t.user + t.nice + t.system) as u64, (t.user + t.nice + t.system + t.idle) as u64)),
        t.user + t.nice + t.system + t.idle > u64::MAX ==> r is None,
{
    let busy = t.user as u128 + t.nice as u128 + t.system as u128;
    let total = busy + t.idle as u128;
    if total > u64::MAX as u128 {
        None
    } else {
        Some((busy as u64, total as u64))
    }
}

/// Field `k` of a stat line, read as a signed number.
fn field_i64(fields: &Vec<Vec<char>>, k: usize) -> (r: Option<i64>)
    ensures
        r == stat_field(fields@.map_values(|f: Vec<char>| f@), k as int),
{
    if k < fields.len() {
        assert(fields@.map_values(|f: Vec<char>| f@)[k as int] == fields@[k as int]@);
        parse_i64(&fields[k])
    } else {
        None
    }
}

/// The tick delta of field `k` across the three snapshots of a line.
fn field_delta(f1: &Vec<Vec<char>>, f2: &Vec<Vec<char>>, f3: &Vec<Vec<char>>, k: usize) -> (r: Option<u64>)
    ensures
        r == (match (
            stat_field(f1@.map_values(|f: Vec<char>| f@), k as int),
            stat_field(f2@.map_values(|f: Vec<char>| f@), k as int),
            stat_field(f3@.map_values(|f: Vec<char>| f@), k as int),
        ) {
            (Some(a), Some(b), Some(c)) => tick_delta(a, b, c),
            _ => None,
        }),
{
    match (field_i64(f1, k), field_i64(f2, k), field_i64(f3, k)) {
        (Some(a), Some(b), Some(c)) => delta(a, b, c),
        _ => None,
    }
}

/// Reads the per-CPU ticks of the measured interval, the one between the
/// second and the third of three snapshots of /proc/stat: the overall "cpu"
/// line first, then one per core.
pub fn parse_stat_deltas(s1: &str, s2: &str, s3: &str) -> (r: Result<Vec<CpuTicks>, ProcParseError>)
    ensures
        match (r, stat_result(s1@, s2@, s3@)) {
            (Ok(v), Ok(t)) => v@ == t,
            (Err(e), Err(f)) => e == f,
            _ => false,
        },
{
    let c1 = chars_of(s1);
    let c2 = chars_of(s2);
    let c3 = chars_of(s3);
    let lines1 = lines_of(&c1);
    let lines2 = lines_of(&c2);
    let lines3 = lines_of(&c3);
    let ghost l1 = lines1@.map_values(|l: Vec<char>| l@);
    let ghost l2 = lines2@.map_values(|l: Vec<char>| l@);
    let ghost l3 = lines3@.map_values(|l: Vec<char>| l@);
    let cpu = chars_of("cpu");
    let mut n = lines1.len();
    if lines2.len() < n {
        n = lines2.len();
    }
    if lines3.len() < n {
        n = lines3.len();
    }
    let mut out: Vec<CpuTicks> = Vec::new();
    let mut i: usize = 0;
    while i < n
        invariant
            l1 == lines1@.map_values(|l: Vec<char>| l@),
            l2 == lines2@.map_values(|l: Vec<char>| l@),
            l3 == lines3@.map_values(|l: Vec<char>| l@),
            l1 == split_lines(s1@),
            l2 == split_lines(s2@),
            l3 == split_lines(s3@),
            cpu@ == "cpu"@,
            n == min3(l1.len() as int, l2.len() as int, l3.len() as int),
            0 <= i <= n,
            stat_scan(l1, l2, l3, 0) == match stat_scan(l1, l2, l3, i as int) {
                None => None,
                Some(rest) => Some(out@ + rest),
            },
        decreases n - i,
    {
        assert(l1[i as int] == lines1@[i as int]@);
        assert(l2[i as int] == lines2@[i as int]@);
        assert(l3[i as int] == lines3@[i as int]@);
        let f1 = fields_of(&lines1[i]);
        let f2 = fields_of(&lines2[i]);
        let f3 = fields_of(&lines3[i]);
        let ghost g1 = f1@.map_values(|f: Vec<char>| f@);
        if f1.len() == 0 {
            return Err(ProcParseError::Malformed);
        }
        assert(g1[0] == f1@[0]@);
        if !contains(&f1[0], &cpu) {
            assert(out@ + Seq::<CpuTicks>::empty() =~= out@);
            return Ok(out);
        }
        let user = field_delta(&f1, &f2, &f3, 1);
        let nice = field_delta(&f1, &f2, &f3, 2);
        let system = field_delta(&f1, &f2, &f3, 3);
        let idle = field_delta(&f1, &f2, &f3, 4);
        match (user, nice, system, idle) {
            (Some(user), Some(nice), Some(system), Some(idle)) => {
                let t = CpuTicks { user, nice, system, idle };
                assert(cpu_line_ticks(g1, f2@.map_values(|f: Vec<char>| f@), f3@.map_values(|f: Vec<char>| f@)) == Some(t));
                let ghost o0 = out@;
                out.push(t);
                proof {
                    match stat_scan(l1, l2, l3, i + 1) {
                        None => {},
                        Some(rest) => {
                            assert(o0 + (seq![t] + rest) =~= out@ + rest);
                        },
                    }
                }
            },
            _ => {
                return Err(ProcParseError::Malformed);
            },
        }
        i = i + 1;
    }
    assert(out@ + Seq::<CpuTicks>::empty() =~= out@);
    Ok(out)
}

// ---------------------------------------------------------------------------
// Clock ticks
// ---------------------------------------------------------------------------

/// `s` without its leading white space.
pub open spec fn trim_start(s: Seq<char>) -> Seq<char>
    decreases s.len(),
{
    if s.len() > 0 && is_white_space(s[0]) {
        trim_start(s.drop_first())
    } else {
        s
    }
}

/// `s` without its trailing white space.
pub open spec fn trim_end(s: Seq<char>) -> Seq<char>
    decreases s.len(),
{
    if s.len() > 0 && is_white_space(s.last()) {
        trim_end(s.drop_last())
    } else {
        s
    }
}

/// `s` without leading and trailing white space, as `str::trim` gives it.
pub open spec fn trim(s: Seq<char>) -> Seq<char> {
    trim_end(trim_start(s))
}

proof fn lemma_trim_start_from(s: Seq<char>, lo: int)
    requires
        0 <= lo <= s.len(),
        forall|j: int| 0 <= j < lo ==> is_white_space(s[j]),
    ensures
        trim_start(s) == trim_start(s.subrange(lo, s.len() as int)),
    decreases lo,
{
    if lo > 0 {
        assert(s.drop_first().subrange(lo - 1, s.drop_first().len() as int) =~= s.subrange(lo, s.len() as int));
        lemma_trim_start_from(s.drop_first(), lo - 1);
    } else {
        assert(s.subrange(0, s.len() as int) =~= s);
    }
}

proof fn lemma_trim_end_to(s: Seq<char>, hi: int)
    requires
        0 <= hi <= s.len(),
        forall|j: int| hi <= j < s.len() ==> is_white_space(s[j]),
    ensures
        trim_end(s) == trim_end(s.subrange(0, hi)),
    decreases s.len() - hi,
{
    if hi < s.len() {
        assert(s.drop_last().subrange(0, hi) =~= s.subrange(0, hi));
        lemma_trim_end_to(s.drop_last(), hi);
    } else {
        assert(s.subrange(0, hi) =~= s);
    }
}

/// Reads the clock tick rate from the output of `getconf CLK_TCK`: the text
/// without surrounding white space, read as a u32.
pub fn parse_clk_tck(text: &str) -> (r: Option<u32>)
    ensures
        r == parse_u32_spec(trim(text@)),
{
    let c = chars_of(text);
    let n = c.len();
    let mut lo: usize = 0;
    while lo < n && white_space(c[lo])
        invariant
            n == c@.len(),
            0 <= lo <= n,
            forall|j: int| 0 <= j < lo ==> is_white_space(c@[j]),
        decreases n - lo,
    {
        lo = lo + 1;
    }
    proof {
        lemma_trim_start_from(c@, lo as int);
    }
    let ghost t = c@.subrange(lo as int, n as int);
    assert(trim_start(t) == t);
    let mut hi: usize = n;
    while hi > lo && white_space(c[hi - 1])
        invariant
            n == c@.len(),
            0 <= lo <= hi <= n,
            forall|j: int| hi <= j < n ==> is_white_space(c@[j]),
        decreases hi,
    {
        hi = hi - 1;
    }
    proof {
        assert forall|j: int| hi - lo <= j < t.len() implies is_white_space(t[j]) by {
            assert(t[j] == c@[lo + j]);
        }
        lemma_trim_end_to(t, hi - lo);
        let u = t.subrange(0, hi - lo);
        if u.len() > 0 {
            assert(u.last() == c@[hi - 1]);
        }
        assert(trim_end(u) == u);
    }
    let mut body: Vec<char> = Vec::new();
    let mut k = lo;
    while k < hi
        invariant
            lo <= k <= hi <= n,
            n == c@.len(),
            body@ == c@.subrange(lo as int, k as int),
        decreases hi - k,
    {
        body.push(c[k]);
        assert(c@.subrange(lo as int, k + 1) == c@.subrange(lo as int, k as int).push(c@[k as int]));
        k = k + 1;
    }
    assert(body@ =~= t.subrange(0, hi - lo));
    parse_u32(&body)
}

} // verus!
