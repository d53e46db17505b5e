//! Verified string utilities: trimming, prefix tests, tokenising and number
//! parsing over `Seq<char>` views. The configuration grammar and the sink
//! line formats are built from these.

use vstd::prelude::*;

verus! {

/// The whitespace characters this library recognises (the ASCII ones).
pub open spec fn is_ws_char(c: char) -> bool {
    c == ' ' || c == '\t' || c == '\n' || c == '\r' || c == '\u{b}' || c == '\u{c}'
}

/// Executable counterpart of [`is_ws_char`].
pub fn ws_char(c: char) -> (r: bool)
    ensures
        r == is_ws_char(c),
{
    c == ' ' || c == '\t' || c == '\n' || c == '\r' || c == '\u{b}' || c == '\u{c}'
}

/// `s` with leading whitespace removed.
pub open spec fn trim_start_v(s: Seq<char>) -> Seq<char>
    decreases s.len(),
{
    if s.len() > 0 && is_ws_char(s[0]) {
        trim_start_v(s.drop_first())
    } else {
        s
    }
}

/// `s` with trailing whitespace removed.
pub open spec fn trim_end_v(s: Seq<char>) -> Seq<char>
    decreases s.len(),
{
    if s.len() > 0 && is_ws_char(s[s.len() - 1]) {
        trim_end_v(s.drop_last())
    } else {
        s
    }
}

/// `s` with both leading and trailing whitespace removed.
pub open spec fn trim_v(s: Seq<char>) -> Seq<char> {
    trim_end_v(trim_start_v(s))
}

/// Drop leading whitespace from a string slice.
pub fn trim_start(s: &str) -> (r: &str)
    ensures
        r@ == trim_start_v(s@),
    decreases s@.len(),
{
    let n = s.unicode_len();
    if n > 0 && ws_char(s.get_char(0)) {
        let rest = s.substring_char(1, n);
        assert(rest@ == s@.drop_first());
        trim_start(rest)
    } else {
        s
    }
}

/// Drop trailing whitespace from a string slice.
pub fn trim_end(s: &str) -> (r: &str)
    ensures
        r@ == trim_end_v(s@),
    decreases s@.len(),
{
    let n = s.unicode_len();
    if n > 0 && ws_char(s.get_char(n - 1)) {
        let rest = s.substring_char(0, n - 1);
        assert(rest@ == s@.drop_last());
        trim_end(rest)
    } else {
        s
    }
}

/// Drop leading and trailing whitespace from a string slice.
pub fn trim(s: &str) -> (r: &str)
    ensures
        r@ == trim_v(s@),
{
    trim_end(trim_start(s))
}

/// Character-for-character equality of two string slices.
pub fn str_eq(a: &str, b: &str) -> (r: bool)
    ensures
        r == (a@ == b@),
{
    let na = a.unicode_len();
    let nb = b.unicode_len();
    if na != nb {
        return false;
    }
    let mut i: usize = 0;
    while i < na
        invariant
            na == a@.len(),
            na == b@.len(),
            i <= na,
            forall|k: int| 0 <= k < i ==> a@[k] == b@[k],
        decreases na - i,
    {
        if a.get_char(i) != b.get_char(i) {
            return false;
        }
        i = i + 1;
    }
    assert(a@ =~= b@);
    true
}

/// `p` is a prefix of `s`.
pub open spec fn starts_with_v(s: Seq<char>, p: Seq<char>) -> bool {
    p.len() <= s.len() && s.subrange(0, p.len() as int) == p
}

/// Prefix test on string slices.
pub fn starts_with(s: &str, p: &str) -> (r: bool)
    ensures
        r == starts_with_v(s@, p@),
{
    let ns = s.unicode_len();
    let np = p.unicode_len();
    if np > ns {
        return false;
    }
    let mut i: usize = 0;
    while i < np
        invariant
            ns == s@.len(),
            np == p@.len(),
            np <= ns,
            i <= np,
            forall|k: int| 0 <= k < i ==> s@[k] == p@[k],
        decreases np - i,
    {
        if s.get_char(i) != p.get_char(i) {
            assert(s@.subrange(0, np as int)[i as int] != p@[i as int]);
            return false;
        }
        i = i + 1;
    }
    assert(s@.subrange(0, np as int) =~= p@);
    true
}

/// Index of the first `::` in `s`, if any.
pub open spec fn first_sep(s: Seq<char>) -> Option<int>
    decreases s.len(),
{
    if s.len() < 2 {
        None
    } else if s[0] == ':' && s[1] == ':' {
        Some(0)
    } else {
        match first_sep(s.drop_first()) {
            Some(i) => Some(i + 1),
            None => None,
        }
    }
}

/// A found separator index is in range and marks a `::`.
pub proof fn lemma_first_sep_in_range(s: Seq<char>)
    requires
        first_sep(s) is Some,
    ensures
        0 <= first_sep(s)->Some_0,
        first_sep(s)->Some_0 + 2 <= s.len(),
    decreases s.len(),
{
    if s.len() < 2 {
    } else if s[0] == ':' && s[1] == ':' {
    } else {
        lemma_first_sep_in_range(s.drop_first());
    }
}

/// Find the first `::` in a string slice.
pub fn find_sep(s: &str) -> (r: Option<usize>)
    ensures
        match r {
            Some(i) => first_sep(s@) == Some(i as int),
            None => first_sep(s@) is None,
        },
    decreases s@.len(),
{
    let n = s.unicode_len();
    if n < 2 {
        None
    } else if s.get_char(0) == ':' && s.get_char(1) == ':' {
        Some(0)
    } else {
        let rest = s.substring_char(1, n);
        assert(rest@ == s@.drop_first());
        match find_sep(rest) {
            Some(i) => {
                proof {
                    lemma_first_sep_in_range(rest@);
                }
                Some(i + 1)
            },
            None => None,
        }
    }
}

/// `s` split at each `::`, at most `n` fields; the last field keeps any
/// further `::` verbatim.
pub open spec fn splitn_sep_v(s: Seq<char>, n: nat) -> Seq<Seq<char>>
    decreases n,
{
    if n <= 1 {
        seq![s]
    } else {
        match first_sep(s) {
            None => seq![s],
            Some(i) => seq![s.subrange(0, i)] + splitn_sep_v(
                s.subrange(i + 2, s.len() as int),
                (n - 1) as nat,
            ),
        }
    }
}

/// Split a string slice at each `::` into at most `n` fields.
pub fn splitn_sep(s: &str, n: usize) -> (r: Vec<String>)
    ensures
        r.deep_view() == splitn_sep_v(s@, n as nat),
    decreases n,
{
    if n <= 1 {
        let mut out: Vec<String> = Vec::new();
        out.push(s.to_owned());
        assert(out.deep_view() =~= splitn_sep_v(s@, n as nat));
        out
    } else {
        match find_sep(s) {
            None => {
                let mut out: Vec<String> = Vec::new();
                out.push(s.to_owned());
                assert(out.deep_view() =~= splitn_sep_v(s@, n as nat));
                out
            },
            Some(i) => {
                proof {
                    lemma_first_sep_in_range(s@);
                }
                let len = s.unicode_len();
                let head = s.substring_char(0, i);
                let tail = s.substring_char(i + 2, len);
                let mut out: Vec<String> = Vec::new();
                out.push(head.to_owned());
                let mut rest = splitn_sep(tail, n - 1);
                let ghost rest_dv = rest.deep_view();
                let ghost rest_sv = rest@;
                out.append(&mut rest);
                assert forall|j: int| 0 < j < out@.len() implies out.deep_view()[j] == rest_dv[j
                    - 1] by {
                    assert(out@[j] == rest_sv[j - 1]);
                    assert(rest_dv[j - 1] == rest_sv[j - 1].deep_view());
                }
                assert(out.deep_view() =~= seq![head@] + rest_dv);
                out
            },
        }
    }
}

/// The delimiter classes the scanners look for.
pub enum CharClass {
    /// Whitespace, as [`is_ws_char`] defines it.
    Ws,
    /// A literal `.`.
    Dot,
    /// A literal `=`.
    Eq,
    /// An exponent marker, `e` or `E`.
    Exp,
    /// A line feed.
    Nl,
    /// Anything but an ASCII decimal digit.
    NonDigit,
}

/// Whether `c` belongs to the delimiter class `cls`.
pub open spec fn spec_in_class(c: char, cls: CharClass) -> bool {
    match cls {
        CharClass::Ws => is_ws_char(c),
        CharClass::Dot => c == '.',
        CharClass::Eq => c == '=',
        CharClass::Exp => c == 'e' || c == 'E',
        CharClass::Nl => c == '\n',
        CharClass::NonDigit => !is_digit(c),
    }
}

/// Executable counterpart of [`spec_in_class`].
pub fn in_class(c: char, cls: &CharClass) -> (r: bool)
    ensures
        r == spec_in_class(c, *cls),
{
    match cls {
        CharClass::Ws => ws_char(c),
        CharClass::Dot => c == '.',
        CharClass::Eq => c == '=',
        CharClass::Exp => c == 'e' || c == 'E',
        CharClass::Nl => c == '\n',
        CharClass::NonDigit => !('0' <= c && c <= '9'),
    }
}

/// The first index at or after `i` holding a character of class `cls`,
/// or the length of `s` if there is none.
pub open spec fn scan_to(s: Seq<char>, i: int, cls: CharClass) -> int
    decreases s.len() - i,
    when 0 <= i <= s.len()
{
    if i >= s.len() {
        i
    } else if spec_in_class(s[i], cls) {
        i
    } else {
        scan_to(s, i + 1, cls)
    }
}

/// Bounds and characterisation of [`scan_to`]: the scan stops at the first
/// delimiter, and everything before it is not a delimiter.
pub proof fn lemma_scan_to(s: Seq<char>, i: int, cls: CharClass)
    requires
        0 <= i <= s.len(),
    ensures
        i <= scan_to(s, i, cls) <= s.len(),
        forall|k: int| i <= k < scan_to(s, i, cls) ==> !spec_in_class(s[k], cls),
        scan_to(s, i, cls) < s.len() ==> spec_in_class(s[scan_to(s, i, cls)], cls),
    decreases s.len() - i,
{
    if i >= s.len() {
    } else if spec_in_class(s[i], cls) {
    } else {
        lemma_scan_to(s, i + 1, cls);
    }
}

/// Scan `s` from `i` for the first character of class `cls`.
pub fn scan(s: &str, i: usize, cls: &CharClass) -> (j: usize)
    requires
        i <= s@.len(),
    ensures
        j == scan_to(s@, i as int, *cls),
{
    let n = s.unicode_len();
    let mut j: usize = i;
    loop
        invariant
            i <= j <= n,
            n == s@.len(),
            scan_to(s@, i as int, *cls) == scan_to(s@, j as int, *cls),
        decreases n - j,
    {
        if j >= n {
            return j;
        }
        if in_class(s.get_char(j), cls) {
            return j;
        }
        j = j + 1;
    }
}

/// The whitespace-separated tokens of `s`, starting at index `i`.
pub open spec fn ws_tokens_from(s: Seq<char>, i: int) -> Seq<Seq<char>>
    decreases s.len() - i,
    when 0 <= i <= s.len()
    via ws_tokens_from_decreases
{
    if i >= s.len() {
        Seq::empty()
    } else if is_ws_char(s[i]) {
        ws_tokens_from(s, i + 1)
    } else {
        seq![s.subrange(i, scan_to(s, i, CharClass::Ws))] + ws_tokens_from(
            s,
            scan_to(s, i, CharClass::Ws),
        )
    }
}

#[via_fn]
proof fn ws_tokens_from_decreases(s: Seq<char>, i: int) {
    if 0 <= i < s.len() && !is_ws_char(s[i]) {
        lemma_scan_to(s, i + 1, CharClass::Ws);
        assert(scan_to(s, i, CharClass::Ws) == scan_to(s, i + 1, CharClass::Ws));
    }
}

/// The whitespace-separated tokens of `s`.
pub open spec fn ws_tokens(s: Seq<char>) -> Seq<Seq<char>> {
    ws_tokens_from(s, 0)
}

/// Split a string slice into its whitespace-separated tokens.
pub fn split_ws(s: &str) -> (r: Vec<String>)
    ensures
        r.deep_view() == ws_tokens(s@),
{
    let n = s.unicode_len();
    let mut out: Vec<String> = Vec::new();
    let mut i: usize = 0;
    loop
        invariant
            i <= n,
            n == s@.len(),
            ws_tokens(s@) == out.deep_view() + ws_tokens_from(s@, i as int),
        decreases n - i,
    {
        if i >= n {
            assert(out.deep_view() =~= out.deep_view() + ws_tokens_from(s@, i as int));
            return out;
        }
        if ws_char(s.get_char(i)) {
            i = i + 1;
        } else {
            let j = scan(s, i, &CharClass::Ws);
            proof {
                lemma_scan_to(s@, i as int, CharClass::Ws);
            }
            let tok = s.substring_char(i, j).to_owned();
            let ghost prev = out.deep_view();
            out.push(tok);
            assert(out.deep_view() =~= prev + seq![s@.subrange(i as int, j as int)]);
            i = j;
        }
    }
}

/// A line with one carriage return dropped from its end, if present.
pub open spec fn strip_cr(l: Seq<char>) -> Seq<char> {
    if l.len() > 0 && l[l.len() - 1] == '\r' {
        l.drop_last()
    } else {
        l
    }
}

/// The lines of `s` from index `i` on: split at line feeds, a carriage
/// return before each line feed dropped, no final empty line after a
/// trailing line feed.
pub open spec fn split_lines_from(s: Seq<char>, i: int) -> Seq<Seq<char>>
    decreases s.len() - i,
    when 0 <= i <= s.len()
    via split_lines_from_decreases
{
    if i >= s.len() {
        Seq::empty()
    } else {
        let j = scan_to(s, i, CharClass::Nl);
        if j >= s.len() {
            seq![s.subrange(i, j)]
        } else {
            seq![strip_cr(s.subrange(i, j))] + split_lines_from(s, j + 1)
        }
    }
}

#[via_fn]
proof fn split_lines_from_decreases(s: Seq<char>, i: int) {
    if 0 <= i < s.len() {
        lemma_scan_to(s, i, CharClass::Nl);
    }
}

/// The lines of `s`.
pub open spec fn split_lines_v(s: Seq<char>) -> Seq<Seq<char>> {
    split_lines_from(s, 0)
}

/// Split a string slice into lines.
pub fn split_lines(s: &str) -> (r: Vec<String>)
    ensures
        r.deep_view() == split_lines_v(s@),
{
    let n = s.unicode_len();
    let mut out: Vec<String> = Vec::new();
    let mut i: usize = 0;
    loop
        invariant
            i <= n,
            n == s@.len(),
            split_lines_v(s@) == out.deep_view() + split_lines_from(s@, i as int),
        decreases n - i,
    {
        if i >= n {
            assert(out.deep_view() =~= out.deep_view() + split_lines_from(s@, i as int));
            return out;
        }
        let j = scan(s, i, &CharClass::Nl);
        proof {
            lemma_scan_to(s@, i as int, CharClass::Nl);
        }
        let ghost prev = out.deep_view();
        if j >= n {
            let line = s.substring_char(i, j).to_owned();
            out.push(line);
            assert(out.deep_view() =~= prev + seq![s@.subrange(i as int, j as int)]);
            i = j;
        } else {
            let line_end = if j > i && s.get_char(j - 1) == '\r' {
                j - 1
            } else {
                j
            };
            let line = s.substring_char(i, line_end).to_owned();
            assert(line@ =~= strip_cr(s@.subrange(i as int, j as int)));
            out.push(line);
            assert(out.deep_view() =~= prev + seq![strip_cr(s@.subrange(i as int, j as int))]);
            i = j + 1;
        }
    }
}

/// `t` split at its first `=`, if it has one: the key and the value.
pub open spec fn split_eq_v(t: Seq<char>) -> Option<(Seq<char>, Seq<char>)> {
    let j = scan_to(t, 0, CharClass::Eq);
    if j >= t.len() {
        None
    } else {
        Some((t.subrange(0, j), t.subrange(j + 1, t.len() as int)))
    }
}

/// Split a token at its first `=`.
pub fn split_eq(t: &str) -> (r: Option<(String, String)>)
    ensures
        match r {
            Some(kv) => split_eq_v(t@) == Some((kv.0@, kv.1@)),
            None => split_eq_v(t@) is None,
        },
{
    let n = t.unicode_len();
    let j = scan(t, 0, &CharClass::Eq);
    proof {
        lemma_scan_to(t@, 0, CharClass::Eq);
    }
    if j >= n {
        None
    } else {
        Some((t.substring_char(0, j).to_owned(), t.substring_char(j + 1, n).to_owned()))
    }
}

/// `s` split at every `.` from index `i` on; empty fields are kept.
pub open spec fn split_dots_from(s: Seq<char>, i: int) -> Seq<Seq<char>>
    decreases s.len() - i,
    when 0 <= i <= s.len()
    via split_dots_from_decreases
{
    let j = scan_to(s, i, CharClass::Dot);
    if j >= s.len() {
        seq![s.subrange(i, j)]
    } else {
        seq![s.subrange(i, j)] + split_dots_from(s, j + 1)
    }
}

#[via_fn]
proof fn split_dots_from_decreases(s: Seq<char>, i: int) {
    if 0 <= i <= s.len() {
        lemma_scan_to(s, i, CharClass::Dot);
    }
}

/// `s` split at every `.`.
pub open spec fn split_dots_v(s: Seq<char>) -> Seq<Seq<char>> {
    split_dots_from(s, 0)
}

/// Split a string slice at every `.`, keeping empty fields.
pub fn split_dots(s: &str) -> (r: Vec<String>)
    ensures
        r.deep_view() == split_dots_v(s@),
{
    let n = s.unicode_len();
    let mut out: Vec<String> = Vec::new();
    let mut i: usize = 0;
    loop
        invariant
            i <= n,
            n == s@.len(),
            split_dots_v(s@) == out.deep_view() + split_dots_from(s@, i as int),
        decreases n + 1 - i,
    {
        let j = scan(s, i, &CharClass::Dot);
        proof {
            lemma_scan_to(s@, i as int, CharClass::Dot);
        }
        let field = s.substring_char(i, j).to_owned();
        let ghost prev = out.deep_view();
        out.push(field);
        assert(out.deep_view() =~= prev + seq![s@.subrange(i as int, j as int)]);
        if j >= n {
            assert(split_dots_v(s@) =~= out.deep_view());
            return out;
        }
        i = j + 1;
    }
}

/// `c` is an ASCII decimal digit.
pub open spec fn is_digit(c: char) -> bool {
    '0' <= c && c <= '9'
}

/// The value of the digit `c`.
pub open spec fn digit_val(c: char) -> int {
    (c as u32) - ('0' as u32)
}

/// Every character of `s` is a digit (an empty `s` passes).
pub open spec fn all_digits(s: Seq<char>) -> bool {
    forall|i: int| 0 <= i < s.len() ==> is_digit(s[i])
}

/// The number the digit string `s` denotes, most significant digit first.
pub open spec fn digits_val(s: Seq<char>) -> int
    decreases s.len(),
{
    if s.len() == 0 {
        0
    } else {
        digits_val(s.drop_last()) * 10 + digit_val(s.last())
    }
}

/// A digit string's value is never negative.
pub proof fn lemma_digits_val_nonneg(s: Seq<char>)
    requires
        all_digits(s),
    ensures
        digits_val(s) >= 0,
    decreases s.len(),
{
    if s.len() > 0 {
        assert(all_digits(s.drop_last()));
        lemma_digits_val_nonneg(s.drop_last());
    }
}

/// Extending a digit string never shrinks its value.
pub proof fn lemma_digits_val_prefix(s: Seq<char>, i: int)
    requires
        all_digits(s),
        0 <= i <= s.len(),
    ensures
        digits_val(s) >= digits_val(s.take(i)),
    decreases s.len() - i,
{
    if i < s.len() {
        lemma_digits_val_prefix(s, i + 1);
        assert(s.take(i + 1).drop_last() =~= s.take(i));
        assert(all_digits(s.take(i)));
        lemma_digits_val_nonneg(s.take(i));
        assert(digits_val(s.take(i + 1)) == digits_val(s.take(i)) * 10 + digit_val(s.take(
            i + 1,
        ).last()));
    } else {
        assert(s.take(i) =~= s);
    }
}

/// The `u64` a token denotes: an optional `+`, then one or more digits,
/// within range. Anything else denotes nothing.
pub open spec fn u64_token(s: Seq<char>) -> Option<u64> {
    let d = if s.len() > 0 && s[0] == '+' {
        s.drop_first()
    } else {
        s
    };
    if d.len() > 0 && all_digits(d) && digits_val(d) <= u64::MAX {
        Some(digits_val(d) as u64)
    } else {
        None
    }
}

/// Parse a token as a `u64`, exactly as [`u64_token`] describes.
pub fn parse_u64(s: &str) -> (r: Option<u64>)
    ensures
        r == u64_token(s@),
{
    let n = s.unicode_len();
    let d: &str = if n > 0 && s.get_char(0) == '+' {
        let rest = s.substring_char(1, n);
        assert(rest@ == s@.drop_first());
        rest
    } else {
        s
    };
    let dn = d.unicode_len();
    if dn == 0 {
        return None;
    }
    let mut acc: u64 = 0;
    let mut i: usize = 0;
    while i < dn
        invariant
            dn == d@.len(),
            i <= dn,
            all_digits(d@.take(i as int)),
            acc == digits_val(d@.take(i as int)),
            u64_token(s@) == if d@.len() > 0 && all_digits(d@) && digits_val(d@) <= u64::MAX {
                Some(digits_val(d@) as u64)
            } else {
                None::<u64>
            },
        decreases dn - i,
    {
        let c = d.get_char(i);
        if !('0' <= c && c <= '9') {
            assert(!is_digit(d@[i as int]));
            return None;
        }
        let dv: u64 = (c as u32 - '0' as u32) as u64;
        proof {
            assert(d@.take(i + 1).drop_last() =~= d@.take(i as int));
            assert(d@.take(i + 1).last() == d@[i as int]);
        }
        if acc > (u64::MAX - dv) / 10 {
            proof {
                if all_digits(d@) {
                    assert(digits_val(d@.take(i + 1)) > u64::MAX);
                    lemma_digits_val_prefix(d@, i + 1);
                }
            }
            return None;
        }
        acc = acc * 10 + dv;
        i = i + 1;
    }
    assert(d@.take(dn as int) =~= d@);
    Some(acc)
}

/// The decimal digit characters of the non-negative number `n`.
pub open spec fn dec_digits(n: int) -> Seq<char>
    decreases n,
    when n >= 0
{
    if n < 10 {
        seq![spec_digit_char(n)]
    } else {
        dec_digits(n / 10).push(spec_digit_char(n % 10))
    }
}

/// The character for the digit value `d`.
pub open spec fn spec_digit_char(d: int) -> char {
    if d == 0 {
        '0'
    } else if d == 1 {
        '1'
    } else if d == 2 {
        '2'
    } else if d == 3 {
        '3'
    } else if d == 4 {
        '4'
    } else if d == 5 {
        '5'
    } else if d == 6 {
        '6'
    } else if d == 7 {
        '7'
    } else if d == 8 {
        '8'
    } else {
        '9'
    }
}

/// One-character string for the digit value `d`.
fn digit_str(d: u64) -> (r: &'static str)
    requires
        d < 10,
    ensures
        r@ =~= seq![spec_digit_char(d as int)],
{
    proof {
        reveal_strlit("0");
        reveal_strlit("1");
        reveal_strlit("2");
        reveal_strlit("3");
        reveal_strlit("4");
        reveal_strlit("5");
        reveal_strlit("6");
        reveal_strlit("7");
        reveal_strlit("8");
        reveal_strlit("9");
    }
    if d == 0 {
        "0"
    } else if d == 1 {
        "1"
    } else if d == 2 {
        "2"
    } else if d == 3 {
        "3"
    } else if d == 4 {
        "4"
    } else if d == 5 {
        "5"
    } else if d == 6 {
        "6"
    } else if d == 7 {
        "7"
    } else if d == 8 {
        "8"
    } else {
        "9"
    }
}

/// Render `n` in decimal.
pub fn u64_to_string(n: u64) -> (r: String)
    ensures
        r@ == dec_digits(n as int),
    decreases n,
{
    if n < 10 {
        digit_str(n).to_owned()
    } else {
        let mut r = u64_to_string(n / 10);
        let d = digit_str(n % 10);
        r.append(d);
        assert(r@ =~= dec_digits(n as int / 10).push(spec_digit_char(n as int % 10)));
        r
    }
}

/// The decimal rendering of the (possibly negative) number `n`.
pub open spec fn dec_int(n: int) -> Seq<char> {
    if n >= 0 {
        dec_digits(n)
    } else {
        seq!['-'] + dec_digits(-n)
    }
}

/// Render `n` in decimal, with a leading minus sign when negative.
pub fn i64_to_string(n: i64) -> (r: String)
    ensures
        r@ == dec_int(n as int),
{
    if n >= 0 {
        u64_to_string(n as u64)
    } else {
        let wide: i128 = -(n as i128);
        let m: u64 = wide as u64;
        let digits = u64_to_string(m);
        let mut r = "-".to_owned();
        proof {
            reveal_strlit("-");
        }
        r.append(digits.as_str());
        assert(r@ =~= seq!['-'] + dec_digits(-(n as int)));
        r
    }
}

/// The `i32` a token denotes: an optional sign, then one or more digits,
/// within range. Anything else denotes nothing.
pub open spec fn i32_token(s: Seq<char>) -> Option<i32> {
    let neg = s.len() > 0 && s[0] == '-';
    let d = strip_sign(s);
    if d.len() > 0 && all_digits(d) && (if neg {
        digits_val(d) <= 0x8000_0000
    } else {
        digits_val(d) <= 0x7fff_ffff
    }) {
        Some((if neg {
            -digits_val(d)
        } else {
            digits_val(d)
        }) as i32)
    } else {
        None
    }
}

/// Parse a token as an `i32`, exactly as [`i32_token`] describes.
pub fn parse_i32(s: &str) -> (r: Option<i32>)
    ensures
        r == i32_token(s@),
{
    let n = s.unicode_len();
    let neg = n > 0 && s.get_char(0) == '-';
    let d = strip_sign_exec(s);
    let dn = d.unicode_len();
    if dn == 0 {
        return None;
    }
    let limit: u64 = if neg {
        0x8000_0000
    } else {
        0x7fff_ffff
    };
    let mut acc: u64 = 0;
    let mut i: usize = 0;
    while i < dn
        invariant
            dn == d@.len(),
            dn > 0,
            i <= dn,
            d@ == strip_sign(s@),
            neg == (s@.len() > 0 && s@[0] == '-'),
            limit == if neg {
                0x8000_0000u64
            } else {
                0x7fff_ffffu64
            },
            all_digits(d@.take(i as int)),
            acc == digits_val(d@.take(i as int)),
            acc <= limit,
        decreases dn - i,
    {
        let c = d.get_char(i);
        if !('0' <= c && c <= '9') {
            assert(!is_digit(d@[i as int]));
            return None;
        }
        let dv: u64 = (c as u32 - '0' as u32) as u64;
        proof {
            assert(d@.take(i + 1).drop_last() =~= d@.take(i as int));
            assert(d@.take(i + 1).last() == d@[i as int]);
        }
        if acc > (limit - dv) / 10 {
            proof {
                if all_digits(d@) {
                    assert(digits_val(d@.take(i + 1)) > limit);
                    lemma_digits_val_prefix(d@, i + 1);
                }
            }
            return None;
        }
        acc = acc * 10 + dv;
        i = i + 1;
    }
    assert(d@.take(dn as int) =~= d@);
    if neg {
        Some((-(acc as i64)) as i32)
    } else {
        Some(acc as i32)
    }
}

/// `a` equals the lowercase letter `b`, ignoring ASCII case.
pub open spec fn lc_eq(a: char, b: char) -> bool {
    a == b || (a as u32) + 32 == (b as u32)
}

/// `s` equals the lowercase word `t`, ignoring ASCII case.
pub open spec fn seq_ieq(s: Seq<char>, t: Seq<char>) -> bool {
    s.len() == t.len() && forall|i: int| 0 <= i < s.len() ==> lc_eq(s[i], t[i])
}

/// Case-insensitive comparison against a lowercase word.
pub fn str_ieq(s: &str, t: &str) -> (r: bool)
    ensures
        r == seq_ieq(s@, t@),
{
    let ns = s.unicode_len();
    let nt = t.unicode_len();
    if ns != nt {
        return false;
    }
    let mut i: usize = 0;
    while i < ns
        invariant
            ns == s@.len(),
            ns == t@.len(),
            i <= ns,
            forall|k: int| 0 <= k < i ==> lc_eq(s@[k], t@[k]),
        decreases ns - i,
    {
        let a = s.get_char(i);
        let b = t.get_char(i);
        let a32 = a as u32;
        let b32 = b as u32;
        if !(a == b || (a32 < 0xffffffff - 32 && a32 + 32 == b32)) {
            assert(!lc_eq(s@[i as int], t@[i as int]));
            return false;
        }
        i = i + 1;
    }
    true
}

/// `s` without one leading sign character.
pub open spec fn strip_sign(s: Seq<char>) -> Seq<char> {
    if s.len() > 0 && (s[0] == '+' || s[0] == '-') {
        s.drop_first()
    } else {
        s
    }
}

/// Drop one leading sign character from a string slice.
pub fn strip_sign_exec(s: &str) -> (r: &str)
    ensures
        r@ == strip_sign(s@),
{
    let n = s.unicode_len();
    if n > 0 {
        let c = s.get_char(0);
        if c == '+' || c == '-' {
            let rest = s.substring_char(1, n);
            assert(rest@ == s@.drop_first());
            return rest;
        }
    }
    s
}

/// Check that every character of a string slice is a digit.
pub fn check_all_digits(s: &str) -> (r: bool)
    ensures
        r == all_digits(s@),
{
    let n = s.unicode_len();
    let mut i: usize = 0;
    while i < n
        invariant
            n == s@.len(),
            i <= n,
            forall|k: int| 0 <= k < i ==> is_digit(s@[k]),
        decreases n - i,
    {
        let c = s.get_char(i);
        if !('0' <= c && c <= '9') {
            assert(!is_digit(s@[i as int]));
            return false;
        }
        i = i + 1;
    }
    true
}

/// A mantissa: digits, with at most one dot somewhere among them, and at
/// least one digit in total.
pub open spec fn is_mantissa(m: Seq<char>) -> bool {
    let j = scan_to(m, 0, CharClass::Dot);
    if j >= m.len() {
        m.len() > 0 && all_digits(m)
    } else {
        all_digits(m.subrange(0, j)) && all_digits(m.subrange(j + 1, m.len() as int)) && m.len()
            >= 2
    }
}

/// An exponent body: an optional sign, then one or more digits.
pub open spec fn is_exp_body(e: Seq<char>) -> bool {
    strip_sign(e).len() > 0 && all_digits(strip_sign(e))
}

/// A number: a mantissa, optionally followed by `e`/`E` and an exponent.
pub open spec fn is_number_token(s: Seq<char>) -> bool {
    let j = scan_to(s, 0, CharClass::Exp);
    if j >= s.len() {
        is_mantissa(s)
    } else {
        is_mantissa(s.subrange(0, j)) && is_exp_body(s.subrange(j + 1, s.len() as int))
    }
}

/// A floating-point token: an optional sign, then `inf`, `infinity` or
/// `nan` in any case, or a number.
pub open spec fn float_token(s: Seq<char>) -> bool {
    let b = strip_sign(s);
    seq_ieq(b, seq!['i', 'n', 'f']) || seq_ieq(b, seq!['i', 'n', 'f', 'i', 'n', 'i', 't', 'y'])
        || seq_ieq(b, seq!['n', 'a', 'n']) || is_number_token(b)
}

/// Check a mantissa.
fn check_mantissa(m: &str) -> (r: bool)
    ensures
        r == is_mantissa(m@),
{
    let n = m.unicode_len();
    let j = scan(m, 0, &CharClass::Dot);
    proof {
        lemma_scan_to(m@, 0, CharClass::Dot);
    }
    if j >= n {
        n > 0 && check_all_digits(m)
    } else {
        let left = m.substring_char(0, j);
        let right = m.substring_char(j + 1, n);
        check_all_digits(left) && check_all_digits(right) && n >= 2
    }
}

/// Recognise a floating-point token, exactly as [`float_token`] describes.
pub fn is_float_token(s: &str) -> (r: bool)
    ensures
        r == float_token(s@),
{
    let b = strip_sign_exec(s);
    proof {
        reveal_strlit("inf");
        reveal_strlit("infinity");
        reveal_strlit("nan");
    }
    if str_ieq(b, "inf") || str_ieq(b, "infinity") || str_ieq(b, "nan") {
        return true;
    }
    let n = b.unicode_len();
    let j = scan(b, 0, &CharClass::Exp);
    proof {
        lemma_scan_to(b@, 0, CharClass::Exp);
    }
    if j >= n {
        check_mantissa(b)
    } else {
        let m = b.substring_char(0, j);
        let e = b.substring_char(j + 1, n);
        check_mantissa(m) && {
            let d = strip_sign_exec(e);
            !d.is_empty() && check_all_digits(d)
        }
    }
}

} // verus!
