use vstd::prelude::*;

use crate::config::{Config, ConfigModel};

verus! {

/// The whitespace characters the command-line parser splits and trims on:
/// the Unicode White_Space set, the one `str::trim` and `split_whitespace`
/// go by — space, the controls tab through carriage return (which include
/// vertical tab and form feed), next line, no-break space, ogham space
/// mark, the en-quad through hair-space range, the line and paragraph
/// separators, narrow no-break space, medium mathematical space, and
/// ideographic space.
pub open spec fn is_space(c: char) -> bool {
    ||| c == ' '
    ||| ('\u{0009}' <= c && c <= '\u{000D}')
    ||| c == '\u{0085}'
    ||| c == '\u{00A0}'
    ||| c == '\u{1680}'
    ||| ('\u{2000}' <= c && c <= '\u{200A}')
    ||| c == '\u{2028}'
    ||| c == '\u{2029}'
    ||| c == '\u{202F}'
    ||| c == '\u{205F}'
    ||| c == '\u{3000}'
}

#[verifier::when_used_as_spec(is_space)]
pub fn space_char(c: char) -> (r: bool)
    ensures
        r == is_space(c),
{
    c == ' ' || ('\u{0009}' <= c && c <= '\u{000D}') || c == '\u{0085}' || c == '\u{00A0}' || c
        == '\u{1680}' || ('\u{2000}' <= c && c <= '\u{200A}') || c == '\u{2028}' || c == '\u{2029}'
        || c == '\u{202F}' || c == '\u{205F}' || c == '\u{3000}'
}

/// Index of the first whitespace character of `s` at or after `i` (or the
/// length of `s` if there is none).
pub open spec fn token_end(s: Seq<char>, i: int) -> int
    decreases s.len() - i,
{
    if i >= s.len() || is_space(s[i]) {
        i
    } else {
        token_end(s, i + 1)
    }
}

proof fn lemma_token_end_bounds(s: Seq<char>, i: int)
    requires
        0 <= i <= s.len(),
    ensures
        i <= token_end(s, i) <= s.len(),
        forall|j: int| i <= j < token_end(s, i) ==> !is_space(s[j]),
        token_end(s, i) < s.len() ==> is_space(s[token_end(s, i)]),
        i < s.len() && !is_space(s[i]) ==> token_end(s, i) > i,
    decreases s.len() - i,
{
    if i < s.len() && !is_space(s[i]) {
        lemma_token_end_bounds(s, i + 1);
    }
}

/// The whitespace-split tokens of `s` from position `i` on: the maximal
/// runs of non-whitespace characters, in order.
pub open spec fn tokens_from(s: Seq<char>, i: int) -> Seq<Seq<char>>
    decreases s.len() - i,
    when 0 <= i
    via tokens_from_decreases
{
    if i >= s.len() {
        Seq::empty()
    } else if is_space(s[i]) {
        tokens_from(s, i + 1)
    } else {
        seq![s.subrange(i, token_end(s, i))] + tokens_from(s, token_end(s, i))
    }
}

#[via_fn]
proof fn tokens_from_decreases(s: Seq<char>, i: int) {
    if 0 <= i && i < s.len() && !is_space(s[i]) {
        lemma_token_end_bounds(s, i);
    }
}

/// The whitespace-split tokens of a whole string.
pub open spec fn tokens(s: Seq<char>) -> Seq<Seq<char>> {
    tokens_from(s, 0)
}

/// Splits a string into its whitespace-separated tokens.
pub fn split_whitespace_tokens(s: &str) -> (r: Vec<String>)
    ensures
        r.deep_view() == tokens(s@),
{
    let n = s.unicode_len();
    let mut out: Vec<String> = Vec::new();
    let mut i: usize = 0;
    while i < n
        invariant
            n == s@.len(),
            i <= n,
            out.deep_view() + tokens_from(s@, i as int) =~= tokens(s@),
        decreases n - i,
    {
        if space_char(s.get_char(i)) {
            i = i + 1;
        } else {
            let start = i;
            while i < n && !space_char(s.get_char(i))
                invariant
                    n == s@.len(),
                    start <= i <= n,
                    forall|j: int| start <= j < i ==> !is_space(s@[j]),
                decreases n - i,
            {
                i = i + 1;
            }
            proof {
                lemma_token_end_agrees(s@, start as int, i as int);
            }
            let tok = s.substring_char(start, i);
            let ghost prev = out.deep_view();
            out.push(tok.to_owned());
            proof {
                assert(out.deep_view() =~= prev.push(s@.subrange(start as int, i as int)));
                assert(out.deep_view() + tokens_from(s@, i as int) =~= tokens(s@));
            }
        }
    }
    proof {
        assert(out.deep_view() + tokens_from(s@, i as int) =~= out.deep_view());
    }
    out
}

proof fn lemma_token_end_agrees(s: Seq<char>, start: int, e: int)
    requires
        0 <= start <= e <= s.len(),
        forall|j: int| start <= j < e ==> !is_space(s[j]),
        e < s.len() ==> is_space(s[e]),
    ensures
        token_end(s, start) == e,
    decreases e - start,
{
    if start < e {
        lemma_token_end_agrees(s, start + 1, e);
    }
}

/// Case-insensitive comparison with the word `none` (ASCII cases only).
pub open spec fn is_none_word(s: Seq<char>) -> bool {
    &&& s.len() == 4
    &&& (s[0] == 'n' || s[0] == 'N')
    &&& (s[1] == 'o' || s[1] == 'O')
    &&& (s[2] == 'n' || s[2] == 'N')
    &&& (s[3] == 'e' || s[3] == 'E')
}

fn none_word(s: &str) -> (r: bool)
    ensures
        r == is_none_word(s@),
{
    let n = s.unicode_len();
    if n != 4 {
        return false;
    }
    let c0 = s.get_char(0);
    let c1 = s.get_char(1);
    let c2 = s.get_char(2);
    let c3 = s.get_char(3);
    (c0 == 'n' || c0 == 'N') && (c1 == 'o' || c1 == 'O') && (c2 == 'n' || c2 == 'N') && (c3 == 'e'
        || c3 == 'E')
}

/// What an optional command-line value means: no tokens at all, or exactly
/// the word `none` (any case, surrounded by any whitespace), disable the
/// command; anything else is the command's whitespace-split tokens.
pub open spec fn spec_opt_value(s: Seq<char>) -> Option<Seq<Seq<char>>> {
    if tokens(s).len() == 0 || (tokens(s).len() == 1 && is_none_word(tokens(s)[0])) {
        None
    } else {
        Some(tokens(s))
    }
}

/// Parses an optional command value (see `spec_opt_value`).
pub fn parse_opt_value(s: &str) -> (r: Option<Vec<String>>)
    ensures
        r.deep_view() == spec_opt_value(s@),
{
    let v = split_whitespace_tokens(s);
    if v.len() == 0 {
        return None;
    }
    if v.len() == 1 && none_word(v[0].as_str()) {
        return None;
    }
    Some(v)
}

/// Decimal digits.
pub open spec fn is_digit(c: char) -> bool {
    '0' <= c && c <= '9'
}

/// The value of a decimal digit.
pub open spec fn digit_val(c: char) -> int {
    c as u32 - '0' as u32
}

pub open spec fn all_digits(s: Seq<char>) -> bool {
    forall|i: int| 0 <= i < s.len() ==> is_digit(s[i])
}

/// The number a string of decimal digits denotes.
pub open spec fn dec_value(s: Seq<char>) -> int
    decreases s.len(),
{
    if s.len() == 0 {
        0
    } else {
        dec_value(s.drop_last()) * 10 + digit_val(s.last())
    }
}

proof fn lemma_dec_value_nonneg(s: Seq<char>)
    requires
        all_digits(s),
    ensures
        dec_value(s) >= 0,
    decreases s.len(),
{
    if s.len() > 0 {
        assert(all_digits(s.drop_last()));
        lemma_dec_value_nonneg(s.drop_last());
    }
}

proof fn lemma_dec_value_prefix(s: Seq<char>, i: int)
    requires
        all_digits(s),
        0 <= i <= s.len(),
    ensures
        dec_value(s.subrange(0, i)) <= dec_value(s),
    decreases s.len(),
{
    lemma_dec_value_nonneg(s);
    if i < s.len() {
        assert(all_digits(s.drop_last()));
        assert(s.subrange(0, i) =~= s.drop_last().subrange(0, i));
        lemma_dec_value_prefix(s.drop_last(), i);
        lemma_dec_value_nonneg(s.drop_last());
    } else {
        assert(s.subrange(0, i) =~= s);
    }
}

/// Parses the digits of `s` from position `from` on as a decimal number, if
/// they are one or more digits and nothing else and the value does not
/// exceed `limit`.
fn parse_digits(s: &str, from: usize, limit: u64) -> (r: Option<u64>)
    requires
        from <= s@.len(),
    ensures
        ({
            let d = s@.subrange(from as int, s@.len() as int);
            match r {
                Some(v) => d.len() > 0 && all_digits(d) && dec_value(d) == v && v <= limit,
                None => !(d.len() > 0 && all_digits(d) && dec_value(d) <= limit),
            }
        }),
{
    let ghost d = s@.subrange(from as int, s@.len() as int);
    let n = s.unicode_len();
    if from >= n {
        return None;
    }
    let mut val: u64 = 0;
    let mut i: usize = from;
    while i < n
        invariant
            n == s@.len(),
            from <= i <= n,
            d == s@.subrange(from as int, s@.len() as int),
            forall|j: int| 0 <= j < i - from ==> is_digit(d[j]),
            val == dec_value(d.subrange(0, i - from)),
            val <= limit,
        decreases n - i,
    {
        let c = s.get_char(i);
        assert(d[i - from] == s@[i as int]);
        if !('0' <= c && c <= '9') {
            assert(!all_digits(d));
            return None;
        }
        let dv: u64 = (c as u32 - '0' as u32) as u64;
        proof {
            assert(d.subrange(0, i + 1 - from).drop_last() =~= d.subrange(0, i - from));
            assert(d.subrange(0, i + 1 - from).last() == d[i - from]);
        }
        if dv > limit || val > (limit - dv) / 10 {
            proof {
                assert(val * 10 + dv > limit) by (nonlinear_arith)
                    requires
                        dv > limit || val > (limit - dv) / 10,
                        val >= 0,
                ;
                assert(dec_value(d.subrange(0, i + 1 - from)) > limit);
                if all_digits(d) {
                    lemma_dec_value_prefix(d, i + 1 - from);
                }
            }
            return None;
        }
        proof {
            assert(val * 10 + dv <= limit) by (nonlinear_arith)
                requires
                    val <= (limit - dv) / 10,
                    dv <= limit,
            ;
        }
        val = val * 10 + dv;
        i = i + 1;
    }
    proof {
        assert(d.subrange(0, n - from) =~= d);
    }
    Some(val)
}

/// What `str::parse::<u64>` accepts: an optional `+`, then one or more
/// decimal digits, with the value fitting in the type.
pub open spec fn spec_parse_u64(s: Seq<char>) -> Option<u64> {
    let d = if s.len() > 0 && s[0] == '+' {
        s.subrange(1, s.len() as int)
    } else {
        s
    };
    if d.len() > 0 && all_digits(d) && dec_value(d) <= u64::MAX {
        Some(dec_value(d) as u64)
    } else {
        None
    }
}

/// Parses a decimal `u64` the way `str::parse` does (see `spec_parse_u64`).
pub fn parse_u64(s: &str) -> (r: Option<u64>)
    ensures
        r == spec_parse_u64(s@),
{
    proof {
        assert(s@.subrange(0, s@.len() as int) =~= s@);
    }
    let n = s.unicode_len();
    let from: usize = if n > 0 && s.get_char(0) == '+' {
        1
    } else {
        0
    };
    parse_digits(s, from, u64::MAX)
}

/// What `str::parse::<i64>` accepts: an optional `+` or `-` sign, then one
/// or more decimal digits, with the value fitting in the type.
pub open spec fn spec_parse_i64(s: Seq<char>) -> Option<i64> {
    if s.len() > 0 && s[0] == '-' {
        let d = s.subrange(1, s.len() as int);
        if d.len() > 0 && all_digits(d) && dec_value(d) <= 0x8000_0000_0000_0000 {
            Some((-dec_value(d)) as i64)
        } else {
            None
        }
    } else {
        let d = if s.len() > 0 && s[0] == '+' {
            s.subrange(1, s.len() as int)
        } else {
            s
        };
        if d.len() > 0 && all_digits(d) && dec_value(d) <= i64::MAX {
            Some(dec_value(d) as i64)
        } else {
            None
        }
    }
}

/// Parses a decimal `i64` the way `str::parse` does (see `spec_parse_i64`).
pub fn parse_i64(s: &str) -> (r: Option<i64>)
    ensures
        r == spec_parse_i64(s@),
{
    proof {
        assert(s@.subrange(0, s@.len() as int) =~= s@);
    }
    let n = s.unicode_len();
    if n > 0 && s.get_char(0) == '-' {
        match parse_digits(s, 1, 0x8000_0000_0000_0000u64) {
            Some(mag) => {
                if mag == 0x8000_0000_0000_0000u64 {
                    Some(i64::MIN)
                } else {
                    Some(-(mag as i64))
                }
            },
            None => None,
        }
    } else {
        let from: usize = if n > 0 && s.get_char(0) == '+' {
            1
        } else {
            0
        };
        match parse_digits(s, from, i64::MAX as u64) {
            Some(v) => Some(v as i64),
            None => None,
        }
    }
}

/// Index of the first non-whitespace character of `s` at or after `i` (or
/// the length of `s`).
pub open spec fn skip_spaces(s: Seq<char>, i: int) -> int
    decreases s.len() - i,
{
    if i >= s.len() || !is_space(s[i]) {
        i
    } else {
        skip_spaces(s, i + 1)
    }
}

/// Position just past the last non-whitespace character of `s` strictly
/// before `j` (or 0).
pub open spec fn rtrim_end(s: Seq<char>, j: int) -> int
    decreases j,
{
    if j <= 0 {
        0
    } else if is_space(s[j - 1]) {
        rtrim_end(s, j - 1)
    } else {
        j
    }
}

/// `s` with leading and trailing whitespace removed.
pub open spec fn spec_trim(s: Seq<char>) -> Seq<char> {
    let a = skip_spaces(s, 0);
    let b = rtrim_end(s, s.len() as int);
    if a <= b {
        s.subrange(a, b)
    } else {
        Seq::empty()
    }
}

proof fn lemma_skip_spaces_agrees(s: Seq<char>, from: int, e: int)
    requires
        0 <= from <= e <= s.len(),
        forall|j: int| from <= j < e ==> is_space(s[j]),
        e < s.len() ==> !is_space(s[e]),
    ensures
        skip_spaces(s, from) == e,
    decreases e - from,
{
    if from < e {
        lemma_skip_spaces_agrees(s, from + 1, e);
    }
}

proof fn lemma_rtrim_end_agrees(s: Seq<char>, from: int, e: int)
    requires
        0 <= e <= from <= s.len(),
        forall|j: int| e <= j < from ==> is_space(s[j]),
        e > 0 ==> !is_space(s[e - 1]),
    ensures
        rtrim_end(s, from) == e,
    decreases from - e,
{
    if e < from {
        lemma_rtrim_end_agrees(s, from - 1, e);
    }
}

/// Removes leading and trailing whitespace (see `spec_trim`).
pub fn trim(s: &str) -> (r: String)
    ensures
        r@ == spec_trim(s@),
{
    let n = s.unicode_len();
    let mut a: usize = 0;
    while a < n && space_char(s.get_char(a))
        invariant
            n == s@.len(),
            a <= n,
            forall|j: int| 0 <= j < a ==> is_space(s@[j]),
        decreases n - a,
    {
        a = a + 1;
    }
    proof {
        lemma_skip_spaces_agrees(s@, 0, a as int);
    }
    let mut b: usize = n;
    while b > 0 && space_char(s.get_char(b - 1))
        invariant
            n == s@.len(),
            b <= n,
            forall|j: int| b <= j < n ==> is_space(s@[j]),
        decreases b,
    {
        b = b - 1;
    }
    proof {
        lemma_rtrim_end_agrees(s@, n as int, b as int);
    }
    if a < b {
        s.substring_char(a, b).to_owned()
    } else {
        String::new()
    }
}

/// Index of the first `=` in `s` at or after `i`, if any.
pub open spec fn first_eq(s: Seq<char>, i: int) -> Option<int>
    decreases s.len() - i,
{
    if i >= s.len() {
        None
    } else if s[i] == '=' {
        Some(i)
    } else {
        first_eq(s, i + 1)
    }
}

proof fn lemma_first_eq_agrees(s: Seq<char>, from: int, e: int)
    requires
        0 <= from <= e < s.len(),
        forall|j: int| from <= j < e ==> s[j] != '=',
        s[e] == '=',
    ensures
        first_eq(s, from) == Some(e),
    decreases e - from,
{
    if from < e {
        lemma_first_eq_agrees(s, from + 1, e);
    }
}

proof fn lemma_first_eq_none(s: Seq<char>, from: int)
    requires
        0 <= from,
        forall|j: int| from <= j < s.len() ==> s[j] != '=',
    ensures
        first_eq(s, from) is None,
    decreases s.len() - from,
{
    if from < s.len() {
        lemma_first_eq_none(s, from + 1);
    }
}

fn find_eq(s: &str) -> (r: Option<usize>)
    ensures
        match r {
            Some(e) => first_eq(s@, 0) == Some(e as int) && e < s@.len(),
            None => first_eq(s@, 0) is None,
        },
{
    let n = s.unicode_len();
    let mut i: usize = 0;
    while i < n
        invariant
            n == s@.len(),
            i <= n,
            forall|j: int| 0 <= j < i ==> s@[j] != '=',
        decreases n - i,
    {
        if s.get_char(i) == '=' {
            proof {
                lemma_first_eq_agrees(s@, 0, i as int);
            }
            return Some(i);
        }
        i = i + 1;
    }
    proof {
        lemma_first_eq_none(s@, 0);
    }
    None
}

/// The option name in one raw argument: everything before the first `=`,
/// or the whole argument.
pub open spec fn key_of(a: Seq<char>) -> Seq<char> {
    match first_eq(a, 0) {
        Some(e) => a.subrange(0, e),
        None => a,
    }
}

/// The inline value of one raw argument: what follows the first `=`,
/// trimmed; an empty remainder means no value.
pub open spec fn inline_val_of(a: Seq<char>) -> Option<Seq<char>> {
    match first_eq(a, 0) {
        Some(e) => {
            let t = spec_trim(a.subrange(e + 1, a.len() as int));
            if t.len() == 0 {
                None
            } else {
                Some(t)
            }
        },
        None => None,
    }
}

fn str_eq(a: &str, b: &str) -> (r: bool)
    ensures
        r == (a@ == b@),
{
    let n = a.unicode_len();
    if n != b.unicode_len() {
        return false;
    }
    let mut i: usize = 0;
    while i < n
        invariant
            n == a@.len() == b@.len(),
            i <= n,
            forall|j: int| 0 <= j < i ==> a@[j] == b@[j],
        decreases n - i,
    {
        if a.get_char(i) != b.get_char(i) {
            return false;
        }
        i = i + 1;
    }
    proof {
        assert(a@ =~= b@);
    }
    true
}

/// The options that take a value from the following argument.
pub open spec fn spec_takes_val(k: Seq<char>) -> bool {
    ||| k == "--phase1"@
    ||| k == "-1"@
    ||| k == "--phase2"@
    ||| k == "-2"@
    ||| k == "--auto-snooze"@
    ||| k == "-a"@
    ||| k == "--phase1-cmd"@
    ||| k == "--phase2-cmd"@
}

fn takes_val(k: &str) -> (r: bool)
    ensures
        r == spec_takes_val(k@),
{
    str_eq(k, "--phase1") || str_eq(k, "-1") || str_eq(k, "--phase2") || str_eq(k, "-2") || str_eq(
        k,
        "--auto-snooze",
    ) || str_eq(k, "-a") || str_eq(k, "--phase1-cmd") || str_eq(k, "--phase2-cmd")
}

/// The (option, value) pairs of the raw argument list from index `i` on: a
/// value comes inline from `--key=val`, or, for an option that takes one,
/// from the following argument (which is then consumed).
pub open spec fn spec_argv_pairs(args: Seq<Seq<char>>, i: int) -> Seq<
    (Seq<char>, Option<Seq<char>>),
>
    decreases args.len() + 2 - i,
    when i >= 0
{
    if i >= args.len() {
        Seq::empty()
    } else {
        let a = args[i];
        let k = key_of(a);
        let v = inline_val_of(a);
        if v is None && spec_takes_val(k) {
            let w: Option<Seq<char>> = if i + 1 < args.len() {
                Some(args[i + 1])
            } else {
                None
            };
            seq![(k, w)] + spec_argv_pairs(args, i + 2)
        } else {
            seq![(k, v)] + spec_argv_pairs(args, i + 1)
        }
    }
}

/// Splits the raw argument list (program name first) into (option, value)
/// pairs, as `spec_argv_pairs` describes.
pub fn argv_pairs(args: &Vec<String>) -> (r: Vec<(String, Option<String>)>)
    ensures
        r.deep_view() == spec_argv_pairs(args.deep_view(), 1),
{
    let mut out: Vec<(String, Option<String>)> = Vec::new();
    let mut i: usize = 1;
    while i < args.len()
        invariant
            1 <= i,
            out.deep_view() + spec_argv_pairs(args.deep_view(), i as int) =~= spec_argv_pairs(
                args.deep_view(),
                1,
            ),
        decreases args.len() - i,
    {
        let arg = &args[i];
        let ghost a = args.deep_view()[i as int];
        assert(a == arg@);
        let n = arg.as_str().unicode_len();
        let key: String;
        let mut val: Option<String>;
        match find_eq(arg.as_str()) {
            Some(e) => {
                key = arg.as_str().substring_char(0, e).to_owned();
                let t = trim(arg.as_str().substring_char(e + 1, n));
                if t.as_str().unicode_len() == 0 {
                    val = None;
                } else {
                    val = Some(t);
                }
            },
            None => {
                key = arg.clone();
                val = None;
            },
        }
        assert(key@ == key_of(a));
        assert(val.deep_view() == inline_val_of(a));
        let ghost dv = args.deep_view();
        let ghost prev = out.deep_view();
        if val.is_none() && takes_val(key.as_str()) {
            if i + 1 < args.len() {
                val = Some(args[i + 1].clone());
                out.push((key, val));
                proof {
                    let p = (key_of(a), Some(dv[i as int + 1]));
                    assert(out.deep_view() =~= prev.push(p));
                    assert(spec_argv_pairs(dv, i as int) == seq![p] + spec_argv_pairs(
                        dv,
                        i as int + 2,
                    ));
                    assert(prev.push(p) + spec_argv_pairs(dv, i as int + 2) =~= prev + (seq![p]
                        + spec_argv_pairs(dv, i as int + 2)));
                }
                i = i + 2;
            } else {
                out.push((key, None));
                proof {
                    let p = (key_of(a), None::<Seq<char>>);
                    assert(out.deep_view() =~= prev.push(p));
                    assert(spec_argv_pairs(dv, i as int) == seq![p] + spec_argv_pairs(
                        dv,
                        i as int + 2,
                    ));
                    assert(spec_argv_pairs(dv, args.len() as int) == Seq::<
                        (Seq<char>, Option<Seq<char>>),
                    >::empty());
                    assert(spec_argv_pairs(dv, i as int + 2) == Seq::<
                        (Seq<char>, Option<Seq<char>>),
                    >::empty());
                    assert(prev.push(p) + spec_argv_pairs(dv, args.len() as int) =~= prev + (
                    seq![p] + spec_argv_pairs(dv, i as int + 2)));
                }
                i = args.len();
            }
        } else {
            out.push((key, val));
            proof {
                let p = (key_of(a), inline_val_of(a));
                assert(out.deep_view() =~= prev.push(p));
                assert(spec_argv_pairs(dv, i as int) == seq![p] + spec_argv_pairs(
                    dv,
                    i as int + 1,
                ));
                assert(prev.push(p) + spec_argv_pairs(dv, i as int + 1) =~= prev + (seq![p]
                    + spec_argv_pairs(dv, i as int + 1)));
            }
            i = i + 1;
        }
    }
    proof {
        assert(out.deep_view() + spec_argv_pairs(args.deep_view(), i as int) =~= out.deep_view());
    }
    out
}

/// The settings accumulated while walking the option pairs; the two
/// commands are still raw, unsplit strings.
pub ghost struct RawArgs {
    pub phase1_secs: u64,
    pub phase2_secs: u64,
    pub auto_snooze_secs: u64,
    pub phase1_cmd: Seq<char>,
    pub phase2_cmd: Seq<char>,
}

/// The built-in defaults: phase 1 after 10 s idle, phase 2 after another
/// 300 s, a 60 s snooze, no phase-1 command, and powering off as the
/// phase-2 command.
pub open spec fn default_raw() -> RawArgs {
    RawArgs {
        phase1_secs: 10,
        phase2_secs: 300,
        auto_snooze_secs: 60,
        phase1_cmd: Seq::empty(),
        phase2_cmd: "systemctl poweroff"@,
    }
}

pub open spec fn is_help_key(k: Seq<char>) -> bool {
    k == "-h"@ || k == "--help"@
}

/// One option applied to the accumulated settings: the threshold options
/// take a positive decimal, the snooze takes any decimal clamped at zero,
/// the command options replace the raw command string (a missing value
/// clears it), anything unrecognised is ignored.
pub open spec fn apply_pair(acc: RawArgs, k: Seq<char>, v: Option<Seq<char>>) -> RawArgs {
    if k == "--phase1"@ || k == "-1"@ {
        match v {
            Some(s) => match spec_parse_u64(s) {
                Some(n) => if n > 0 {
                    RawArgs { phase1_secs: n, ..acc }
                } else {
                    acc
                },
                None => acc,
            },
            None => acc,
        }
    } else if k == "--phase2"@ || k == "-2"@ {
        match v {
            Some(s) => match spec_parse_u64(s) {
                Some(n) => if n > 0 {
                    RawArgs { phase2_secs: n, ..acc }
                } else {
                    acc
                },
                None => acc,
            },
            None => acc,
        }
    } else if k == "--auto-snooze"@ || k == "-a"@ {
        match v {
            Some(s) => match spec_parse_i64(s) {
                Some(n) => RawArgs {
                    auto_snooze_secs: if n > 0 {
                        n as u64
                    } else {
                        0
                    },
                    ..acc
                },
                None => acc,
            },
            None => acc,
        }
    } else if k == "--phase1-cmd"@ {
        RawArgs {
            phase1_cmd: match v {
                Some(s) => s,
                None => Seq::empty(),
            },
            ..acc
        }
    } else if k == "--phase2-cmd"@ {
        RawArgs {
            phase2_cmd: match v {
                Some(s) => s,
                None => Seq::empty(),
            },
            ..acc
        }
    } else {
        acc
    }
}

/// Folds the option pairs from index `i` over the accumulated settings;
/// `None` means help was requested (which preempts everything after it).
pub open spec fn fold_pairs(
    pairs: Seq<(Seq<char>, Option<Seq<char>>)>,
    i: int,
    acc: RawArgs,
) -> Option<RawArgs>
    decreases pairs.len() - i,
{
    if i >= pairs.len() {
        Some(acc)
    } else if is_help_key(pairs[i].0) {
        None
    } else {
        fold_pairs(pairs, i + 1, apply_pair(acc, pairs[i].0, pairs[i].1))
    }
}

/// The settings a raw argument list (program name first) denotes, or
/// `None` when it asks for help.
pub open spec fn spec_raw_args(args: Seq<Seq<char>>) -> Option<RawArgs> {
    fold_pairs(spec_argv_pairs(args, 1), 0, default_raw())
}

/// The outcome of command-line parsing: a validated configuration to run
/// with, a request for the usage text, or rejection (`phase1 >= phase2`).
pub enum ParseOutcome {
    Run(Config),
    ShowHelp,
    Reject,
}

/// Parses the raw argument list (program name first): applies every option
/// to the defaults (see `apply_pair`), honours `-h`/`--help`, and rejects
/// a phase-1 threshold that is not strictly below the phase-2 threshold.
pub fn parse_args(args: &Vec<String>) -> (r: ParseOutcome)
    ensures
        ({
            let folded = spec_raw_args(args.deep_view());
            match folded {
                None => r is ShowHelp,
                Some(acc) => if acc.phase1_secs >= acc.phase2_secs {
                    r is Reject
                } else {
                    r matches ParseOutcome::Run(c) && c.phase1_secs == acc.phase1_secs
                        && c.phase2_secs == acc.phase2_secs && c.auto_snooze_secs
                        == acc.auto_snooze_secs && c.phase1_cmd.deep_view() == spec_opt_value(
                        acc.phase1_cmd,
                    ) && c.phase2_cmd.deep_view() == spec_opt_value(acc.phase2_cmd) && c@.wf()
                },
            }
        }),
{
    let pairs = argv_pairs(args);
    let ghost ps = pairs.deep_view();
    let mut phase1_secs: u64 = 10;
    let mut phase2_secs: u64 = 300;
    let mut auto_snooze_secs: u64 = 60;
    let mut phase1_cmd_str: String = String::new();
    let mut phase2_cmd_str: String = String::from_str("systemctl poweroff");
    let mut idx: usize = 0;
    while idx < pairs.len()
        invariant
            ps == pairs.deep_view(),
            idx <= pairs.len(),
            fold_pairs(
                ps,
                idx as int,
                RawArgs {
                    phase1_secs,
                    phase2_secs,
                    auto_snooze_secs,
                    phase1_cmd: phase1_cmd_str@,
                    phase2_cmd: phase2_cmd_str@,
                },
            ) == spec_raw_args(args.deep_view()),
        decreases pairs.len() - idx,
    {
        let ghost acc = RawArgs {
            phase1_secs,
            phase2_secs,
            auto_snooze_secs,
            phase1_cmd: phase1_cmd_str@,
            phase2_cmd: phase2_cmd_str@,
        };
        let pair = &pairs[idx];
        let k = &pair.0;
        let v = &pair.1;
        assert(ps[idx as int] == (k@, v.deep_view()));
        if str_eq(k.as_str(), "-h") || str_eq(k.as_str(), "--help") {
            return ParseOutcome::ShowHelp;
        }
        if str_eq(k.as_str(), "--phase1") || str_eq(k.as_str(), "-1") {
            if let Some(s) = v {
                if let Some(n) = parse_u64(s.as_str()) {
                    if n > 0 {
                        phase1_secs = n;
                    }
                }
            }
        } else if str_eq(k.as_str(), "--phase2") || str_eq(k.as_str(), "-2") {
            if let Some(s) = v {
                if let Some(n) = parse_u64(s.as_str()) {
                    if n > 0 {
                        phase2_secs = n;
                    }
                }
            }
        } else if str_eq(k.as_str(), "--auto-snooze") || str_eq(k.as_str(), "-a") {
            if let Some(s) = v {
                if let Some(n) = parse_i64(s.as_str()) {
                    auto_snooze_secs = if n > 0 {
                        n as u64
                    } else {
                        0
                    };
                }
            }
        } else if str_eq(k.as_str(), "--phase1-cmd") {
            phase1_cmd_str = match v {
                Some(s) => s.clone(),
                None => String::new(),
            };
        } else if str_eq(k.as_str(), "--phase2-cmd") {
            phase2_cmd_str = match v {
                Some(s) => s.clone(),
                None => String::new(),
            };
        }
        proof {
            let acc2 = RawArgs {
                phase1_secs,
                phase2_secs,
                auto_snooze_secs,
                phase1_cmd: phase1_cmd_str@,
                phase2_cmd: phase2_cmd_str@,
            };
            assert(acc2 == apply_pair(acc, ps[idx as int].0, ps[idx as int].1));
        }
        idx = idx + 1;
    }
    if phase1_secs >= phase2_secs {
        return ParseOutcome::Reject;
    }
    let cmd1 = parse_opt_value(phase1_cmd_str.as_str());
    let cmd2 = parse_opt_value(phase2_cmd_str.as_str());
    match Config::new(phase1_secs, phase2_secs, auto_snooze_secs, cmd1, cmd2) {
        Ok(c) => ParseOutcome::Run(c),
        Err(_) => ParseOutcome::Reject,
    }
}

/// The message printed when the configuration is rejected, prefixed with
/// the program's name.
pub fn invalid_config_message(prog: &str) -> (r: String)
    ensures
        r@ == prog@ + ": phase1 must be less than phase2"@,
{
    let mut m = prog.to_owned();
    m.append(": phase1 must be less than phase2");
    m
}

} // verus!
