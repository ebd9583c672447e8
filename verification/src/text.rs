//! Text primitives the importer is built on: splitting a raw data block
//! into whitespace-separated tokens, parsing integer tokens, and small
//! string helpers (prefix tests, searching, reference-mark stripping).

use vstd::prelude::*;

verus! {

/// Reports whether two string slices hold the same characters.
pub(crate) fn str_eq(a: &str, b: &str) -> (r: bool)
    ensures
        r == (a@ == b@),
{
    let n = a.unicode_len();
    let m = b.unicode_len();
    if n != m {
        return false;
    }
    let mut i: usize = 0;
    while i < n
        invariant
            i <= n,
            n == a@.len(),
            n == b@.len(),
            forall|k: int| 0 <= k < i ==> a@[k] == b@[k],
        decreases n - i,
    {
        if a.get_char(i) != b.get_char(i) {
            return false;
        }
        i = i + 1;
    }
    proof {
        assert(a@ =~= b@);
    }
    true
}

// ---------------------------------------------------------------------------
// Tokenizing: maximal runs of non-space characters, in order.
// ---------------------------------------------------------------------------

/// The tokens of `s`: the maximal non-empty runs of non-space characters,
/// in the order they occur.
pub open spec fn spec_tokens(s: Seq<char>) -> Seq<Seq<char>>
    decreases s.len(),
{
    if s.len() == 0 {
        Seq::empty()
    } else {
        let rest = spec_tokens(s.drop_last());
        let c = s.last();
        if c == ' ' {
            rest
        } else if s.len() == 1 || s[s.len() - 2] == ' ' {
            rest.push(seq![c])
        } else {
            rest.update(rest.len() - 1, rest.last().push(c))
        }
    }
}

/// The views of a list of owned tokens.
pub open spec fn views_of(ts: Seq<String>) -> Seq<Seq<char>> {
    ts.map_values(|t: String| t@)
}

/// Ending a prefix inside a run of non-spaces appends that run (so far) as
/// one token of the prefix's token list.
proof fn lemma_tokens_run(s: Seq<char>, start: int, i: int)
    requires
        0 <= start < i <= s.len(),
        start == 0 || s[start - 1] == ' ',
        forall|k: int| start <= k < i ==> s[k] != ' ',
    ensures
        spec_tokens(s.take(i)) == spec_tokens(s.take(start)).push(s.subrange(start, i)),
    decreases i - start,
{
    let p = s.take(i);
    assert(p.drop_last() =~= s.take(i - 1));
    if i == start + 1 {
        assert(spec_tokens(p) == spec_tokens(s.take(start)).push(seq![s[start]]));
        assert(s.subrange(start, i) =~= seq![s[start]]);
    } else {
        lemma_tokens_run(s, start, i - 1);
        let t = spec_tokens(s.take(i - 1));
        let run = s.subrange(start, i - 1);
        assert(t.last() == run);
        assert(spec_tokens(p) == t.update(t.len() - 1, run.push(s[i - 1])));
        assert(run.push(s[i - 1]) =~= s.subrange(start, i));
        assert(t.update(t.len() - 1, s.subrange(start, i)) =~= spec_tokens(s.take(start)).push(
            s.subrange(start, i),
        ));
    }
}

/// Splits `text` into its whitespace-separated tokens.
pub fn split_tokens(text: &str) -> (tokens: Vec<String>)
    ensures
        views_of(tokens@) == spec_tokens(text@),
{
    let n = text.unicode_len();
    let mut tokens: Vec<String> = Vec::new();
    let mut i: usize = 0;
    proof {
        assert(text@.take(0int) =~= Seq::<char>::empty());
        assert(views_of(tokens@) =~= spec_tokens(text@.take(0int)));
    }
    while i < n
        invariant
            n == text@.len(),
            i <= n,
            views_of(tokens@) == spec_tokens(text@.take(i as int)),
            i == 0 || i == n || text@[i - 1] == ' ' || text@[i as int] == ' ',
        decreases n - i,
    {
        let c = text.get_char(i);
        if c == ' ' {
            proof {
                assert(text@.take(i + 1).drop_last() =~= text@.take(i as int));
            }
            i = i + 1;
        } else {
            let start = i;
            let mut j = i + 1;
            while j < n && text.get_char(j) != ' '
                invariant
                    n == text@.len(),
                    start < j <= n,
                    forall|k: int| start <= k < j ==> text@[k] != ' ',
                decreases n - j,
            {
                j = j + 1;
            }
            let token = text.substring_char(start, j).to_owned();
            proof {
                lemma_tokens_run(text@, start as int, j as int);
                assert(views_of(tokens@.push(token)) =~= views_of(tokens@).push(token@));
            }
            tokens.push(token);
            i = j;
        }
    }
    proof {
        assert(text@.take(n as int) =~= text@);
    }
    tokens
}

// ---------------------------------------------------------------------------
// Integer parsing.
// ---------------------------------------------------------------------------

/// Whether `c` is a decimal digit.
pub open spec fn is_digit(c: char) -> bool {
    48 <= c as u32 <= 57
}

/// The value of a decimal digit.
pub open spec fn digit_val(c: char) -> nat {
    (c as u32 - 48) as nat
}

/// Whether every character of `s` is a decimal digit.
pub open spec fn all_digits(s: Seq<char>) -> bool {
    forall|k: int| 0 <= k < s.len() ==> is_digit(#[trigger] s[k])
}

/// The number the digit string `s` denotes in base ten.
pub open spec fn digits_val(s: Seq<char>) -> nat
    decreases s.len(),
{
    if s.len() == 0 {
        0
    } else {
        digits_val(s.drop_last()) * 10 + digit_val(s.last())
    }
}

/// A longer digit string never denotes a smaller number.
proof fn lemma_digits_val_grows(s: Seq<char>, k: int)
    requires
        0 <= k <= s.len(),
    ensures
        digits_val(s) >= digits_val(s.take(k)),
    decreases s.len() - k,
{
    if k < s.len() {
        lemma_digits_val_grows(s, k + 1);
        assert(s.take(k + 1).drop_last() =~= s.take(k));
        assert(digits_val(s.take(k + 1)) == digits_val(s.take(k)) * 10 + digit_val(s[k]));
    } else {
        assert(s.take(k) =~= s);
    }
}

/// What an unsigned decimal token denotes: an optional leading plus sign,
/// then one or more digits, denoting a value that fits in `usize`.
pub open spec fn spec_parse_usize(s: Seq<char>) -> Option<usize> {
    let body = if s.len() > 0 && s[0] == '+' {
        s.drop_first()
    } else {
        s
    };
    if body.len() > 0 && all_digits(body) && digits_val(body) <= usize::MAX {
        Some(digits_val(body) as usize)
    } else {
        None
    }
}

/// What a signed decimal token denotes: an optional sign, then one or more
/// digits, denoting a value that fits in `i32`.
pub open spec fn spec_parse_i32(s: Seq<char>) -> Option<i32> {
    let negative = s.len() > 0 && s[0] == '-';
    let body = if s.len() > 0 && (s[0] == '+' || s[0] == '-') {
        s.drop_first()
    } else {
        s
    };
    if body.len() > 0 && all_digits(body) {
        if negative && digits_val(body) <= 0x8000_0000 {
            Some((0 - digits_val(body)) as i32)
        } else if !negative && digits_val(body) <= i32::MAX {
            Some(digits_val(body) as i32)
        } else {
            None
        }
    } else {
        None
    }
}

/// Folds the digits of `s` in `start..` into a `usize`, or reports that the
/// digit string is malformed or too large.
fn fold_digits(s: &str, start: usize) -> (r: Option<usize>)
    requires
        start <= s@.len(),
    ensures
        ({
            let body = s@.subrange(start as int, s@.len() as int);
            match r {
                Some(v) => body.len() > 0 && all_digits(body) && v == digits_val(body),
                None => !(body.len() > 0 && all_digits(body) && digits_val(body) <= usize::MAX),
            }
        }),
{
    let ghost body = s@.subrange(start as int, s@.len() as int);
    let n = s.unicode_len();
    if start == n {
        return None;
    }
    let mut val: usize = 0;
    let mut i = start;
    proof {
        assert(body.take(0int) =~= Seq::<char>::empty());
    }
    while i < n
        invariant
            start <= i <= n,
            n == s@.len(),
            body == s@.subrange(start as int, n as int),
            all_digits(body.take(i - start)),
            val == digits_val(body.take(i - start)),
        decreases n - i,
    {
        let c = s.get_char(i);
        let cv = c as u32;
        proof {
            assert(body[i - start] == s@[i as int]);
        }
        if cv < 48 || cv > 57 {
            return None;
        }
        let d = (cv - 48) as usize;
        let next = match val.checked_mul(10) {
            Some(m) => m.checked_add(d),
            None => None,
        };
        proof {
            assert(body.take(i - start + 1).drop_last() =~= body.take(i - start));
            assert(digits_val(body.take(i - start + 1)) == digits_val(body.take(i - start)) * 10
                + digit_val(body[i - start]));
        }
        match next {
            Some(v) => {
                val = v;
            },
            None => {
                proof {
                    lemma_digits_val_grows(body, i - start + 1);
                }
                return None;
            },
        }
        i = i + 1;
    }
    proof {
        assert(body.take(n - start) =~= body);
    }
    Some(val)
}

/// Parses `s` as `str::parse::<usize>` does: an optional leading `+`, then
/// one or more decimal digits whose value fits in `usize`.
pub fn parse_usize(s: &str) -> (r: Option<usize>)
    ensures
        r == spec_parse_usize(s@),
{
    let n = s.unicode_len();
    let start: usize = if n > 0 && s.get_char(0) == '+' {
        1
    } else {
        0
    };
    let ghost body = if s@.len() > 0 && s@[0] == '+' {
        s@.drop_first()
    } else {
        s@
    };
    proof {
        assert(body =~= s@.subrange(start as int, s@.len() as int));
    }
    fold_digits(s, start)
}

/// Parses `s` as `str::parse::<i32>` does: an optional sign, then one or
/// more decimal digits whose value fits in `i32`.
pub fn parse_i32(s: &str) -> (r: Option<i32>)
    ensures
        r == spec_parse_i32(s@),
{
    let n = s.unicode_len();
    let mut negative = false;
    let mut start: usize = 0;
    if n > 0 {
        let c = s.get_char(0);
        if c == '-' {
            negative = true;
            start = 1;
        } else if c == '+' {
            start = 1;
        }
    }
    let ghost body = if s@.len() > 0 && (s@[0] == '+' || s@[0] == '-') {
        s@.drop_first()
    } else {
        s@
    };
    proof {
        assert(body =~= s@.subrange(start as int, s@.len() as int));
    }
    match fold_digits(s, start) {
        Some(v) => {
            if negative {
                if v <= 0x8000_0000usize {
                    Some((0i64 - v as i64) as i32)
                } else {
                    None
                }
            } else {
                if v <= i32::MAX as usize {
                    Some(v as i32)
                } else {
                    None
                }
            }
        },
        None => {
            proof {
                if body.len() > 0 && all_digits(body) {
                    if negative && digits_val(body) <= 0x8000_0000 {
                        assert(false);
                    }
                    if !negative && digits_val(body) <= i32::MAX {
                        assert(false);
                    }
                }
            }
            None
        },
    }
}

// ---------------------------------------------------------------------------
// Small string helpers.
// ---------------------------------------------------------------------------

/// `s` with every leading `#` removed (the reference-mark stripping applied
/// to `url`- and `source`-style attributes).
pub open spec fn spec_strip_hashes(s: Seq<char>) -> Seq<char>
    decreases s.len(),
{
    if s.len() > 0 && s[0] == '#' {
        spec_strip_hashes(s.drop_first())
    } else {
        s
    }
}

proof fn lemma_strip_hashes(s: Seq<char>, i: int)
    requires
        0 <= i <= s.len(),
        forall|k: int| 0 <= k < i ==> s[k] == '#',
        i == s.len() || s[i] != '#',
    ensures
        spec_strip_hashes(s) == s.subrange(i, s.len() as int),
    decreases i,
{
    if i == 0 {
        assert(s.subrange(0, s.len() as int) =~= s);
    } else {
        let d = s.drop_first();
        lemma_strip_hashes(d, i - 1);
        assert(d.subrange(i - 1, d.len() as int) =~= s.subrange(i, s.len() as int));
    }
}

/// Strips every leading `#` from `s`.
pub fn strip_hashes(s: &str) -> (r: String)
    ensures
        r@ == spec_strip_hashes(s@),
{
    let n = s.unicode_len();
    let mut i: usize = 0;
    while i < n && s.get_char(i) == '#'
        invariant
            i <= n,
            n == s@.len(),
            forall|k: int| 0 <= k < i ==> s@[k] == '#',
        decreases n - i,
    {
        i = i + 1;
    }
    proof {
        lemma_strip_hashes(s@, i as int);
    }
    s.substring_char(i, n).to_owned()
}

/// Whether `s` begins with `prefix`.
pub open spec fn spec_starts_with(s: Seq<char>, prefix: Seq<char>) -> bool {
    s.len() >= prefix.len() && s.take(prefix.len() as int) == prefix
}

/// Reports whether `s` begins with `prefix`.
pub fn starts_with(s: &str, prefix: &str) -> (r: bool)
    ensures
        r == spec_starts_with(s@, prefix@),
{
    let n = s.unicode_len();
    let m = prefix.unicode_len();
    if n < m {
        assert(!spec_starts_with(s@, prefix@));
        return false;
    }
    let mut i: usize = 0;
    while i < m
        invariant
            i <= m <= n,
            n == s@.len(),
            m == prefix@.len(),
            forall|k: int| 0 <= k < i ==> s@[k] == prefix@[k],
        decreases m - i,
    {
        if s.get_char(i) != prefix.get_char(i) {
            proof {
                assert(s@.take(m as int)[i as int] != prefix@[i as int]);
            }
            return false;
        }
        i = i + 1;
    }
    proof {
        assert(s@.take(m as int) =~= prefix@);
    }
    true
}

/// Whether `s` ends with `suffix`.
pub open spec fn spec_ends_with(s: Seq<char>, suffix: Seq<char>) -> bool {
    s.len() >= suffix.len() && s.skip(s.len() - suffix.len()) == suffix
}

/// Reports whether `s` ends with `suffix`.
pub fn ends_with(s: &str, suffix: &str) -> (r: bool)
    ensures
        r == spec_ends_with(s@, suffix@),
{
    let n = s.unicode_len();
    let m = suffix.unicode_len();
    if n < m {
        assert(!spec_ends_with(s@, suffix@));
        return false;
    }
    let mut i: usize = 0;
    while i < m
        invariant
            i <= m <= n,
            n == s@.len(),
            m == suffix@.len(),
            forall|k: int| 0 <= k < i ==> s@[n - m + k] == suffix@[k],
        decreases m - i,
    {
        if s.get_char(n - m + i) != suffix.get_char(i) {
            proof {
                assert(s@.skip(n - m)[i as int] != suffix@[i as int]);
            }
            return false;
        }
        i = i + 1;
    }
    proof {
        assert(s@.skip(n - m) =~= suffix@);
    }
    true
}

/// The first position of `c` in `s`, if any.
pub open spec fn spec_find_char(s: Seq<char>, c: char) -> Option<int>
    decreases s.len(),
{
    if s.len() == 0 {
        None
    } else if s[0] == c {
        Some(0int)
    } else {
        match spec_find_char(s.drop_first(), c) {
            Some(j) => Some(j + 1),
            None => None,
        }
    }
}

proof fn lemma_find_char(s: Seq<char>, c: char, i: int)
    requires
        0 <= i <= s.len(),
        forall|k: int| 0 <= k < i ==> s[k] != c,
        i == s.len() || s[i] == c,
    ensures
        i < s.len() ==> spec_find_char(s, c) == Some(i),
        i == s.len() ==> spec_find_char(s, c) is None,
    decreases i,
{
    if s.len() > 0 && i > 0 {
        lemma_find_char(s.drop_first(), c, i - 1);
    }
}

/// Finds the first position of `c` in `s`.
pub fn find_char(s: &str, c: char) -> (r: Option<usize>)
    ensures
        match r {
            Some(i) => spec_find_char(s@, c) == Some(i as int) && i < s@.len(),
            None => spec_find_char(s@, c) is None,
        },
{
    let n = s.unicode_len();
    let mut i: usize = 0;
    while i < n
        invariant
            i <= n,
            n == s@.len(),
            forall|k: int| 0 <= k < i ==> s@[k] != c,
        decreases n - i,
    {
        if s.get_char(i) == c {
            proof {
                lemma_find_char(s@, c, i as int);
            }
            return Some(i);
        }
        i = i + 1;
    }
    proof {
        lemma_find_char(s@, c, n as int);
    }
    None
}

/// Whether `pat` occurs in `s` at position `k`.
pub open spec fn pat_at(s: Seq<char>, pat: Seq<char>, k: int) -> bool {
    0 <= k && k + pat.len() <= s.len() && s.subrange(k, k + pat.len()) == pat
}

/// The first position where `pat` occurs as a substring of `s`, if any.
pub open spec fn spec_find_sub(s: Seq<char>, pat: Seq<char>) -> Option<int>
    decreases s.len(),
{
    if pat.len() == 0 {
        Some(0int)
    } else if s.len() < pat.len() {
        None
    } else if s.take(pat.len() as int) == pat {
        Some(0int)
    } else {
        match spec_find_sub(s.drop_first(), pat) {
            Some(j) => Some(j + 1),
            None => None,
        }
    }
}

proof fn lemma_find_sub(s: Seq<char>, pat: Seq<char>, i: int)
    requires
        pat.len() > 0,
        0 <= i,
        i + pat.len() <= s.len() + 1,
        forall|k: int| 0 <= k < i ==> !#[trigger] pat_at(s, pat, k),
        i + pat.len() <= s.len() ==> pat_at(s, pat, i),
    ensures
        i + pat.len() <= s.len() ==> spec_find_sub(s, pat) == Some(i),
        i + pat.len() > s.len() ==> spec_find_sub(s, pat) is None,
    decreases i,
{
    if i == 0 {
        if pat.len() <= s.len() {
            assert(s.take(pat.len() as int) =~= s.subrange(0, pat.len() as int));
            assert(s.subrange(0, pat.len() as int) =~= s.subrange(0, 0 + pat.len() as int));
        }
    } else {
        assert(!pat_at(s, pat, 0));
        assert(s.take(pat.len() as int) =~= s.subrange(0, 0 + pat.len() as int));
        assert(s.take(pat.len() as int) != pat);
        let d = s.drop_first();
        assert forall|k: int| 0 <= k < i - 1 implies !#[trigger] pat_at(d, pat, k) by {
            if pat_at(d, pat, k) {
                assert(d.subrange(k, k + pat.len()) =~= s.subrange(k + 1, k + 1 + pat.len()));
                assert(pat_at(s, pat, k + 1));
            }
        }
        if i + pat.len() <= s.len() {
            assert(d.subrange(i - 1, i - 1 + pat.len()) =~= s.subrange(i, i + pat.len()));
            assert(pat_at(d, pat, i - 1));
        }
        lemma_find_sub(d, pat, i - 1);
    }
}

/// Finds the first position where `pat` occurs as a substring of `s`.
pub fn find_sub(s: &str, pat: &str) -> (r: Option<usize>)
    ensures
        match r {
            Some(i) => spec_find_sub(s@, pat@) == Some(i as int) && i + pat@.len() <= s@.len(),
            None => spec_find_sub(s@, pat@) is None,
        },
{
    let n = s.unicode_len();
    let m = pat.unicode_len();
    if m > n {
        assert(spec_find_sub(s@, pat@) is None);
        return None;
    }
    if m == 0 {
        proof {
            assert(s@.take(0int) =~= pat@);
        }
        return Some(0);
    }
    let mut i: usize = 0;
    while i <= n - m
        invariant
            0 < m <= n,
            n == s@.len(),
            m == pat@.len(),
            i <= n - m + 1,
            forall|k: int| 0 <= k < i ==> !#[trigger] pat_at(s@, pat@, k),
        decreases n - m + 1 - i,
    {
        let window = s.substring_char(i, i + m);
        if str_eq(window, pat) {
            proof {
                assert(s@.subrange(i as int, i + pat@.len()) == pat@);
                assert(pat_at(s@, pat@, i as int));
                lemma_find_sub(s@, pat@, i as int);
            }
            return Some(i);
        }
        proof {
            assert(s@.subrange(i as int, i + pat@.len()) != pat@);
            assert(!pat_at(s@, pat@, i as int));
        }
        i = i + 1;
    }
    proof {
        lemma_find_sub(s@, pat@, i as int);
    }
    None
}

/// The prefix of `s` before position `i`.
pub fn prefix_of(s: &str, i: usize) -> (r: String)
    requires
        i <= s@.len(),
    ensures
        r@ == s@.take(i as int),
{
    let r = s.substring_char(0, i).to_owned();
    proof {
        assert(s@.subrange(0, i as int) =~= s@.take(i as int));
    }
    r
}


/// The decimal digit string of `d` (one digit).
pub open spec fn spec_digit_str(d: int) -> Seq<char> {
    if d == 0 {
        "0"@
    } else if d == 1 {
        "1"@
    } else if d == 2 {
        "2"@
    } else if d == 3 {
        "3"@
    } else if d == 4 {
        "4"@
    } else if d == 5 {
        "5"@
    } else if d == 6 {
        "6"@
    } else if d == 7 {
        "7"@
    } else if d == 8 {
        "8"@
    } else {
        "9"@
    }
}

/// The decimal rendering of `n`.
pub open spec fn spec_decimal(n: int) -> Seq<char>
    decreases n,
{
    if n < 10 {
        spec_digit_str(n)
    } else {
        spec_decimal(n / 10) + spec_digit_str(n % 10)
    }
}

/// Renders `n` in decimal.
pub fn decimal_string(n: usize) -> (r: String)
    ensures
        r@ == spec_decimal(n as int),
    decreases n,
{
    let d = n % 10;
    let digit: &str = if d == 0 {
        "0"
    } else if d == 1 {
        "1"
    } else if d == 2 {
        "2"
    } else if d == 3 {
        "3"
    } else if d == 4 {
        "4"
    } else if d == 5 {
        "5"
    } else if d == 6 {
        "6"
    } else if d == 7 {
        "7"
    } else if d == 8 {
        "8"
    } else {
        "9"
    };
    if n < 10 {
        digit.to_owned()
    } else {
        let mut s = decimal_string(n / 10);
        s.append(digit);
        s
    }
}

} // verus!
