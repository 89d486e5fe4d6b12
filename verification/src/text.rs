//! Character-level helpers shared by the parsers: white space, tokens, lines,
//! trailing colons, decimal numbers, and building strings.

use vstd::prelude::*;
use vstd::string::StringExecFns;

verus! {

// ---------------------------------------------------------------------------
// Characters and strings
// ---------------------------------------------------------------------------

/// Converts a string slice into the vector of its characters.
pub fn chars_of(s: &str) -> (r: Vec<char>)
    ensures
        r@ == s@,
{
    broadcast use vstd::string::group_string_axioms;

    let mut r: Vec<char> = Vec::new();
    for c in it: s.chars()
        invariant
            it.seq() == s@,
            r@ == s@.take(it.index() as int),
    {
        r.push(c);
    }
    r
}

/// `String::push`: appends one character at the end of the string.
#[verifier::external_body]
fn push_char(s: &mut String, c: char)
    ensures
        final(s)@ == old(s)@.push(c),
{
    s.push(c);
}

/// Appends every character of `cs`, in order, to `out`.
pub fn push_chars(out: &mut String, cs: &Vec<char>)
    ensures
        final(out)@ == old(out)@ + cs@,
{
    let n = cs.len();
    let mut i: usize = 0;
    while i < n
        invariant
            n == cs@.len(),
            0 <= i <= n,
            out@ == old(out)@ + cs@.take(i as int),
        decreases n - i,
    {
        push_char(out, cs[i]);
        i = i + 1;
        proof {
            assert(cs@.take(i as int) == cs@.take(i - 1).push(cs@[i - 1]));
        }
    }
    proof {
        assert(cs@.take(n as int) == cs@);
    }
}

/// Builds a `String` that holds the characters of `cs`.
pub fn string_of(cs: &Vec<char>) -> (r: String)
    ensures
        r@ == cs@,
{
    let mut r = String::new();
    push_chars(&mut r, cs);
    proof {
        assert(Seq::<char>::empty() + cs@ == cs@);
    }
    r
}

/// Builds a `String` from a string slice.
pub fn string_from(s: &str) -> (r: String)
    ensures
        r@ == s@,
{
    String::from_str(s)
}

/// Appends a string slice at the end of `out`.
pub fn push_str(out: &mut String, s: &str)
    ensures
        final(out)@ == old(out)@ + s@,
{
    out.append(s);
}

/// Character-by-character equality of a character vector and a string slice.
pub fn chars_eq_str(a: &Vec<char>, s: &str) -> (r: bool)
    ensures
        r == (a@ == s@),
{
    let b = chars_of(s);
    if a.len() != b.len() {
        return false;
    }
    let n = a.len();
    let mut i: usize = 0;
    while i < n
        invariant
            n == a@.len(),
            n == b@.len(),
            b@ == s@,
            0 <= i <= n,
            forall|j: int| 0 <= j < i ==> a@[j] == b@[j],
        decreases n - i,
    {
        if a[i] != b[i] {
            proof {
                assert(a@[i as int] != b@[i as int]);
            }
            return false;
        }
        i = i + 1;
    }
    proof {
        assert(a@ =~= b@);
    }
    true
}

// ---------------------------------------------------------------------------
// Case mapping (Unicode tables, called from std)
// ---------------------------------------------------------------------------

/// What `str::to_uppercase` returns for a string of these characters: the
/// concatenation of the full Unicode uppercase mappings of its characters.
pub uninterp spec fn unicode_uppercase(s: Seq<char>) -> Seq<char>;

/// What `str::to_lowercase` returns for a string of these characters: the
/// Unicode lowercase mapping of the string (final sigma included).
pub uninterp spec fn unicode_lowercase(s: Seq<char>) -> Seq<char>;

/// `str::to_uppercase`. Its result is named, not stated: it is fixed by the
/// characters of `s` through the Unicode case tables that std carries.
#[verifier::external_body]
pub(crate) fn to_uppercase(s: &str) -> (r: String)
    ensures
        r@ == unicode_uppercase(s@),
{
    s.to_uppercase()
}

/// `str::to_lowercase`. Its result is named, not stated: it is fixed by the
/// characters of `s` through the Unicode case tables that std carries.
#[verifier::external_body]
pub(crate) fn to_lowercase(s: &str) -> (r: String)
    ensures
        r@ == unicode_lowercase(s@),
{
    s.to_lowercase()
}

// ---------------------------------------------------------------------------
// White space and tokens
// ---------------------------------------------------------------------------

/// The Unicode `White_Space` property, which `char::is_whitespace` tests and
/// by which `str::split_whitespace` splits.
pub open spec fn is_white_space(c: char) -> bool {
    let n = c as u32;
    ||| 0x09 <= n <= 0x0D
    ||| n == 0x20
    ||| n == 0x85
    ||| n == 0xA0
    ||| n == 0x1680
    ||| 0x2000 <= n <= 0x200A
    ||| n == 0x2028
    ||| n == 0x2029
    ||| n == 0x202F
    ||| n == 0x205F
    ||| n == 0x3000
}

/// Tests the Unicode `White_Space` property.
pub fn white_space(c: char) -> (r: bool)
    ensures
        r == is_white_space(c),
{
    let n = c as u32;
    (0x09 <= n && n <= 0x0D) || n == 0x20 || n == 0x85 || n == 0xA0 || n == 0x1680 || (0x2000
        <= n && n <= 0x200A) || n == 0x2028 || n == 0x2029 || n == 0x202F || n == 0x205F || n
        == 0x3000
}

/// Scans `s` from left to right: the tokens closed so far, and the token
/// still open at the end.
pub open spec fn scan_tokens(s: Seq<char>) -> (Seq<Seq<char>>, Seq<char>)
    decreases s.len(),
{
    if s.len() == 0 {
        (Seq::empty(), Seq::empty())
    } else {
        let (toks, cur) = scan_tokens(s.drop_last());
        let c = s.last();
        if is_white_space(c) {
            if cur.len() > 0 {
                (toks.push(cur), Seq::empty())
            } else {
                (toks, cur)
            }
        } else {
            (toks, cur.push(c))
        }
    }
}

/// The maximal runs of non-white-space characters of `s`, in order: what
/// `str::split_whitespace` yields.
pub open spec fn tokens(s: Seq<char>) -> Seq<Seq<char>> {
    let (toks, cur) = scan_tokens(s);
    if cur.len() > 0 {
        toks.push(cur)
    } else {
        toks
    }
}

/// Splits `s` at white space, dropping empty pieces.
pub fn split_whitespace(s: &Vec<char>) -> (r: Vec<Vec<char>>)
    ensures
        r.deep_view() == tokens(s@),
{
    let mut toks: Vec<Vec<char>> = Vec::new();
    let mut cur: Vec<char> = Vec::new();
    let n = s.len();
    let mut i: usize = 0;
    while i < n
        invariant
            n == s@.len(),
            0 <= i <= n,
            (toks.deep_view(), cur@) == scan_tokens(s@.take(i as int)),
        decreases n - i,
    {
        proof {
            assert(s@.take(i + 1).drop_last() == s@.take(i as int));
        }
        let c = s[i];
        if white_space(c) {
            if cur.len() > 0 {
                let done = cur;
                cur = Vec::new();
                let ghost before = toks.deep_view();
                toks.push(done);
                proof {
                    assert(toks.deep_view() =~~= before.push(done@));
                }
            }
        } else {
            cur.push(c);
        }
        i = i + 1;
    }
    proof {
        assert(s@.take(n as int) == s@);
    }
    if cur.len() > 0 {
        let ghost before = toks.deep_view();
        let ghost last = cur@;
        toks.push(cur);
        proof {
            assert(toks.deep_view() =~~= before.push(last));
        }
    }
    toks
}

/// Every token is nonempty and holds no white space.
pub proof fn law_tokens_are_words(s: Seq<char>)
    ensures
        forall|k: int| 0 <= k < tokens(s).len() ==> #[trigger] tokens(s)[k].len() > 0,
        forall|k: int, j: int|
            0 <= k < tokens(s).len() && 0 <= j < tokens(s)[k].len() ==> !is_white_space(
                #[trigger] tokens(s)[k][j],
            ),
{
    lemma_scan_tokens_are_words(s);
}

proof fn lemma_scan_tokens_are_words(s: Seq<char>)
    ensures
        forall|k: int|
            0 <= k < scan_tokens(s).0.len() ==> #[trigger] scan_tokens(s).0[k].len() > 0,
        forall|k: int, j: int|
            0 <= k < scan_tokens(s).0.len() && 0 <= j < scan_tokens(s).0[k].len()
                ==> !is_white_space(#[trigger] scan_tokens(s).0[k][j]),
        forall|j: int|
            0 <= j < scan_tokens(s).1.len() ==> !is_white_space(#[trigger] scan_tokens(s).1[j]),
    decreases s.len(),
{
    if s.len() > 0 {
        lemma_scan_tokens_are_words(s.drop_last());
        let (toks, cur) = scan_tokens(s.drop_last());
        let c = s.last();
        assert forall|j: int| 0 <= j < cur.len() implies !is_white_space(#[trigger] cur[j]) by {
            assert(cur[j] == scan_tokens(s.drop_last()).1[j]);
        }
        if is_white_space(c) {
            if cur.len() > 0 {
                assert(scan_tokens(s).0 == toks.push(cur));
                assert forall|k: int, j: int|
                    0 <= k < scan_tokens(s).0.len() && 0 <= j < scan_tokens(s).0[k].len()
                        implies !is_white_space(#[trigger] scan_tokens(s).0[k][j]) by {
                    if k < toks.len() {
                        assert(scan_tokens(s).0[k] == scan_tokens(s.drop_last()).0[k]);
                    }
                }
            }
        } else {
            assert(scan_tokens(s).1 == cur.push(c));
            assert forall|j: int| 0 <= j < scan_tokens(s).1.len() implies !is_white_space(
                #[trigger] scan_tokens(s).1[j],
            ) by {
                if j < cur.len() {
                    assert(scan_tokens(s).1[j] == cur[j]);
                }
            }
        }
    }
}

// ---------------------------------------------------------------------------
// Lines
// ---------------------------------------------------------------------------

/// Drops one `'\r'` from the end of `line`, if it ends with one.
pub open spec fn strip_carriage_return(line: Seq<char>) -> Seq<char> {
    if line.len() > 0 && line.last() == '\r' {
        line.drop_last()
    } else {
        line
    }
}

/// Scans `s` from left to right: the lines closed by a `'\n'` so far, and
/// the text after the last `'\n'`.
pub open spec fn scan_lines(s: Seq<char>) -> (Seq<Seq<char>>, Seq<char>)
    decreases s.len(),
{
    if s.len() == 0 {
        (Seq::empty(), Seq::empty())
    } else {
        let (ls, cur) = scan_lines(s.drop_last());
        let c = s.last();
        if c == '\n' {
            (ls.push(strip_carriage_return(cur)), Seq::empty())
        } else {
            (ls, cur.push(c))
        }
    }
}

/// The lines of `s`, as `str::lines` yields them: each `'\n'` (or `"\r\n"`)
/// ends a line and is not part of it, and the last line needs no ending.
pub open spec fn lines(s: Seq<char>) -> Seq<Seq<char>> {
    let (ls, cur) = scan_lines(s);
    if cur.len() > 0 {
        ls.push(cur)
    } else {
        ls
    }
}

/// Splits `s` into its lines.
pub fn split_lines(s: &Vec<char>) -> (r: Vec<Vec<char>>)
    ensures
        r.deep_view() == lines(s@),
{
    let mut ls: Vec<Vec<char>> = Vec::new();
    let mut cur: Vec<char> = Vec::new();
    let n = s.len();
    let mut i: usize = 0;
    while i < n
        invariant
            n == s@.len(),
            0 <= i <= n,
            (ls.deep_view(), cur@) == scan_lines(s@.take(i as int)),
        decreases n - i,
    {
        proof {
            assert(s@.take(i + 1).drop_last() == s@.take(i as int));
        }
        let c = s[i];
        if c == '\n' {
            let mut done = cur;
            cur = Vec::new();
            if done.len() > 0 && done[done.len() - 1] == '\r' {
                done.pop();
            }
            let ghost before = ls.deep_view();
            let ghost line = done@;
            ls.push(done);
            proof {
                assert(ls.deep_view() =~~= before.push(line));
            }
        } else {
            cur.push(c);
        }
        i = i + 1;
    }
    proof {
        assert(s@.take(n as int) == s@);
    }
    if cur.len() > 0 {
        let ghost before = ls.deep_view();
        let ghost last = cur@;
        ls.push(cur);
        proof {
            assert(ls.deep_view() =~~= before.push(last));
        }
    }
    ls
}

// ---------------------------------------------------------------------------
// Trailing colons
// ---------------------------------------------------------------------------

/// `s` without the run of `':'` at its end (`str::trim_end_matches(':')`).
pub open spec fn trim_end_colons(s: Seq<char>) -> Seq<char>
    decreases s.len(),
{
    if s.len() > 0 && s.last() == ':' {
        trim_end_colons(s.drop_last())
    } else {
        s
    }
}

/// Removes every `':'` at the end of `s`.
pub fn trim_end_colons_of(s: &Vec<char>) -> (r: Vec<char>)
    ensures
        r@ == trim_end_colons(s@),
{
    let mut r = s.clone();
    while r.len() > 0 && r[r.len() - 1] == ':'
        invariant
            trim_end_colons(r@) == trim_end_colons(s@),
        decreases r.len(),
    {
        let ghost before = r@;
        r.pop();
        proof {
            assert(r@ == before.drop_last());
        }
    }
    r
}

// ---------------------------------------------------------------------------
// Decimal numbers
// ---------------------------------------------------------------------------

pub open spec fn is_ascii_digit(c: char) -> bool {
    '0' <= c <= '9'
}

pub open spec fn all_ascii_digits(s: Seq<char>) -> bool {
    forall|i: int| 0 <= i < s.len() ==> is_ascii_digit(#[trigger] s[i])
}

/// The value of a string of decimal digits, most significant first.
pub open spec fn digits_value(s: Seq<char>) -> nat
    decreases s.len(),
{
    if s.len() == 0 {
        0
    } else {
        digits_value(s.drop_last()) * 10 + ((s.last() as u32) - ('0' as u32)) as nat
    }
}

/// What `str::parse::<usize>` accepts and returns: an optional `'+'`, then
/// one or more ASCII digits whose value fits in a `usize`.
pub open spec fn parse_usize(s: Seq<char>) -> Option<usize> {
    let d = if s.len() > 0 && s[0] == '+' {
        s.drop_first()
    } else {
        s
    };
    if d.len() > 0 && all_ascii_digits(d) && digits_value(d) <= usize::MAX {
        Some(digits_value(d) as usize)
    } else {
        None
    }
}

proof fn lemma_digits_value_grows(s: Seq<char>, i: int)
    requires
        0 <= i <= s.len(),
        all_ascii_digits(s),
    ensures
        digits_value(s.take(i)) <= digits_value(s),
    decreases s.len() - i,
{
    if i < s.len() {
        lemma_digits_value_grows(s, i + 1);
        assert(s.take(i + 1).drop_last() == s.take(i));
        assert(is_ascii_digit(s[i]));
    } else {
        assert(s.take(i) == s);
    }
}

/// Parses an unsigned decimal number the way `str::parse::<usize>` does.
pub fn parse_decimal_usize(s: &Vec<char>) -> (r: Option<usize>)
    ensures
        r == parse_usize(s@),
{
    let n = s.len();
    let start: usize = if n > 0 && s[0] == '+' {
        1
    } else {
        0
    };
    let ghost d = if s@.len() > 0 && s@[0] == '+' {
        s@.drop_first()
    } else {
        s@
    };
    proof {
        assert(d == s@.subrange(start as int, n as int));
    }
    if start == n {
        return None;
    }
    let mut v: usize = 0;
    let mut i: usize = start;
    while i < n
        invariant
            n == s@.len(),
            start <= i <= n,
            start < n,
            d == s@.subrange(start as int, n as int),
            d == (if s@.len() > 0 && s@[0] == '+' {
                s@.drop_first()
            } else {
                s@
            }),
            all_ascii_digits(d.take(i - start)),
            v == digits_value(d.take(i - start)),
        decreases n - i,
    {
        let c = s[i];
        proof {
            assert(d.take(i - start + 1).drop_last() == d.take(i - start));
            assert(d[i - start] == c);
        }
        if !('0' <= c && c <= '9') {
            proof {
                assert(!is_ascii_digit(d[i - start]));
            }
            return None;
        }
        let digit = (c as u32 - '0' as u32) as usize;
        if v > (usize::MAX - digit) / 10 {
            proof {
                assert(digits_value(d.take(i - start + 1)) > usize::MAX);
                assert forall|k: int| 0 <= k < i - start + 1 implies is_ascii_digit(
                    #[trigger] d.take(i - start + 1)[k],
                ) by {
                    if k < i - start {
                        assert(d.take(i - start + 1)[k] == d.take(i - start)[k]);
                    }
                }
                if all_ascii_digits(d) {
                    lemma_digits_value_grows(d, i - start + 1);
                }
            }
            return None;
        }
        v = v * 10 + digit;
        i = i + 1;
        proof {
            assert forall|k: int| 0 <= k < i - start implies is_ascii_digit(
                #[trigger] d.take(i - start)[k],
            ) by {
                if k < i - start - 1 {
                    assert(d.take(i - start)[k] == d.take(i - start - 1)[k]);
                }
            }
        }
    }
    proof {
        assert(d.take(n - start) == d);
    }
    Some(v)
}

/// The digit character of `d < 10`.
pub open spec fn digit_char(d: nat) -> char {
    (d + 48) as char
}

/// The decimal spelling of `n`, without leading zeros (`"0"` for zero): what
/// `to_string` gives for an unsigned integer.
pub open spec fn decimal(n: nat) -> Seq<char>
    decreases n,
{
    if n < 10 {
        seq![digit_char(n)]
    } else {
        decimal(n / 10).push(digit_char(n % 10))
    }
}

proof fn lemma_decimal_digits(n: nat)
    ensures
        all_ascii_digits(decimal(n)),
        digits_value(decimal(n)) == n,
        decimal(n).len() > 0,
        decimal(n)[0] != '+',
    decreases n,
{
    if n >= 10 {
        lemma_decimal_digits(n / 10);
        let d = decimal(n);
        assert(d.drop_last() == decimal(n / 10));
        assert forall|i: int| 0 <= i < d.len() implies is_ascii_digit(#[trigger] d[i]) by {
            if i < d.len() - 1 {
                assert(d[i] == decimal(n / 10)[i]);
            }
        }
        assert(d[0] == decimal(n / 10)[0]);
        assert(d.last() == digit_char(n % 10));
        assert((d.last() as u32) == n % 10 + 48);
        assert(digits_value(d) == digits_value(decimal(n / 10)) * 10 + n % 10);
    } else {
        let d = decimal(n);
        assert(d.drop_last() =~= Seq::<char>::empty());
        assert((d.last() as u32) == n + 48);
        assert(digits_value(d) == digits_value(d.drop_last()) * 10 + n);
    }
}

/// Reading back the decimal spelling of a number gives the number.
pub proof fn law_decimal_round_trip(n: usize)
    ensures
        parse_usize(decimal(n as nat)) == Some(n),
{
    lemma_decimal_digits(n as nat);
}

fn digit_to_char(d: u64) -> (c: char)
    requires
        d < 10,
    ensures
        c == digit_char(d as nat),
{
    match d {
        0 => '0',
        1 => '1',
        2 => '2',
        3 => '3',
        4 => '4',
        5 => '5',
        6 => '6',
        7 => '7',
        8 => '8',
        _ => '9',
    }
}

/// Appends the decimal spelling of `n` to `out`.
pub fn push_decimal(out: &mut String, n: u64)
    ensures
        final(out)@ == old(out)@ + decimal(n as nat),
    decreases n,
{
    if n < 10 {
        push_char(out, digit_to_char(n));
        proof {
            assert(old(out)@.push(digit_char(n as nat)) =~= old(out)@ + decimal(n as nat));
        }
    } else {
        push_decimal(out, n / 10);
        push_char(out, digit_to_char(n % 10));
        proof {
            assert(decimal(n as nat) == decimal((n / 10) as nat).push(digit_char((n % 10) as nat)));
            assert(old(out)@ + decimal((n / 10) as nat) + seq![digit_char((n % 10) as nat)]
                =~= old(out)@ + decimal(n as nat));
        }
    }
}

/// The decimal spelling of `n` as a `String`.
pub fn decimal_string(n: u64) -> (r: String)
    ensures
        r@ == decimal(n as nat),
{
    let mut r = String::new();
    push_decimal(&mut r, n);
    proof {
        assert(Seq::<char>::empty() + decimal(n as nat) == decimal(n as nat));
    }
    r
}

} // verus!
