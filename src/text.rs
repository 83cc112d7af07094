//! Character-level helpers: splitting argument text and reading literals.

use vstd::prelude::*;

verus! {

/// Relies on `String::push`: appends one character.
#[verifier::external_body]
pub(crate) fn push_char(s: &mut String, c: char)
    ensures
        final(s)@ == old(s)@.push(c),
{
    s.push(c)
}

/// The characters of `s`, in order.
pub fn chars_of(s: &str) -> (r: Vec<char>)
    ensures
        r@ == s@,
{
    let mut out: Vec<char> = Vec::new();
    for c in it: s.chars()
        invariant
            out@ == it.seq().take(it.index() as int),
            it.seq() == s@,
    {
        out.push(c);
    }
    out
}

/// A string holding `cs[lo..hi]`.
pub fn string_of(cs: &Vec<char>, lo: usize, hi: usize) -> (r: String)
    requires
        lo <= hi <= cs@.len(),
    ensures
        r@ == cs@.subrange(lo as int, hi as int),
{
    let mut out = String::new();
    let mut i: usize = lo;
    while i < hi
        invariant
            lo <= i <= hi <= cs@.len(),
            out@ == cs@.subrange(lo as int, i as int),
        decreases hi - i,
    {
        push_char(&mut out, cs[i]);
        assert(cs@.subrange(lo as int, i + 1) =~= cs@.subrange(lo as int, i as int).push(cs@[i as int]));
        i = i + 1;
    }
    out
}

pub open spec fn is_space(c: char) -> bool {
    c == ' ' || c == '\t' || c == '\n' || c == '\r'
}

/// Tokens completed within the first `n` characters of `s`, and the token still open.
pub open spec fn scan_tokens(s: Seq<char>, n: int) -> (Seq<Seq<char>>, Seq<char>)
    decreases n,
{
    if n <= 0 {
        (Seq::empty(), Seq::empty())
    } else {
        let (done, open) = scan_tokens(s, n - 1);
        if is_space(s[n - 1]) {
            if open.len() > 0 {
                (done.push(open), Seq::empty())
            } else {
                (done, open)
            }
        } else {
            (done, open.push(s[n - 1]))
        }
    }
}

/// The maximal runs of non-space characters of `s`, in order.
pub open spec fn split_tokens(s: Seq<char>) -> Seq<Seq<char>> {
    let (done, open) = scan_tokens(s, s.len() as int);
    if open.len() > 0 {
        done.push(open)
    } else {
        done
    }
}

pub open spec fn views_of(v: Seq<String>) -> Seq<Seq<char>> {
    v.map_values(|s: String| s@)
}

/// Splits argument text into space-separated tokens.
pub fn split_arguments(text: &str) -> (r: Vec<String>)
    ensures
        views_of(r@) == split_tokens(text@),
{
    let cs = chars_of(text);
    let mut out: Vec<String> = Vec::new();
    let mut start: usize = 0;
    let mut i: usize = 0;
    while i < cs.len()
        invariant
            cs@ == text@,
            start <= i <= cs@.len(),
            views_of(out@) == scan_tokens(cs@, i as int).0,
            cs@.subrange(start as int, i as int) == scan_tokens(cs@, i as int).1,
        decreases cs@.len() - i,
    {
        let c = cs[i];
        if is_space_exec(c) {
            if start < i {
                let tok = string_of(&cs, start, i);
                out.push(tok);
                assert(views_of(out@) =~= scan_tokens(cs@, i as int).0.push(tok@));
            }
            start = i + 1;
            assert(cs@.subrange(start as int, i + 1) =~= Seq::<char>::empty());
        } else {
            assert(cs@.subrange(start as int, i + 1) =~= cs@.subrange(start as int, i as int).push(c));
        }
        i = i + 1;
    }
    if start < i {
        let tok = string_of(&cs, start, i);
        out.push(tok);
        assert(views_of(out@) =~= scan_tokens(cs@, i as int).0.push(tok@));
    }
    out
}

/// The tokens of a message that starts with `prefix`, read after it; `None` if it does not.
pub fn prefix_tokens(prefix: &str, content: &str) -> (r: Option<Vec<String>>)
    ensures
        match r {
            Some(v) => content@.len() >= prefix@.len() && content@.take(prefix@.len() as int)
                == prefix@ && views_of(v@) == split_tokens(content@.skip(prefix@.len() as int)),
            None => !(content@.len() >= prefix@.len() && content@.take(prefix@.len() as int)
                == prefix@),
        },
{
    let p = chars_of(prefix);
    let cs = chars_of(content);
    if cs.len() < p.len() {
        return None;
    }
    let mut i: usize = 0;
    while i < p.len()
        invariant
            p@ == prefix@,
            cs@ == content@,
            p@.len() <= cs@.len(),
            0 <= i <= p@.len(),
            forall|j: int| 0 <= j < i ==> cs@[j] == p@[j],
        decreases p@.len() - i,
    {
        if cs[i] != p[i] {
            assert(cs@.take(p@.len() as int)[i as int] != p@[i as int]);
            return None;
        }
        i = i + 1;
    }
    assert(cs@.take(p@.len() as int) =~= p@);
    let rest = string_of(&cs, p.len(), cs.len());
    assert(rest@ =~= content@.skip(prefix@.len() as int));
    Some(split_arguments(rest.as_str()))
}

fn is_space_exec(c: char) -> (r: bool)
    ensures
        r == is_space(c),
{
    c == ' ' || c == '\t' || c == '\n' || c == '\r'
}

pub open spec fn is_digit(c: char) -> bool {
    '0' <= c <= '9'
}

pub open spec fn digit_value(c: char) -> int {
    c as int - '0' as int
}

pub open spec fn all_digits(s: Seq<char>) -> bool {
    forall|i: int| 0 <= i < s.len() ==> is_digit(#[trigger] s[i])
}

/// The number that the decimal digits `s` denote.
pub open spec fn digits_value(s: Seq<char>) -> int
    decreases s.len(),
{
    if s.len() == 0 {
        0
    } else {
        10 * digits_value(s.drop_last()) + digit_value(s.last())
    }
}

/// An optional sign followed by at least one decimal digit.
pub open spec fn is_integer_literal(s: Seq<char>) -> bool {
    let body = if s.len() > 0 && (s[0] == '-' || s[0] == '+') {
        s.drop_first()
    } else {
        s
    };
    body.len() > 0 && all_digits(body)
}

/// The value of an integer literal.
pub open spec fn integer_value(s: Seq<char>) -> int {
    if s.len() > 0 && s[0] == '-' {
        -digits_value(s.drop_first())
    } else if s.len() > 0 && s[0] == '+' {
        digits_value(s.drop_first())
    } else {
        digits_value(s)
    }
}

/// Why text is not a usable integer.
#[derive(Clone, Copy, Debug, PartialEq, Eq, Structural)]
pub enum IntegerError {
    /// Not an integer literal.
    Invalid,
    /// An integer literal outside `[min, max]`.
    OutOfBounds,
}

pub proof fn lemma_digits_value_nonneg(s: Seq<char>)
    requires
        all_digits(s),
    ensures
        digits_value(s) >= 0,
    decreases s.len(),
{
    if s.len() > 0 {
        assert(all_digits(s.drop_last())) by {
            assert forall|i: int| 0 <= i < s.drop_last().len() implies is_digit(
                #[trigger] s.drop_last()[i],
            ) by {
                assert(s.drop_last()[i] == s[i]);
            }
        }
        lemma_digits_value_nonneg(s.drop_last());
        assert(is_digit(s[s.len() - 1]));
    }
}

/// The value of the integer literal `cs`, if it lies within `[min, max]`.
pub fn parse_integer(cs: &Vec<char>, min: i128, max: i128) -> (r: Result<i128, IntegerError>)
    requires
        min <= 0 <= max,
    ensures
        !is_integer_literal(cs@) ==> r == Err::<i128, IntegerError>(IntegerError::Invalid),
        is_integer_literal(cs@) && min <= integer_value(cs@) <= max ==> r == Ok::<i128, IntegerError>(
            integer_value(cs@) as i128,
        ),
        is_integer_literal(cs@) && !(min <= integer_value(cs@) <= max) ==> r == Err::<
            i128,
            IntegerError,
        >(IntegerError::OutOfBounds),
{
    let n = cs.len();
    let mut i: usize = 0;
    let mut negative = false;
    if n > 0 && (cs[0] == '-' || cs[0] == '+') {
        negative = cs[0] == '-';
        i = 1;
    }
    let ghost body = cs@.subrange(i as int, n as int);
    if i == n {
        assert(body.len() == 0);
        assert(!is_integer_literal(cs@)) by {
            if n > 0 && (cs@[0] == '-' || cs@[0] == '+') {
                assert(cs@.drop_first() =~= body);
            } else {
                assert(cs@ =~= body);
            }
        }
        return Err(IntegerError::Invalid);
    }
    let ghost bound: int = if negative {
        -(min as int)
    } else {
        max as int
    };
    let start = i;
    let bound_e: u128 = bound_exec(negative, min, max);
    let mut mag: u128 = 0;
    let mut over = false;
    while i < n
        invariant
            start <= i <= n == cs@.len(),
            body == cs@.subrange(start as int, n as int),
            start == (if n > 0 && (cs@[0] == '-' || cs@[0] == '+') {
                1int
            } else {
                0int
            }),
            negative == (n > 0 && cs@[0] == '-'),
            bound >= 0,
            bound_e as int == bound,
            bound <= 0x8000_0000_0000_0000_0000_0000_0000_0000,
            all_digits(cs@.subrange(start as int, i as int)),
            !over ==> mag as int == digits_value(cs@.subrange(start as int, i as int)),
            !over ==> mag as int <= bound,
            over ==> digits_value(cs@.subrange(start as int, i as int)) > bound,
        decreases n - i,
    {
        let c = cs[i];
        if !('0' <= c && c <= '9') {
            assert(!all_digits(body)) by {
                assert(body[i - start] == c);
            }
            assert(!is_integer_literal(cs@)) by {
                if n > 0 && (cs@[0] == '-' || cs@[0] == '+') {
                    assert(cs@.drop_first() =~= body);
                } else {
                    assert(cs@ =~= body);
                }
            }
            return Err(IntegerError::Invalid);
        }
        let ghost pre = cs@.subrange(start as int, i as int);
        let ghost next = cs@.subrange(start as int, i + 1);
        assert(next.drop_last() =~= pre);
        assert(next.last() == c);
        assert(all_digits(next)) by {
            assert forall|j: int| 0 <= j < next.len() implies is_digit(#[trigger] next[j]) by {
                if j < pre.len() {
                    assert(next[j] == pre[j]);
                }
            }
        }
        proof {
            lemma_digits_value_nonneg(pre);
        }
        let d = (c as u32 - '0' as u32) as u128;
        if !over {
            if mag > (0x8000_0000_0000_0000_0000_0000_0000_0000u128 - d) / 10 {
                over = true;
                assert(digits_value(next) > bound) by (nonlinear_arith)
                    requires
                        digits_value(next) == 10 * mag + d,
                        mag > (0x8000_0000_0000_0000_0000_0000_0000_0000 - d) / 10,
                        bound <= 0x8000_0000_0000_0000_0000_0000_0000_0000,
                        0 <= d <= 9,
                ;
            } else {
                mag = mag * 10 + d;
                if mag > bound_e {
                    over = true;
                }
            }
        } else {
            assert(digits_value(next) > bound) by (nonlinear_arith)
                requires
                    digits_value(next) == 10 * digits_value(pre) + d,
                    digits_value(pre) > bound,
                    bound >= 0,
                    0 <= d <= 9,
            ;
        }
        i = i + 1;
    }
    assert(cs@.subrange(start as int, n as int) =~= body);
    assert(is_integer_literal(cs@) && integer_value(cs@) == if negative {
        -digits_value(body)
    } else {
        digits_value(body)
    }) by {
        if n > 0 && (cs@[0] == '-' || cs@[0] == '+') {
            assert(cs@.drop_first() =~= body);
        } else {
            assert(cs@ =~= body);
        }
    }
    if over {
        return Err(IntegerError::OutOfBounds);
    }
    if negative {
        if mag == 0x8000_0000_0000_0000_0000_0000_0000_0000u128 {
            Ok(i128::MIN)
        } else {
            Ok(0 - (mag as i128))
        }
    } else {
        Ok(mag as i128)
    }
}

pub open spec fn is_sign(c: char) -> bool {
    c == '+' || c == '-'
}

/// End of the run of digits of `s` that starts at `i`.
pub open spec fn digits_end(s: Seq<char>, i: int) -> int
    decreases s.len() - i,
{
    if i < 0 || i >= s.len() || !is_digit(s[i]) {
        i
    } else {
        digits_end(s, i + 1)
    }
}

/// Where the digits of `s` begin after an optional sign at `i`.
pub open spec fn after_sign(s: Seq<char>, i: int) -> int {
    if 0 <= i < s.len() && is_sign(s[i]) {
        i + 1
    } else {
        i
    }
}

/// `s[i..]` is empty or an exponent: `e` or `E`, an optional sign, and at least one digit.
pub open spec fn exponent_or_end(s: Seq<char>, i: int) -> bool {
    i == s.len() || (0 <= i < s.len() && (s[i] == 'e' || s[i] == 'E') && {
        let d = after_sign(s, i + 1);
        digits_end(s, d) > d && digits_end(s, d) == s.len()
    })
}

/// A decimal number: an optional sign, digits with an optional point and at least one digit
/// in all, then an optional exponent.
pub open spec fn is_decimal_literal(s: Seq<char>) -> bool {
    let i0 = after_sign(s, 0);
    let i1 = digits_end(s, i0);
    let point = i1 < s.len() && s[i1] == '.';
    let i2 = if point {
        digits_end(s, i1 + 1)
    } else {
        i1
    };
    let digits = if point {
        (i1 - i0) + (i2 - (i1 + 1))
    } else {
        i1 - i0
    };
    digits >= 1 && exponent_or_end(s, i2)
}

fn digits_end_exec(cs: &Vec<char>, i: usize) -> (r: usize)
    requires
        i <= cs@.len(),
    ensures
        r as int == digits_end(cs@, i as int),
        i <= r <= cs@.len(),
{
    let mut k = i;
    while k < cs.len() && '0' <= cs[k] && cs[k] <= '9'
        invariant
            i <= k <= cs@.len(),
            digits_end(cs@, i as int) == digits_end(cs@, k as int),
        decreases cs@.len() - k,
    {
        k = k + 1;
    }
    k
}

fn after_sign_exec(cs: &Vec<char>, i: usize) -> (r: usize)
    requires
        i <= cs@.len(),
    ensures
        r as int == after_sign(cs@, i as int),
        r <= cs@.len(),
{
    if i < cs.len() && (cs[i] == '+' || cs[i] == '-') {
        i + 1
    } else {
        i
    }
}

/// Whether `cs` is a decimal number.
pub fn is_decimal_literal_exec(cs: &Vec<char>) -> (r: bool)
    ensures
        r == is_decimal_literal(cs@),
{
    let n = cs.len();
    let i0 = after_sign_exec(cs, 0);
    let i1 = digits_end_exec(cs, i0);
    let point = i1 < n && cs[i1] == '.';
    let i2 = if point {
        digits_end_exec(cs, i1 + 1)
    } else {
        i1
    };
    let digits: usize = if point {
        (i1 - i0) + (i2 - (i1 + 1))
    } else {
        i1 - i0
    };
    if digits < 1 {
        return false;
    }
    if i2 == n {
        return true;
    }
    if !(cs[i2] == 'e' || cs[i2] == 'E') {
        return false;
    }
    let d = after_sign_exec(cs, i2 + 1);
    let e = digits_end_exec(cs, d);
    e > d && e == n
}

/// The value of a platform id written as plain digits.
pub open spec fn snowflake(s: Seq<char>) -> Option<u64> {
    if s.len() > 0 && all_digits(s) && digits_value(s) <= u64::MAX {
        Some(digits_value(s) as u64)
    } else {
        None
    }
}

/// `s` is `open`, then at least one character, then `>`.
pub open spec fn is_wrapped(s: Seq<char>, open: Seq<char>) -> bool {
    s.len() > open.len() + 1 && s.take(open.len() as int) == open && s.last() == '>'
}

/// What a mention wraps: the characters between `open` and the closing `>`.
pub open spec fn wrapped_body(s: Seq<char>, open: Seq<char>) -> Seq<char> {
    s.subrange(open.len() as int, s.len() - 1)
}

/// The id in `s`, written as plain digits or as a mention opened by `open`.
pub open spec fn mention_id(s: Seq<char>, open: Seq<char>) -> Option<u64> {
    if is_wrapped(s, open) {
        snowflake(wrapped_body(s, open))
    } else {
        snowflake(s)
    }
}

/// Reads a platform id written as plain digits.
pub fn parse_snowflake(cs: &Vec<char>) -> (r: Option<u64>)
    ensures
        r == snowflake(cs@),
{
    if cs.len() == 0 || !('0' <= cs[0] && cs[0] <= '9') {
        assert(cs@.len() == 0 || !is_digit(cs@[0]));
        return None;
    }
    match parse_integer(cs, 0, u64::MAX as i128) {
        Ok(v) => {
            assert(is_integer_literal(cs@));
            assert(cs@[0] != '-' && cs@[0] != '+');
            Some(v as u64)
        },
        Err(_) => {
            assert(!(cs@[0] == '-' || cs@[0] == '+'));
            proof {
                if all_digits(cs@) {
                    lemma_digits_value_nonneg(cs@);
                }
            }
            None
        },
    }
}

fn starts_with(cs: &Vec<char>, open: &Vec<char>) -> (r: bool)
    ensures
        r == (cs@.len() >= open@.len() && cs@.take(open@.len() as int) == open@),
{
    if cs.len() < open.len() {
        return false;
    }
    let mut i: usize = 0;
    while i < open.len()
        invariant
            open@.len() <= cs@.len(),
            0 <= i <= open@.len(),
            forall|j: int| 0 <= j < i ==> cs@[j] == open@[j],
        decreases open@.len() - i,
    {
        if cs[i] != open[i] {
            assert(cs@.take(open@.len() as int)[i as int] != open@[i as int]);
            return false;
        }
        i = i + 1;
    }
    assert(cs@.take(open@.len() as int) =~= open@);
    true
}

/// The characters `cs[lo..hi]`.
pub fn slice_chars(cs: &Vec<char>, lo: usize, hi: usize) -> (r: Vec<char>)
    requires
        lo <= hi <= cs@.len(),
    ensures
        r@ == cs@.subrange(lo as int, hi as int),
{
    let mut out: Vec<char> = Vec::new();
    let mut i: usize = lo;
    while i < hi
        invariant
            lo <= i <= hi <= cs@.len(),
            out@ == cs@.subrange(lo as int, i as int),
        decreases hi - i,
    {
        out.push(cs[i]);
        assert(cs@.subrange(lo as int, i + 1) =~= cs@.subrange(lo as int, i as int).push(cs@[i as int]));
        i = i + 1;
    }
    out
}

/// Reads an id written as plain digits or as a mention opened by `open`.
pub fn parse_mention(cs: &Vec<char>, open: &Vec<char>) -> (r: Option<u64>)
    ensures
        r == mention_id(cs@, open@),
{
    if cs.len() > 1 && cs.len() - 1 > open.len() && starts_with(cs, open) && cs[cs.len() - 1] == '>' {
        let body = slice_chars(cs, open.len(), cs.len() - 1);
        parse_snowflake(&body)
    } else {
        parse_snowflake(cs)
    }
}

/// `true` or `false`, spelled in lower case.
pub open spec fn boolean_of(s: Seq<char>) -> Option<bool> {
    if s == seq!['t', 'r', 'u', 'e'] {
        Some(true)
    } else if s == seq!['f', 'a', 'l', 's', 'e'] {
        Some(false)
    } else {
        None
    }
}

/// Reads `true` or `false`.
pub fn parse_boolean(cs: &Vec<char>) -> (r: Option<bool>)
    ensures
        r == boolean_of(cs@),
{
    if cs.len() == 4 && cs[0] == 't' && cs[1] == 'r' && cs[2] == 'u' && cs[3] == 'e' {
        assert(cs@ =~= seq!['t', 'r', 'u', 'e']);
        Some(true)
    } else if cs.len() == 5 && cs[0] == 'f' && cs[1] == 'a' && cs[2] == 'l' && cs[3] == 's'
        && cs[4] == 'e' {
        assert(cs@ =~= seq!['f', 'a', 'l', 's', 'e']);
        Some(false)
    } else {
        assert(cs@ == seq!['t', 'r', 'u', 'e'] ==> cs@.len() == 4 && cs@[0] == 't' && cs@[1] == 'r'
            && cs@[2] == 'u' && cs@[3] == 'e');
        assert(cs@ == seq!['f', 'a', 'l', 's', 'e'] ==> cs@.len() == 5 && cs@[0] == 'f' && cs@[1]
            == 'a' && cs@[2] == 'l' && cs@[3] == 's' && cs@[4] == 'e');
        None
    }
}

fn bound_exec(negative: bool, min: i128, max: i128) -> (r: u128)
    requires
        min <= 0 <= max,
    ensures
        r as int == if negative {
            -(min as int)
        } else {
            max as int
        },
{
    if negative {
        if min == i128::MIN {
            0x8000_0000_0000_0000_0000_0000_0000_0000u128
        } else {
            (0 - min) as u128
        }
    } else {
        max as u128
    }
}

} // verus!
