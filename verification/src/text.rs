//! Text helpers: decimal rendering of integers and literal trimming,
//! all specified over character sequences.

use vstd::prelude::*;

verus! {

use vstd::string::StrSliceExecFns;
use vstd::string::StringExecFns;

/// The decimal digit character of `d` (expected in 0..10).
pub open spec fn spec_dec_digit(d: int) -> char {
    if d == 0 {
        '0'
    } else if d == 1 {
        '1'
    } else if d == 2 {
        '2'
    } else if d == 3 {
        '3'
    } else if d == 4 {
        '4'
    } else if d == 5 {
        '5'
    } else if d == 6 {
        '6'
    } else if d == 7 {
        '7'
    } else if d == 8 {
        '8'
    } else {
        '9'
    }
}

/// The decimal rendering of a non-negative integer.
pub open spec fn spec_u64_dec(n: int) -> Seq<char>
    decreases n,
{
    if n < 10 {
        seq![spec_dec_digit(n)]
    } else {
        spec_u64_dec(n / 10).push(spec_dec_digit(n % 10))
    }
}

/// The decimal rendering of a signed integer.
pub open spec fn spec_i64_dec(n: int) -> Seq<char> {
    if n >= 0 {
        spec_u64_dec(n)
    } else {
        seq!['-'] + spec_u64_dec(-n)
    }
}

pub fn digit_name(d: u64) -> (r: &'static str)
    requires
        d < 10,
    ensures
        r@ == seq![spec_dec_digit(d as int)],
{
    let r: &'static str = if d == 0 {
        "0"
    } else if d == 1 {
        "1"
    } else if d == 2 {
        "2"
    } else if d == 3 {
        "3"
    } else if d == 4 {
        "4"
    } else if d == 5 {
        "5"
    } else if d == 6 {
        "6"
    } else if d == 7 {
        "7"
    } else if d == 8 {
        "8"
    } else {
        "9"
    };
    proof {
        reveal_strlit("0");
        reveal_strlit("1");
        reveal_strlit("2");
        reveal_strlit("3");
        reveal_strlit("4");
        reveal_strlit("5");
        reveal_strlit("6");
        reveal_strlit("7");
        reveal_strlit("8");
        reveal_strlit("9");
        assert(r@ =~= seq![spec_dec_digit(d as int)]);
    }
    r
}

/// Renders an unsigned integer in decimal.
pub fn u64_to_dec(n: u64) -> (r: String)
    ensures
        r@ == spec_u64_dec(n as int),
    decreases n,
{
    if n < 10 {
        String::from_str(digit_name(n))
    } else {
        let mut s = u64_to_dec(n / 10);
        s.append(digit_name(n % 10));
        proof {
            assert(s@ =~= spec_u64_dec(n as int));
        }
        s
    }
}

pub fn usize_to_dec(n: usize) -> (r: String)
    ensures
        r@ == spec_u64_dec(n as int),
{
    u64_to_dec(n as u64)
}

pub fn u32_to_dec(n: u32) -> (r: String)
    ensures
        r@ == spec_u64_dec(n as int),
{
    u64_to_dec(n as u64)
}

/// Renders a signed integer in decimal.
pub fn i32_to_dec(n: i32) -> (r: String)
    ensures
        r@ == spec_i64_dec(n as int),
{
    if n >= 0 {
        u64_to_dec(n as u64)
    } else {
        let wide: i64 = n as i64;
        let mag: u64 = (-wide) as u64;
        let mut s = String::from_str("-");
        let digits = u64_to_dec(mag);
        s.append(digits.as_str());
        proof {
            reveal_strlit("-");
            assert(s@ =~= spec_i64_dec(n as int));
        }
        s
    }
}

/// The number of leading `@` characters.
pub open spec fn spec_leading_sigils(s: Seq<char>) -> int
    decreases s.len(),
{
    if s.len() == 0 {
        0
    } else if s[0] != '@' {
        0
    } else {
        1 + spec_leading_sigils(s.drop_first())
    }
}

/// A name with every leading `@` sigil removed.
pub open spec fn spec_strip_sigils(s: Seq<char>) -> Seq<char> {
    s.skip(spec_leading_sigils(s))
}

proof fn lemma_leading_sigils_bound(s: Seq<char>)
    ensures
        0 <= spec_leading_sigils(s) <= s.len(),
    decreases s.len(),
{
    if s.len() > 0 && s[0] == '@' {
        lemma_leading_sigils_bound(s.drop_first());
        assert(s.drop_first().len() == s.len() - 1);
    }
}

/// Strips every leading `@` sigil from a name.
pub fn strip_sigils(s: &str) -> (r: String)
    ensures
        r@ == spec_strip_sigils(s@),
{
    let len = s.unicode_len();
    let mut i: usize = 0;
    proof {
        lemma_leading_sigils_bound(s@);
        assert(s@.skip(0) =~= s@);
    }
    while i < len && s.get_char(i) == '@'
        invariant
            0 <= i <= len,
            len == s@.len(),
            spec_leading_sigils(s@) == i + spec_leading_sigils(s@.skip(i as int)),
            spec_leading_sigils(s@.skip(i as int)) >= 0,
        decreases len - i,
    {
        proof {
            assert(s@.skip(i as int)[0] == s@[i as int]);
            assert(s@.skip(i as int).drop_first() =~= s@.skip(i + 1));
            lemma_leading_sigils_bound(s@.skip(i + 1));
        }
        i += 1;
    }
    proof {
        if i < len {
            assert(s@.skip(i as int)[0] == s@[i as int]);
        }
        assert(spec_leading_sigils(s@.skip(i as int)) == 0);
        assert(spec_leading_sigils(s@) == i);
    }
    let tail = s.substring_char(i, len);
    proof {
        assert(tail@ =~= spec_strip_sigils(s@));
    }
    String::from_str(tail)
}

/// The value of a quoted literal: the text between the outer quotes, or
/// nothing when the raw text is not quoted on both ends.
pub open spec fn spec_unquote(raw: Seq<char>) -> Option<Seq<char>> {
    if raw.len() >= 2 && raw[0] == '"' && raw[raw.len() - 1] == '"' {
        Some(raw.subrange(1, raw.len() - 1))
    } else {
        None
    }
}

/// Removes one double quote from each end, when both are present.
pub fn unquote(raw: &str) -> (r: Option<String>)
    ensures
        match r {
            Some(s) => spec_unquote(raw@) == Some(s@),
            None => spec_unquote(raw@) is None,
        },
{
    let len = raw.unicode_len();
    if len >= 2 && raw.get_char(0) == '"' && raw.get_char(len - 1) == '"' {
        let inner = raw.substring_char(1, len - 1);
        Some(String::from_str(inner))
    } else {
        None
    }
}

/// The body of a triple-quoted literal: the text between the delimiters,
/// or the raw text when the delimiters are not both present.
pub open spec fn spec_strip_triple(raw: Seq<char>) -> Seq<char> {
    if raw.len() >= 6 && raw.subrange(0, 3) =~= seq!['"', '"', '"'] && raw.subrange(
        raw.len() - 3,
        raw.len() as int,
    ) =~= seq!['"', '"', '"'] {
        raw.subrange(3, raw.len() - 3)
    } else {
        raw
    }
}

/// Strips `"""` delimiters from both ends, when both are present.
pub fn strip_triple(raw: &str) -> (r: String)
    ensures
        r@ == spec_strip_triple(raw@),
{
    let len = raw.unicode_len();
    if len >= 6 && raw.get_char(0) == '"' && raw.get_char(1) == '"' && raw.get_char(2) == '"'
        && raw.get_char(len - 3) == '"' && raw.get_char(len - 2) == '"' && raw.get_char(len - 1)
        == '"' {
        proof {
            assert(raw@.subrange(0, 3) =~= seq!['"', '"', '"']);
            assert(raw@.subrange(raw@.len() - 3, raw@.len() as int) =~= seq!['"', '"', '"']);
        }
        let inner = raw.substring_char(3, len - 3);
        String::from_str(inner)
    } else {
        proof {
            if raw@.len() >= 6 {
                let head = raw@.subrange(0, 3);
                let tail = raw@.subrange(raw@.len() - 3, raw@.len() as int);
                assert(head[0] == raw@[0] && head[1] == raw@[1] && head[2] == raw@[2]);
                assert(tail[0] == raw@[raw@.len() - 3] && tail[1] == raw@[raw@.len() - 2]
                    && tail[2] == raw@[raw@.len() - 1]);
            }
        }
        String::from_str(raw)
    }
}

} // verus!
