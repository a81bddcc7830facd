//! Reading the output of command-line tools: white space, lines and decimal
//! integers.

use crate::text::{fields, split_fields, texts};
use vstd::prelude::*;
use vstd::string::*;

verus! {

/// Whether `c` is white space.
pub uninterp spec fn is_space(c: char) -> bool;

/// Tells white space with `char::is_whitespace`.
///
/// Trusted: the answer depends on the character alone.
#[verifier::external_body]
pub(crate) fn char_is_space(c: char) -> (r: bool)
    ensures
        r == is_space(c),
{
    c.is_whitespace()
}

/// `s` without the white space at its front.
pub open spec fn trim_front(s: Seq<char>) -> Seq<char>
    decreases s.len(),
{
    if s.len() > 0 && is_space(s.first()) {
        trim_front(s.drop_first())
    } else {
        s
    }
}

/// `s` without the white space at its end.
pub open spec fn trim_back(s: Seq<char>) -> Seq<char>
    decreases s.len(),
{
    if s.len() > 0 && is_space(s.last()) {
        trim_back(s.drop_last())
    } else {
        s
    }
}

/// `s` without the white space at its front and at its end.
pub open spec fn trimmed(s: Seq<char>) -> Seq<char> {
    trim_back(trim_front(s))
}

/// `s` without the white space at its front and at its end.
pub fn trim(s: &str) -> (r: &str)
    ensures
        r@ == trimmed(s@),
{
    let len = s.unicode_len();
    let mut start: usize = 0;
    assert(s@.skip(0) =~= s@);
    while start < len && char_is_space(s.get_char(start))
        invariant
            len == s@.len(),
            start <= len,
            trim_front(s@) == trim_front(s@.skip(start as int)),
        decreases len - start,
    {
        assert(s@.skip(start as int).drop_first() =~= s@.skip(start + 1));
        start += 1;
    }
    let ghost front = s@.skip(start as int);
    assert(trim_front(s@) == front);
    let mut end: usize = len;
    assert(s@.subrange(start as int, len as int) =~= front);
    while end > start && char_is_space(s.get_char(end - 1))
        invariant
            len == s@.len(),
            start <= end <= len,
            trim_back(front) == trim_back(s@.subrange(start as int, end as int)),
        decreases end,
    {
        assert(s@.subrange(start as int, end as int).drop_last() =~= s@.subrange(
            start as int,
            end - 1,
        ));
        end -= 1;
    }
    s.substring_char(start, end)
}

/// `line` without the carriage return at its end, if it has one.
pub open spec fn without_return(line: Seq<char>) -> Seq<char> {
    if line.len() > 0 && line.last() == '\r' {
        line.drop_last()
    } else {
        line
    }
}

/// The lines of `s`. A line ends at a line feed; the line feed and a
/// carriage return right before it do not belong to the line. What follows
/// the last line feed is a line too unless it is empty.
pub open spec fn lines_of(s: Seq<char>) -> Seq<Seq<char>> {
    let pieces = fields(s, '\n');
    let ended = pieces.drop_last().map_values(|piece: Seq<char>| without_return(piece));
    if pieces.last().len() == 0 {
        ended
    } else {
        ended.push(pieces.last())
    }
}

/// Splits `s` into its lines.
pub fn lines(s: &str) -> (r: Vec<String>)
    ensures
        texts(r@) == lines_of(s@),
{
    proof {
        crate::text::lemma_fields_nonempty(s@, '\n');
    }
    let pieces = split_fields(s, '\n');
    let ghost all = fields(s@, '\n');
    assert(pieces@.len() == all.len()) by {
        assert(texts(pieces@).len() == pieces@.len());
    }
    let mut out: Vec<String> = Vec::new();
    let last = pieces.len() - 1;
    let mut i: usize = 0;
    while i < last
        invariant
            i <= last,
            last == pieces@.len() - 1,
            texts(pieces@) == all,
            out@.len() == i,
            forall|j: int| 0 <= j < i ==> (#[trigger] out@[j])@ == without_return(all[j]),
        decreases last - i,
    {
        let piece = pieces[i].as_str();
        assert(piece@ == all[i as int]) by {
            assert(texts(pieces@)[i as int] == pieces@[i as int]@);
        }
        let n = piece.unicode_len();
        if n > 0 && piece.get_char(n - 1) == '\r' {
            out.push(String::from_str(piece.substring_char(0, n - 1)));
        } else {
            out.push(String::from_str(piece));
        }
        i += 1;
    }
    let tail = pieces[last].as_str();
    assert(tail@ == all.last()) by {
        assert(texts(pieces@)[last as int] == pieces@[last as int]@);
    }
    if tail.unicode_len() > 0 {
        out.push(String::from_str(tail));
    }
    assert(texts(out@) =~= lines_of(s@));
    out
}

/// Whether `c` is a decimal digit.
pub open spec fn is_digit(c: char) -> bool {
    '0' as u32 <= c as u32 <= '9' as u32
}

/// The value of the decimal digit `c`.
pub open spec fn digit_value(c: char) -> nat {
    (c as u32 - '0' as u32) as nat
}

/// Whether `s` holds decimal digits only.
pub open spec fn all_digits(s: Seq<char>) -> bool {
    forall|i: int| 0 <= i < s.len() ==> is_digit(#[trigger] s[i])
}

/// The number that the decimal digits `s` write.
pub open spec fn number(s: Seq<char>) -> nat
    decreases s.len(),
{
    if s.len() == 0 {
        0
    } else {
        number(s.drop_last()) * 10 + digit_value(s.last())
    }
}

/// Whether `s` begins with a sign: a plus, or a minus where `allow_minus`.
pub open spec fn has_sign(s: Seq<char>, allow_minus: bool) -> bool {
    s.len() > 0 && (s[0] == '+' || (allow_minus && s[0] == '-'))
}

/// The integer that `s` writes in decimal: an optional sign, then at least
/// one digit and nothing else. A minus sign is a sign only where
/// `allow_minus`.
pub open spec fn parsed_int(s: Seq<char>, allow_minus: bool) -> Option<int> {
    let body = if has_sign(s, allow_minus) {
        s.drop_first()
    } else {
        s
    };
    if body.len() == 0 || !all_digits(body) {
        None
    } else if has_sign(s, allow_minus) && s[0] == '-' {
        Some(-(number(body) as int))
    } else {
        Some(number(body) as int)
    }
}

/// The 32-bit signed integer that `s` writes; `None` where `s` writes no
/// integer or one out of range.
pub open spec fn parsed_i32(s: Seq<char>) -> Option<i32> {
    match parsed_int(s, true) {
        Some(v) => if i32::MIN <= v <= i32::MAX {
            Some(v as i32)
        } else {
            None
        },
        None => None,
    }
}

/// The 32-bit unsigned integer that `s` writes; `None` where `s` writes no
/// such integer or one out of range.
pub open spec fn parsed_u32(s: Seq<char>) -> Option<u32> {
    match parsed_int(s, false) {
        Some(v) => if v <= u32::MAX {
            Some(v as u32)
        } else {
            None
        },
        None => None,
    }
}

/// The magnitude of the integer that `s` writes, where it is at most
/// `bound`, and whether the integer is negative.
fn parse_magnitude(s: &str, allow_minus: bool, bound: u64) -> (r: Option<(u64, bool)>)
    requires
        bound <= 0x1_0000_0000,
    ensures
        match r {
            Some((magnitude, negative)) => magnitude <= bound && parsed_int(s@, allow_minus)
                == Some(
                if negative {
                    -(magnitude as int)
                } else {
                    magnitude as int
                },
            ) && (negative ==> allow_minus),
            None => match parsed_int(s@, allow_minus) {
                Some(v) => v > bound || -v > bound,
                None => true,
            },
        },
{
    let len = s.unicode_len();
    if len == 0 {
        return None;
    }
    let first = s.get_char(0);
    let negative = allow_minus && first == '-';
    let signed = first == '+' || negative;
    let start: usize = if signed {
        1
    } else {
        0
    };
    if start == len {
        return None;
    }
    let ghost body = if signed {
        s@.drop_first()
    } else {
        s@
    };
    assert(body =~= s@.skip(start as int));
    let mut acc: u64 = 0;
    let mut big = false;
    let mut i: usize = start;
    assert(body.take(0) =~= Seq::<char>::empty());
    while i < len
        invariant
            len == s@.len(),
            start <= i <= len,
            body == s@.skip(start as int),
            signed == has_sign(s@, allow_minus),
            body == (if signed {
                s@.drop_first()
            } else {
                s@
            }),
            bound <= 0x1_0000_0000,
            all_digits(body.take(i - start)),
            !big ==> acc == number(body.take(i - start)) && acc <= bound,
            big ==> number(body.take(i - start)) > bound,
        decreases len - i,
    {
        let c = s.get_char(i);
        let ghost seen = body.take(i - start);
        let ghost grown = body.take(i - start + 1);
        proof {
            assert(body[i - start] == c);
            assert(grown.drop_last() =~= seen);
            assert(grown.last() == c);
        }
        let code = c as u32;
        if code < '0' as u32 || code > '9' as u32 {
            proof {
                assert(!is_digit(body[i - start]));
            }
            return None;
        }
        proof {
            assert forall|j: int| 0 <= j < grown.len() implies is_digit(#[trigger] grown[j]) by {
                if j < seen.len() {
                    assert(grown[j] == seen[j]);
                }
            }
        }
        if !big {
            let next: u64 = acc * 10 + (code - '0' as u32) as u64;
            if next > bound {
                big = true;
            } else {
                acc = next;
            }
        }
        i += 1;
    }
    assert(body.take(len - start) =~= body);
    if big {
        None
    } else {
        Some((acc, negative))
    }
}

/// Reads a 32-bit signed integer in decimal.
pub fn parse_i32(s: &str) -> (r: Option<i32>)
    ensures
        r == parsed_i32(s@),
{
    match parse_magnitude(s, true, 0x8000_0000) {
        None => None,
        Some((magnitude, negative)) => {
            if negative {
                Some((-(magnitude as i64)) as i32)
            } else if magnitude <= 0x7fff_ffff {
                Some(magnitude as i32)
            } else {
                None
            }
        },
    }
}

/// Reads a 32-bit unsigned integer in decimal.
pub fn parse_u32(s: &str) -> (r: Option<u32>)
    ensures
        r == parsed_u32(s@),
{
    match parse_magnitude(s, false, 0xffff_ffff) {
        None => None,
        Some((magnitude, _)) => Some(magnitude as u32),
    }
}

/// Whether `pattern` stands in `s` at position `at`.
pub open spec fn occurs_at(s: Seq<char>, pattern: Seq<char>, at: int) -> bool {
    0 <= at && at + pattern.len() <= s.len() && s.subrange(at, at + pattern.len()) == pattern
}

/// The first position at or behind `from` at which `pattern` stands in `s`.
pub open spec fn find_from(s: Seq<char>, pattern: Seq<char>, from: int) -> Option<int>
    decreases s.len() + 1 - from,
{
    if from < 0 || from + pattern.len() > s.len() {
        None
    } else if occurs_at(s, pattern, from) {
        Some(from)
    } else {
        find_from(s, pattern, from + 1)
    }
}

/// `find_from` yields a position at which the pattern stands, with none
/// before it; it yields nothing only where the pattern stands nowhere.
pub proof fn lemma_find_from(s: Seq<char>, pattern: Seq<char>, from: int)
    requires
        0 <= from,
    ensures
        match find_from(s, pattern, from) {
            Some(at) => from <= at && occurs_at(s, pattern, at) && forall|j: int|
                from <= j < at ==> !occurs_at(s, pattern, j),
            None => forall|j: int| from <= j ==> !occurs_at(s, pattern, j),
        },
    decreases s.len() + 1 - from,
{
    if from + pattern.len() <= s.len() && !occurs_at(s, pattern, from) {
        lemma_find_from(s, pattern, from + 1);
    }
}

/// Whether `pattern` stands in `s` at position `at`.
fn matches_at(s: &str, pattern: &str, at: usize) -> (r: bool)
    requires
        at + pattern@.len() <= s@.len(),
    ensures
        r == occurs_at(s@, pattern@, at as int),
{
    let n = pattern.unicode_len();
    let len = s.unicode_len();
    let mut k: usize = 0;
    while k < n
        invariant
            k <= n,
            n == pattern@.len(),
            len == s@.len(),
            at + n <= len,
            forall|j: int| 0 <= j < k ==> s@[at + j] == pattern@[j],
        decreases n - k,
    {
        if s.get_char(at + k) != pattern.get_char(k) {
            assert(s@.subrange(at as int, at + n)[k as int] != pattern@[k as int]);
            return false;
        }
        k += 1;
    }
    assert(s@.subrange(at as int, at + n) =~= pattern@);
    true
}

/// The first position at which `pattern` stands in `s`, counted in
/// characters.
pub fn find(s: &str, pattern: &str) -> (r: Option<usize>)
    ensures
        match r {
            Some(at) => find_from(s@, pattern@, 0) == Some(at as int),
            None => find_from(s@, pattern@, 0) is None,
        },
{
    let len = s.unicode_len();
    let n = pattern.unicode_len();
    if n == 0 {
        assert(s@.subrange(0, 0) =~= pattern@);
        return Some(0);
    }
    if n > len {
        return None;
    }
    let limit: usize = len - n + 1;
    let mut at: usize = 0;
    while at < limit
        invariant
            len == s@.len(),
            n == pattern@.len(),
            0 < n <= len,
            limit == len - n + 1,
            at <= limit,
            find_from(s@, pattern@, 0) == find_from(s@, pattern@, at as int),
        decreases limit - at,
    {
        if matches_at(s, pattern, at) {
            return Some(at);
        }
        at += 1;
    }
    None
}

} // verus!
