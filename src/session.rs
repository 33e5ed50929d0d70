//! Setting up a session: checking the base directory, naming the session
//! directory, and reading the subject's answers to the setup prompts.

use crate::text::{decimal, is_whitespace, is_ws, push_decimal};
use vstd::prelude::*;

verus! {

/// Why a base directory cannot hold sessions.
#[derive(Clone, Copy, Debug, PartialEq, Eq, Structural)]
pub enum BaseDirError {
    /// Nothing exists at the path.
    Missing,
    /// Something exists at the path, but it is not a directory.
    NotADirectory,
}

/// Decides whether a path can serve as the base directory, from whether
/// something exists there and whether it is a directory.
pub fn check_base_dir(exists: bool, is_dir: bool) -> (r: Result<(), BaseDirError>)
    ensures
        !exists ==> r == Err::<(), BaseDirError>(BaseDirError::Missing),
        exists && !is_dir ==> r == Err::<(), BaseDirError>(BaseDirError::NotADirectory),
        exists && is_dir ==> r == Ok::<(), BaseDirError>(()),
{
    if !exists {
        Err(BaseDirError::Missing)
    } else if !is_dir {
        Err(BaseDirError::NotADirectory)
    } else {
        Ok(())
    }
}

/// How many entries of `s` are `true`.
pub open spec fn count_true(s: Seq<bool>) -> nat
    decreases s.len(),
{
    if s.len() == 0 {
        0
    } else {
        count_true(s.drop_last()) + if s.last() {
            1nat
        } else {
            0nat
        }
    }
}

/// The name of the next session directory, given for each entry of the base
/// directory whether it could be read: one more than the number of readable
/// entries. The count, not the largest existing name, decides it.
pub fn next_session_name(readable: &Vec<bool>) -> (r: String)
    requires
        readable.len() < u64::MAX,
    ensures
        r@ == decimal(count_true(readable@) + 1),
{
    let mut count: u64 = 0;
    let mut i: usize = 0;
    while i < readable.len()
        invariant
            i <= readable.len(),
            readable.len() < u64::MAX,
            count == count_true(readable@.subrange(0, i as int)),
            count <= i,
        decreases readable.len() - i,
    {
        assert(readable@.subrange(0, i + 1).drop_last() =~= readable@.subrange(0, i as int));
        if readable[i] {
            count = count + 1;
        }
        i = i + 1;
    }
    assert(readable@.subrange(0, readable.len() as int) =~= readable@);
    let mut name = String::new();
    push_decimal(&mut name, count + 1);
    assert(name@ =~= decimal(count_true(readable@) + 1));
    name
}

/// `s` without its leading whitespace.
pub open spec fn trim_start(s: Seq<char>) -> Seq<char>
    decreases s.len(),
{
    if s.len() > 0 && is_ws(s[0]) {
        trim_start(s.drop_first())
    } else {
        s
    }
}

/// `s` without its trailing whitespace.
pub open spec fn trim_end(s: Seq<char>) -> Seq<char>
    decreases s.len(),
{
    if s.len() > 0 && is_ws(s.last()) {
        trim_end(s.drop_last())
    } else {
        s
    }
}

/// `s` without leading and trailing whitespace.
pub open spec fn trimmed(s: Seq<char>) -> Seq<char> {
    trim_end(trim_start(s))
}

proof fn lemma_trim_start(s: Seq<char>, i: int)
    requires
        0 <= i <= s.len(),
        forall|j: int| 0 <= j < i ==> is_ws(#[trigger] s[j]),
        i == s.len() || !is_ws(s[i]),
    ensures
        trim_start(s) == s.subrange(i, s.len() as int),
    decreases i,
{
    if i == 0 {
        assert(s.subrange(0, s.len() as int) =~= s);
    } else {
        let t = s.drop_first();
        assert forall|j: int| 0 <= j < i - 1 implies is_ws(#[trigger] t[j]) by {
            assert(t[j] == s[j + 1]);
        }
        lemma_trim_start(t, i - 1);
        assert(t.subrange(i - 1, t.len() as int) =~= s.subrange(i, s.len() as int));
    }
}

proof fn lemma_trim_end(s: Seq<char>, k: int)
    requires
        0 <= k <= s.len(),
        forall|j: int| k <= j < s.len() ==> is_ws(#[trigger] s[j]),
        k == 0 || !is_ws(s[k - 1]),
    ensures
        trim_end(s) == s.subrange(0, k),
    decreases s.len() - k,
{
    if k == s.len() {
        assert(s.subrange(0, k) =~= s);
    } else {
        let t = s.drop_last();
        assert forall|j: int| k <= j < t.len() implies is_ws(#[trigger] t[j]) by {
            assert(t[j] == s[j]);
        }
        lemma_trim_end(t, k);
        assert(t.subrange(0, k) =~= s.subrange(0, k));
    }
}

/// `s` without leading and trailing whitespace, as `str::trim` does.
pub fn trim(s: &str) -> (r: &str)
    ensures
        r@ == trimmed(s@),
{
    let n = s.unicode_len();
    let mut i: usize = 0;
    while i < n && is_whitespace(s.get_char(i))
        invariant
            n == s@.len(),
            i <= n,
            forall|j: int| 0 <= j < i ==> is_ws(#[trigger] s@[j]),
        decreases n - i,
    {
        i = i + 1;
    }
    proof {
        lemma_trim_start(s@, i as int);
    }
    let mut k: usize = n;
    while k > i && is_whitespace(s.get_char(k - 1))
        invariant
            n == s@.len(),
            i <= k <= n,
            forall|j: int| k <= j < n ==> is_ws(#[trigger] s@[j]),
        decreases k,
    {
        k = k - 1;
    }
    proof {
        let t = s@.subrange(i as int, n as int);
        assert forall|j: int| k - i <= j < t.len() implies is_ws(#[trigger] t[j]) by {
            assert(t[j] == s@[j + i]);
        }
        lemma_trim_end(t, k - i);
        assert(t.subrange(0, k - i) =~= s@.subrange(i as int, k as int));
    }
    s.substring_char(i, k)
}

/// What `str::to_lowercase` makes of `s`.
pub uninterp spec fn lower_of(s: Seq<char>) -> Seq<char>;

/// Relies on `str::to_lowercase`: the result depends on the characters
/// alone, and the empty string stays empty.
#[verifier::external_body]
fn lowercase(s: &str) -> (r: String)
    ensures
        r@ == lower_of(s@),
        s@.len() == 0 ==> r@.len() == 0,
{
    s.to_lowercase()
}

/// The answer that an already trimmed and lowercased reply `reply` stands
/// for: `default` when the reply is empty and there is one, else the reply.
pub open spec fn answer_of(reply: Seq<char>, default: Option<Seq<char>>) -> Seq<char> {
    if reply.len() == 0 && default is Some {
        default->0
    } else {
        reply
    }
}

/// Checks a trimmed, lowercased reply against the allowed answers: the
/// answer (the default if the reply is empty) when it is allowed, else
/// `None`.
pub fn choose_answer(reply: &str, allowed: &[&str], default: Option<&str>) -> (r: Option<String>)
    ensures
        ({
            let a = answer_of(reply@, if default is Some { Some(default->0@) } else { None });
            &&& r is Some <==> exists|i: int| 0 <= i < allowed@.len() && (#[trigger] allowed@[i])@ == a
            &&& r is Some ==> r->0@ == a
        }),
{
    let answer = match default {
        Some(d) => if reply.unicode_len() == 0 {
            String::from_str(d)
        } else {
            String::from_str(reply)
        },
        None => String::from_str(reply),
    };
    let mut i: usize = 0;
    while i < allowed.len()
        invariant
            i <= allowed@.len(),
            forall|j: int| 0 <= j < i ==> (#[trigger] allowed@[j])@ != answer@,
            answer@ == answer_of(reply@, if default is Some { Some(default->0@) } else { None }),
        decreases allowed@.len() - i,
    {
        let candidate = String::from_str(allowed[i]);
        if candidate == answer {
            assert(allowed@[i as int]@ == answer@);
            return Some(answer);
        }
        i = i + 1;
    }
    None
}

/// Reads a reply to a choice prompt: trimmed and lowercased, with `default`
/// standing for an empty reply; `None` when the answer is not allowed.
pub fn accept_choice(input: &str, allowed: &[&str], default: Option<&str>) -> (r: Option<String>)
    ensures
        ({
            let a = answer_of(
                lower_of(trimmed(input@)),
                if default is Some { Some(default->0@) } else { None },
            );
            &&& r is Some <==> exists|i: int| 0 <= i < allowed@.len() && (#[trigger] allowed@[i])@ == a
            &&& r is Some ==> r->0@ == a
        }),
{
    let lowered = lowercase(trim(input));
    choose_answer(lowered.as_str(), allowed, default)
}

/// Smallest height, in centimetres, that the setup accepts.
pub const MIN_HEIGHT_CM: i32 = 50;

/// Largest height, in centimetres, that the setup accepts.
pub const MAX_HEIGHT_CM: i32 = 300;

/// What a reply to the height prompt amounts to.
#[derive(Clone, Copy, Debug, PartialEq, Eq, Structural)]
pub enum HeightReply {
    /// The reply was empty: the height is not given.
    Skipped,
    /// A height within the accepted range.
    Height(i32),
    /// A number outside the accepted range.
    OutOfRange,
    /// Not an integer of `i32`.
    NotANumber,
}

pub open spec fn is_digit(c: char) -> bool {
    '0' <= c && c <= '9'
}

/// The value of a string of decimal digits.
pub open spec fn digits_value(s: Seq<char>) -> int
    decreases s.len(),
{
    if s.len() == 0 {
        0
    } else {
        10 * digits_value(s.drop_last()) + (s.last() as u32 - '0' as u32)
    }
}

/// The digits of `s` after an optional sign.
pub open spec fn unsigned_part(s: Seq<char>) -> Seq<char> {
    if s.len() > 0 && (s[0] == '-' || s[0] == '+') {
        s.drop_first()
    } else {
        s
    }
}

/// The integer that `s` writes, as `i32::from_str` reads it: an optional
/// `+` or `-`, then one or more decimal digits, with a value that fits
/// `i32`; `None` for anything else.
pub open spec fn i32_of(s: Seq<char>) -> Option<int> {
    let body = unsigned_part(s);
    let v = if s.len() > 0 && s[0] == '-' {
        -digits_value(body)
    } else {
        digits_value(body)
    };
    if body.len() > 0 && (forall|i: int| 0 <= i < body.len() ==> is_digit(#[trigger] body[i]))
        && i32::MIN <= v <= i32::MAX {
        Some(v)
    } else {
        None
    }
}

/// The meaning of a trimmed reply to the height prompt.
pub open spec fn height_reply_of(t: Seq<char>) -> HeightReply {
    if t.len() == 0 {
        HeightReply::Skipped
    } else {
        match i32_of(t) {
            Some(v) => if MIN_HEIGHT_CM <= v <= MAX_HEIGHT_CM {
                HeightReply::Height(v as i32)
            } else {
                HeightReply::OutOfRange
            },
            None => HeightReply::NotANumber,
        }
    }
}

/// Beyond every magnitude that an `i32` can have.
const BEYOND_I32: i64 = 2147483649;

/// Reads a string of one or more digits as an `i32` magnitude check: the
/// value of the digits, or `BEYOND_I32` once it exceeds that.
fn digits_capped(s: &str, from: usize) -> (r: Option<i64>)
    requires
        from <= s@.len(),
    ensures
        ({
            let body = s@.subrange(from as int, s@.len() as int);
            match r {
                Some(v) => (forall|i: int| 0 <= i < body.len() ==> is_digit(#[trigger] body[i]))
                    && 0 <= v && v == (if digits_value(body) < BEYOND_I32 {
                    digits_value(body)
                } else {
                    BEYOND_I32 as int
                }),
                None => exists|i: int| 0 <= i < body.len() && !is_digit(#[trigger] body[i]),
            }
        }),
{
    let n = s.unicode_len();
    let mut acc: i64 = 0;
    let mut i: usize = from;
    while i < n
        invariant
            n == s@.len(),
            from <= i <= n,
            forall|j: int| from <= j < i ==> is_digit(#[trigger] s@[j]),
            0 <= digits_value(s@.subrange(from as int, i as int)),
            acc == (if digits_value(s@.subrange(from as int, i as int)) < BEYOND_I32 {
                digits_value(s@.subrange(from as int, i as int))
            } else {
                BEYOND_I32 as int
            }),
        decreases n - i,
    {
        let c = s.get_char(i);
        if !('0' <= c && c <= '9') {
            assert(s@.subrange(from as int, n as int)[i - from] == c);
            return None;
        }
        let d = (c as u32 - '0' as u32) as i64;
        let ghost prev = s@.subrange(from as int, i as int);
        let ghost next = s@.subrange(from as int, i + 1);
        assert(next.drop_last() =~= prev);
        assert(digits_value(next) == 10 * digits_value(prev) + d);
        if acc >= BEYOND_I32 {
            acc = BEYOND_I32;
        } else {
            let v = 10 * acc + d;
            acc = if v >= BEYOND_I32 {
                BEYOND_I32
            } else {
                v
            };
        }
        i = i + 1;
    }
    assert forall|j: int| 0 <= j < s@.subrange(from as int, n as int).len() implies is_digit(
        #[trigger] s@.subrange(from as int, n as int)[j],
    ) by {
        assert(s@.subrange(from as int, n as int)[j] == s@[from + j]);
    }
    Some(acc)
}

/// Reads a trimmed reply to the height prompt.
pub fn height_reply(t: &str) -> (r: HeightReply)
    ensures
        r == height_reply_of(t@),
{
    let n = t.unicode_len();
    if n == 0 {
        return HeightReply::Skipped;
    }
    let first = t.get_char(0);
    let negative = first == '-';
    let from: usize = if first == '-' || first == '+' {
        1
    } else {
        0
    };
    proof {
        assert(unsigned_part(t@) =~= t@.subrange(from as int, n as int));
    }
    if from == n {
        return HeightReply::NotANumber;
    }
    match digits_capped(t, from) {
        None => HeightReply::NotANumber,
        Some(m) => {
            let v: i64 = if negative {
                -m
            } else {
                m
            };
            if v < i32::MIN as i64 || v > i32::MAX as i64 {
                HeightReply::NotANumber
            } else if (MIN_HEIGHT_CM as i64) <= v && v <= (MAX_HEIGHT_CM as i64) {
                HeightReply::Height(v as i32)
            } else {
                HeightReply::OutOfRange
            }
        },
    }
}

/// Reads a reply to the height prompt: empty after trimming skips the
/// height; an integer from `MIN_HEIGHT_CM` to `MAX_HEIGHT_CM` is taken; any
/// other integer is out of range, and anything else is not a number.
pub fn read_height(input: &str) -> (r: HeightReply)
    ensures
        r == height_reply_of(trimmed(input@)),
{
    height_reply(trim(input))
}

} // verus!
