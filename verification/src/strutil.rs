use vstd::prelude::*;
use vstd::string::StrSliceExecFns;
use vstd::string::StringExecFns;

verus! {

// ---------------------------------------------------------------------------
// Substring search
// ---------------------------------------------------------------------------

/// `needle` occurs in `hay` starting at character index `i`.
pub open spec fn occurs_at(hay: Seq<char>, needle: Seq<char>, i: int) -> bool {
    0 <= i && i + needle.len() <= hay.len() && hay.subrange(i, i + needle.len()) == needle
}

/// `needle` occurs somewhere in `hay`.
pub open spec fn has_occurrence(hay: Seq<char>, needle: Seq<char>) -> bool {
    exists|i: int| occurs_at(hay, needle, i)
}

/// The character index of the first occurrence of `needle` in `hay`, if any.
pub fn find_sub(hay: &str, needle: &str) -> (r: Option<usize>)
    ensures
        match r {
            Some(i) => occurs_at(hay@, needle@, i as int) && (forall|j: int|
                0 <= j < i ==> !occurs_at(hay@, needle@, j)),
            None => !has_occurrence(hay@, needle@),
        },
{
    let hay_len = hay.unicode_len();
    let needle_len = needle.unicode_len();
    if needle_len > hay_len {
        return None;
    }
    if needle_len == 0 {
        proof {
            assert(hay@.subrange(0, 0) =~= needle@);
        }
        return Some(0);
    }
    let mut i: usize = 0;
    while i <= hay_len - needle_len
        invariant
            1 <= needle_len <= hay_len == hay@.len(),
            needle_len == needle@.len(),
            i <= hay_len - needle_len + 1,
            forall|j: int| 0 <= j < i ==> !occurs_at(hay@, needle@, j),
        decreases hay_len - needle_len - i + 1,
    {
        let mut j: usize = 0;
        let mut matched = true;
        while j < needle_len
            invariant
                needle_len <= hay_len == hay@.len(),
                needle_len == needle@.len(),
                i + needle_len <= hay_len,
                j <= needle_len,
                matched ==> hay@.subrange(i as int, i + j) =~= needle@.subrange(0, j as int),
                !matched ==> !occurs_at(hay@, needle@, i as int),
            decreases needle_len - j,
        {
            if matched {
                let hc = hay.get_char(i + j);
                let nc = needle.get_char(j);
                if hc != nc {
                    proof {
                        assert(hay@[i + j] != needle@[j as int]);
                        if occurs_at(hay@, needle@, i as int) {
                            assert(hay@.subrange(i as int, i + needle@.len())[j as int] == needle@[j as int]);
                        }
                    }
                    matched = false;
                } else {
                    proof {
                        assert(hay@.subrange(i as int, i + j + 1) =~= hay@.subrange(i as int, i + j).push(hay@[i + j]));
                        assert(needle@.subrange(0, j + 1) =~= needle@.subrange(0, j as int).push(needle@[j as int]));
                    }
                }
            }
            j += 1;
        }
        if matched {
            proof {
                assert(hay@.subrange(i as int, i + needle@.len()) =~= needle@.subrange(0, needle@.len() as int));
                assert(needle@.subrange(0, needle@.len() as int) =~= needle@);
            }
            return Some(i);
        }
        i += 1;
    }
    proof {
        assert forall|k: int| !occurs_at(hay@, needle@, k) by {
            if 0 <= k && k + needle@.len() <= hay@.len() {
                assert(k < i);
            }
        }
    }
    None
}

/// `i` is the first index at which `needle` occurs in `hay`.
pub open spec fn is_first_occurrence(hay: Seq<char>, needle: Seq<char>, i: int) -> bool {
    occurs_at(hay, needle, i) && (forall|j: int| 0 <= j < i ==> !occurs_at(hay, needle, j))
}

/// The first index at which `needle` occurs in `hay` (meaningful only
/// when it occurs at all).
pub open spec fn first_occurrence(hay: Seq<char>, needle: Seq<char>) -> int {
    choose|i: int| is_first_occurrence(hay, needle, i)
}

pub proof fn lemma_first_occurrence_is(hay: Seq<char>, needle: Seq<char>, i: int)
    requires
        is_first_occurrence(hay, needle, i),
    ensures
        first_occurrence(hay, needle) == i,
{
    assert(exists|k: int| is_first_occurrence(hay, needle, k)) by {
        assert(is_first_occurrence(hay, needle, i));
    }
    let w = first_occurrence(hay, needle);
    assert(is_first_occurrence(hay, needle, w));
    if w < i {
        assert(!occurs_at(hay, needle, w));
    } else if i < w {
        assert(!occurs_at(hay, needle, i));
    }
}

/// In `a + needle + t`, if `needle` occurs nowhere before the join point,
/// its first occurrence is exactly at the join point, and everything
/// before it is `a`.
pub proof fn lemma_occurrence_at_join(a: Seq<char>, needle: Seq<char>, t: Seq<char>)
    requires
        forall|j: int| 0 <= j < a.len() ==> !occurs_at(a + needle + t, needle, j),
    ensures
        has_occurrence(a + needle + t, needle),
        first_occurrence(a + needle + t, needle) == a.len(),
        (a + needle + t).subrange(0, a.len() as int) == a,
{
    let c = a + needle + t;
    assert(c.subrange(a.len() as int, a.len() as int + needle.len() as int) =~= needle);
    assert(occurs_at(c, needle, a.len() as int));
    lemma_first_occurrence_is(c, needle, a.len() as int);
    assert(c.subrange(0, a.len() as int) =~= a);
}

/// Whether `needle` occurs anywhere in `hay`.
pub fn contains_sub(hay: &str, needle: &str) -> (r: bool)
    ensures
        r == has_occurrence(hay@, needle@),
{
    match find_sub(hay, needle) {
        Some(_) => true,
        None => false,
    }
}

// ---------------------------------------------------------------------------
// Prefixes and truncation
// ---------------------------------------------------------------------------

/// The first `n` characters of `s`, or all of `s` if it is shorter.
pub open spec fn prefix_chars(s: Seq<char>, n: int) -> Seq<char> {
    if n <= s.len() {
        s.subrange(0, n)
    } else {
        s
    }
}

/// The first `n` characters of `s` as an owned string.
pub fn take_chars(s: &str, n: usize) -> (r: String)
    ensures
        r@ == prefix_chars(s@, n as int),
{
    let len = s.unicode_len();
    let end = if n <= len { n } else { len };
    let part = s.substring_char(0, end);
    proof {
        if n > len {
            assert(s@.subrange(0, len as int) =~= s@);
        }
    }
    String::from_str(part)
}

// ---------------------------------------------------------------------------
// Whitespace trimming
// ---------------------------------------------------------------------------

/// The whitespace characters that trimming removes.
pub open spec fn is_space(c: char) -> bool {
    c == ' ' || c == '\t' || c == '\n' || c == '\r'
}

pub fn is_space_char(c: char) -> (r: bool)
    ensures
        r == is_space(c),
{
    c == ' ' || c == '\t' || c == '\n' || c == '\r'
}

/// The number of leading whitespace characters of `s`.
pub open spec fn leading_spaces(s: Seq<char>) -> int
    decreases s.len(),
{
    if s.len() == 0 {
        0
    } else if is_space(s[0]) {
        1 + leading_spaces(s.drop_first())
    } else {
        0
    }
}

/// One past the last non-whitespace character of `s`, or 0 if there is none.
pub open spec fn trailing_start(s: Seq<char>) -> int
    decreases s.len(),
{
    if s.len() == 0 {
        0
    } else if is_space(s.last()) {
        trailing_start(s.drop_last())
    } else {
        s.len() as int
    }
}

/// `s` with leading and trailing whitespace removed.
pub open spec fn trimmed(s: Seq<char>) -> Seq<char> {
    if leading_spaces(s) < trailing_start(s) {
        s.subrange(leading_spaces(s), trailing_start(s))
    } else {
        Seq::<char>::empty()
    }
}

pub proof fn lemma_leading_spaces(s: Seq<char>)
    ensures
        0 <= leading_spaces(s) <= s.len(),
        forall|k: int| 0 <= k < leading_spaces(s) ==> is_space(#[trigger] s[k]),
        leading_spaces(s) < s.len() ==> !is_space(s[leading_spaces(s)]),
    decreases s.len(),
{
    if s.len() > 0 && is_space(s[0]) {
        lemma_leading_spaces(s.drop_first());
        assert forall|k: int| 0 <= k < leading_spaces(s) implies is_space(#[trigger] s[k]) by {
            if k > 0 {
                assert(s.drop_first()[k - 1] == s[k]);
            }
        }
    }
}

pub proof fn lemma_trailing_start(s: Seq<char>)
    ensures
        0 <= trailing_start(s) <= s.len(),
        forall|k: int| trailing_start(s) <= k < s.len() ==> is_space(#[trigger] s[k]),
        trailing_start(s) > 0 ==> !is_space(s[trailing_start(s) - 1]),
    decreases s.len(),
{
    if s.len() > 0 && is_space(s.last()) {
        lemma_trailing_start(s.drop_last());
        assert forall|k: int| trailing_start(s) <= k < s.len() implies is_space(#[trigger] s[k]) by {
            if k < s.len() - 1 {
                assert(s.drop_last()[k] == s[k]);
            }
        }
    }
}

/// `s` trimmed of leading and trailing whitespace, as an owned string.
pub fn trim_str(s: &str) -> (r: String)
    ensures
        r@ == trimmed(s@),
{
    proof {
        lemma_leading_spaces(s@);
        lemma_trailing_start(s@);
    }
    let len = s.unicode_len();
    let mut a: usize = 0;
    while a < len && is_space_char(s.get_char(a))
        invariant
            len == s@.len(),
            a <= len,
            forall|k: int| 0 <= k < a ==> is_space(#[trigger] s@[k]),
        decreases len - a,
    {
        a += 1;
    }
    proof {
        // `a` satisfies the same characterization as `leading_spaces`.
        if a < leading_spaces(s@) {
            assert(!is_space(s@[a as int]));
            assert(is_space(s@[a as int]));
        }
        if leading_spaces(s@) < a {
            assert(is_space(s@[leading_spaces(s@)]));
        }
        assert(a == leading_spaces(s@));
    }
    let mut b: usize = len;
    while b > a && is_space_char(s.get_char(b - 1))
        invariant
            len == s@.len(),
            a <= b <= len,
            a == leading_spaces(s@),
            forall|k: int| b <= k < len ==> is_space(#[trigger] s@[k]),
        decreases b,
    {
        b -= 1;
    }
    proof {
        if b > a {
            // b - 1 holds a non-space character, so every non-space index is
            // below b, and b - 1 itself is one: b matches trailing_start.
            if b < trailing_start(s@) {
                assert(is_space(s@[trailing_start(s@) - 1]));
                assert(!is_space(s@[trailing_start(s@) - 1]));
            }
            if trailing_start(s@) < b {
                assert(is_space(s@[b - 1]));
            }
            assert(b == trailing_start(s@));
        } else {
            // Everything from a on is space, and everything before a is
            // space, so the whole string is space and the trim is empty.
            assert forall|k: int| 0 <= k < s@.len() implies is_space(#[trigger] s@[k]) by {}
            if trailing_start(s@) > 0 {
                assert(is_space(s@[trailing_start(s@) - 1]));
            }
            assert(trailing_start(s@) == 0);
            assert(trimmed(s@) =~= Seq::<char>::empty());
        }
    }
    let part = s.substring_char(a, b);
    proof {
        if b <= a {
            assert(s@.subrange(a as int, b as int) =~= Seq::<char>::empty());
        }
    }
    String::from_str(part)
}

// ---------------------------------------------------------------------------
// Decimal rendering
// ---------------------------------------------------------------------------

/// The decimal digit character for `d`.
pub open spec fn digit_char(d: int) -> char {
    if d == 0 { '0' }
    else if d == 1 { '1' }
    else if d == 2 { '2' }
    else if d == 3 { '3' }
    else if d == 4 { '4' }
    else if d == 5 { '5' }
    else if d == 6 { '6' }
    else if d == 7 { '7' }
    else if d == 8 { '8' }
    else { '9' }
}

/// The decimal representation of `n`, most significant digit first.
pub open spec fn dec_str(n: int) -> Seq<char>
    decreases n,
{
    if n < 10 {
        seq![digit_char(n)]
    } else {
        dec_str(n / 10).push(digit_char(n % 10))
    }
}

fn digit_of(d: usize) -> (r: char)
    requires
        d < 10,
    ensures
        r == digit_char(d as int),
{
    if d == 0 { '0' }
    else if d == 1 { '1' }
    else if d == 2 { '2' }
    else if d == 3 { '3' }
    else if d == 4 { '4' }
    else if d == 5 { '5' }
    else if d == 6 { '6' }
    else if d == 7 { '7' }
    else if d == 8 { '8' }
    else { '9' }
}

/// Relies on String::push: appends the given character to the end of the
/// string.
#[verifier::external_body]
pub fn string_push(s: &mut String, c: char)
    ensures
        final(s)@ == old(s)@.push(c),
{
    s.push(c);
}

fn push_dec(s: &mut String, n: usize)
    ensures
        final(s)@ == old(s)@ + dec_str(n as int),
    decreases n,
{
    if n < 10 {
        string_push(s, digit_of(n));
        proof {
            assert(s@ =~= old(s)@ + dec_str(n as int));
        }
    } else {
        push_dec(s, n / 10);
        string_push(s, digit_of(n % 10));
        proof {
            assert(s@ =~= old(s)@ + dec_str(n as int));
        }
    }
}

/// The decimal rendering of `n`.
pub fn usize_to_string(n: usize) -> (r: String)
    ensures
        r@ == dec_str(n as int),
{
    let mut s = String::new();
    push_dec(&mut s, n);
    proof {
        assert(s@ =~= dec_str(n as int));
    }
    s
}

// ---------------------------------------------------------------------------
// Concatenation
// ---------------------------------------------------------------------------

/// The concatenation of two string slices as an owned string.
pub fn concat_strs(a: &str, b: &str) -> (r: String)
    ensures
        r@ == a@ + b@,
{
    let mut s = String::from_str(a);
    s.append(b);
    s
}

} // verus!
