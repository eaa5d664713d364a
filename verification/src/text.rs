//! Comparison and trimming of texts over their characters.

use vstd::prelude::*;

verus! {

/// `s` without the longest prefix whose characters all satisfy `p`.
pub open spec fn strip_start(s: Seq<char>, p: spec_fn(char) -> bool) -> Seq<char>
    decreases s.len(),
{
    if s.len() > 0 && p(s[0]) {
        strip_start(s.drop_first(), p)
    } else {
        s
    }
}

/// `s` without the longest suffix whose characters all satisfy `p`.
pub open spec fn strip_end(s: Seq<char>, p: spec_fn(char) -> bool) -> Seq<char>
    decreases s.len(),
{
    if s.len() > 0 && p(s.last()) {
        strip_end(s.drop_last(), p)
    } else {
        s
    }
}

/// The characters with the Unicode property `White_Space`.
pub open spec fn is_white_space(c: char) -> bool {
    ||| '\u{9}' <= c <= '\u{d}'
    ||| c == ' '
    ||| c == '\u{85}'
    ||| c == '\u{a0}'
    ||| c == '\u{1680}'
    ||| '\u{2000}' <= c <= '\u{200a}'
    ||| c == '\u{2028}'
    ||| c == '\u{2029}'
    ||| c == '\u{202f}'
    ||| c == '\u{205f}'
    ||| c == '\u{3000}'
}

pub open spec fn white_space() -> spec_fn(char) -> bool {
    |c: char| is_white_space(c)
}

/// `s` without leading and trailing white space.
pub open spec fn trimmed(s: Seq<char>) -> Seq<char> {
    strip_end(strip_start(s, white_space()), white_space())
}

pub open spec fn slash() -> spec_fn(char) -> bool {
    |c: char| c == '/'
}

/// Whether `c` has the Unicode property `White_Space`.
pub fn is_space(c: char) -> (r: bool)
    ensures
        r == is_white_space(c),
{
    ('\u{9}' <= c && c <= '\u{d}') || c == ' ' || c == '\u{85}' || c == '\u{a0}' || c == '\u{1680}'
        || ('\u{2000}' <= c && c <= '\u{200a}') || c == '\u{2028}' || c == '\u{2029}'
        || c == '\u{202f}' || c == '\u{205f}' || c == '\u{3000}'
}

/// The characters of `s`.
pub fn chars_of(s: &str) -> (r: Vec<char>)
    ensures
        r@ == s@,
{
    let mut out: Vec<char> = Vec::new();
    for c in it: s.chars()
        invariant
            it.seq() == s@,
            out@ == s@.take(it.index() as int),
    {
        out.push(c);
    }
    assert(s@.take(s@.len() as int) == s@);
    out
}

/// Stripping the start drops exactly the first `k` characters when those, and not the one
/// that follows them, satisfy `p`.
pub proof fn lemma_strip_start(s: Seq<char>, p: spec_fn(char) -> bool, k: int)
    requires
        0 <= k <= s.len(),
        forall|i: int| 0 <= i < k ==> p(#[trigger] s[i]),
        k < s.len() ==> !p(s[k]),
    ensures
        strip_start(s, p) == s.skip(k),
    decreases k,
{
    if k > 0 {
        assert(s.drop_first().skip(k - 1) == s.skip(k));
        assert forall|i: int| 0 <= i < k - 1 implies p(#[trigger] s.drop_first()[i]) by {
            assert(s.drop_first()[i] == s[i + 1]);
        }
        lemma_strip_start(s.drop_first(), p, k - 1);
    } else {
        assert(s.skip(0) == s);
    }
}

/// Stripping the end keeps exactly the first `k` characters when those after them satisfy `p`
/// and the last one kept does not.
pub proof fn lemma_strip_end(s: Seq<char>, p: spec_fn(char) -> bool, k: int)
    requires
        0 <= k <= s.len(),
        forall|i: int| k <= i < s.len() ==> p(#[trigger] s[i]),
        k > 0 ==> !p(s[k - 1]),
    ensures
        strip_end(s, p) == s.take(k),
    decreases s.len() - k,
{
    if k < s.len() {
        assert(s.drop_last().take(k) == s.take(k));
        lemma_strip_end(s.drop_last(), p, k);
    } else {
        assert(s.take(k) == s);
    }
}

/// Concatenation does not depend on how the parts are grouped.
pub proof fn lemma_concat(a: Seq<char>, b: Seq<char>, c: Seq<char>)
    ensures
        a + (b + c) == (a + b) + c,
{
    assert(a + (b + c) =~= (a + b) + c);
}

/// What stripping the start leaves is a suffix that does not begin with such a character.
pub proof fn lemma_stripped_start(s: Seq<char>, p: spec_fn(char) -> bool)
    ensures
        strip_start(s, p).is_suffix_of(s),
        strip_start(s, p).len() > 0 ==> !p(strip_start(s, p)[0]),
    decreases s.len(),
{
    if s.len() > 0 && p(s[0]) {
        lemma_stripped_start(s.drop_first(), p);
    }
}

/// What stripping the end leaves is a prefix that does not end with such a character.
pub proof fn lemma_stripped_end(s: Seq<char>, p: spec_fn(char) -> bool)
    ensures
        strip_end(s, p).is_prefix_of(s),
        strip_end(s, p).len() > 0 ==> !p(strip_end(s, p).last()),
    decreases s.len(),
{
    if s.len() > 0 && p(s.last()) {
        lemma_stripped_end(s.drop_last(), p);
    }
}

/// Trimming a trimmed text changes nothing.
pub proof fn law_trimming_is_idempotent(s: Seq<char>)
    ensures
        trimmed(trimmed(s)) == trimmed(s),
{
    let p = white_space();
    lemma_stripped_start(s, p);
    let t = strip_start(s, p);
    lemma_stripped_end(t, p);
}

/// `s` without leading and trailing white space.
pub fn trim(s: &str) -> (r: String)
    ensures
        r@ == trimmed(s@),
{
    let chars: Vec<char> = chars_of(s);
    let mut start: usize = 0;
    while start < chars.len() && is_space(chars[start])
        invariant
            start <= chars.len(),
            forall|i: int| 0 <= i < start ==> is_white_space(#[trigger] chars@[i]),
        decreases chars.len() - start,
    {
        start = start + 1;
    }
    let mut end: usize = chars.len();
    while start < end && is_space(chars[end - 1])
        invariant
            start <= end <= chars.len(),
            forall|i: int| end <= i < chars.len() ==> is_white_space(#[trigger] chars@[i]),
        decreases end,
    {
        end = end - 1;
    }
    proof {
        lemma_strip_start(s@, white_space(), start as int);
        lemma_strip_end(s@.skip(start as int), white_space(), end - start);
        assert(s@.skip(start as int).take(end - start) == s@.subrange(start as int, end as int));
    }
    s.substring_char(start, end).to_string()
}

/// `s` without leading slashes and, where `both_ends` holds, without trailing ones.
fn strip_slashes(s: &str, both_ends: bool) -> (r: String)
    ensures
        r@ == if both_ends {
            strip_end(strip_start(s@, slash()), slash())
        } else {
            strip_start(s@, slash())
        },
{
    let chars: Vec<char> = chars_of(s);
    let mut start: usize = 0;
    while start < chars.len() && chars[start] == '/'
        invariant
            start <= chars.len(),
            forall|i: int| 0 <= i < start ==> #[trigger] chars@[i] == '/',
        decreases chars.len() - start,
    {
        start = start + 1;
    }
    let mut end: usize = chars.len();
    while both_ends && start < end && chars[end - 1] == '/'
        invariant
            start <= end <= chars.len(),
            !both_ends ==> end == chars.len(),
            forall|i: int| end <= i < chars.len() ==> #[trigger] chars@[i] == '/',
        decreases end,
    {
        end = end - 1;
    }
    proof {
        lemma_strip_start(s@, slash(), start as int);
        assert(s@.skip(start as int).take(end - start) == s@.subrange(start as int, end as int));
        if both_ends {
            lemma_strip_end(s@.skip(start as int), slash(), end - start);
        } else {
            assert(s@.skip(start as int) == s@.subrange(start as int, end as int));
        }
    }
    s.substring_char(start, end).to_string()
}

/// `s` without the slashes at both ends.
pub fn trim_slashes(s: &str) -> (r: String)
    ensures
        r@ == strip_end(strip_start(s@, slash()), slash()),
{
    strip_slashes(s, true)
}

/// `s` without the slashes at its start.
pub fn trim_start_slashes(s: &str) -> (r: String)
    ensures
        r@ == strip_start(s@, slash()),
{
    strip_slashes(s, false)
}

/// Whether two strings hold the same characters.
pub fn same_text(a: &str, b: &str) -> (r: bool)
    ensures
        r == (a@ == b@),
{
    let left: Vec<char> = chars_of(a);
    let right: Vec<char> = chars_of(b);
    if left.len() != right.len() {
        return false;
    }
    let mut i: usize = 0;
    while i < left.len()
        invariant
            i <= left.len(),
            left.len() == right.len(),
            left@ == a@,
            right@ == b@,
            left@.take(i as int) == right@.take(i as int),
        decreases left.len() - i,
    {
        if left[i] != right[i] {
            return false;
        }
        i = i + 1;
        assert(left@.take(i as int) == left@.take(i - 1).push(left@[i - 1]));
        assert(right@.take(i as int) == right@.take(i - 1).push(right@[i - 1]));
    }
    assert(left@.take(i as int) == left@);
    assert(right@.take(i as int) == right@);
    true
}

/// Whether `s` ends with the characters of `suffix`.
pub fn ends_with(s: &str, suffix: &str) -> (r: bool)
    ensures
        r == suffix@.is_suffix_of(s@),
{
    let total: usize = s.unicode_len();
    let tail: usize = suffix.unicode_len();
    if tail > total {
        return false;
    }
    same_text(s.substring_char(total - tail, total), suffix)
}

/// The lower-case form of an ASCII letter; any other character itself.
pub open spec fn ascii_lower(c: char) -> char {
    if 'A' <= c <= 'Z' {
        ((c as u32) + 32) as char
    } else {
        c
    }
}

/// Equality of two texts up to the case of ASCII letters.
pub open spec fn same_ignoring_case(a: Seq<char>, b: Seq<char>) -> bool {
    &&& a.len() == b.len()
    &&& forall|i: int| 0 <= i < a.len() ==> ascii_lower(#[trigger] a[i]) == ascii_lower(b[i])
}

/// The lower-case form of an ASCII letter; any other character itself.
fn lower(c: char) -> (r: char)
    ensures
        r == ascii_lower(c),
{
    if 'A' <= c && c <= 'Z' {
        ((c as u8) + 32) as char
    } else {
        c
    }
}

/// Whether two strings are equal up to the case of ASCII letters.
pub fn equals_ignoring_case(a: &str, b: &str) -> (r: bool)
    ensures
        r == same_ignoring_case(a@, b@),
{
    let left: Vec<char> = chars_of(a);
    let right: Vec<char> = chars_of(b);
    if left.len() != right.len() {
        return false;
    }
    let mut i: usize = 0;
    while i < left.len()
        invariant
            i <= left.len(),
            left.len() == right.len(),
            left@ == a@,
            right@ == b@,
            forall|j: int|
                0 <= j < i ==> ascii_lower(#[trigger] a@[j]) == ascii_lower(b@[j]),
        decreases left.len() - i,
    {
        if lower(left[i]) != lower(right[i]) {
            assert(ascii_lower(a@[i as int]) != ascii_lower(b@[i as int]));
            return false;
        }
        i = i + 1;
    }
    true
}

/// Trimming takes white space away at both ends and nothing else: what is left is what stands
/// between, it neither begins nor ends with white space, and of a blank text nothing is left.
pub proof fn law_trimming_takes_only_outer_space(s: Seq<char>)
    ensures
        exists|i: int, j: int|
            {
                &&& 0 <= i <= j <= s.len()
                &&& trimmed(s) == #[trigger] s.subrange(i, j)
                &&& forall|k: int| 0 <= k < i ==> is_white_space(#[trigger] s[k])
                &&& forall|k: int| j <= k < s.len() ==> is_white_space(#[trigger] s[k])
                &&& i < j ==> !is_white_space(s[i]) && !is_white_space(s[j - 1])
            },
{
    let p = white_space();
    let t = strip_start(s, p);
    lemma_stripped_start(s, p);
    lemma_stripped_end(t, p);
    lemma_stripped_away(s, p);
    let i = s.len() - t.len();
    let j = i + strip_end(t, p).len();
    assert(t == s.skip(i));
    assert(trimmed(s) =~= s.subrange(i, j));
    assert forall|k: int| j <= k < s.len() implies is_white_space(#[trigger] s[k]) by {
        lemma_stripped_away(t, p);
        assert(t[k - i] == s[k]);
        assert(p(t[k - i]));
    }
    assert forall|k: int| 0 <= k < i implies is_white_space(#[trigger] s[k]) by {
        assert(p(s[k]));
    }
    if i < j {
        assert(t[0] == s[i]);
        assert(strip_end(t, p).last() == t[j - i - 1]);
        assert(strip_end(t, p)[0] == t[0]);
    }
}

/// What stripping takes away are such characters.
proof fn lemma_stripped_away(s: Seq<char>, p: spec_fn(char) -> bool)
    ensures
        strip_start(s, p).len() <= s.len(),
        strip_end(s, p).len() <= s.len(),
        forall|k: int| 0 <= k < s.len() - strip_start(s, p).len() ==> p(#[trigger] s[k]),
        forall|k: int| strip_end(s, p).len() <= k < s.len() ==> p(#[trigger] s[k]),
    decreases s.len(),
{
    if s.len() > 0 && p(s[0]) {
        lemma_stripped_away(s.drop_first(), p);
        assert forall|k: int| 0 <= k < s.len() - strip_start(s, p).len() implies p(
            #[trigger] s[k],
        ) by {
            if k > 0 {
                assert(s.drop_first()[k - 1] == s[k]);
            }
        }
    }
    if s.len() > 0 && p(s.last()) {
        lemma_stripped_away(s.drop_last(), p);
        assert forall|k: int| strip_end(s, p).len() <= k < s.len() implies p(#[trigger] s[k]) by {
            if k < s.len() - 1 {
                assert(s.drop_last()[k] == s[k]);
            }
        }
    }
}

/// A text that neither begins nor ends with white space is trimmed already.
pub proof fn law_text_without_outer_space_stays(s: Seq<char>)
    requires
        s.len() > 0 ==> !is_white_space(s[0]) && !is_white_space(s.last()),
    ensures
        trimmed(s) == s,
{
}

/// Something is left of a text exactly when it holds anything but white space.
pub proof fn law_only_blank_texts_trim_to_nothing(s: Seq<char>)
    ensures
        trimmed(s).len() > 0 <==> exists|k: int|
            0 <= k < s.len() && !is_white_space(#[trigger] s[k]),
{
    law_trimming_takes_only_outer_space(s);
    let (i, j) = choose|i: int, j: int|
        {
            &&& 0 <= i <= j <= s.len()
            &&& trimmed(s) == #[trigger] s.subrange(i, j)
            &&& forall|k: int| 0 <= k < i ==> is_white_space(#[trigger] s[k])
            &&& forall|k: int| j <= k < s.len() ==> is_white_space(#[trigger] s[k])
            &&& i < j ==> !is_white_space(s[i]) && !is_white_space(s[j - 1])
        };
    assert(trimmed(s).len() == j - i);
    if i < j {
        assert(!is_white_space(s[i]));
    }
}

/// Two texts are the same up to case exactly when they are as long as each other and each pair of
/// characters is one character, or the two forms of one of the letters from A to Z.
pub proof fn law_only_ascii_letters_have_case(a: Seq<char>, b: Seq<char>)
    ensures
        same_ignoring_case(a, b) <==> a.len() == b.len() && forall|i: int|
            0 <= i < a.len() ==> {
                ||| #[trigger] a[i] == b[i]
                ||| 'A' <= a[i] <= 'Z' && b[i] as int == a[i] as int + 32
                ||| 'A' <= b[i] <= 'Z' && a[i] as int == b[i] as int + 32
            },
{
    if a.len() == b.len() {
        assert forall|i: int| 0 <= i < a.len() implies (ascii_lower(#[trigger] a[i])
            == ascii_lower(b[i]) <==> {
            ||| a[i] == b[i]
            ||| 'A' <= a[i] <= 'Z' && b[i] as int == a[i] as int + 32
            ||| 'A' <= b[i] <= 'Z' && a[i] as int == b[i] as int + 32
        }) by {
            lemma_lower(a[i]);
            lemma_lower(b[i]);
        }
    }
}

/// The lower-case form as a number.
proof fn lemma_lower(c: char)
    ensures
        'A' <= c <= 'Z' ==> ascii_lower(c) as int == c as int + 32,
        !('A' <= c <= 'Z') ==> ascii_lower(c) == c,
{
}

} // verus!
