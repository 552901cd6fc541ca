//! Text primitives: comparison, blank detection, concatenation and literal
//! substring replacement, all stated over sequences of characters.

use vstd::prelude::*;

verus! {

/// `pattern` stands in `s` at position `at`.
pub open spec fn occurs_at(s: Seq<char>, pattern: Seq<char>, at: int) -> bool {
    &&& 0 <= at
    &&& at + pattern.len() <= s.len()
    &&& s.subrange(at, at + pattern.len()) == pattern
}

/// `pattern` stands somewhere in `s`.
pub open spec fn occurs_in(s: Seq<char>, pattern: Seq<char>) -> bool {
    exists|at: int| occurs_at(s, pattern, at)
}

/// `s` with every occurrence of `pattern` replaced by `replacement`.
///
/// Occurrences are found from the left and do not overlap. The empty pattern
/// occurs before every character and at the end.
pub open spec fn replaced(s: Seq<char>, pattern: Seq<char>, replacement: Seq<char>) -> Seq<char>
    decreases s.len(),
{
    if pattern.len() == 0 {
        if s.len() == 0 {
            replacement
        } else {
            replacement + s.take(1) + replaced(s.skip(1), pattern, replacement)
        }
    } else if occurs_at(s, pattern, 0) {
        replacement + replaced(s.skip(pattern.len() as int), pattern, replacement)
    } else if s.len() == 0 {
        s
    } else {
        s.take(1) + replaced(s.skip(1), pattern, replacement)
    }
}

/// The characters with the Unicode property White_Space.
pub open spec fn is_space(c: char) -> bool {
    let code = c as u32;
    ||| 0x09 <= code <= 0x0D
    ||| code == 0x20
    ||| code == 0x85
    ||| code == 0xA0
    ||| code == 0x1680
    ||| 0x2000 <= code <= 0x200A
    ||| code == 0x2028
    ||| code == 0x2029
    ||| code == 0x202F
    ||| code == 0x205F
    ||| code == 0x3000
}

/// A text is blank when it holds nothing but white space.
pub open spec fn blank(s: Seq<char>) -> bool {
    forall|i: int| 0 <= i < s.len() ==> is_space(#[trigger] s[i])
}

/// The texts of a list of strings.
pub open spec fn texts_of(strings: Seq<String>) -> Seq<Seq<char>> {
    Seq::new(strings.len(), |i: int| strings[i]@)
}

/// The characters of `s`, in order.
pub fn chars_of(s: &str) -> (chars: Vec<char>)
    ensures
        chars@ == s@,
{
    let mut chars: Vec<char> = Vec::new();
    for c in it: s.chars()
        invariant
            it.seq() == s@,
            chars@ == it.seq().take(it.index() as int),
    {
        chars.push(c);
    }
    chars
}

/// Whether two texts hold the same characters.
pub fn same_text(a: &str, b: &str) -> (same: bool)
    ensures
        same == (a@ == b@),
{
    let left: String = a.to_owned();
    let right: String = b.to_owned();
    left == right
}

/// `a` followed by `b`.
pub fn joined(a: &str, b: &str) -> (out: String)
    ensures
        out@ == a@ + b@,
{
    let mut out: String = a.to_owned();
    out.append(b);
    out
}

/// A copy of a list of strings.
pub fn copy_texts(strings: &Vec<String>) -> (copies: Vec<String>)
    ensures
        texts_of(copies@) == texts_of(strings@),
{
    let mut copies: Vec<String> = Vec::new();
    let mut i: usize = 0;
    while i < strings.len()
        invariant
            i <= strings.len(),
            copies.len() == i,
            forall|k: int| 0 <= k < i ==> copies@[k]@ == strings@[k]@,
        decreases strings.len() - i,
    {
        copies.push(strings[i].clone());
        i += 1;
    }
    assert(texts_of(copies@) =~= texts_of(strings@));
    copies
}

/// Whether `c` is white space.
pub fn is_whitespace(c: char) -> (b: bool)
    ensures
        b == is_space(c),
{
    let code: u32 = c as u32;
    (0x09 <= code && code <= 0x0D) || code == 0x20 || code == 0x85 || code == 0xA0 || code
        == 0x1680 || (0x2000 <= code && code <= 0x200A) || code == 0x2028 || code == 0x2029 || code
        == 0x202F || code == 0x205F || code == 0x3000
}

/// Whether `s` is empty or holds only white space.
pub fn is_blank(s: &str) -> (b: bool)
    ensures
        b == blank(s@),
{
    let chars: Vec<char> = chars_of(s);
    let mut i: usize = 0;
    while i < chars.len()
        invariant
            i <= chars.len(),
            chars@ == s@,
            forall|k: int| 0 <= k < i ==> is_space(#[trigger] chars@[k]),
        decreases chars.len() - i,
    {
        if !is_whitespace(chars[i]) {
            return false;
        }
        i += 1;
    }
    true
}

/// Whether `pattern` stands in `text` at position `at`.
pub fn matches_at(text: &Vec<char>, pattern: &Vec<char>, at: usize) -> (found: bool)
    ensures
        found == occurs_at(text@, pattern@, at as int),
{
    if at > text.len() || text.len() - at < pattern.len() {
        return false;
    }
    let mut k: usize = 0;
    while k < pattern.len()
        invariant
            k <= pattern.len(),
            at + pattern.len() <= text.len(),
            forall|j: int| 0 <= j < k ==> text@[at + j] == pattern@[j],
        decreases pattern.len() - k,
    {
        if text[at + k] != pattern[k] {
            assert(text@.subrange(at as int, at + pattern.len())[k as int] != pattern@[k as int]);
            return false;
        }
        k += 1;
    }
    assert(text@.subrange(at as int, at + pattern.len()) =~= pattern@);
    true
}

/// Replaces every occurrence of `pattern` in `s` by `replacement`.
pub fn replace_all(s: &str, pattern: &str, replacement: &str) -> (out: String)
    ensures
        out@ == replaced(s@, pattern@, replacement@),
{
    let text: Vec<char> = chars_of(s);
    let pat: Vec<char> = chars_of(pattern);
    let n: usize = text.len();
    let m: usize = pat.len();
    let mut out: String = String::new();
    let mut i: usize = 0;
    proof {
        let whole = replaced(s@, pattern@, replacement@);
        assert(s@.skip(0) =~= s@);
        assert(out@ + whole =~= whole);
        assert(out@ + s@.subrange(0, 0) + whole =~= whole);
    }
    if m == 0 {
        while i < n
            invariant
                i <= n,
                n == s@.len(),
                pattern@.len() == 0,
                out@ + replaced(s@.skip(i as int), pattern@, replacement@) == replaced(
                    s@,
                    pattern@,
                    replacement@,
                ),
            decreases n - i,
        {
            let ghost rest = s@.skip(i as int);
            assert(rest.take(1) =~= s@.subrange(i as int, i + 1));
            assert(rest.skip(1) =~= s@.skip(i + 1));
            let ghost tail = replaced(rest.skip(1), pattern@, replacement@);
            assert(out@ + (replacement@ + rest.take(1) + tail) =~= out@ + replacement@ + rest.take(
                1,
            ) + tail);
            out.append(replacement);
            out.append(s.substring_char(i, i + 1));
            i += 1;
        }
        assert(s@.skip(n as int).len() == 0);
        out.append(replacement);
        return out;
    }
    let mut from: usize = 0;
    while i < n
        invariant
            from <= i <= n,
            n == s@.len(),
            m == pattern@.len(),
            m > 0,
            text@ == s@,
            pat@ == pattern@,
            out@ + s@.subrange(from as int, i as int) + replaced(
                s@.skip(i as int),
                pattern@,
                replacement@,
            ) == replaced(s@, pattern@, replacement@),
        decreases n - i,
    {
        let ghost rest = s@.skip(i as int);
        let ghost pending = s@.subrange(from as int, i as int);
        if matches_at(&text, &pat, i) {
            assert(rest.subrange(0, m as int) =~= s@.subrange(i as int, i + m));
            assert(rest.skip(m as int) =~= s@.skip(i + m));
            let ghost tail = replaced(rest.skip(m as int), pattern@, replacement@);
            assert(out@ + pending + (replacement@ + tail) =~= out@ + pending + replacement@
                + s@.subrange(i + m, i + m) + tail);
            out.append(s.substring_char(from, i));
            out.append(replacement);
            i += m;
            from = i;
        } else {
            assert(!occurs_at(rest, pattern@, 0)) by {
                if occurs_at(rest, pattern@, 0) {
                    assert(rest.subrange(0, m as int) =~= s@.subrange(i as int, i + m));
                }
            }
            assert(rest.skip(1) =~= s@.skip(i + 1));
            let ghost tail = replaced(rest.skip(1), pattern@, replacement@);
            assert(out@ + pending + (rest.take(1) + tail) =~= out@ + s@.subrange(
                from as int,
                i + 1,
            ) + tail);
            i += 1;
        }
    }
    assert(s@.skip(n as int).len() == 0);
    out.append(s.substring_char(from, n));
    out
}

/// A text in which the pattern does not occur is left as it is.
pub proof fn lemma_replaced_absent(s: Seq<char>, pattern: Seq<char>, replacement: Seq<char>)
    requires
        !occurs_in(s, pattern),
    ensures
        replaced(s, pattern, replacement) == s,
    decreases s.len(),
{
    if pattern.len() == 0 {
        assert(s.subrange(0, 0) =~= pattern);
        assert(occurs_at(s, pattern, 0));
    } else if s.len() > 0 {
        assert(!occurs_at(s, pattern, 0));
        let rest = s.skip(1);
        assert forall|at: int| !occurs_at(rest, pattern, at) by {
            if occurs_at(rest, pattern, at) {
                assert(rest.subrange(at, at + pattern.len()) =~= s.subrange(
                    at + 1,
                    at + 1 + pattern.len(),
                ));
                assert(occurs_at(s, pattern, at + 1));
            }
        }
        lemma_replaced_absent(rest, pattern, replacement);
        assert(s.take(1) + rest =~= s);
    }
}

/// The first occurrence of the pattern is replaced, and the text before it
/// stays: where `before` is so short that the pattern does not occur before
/// the place at which it is written out, the text `before + pattern + after`
/// becomes `before + replacement` followed by what `after` becomes.
pub proof fn lemma_replaced_first_occurrence(
    before: Seq<char>,
    after: Seq<char>,
    pattern: Seq<char>,
    replacement: Seq<char>,
)
    requires
        pattern.len() > 0,
        !occurs_in(before + pattern.drop_last(), pattern),
    ensures
        replaced(before + pattern + after, pattern, replacement) == before + replacement
            + replaced(after, pattern, replacement),
    decreases before.len(),
{
    let s = before + pattern + after;
    if before.len() == 0 {
        assert(s.subrange(0, pattern.len() as int) =~= pattern);
        assert(s.skip(pattern.len() as int) =~= after);
        assert(before + replacement + replaced(after, pattern, replacement) =~= replacement
            + replaced(after, pattern, replacement));
    } else {
        let head = before + pattern.drop_last();
        assert(!occurs_at(s, pattern, 0)) by {
            if occurs_at(s, pattern, 0) {
                assert(head.subrange(0, pattern.len() as int) =~= s.subrange(
                    0,
                    pattern.len() as int,
                ));
                assert(occurs_at(head, pattern, 0));
            }
        }
        let rest = before.skip(1);
        assert forall|at: int| !occurs_at(rest + pattern.drop_last(), pattern, at) by {
            if occurs_at(rest + pattern.drop_last(), pattern, at) {
                assert((rest + pattern.drop_last()).subrange(at, at + pattern.len())
                    =~= head.subrange(at + 1, at + 1 + pattern.len()));
                assert(occurs_at(head, pattern, at + 1));
            }
        }
        lemma_replaced_first_occurrence(rest, after, pattern, replacement);
        assert(s.skip(1) =~= rest + pattern + after);
        assert(s.take(1) + (rest + replacement + replaced(after, pattern, replacement))
            =~= before + replacement + replaced(after, pattern, replacement));
    }
}

} // verus!
