//! Stash messages: trimming of surrounding whitespace, and the rule that a
//! message must not be empty once trimmed.

use crate::error::RenameError;
use crate::text::chars_of;
use vstd::prelude::*;

verus! {

/// Whether `c` is whitespace: a character with the Unicode property
/// `White_Space`.
pub open spec fn is_whitespace(c: char) -> bool {
    ||| '\u{9}' <= c <= '\u{d}'
    ||| c == ' '
    ||| c == '\u{85}'
    ||| c == '\u{a0}'
    ||| c == '\u{1680}'
    ||| '\u{2000}' <= c <= '\u{200a}'
    ||| c == '\u{2028}'
    ||| c == '\u{2029}'
    ||| c == '\u{202f}'
    ||| c == '\u{205f}'
    ||| c == '\u{3000}'
}

/// `s` without its leading whitespace.
pub open spec fn trim_start(s: Seq<char>) -> Seq<char>
    decreases s.len(),
{
    if s.len() > 0 && is_whitespace(s[0]) {
        trim_start(s.drop_first())
    } else {
        s
    }
}

/// `s` without its trailing whitespace.
pub open spec fn trim_end(s: Seq<char>) -> Seq<char>
    decreases s.len(),
{
    if s.len() > 0 && is_whitespace(s.last()) {
        trim_end(s.drop_last())
    } else {
        s
    }
}

/// `s` without its leading and trailing whitespace.
pub open spec fn trimmed(s: Seq<char>) -> Seq<char> {
    trim_end(trim_start(s))
}

/// Whether nothing is left of `s` once it is trimmed.
pub open spec fn is_blank(s: Seq<char>) -> bool {
    trimmed(s).len() == 0
}

/// Leading whitespace can be dropped in one go: where the first `k`
/// characters of `s` are whitespace, trimming the start of `s` is trimming
/// the start of what follows them.
pub proof fn lemma_trim_start_skip(s: Seq<char>, k: int)
    requires
        0 <= k <= s.len(),
        forall|i: int| 0 <= i < k ==> is_whitespace(s[i]),
    ensures
        trim_start(s) == trim_start(s.skip(k)),
    decreases k,
{
    if k == 0 {
        assert(s.skip(0) =~= s);
    } else {
        lemma_trim_start_skip(s.drop_first(), k - 1);
        assert(s.drop_first().skip(k - 1) =~= s.skip(k));
    }
}

/// Trailing whitespace can be dropped in one go: where every character of
/// `s` from index `k` on is whitespace, trimming the end of `s` is trimming
/// the end of what precedes them.
pub proof fn lemma_trim_end_take(s: Seq<char>, k: int)
    requires
        0 <= k <= s.len(),
        forall|i: int| k <= i < s.len() ==> is_whitespace(s[i]),
    ensures
        trim_end(s) == trim_end(s.take(k)),
    decreases s.len() - k,
{
    if k == s.len() {
        assert(s.take(k) =~= s);
    } else {
        lemma_trim_end_take(s.drop_last(), k);
        assert(s.drop_last().take(k) =~= s.take(k));
    }
}

/// What trimming the start removes: the index `k` at which the leading
/// whitespace of `s` ends.
pub proof fn lemma_trim_start_bounds(s: Seq<char>) -> (k: int)
    ensures
        0 <= k <= s.len(),
        trim_start(s) == s.skip(k),
        forall|i: int| 0 <= i < k ==> is_whitespace(s[i]),
        k < s.len() ==> !is_whitespace(s[k]),
    decreases s.len(),
{
    if s.len() > 0 && is_whitespace(s[0]) {
        let rest = lemma_trim_start_bounds(s.drop_first());
        assert forall|i: int| 0 <= i < rest + 1 implies is_whitespace(s[i]) by {
            if i > 0 {
                assert(s[i] == s.drop_first()[i - 1]);
            }
        }
        rest + 1
    } else {
        0
    }
}

/// What trimming the end keeps: the index `k` at which the trailing
/// whitespace of `s` begins.
pub proof fn lemma_trim_end_bounds(s: Seq<char>) -> (k: int)
    ensures
        0 <= k <= s.len(),
        trim_end(s) == s.take(k),
        forall|i: int| k <= i < s.len() ==> is_whitespace(s[i]),
        k > 0 ==> !is_whitespace(s[k - 1]),
    decreases s.len(),
{
    if s.len() > 0 && is_whitespace(s.last()) {
        let k = lemma_trim_end_bounds(s.drop_last());
        assert forall|i: int| k <= i < s.len() implies is_whitespace(s[i]) by {
            if i < s.len() - 1 {
                assert(s[i] == s.drop_last()[i]);
            }
        }
        k
    } else {
        s.len() as int
    }
}

/// A trimmed message neither starts nor ends with whitespace.
pub proof fn lemma_trimmed_edges(s: Seq<char>)
    ensures
        trimmed(s).len() > 0 ==> !is_whitespace(trimmed(s)[0]) && !is_whitespace(
            trimmed(s).last(),
        ),
{
    let a = lemma_trim_start_bounds(s);
    let b = lemma_trim_end_bounds(s.skip(a));
}

/// Trimming a trimmed message changes nothing.
pub proof fn lemma_trimmed_twice(s: Seq<char>)
    ensures
        trimmed(trimmed(s)) == trimmed(s),
{
    lemma_trimmed_edges(s);
}

/// A message is blank exactly when it holds nothing but whitespace.
pub proof fn lemma_blank_is_all_whitespace(s: Seq<char>)
    ensures
        is_blank(s) <==> forall|i: int| 0 <= i < s.len() ==> is_whitespace(s[i]),
{
    let a = lemma_trim_start_bounds(s);
    let b = lemma_trim_end_bounds(s.skip(a));
    if a < s.len() {
        assert(s.skip(a)[0] == s[a]);
    }
}

/// Whether `c` is whitespace.
pub fn is_whitespace_char(c: char) -> (b: bool)
    ensures
        b == is_whitespace(c),
{
    ('\u{9}' <= c && c <= '\u{d}') || c == ' ' || c == '\u{85}' || c == '\u{a0}' || c
        == '\u{1680}' || ('\u{2000}' <= c && c <= '\u{200a}') || c == '\u{2028}' || c
        == '\u{2029}' || c == '\u{202f}' || c == '\u{205f}' || c == '\u{3000}'
}

/// `message` without its leading and trailing whitespace.
pub fn trim_message(message: &str) -> (t: String)
    ensures
        t@ == trimmed(message@),
{
    let chars = chars_of(message);
    let n = chars.len();
    let mut start: usize = 0;
    while start < n && is_whitespace_char(chars[start])
        invariant
            n == chars@.len(),
            start <= n,
            forall|i: int| 0 <= i < start ==> is_whitespace(chars@[i]),
        decreases n - start,
    {
        start += 1;
    }
    let mut end: usize = n;
    while end > start && is_whitespace_char(chars[end - 1])
        invariant
            n == chars@.len(),
            start <= end <= n,
            forall|i: int| end <= i < n ==> is_whitespace(chars@[i]),
        decreases end,
    {
        end -= 1;
    }
    proof {
        lemma_trim_start_skip(message@, start as int);
        lemma_trim_end_take(message@.skip(start as int), end - start);
    }
    message.substring_char(start, end).to_owned()
}

/// The message under which a stash is recorded: `message` trimmed, which
/// must leave something.
pub fn checked_message(message: &str) -> (r: Result<String, RenameError>)
    ensures
        match r {
            Ok(t) => !is_blank(message@) && t@ == trimmed(message@),
            Err(e) => is_blank(message@) && e == RenameError::EmptyMessage,
        },
{
    let t = trim_message(message);
    if t.as_str().is_empty() {
        Err(RenameError::EmptyMessage)
    } else {
        Ok(t)
    }
}

} // verus!
