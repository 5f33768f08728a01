//! Small verified text utilities shared by the tokenizer and the dispatcher.

use vstd::prelude::*;
use crate::tokenizer::is_shell_space;

verus! {

/// Relies on `String::push`: appends the given character to the end of the
/// string.
#[verifier::external_body]
pub(crate) fn push_char(s: &mut String, c: char)
    ensures
        final(s)@ == old(s)@.push(c),
{
    s.push(c)
}

/// Character-for-character string equality, decided without any trusted call.
pub fn str_eq(a: &str, b: &str) -> (r: bool)
    ensures
        r == (a@ == b@),
{
    let an = a.unicode_len();
    let bn = b.unicode_len();
    if an != bn {
        return false;
    }
    let mut i: usize = 0;
    while i < an
        invariant
            i <= an,
            an == a@.len(),
            an == b@.len(),
            forall|j: int| 0 <= j < i ==> a@[j] == b@[j],
        decreases an - i,
    {
        if a.get_char(i) != b.get_char(i) {
            return false;
        }
        i = i + 1;
    }
    proof {
        assert(a@ =~= b@);
    }
    true
}

/// `s` with every trailing whitespace character removed.
pub open spec fn spec_trim_end(s: Seq<char>) -> Seq<char>
    decreases s.len(),
{
    if s.len() == 0 {
        s
    } else if is_shell_space(s.last()) {
        spec_trim_end(s.drop_last())
    } else {
        s
    }
}

proof fn lemma_trim_end_take(s: Seq<char>, end: int)
    requires
        0 <= end <= s.len(),
        forall|j: int| end <= j < s.len() ==> is_shell_space(s[j]),
        end > 0 ==> !is_shell_space(s[end - 1]),
    ensures
        spec_trim_end(s) == s.take(end),
    decreases s.len(),
{
    if s.len() == end {
        assert(s.take(end) =~= s);
    } else {
        assert(is_shell_space(s.last()));
        lemma_trim_end_take(s.drop_last(), end);
        assert(s.drop_last().take(end) =~= s.take(end));
    }
}

/// Removes trailing whitespace, as `spec_trim_end` describes.
pub fn trim_end(s: &str) -> (r: String)
    ensures
        r@ == spec_trim_end(s@),
{
    let n = s.unicode_len();
    let mut end: usize = 0;
    let mut i: usize = 0;
    while i < n
        invariant
            end <= i <= n,
            n == s@.len(),
            forall|j: int| end <= j < i ==> is_shell_space(s@[j]),
            end > 0 ==> !is_shell_space(s@[end - 1]),
        decreases n - i,
    {
        let c = s.get_char(i);
        if !crate::tokenizer::is_shell_space_char(c) {
            end = i + 1;
        }
        i = i + 1;
    }
    proof {
        lemma_trim_end_take(s@, end as int);
        assert(s@.take(end as int) =~= s@.subrange(0, end as int));
    }
    s.substring_char(0, end).to_owned()
}

} // verus!
