//! Character-level helpers on text.
use vstd::prelude::*;

verus! {

/// The text of `s` from position `pos` on.
pub open spec fn suffix(s: Seq<char>, pos: int) -> Seq<char> {
    s.subrange(pos, s.len() as int)
}

/// Where the text from `pos` on starts with `a`, the text after `a` is what
/// follows it.
pub proof fn lemma_suffix_split(s: Seq<char>, pos: int, a: Seq<char>, rest: Seq<char>)
    requires
        0 <= pos <= s.len(),
        a + rest == suffix(s, pos),
    ensures
        pos + a.len() <= s.len(),
        suffix(s, pos + a.len()) == rest,
{
    assert((a + rest).len() == suffix(s, pos).len());
    assert forall|i: int| 0 <= i < rest.len() implies #[trigger] suffix(s, pos + a.len())[i]
        == rest[i] by {
        assert(rest[i] == (a + rest)[a.len() + i]);
    }
    assert(suffix(s, pos + a.len()) =~= rest);
}

/// Whether two texts are the same, character by character.
pub(crate) fn same_text(a: &str, b: &str) -> (r: bool)
    ensures
        r == (a@ == b@),
{
    let n = a.unicode_len();
    if n != b.unicode_len() {
        return false;
    }
    let mut i: usize = 0;
    while i < n
        invariant
            n == a@.len(),
            n == b@.len(),
            i <= n,
            a@.subrange(0, i as int) == b@.subrange(0, i as int),
        decreases n - i,
    {
        if a.get_char(i) != b.get_char(i) {
            return false;
        }
        assert(a@.subrange(0, i + 1) == a@.subrange(0, i as int).push(a@[i as int]));
        assert(b@.subrange(0, i + 1) == b@.subrange(0, i as int).push(b@[i as int]));
        i = i + 1;
    }
    assert(a@ == a@.subrange(0, n as int));
    assert(b@ == b@.subrange(0, n as int));
    true
}

} // verus!
