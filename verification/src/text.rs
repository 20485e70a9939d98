//! Character-level helpers for the text that the connector reads and writes.
use vstd::prelude::*;

verus! {

/// Index of the first `c` in `s`, or `s.len()` where `s` holds none.
pub open spec fn first_index(s: Seq<char>, c: char) -> int
    decreases s.len(),
{
    if s.len() == 0 {
        0
    } else if s[0] == c {
        0
    } else {
        1 + first_index(s.drop_first(), c)
    }
}

/// The text of `s` before its first `c` (all of `s` where it holds none).
pub open spec fn before_first(s: Seq<char>, c: char) -> Seq<char> {
    s.take(first_index(s, c))
}

/// The text of `s` after its first `c` (empty where it holds none).
pub open spec fn after_first(s: Seq<char>, c: char) -> Seq<char> {
    if first_index(s, c) < s.len() {
        s.skip(first_index(s, c) + 1)
    } else {
        Seq::empty()
    }
}

/// `first_index` is the position of the first occurrence, or the length.
pub proof fn lemma_first_index(s: Seq<char>, c: char)
    ensures
        0 <= first_index(s, c) <= s.len(),
        forall|j: int| 0 <= j < first_index(s, c) ==> s[j] != c,
        first_index(s, c) < s.len() ==> s[first_index(s, c)] == c,
        s.contains(c) <==> first_index(s, c) < s.len(),
    decreases s.len(),
{
    if s.len() > 0 && s[0] != c {
        lemma_first_index(s.drop_first(), c);
        assert forall|j: int| 0 <= j < first_index(s, c) implies s[j] != c by {
            if j > 0 {
                assert(s[j] == s.drop_first()[j - 1]);
            }
        }
        if s.contains(c) {
            let k = choose|k: int| 0 <= k < s.len() && s[k] == c;
            assert(s.drop_first()[k - 1] == c);
        }
        if first_index(s, c) < s.len() {
            assert(s[first_index(s, c)] == s.drop_first()[first_index(s, c) - 1]);
        }
    } else if s.len() > 0 {
        assert(s.contains(c));
    }
}

/// A position with no `c` before it and a `c` at it (or at the end) is `first_index`.
pub proof fn lemma_first_index_at(s: Seq<char>, c: char, k: int)
    requires
        0 <= k <= s.len(),
        forall|j: int| 0 <= j < k ==> s[j] != c,
        k < s.len() ==> s[k] == c,
    ensures
        first_index(s, c) == k,
{
    lemma_first_index(s, c);
}

/// The characters of `s`, in order.
pub fn chars_of(s: &str) -> (v: Vec<char>)
    ensures
        v@ == s@,
{
    let mut v: Vec<char> = Vec::new();
    for c in it: s.chars()
        invariant
            v@ == it.seq().take(it.index()),
            it.seq() == s@,
    {
        v.push(c);
    }
    v
}

/// Appends one character to `s` (`String::push`).
#[verifier::external_body]
pub fn push_char(s: &mut String, c: char)
    ensures
        final(s)@ == old(s)@.push(c),
{
    s.push(c);
}

/// Appends the text of `t` to `s` (`String::push_str`).
#[verifier::external_body]
pub fn push_str(s: &mut String, t: &str)
    ensures
        final(s)@ == old(s)@ + t@,
{
    s.push_str(t);
}

/// Appends `chars[start..end]` to `s`.
pub fn push_range(s: &mut String, chars: &Vec<char>, start: usize, end: usize)
    requires
        start <= end <= chars@.len(),
    ensures
        final(s)@ == old(s)@ + chars@.subrange(start as int, end as int),
{
    let mut i: usize = start;
    while i < end
        invariant
            start <= i <= end <= chars@.len(),
            s@ == old(s)@ + chars@.subrange(start as int, i as int),
        decreases end - i,
    {
        push_char(s, chars[i]);
        i = i + 1;
        assert(s@ =~= old(s)@ + chars@.subrange(start as int, i as int));
    }
}

/// A new string holding `chars[start..end]`.
pub fn string_of_range(chars: &Vec<char>, start: usize, end: usize) -> (s: String)
    requires
        start <= end <= chars@.len(),
    ensures
        s@ == chars@.subrange(start as int, end as int),
{
    let mut s = String::new();
    let mut i: usize = start;
    while i < end
        invariant
            start <= i <= end <= chars@.len(),
            s@ == chars@.subrange(start as int, i as int),
        decreases end - i,
    {
        push_char(&mut s, chars[i]);
        i = i + 1;
        assert(s@ =~= chars@.subrange(start as int, i as int));
    }
    s
}

/// The first position in `chars[start..end]` that holds `c`, or `end` where none does.
pub fn find_in(chars: &Vec<char>, start: usize, end: usize, c: char) -> (k: usize)
    requires
        start <= end <= chars@.len(),
    ensures
        start <= k <= end,
        k - start == first_index(chars@.subrange(start as int, end as int), c),
{
    let mut k: usize = start;
    while k < end
        invariant
            start <= k <= end <= chars@.len(),
            forall|j: int| start <= j < k ==> chars@[j] != c,
        ensures
            start <= k <= end,
            forall|j: int| start <= j < k ==> chars@[j] != c,
            k < end ==> chars@[k as int] == c,
        decreases end - k,
    {
        if chars[k] == c {
            break;
        }
        k = k + 1;
    }
    proof {
        let sub = chars@.subrange(start as int, end as int);
        assert forall|j: int| 0 <= j < k - start implies sub[j] != c by {
            assert(sub[j] == chars@[start + j]);
        }
        lemma_first_index_at(sub, c, k - start);
    }
    k
}

} // verus!
