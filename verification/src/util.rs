use vstd::prelude::*;

verus! {

/// Character-for-character string equality, proved by walking both texts.
pub fn str_eq(a: &str, b: &str) -> (r: bool)
    ensures
        r == (a@ == b@),
{
    let la = a.unicode_len();
    let lb = b.unicode_len();
    if la != lb {
        assert(a@ != b@) by {
            assert(a@.len() != b@.len());
        }
        return false;
    }
    let mut i: usize = 0;
    while i < la
        invariant
            la == a@.len(),
            la == b@.len(),
            0 <= i <= la,
            forall|k: int| 0 <= k < i ==> a@[k] == b@[k],
        decreases la - i,
    {
        if a.get_char(i) != b.get_char(i) {
            assert(a@ != b@);
            return false;
        }
        i += 1;
    }
    proof {
        assert(a@ =~= b@);
    }
    true
}

/// The index right after the longest run of characters satisfying the given
/// test, scanning from `start`: every character of the run passes the test,
/// and the character that stopped the scan (if any) fails it.
pub fn consume_while<F: Fn(char) -> bool>(s: &Vec<char>, start: usize, test: F) -> (end: usize)
    requires
        start <= s@.len(),
        forall|c: char| #[trigger] call_requires(test, (c,)),
    ensures
        start <= end <= s@.len(),
        forall|k: int| start <= k < end ==> call_ensures(test, (s@[k],), true),
        end < s@.len() ==> call_ensures(test, (s@[end as int],), false),
{
    let mut i = start;
    while i < s.len()
        invariant
            start <= i <= s@.len(),
            forall|k: int| start <= k < i ==> call_ensures(test, (s@[k],), true),
            forall|c: char| #[trigger] call_requires(test, (c,)),
        decreases s@.len() - i,
    {
        if !test(s[i]) {
            return i;
        }
        i += 1;
    }
    i
}

/// The characters of a text, in order, as a vector.
pub fn str_chars(s: &str) -> (r: Vec<char>)
    ensures
        r@ == s@,
{
    let n = s.unicode_len();
    let mut r: Vec<char> = Vec::new();
    let mut i: usize = 0;
    while i < n
        invariant
            n == s@.len(),
            0 <= i <= n,
            r@ =~= s@.subrange(0, i as int),
        decreases n - i,
    {
        r.push(s.get_char(i));
        i += 1;
    }
    proof {
        assert(r@ =~= s@);
    }
    r
}

} // verus!
