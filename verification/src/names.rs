use vstd::prelude::*;

verus! {

// Lists of names used as sets: membership and duplicates are judged by the characters
// of a name.

/// Whether `k` is one of the names in `s`.
pub open spec fn listed(s: Seq<String>, k: Seq<char>) -> bool {
    exists|i: int| 0 <= i < s.len() && (#[trigger] s[i])@ == k
}

/// No name occurs twice.
pub open spec fn distinct_names(s: Seq<String>) -> bool {
    forall|i: int, j: int| 0 <= i < j < s.len() ==> (#[trigger] s[i])@ != (#[trigger] s[j])@
}

/// The set of names in a list.
pub open spec fn name_set(s: Seq<String>) -> Set<Seq<char>> {
    Set::new(|k: Seq<char>| listed(s, k))
}

/// Whether a name is in the list.
pub fn has_name(v: &Vec<String>, n: &String) -> (r: bool)
    ensures
        r == listed(v@, n@),
{
    let mut i: usize = 0;
    while i < v.len()
        invariant
            i <= v@.len(),
            forall|j: int| 0 <= j < i ==> (#[trigger] v@[j])@ != n@,
        decreases v.len() - i,
    {
        if v[i] == *n {
            assert(v@[i as int]@ == n@);
            return true;
        }
        i += 1;
    }
    false
}

/// A name is listed after a push exactly when it was listed before or is the one pushed.
pub proof fn lemma_listed_push(s: Seq<String>, x: String, k: Seq<char>)
    ensures
        listed(s.push(x), k) <==> (listed(s, k) || x@ == k),
{
    if listed(s, k) {
        let i = choose|i: int| 0 <= i < s.len() && (#[trigger] s[i])@ == k;
        assert(s.push(x)[i] == s[i]);
    }
    if x@ == k {
        assert(s.push(x)[s.len() as int] == x);
    }
    if listed(s.push(x), k) {
        let i = choose|i: int| 0 <= i < s.push(x).len() && (#[trigger] s.push(x)[i])@ == k;
        if i < s.len() {
            assert(s[i] == s.push(x)[i]);
        }
    }
}

/// Pushing a name that is not listed keeps the names distinct.
pub proof fn lemma_distinct_push(s: Seq<String>, x: String)
    requires
        distinct_names(s),
        !listed(s, x@),
    ensures
        distinct_names(s.push(x)),
{
    let t = s.push(x);
    assert forall|a: int, b: int| 0 <= a < b < t.len() implies (#[trigger] t[a])@ != (#[trigger] t[b])@ by {
        assert(t[a] == s[a]);
        if b == s.len() {
            assert(t[b] == x);
            if t[a]@ == x@ {
                assert(listed(s, x@));
            }
        } else {
            assert(t[b] == s[b]);
        }
    }
}

} // verus!
