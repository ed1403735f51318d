use vstd::prelude::*;

verus! {

/// The position of the first string of `v` whose text is `t`, or the length
/// of `v` when there is none.
pub open spec fn first_index(v: Seq<String>, t: Seq<char>) -> int
    decreases v.len(),
{
    if v.len() == 0 {
        0
    } else if v[0]@ == t {
        0
    } else {
        first_index(v.subrange(1, v.len() as int), t) + 1
    }
}

proof fn lemma_first_index(v: Seq<String>, t: Seq<char>, i: int)
    requires
        0 <= i <= v.len(),
        forall|j: int| 0 <= j < i ==> (#[trigger] v[j])@ != t,
        i < v.len() ==> v[i]@ == t,
    ensures
        first_index(v, t) == i,
    decreases v.len(),
{
    if v.len() > 0 && i > 0 {
        let w = v.subrange(1, v.len() as int);
        assert forall|j: int| 0 <= j < i - 1 implies (#[trigger] w[j])@ != t by {
            assert(w[j] == v[j + 1]);
        }
        if i < v.len() {
            assert(w[i - 1] == v[i]);
        }
        assert(v[0]@ != t);
        lemma_first_index(w, t, i - 1);
    }
}

/// The position of the first string of `v` whose text is `t`, or its length.
pub fn find_text(v: &Vec<String>, t: &str) -> (r: usize)
    ensures
        r == first_index(v@, t@),
{
    let mut i: usize = 0;
    while i < v.len()
        invariant
            0 <= i <= v@.len(),
            forall|j: int| 0 <= j < i ==> (#[trigger] v@[j])@ != t@,
        decreases v@.len() - i,
    {
        if crate::same_text(v[i].as_str(), t) {
            proof { lemma_first_index(v@, t@, i as int); }
            return i;
        }
        i = i + 1;
    }
    proof { lemma_first_index(v@, t@, i as int); }
    i
}

} // verus!
