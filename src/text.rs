//! Lists of identifiers, compared by their characters.
use vstd::prelude::*;

verus! {

/// The characters of each string of `v`.
pub open spec fn texts(v: Seq<String>) -> Seq<Seq<char>> {
    v.map_values(|s: String| s@)
}

/// `list` with `item` appended unless it already holds it.
pub open spec fn push_new(list: Seq<Seq<char>>, item: Seq<char>) -> Seq<Seq<char>> {
    if list.contains(item) {
        list
    } else {
        list.push(item)
    }
}

/// Whether `v` holds a string with the characters of `s`.
pub fn contains_text(v: &Vec<String>, s: &String) -> (r: bool)
    ensures
        r == texts(v@).contains(s@),
{
    let mut i: usize = 0;
    while i < v.len()
        invariant
            i <= v@.len(),
            forall|j: int| 0 <= j < i ==> v@[j]@ != s@,
        decreases v@.len() - i,
    {
        if v[i] == *s {
            assert(texts(v@)[i as int] == s@);
            return true;
        }
        i = i + 1;
    }
    proof {
        if texts(v@).contains(s@) {
            let k = choose|k: int| 0 <= k < texts(v@).len() && texts(v@)[k] == s@;
            assert(v@[k]@ == s@);
        }
    }
    false
}

/// Appends a copy of `s` to `v` unless `v` already holds it.
pub fn push_text_new(v: &mut Vec<String>, s: &String)
    ensures
        texts(final(v)@) == push_new(texts(old(v)@), s@),
{
    if !contains_text(v, s) {
        v.push(s.clone());
        assert(texts(final(v)@) =~= texts(old(v)@).push(s@));
    }
}

} // verus!
