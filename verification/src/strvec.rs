//! Small verified helpers over vectors of strings. The storage model keeps a
//! vector of keys beside each hash map so the keys can be enumerated; these
//! functions give the scans and removals exact contracts over the views.
use vstd::prelude::*;

verus! {

/// The views of a sequence of strings.
pub open spec fn views(v: Seq<String>) -> Seq<Seq<char>> {
    v.map_values(|s: String| s@)
}

/// Removing an element commutes with taking views.
pub proof fn lemma_views_remove(v: Seq<String>, j: int)
    requires
        0 <= j < v.len(),
    ensures
        views(v.remove(j)) =~= views(v).remove(j),
{
    v.remove_ensures(j);
    views(v).remove_ensures(j);
}

/// Everything in a sequence with one element removed was in the sequence,
/// and everything other than the removed element survives.
pub proof fn lemma_remove_contains<A>(s: Seq<A>, j: int)
    requires
        0 <= j < s.len(),
    ensures
        forall|x: A| #[trigger] s.remove(j).contains(x) ==> s.contains(x),
        forall|x: A| s.contains(x) && x != s[j] ==> #[trigger] s.remove(j).contains(x),
{
    s.remove_ensures(j);
    assert forall|x: A| #[trigger] s.remove(j).contains(x) implies s.contains(x) by {
        let i = choose|i: int| 0 <= i < s.remove(j).len() && s.remove(j)[i] == x;
        if i < j {
            assert(s[i] == x);
        } else {
            assert(s[i + 1] == x);
        }
    }
    assert forall|x: A| s.contains(x) && x != s[j] implies #[trigger] s.remove(j).contains(x) by {
        let i = choose|i: int| 0 <= i < s.len() && s[i] == x;
        if i < j {
            assert(s.remove(j)[i] == x);
        } else {
            assert(s.remove(j)[i - 1] == x);
        }
    }
}

/// Removing an element keeps a duplicate-free sequence duplicate free.
pub proof fn lemma_remove_no_dup<A>(s: Seq<A>, j: int)
    requires
        0 <= j < s.len(),
        s.no_duplicates(),
    ensures
        s.remove(j).no_duplicates(),
{
    s.remove_ensures(j);
}

/// Whether `v` holds a string whose characters are those of `s`.
pub fn contains_str(v: &Vec<String>, s: &str) -> (r: bool)
    ensures
        r == views(v@).contains(s@),
{
    match find_str(v, s) {
        Some(_) => true,
        None => false,
    }
}

/// The first position in `v` holding the characters of `s`.
pub fn find_str(v: &Vec<String>, s: &str) -> (r: Option<usize>)
    ensures
        match r {
            Some(j) => {
                &&& 0 <= j < v@.len()
                &&& views(v@)[j as int] == s@
                &&& forall|i: int| 0 <= i < j ==> views(v@)[i] != s@
            },
            None => !views(v@).contains(s@),
        },
{
    let needle = s.to_owned();
    let mut i: usize = 0;
    while i < v.len()
        invariant
            0 <= i <= v@.len(),
            needle@ == s@,
            forall|j: int| 0 <= j < i ==> views(v@)[j] != s@,
        decreases v@.len() - i,
    {
        if v[i] == needle {
            return Some(i);
        }
        i = i + 1;
    }
    None
}

/// Remove the first string holding the characters of `s`, if any, and say
/// where it stood.
pub fn remove_str(v: &mut Vec<String>, s: &str) -> (r: Option<usize>)
    ensures
        match r {
            Some(j) => {
                &&& 0 <= j < old(v)@.len()
                &&& views(old(v)@)[j as int] == s@
                &&& forall|i: int| 0 <= i < j ==> views(old(v)@)[i] != s@
                &&& final(v)@ == old(v)@.remove(j as int)
            },
            None => !views(old(v)@).contains(s@) && final(v)@ == old(v)@,
        },
{
    match find_str(v, s) {
        Some(j) => {
            v.remove(j);
            Some(j)
        },
        None => None,
    }
}

/// A copy of `v` holding equal strings.
pub fn clone_vec(v: &Vec<String>) -> (r: Vec<String>)
    ensures
        r@ == v@,
{
    let mut out: Vec<String> = Vec::new();
    let mut i: usize = 0;
    while i < v.len()
        invariant
            0 <= i <= v@.len(),
            out@ == v@.take(i as int),
        decreases v@.len() - i,
    {
        out.push(v[i].clone());
        proof {
            assert(out@ =~= v@.take(i + 1));
        }
        i = i + 1;
    }
    proof {
        assert(v@.take(v@.len() as int) =~= v@);
    }
    out
}

} // verus!
