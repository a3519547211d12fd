//! Reading the `Signature` request header: a comma-separated list of
//! `name="value"` parameters, of which the relay needs `keyId`,
//! `signature` and `headers`.
use vstd::prelude::*;

verus! {

/// The position of the first occurrence of `pat` at or after `from`, if any.
pub open spec fn find_sub(s: Seq<char>, pat: Seq<char>, from: int) -> Option<int>
    decreases s.len() + 1 - from,
{
    if from < 0 || from + pat.len() > s.len() {
        None
    } else if s.subrange(from, from + pat.len() as int) == pat {
        Some(from)
    } else {
        find_sub(s, pat, from + 1)
    }
}

/// Find the first occurrence of `pat` in `s` at or after `from`.
#[verifier::loop_isolation(false)]
pub fn find_substring(s: &str, pat: &str, from: usize) -> (r: Option<usize>)
    requires
        from <= s@.len(),
    ensures
        match r {
            Some(i) => find_sub(s@, pat@, from as int) == Some(i as int) && i + pat@.len()
                <= s@.len() && from <= i,
            None => find_sub(s@, pat@, from as int) is None,
        },
{
    let n = s.unicode_len();
    let m = pat.unicode_len();
    if m > n {
        proof {
            lemma_find_sub_short(s@, pat@, from as int);
        }
        return None;
    }
    let mut i: usize = from;
    while i <= n - m
        invariant
            m <= n,
            from <= i,
            i <= n + 1,
            n == s@.len(),
            m == pat@.len(),
            find_sub(s@, pat@, from as int) == find_sub(s@, pat@, i as int),
        decreases n - i,
    {
        let mut j: usize = 0;
        let mut matched = true;
        while j < m && matched
            invariant
                0 <= j <= m,
                i + m <= n,
                matched ==> forall|q: int| 0 <= q < j ==> s@[i + q] == pat@[q],
                !matched ==> j >= 1 && s@[i + (j - 1)] != pat@[j - 1],
            decreases m - j + (if matched { 1int } else { 0int }),
        {
            if s.get_char(i + j) == pat.get_char(j) {
                j = j + 1;
            } else {
                matched = false;
                j = j + 1;
            }
        }
        if matched {
            proof {
                assert(s@.subrange(i as int, i + m) =~= pat@);
            }
            return Some(i);
        }
        proof {
            let bad = j - 1;
            assert(s@.subrange(i as int, i + m)[bad as int] == s@[i + bad]);
            assert(s@.subrange(i as int, i + m) != pat@);
        }
        i = i + 1;
    }
    None
}

/// A pattern longer than the rest of the string does not occur in it.
proof fn lemma_find_sub_short(s: Seq<char>, pat: Seq<char>, from: int)
    requires
        pat.len() > s.len(),
    ensures
        from >= 0 ==> find_sub(s, pat, from) is None,
    decreases s.len() + 1 - from,
{
    if from >= 0 && from + pat.len() <= s.len() {
        lemma_find_sub_short(s, pat, from + 1);
    }
}

/// The value of the quoted parameter `name` in `header`: the characters
/// between the first `name="` and the `"` after it.
pub open spec fn spec_signature_param(header: Seq<char>, name: Seq<char>) -> Option<Seq<char>> {
    match find_sub(header, name + "=\""@, 0) {
        None => None,
        Some(i) => {
            let start = i + name.len() + 2;
            match find_sub(header, "\""@, start) {
                None => None,
                Some(e) => Some(header.subrange(start, e)),
            }
        },
    }
}

/// Extract the quoted parameter `name` from a `Signature` header.
pub fn signature_param(header: &str, name: &str) -> (r: Option<String>)
    ensures
        match r {
            Some(v) => spec_signature_param(header@, name@) == Some(v@),
            None => spec_signature_param(header@, name@) is None,
        },
{
    let pat = String::from_str(name).concat("=\"");
    proof {
        reveal_strlit("=\"");
        assert(pat@ =~= name@ + "=\""@);
        assert(pat@.len() == name@.len() + 2);
    }
    let n = header.unicode_len();
    let i = match find_substring(header, pat.as_str(), 0) {
        Some(i) => i,
        None => {
            return None;
        },
    };
    let start = i + pat.as_str().unicode_len();
    let e = match find_substring(header, "\"", start) {
        Some(e) => e,
        None => {
            return None;
        },
    };
    proof {
        reveal_strlit("\"");
        lemma_find_sub_range(header@, "\""@, start as int, e as int);
    }
    Some(header.substring_char(start, e).to_owned())
}

/// A found occurrence lies within the string.
proof fn lemma_find_sub_range(s: Seq<char>, pat: Seq<char>, from: int, found: int)
    requires
        find_sub(s, pat, from) == Some(found),
    ensures
        from <= found,
        found + pat.len() <= s.len(),
    decreases s.len() + 1 - from,
{
    if !(from < 0 || from + pat.len() > s.len()) {
        if s.subrange(from, from + pat.len() as int) != pat {
            lemma_find_sub_range(s, pat, from + 1, found);
        }
    }
}

} // verus!
