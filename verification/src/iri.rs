//! IRI components. The relay keys policy, breakers and listeners by the
//! authority of an IRI — the host part between the scheme separator and the
//! first slash — and builds instance endpoints back out of scheme and
//! authority. Only component extraction is done here; IRIs are otherwise
//! carried as opaque strings.
use vstd::prelude::*;

verus! {

/// A character that ends the authority component.
pub open spec fn ends_authority(c: char) -> bool {
    c == '/' || c == '?' || c == '#'
}

/// The position of the first `://` at or after `from`, if any.
pub open spec fn scheme_sep(s: Seq<char>, from: int) -> Option<int>
    decreases s.len() - from,
{
    if from < 0 || from + 3 > s.len() {
        None
    } else if s[from] == ':' && s[from + 1] == '/' && s[from + 2] == '/' {
        Some(from)
    } else {
        scheme_sep(s, from + 1)
    }
}

/// The position right after the authority that starts at `from`: the first
/// position at or after `from` holding `/`, `?` or `#`, or the end.
pub open spec fn authority_end(s: Seq<char>, from: int) -> int
    decreases s.len() - from,
{
    if from < 0 || from >= s.len() {
        s.len() as int
    } else if ends_authority(s[from]) {
        from
    } else {
        authority_end(s, from + 1)
    }
}

/// The scheme of the IRI: the characters before the first `://`.
pub open spec fn spec_scheme_of(s: Seq<char>) -> Option<Seq<char>> {
    match scheme_sep(s, 0) {
        Some(i) => Some(s.subrange(0, i)),
        None => None,
    }
}

/// The authority of the IRI: the characters between the first `://` and the
/// first `/`, `?` or `#` after it; none when there is no `://`, or nothing
/// between it and the end of the authority.
pub open spec fn spec_authority_of(s: Seq<char>) -> Option<Seq<char>> {
    match scheme_sep(s, 0) {
        Some(i) => {
            let end = authority_end(s, i + 3);
            if end > i + 3 {
                Some(s.subrange(i + 3, end))
            } else {
                None
            }
        },
        None => None,
    }
}

/// The authority of the IRI, or the empty sequence when it has none.
pub open spec fn authority_seq(s: Seq<char>) -> Seq<char> {
    match spec_authority_of(s) {
        Some(a) => a,
        None => Seq::empty(),
    }
}

/// The scheme of the IRI, or the empty sequence when it has none.
pub open spec fn scheme_seq(s: Seq<char>) -> Seq<char> {
    match spec_scheme_of(s) {
        Some(sch) => sch,
        None => Seq::empty(),
    }
}

/// Find the first `://` in `s`.
fn find_scheme_sep(s: &str) -> (r: Option<usize>)
    ensures
        match r {
            Some(i) => scheme_sep(s@, 0) == Some(i as int) && i + 3 <= s@.len(),
            None => scheme_sep(s@, 0) is None,
        },
{
    let len = s.unicode_len();
    if len < 3 {
        return None;
    }
    let mut i: usize = 0;
    while i <= len - 3
        invariant
            3 <= len,
            0 <= i <= len,
            len == s@.len(),
            scheme_sep(s@, 0) == scheme_sep(s@, i as int),
        decreases len - i,
    {
        if s.get_char(i) == ':' && s.get_char(i + 1) == '/' && s.get_char(i + 2) == '/' {
            return Some(i);
        }
        i = i + 1;
    }
    None
}

/// Find the end of the authority that starts at `from`.
fn find_authority_end(s: &str, from: usize) -> (r: usize)
    requires
        from <= s@.len(),
    ensures
        r == authority_end(s@, from as int),
        from <= r <= s@.len(),
{
    let len = s.unicode_len();
    let mut i: usize = from;
    proof {
        lemma_authority_end_range(s@, from as int);
    }
    loop
        invariant
            from <= i <= len,
            len == s@.len(),
            authority_end(s@, from as int) == authority_end(s@, i as int),
            authority_end(s@, from as int) >= from,
            authority_end(s@, from as int) <= len,
        decreases len - i,
    {
        if i >= len {
            return i;
        }
        let c = s.get_char(i);
        if c == '/' || c == '?' || c == '#' {
            return i;
        }
        i = i + 1;
    }
}

/// The authority that ends at `authority_end` lies between `from` and the end.
proof fn lemma_authority_end_range(s: Seq<char>, from: int)
    requires
        0 <= from <= s.len(),
    ensures
        from <= authority_end(s, from) <= s.len(),
    decreases s.len() - from,
{
    if from < s.len() && !ends_authority(s[from]) {
        lemma_authority_end_range(s, from + 1);
    }
}

/// The authority of `s`, when `s` has the shape `scheme://authority...`.
pub fn authority_of(s: &str) -> (r: Option<String>)
    ensures
        match r {
            Some(a) => spec_authority_of(s@) == Some(a@),
            None => spec_authority_of(s@) is None,
        },
{
    let len = s.unicode_len();
    match find_scheme_sep(s) {
        Some(i) => {
            let start = i + 3;
            let end = find_authority_end(s, start);
            if end > start {
                Some(s.substring_char(start, end).to_owned())
            } else {
                None
            }
        },
        None => None,
    }
}

/// The scheme of `s`, when `s` has the shape `scheme://...`.
pub fn scheme_of(s: &str) -> (r: Option<String>)
    ensures
        match r {
            Some(sch) => spec_scheme_of(s@) == Some(sch@),
            None => spec_scheme_of(s@) is None,
        },
{
    match find_scheme_sep(s) {
        Some(i) => Some(s.substring_char(0, i).to_owned()),
        None => None,
    }
}

/// Whether two IRIs name the same authority; an IRI without an authority
/// matches nothing. The comparison is exact on the characters: no case
/// folding and no default-port stripping, so `A.example` and `a.example:443`
/// are different authorities here — peers are expected to write their own
/// IRIs consistently.
pub fn same_authority(a: &str, b: &str) -> (r: bool)
    ensures
        r == (spec_authority_of(a@) is Some && spec_authority_of(a@) == spec_authority_of(b@)),
{
    match (authority_of(a), authority_of(b)) {
        (Some(x), Some(y)) => x == y,
        _ => false,
    }
}

} // verus!
