use crate::error::HfError;
use crate::text::{contains, str_contains};
use vstd::prelude::*;

verus! {

/// One file of a repository, by its path from the repository root.
#[derive(Clone, Debug, PartialEq)]
pub struct Sibling {
    pub rfilename: String,
}

impl View for Sibling {
    type V = Seq<char>;

    open spec fn view(&self) -> Seq<char> {
        self.rfilename@
    }
}

/// The paths of a list of files.
pub open spec fn paths(s: Seq<Sibling>) -> Seq<Seq<char>> {
    s.map_values(|x: Sibling| x@)
}

/// The paths of `s` that satisfy `keep`, in their order in `s`, repeats kept.
pub open spec fn kept(s: Seq<Seq<char>>, keep: spec_fn(Seq<char>) -> bool) -> Seq<Seq<char>>
    decreases s.len(),
{
    if s.len() == 0 {
        s
    } else {
        let rest = kept(s.drop_last(), keep);
        if keep(s.last()) {
            rest.push(s.last())
        } else {
            rest
        }
    }
}

/// The paths that contain `filter`.
pub open spec fn containing(filter: Seq<char>) -> spec_fn(Seq<char>) -> bool {
    |x: Seq<char>| contains(x, filter)
}

/// The paths that contain at least one of `filters`; every path when there
/// are no filters.
pub open spec fn containing_any(filters: Seq<Seq<char>>) -> spec_fn(Seq<char>) -> bool {
    |x: Seq<char>| filters.len() == 0 || exists|j: int| 0 <= j < filters.len() && contains(x, #[trigger] filters[j])
}

/// The texts of a list of strings.
pub open spec fn texts(v: Seq<String>) -> Seq<Seq<char>> {
    v.map_values(|x: String| x@)
}

/// Keeps the files whose path contains `filter_string`, in their order.
pub fn filter_siblings(siblings: Vec<Sibling>, filter_string: &str) -> (r: Vec<Sibling>)
    ensures
        paths(r@) == kept(paths(siblings@), containing(filter_string@)),
{
    let mut out: Vec<Sibling> = Vec::new();
    let mut i: usize = 0;
    while i < siblings.len()
        invariant
            i <= siblings@.len(),
            paths(out@) == kept(paths(siblings@).take(i as int), containing(filter_string@)),
        decreases siblings@.len() - i,
    {
        let name = &siblings[i].rfilename;
        let hit = str_contains(name.as_str(), filter_string);
        proof {
            assert(paths(siblings@).take(i + 1).drop_last() =~= paths(siblings@).take(i as int));
        }
        if hit {
            let ghost before = out@;
            out.push(Sibling { rfilename: name.clone() });
            proof {
                assert(paths(out@) =~= paths(before).push(siblings@[i as int]@));
            }
        }
        i = i + 1;
    }
    assert(paths(siblings@).take(i as int) =~= paths(siblings@));
    out
}

/// Whether `path` contains one of `filters`, or `filters` is empty.
fn matches_any(path: &str, filters: &Vec<String>) -> (r: bool)
    ensures
        r == containing_any(texts(filters@))(path@),
{
    if filters.len() == 0 {
        return true;
    }
    let mut j: usize = 0;
    while j < filters.len()
        invariant
            j <= filters@.len(),
            forall|k: int| 0 <= k < j ==> !contains(path@, #[trigger] texts(filters@)[k]),
        decreases filters@.len() - j,
    {
        if str_contains(path, filters[j].as_str()) {
            assert(contains(path@, texts(filters@)[j as int]));
            return true;
        }
        j = j + 1;
    }
    false
}

/// Keeps the files whose path contains any of `filters`, in their order;
/// with no filters every file is kept.
pub fn filter_siblings_any(siblings: Vec<Sibling>, filters: &Vec<String>) -> (r: Vec<Sibling>)
    ensures
        paths(r@) == kept(paths(siblings@), containing_any(texts(filters@))),
{
    let mut out: Vec<Sibling> = Vec::new();
    let mut i: usize = 0;
    while i < siblings.len()
        invariant
            i <= siblings@.len(),
            paths(out@) == kept(paths(siblings@).take(i as int), containing_any(texts(filters@))),
        decreases siblings@.len() - i,
    {
        let name = &siblings[i].rfilename;
        let hit = matches_any(name.as_str(), filters);
        proof {
            assert(paths(siblings@).take(i + 1).drop_last() =~= paths(siblings@).take(i as int));
        }
        if hit {
            let ghost before = out@;
            out.push(Sibling { rfilename: name.clone() });
            proof {
                assert(paths(out@) =~= paths(before).push(siblings@[i as int]@));
            }
        }
        i = i + 1;
    }
    assert(paths(siblings@).take(i as int) =~= paths(siblings@));
    out
}

/// Filtering distributes over concatenation: the kept paths of `a + b` are
/// those of `a` followed by those of `b`, so filtering keeps the order of
/// the files.
pub proof fn lemma_filter_preserves_order(a: Seq<Seq<char>>, b: Seq<Seq<char>>, keep: spec_fn(Seq<char>) -> bool)
    ensures
        kept(a + b, keep) == kept(a, keep) + kept(b, keep),
    decreases b.len(),
{
    if b.len() == 0 {
        assert(a + b =~= a);
        assert(kept(a, keep) + kept(b, keep) =~= kept(a, keep));
    } else {
        assert((a + b).drop_last() =~= a + b.drop_last());
        lemma_filter_preserves_order(a, b.drop_last(), keep);
        if keep(b.last()) {
            assert(kept(a, keep) + kept(b, keep) =~= (kept(a, keep) + kept(b.drop_last(), keep)).push(b.last()));
        }
    }
}

/// A path is kept exactly when it occurs in the input and satisfies the filter.
pub proof fn lemma_filter_members(s: Seq<Seq<char>>, keep: spec_fn(Seq<char>) -> bool, x: Seq<char>)
    ensures
        kept(s, keep).contains(x) <==> (s.contains(x) && keep(x)),
    decreases s.len(),
{
    if s.len() > 0 {
        lemma_filter_members(s.drop_last(), keep, x);
        if s.contains(x) && x != s.last() {
            let j = choose|j: int| 0 <= j < s.len() && s[j] == x;
            assert(s.drop_last()[j] == x);
        }
        if s.drop_last().contains(x) {
            let j = choose|j: int| 0 <= j < s.drop_last().len() && s.drop_last()[j] == x;
            assert(s[j] == x);
        }
        if keep(s.last()) {
            let r = kept(s.drop_last(), keep);
            if r.contains(x) {
                let j = choose|j: int| 0 <= j < r.len() && r[j] == x;
                assert(r.push(s.last())[j] == x);
            }
            if r.push(s.last()).contains(x) && x != s.last() {
                let j = choose|j: int| 0 <= j < r.len() + 1 && r.push(s.last())[j] == x;
                assert(r[j] == x);
            }
            assert(r.push(s.last())[r.len() as int] == s.last());
        }
        assert(s[s.len() - 1] == s.last());
    }
}

/// Every kept path satisfies the filter.
proof fn lemma_kept_all_match(s: Seq<Seq<char>>, keep: spec_fn(Seq<char>) -> bool)
    ensures
        forall|j: int| 0 <= j < kept(s, keep).len() ==> keep(#[trigger] kept(s, keep)[j]),
    decreases s.len(),
{
    if s.len() > 0 {
        lemma_kept_all_match(s.drop_last(), keep);
        let r = kept(s.drop_last(), keep);
        assert forall|j: int| 0 <= j < kept(s, keep).len() implies keep(#[trigger] kept(s, keep)[j]) by {
            if j < r.len() {
                assert(kept(s, keep)[j] == r[j]);
            }
        }
    }
}

/// A list in which every path satisfies the filter passes through unchanged.
proof fn lemma_kept_of_matching(s: Seq<Seq<char>>, keep: spec_fn(Seq<char>) -> bool)
    requires
        forall|j: int| 0 <= j < s.len() ==> keep(#[trigger] s[j]),
    ensures
        kept(s, keep) == s,
    decreases s.len(),
{
    if s.len() > 0 {
        lemma_kept_of_matching(s.drop_last(), keep);
        assert(s.drop_last().push(s.last()) =~= s);
    }
}

/// Filtering twice with the same filters gives what filtering once gives.
pub proof fn lemma_filter_idempotent(s: Seq<Seq<char>>, keep: spec_fn(Seq<char>) -> bool)
    ensures
        kept(kept(s, keep), keep) == kept(s, keep),
{
    lemma_kept_all_match(s, keep);
    lemma_kept_of_matching(kept(s, keep), keep);
}

/// The value of the `authorization` header that carries `token`.
pub open spec fn bearer(token: Seq<char>) -> Seq<char> {
    "Bearer "@ + token
}

/// The `authorization` header value for an access token.
pub fn authorization_header(token: &str) -> (r: String)
    ensures
        r@ == bearer(token@),
{
    let mut h = String::from_str("Bearer ");
    h.append(token);
    h
}

/// What an HTTP status means for a download: 200 lets it proceed.
pub open spec fn status_outcome(status: u16) -> Result<(), HfError> {
    if status == 200 {
        Ok(())
    } else if status == 404 {
        Err(HfError::RepositoryNotFound)
    } else if status == 401 {
        Err(HfError::Unauthorized)
    } else {
        Err(HfError::TransportFailure)
    }
}

/// Decides from the response status whether the body is to be read.
pub fn check_status(status: u16) -> (r: Result<(), HfError>)
    ensures
        r == status_outcome(status),
{
    if status == 200 {
        Ok(())
    } else if status == 404 {
        Err(HfError::RepositoryNotFound)
    } else if status == 401 {
        Err(HfError::Unauthorized)
    } else {
        Err(HfError::TransportFailure)
    }
}

} // verus!
