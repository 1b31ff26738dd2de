//! Resolving the single path argument into a bucket name and a key prefix.
//!
//! A path of the form `bucket` or `bucket/prefix` is split at the first `/`
//! only: everything before it is the bucket, everything after it (further
//! `/` characters included) is the prefix. Without a `/` the whole argument
//! is the bucket and the prefix is empty.

use vstd::prelude::*;
use vstd::string::StrSliceExecFns;

verus! {

/// True when `s` contains at least one '/' character.
pub open spec fn has_slash(s: Seq<char>) -> bool {
    exists|i: int| 0 <= i < s.len() && s[i] == '/'
}

/// Index of the first '/' in `s`, or `s.len()` when there is none.
pub open spec fn first_slash(s: Seq<char>) -> int
    decreases s.len(),
{
    if s.len() == 0 {
        0
    } else if s[0] == '/' {
        0
    } else {
        1 + first_slash(s.subrange(1, s.len() as int))
    }
}

/// The bucket part of a path argument: everything before the first '/'.
pub open spec fn bucket_of(s: Seq<char>) -> Seq<char> {
    s.subrange(0, first_slash(s))
}

/// The prefix part of a path argument: everything after the first '/', or
/// empty when there is no '/'.
pub open spec fn prefix_of(s: Seq<char>) -> Seq<char> {
    if first_slash(s) < s.len() {
        s.subrange(first_slash(s) + 1, s.len() as int)
    } else {
        Seq::<char>::empty()
    }
}

proof fn lemma_first_slash_bounds(s: Seq<char>)
    ensures
        0 <= first_slash(s) <= s.len(),
        forall|j: int| 0 <= j < first_slash(s) ==> s[j] != '/',
        first_slash(s) < s.len() ==> s[first_slash(s)] == '/',
    decreases s.len(),
{
    if s.len() == 0 {
    } else if s[0] == '/' {
    } else {
        let t = s.subrange(1, s.len() as int);
        lemma_first_slash_bounds(t);
        assert forall|j: int| 0 <= j < first_slash(s) implies s[j] != '/' by {
            if j >= 1 {
                assert(t[j - 1] == s[j]);
            }
        }
        if first_slash(s) < s.len() {
            assert(t[first_slash(t)] == s[first_slash(s)]);
        }
    }
}

proof fn lemma_first_slash_at(s: Seq<char>, k: int)
    requires
        0 <= k <= s.len(),
        forall|j: int| 0 <= j < k ==> s[j] != '/',
        k < s.len() ==> s[k] == '/',
    ensures
        first_slash(s) == k,
    decreases k,
{
    if k == 0 {
    } else {
        let t = s.subrange(1, s.len() as int);
        assert forall|j: int| 0 <= j < k - 1 implies t[j] != '/' by {
            assert(t[j] == s[j + 1]);
        }
        lemma_first_slash_at(t, k - 1);
    }
}

/// Law: a path without any '/' resolves to itself as the bucket and to the
/// empty prefix.
pub proof fn lemma_resolve_no_slash(s: Seq<char>)
    requires
        !has_slash(s),
    ensures
        bucket_of(s) == s,
        prefix_of(s) == Seq::<char>::empty(),
{
    lemma_first_slash_bounds(s);
    if first_slash(s) < s.len() {
        assert(s[first_slash(s)] == '/');
        assert(has_slash(s));
    }
    assert(bucket_of(s) =~= s);
}

/// Law: a path with a '/' splits at the first one: no earlier position holds
/// a '/', the bucket is everything before it, and the prefix is everything
/// after it.
pub proof fn lemma_resolve_with_slash(s: Seq<char>)
    requires
        has_slash(s),
    ensures
        0 <= first_slash(s) < s.len(),
        s[first_slash(s)] == '/',
        forall|j: int| 0 <= j < first_slash(s) ==> s[j] != '/',
        bucket_of(s) == s.subrange(0, first_slash(s)),
        prefix_of(s) == s.subrange(first_slash(s) + 1, s.len() as int),
{
    lemma_first_slash_bounds(s);
    if first_slash(s) == s.len() {
        let i = choose|i: int| 0 <= i < s.len() && s[i] == '/';
        assert(s[i] != '/');
    }
}

/// A resolved path argument: the bucket to list and the key prefix inside it.
pub struct ListingRequest {
    pub bucket: String,
    pub prefix: String,
}

/// Splits a path argument of the form `bucket` or `bucket/prefix...` at the
/// first '/' only.
#[verifier::loop_isolation(false)]
pub fn split_path(path: &str) -> (r: ListingRequest)
    ensures
        r.bucket@ == bucket_of(path@),
        r.prefix@ == prefix_of(path@),
{
    let n: usize = path.unicode_len();
    let mut i: usize = 0;
    let mut found: bool = false;
    while !found && i < n
        invariant
            i <= n,
            forall|j: int| 0 <= j < i ==> path@[j] != '/',
            found ==> i < n && path@[i as int] == '/',
        decreases n - i + (if found { 0int } else { 1int }),
    {
        if path.get_char(i) == '/' {
            found = true;
        } else {
            i = i + 1;
        }
    }
    proof {
        lemma_first_slash_at(path@, i as int);
    }
    let bucket: String = path.substring_char(0, i).to_owned();
    let prefix: String = if i < n {
        path.substring_char(i + 1, n).to_owned()
    } else {
        String::new()
    };
    ListingRequest { bucket, prefix }
}

} // verus!
