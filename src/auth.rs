//! Finding the access token a request presents: in the `access_token` query
//! parameter, or else in an `Authorization: Bearer` header.
use vstd::prelude::*;

verus! {

pub open spec fn has_prefix(s: Seq<char>, prefix: Seq<char>) -> bool {
    prefix.len() <= s.len() && s.subrange(0, prefix.len() as int) == prefix
}

/// Where the query segment that starts at `i` ends: at the next `&`, or at the end.
pub open spec fn segment_end(q: Seq<char>, i: int) -> int
    decreases q.len() - i,
{
    if i >= q.len() {
        q.len() as int
    } else if q[i] == '&' {
        i
    } else {
        segment_end(q, i + 1)
    }
}

/// The value of the first `access_token=` segment from `i` on.
pub open spec fn token_from(q: Seq<char>, i: int) -> Option<Seq<char>>
    decreases q.len() - i,
{
    if i < 0 || i > q.len() {
        None
    } else {
        let e = segment_end(q, i);
        if e < i {
            None
        } else if has_prefix(q.subrange(i, e), "access_token="@) {
            Some(q.subrange(i + 13, e))
        } else if e < q.len() {
            token_from(q, e + 1)
        } else {
            None
        }
    }
}

proof fn lemma_segment_end_bounds(q: Seq<char>, i: int)
    requires
        0 <= i <= q.len(),
    ensures
        i <= segment_end(q, i) <= q.len(),
        forall|k: int| i <= k < segment_end(q, i) ==> q[k] != '&',
        segment_end(q, i) < q.len() ==> q[segment_end(q, i)] == '&',
    decreases q.len() - i,
{
    if i < q.len() && q[i] != '&' {
        lemma_segment_end_bounds(q, i + 1);
    }
}

/// Whether the text from `start` on begins with the prefix.
fn starts_at(s: &str, start: usize, end: usize, prefix: &str) -> (r: bool)
    requires
        start <= end <= s@.len(),
    ensures
        r == has_prefix(s@.subrange(start as int, end as int), prefix@),
{
    let m = prefix.unicode_len();
    if end - start < m {
        return false;
    }
    let mut k: usize = 0;
    while k < m
        invariant
            start <= end <= s@.len(),
            m == prefix@.len(),
            m <= end - start,
            k <= m,
            forall|j: int| 0 <= j < k ==> s@[start + j] == prefix@[j],
        decreases m - k,
    {
        if s.get_char(start + k) != prefix.get_char(k) {
            proof {
                assert(s@.subrange(start as int, end as int).subrange(0, m as int)[k as int] == s@[start + k]);
            }
            return false;
        }
        k = k + 1;
    }
    proof {
        assert(s@.subrange(start as int, end as int).subrange(0, m as int) =~= prefix@);
    }
    true
}

/// The value of the first `access_token` parameter of the query string.
pub fn query_access_token(query: &str) -> (r: Option<String>)
    ensures
        match r {
            Some(t) => token_from(query@, 0) == Some(t@),
            None => token_from(query@, 0) is None,
        },
{
    let n = query.unicode_len();
    let mut i: usize = 0;
    while i <= n
        invariant
            n == query@.len(),
            i <= n + 1,
            i <= n ==> token_from(query@, 0) == token_from(query@, i as int),
            i > n ==> token_from(query@, 0) is None,
        decreases n + 1 - i,
    {
        let mut e: usize = i;
        proof {
            lemma_segment_end_bounds(query@, i as int);
        }
        while e < n && query.get_char(e) != '&'
            invariant
                n == query@.len(),
                i <= e <= n,
                segment_end(query@, e as int) == segment_end(query@, i as int),
            decreases n - e,
        {
            e = e + 1;
        }
        proof {
            assert(segment_end(query@, e as int) == e);
        }
        if starts_at(query, i, e, "access_token=") {
            proof {
                reveal_strlit("access_token=");
            }
            return Some(query.substring_char(i + 13, e).to_owned());
        }
        if e == n {
            return None;
        }
        i = e + 1;
    }
    None
}

/// The token of an `Authorization` header of the form `Bearer <token>`.
pub fn bearer_token(header: &str) -> (r: Option<String>)
    ensures
        match r {
            Some(t) => has_prefix(header@, "Bearer "@) && t@ == header@.subrange(7, header@.len() as int),
            None => !has_prefix(header@, "Bearer "@),
        },
{
    let n = header.unicode_len();
    if starts_at(header, 0, n, "Bearer ") {
        proof {
            reveal_strlit("Bearer ");
            assert(header@.subrange(0, n as int) =~= header@);
        }
        Some(header.substring_char(7, n).to_owned())
    } else {
        proof {
            assert(header@.subrange(0, n as int) =~= header@);
        }
        None
    }
}

/// The token a request presents: the query parameter wins over the header.
pub fn presented_token(query: Option<&str>, authorization: Option<&str>) -> (r: Option<String>)
    ensures
        ({
            let from_query = match query {
                Some(q) => token_from(q@, 0),
                None => None,
            };
            match r {
                Some(t) => from_query == Some(t@) || (from_query is None && authorization is Some
                    && has_prefix(authorization->Some_0@, "Bearer "@)
                    && t@ == authorization->Some_0@.subrange(7, authorization->Some_0@.len() as int)),
                None => from_query is None && (authorization is None
                    || !has_prefix(authorization->Some_0@, "Bearer "@)),
            }
        }),
{
    if let Some(q) = query {
        if let Some(t) = query_access_token(q) {
            return Some(t);
        }
    }
    match authorization {
        Some(h) => bearer_token(h),
        None => None,
    }
}

} // verus!
