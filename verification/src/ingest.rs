//! Normalization of raw ingress messages into route groups.
use vstd::prelude::*;

use crate::text::{chars_of, push_char};

verus! {

/// A raw message read from the ingress topic.
#[derive(Debug, Clone, PartialEq, Eq)]
pub struct IngressMessage {
    pub request_id: String,
    pub route: String,
    pub payload: String,
}

/// A message whose route has been turned into a route group.
#[derive(Debug, Clone, PartialEq, Eq)]
pub struct NormalizedMessage {
    pub request_id: String,
    pub route_group: String,
    pub payload: String,
}

/// Every `/` of a route becomes `-`.
pub open spec fn dashed(route: Seq<char>) -> Seq<char> {
    route.map_values(|c: char| if c == '/' { '-' } else { c })
}

/// Strips every leading `-`.
pub open spec fn trim_start_dashes(s: Seq<char>) -> Seq<char>
    decreases s.len(),
{
    if s.len() > 0 && s[0] == '-' {
        trim_start_dashes(s.drop_first())
    } else {
        s
    }
}

/// Strips every trailing `-`.
pub open spec fn trim_end_dashes(s: Seq<char>) -> Seq<char>
    decreases s.len(),
{
    if s.len() > 0 && s.last() == '-' {
        trim_end_dashes(s.drop_last())
    } else {
        s
    }
}

/// The route group of a route: slashes become dashes, and dashes at either
/// end are stripped (`/v1/partner/send` gives `v1-partner-send`).
pub open spec fn route_group_of(route: Seq<char>) -> Seq<char> {
    trim_end_dashes(trim_start_dashes(dashed(route)))
}

proof fn lemma_trim_start_skip(s: Seq<char>, k: int)
    requires
        0 <= k <= s.len(),
        forall|j: int| 0 <= j < k ==> s[j] == '-',
        k == s.len() || s[k] != '-',
    ensures
        trim_start_dashes(s) == s.skip(k),
    decreases k,
{
    if k == 0 {
        assert(s.skip(0) =~= s);
    } else {
        lemma_trim_start_skip(s.drop_first(), k - 1);
        assert(s.drop_first().skip(k - 1) =~= s.skip(k));
    }
}

proof fn lemma_trim_end_take(s: Seq<char>, k: int)
    requires
        0 <= k <= s.len(),
        forall|j: int| k <= j < s.len() ==> s[j] == '-',
        k == 0 || s[k - 1] != '-',
    ensures
        trim_end_dashes(s) == s.take(k),
    decreases s.len() - k,
{
    if k == s.len() {
        assert(s.take(k) =~= s);
    } else {
        lemma_trim_end_take(s.drop_last(), k);
        assert(s.drop_last().take(k) =~= s.take(k));
    }
}

proof fn lemma_no_edge_dashes(s: Seq<char>)
    requires
        s.len() == 0 || (s[0] != '-' && s.last() != '-'),
    ensures
        trim_start_dashes(s) == s,
        trim_end_dashes(s) == s,
{
}

proof fn lemma_trim_start_suffix(s: Seq<char>) -> (k: int)
    ensures
        0 <= k <= s.len(),
        trim_start_dashes(s) == s.skip(k),
        trim_start_dashes(s).len() == 0 || trim_start_dashes(s)[0] != '-',
    decreases s.len(),
{
    if s.len() > 0 && s[0] == '-' {
        let k = lemma_trim_start_suffix(s.drop_first());
        assert(s.drop_first().skip(k) =~= s.skip(k + 1));
        k + 1
    } else {
        assert(s.skip(0) =~= s);
        0
    }
}

proof fn lemma_trim_end_prefix(s: Seq<char>) -> (k: int)
    ensures
        0 <= k <= s.len(),
        trim_end_dashes(s) == s.take(k),
        trim_end_dashes(s).len() == 0 || trim_end_dashes(s).last() != '-',
    decreases s.len(),
{
    if s.len() > 0 && s.last() == '-' {
        let k = lemma_trim_end_prefix(s.drop_last());
        assert(s.drop_last().take(k) =~= s.take(k));
        k
    } else {
        assert(s.take(s.len() as int) =~= s);
        s.len() as int
    }
}

/// Shape law: a route group holds no `/` and neither starts nor ends with `-`.
pub proof fn lemma_route_group_shape(route: Seq<char>)
    ensures
        forall|i: int| 0 <= i < route_group_of(route).len() ==> route_group_of(route)[i] != '/',
        route_group_of(route).len() > 0 ==> route_group_of(route)[0] != '-'
            && route_group_of(route).last() != '-',
{
    let d = dashed(route);
    let t = trim_start_dashes(d);
    let a = lemma_trim_start_suffix(d);
    let b = lemma_trim_end_prefix(t);
    let g = route_group_of(route);
    assert forall|i: int| 0 <= i < g.len() implies g[i] != '/' by {
        assert(g[i] == d[a + i]);
    }
    if g.len() > 0 {
        assert(g[0] == t[0]);
    }
}

/// Rewriting law: a route group is a contiguous piece of the route in which
/// each `/` became `-` and every other character is kept as it is; what lies
/// outside the piece is only `/` and `-`, and the piece neither starts nor
/// ends with `-` or `/`.
pub proof fn lemma_route_group_is_trimmed_route(route: Seq<char>)
    ensures
        exists|a: int, b: int|
            #![trigger route.subrange(a, b)]
            0 <= a <= b <= route.len()
            && route_group_of(route).len() == b - a
            && (forall|i: int| 0 <= i < b - a ==> #[trigger] route_group_of(route)[i] == (if route[a + i] == '/' { '-' } else { route[a + i] }))
            && (forall|j: int| 0 <= j < a ==> (route[j] == '/' || route[j] == '-'))
            && (forall|j: int| b <= j < route.len() ==> (route[j] == '/' || route[j] == '-'))
            && (a < b ==> route[a] != '/' && route[a] != '-' && route[b - 1] != '/' && route[b - 1] != '-'),
{
    let d = dashed(route);
    let t = trim_start_dashes(d);
    let a = lemma_trim_start_suffix(d);
    let k = lemma_trim_end_prefix(t);
    let b = a + k;
    let g = route_group_of(route);
    lemma_trim_start_prefix_dashes(d, a);
    lemma_trim_end_suffix_dashes(t, k);
    assert forall|i: int| 0 <= i < b - a implies #[trigger] g[i] == (if route[a + i] == '/' { '-' } else { route[a + i] }) by {
        assert(g[i] == d[a + i]);
    }
    assert forall|j: int| 0 <= j < a implies (route[j] == '/' || route[j] == '-') by {
        assert(d[j] == '-');
    }
    assert forall|j: int| b <= j < route.len() implies (route[j] == '/' || route[j] == '-') by {
        assert(t[j - a] == '-');
        assert(d[j] == t[j - a]);
    }
    if a < b {
        assert(g[0] == d[a]);
        assert(g[b - a - 1] == d[b - 1]);
    }
    assert(route.subrange(a, b) == route.subrange(a, b));
}

proof fn lemma_trim_start_prefix_dashes(s: Seq<char>, k: int)
    requires
        0 <= k <= s.len(),
        trim_start_dashes(s) == s.skip(k),
    ensures
        forall|j: int| 0 <= j < k ==> s[j] == '-',
    decreases s.len(),
{
    if s.len() > 0 && s[0] == '-' {
        if k > 0 {
            assert(s.drop_first().skip(k - 1) =~= s.skip(k));
            lemma_trim_start_prefix_dashes(s.drop_first(), k - 1);
            assert forall|j: int| 0 <= j < k implies s[j] == '-' by {
                if j > 0 {
                    assert(s[j] == s.drop_first()[j - 1]);
                }
            }
        } else {
            let r = lemma_trim_start_suffix(s.drop_first());
            assert(s.skip(0).len() == s.len());
            assert(s.drop_first().skip(r).len() < s.len());
        }
    } else {
        if k > 0 {
            assert(s.skip(k).len() < s.len());
        }
    }
}

proof fn lemma_trim_end_suffix_dashes(s: Seq<char>, k: int)
    requires
        0 <= k <= s.len(),
        trim_end_dashes(s) == s.take(k),
    ensures
        forall|j: int| k <= j < s.len() ==> s[j] == '-',
    decreases s.len(),
{
    if s.len() > 0 && s.last() == '-' {
        if k < s.len() {
            assert(s.drop_last().take(k) =~= s.take(k));
            lemma_trim_end_suffix_dashes(s.drop_last(), k);
            assert forall|j: int| k <= j < s.len() implies s[j] == '-' by {
                if j < s.len() - 1 {
                    assert(s[j] == s.drop_last()[j]);
                }
            }
        } else {
            let r = lemma_trim_end_prefix(s.drop_last());
            assert(s.drop_last().take(r).len() < s.len());
        }
    } else {
        if k < s.len() {
            assert(s.take(k).len() < s.len());
        }
    }
}

/// Idempotence law: normalizing a route group again changes nothing.
pub proof fn lemma_route_group_idempotent(route: Seq<char>)
    ensures
        route_group_of(route_group_of(route)) == route_group_of(route),
{
    let g = route_group_of(route);
    lemma_route_group_shape(route);
    assert(dashed(g) =~= g);
    lemma_no_edge_dashes(g);
}

/// Turns a route into its route group; identifier and payload pass through.
pub fn normalize(message: IngressMessage) -> (n: NormalizedMessage)
    ensures
        n.request_id == message.request_id,
        n.payload == message.payload,
        n.route_group@ == route_group_of(message.route@),
{
    let route = chars_of(message.route.as_str());
    let len = route.len();
    let ghost d = dashed(route@);
    let mut start: usize = 0;
    while start < len && (route[start] == '-' || route[start] == '/')
        invariant
            len == route@.len(),
            d == dashed(route@),
            start <= len,
            forall|j: int| 0 <= j < start ==> d[j] == '-',
        decreases len - start,
    {
        start = start + 1;
    }
    let mut end: usize = len;
    while end > start && (route[end - 1] == '-' || route[end - 1] == '/')
        invariant
            len == route@.len(),
            d == dashed(route@),
            start <= end <= len,
            forall|j: int| end <= j < len ==> d[j] == '-',
        decreases end - start,
    {
        end = end - 1;
    }
    let mut group = String::new();
    let mut k: usize = start;
    while k < end
        invariant
            len == route@.len(),
            d == dashed(route@),
            start <= k <= end <= len,
            group@ == d.subrange(start as int, k as int),
        decreases end - k,
    {
        let c = route[k];
        let mapped = if c == '/' { '-' } else { c };
        push_char(&mut group, mapped);
        assert(d.subrange(start as int, k + 1) =~= d.subrange(start as int, k as int).push(mapped));
        k = k + 1;
    }
    proof {
        lemma_trim_start_skip(d, start as int);
        lemma_trim_end_take(d.skip(start as int), end - start);
        assert(d.skip(start as int).take(end - start) =~= d.subrange(start as int, end as int));
    }
    NormalizedMessage { request_id: message.request_id, route_group: group, payload: message.payload }
}

} // verus!
