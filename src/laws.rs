use vstd::prelude::*;

use crate::method::Method;
use crate::router::{
    bind_segments, extract_params, first_match, first_match_from, is_wildcard, pattern_matches,
    route_matches, strip_query, wildcard_name,
};
use crate::params::bindings_map;
use crate::query::{query_args, query_bindings};
use crate::text::{lemma_split_first, split_on};

verus! {

/// A route that fits, with none fitting before it from `j` on, is the one
/// found from `j`.
proof fn lemma_first_match_reaches(
    routes: Seq<(Method, Seq<char>)>,
    m: Method,
    path: Seq<char>,
    i: int,
    j: int,
)
    requires
        0 <= j <= i < routes.len(),
        route_matches(routes[i], m, path),
        forall|l: int| j <= l < i ==> !route_matches(#[trigger] routes[l], m, path),
    ensures
        first_match_from(routes, m, path, j) == Some(i),
    decreases i - j,
{
    if j < i {
        lemma_first_match_reaches(routes, m, path, i, j + 1);
    }
}

/// What is found from `j` fits and lies no later than any route that fits.
proof fn lemma_first_match_is_first(
    routes: Seq<(Method, Seq<char>)>,
    m: Method,
    path: Seq<char>,
    j: int,
    k: int,
)
    requires
        0 <= j <= k < routes.len(),
        route_matches(routes[k], m, path),
    ensures
        first_match_from(routes, m, path, j) is Some,
        first_match_from(routes, m, path, j)->0 <= k,
    decreases k - j,
{
    if j < k && !route_matches(routes[j], m, path) {
        lemma_first_match_is_first(routes, m, path, j + 1, k);
    }
}

/// Where no route for the method fits from `j` on, nothing is found.
proof fn lemma_no_match_from(routes: Seq<(Method, Seq<char>)>, m: Method, path: Seq<char>, j: int)
    requires
        0 <= j,
        forall|l: int| j <= l < routes.len() ==> !route_matches(#[trigger] routes[l], m, path),
    ensures
        first_match_from(routes, m, path, j) is None,
    decreases routes.len() - j,
{
    if j < routes.len() {
        lemma_no_match_from(routes, m, path, j + 1);
    }
}

/// A wildcard at position `k` binds its name to the path segment at `k`,
/// where no wildcard after it, up to `n`, bears the same name.
proof fn lemma_wildcard_binds(path: Seq<Seq<char>>, pat: Seq<Seq<char>>, n: nat, k: int)
    requires
        0 <= k < n,
        n <= pat.len(),
        is_wildcard(pat[k]),
        forall|l: int|
            k < l < n && is_wildcard(#[trigger] pat[l]) ==> wildcard_name(pat[l]) != wildcard_name(
                pat[k],
            ),
    ensures
        bind_segments(path, pat, n).contains_key(wildcard_name(pat[k])),
        bind_segments(path, pat, n)[wildcard_name(pat[k])] == path[k],
    decreases n,
{
    if n - 1 > k {
        lemma_wildcard_binds(path, pat, (n - 1) as nat, k);
        assert(is_wildcard(pat[n - 1]) ==> wildcard_name(pat[n - 1]) != wildcard_name(pat[k]));
    }
}

/// Positional binding: when the route at `i` is the first registered for
/// method `m` whose pattern fits the path of `target`, lookup picks it, and
/// each wildcard of its pattern binds its name to the path segment at the
/// same position (a later wildcard of the same name overrides it).
pub proof fn lemma_find_binds_wildcards(
    routes: Seq<(Method, Seq<char>)>,
    m: Method,
    target: Seq<char>,
    i: int,
    k: int,
)
    requires
        0 <= i < routes.len(),
        routes[i].0 == m,
        pattern_matches(strip_query(target), routes[i].1),
        forall|l: int| 0 <= l < i ==> !route_matches(#[trigger] routes[l], m, strip_query(target)),
        0 <= k < split_on(routes[i].1, '/').len(),
        is_wildcard(split_on(routes[i].1, '/')[k]),
        forall|l: int|
            k < l < split_on(routes[i].1, '/').len() && is_wildcard(
                #[trigger] split_on(routes[i].1, '/')[l],
            ) ==> wildcard_name(split_on(routes[i].1, '/')[l]) != wildcard_name(
                split_on(routes[i].1, '/')[k],
            ),
    ensures
        first_match(routes, m, target) == Some(i),
        extract_params(strip_query(target), routes[i].1).contains_key(
            wildcard_name(split_on(routes[i].1, '/')[k]),
        ),
        extract_params(strip_query(target), routes[i].1)[wildcard_name(
            split_on(routes[i].1, '/')[k],
        )] == split_on(strip_query(target), '/')[k],
{
    lemma_first_match_reaches(routes, m, strip_query(target), i, 0);
    let pat = split_on(routes[i].1, '/');
    let ps = split_on(strip_query(target), '/');
    lemma_wildcard_binds(ps, pat, pat.len(), k);
}

/// Segment count: where every pattern registered for method `m` has a
/// different number of `/`-separated segments than the path of `target`,
/// lookup finds no route.
pub proof fn lemma_segment_count_mismatch(
    routes: Seq<(Method, Seq<char>)>,
    m: Method,
    target: Seq<char>,
)
    requires
        forall|l: int|
            0 <= l < routes.len() && (#[trigger] routes[l]).0 == m ==> split_on(routes[l].1, '/').len()
                != split_on(strip_query(target), '/').len(),
    ensures
        first_match(routes, m, target) is None,
{
    lemma_no_match_from(routes, m, strip_query(target), 0);
}

/// Precedence: of two routes for the same method whose patterns both fit
/// the path of `target`, the one registered earlier is picked, never the
/// later one.
pub proof fn lemma_earlier_route_wins(
    routes: Seq<(Method, Seq<char>)>,
    m: Method,
    target: Seq<char>,
    i: int,
    j: int,
)
    requires
        0 <= i < j < routes.len(),
        route_matches(routes[i], m, strip_query(target)),
        route_matches(routes[j], m, strip_query(target)),
    ensures
        first_match(routes, m, target) is Some,
        first_match(routes, m, target)->0 <= i,
        first_match(routes, m, target) != Some(j),
{
    lemma_first_match_is_first(routes, m, strip_query(target), 0, i);
}

/// Text after a last separator that holds no separator becomes one more
/// piece.
proof fn lemma_split_after_sep(a: Seq<char>, sep: char, b: Seq<char>)
    requires
        forall|j: int| 0 <= j < b.len() ==> b[j] != sep,
    ensures
        split_on(a.push(sep) + b, sep) == split_on(a, sep).push(b),
    decreases b.len(),
{
    let s = a.push(sep) + b;
    if b.len() == 0 {
        assert(s =~= a.push(sep));
        assert(s.drop_last() =~= a);
        assert(b =~= Seq::<char>::empty());
    } else {
        let b0 = b.drop_last();
        lemma_split_after_sep(a, sep, b0);
        assert(s.drop_last() =~= a.push(sep) + b0);
        assert(s.last() == b.last());
        assert(b0.push(b.last()) =~= b);
        assert(split_on(a, sep).push(b0).update(split_on(a, sep).len() as int, b0.push(b.last()))
            =~= split_on(a, sep).push(b));
    }
}

/// Text without a separator is a single piece.
proof fn lemma_split_whole(t: Seq<char>, sep: char)
    requires
        forall|j: int| 0 <= j < t.len() ==> t[j] != sep,
    ensures
        split_on(t, sep) == seq![t],
{
    lemma_split_first(t, sep, t.len() as int);
    assert(t.take(t.len() as int) =~= t);
    assert(split_on(t, sep) =~= seq![t]);
}

/// Malformed tokens are dropped: appending to a query a token with no `=`
/// (and no `&`) leaves its arguments as they were.
pub proof fn lemma_malformed_token_dropped(query: Seq<char>, token: Seq<char>)
    requires
        forall|j: int| 0 <= j < token.len() ==> token[j] != '=' && token[j] != '&',
    ensures
        query_args(query.push('&') + token) == query_args(query),
{
    lemma_split_after_sep(query, '&', token);
    lemma_split_whole(token, '=');
    let ts = split_on(query, '&');
    assert(ts.push(token).drop_last() =~= ts);
}

/// Duplicate names: appending `name=value` to any query binds `name` to
/// `value`, whatever earlier tokens bound it to, where neither holds a `=`
/// or a `&`.
pub proof fn lemma_last_duplicate_wins(query: Seq<char>, name: Seq<char>, value: Seq<char>)
    requires
        plain_text(name),
        plain_text(value),
    ensures
        query_args(query.push('&') + name.push('=') + value).contains_key(name),
        query_args(query.push('&') + name.push('=') + value)[name] == value,
{
    let token = name.push('=') + value;
    assert(query.push('&') + name.push('=') + value =~= query.push('&') + token);
    lemma_pair_token(name, value);
    lemma_split_after_sep(query, '&', token);
    let ts = split_on(query, '&');
    assert(ts.push(token).drop_last() =~= ts);
    let prev = query_bindings(ts);
    assert(query_bindings(ts.push(token)) == prev.push((name, value)));
    assert(prev.push((name, value)).drop_last() =~= prev);
}

/// Text that holds neither `&` nor `=`.
pub open spec fn plain_text(t: Seq<char>) -> bool {
    forall|j: int| 0 <= j < t.len() ==> t[j] != '&' && t[j] != '='
}

/// Pairs whose names and values are all plain text.
pub open spec fn plain_pairs(ps: Seq<(Seq<char>, Seq<char>)>) -> bool {
    forall|i: int| 0 <= i < ps.len() ==> plain_text((#[trigger] ps[i]).0) && plain_text(ps[i].1)
}

/// The query string `k1=v1&...&kn=vn` written from a list of pairs.
pub open spec fn join_query(ps: Seq<(Seq<char>, Seq<char>)>) -> Seq<char>
    decreases ps.len(),
{
    if ps.len() == 0 {
        Seq::empty()
    } else if ps.len() == 1 {
        ps[0].0.push('=') + ps[0].1
    } else {
        join_query(ps.drop_last()).push('&') + ps.last().0.push('=') + ps.last().1
    }
}

/// A token `name=value` of plain texts holds no `&` and splits at `=` into
/// exactly its name and its value.
proof fn lemma_pair_token(name: Seq<char>, value: Seq<char>)
    requires
        plain_text(name),
        plain_text(value),
    ensures
        forall|j: int|
            0 <= j < (name.push('=') + value).len() ==> (name.push('=') + value)[j] != '&',
        split_on(name.push('=') + value, '=') == seq![name, value],
{
    let token = name.push('=') + value;
    assert forall|j: int| 0 <= j < token.len() implies token[j] != '&' by {
        if j < name.len() {
            assert(token[j] == name[j]);
        } else if j > name.len() {
            assert(token[j] == value[j - name.len() - 1]);
        }
    }
    assert forall|j: int| 0 <= j < value.len() implies value[j] != '=' by {}
    assert forall|j: int| 0 <= j < name.len() implies name[j] != '=' by {}
    lemma_split_after_sep(name, '=', value);
    lemma_split_whole(name, '=');
    assert(split_on(token, '=') =~= seq![name, value]);
}

/// Well-formed queries: reading `k1=v1&...&kn=vn`, where every name and
/// value is free of `&` and `=`, makes exactly the bindings `ki -> vi` in
/// order, so its arguments are those pairs with later names overriding.
pub proof fn lemma_well_formed_query(ps: Seq<(Seq<char>, Seq<char>)>)
    requires
        plain_pairs(ps),
    ensures
        query_bindings(split_on(join_query(ps), '&')) == ps,
        query_args(join_query(ps)) == bindings_map(ps),
    decreases ps.len(),
{
    if ps.len() == 0 {
        let e = Seq::<char>::empty();
        assert(split_on(e, '&') =~= seq![e]);
        assert(seq![e].drop_last() =~= Seq::<Seq<char>>::empty());
        assert(split_on(e, '=') =~= seq![e]);
        assert(seq![e].last() == e);
        let none = Seq::<Seq<char>>::empty();
        assert(query_bindings(none) == Seq::<(Seq<char>, Seq<char>)>::empty());
        assert(query_bindings(seq![e]) == query_bindings(none));
        assert(query_bindings(seq![e]) =~= ps);
    } else {
        let k = ps.last().0;
        let v = ps.last().1;
        assert(plain_text(ps[ps.len() - 1].0) && plain_text(ps[ps.len() - 1].1));
        lemma_pair_token(k, v);
        let token = k.push('=') + v;
        if ps.len() == 1 {
            lemma_split_whole(token, '&');
            let none = Seq::<Seq<char>>::empty();
            assert(seq![token].drop_last() =~= none);
            assert(seq![token].last() == token);
            assert(query_bindings(none) == Seq::<(Seq<char>, Seq<char>)>::empty());
            assert(query_bindings(seq![token]) == query_bindings(none).push((k, v)));
            assert(ps[0] == (k, v));
            assert(query_bindings(seq![token]) =~= ps);
        } else {
            let prev = ps.drop_last();
            assert(plain_pairs(prev)) by {
                assert forall|i: int| 0 <= i < prev.len() implies plain_text(
                    (#[trigger] prev[i]).0,
                ) && plain_text(prev[i].1) by {
                    assert(prev[i] == ps[i]);
                }
            }
            lemma_well_formed_query(prev);
            let q = join_query(prev);
            assert(join_query(ps) =~= q.push('&') + token);
            lemma_split_after_sep(q, '&', token);
            let ts = split_on(q, '&');
            assert(ts.push(token).drop_last() =~= ts);
            assert(query_bindings(ts.push(token)) =~= ps);
        }
    }
}

/// Idempotence: reading a well-formed query `join_query(p)`, writing the
/// arguments it gave back out as any well-formed list of pairs `q`, and
/// reading that again gives the same arguments.
pub proof fn lemma_query_idempotent(p: Seq<(Seq<char>, Seq<char>)>, q: Seq<(Seq<char>, Seq<char>)>)
    requires
        plain_pairs(p),
        plain_pairs(q),
        bindings_map(q) == query_args(join_query(p)),
    ensures
        query_args(join_query(q)) == query_args(join_query(p)),
{
    lemma_well_formed_query(p);
    lemma_well_formed_query(q);
}

} // verus!
