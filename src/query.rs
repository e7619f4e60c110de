use vstd::prelude::*;

use crate::params::{bindings_map, ParamMap};
use crate::text::{find_char, lemma_split_first, split_on, split_str, strings_view};

verus! {

/// The bindings that a list of `&`-separated tokens makes: a token is split
/// at `=`; one that splits into exactly a name and a value binds the name
/// to the value, and any other token (no `=`, or more than one) binds
/// nothing.
pub open spec fn query_bindings(tokens: Seq<Seq<char>>) -> Seq<(Seq<char>, Seq<char>)>
    decreases tokens.len(),
{
    if tokens.len() == 0 {
        Seq::empty()
    } else {
        let prev = query_bindings(tokens.drop_last());
        let parts = split_on(tokens.last(), '=');
        if parts.len() == 2 {
            prev.push((parts[0], parts[1]))
        } else {
            prev
        }
    }
}

/// The arguments that a query string (the text after `?`) carries; a later
/// binding of a name replaces an earlier one.
pub open spec fn query_args(query: Seq<char>) -> Map<Seq<char>, Seq<char>> {
    bindings_map(query_bindings(split_on(query, '&')))
}

/// The query string of a request target: what follows its first `?`, if it
/// has one.
pub open spec fn query_of_target(target: Seq<char>) -> Option<Seq<char>> {
    if split_on(target, '?').len() > 1 {
        Some(target.skip(split_on(target, '?')[0].len() + 1 as int))
    } else {
        None
    }
}

/// The arguments of a request target; none where it has no query.
pub open spec fn target_args(target: Seq<char>) -> Map<Seq<char>, Seq<char>> {
    match query_of_target(target) {
        Some(q) => query_args(q),
        None => Map::empty(),
    }
}

/// Reads the arguments of a query string such as `a=1&b=2`.
pub fn parse_query(query: &str) -> (r: ParamMap)
    ensures
        r@ == query_args(query@),
{
    let tokens = split_str(query, '&');
    let mut args = ParamMap::new();
    let mut i: usize = 0;
    while i < tokens.len()
        invariant
            strings_view(tokens@) == split_on(query@, '&'),
            i <= tokens@.len(),
            args@ == bindings_map(query_bindings(strings_view(tokens@).take(i as int))),
        decreases tokens@.len() - i,
    {
        let parts = split_str(tokens[i].as_str(), '=');
        let ghost tv = strings_view(tokens@);
        assert(tv.take(i + 1).drop_last() =~= tv.take(i as int));
        assert(tv.take(i + 1).last() == tokens@[i as int]@);
        let ghost prev = query_bindings(tv.take(i as int));
        assert(strings_view(parts@) == split_on(tv[i as int], '='));
        if parts.len() == 2 {
            assert(strings_view(parts@)[0] == parts@[0]@);
            assert(strings_view(parts@)[1] == parts@[1]@);
            args.insert(parts[0].clone(), parts[1].clone());
            let ghost pair = (parts@[0]@, parts@[1]@);
            assert(query_bindings(tv.take(i + 1)) == prev.push(pair));
            assert(prev.push(pair).drop_last() =~= prev);
        } else {
            assert(query_bindings(tv.take(i + 1)) == prev);
        }
        i = i + 1;
    }
    assert(strings_view(tokens@).take(tokens@.len() as int) =~= strings_view(tokens@));
    args
}

/// The arguments of a request target: those of its query string, or none.
pub fn parse_target_args(target: &str) -> (r: ParamMap)
    ensures
        r@ == target_args(target@),
{
    match find_char(target, '?') {
        Some(k) => {
            proof {
                lemma_split_first(target@, '?', k as int);
            }
            let n = target.unicode_len();
            let query = target.substring_char(k + 1, n);
            assert(query@ =~= target@.skip(k + 1));
            assert(split_on(target@, '?')[0].len() == k);
            assert(query_of_target(target@) == Some(query@));
            parse_query(query)
        },
        None => {
            proof {
                lemma_split_first(target@, '?', target@.len() as int);
            }
            ParamMap::new()
        },
    }
}

} // verus!
