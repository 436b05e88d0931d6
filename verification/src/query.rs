//! The query part of a request target: `key=value` parameters joined by `&`.
use vstd::prelude::*;

use crate::text::{chars_of, split, split_char, string_of, views};

verus! {

/// The `(key, value)` pairs of the given parameters, in order: the text
/// before the first `=` and the text between the first and the second `=`.
/// A parameter without `=` gives no pair.
pub open spec fn pairs_of(params: Seq<Seq<char>>) -> Seq<(Seq<char>, Seq<char>)>
    decreases params.len(),
{
    if params.len() == 0 {
        seq![]
    } else {
        let rest = pairs_of(params.drop_last());
        let kv = split(params.last(), '=');
        if kv.len() >= 2 {
            rest.push((kv[0], kv[1]))
        } else {
            rest
        }
    }
}

/// The `(key, value)` pairs of a query string, in the order in which they
/// stand.
pub open spec fn query_pairs(query: Seq<char>) -> Seq<(Seq<char>, Seq<char>)> {
    pairs_of(split(query, '&'))
}

/// The value of the last pair whose key is `key`.
pub open spec fn last_value(pairs: Seq<(Seq<char>, Seq<char>)>, key: Seq<char>) -> Option<Seq<char>>
    decreases pairs.len(),
{
    if pairs.len() == 0 {
        None
    } else if pairs.last().0 == key {
        Some(pairs.last().1)
    } else {
        last_value(pairs.drop_last(), key)
    }
}

/// The views of a list of string pairs.
pub open spec fn pair_views(v: Seq<(String, String)>) -> Seq<(Seq<char>, Seq<char>)> {
    Seq::new(v.len(), |i: int| (v[i].0@, v[i].1@))
}

/// The `(key, value)` pairs of `query`, in order.
pub fn query_params(query: &str) -> (r: Vec<(String, String)>)
    ensures
        pair_views(r@) == query_pairs(query@),
{
    let q = chars_of(query);
    let params = split_char(q.as_slice(), '&');
    let mut r: Vec<(String, String)> = Vec::new();
    let mut i: usize = 0;
    while i < params.len()
        invariant
            i <= params@.len(),
            views(params@) == split(query@, '&'),
            pair_views(r@) == pairs_of(views(params@).take(i as int)),
        decreases params@.len() - i,
    {
        let kv = split_char(params[i].as_slice(), '=');
        let ghost ps = views(params@).take(i + 1);
        assert(ps.drop_last() =~= views(params@).take(i as int));
        assert(ps.last() == params@[i as int]@);
        if kv.len() >= 2 {
            let k = string_of(kv[0].as_slice());
            let v = string_of(kv[1].as_slice());
            let ghost before = pair_views(r@);
            r.push((k, v));
            assert(pair_views(r@) =~= before.push((views(kv@)[0], views(kv@)[1])));
        }
        i += 1;
    }
    assert(views(params@).take(params@.len() as int) =~= views(params@));
    r
}

/// The value of the last parameter of `query` whose key is `key`.
pub fn query_value(query: &str, key: &str) -> (r: Option<String>)
    ensures
        match r {
            Some(v) => last_value(query_pairs(query@), key@) == Some(v@),
            None => last_value(query_pairs(query@), key@) is None,
        },
{
    let pairs = query_params(query);
    let kc = chars_of(key);
    let mut i: usize = pairs.len();
    assert(pair_views(pairs@).take(i as int) =~= pair_views(pairs@));
    while i > 0
        invariant
            i <= pairs@.len(),
            pair_views(pairs@) == query_pairs(query@),
            kc@ == key@,
            last_value(pair_views(pairs@), key@) == last_value(
                pair_views(pairs@).take(i as int),
                key@,
            ),
        decreases i,
    {
        let ghost ps = pair_views(pairs@).take(i as int);
        assert(ps.drop_last() =~= pair_views(pairs@).take(i - 1));
        assert(ps.last() == (pairs@[i - 1].0@, pairs@[i - 1].1@));
        let kk = chars_of(pairs[i - 1].0.as_str());
        if crate::text::chars_eq(kk.as_slice(), kc.as_slice()) {
            let v = chars_of(pairs[i - 1].1.as_str());
            return Some(string_of(v.as_slice()));
        }
        i -= 1;
    }
    assert(pair_views(pairs@).take(0) =~= Seq::<(Seq<char>, Seq<char>)>::empty());
    None
}

/// When a key is given more than once, its last value counts.
pub proof fn law_last_value_wins(
    pairs: Seq<(Seq<char>, Seq<char>)>,
    key: Seq<char>,
    value: Seq<char>,
)
    ensures
        last_value(pairs.push((key, value)), key) == Some(value),
{
    assert(pairs.push((key, value)).last() == (key, value));
}

/// A parameter `key=value` (neither holding `&` nor `=`) is the one pair of
/// a query made of it alone, and added after `&` at the end of any query it
/// becomes the last pair: its value is then the value of its key.
pub proof fn law_parameter_pairs(query: Seq<char>, key: Seq<char>, value: Seq<char>)
    requires
        !key.contains('&'),
        !key.contains('='),
        !value.contains('&'),
        !value.contains('='),
    ensures
        query_pairs(key + seq!['='] + value) == seq![(key, value)],
        query_pairs(query + seq!['&'] + (key + seq!['='] + value)) == query_pairs(query).push(
            (key, value),
        ),
        last_value(query_pairs(query + seq!['&'] + (key + seq!['='] + value)), key) == Some(
            value,
        ),
{
    let p = key + seq!['='] + value;
    assert(!p.contains('&')) by {
        if p.contains('&') {
            let j = choose|j: int| 0 <= j < p.len() && p[j] == '&';
            if j < key.len() {
                assert(key[j] == '&');
            } else if j > key.len() {
                assert(value[j - key.len() - 1] == '&');
            }
        }
    }
    crate::text::lemma_split_append(key, '=', value);
    crate::text::lemma_split_whole(key, '=');
    assert(split(p, '=') =~= seq![key, value]);
    crate::text::lemma_split_whole(p, '&');
    crate::text::lemma_split_append(query, '&', p);
    assert(seq![p].drop_last() =~= Seq::<Seq<char>>::empty());
    assert(seq![p].last() == p);
    assert(pairs_of(Seq::<Seq<char>>::empty()) == Seq::<(Seq<char>, Seq<char>)>::empty());
    assert(pairs_of(seq![p]) == pairs_of(seq![p].drop_last()).push((key, value)));
    assert(pairs_of(seq![p]) =~= seq![(key, value)]);
    assert(split(query, '&').push(p).drop_last() =~= split(query, '&'));
    law_last_value_wins(query_pairs(query), key, value);
}

} // verus!
