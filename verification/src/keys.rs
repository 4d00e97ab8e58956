//! Name/value settings: environment variables and explicit API keys.

use vstd::prelude::*;

verus! {

/// The views of name/value pairs.
pub open spec fn pairs_view(pairs: Seq<(String, String)>) -> Seq<(Seq<char>, Seq<char>)> {
    pairs.map_values(|p: (String, String)| (p.0@, p.1@))
}

/// The value given for `name`; when a name occurs more than once the last one counts,
/// as when the pairs are collected into a map.
pub open spec fn lookup(pairs: Seq<(Seq<char>, Seq<char>)>, name: Seq<char>) -> Option<Seq<char>>
    decreases pairs.len(),
{
    if pairs.len() == 0 {
        None
    } else if pairs.last().0 == name {
        Some(pairs.last().1)
    } else {
        lookup(pairs.drop_last(), name)
    }
}

/// The value given for `name`, if any (the last one when it occurs more than once).
pub fn find_value(pairs: &Vec<(String, String)>, name: &str) -> (value: Option<String>)
    ensures
        match value {
            Some(v) => lookup(pairs_view(pairs@), name@) == Some(v@),
            None => lookup(pairs_view(pairs@), name@) is None,
        },
{
    let wanted = String::from_str(name);
    let mut i: usize = pairs.len();
    assert(pairs@.take(i as int) =~= pairs@);
    while i > 0
        invariant
            i <= pairs@.len(),
            wanted@ == name@,
            lookup(pairs_view(pairs@), name@) == lookup(pairs_view(pairs@.take(i as int)), name@),
        decreases i,
    {
        let ghost prefix = pairs_view(pairs@.take(i as int));
        assert(prefix.last() == (pairs@[i - 1].0@, pairs@[i - 1].1@));
        assert(prefix.drop_last() =~= pairs_view(pairs@.take(i - 1)));
        if pairs[i - 1].0 == wanted {
            return Some(pairs[i - 1].1.clone());
        }
        i = i - 1;
    }
    None
}

} // verus!
