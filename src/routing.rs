//! Choosing the rules for one request.
use vstd::prelude::*;

use crate::resolver::{duplicate_all, views, Resolver};
use crate::text::{find_char, first_index};
use crate::Error;

verus! {

/// The release key of a request id: the id up to its first `/`, or the
/// whole id where it has none.
pub open spec fn spec_release_key_of(id: Seq<char>) -> Seq<char> {
    match first_index(id, '/') {
        Some(i) => id.take(i),
        None => id,
    }
}

/// The release key of a request id.
pub fn release_key_of(id: &str) -> (r: String)
    ensures
        r@ == spec_release_key_of(id@),
{
    match find_char(id, '/') {
        Some(i) => {
            let k = id.substring_char(0, i);
            assert(k@ =~= id@.take(i as int));
            String::from_str(k)
        },
        None => String::from_str(id),
    }
}

/// The rules for a request: those resolved for its release followed by
/// the configured ones, or the configured ones alone where resolution
/// failed.
pub fn combine_resolvers(resolved: Result<Vec<Resolver>, Error>, configured: &Vec<Resolver>) -> (r:
    Vec<Resolver>)
    ensures
        match resolved {
            Ok(v) => views(r@) == views(v@) + views(configured@),
            Err(_) => views(r@) == views(configured@),
        },
{
    let mut extra = duplicate_all(configured);
    match resolved {
        Ok(v) => {
            let mut out = v;
            let ghost a = out@;
            let ghost b = extra@;
            out.append(&mut extra);
            assert(out@ == a + b);
            assert(views(out@) =~= views(a) + views(b));
            out
        },
        Err(_) => extra,
    }
}

} // verus!
