//! Helpers for the request log of the sidecar.
use vstd::prelude::*;
use vstd::string::{StrSliceExecFns, StringExecFns};

use crate::text::chars_of;
use crate::types::{after_last, last_index, last_index_of};

verus! {

/// The gRPC service and method that a request calls.
#[derive(Debug)]
pub struct Method {
    pub service: String,
    pub method: String,
}

/// The number of times `c` occurs in `s`.
pub open spec fn count_char(s: Seq<char>, c: char) -> nat
    decreases s.len(),
{
    if s.len() == 0 {
        0
    } else {
        count_char(s.drop_last(), c) + if s.last() == c {
            1nat
        } else {
            0nat
        }
    }
}

/// `s` up to (not including) its last `c`.
pub open spec fn before_last(s: Seq<char>, c: char) -> Seq<char> {
    s.subrange(0, last_index_of(s, c))
}

proof fn lemma_count_positive(s: Seq<char>, c: char)
    requires
        count_char(s, c) >= 1,
    ensures
        last_index_of(s, c) >= 0,
    decreases s.len(),
{
    if s.last() != c {
        lemma_count_positive(s.drop_last(), c);
    }
}

proof fn lemma_count_two(s: Seq<char>, c: char)
    requires
        count_char(s, c) >= 2,
    ensures
        last_index_of(s, c) >= 0,
        last_index_of(before_last(s, c), c) >= 0,
    decreases s.len(),
{
    if s.last() == c {
        assert(before_last(s, c) =~= s.drop_last());
        lemma_count_positive(s.drop_last(), c);
    } else {
        lemma_count_two(s.drop_last(), c);
        crate::types::lemma_last_index_of(s.drop_last(), c);
        assert(last_index_of(s, c) == last_index_of(s.drop_last(), c));
        assert(before_last(s, c) =~= before_last(s.drop_last(), c));
    }
}

/// The service and method of a gRPC request path such as
/// `/lekko.client.v1beta1.ConfigurationService/GetBoolValue`: the last two
/// segments between slashes. The path must have at least two slashes.
pub fn http_uri_to_method(uri: String) -> (m: Method)
    requires
        count_char(uri@, '/') >= 2,
    ensures
        m.method@ == after_last(uri@, '/'),
        m.service@ == after_last(before_last(uri@, '/'), '/'),
{
    proof {
        lemma_count_two(uri@, '/');
    }
    let chars = chars_of(uri.as_str());
    assert(chars@.subrange(0, chars@.len() as int) =~= chars@);
    let last = match last_index(&chars, chars.len(), '/') {
        Some(l) => l,
        None => {
            assert(false);
            0
        },
    };
    assert(before_last(uri@, '/') =~= chars@.subrange(0, last as int));
    let prev = match last_index(&chars, last, '/') {
        Some(p) => p,
        None => {
            assert(false);
            0
        },
    };
    assert(after_last(uri@, '/') =~= chars@.subrange(last + 1, chars@.len() as int));
    assert(after_last(before_last(uri@, '/'), '/') =~= chars@.subrange(prev + 1, last as int));
    Method {
        method: String::from_str(uri.as_str().substring_char(last + 1, chars.len())),
        service: String::from_str(uri.as_str().substring_char(prev + 1, last)),
    }
}

} // verus!
