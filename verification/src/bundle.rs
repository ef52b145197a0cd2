//! Naming of the engine's data bundle.
//!
//! A bundle file name carries the language it serves as the part before the
//! first dot: `se.zhfst` serves `se`.

use vstd::prelude::*;

verus! {

use vstd::slice::slice_subrange;
use vstd::string::StringSliceAdditionalSpecFns;
use vstd::utf8::{decode_utf8, valid_utf8};
use crate::codec::{find_byte, find_first, lemma_find_first_props, utf8_string};

/// The byte prefix of `s` before the first dot, or all of `s` when it has
/// none.
pub open spec fn stem_bytes(s: Seq<u8>) -> Seq<u8> {
    let k = find_first(s, 46);
    if k < 0 {
        s
    } else {
        s.take(k)
    }
}

/// The language a bundle file name declares: the part before the first dot.
/// `None` only when that prefix is not valid UTF-8 on its own, which a
/// well-formed file name never produces.
pub fn language_of(file_name: &str) -> (r: Option<String>)
    ensures
        r is Some <==> valid_utf8(stem_bytes(file_name.spec_bytes())),
        r matches Some(lang) ==> lang@ == decode_utf8(stem_bytes(file_name.spec_bytes())),
{
    let b: &[u8] = file_name.as_bytes();
    let end: usize = match find_byte(b, 46) {
        Some(k) => k,
        None => b.len(),
    };
    proof {
        lemma_find_first_props(b@, 46);
        assert(b@.subrange(0, end as int) =~= stem_bytes(file_name.spec_bytes()));
    }
    utf8_string(slice_subrange(b, 0, end))
}

} // verus!
