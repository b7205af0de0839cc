//! Shallow overlay of user YAML maps onto bundled defaults.
//!
//! A flat one-level merge where user keys replace bundled keys and
//! unmentioned bundled keys remain. No deep merge: these maps are flat
//! string-to-string maps.

use vstd::prelude::*;

use crate::config::str_map::{lemma_map_of_take_push, map_of};
use crate::config::YamlMap;
use crate::text::owned;

verus! {

/// Copies every entry of `overrides` into `base`, replacing entries with the
/// same key.
pub fn overlay(base: &mut YamlMap, overrides: YamlMap)
    requires
        old(base).wf(),
        overrides.wf(),
    ensures
        final(base).wf(),
        final(base)@ == old(base)@.union_prefer_right(overrides@),
{
    let n = overrides.len();
    let mut i: usize = 0;
    let ghost s = overrides.pairs();
    assert(s.take(0) =~= Seq::<(Seq<char>, String)>::empty());
    assert(map_of(s.take(0)) =~= Map::<Seq<char>, String>::empty());
    assert(old(base)@.union_prefer_right(Map::<Seq<char>, String>::empty()) =~= old(base)@);
    while i < n
        invariant
            n == s.len(),
            s == overrides.pairs(),
            overrides.wf(),
            i <= n,
            base.wf(),
            base@ == old(base)@.union_prefer_right(map_of(s.take(i as int))),
        decreases n - i,
    {
        let k = owned(overrides.key_at(i).as_str());
        let v = overrides.value_at(i).clone();
        proof {
            lemma_map_of_take_push(s, i as int);
            assert(old(base)@.union_prefer_right(map_of(s.take(i as int)).insert(k@, v))
                =~= old(base)@.union_prefer_right(map_of(s.take(i as int))).insert(k@, v));
        }
        base.insert(k, v);
        i = i + 1;
    }
    assert(s.take(n as int) =~= s);
}

} // verus!
