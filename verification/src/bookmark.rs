//! The anchor names of linked-to locations.

use vstd::prelude::*;

use rustc_hash::FxHashMap;

use crate::dom::BookmarkTable;
use crate::fxmap::{fx_get, fx_insert, fx_keys, fx_new};

verus! {

/// The name of every bookmarked location, for looking up anchors.
pub fn anchors(table: &BookmarkTable) -> (r: FxHashMap<u128, String>)
    ensures
        r@.dom() == table.by_location@.dom(),
        forall|k: u128| #[trigger]
            table.by_location@.contains_key(k) ==> r@[k]@ == table.by_location@[k].0@,
{
    let keys: Vec<u128> = fx_keys(&table.by_location);
    let mut out: FxHashMap<u128, String> = fx_new();
    let mut i: usize = 0;
    assert(out@.dom() =~= keys@.take(0).to_set());
    while i < keys.len()
        invariant
            i <= keys.len(),
            keys@.to_set() == table.by_location@.dom(),
            out@.dom() == keys@.take(i as int).to_set(),
            forall|k: u128| #[trigger]
                out@.contains_key(k) ==> out@[k]@ == table.by_location@[k].0@,
        decreases keys.len() - i,
    {
        let key: u128 = keys[i];
        assert(keys@.to_set().contains(key)) by {
            assert(keys@.contains(keys@[i as int]));
        }
        if let Some(bookmark) = fx_get(&table.by_location, key) {
            fx_insert(&mut out, key, bookmark.0.clone());
        }
        assert(out@.dom() =~= keys@.take(i + 1).to_set()) by {
            assert(keys@.take(i + 1) =~= keys@.take(i as int).push(key));
            broadcast use vstd::seq_lib::group_seq_properties;

        }
        i = i + 1;
    }
    assert(keys@.take(i as int) =~= keys@);
    out
}

} // verus!
