//! What every component registry shares: a mapping from entity identity to
//! one behavior object, with each identity held at most once.

use vstd::prelude::*;

use crate::entities::EntityID;

verus! {

/// No two registry rows share an identity.
pub open spec fn keys_unique<T>(s: Seq<(EntityID, T)>) -> bool {
    forall|i: int, j: int| 0 <= i < j < s.len() ==> s[i].0 != s[j].0
}

/// Whether some row of `s` carries the identity `id`.
pub open spec fn has_key<T>(s: Seq<(EntityID, T)>, id: EntityID) -> bool {
    exists|i: int| 0 <= i < s.len() && s[i].0 == id
}

/// Whether some row before position `k` carries the identity `id`.
pub open spec fn has_key_before<T>(s: Seq<(EntityID, T)>, id: EntityID, k: int) -> bool {
    exists|i: int| 0 <= i < k && i < s.len() && s[i].0 == id
}

/// The row carrying `id` (meaningful when keys are unique).
pub open spec fn index_of_key<T>(s: Seq<(EntityID, T)>, id: EntityID) -> int {
    choose|i: int| 0 <= i < s.len() && s[i].0 == id
}

/// With unique keys, the row found for `id` is the only one carrying it.
pub proof fn lemma_index_of_key<T>(s: Seq<(EntityID, T)>, id: EntityID, i: int)
    requires
        keys_unique(s),
        0 <= i < s.len(),
        s[i].0 == id,
    ensures
        has_key(s, id),
        index_of_key(s, id) == i,
{
    assert(has_key(s, id));
    let j = index_of_key(s, id);
    if j != i {
        if i < j {
            assert(s[i].0 != s[j].0);
        } else {
            assert(s[j].0 != s[i].0);
        }
    }
}

/// What registering `(id, component)` leaves behind: the row for `id`
/// replaced if one exists, a new row appended otherwise.
pub open spec fn register_spec<T>(s: Seq<(EntityID, T)>, id: EntityID, component: T) -> Seq<
    (EntityID, T),
> {
    if has_key(s, id) {
        s.update(index_of_key(s, id), (id, component))
    } else {
        s.push((id, component))
    }
}

/// Insert or replace the behavior for `id`.
pub fn register<T: Copy>(rows: &mut Vec<(EntityID, T)>, id: EntityID, component: T)
    requires
        keys_unique(old(rows)@),
    ensures
        keys_unique(final(rows)@),
        final(rows)@ == register_spec(old(rows)@, id, component),
{
    let n = rows.len();
    let mut i: usize = 0;
    while i < n
        invariant
            n == rows@.len(),
            i <= n,
            keys_unique(rows@),
            *rows == *old(rows),
            forall|k: int| 0 <= k < i ==> rows@[k].0 != id,
        decreases n - i,
    {
        if rows[i].0 == id {
            proof {
                lemma_index_of_key(rows@, id, i as int);
            }
            rows.set(i, (id, component));
            proof {
                assert(forall|k: int| 0 <= k < rows@.len() ==> rows@[k].0 == old(rows)@[k].0);
            }
            return ;
        }
        i = i + 1;
    }
    proof {
        assert(!has_key(rows@, id)) by {
            if has_key(rows@, id) {
                let w = choose|k: int| 0 <= k < rows@.len() && rows@[k].0 == id;
                assert(rows@[w].0 != id);
            }
        }
    }
    rows.push((id, component));
    proof {
        assert(forall|k: int| 0 <= k < old(rows)@.len() ==> rows@[k] == old(rows)@[k]);
        assert(rows@[rows@.len() - 1].0 == id);
    }
}

} // verus!
