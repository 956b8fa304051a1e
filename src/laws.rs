use vstd::prelude::*;

use crate::model::{
    has_id, lemma_refreshed_from, lemma_refreshed_inv, lemma_refreshed_to, records_inv, refreshed,
    seal_id, sealed_id,
};
use crate::record::{destroyed_at, refresh_one, seal_config_valid, DraftView, RecordView};
use crate::store::{update_error, StoreError};

verus! {

/// Once a record is sealed until `seal_until`, an update at any time before
/// `seal_until` is refused as sealed.
pub proof fn lemma_seal_blocks_update(
    s: Seq<RecordView>,
    id: u64,
    seal_until: u64,
    auto_destroy_at: Option<u64>,
    now: u64,
    later: u64,
    d: DraftView,
)
    requires
        has_id(refreshed(s, now), id),
        seal_config_valid(Some(seal_until), auto_destroy_at),
        later < seal_until,
    ensures
        update_error(
            refreshed(seal_id(refreshed(s, now), id, Some(seal_until), auto_destroy_at, now), later),
            id,
            d,
        ) == Some(StoreError::Sealed),
{
    let s1 = refreshed(s, now);
    let s2 = seal_id(s1, id, Some(seal_until), auto_destroy_at, now);
    let s3 = refreshed(s2, later);
    let i = choose|i: int| 0 <= i < s1.len() && #[trigger] s1[i].id == id;
    assert(s2[i].id == id);
    assert(!destroyed_at(s2[i].auto_destroy_at, later));
    lemma_refreshed_to(s2, later);
    let k = choose|k: int| 0 <= k < s3.len() && #[trigger] s3[k] == refresh_one(s2[i], later);
    assert(s3[k].id == id && s3[k].is_sealed);
    assert(has_id(s3, id));
    assert(sealed_id(s3, id));
}

/// Once `seal_until` has passed, and while the record is not destroyed, an
/// update with a non-empty title succeeds.
pub proof fn lemma_update_after_unseal(
    s: Seq<RecordView>,
    id: u64,
    seal_until: u64,
    auto_destroy_at: Option<u64>,
    now: u64,
    later: u64,
    d: DraftView,
)
    requires
        records_inv(s),
        has_id(refreshed(s, now), id),
        seal_config_valid(Some(seal_until), auto_destroy_at),
        seal_until <= later,
        !destroyed_at(auto_destroy_at, later),
        d.title.len() > 0,
    ensures
        update_error(
            refreshed(seal_id(refreshed(s, now), id, Some(seal_until), auto_destroy_at, now), later),
            id,
            d,
        ) is None,
{
    let s1 = refreshed(s, now);
    let s2 = seal_id(s1, id, Some(seal_until), auto_destroy_at, now);
    let s3 = refreshed(s2, later);
    lemma_refreshed_inv(s, now);
    let i = choose|i: int| 0 <= i < s1.len() && #[trigger] s1[i].id == id;
    assert(s2[i].id == id);
    lemma_refreshed_to(s2, later);
    let k = choose|k: int| 0 <= k < s3.len() && #[trigger] s3[k] == refresh_one(s2[i], later);
    assert(s3[k].id == id);
    assert(has_id(s3, id));
    lemma_refreshed_from(s2, later);
    assert forall|m: int| 0 <= m < s3.len() && #[trigger] s3[m].id == id implies !s3[m].is_sealed by {
        let j = choose|j: int|
            0 <= j < s2.len() && !destroyed_at(s2[j].auto_destroy_at, later) && #[trigger] s3[m]
                == refresh_one(s2[j], later);
        assert(s2[j].id == s1[j].id);
        assert(j == i);
    }
    assert(!sealed_id(s3, id));
}

} // verus!
