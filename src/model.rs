use vstd::prelude::*;

use crate::record::{
    destroyed_at, edited, refresh_one, seal_config_valid, sealed_at, sealed_with, DraftView,
    RecordView,
};

verus! {

/// Every record id occurs at most once.
pub open spec fn ids_distinct(s: Seq<RecordView>) -> bool {
    forall|i: int, j: int| 0 <= i < j < s.len() ==> s[i].id != s[j].id
}

/// Records stand in descending order of creation time.
pub open spec fn sorted_desc(s: Seq<RecordView>) -> bool {
    forall|i: int, j: int| 0 <= i < j < s.len() ==> s[i].created_at >= s[j].created_at
}

/// Every record's seal configuration is consistent.
pub open spec fn seals_valid(s: Seq<RecordView>) -> bool {
    forall|i: int| 0 <= i < s.len() ==> seal_config_valid(#[trigger] s[i].seal_until, s[i].auto_destroy_at)
}

/// The invariant of the store's record sequence.
pub open spec fn records_inv(s: Seq<RecordView>) -> bool {
    &&& ids_distinct(s)
    &&& sorted_desc(s)
    &&& seals_valid(s)
}

/// No record is past its destruction time, and every cached seal flag agrees with `now`.
pub open spec fn current_at(s: Seq<RecordView>, now: u64) -> bool {
    forall|i: int|
        0 <= i < s.len() ==> {
            &&& !destroyed_at(#[trigger] s[i].auto_destroy_at, now)
            &&& s[i].is_sealed == sealed_at(s[i].seal_until, now)
        }
}

pub open spec fn has_id(s: Seq<RecordView>, id: u64) -> bool {
    exists|i: int| 0 <= i < s.len() && #[trigger] s[i].id == id
}

pub open spec fn sealed_id(s: Seq<RecordView>, id: u64) -> bool {
    exists|i: int| 0 <= i < s.len() && #[trigger] s[i].id == id && s[i].is_sealed
}

/// The records that remain at `now`, with their seal flags brought up to date.
pub open spec fn refreshed(s: Seq<RecordView>, now: u64) -> Seq<RecordView>
    decreases s.len(),
{
    if s.len() == 0 {
        Seq::empty()
    } else {
        let rest = refreshed(s.drop_last(), now);
        if destroyed_at(s.last().auto_destroy_at, now) {
            rest
        } else {
            rest.push(refresh_one(s.last(), now))
        }
    }
}

/// A listing shows a record when it is not sealed, or when sealed records are asked for.
pub open spec fn shown(r: RecordView, include_sealed: bool) -> bool {
    include_sealed || !r.is_sealed
}

/// The records that a listing shows: sealed ones only when asked for.
pub open spec fn visible(s: Seq<RecordView>, include_sealed: bool) -> Seq<RecordView>
    decreases s.len(),
{
    if s.len() == 0 {
        Seq::empty()
    } else {
        let rest = visible(s.drop_last(), include_sealed);
        if shown(s.last(), include_sealed) {
            rest.push(s.last())
        } else {
            rest
        }
    }
}

/// The records after the record `id` is edited with the draft.
pub open spec fn edit_id(s: Seq<RecordView>, id: u64, d: DraftView, now: u64) -> Seq<RecordView> {
    s.map_values(|r: RecordView| if r.id == id { edited(r, d, now) } else { r })
}

/// The records after the record `id` is sealed with the given configuration.
pub open spec fn seal_id(
    s: Seq<RecordView>,
    id: u64,
    seal_until: Option<u64>,
    auto_destroy_at: Option<u64>,
    now: u64,
) -> Seq<RecordView> {
    s.map_values(
        |r: RecordView|
            if r.id == id {
                sealed_with(r, seal_until, auto_destroy_at, now)
            } else {
                r
            },
    )
}

/// Each record of `refreshed(s, now)` is the refreshed form of a record of `s` that remains.
pub proof fn lemma_refreshed_from(s: Seq<RecordView>, now: u64)
    ensures
        forall|k: int|
            0 <= k < refreshed(s, now).len() ==> exists|j: int|
                0 <= j < s.len() && !destroyed_at(s[j].auto_destroy_at, now)
                    && #[trigger] refreshed(s, now)[k] == refresh_one(s[j], now),
    decreases s.len(),
{
    if s.len() > 0 {
        let t = s.drop_last();
        lemma_refreshed_from(t, now);
        let rest = refreshed(t, now);
        assert forall|k: int| 0 <= k < refreshed(s, now).len() implies exists|j: int|
            0 <= j < s.len() && !destroyed_at(s[j].auto_destroy_at, now)
                && #[trigger] refreshed(s, now)[k] == refresh_one(s[j], now) by {
            if k < rest.len() {
                let j = choose|j: int|
                    0 <= j < t.len() && !destroyed_at(t[j].auto_destroy_at, now) && #[trigger] rest[k]
                        == refresh_one(t[j], now);
                assert(t[j] == s[j]);
                assert(refreshed(s, now)[k] == rest[k]);
            } else {
                assert(refreshed(s, now)[k] == refresh_one(s[s.len() - 1], now));
            }
        }
    }
}

/// Each record of `s` that remains at `now` appears, refreshed, in `refreshed(s, now)`.
pub proof fn lemma_refreshed_to(s: Seq<RecordView>, now: u64)
    ensures
        forall|j: int|
            0 <= j < s.len() && !destroyed_at(s[j].auto_destroy_at, now) ==> exists|k: int|
                0 <= k < refreshed(s, now).len() && #[trigger] refreshed(s, now)[k] == refresh_one(
                    #[trigger] s[j],
                    now,
                ),
    decreases s.len(),
{
    if s.len() > 0 {
        let t = s.drop_last();
        lemma_refreshed_to(t, now);
        let rest = refreshed(t, now);
        assert forall|j: int| 0 <= j < s.len() && !destroyed_at(s[j].auto_destroy_at, now) implies exists|k: int|
            0 <= k < refreshed(s, now).len() && #[trigger] refreshed(s, now)[k] == refresh_one(
                #[trigger] s[j],
                now,
            ) by {
            if j < t.len() {
                assert(t[j] == s[j]);
                let k = choose|k: int| 0 <= k < rest.len() && #[trigger] rest[k] == refresh_one(t[j], now);
                assert(refreshed(s, now)[k] == rest[k]);
            } else {
                assert(refreshed(s, now)[rest.len() as int] == refresh_one(s[j], now));
            }
        }
    }
}

/// Refreshing keeps the invariant and leaves every record current.
pub proof fn lemma_refreshed_inv(s: Seq<RecordView>, now: u64)
    requires
        records_inv(s),
    ensures
        records_inv(refreshed(s, now)),
        current_at(refreshed(s, now), now),
    decreases s.len(),
{
    lemma_refreshed_from(s, now);
    if s.len() > 0 {
        let t = s.drop_last();
        lemma_refreshed_inv(t, now);
        lemma_refreshed_from(t, now);
        let rest = refreshed(t, now);
        let x = s.last();
        assert forall|k: int| 0 <= k < rest.len() implies rest[k].created_at >= x.created_at
            && rest[k].id != x.id by {
            let j = choose|j: int|
                0 <= j < t.len() && !destroyed_at(t[j].auto_destroy_at, now) && #[trigger] rest[k]
                    == refresh_one(t[j], now);
            assert(t[j] == s[j]);
        }
        let r = refreshed(s, now);
        assert forall|i: int| 0 <= i < r.len() implies seal_config_valid(#[trigger] r[i].seal_until, r[i].auto_destroy_at)
            && !destroyed_at(r[i].auto_destroy_at, now)
            && r[i].is_sealed == sealed_at(r[i].seal_until, now) by {
            let j = choose|j: int|
                0 <= j < s.len() && !destroyed_at(s[j].auto_destroy_at, now) && #[trigger] r[i]
                    == refresh_one(s[j], now);
        }
    }
}

/// A listing shows only records that it may show, and keeps any property that every record has.
pub proof fn lemma_visible_keeps(s: Seq<RecordView>, include_sealed: bool, p: spec_fn(RecordView) -> bool)
    requires
        forall|i: int| 0 <= i < s.len() ==> p(#[trigger] s[i]),
    ensures
        forall|k: int|
            0 <= k < visible(s, include_sealed).len() ==> p(#[trigger] visible(s, include_sealed)[k])
                && shown(visible(s, include_sealed)[k], include_sealed),
    decreases s.len(),
{
    if s.len() > 0 {
        let t = s.drop_last();
        assert forall|i: int| 0 <= i < t.len() implies p(#[trigger] t[i]) by {
            assert(t[i] == s[i]);
        }
        lemma_visible_keeps(t, include_sealed, p);
        let rest = visible(t, include_sealed);
        let v = visible(s, include_sealed);
        assert forall|k: int| 0 <= k < v.len() implies p(#[trigger] v[k]) && shown(v[k], include_sealed) by {
            if k < rest.len() {
                assert(v[k] == rest[k]);
            } else {
                assert(v[k] == s[s.len() - 1]);
            }
        }
    }
}

/// A listing keeps the order, the distinct ids and the currency of the records.
pub proof fn lemma_visible_inv(s: Seq<RecordView>, include_sealed: bool, now: u64)
    requires
        records_inv(s),
        current_at(s, now),
    ensures
        records_inv(visible(s, include_sealed)),
        current_at(visible(s, include_sealed), now),
    decreases s.len(),
{
    if s.len() > 0 {
        let t = s.drop_last();
        assert(records_inv(t) && current_at(t, now)) by {
            assert forall|i: int| 0 <= i < t.len() implies t[i] == s[i] by {}
        }
        lemma_visible_inv(t, include_sealed, now);
        let x = s.last();
        let p = |r: RecordView| r.created_at >= x.created_at && r.id != x.id;
        assert forall|i: int| 0 <= i < t.len() implies p(#[trigger] t[i]) by {
            assert(t[i] == s[i]);
        }
        lemma_visible_keeps(t, include_sealed, p);
        let q = |r: RecordView|
            seal_config_valid(r.seal_until, r.auto_destroy_at) && !destroyed_at(r.auto_destroy_at, now)
                && r.is_sealed == sealed_at(r.seal_until, now);
        assert forall|i: int| 0 <= i < s.len() implies q(#[trigger] s[i]) by {}
        lemma_visible_keeps(s, include_sealed, q);
    }
}

} // verus!
