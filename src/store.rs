use vstd::prelude::*;

use crate::model::{
    current_at, ids_distinct, seals_valid, sorted_desc, edit_id, has_id, lemma_refreshed_inv, lemma_visible_inv, records_inv, refreshed,
    seal_id, sealed_id, visible,
};
use crate::record::{
    destroyed_at, edited, evaluate, is_sealed_at, new_record, refresh_one, seal_config_valid,
    sealed_at, sealed_with, DraftView, EmotionalRecord, RecordDraft, RecordState, RecordView,
    SealConfig,
};

verus! {

/// Why a store operation was refused.
#[derive(PartialEq, Eq, Structural, Debug, Clone, Copy)]
pub enum StoreError {
    /// The id names no record: it was never issued, or the record is gone.
    NotFound,
    /// The input is malformed: an empty title, or destruction not after un-sealing.
    ValidationError,
    /// The record is sealed and cannot be changed.
    Sealed,
}

/// The owner of all records. Every operation on records takes the current time and first
/// removes the records whose destruction time has come and brings every seal
/// flag up to date.
pub struct RecordStore {
    records: Vec<EmotionalRecord>,
    next_id: u64,
}

pub open spec fn records_view(v: Seq<EmotionalRecord>) -> Seq<RecordView> {
    v.map_values(|r: EmotionalRecord| r@)
}

/// A persisted record set that a store can be rebuilt from: the record
/// invariant holds and every id lies below the next id to hand out.
pub open spec fn parts_valid(s: Seq<RecordView>, next_id: u64) -> bool {
    &&& records_inv(s)
    &&& forall|i: int| 0 <= i < s.len() ==> #[trigger] s[i].id < next_id
}

/// Why `update` refuses, if it does.
pub open spec fn update_error(s: Seq<RecordView>, id: u64, d: DraftView) -> Option<StoreError> {
    if !has_id(s, id) {
        Some(StoreError::NotFound)
    } else if sealed_id(s, id) {
        Some(StoreError::Sealed)
    } else if d.title.len() == 0 {
        Some(StoreError::ValidationError)
    } else {
        None
    }
}

/// Why `seal` refuses, if it does.
pub open spec fn seal_error(s: Seq<RecordView>, id: u64, c: SealConfig) -> Option<StoreError> {
    if !has_id(s, id) {
        Some(StoreError::NotFound)
    } else if !seal_config_valid(c.seal_until, c.auto_destroy_at) {
        Some(StoreError::ValidationError)
    } else {
        None
    }
}

/// Decides `parts_valid`, comparing every pair of records.
fn check_parts(v: &Vec<EmotionalRecord>, next_id: u64) -> (r: bool)
    ensures
        r == parts_valid(records_view(v@), next_id),
{
    let ghost s = records_view(v@);
    let mut i: usize = 0;
    while i < v.len()
        invariant
            i <= v@.len(),
            s == records_view(v@),
            forall|a: int, b: int|
                0 <= a < b < i ==> s[a].id != s[b].id && s[a].created_at >= s[b].created_at,
            forall|a: int|
                0 <= a < i ==> #[trigger] s[a].id < next_id && seal_config_valid(
                    s[a].seal_until,
                    s[a].auto_destroy_at,
                ),
        decreases v@.len() - i,
    {
        let x = &v[i];
        assert(s[i as int] == x@);
        if x.id >= next_id {
            assert(!(s[i as int].id < next_id));
            return false;
        }
        match (x.seal_until, x.auto_destroy_at) {
            (Some(u), Some(d)) => {
                if d <= u {
                    assert(!seal_config_valid(s[i as int].seal_until, s[i as int].auto_destroy_at));
                    return false;
                }
            },
            _ => {},
        }
        let mut j: usize = 0;
        while j < i
            invariant
                j <= i < v@.len(),
                s == records_view(v@),
                s[i as int] == x@,
                forall|a: int| 0 <= a < j ==> s[a].id != s[i as int].id && s[a].created_at >= s[i as int].created_at,
            decreases i - j,
        {
            assert(s[j as int] == v@[j as int]@);
            if v[j].id == x.id || v[j].created_at < x.created_at {
                assert(!(s[j as int].id != s[i as int].id && s[j as int].created_at >= s[i as int].created_at));
                return false;
            }
            j = j + 1;
        }
        i = i + 1;
    }
    assert(s.len() == v@.len());
    assert(seals_valid(s)) by {
        assert forall|a: int| 0 <= a < s.len() implies seal_config_valid(
            #[trigger] s[a].seal_until,
            s[a].auto_destroy_at,
        ) by {
            assert(s[a].id < next_id);
        }
    }
    assert(ids_distinct(s) && sorted_desc(s));
    true
}

impl View for RecordStore {
    type V = Seq<RecordView>;

    closed spec fn view(&self) -> Seq<RecordView> {
        records_view(self.records@)
    }
}

impl RecordStore {
    /// Every id that the store has ever handed out, whether or not its record still exists.
    pub closed spec fn issued_ids(&self) -> Set<u64> {
        Set::new(|i: u64| i < self.next_id)
    }

    /// The id that the next `create` hands out.
    pub closed spec fn next_id_spec(&self) -> u64 {
        self.next_id
    }

    pub closed spec fn wf(&self) -> bool {
        parts_valid(self@, self.next_id)
    }

    /// Every live record carries an issued id, ids are distinct, and the
    /// records stand newest first.
    pub proof fn lemma_live_ids_issued(&self)
        requires
            self.wf(),
        ensures
            forall|i: int| 0 <= i < self@.len() ==> self.issued_ids().contains(#[trigger] self@[i].id),
            records_inv(self@),
    {
    }

    /// A snapshot of a well-formed store is a record set that `restore` accepts.
    pub proof fn lemma_snapshot_restorable(&self)
        requires
            self.wf(),
        ensures
            parts_valid(self@, self.next_id_spec()),
    {
    }

    /// The id that the next `create` hands out.
    pub fn next_id(&self) -> (r: u64)
        ensures
            r == self.next_id_spec(),
    {
        self.next_id
    }

    /// A copy of every record held, in the store's order (newest first).
    pub fn records(&self) -> (r: Vec<EmotionalRecord>)
        ensures
            records_view(r@) == self@,
    {
        let ghost s = self@;
        let mut out: Vec<EmotionalRecord> = Vec::new();
        let mut i: usize = 0;
        while i < self.records.len()
            invariant
                i <= self.records@.len(),
                s == self@,
                s.len() == self.records@.len(),
                records_view(out@) == s.take(i as int),
            decreases self.records@.len() - i,
        {
            let rec = &self.records[i];
            let c = rec.copy_with_seal_flag(rec.is_sealed);
            assert(c@ == s[i as int]);
            out.push(c);
            assert(records_view(out@) =~= s.take(i as int).push(s[i as int]));
            i = i + 1;
            assert(s.take(i as int) =~= s.take(i as int - 1).push(s[i as int - 1]));
        }
        assert(s.take(s.len() as int) =~= s);
        out
    }

    /// Rebuilds a store from a persisted record set, which must be valid.
    pub fn restore(records: Vec<EmotionalRecord>, next_id: u64) -> (r: Result<RecordStore, StoreError>)
        ensures
            (r is Ok) == parts_valid(records_view(records@), next_id),
            match r {
                Ok(s) => {
                    &&& s.wf()
                    &&& s@ == records_view(records@)
                    &&& s.next_id_spec() == next_id
                },
                Err(e) => e == StoreError::ValidationError,
            },
    {
        if check_parts(&records, next_id) {
            Ok(RecordStore { records, next_id })
        } else {
            Err(StoreError::ValidationError)
        }
    }

    /// An empty store.
    pub fn new() -> (r: RecordStore)
        ensures
            r.wf(),
            r@.len() == 0,
            r.issued_ids().is_empty(),
            r.next_id_spec() == 0,
    {
        let r = RecordStore { records: Vec::new(), next_id: 0 };
        assert(r.issued_ids() =~= Set::empty());
        r
    }

    /// Whether another record can be created: ids are never reused, so they can run out.
    pub fn can_create(&self) -> (r: bool)
        ensures
            r == (self.next_id_spec() < u64::MAX),
    {
        self.next_id < u64::MAX
    }

    /// Number of records held, including any whose destruction is due but not yet applied.
    pub fn len(&self) -> (r: usize)
        ensures
            r == self@.len(),
    {
        self.records.len()
    }

    /// Removes the records destroyed at `now` and brings every seal flag up to date.
    pub fn refresh(&mut self, now: u64)
        requires
            old(self).wf(),
        ensures
            final(self).wf(),
            final(self)@ == refreshed(old(self)@, now),
            current_at(final(self)@, now),
            final(self).issued_ids() == old(self).issued_ids(),
            final(self).next_id_spec() == old(self).next_id_spec(),
    {
        let ghost s = self@;
        let mut out: Vec<EmotionalRecord> = Vec::new();
        let mut i: usize = 0;
        while i < self.records.len()
            invariant
                i <= self.records@.len(),
                s == self@,
                s.len() == self.records@.len(),
                records_view(out@) == refreshed(s.take(i as int), now),
            decreases self.records@.len() - i,
        {
            let ghost t = s.take(i as int + 1);
            assert(t.drop_last() =~= s.take(i as int));
            assert(t.last() == s[i as int]);
            let r = &self.records[i];
            let state = evaluate(r, now);
            if state != RecordState::Destroyed {
                let c = r.copy_with_seal_flag(state == RecordState::Sealed);
                out.push(c);
                assert(records_view(out@) =~= refreshed(s.take(i as int), now).push(
                    refresh_one(s[i as int], now),
                ));
            }
            i = i + 1;
        }
        assert(s.take(s.len() as int) =~= s);
        self.records = out;
        proof {
            lemma_refreshed_inv(s, now);
            crate::model::lemma_refreshed_from(s, now);
            let f = self@;
            assert forall|k: int| 0 <= k < f.len() implies #[trigger] f[k].id < self.next_id by {
                let j = choose|j: int|
                    0 <= j < s.len() && !destroyed_at(s[j].auto_destroy_at, now) && #[trigger] f[k]
                        == refresh_one(s[j], now);
            }
        }
    }

    /// Creates an open record from the draft and returns its fresh id.
    pub fn create(&mut self, draft: RecordDraft, now: u64) -> (r: Result<u64, StoreError>)
        requires
            old(self).wf(),
            old(self).next_id_spec() < u64::MAX,
        ensures
            final(self).wf(),
            current_at(final(self)@, now),
            (r is Err) == (draft@.title.len() == 0),
            match r {
                Ok(id) => {
                    &&& id == old(self).next_id_spec()
                    &&& !old(self).issued_ids().contains(id)
                    &&& final(self).issued_ids() == old(self).issued_ids().insert(id)
                    &&& final(self).next_id_spec() == id + 1
                    &&& exists|p: int|
                        0 <= p <= refreshed(old(self)@, now).len() && final(self)@ == refreshed(
                            old(self)@,
                            now,
                        ).insert(p, new_record(id, draft@, now))
                },
                Err(e) => {
                    &&& e == StoreError::ValidationError
                    &&& final(self)@ == refreshed(old(self)@, now)
                    &&& final(self).issued_ids() == old(self).issued_ids()
                    &&& final(self).next_id_spec() == old(self).next_id_spec()
                },
            },
    {
        self.refresh(now);
        if draft.title.as_str().is_empty() {
            return Err(StoreError::ValidationError);
        }
        let ghost s = self@;
        let mut p: usize = 0;
        while p < self.records.len() && self.records[p].created_at > now
            invariant
                p <= self.records@.len(),
                s == self@,
                forall|j: int| 0 <= j < p ==> #[trigger] s[j].created_at > now,
            decreases self.records@.len() - p,
        {
            p = p + 1;
        }
        let id = self.next_id;
        let rec = EmotionalRecord {
            id,
            title: draft.title,
            content: draft.content,
            images: draft.images,
            music_url: draft.music_url,
            music_title: draft.music_title,
            created_at: now,
            updated_at: now,
            is_sealed: false,
            seal_until: None,
            auto_destroy_at: None,
        };
        let ghost old_records = self.records@;
        self.records.insert(p, rec);
        self.next_id = id + 1;
        proof {
            let x = new_record(id, draft@, now);
            assert(rec@ == x);
            assert(self@ =~= s.insert(p as int, x));
            let n = self@;
            assert forall|j: int| p <= j < s.len() implies #[trigger] s[j].created_at <= now by {
                assert(s[p as int].created_at <= now);
            }
            assert forall|i: int, j: int| 0 <= i < j < n.len() implies n[i].created_at >= n[j].created_at
                && n[i].id != n[j].id by {
                if j < p {
                } else if j == p {
                } else if i < p {
                } else if i == p {
                } else {
                }
            }
            assert(self.issued_ids() =~= old(self).issued_ids().insert(id));
        }
        Ok(id)
    }

    /// The record `id` as it stands at `now`.
    pub fn read(&mut self, id: u64, now: u64) -> (r: Result<EmotionalRecord, StoreError>)
        requires
            old(self).wf(),
        ensures
            final(self).wf(),
            final(self)@ == refreshed(old(self)@, now),
            current_at(final(self)@, now),
            final(self).issued_ids() == old(self).issued_ids(),
            final(self).next_id_spec() == old(self).next_id_spec(),
            (r is Ok) == has_id(final(self)@, id),
            match r {
                Ok(rec) => {
                    &&& rec.id == id
                    &&& final(self)@.contains(rec@)
                    &&& !destroyed_at(rec.auto_destroy_at, now)
                    &&& rec.is_sealed == sealed_at(rec.seal_until, now)
                },
                Err(e) => e == StoreError::NotFound,
            },
    {
        self.refresh(now);
        match self.find(id) {
            Some(i) => {
                let rec = &self.records[i];
                let c = rec.copy_with_seal_flag(rec.is_sealed);
                assert(self@[i as int] == c@);
                Ok(c)
            },
            None => Err(StoreError::NotFound),
        }
    }

    /// Replaces the editable fields of the record `id` with the draft.
    pub fn update(&mut self, id: u64, draft: RecordDraft, now: u64) -> (r: Result<(), StoreError>)
        requires
            old(self).wf(),
        ensures
            final(self).wf(),
            final(self).issued_ids() == old(self).issued_ids(),
            final(self).next_id_spec() == old(self).next_id_spec(),
            match update_error(refreshed(old(self)@, now), id, draft@) {
                Some(e) => r == Err::<(), StoreError>(e) && final(self)@ == refreshed(old(self)@, now),
                None => r is Ok && final(self)@ == edit_id(refreshed(old(self)@, now), id, draft@, now),
            },
    {
        self.refresh(now);
        let ghost s = self@;
        let i = match self.find(id) {
            Some(i) => i,
            None => {
                return Err(StoreError::NotFound);
            },
        };
        if self.records[i].is_sealed {
            return Err(StoreError::Sealed);
        }
        assert(!sealed_id(s, id));
        if draft.title.as_str().is_empty() {
            return Err(StoreError::ValidationError);
        }
        let old_rec = self.records.remove(i);
        assert(old_rec@ == s[i as int]);
        let rec = EmotionalRecord {
            id: old_rec.id,
            title: draft.title,
            content: draft.content,
            images: draft.images,
            music_url: draft.music_url,
            music_title: draft.music_title,
            created_at: old_rec.created_at,
            updated_at: now,
            is_sealed: old_rec.is_sealed,
            seal_until: old_rec.seal_until,
            auto_destroy_at: old_rec.auto_destroy_at,
        };
        assert(rec@ == edited(s[i as int], draft@, now));
        self.records.insert(i, rec);
        assert(self@ =~= edit_id(s, id, draft@, now));
        Ok(())
    }

    /// Seals the record `id` with the configuration.
    pub fn seal(&mut self, id: u64, config: SealConfig, now: u64) -> (r: Result<(), StoreError>)
        requires
            old(self).wf(),
        ensures
            final(self).wf(),
            final(self).issued_ids() == old(self).issued_ids(),
            final(self).next_id_spec() == old(self).next_id_spec(),
            match seal_error(refreshed(old(self)@, now), id, config) {
                Some(e) => r == Err::<(), StoreError>(e) && final(self)@ == refreshed(old(self)@, now),
                None => r is Ok && final(self)@ == seal_id(
                    refreshed(old(self)@, now),
                    id,
                    config.seal_until,
                    config.auto_destroy_at,
                    now,
                ),
            },
    {
        self.refresh(now);
        let ghost s = self@;
        let i = match self.find(id) {
            Some(i) => i,
            None => {
                return Err(StoreError::NotFound);
            },
        };
        if !config.is_valid() {
            return Err(StoreError::ValidationError);
        }
        let old_rec = self.records.remove(i);
        assert(old_rec@ == s[i as int]);
        let rec = EmotionalRecord {
            id: old_rec.id,
            title: old_rec.title,
            content: old_rec.content,
            images: old_rec.images,
            music_url: old_rec.music_url,
            music_title: old_rec.music_title,
            created_at: old_rec.created_at,
            updated_at: now,
            is_sealed: is_sealed_at(config.seal_until, now),
            seal_until: config.seal_until,
            auto_destroy_at: config.auto_destroy_at,
        };
        assert(rec@ == sealed_with(s[i as int], config.seal_until, config.auto_destroy_at, now));
        self.records.insert(i, rec);
        assert(self@ =~= seal_id(s, id, config.seal_until, config.auto_destroy_at, now));
        Ok(())
    }

    /// Removes the record `id`, sealed or not.
    pub fn delete(&mut self, id: u64, now: u64) -> (r: Result<(), StoreError>)
        requires
            old(self).wf(),
        ensures
            final(self).wf(),
            current_at(final(self)@, now),
            final(self).issued_ids() == old(self).issued_ids(),
            final(self).next_id_spec() == old(self).next_id_spec(),
            (r is Ok) == has_id(refreshed(old(self)@, now), id),
            !has_id(final(self)@, id),
            match r {
                Ok(_) => exists|i: int|
                    0 <= i < refreshed(old(self)@, now).len() && refreshed(old(self)@, now)[i].id == id
                        && final(self)@ == refreshed(old(self)@, now).remove(i),
                Err(e) => e == StoreError::NotFound && final(self)@ == refreshed(old(self)@, now),
            },
    {
        self.refresh(now);
        let ghost s = self@;
        match self.find(id) {
            Some(i) => {
                self.records.remove(i);
                assert(self@ =~= s.remove(i as int));
                Ok(())
            },
            None => Err(StoreError::NotFound),
        }
    }

    /// The records at `now`, newest first; sealed ones only when `include_sealed` holds.
    pub fn list(&mut self, include_sealed: bool, now: u64) -> (r: Vec<EmotionalRecord>)
        requires
            old(self).wf(),
        ensures
            final(self).wf(),
            final(self)@ == refreshed(old(self)@, now),
            final(self).issued_ids() == old(self).issued_ids(),
            final(self).next_id_spec() == old(self).next_id_spec(),
            records_view(r@) == visible(final(self)@, include_sealed),
            records_inv(records_view(r@)),
            current_at(records_view(r@), now),
    {
        self.refresh(now);
        let ghost s = self@;
        let mut out: Vec<EmotionalRecord> = Vec::new();
        let mut i: usize = 0;
        while i < self.records.len()
            invariant
                i <= self.records@.len(),
                s == self@,
                s.len() == self.records@.len(),
                records_view(out@) == visible(s.take(i as int), include_sealed),
            decreases self.records@.len() - i,
        {
            let ghost t = s.take(i as int + 1);
            assert(t.drop_last() =~= s.take(i as int));
            assert(t.last() == s[i as int]);
            let rec = &self.records[i];
            if include_sealed || !rec.is_sealed {
                let c = rec.copy_with_seal_flag(rec.is_sealed);
                out.push(c);
                assert(records_view(out@) =~= visible(s.take(i as int), include_sealed).push(s[i as int]));
            }
            i = i + 1;
        }
        assert(s.take(s.len() as int) =~= s);
        proof {
            lemma_visible_inv(s, include_sealed, now);
        }
        out
    }

    /// The position of the record `id`, if the store holds it.
    fn find(&self, id: u64) -> (r: Option<usize>)
        requires
            self.wf(),
        ensures
            match r {
                Some(i) => i < self@.len() && self@[i as int].id == id,
                None => !has_id(self@, id),
            },
    {
        let mut i: usize = 0;
        while i < self.records.len()
            invariant
                i <= self.records@.len(),
                forall|j: int| 0 <= j < i ==> self@[j].id != id,
            decreases self.records@.len() - i,
        {
            if self.records[i].id == id {
                return Some(i);
            }
            i = i + 1;
        }
        None
    }
}

} // verus!
