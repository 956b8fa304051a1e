use vstd::prelude::*;

verus! {

/// A memory kept in the store. Timestamps are seconds since the Unix epoch.
pub struct EmotionalRecord {
    pub id: u64,
    pub title: String,
    pub content: String,
    pub images: Vec<String>,
    pub music_url: Option<String>,
    pub music_title: Option<String>,
    pub created_at: u64,
    pub updated_at: u64,
    pub is_sealed: bool,
    pub seal_until: Option<u64>,
    pub auto_destroy_at: Option<u64>,
}

/// Configuration applied to a record when it is sealed.
pub struct SealConfig {
    pub seal_until: Option<u64>,
    pub auto_destroy_at: Option<u64>,
}

/// The user-editable part of a record: what `create` takes and `update` replaces.
pub struct RecordDraft {
    pub title: String,
    pub content: String,
    pub images: Vec<String>,
    pub music_url: Option<String>,
    pub music_title: Option<String>,
}

/// The temporal state of a record at a given time.
#[derive(PartialEq, Eq, Structural, Debug, Clone, Copy)]
pub enum RecordState {
    Open,
    Sealed,
    Destroyed,
}

/// Mathematical model of a record.
pub struct RecordView {
    pub id: u64,
    pub title: Seq<char>,
    pub content: Seq<char>,
    pub images: Seq<Seq<char>>,
    pub music_url: Option<Seq<char>>,
    pub music_title: Option<Seq<char>>,
    pub created_at: u64,
    pub updated_at: u64,
    pub is_sealed: bool,
    pub seal_until: Option<u64>,
    pub auto_destroy_at: Option<u64>,
}

/// Mathematical model of a draft.
pub struct DraftView {
    pub title: Seq<char>,
    pub content: Seq<char>,
    pub images: Seq<Seq<char>>,
    pub music_url: Option<Seq<char>>,
    pub music_title: Option<Seq<char>>,
}

pub open spec fn opt_view(o: Option<String>) -> Option<Seq<char>> {
    match o {
        Some(s) => Some(s@),
        None => None,
    }
}

pub open spec fn strings_view(v: Seq<String>) -> Seq<Seq<char>> {
    v.map_values(|s: String| s@)
}

impl View for EmotionalRecord {
    type V = RecordView;

    open spec fn view(&self) -> RecordView {
        RecordView {
            id: self.id,
            title: self.title@,
            content: self.content@,
            images: strings_view(self.images@),
            music_url: opt_view(self.music_url),
            music_title: opt_view(self.music_title),
            created_at: self.created_at,
            updated_at: self.updated_at,
            is_sealed: self.is_sealed,
            seal_until: self.seal_until,
            auto_destroy_at: self.auto_destroy_at,
        }
    }
}

impl View for RecordDraft {
    type V = DraftView;

    open spec fn view(&self) -> DraftView {
        DraftView {
            title: self.title@,
            content: self.content@,
            images: strings_view(self.images@),
            music_url: opt_view(self.music_url),
            music_title: opt_view(self.music_title),
        }
    }
}

/// A seal configuration is consistent when destruction comes strictly after un-sealing.
pub open spec fn seal_config_valid(seal_until: Option<u64>, auto_destroy_at: Option<u64>) -> bool {
    match (seal_until, auto_destroy_at) {
        (Some(u), Some(d)) => u < d,
        _ => true,
    }
}

/// A record is destroyed once its destruction time has been reached.
pub open spec fn destroyed_at(auto_destroy_at: Option<u64>, now: u64) -> bool {
    match auto_destroy_at {
        Some(d) => d <= now,
        None => false,
    }
}

/// A record is sealed while its seal time lies in the future.
pub open spec fn sealed_at(seal_until: Option<u64>, now: u64) -> bool {
    match seal_until {
        Some(u) => now < u,
        None => false,
    }
}

pub open spec fn state_at(r: RecordView, now: u64) -> RecordState {
    if destroyed_at(r.auto_destroy_at, now) {
        RecordState::Destroyed
    } else if sealed_at(r.seal_until, now) {
        RecordState::Sealed
    } else {
        RecordState::Open
    }
}

/// The record with its cached seal flag brought up to date at `now`.
pub open spec fn refresh_one(r: RecordView, now: u64) -> RecordView {
    RecordView { is_sealed: sealed_at(r.seal_until, now), ..r }
}

/// A new, open record built from a draft.
pub open spec fn new_record(id: u64, d: DraftView, now: u64) -> RecordView {
    RecordView {
        id,
        title: d.title,
        content: d.content,
        images: d.images,
        music_url: d.music_url,
        music_title: d.music_title,
        created_at: now,
        updated_at: now,
        is_sealed: false,
        seal_until: None,
        auto_destroy_at: None,
    }
}

/// The record with its editable fields replaced by the draft.
pub open spec fn edited(r: RecordView, d: DraftView, now: u64) -> RecordView {
    RecordView {
        title: d.title,
        content: d.content,
        images: d.images,
        music_url: d.music_url,
        music_title: d.music_title,
        updated_at: now,
        ..r
    }
}

/// The record with a seal configuration applied.
pub open spec fn sealed_with(
    r: RecordView,
    seal_until: Option<u64>,
    auto_destroy_at: Option<u64>,
    now: u64,
) -> RecordView {
    RecordView {
        seal_until,
        auto_destroy_at,
        is_sealed: sealed_at(seal_until, now),
        updated_at: now,
        ..r
    }
}

impl SealConfig {
    pub fn is_valid(&self) -> (r: bool)
        ensures
            r == seal_config_valid(self.seal_until, self.auto_destroy_at),
    {
        match (self.seal_until, self.auto_destroy_at) {
            (Some(u), Some(d)) => u < d,
            _ => true,
        }
    }
}

pub fn is_destroyed_at(auto_destroy_at: Option<u64>, now: u64) -> (r: bool)
    ensures
        r == destroyed_at(auto_destroy_at, now),
{
    match auto_destroy_at {
        Some(d) => d <= now,
        None => false,
    }
}

pub fn is_sealed_at(seal_until: Option<u64>, now: u64) -> (r: bool)
    ensures
        r == sealed_at(seal_until, now),
{
    match seal_until {
        Some(u) => now < u,
        None => false,
    }
}

/// Evaluates the temporal state of a record at `now`: destruction wins over sealing.
pub fn evaluate(record: &EmotionalRecord, now: u64) -> (r: RecordState)
    ensures
        r == state_at(record@, now),
{
    if is_destroyed_at(record.auto_destroy_at, now) {
        RecordState::Destroyed
    } else if is_sealed_at(record.seal_until, now) {
        RecordState::Sealed
    } else {
        RecordState::Open
    }
}

fn clone_strings(v: &Vec<String>) -> (r: Vec<String>)
    ensures
        r@ == v@,
{
    let mut r: Vec<String> = Vec::new();
    let mut i: usize = 0;
    while i < v.len()
        invariant
            i <= v@.len(),
            r@ == v@.take(i as int),
        decreases v@.len() - i,
    {
        r.push(v[i].clone());
        i = i + 1;
        assert(r@ =~= v@.take(i as int));
    }
    assert(v@.take(v@.len() as int) =~= v@);
    r
}

fn clone_opt_string(o: &Option<String>) -> (r: Option<String>)
    ensures
        r == *o,
{
    match o {
        Some(s) => Some(s.clone()),
        None => None,
    }
}

impl EmotionalRecord {
    /// A copy of the record whose cached seal flag reads `is_sealed`.
    pub fn copy_with_seal_flag(&self, is_sealed: bool) -> (r: EmotionalRecord)
        ensures
            r@ == (RecordView { is_sealed, ..self@ }),
    {
        EmotionalRecord {
            id: self.id,
            title: self.title.clone(),
            content: self.content.clone(),
            images: clone_strings(&self.images),
            music_url: clone_opt_string(&self.music_url),
            music_title: clone_opt_string(&self.music_title),
            created_at: self.created_at,
            updated_at: self.updated_at,
            is_sealed,
            seal_until: self.seal_until,
            auto_destroy_at: self.auto_destroy_at,
        }
    }

    /// The temporal state of this record at `now`.
    pub fn state(&self, now: u64) -> (r: RecordState)
        ensures
            r == state_at(self@, now),
    {
        evaluate(self, now)
    }
}

} // verus!
