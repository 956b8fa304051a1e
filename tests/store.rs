use pick_up_memories::{evaluate, EmotionalRecord, RecordDraft, RecordState, RecordStore, SealConfig, StoreError};

const T: u64 = 1_700_000_000;
const HOUR: u64 = 3600;

fn draft(title: &str) -> RecordDraft {
    RecordDraft {
        title: title.to_string(),
        content: String::from("content"),
        images: Vec::new(),
        music_url: None,
        music_title: None,
    }
}

fn record(seal_until: Option<u64>, auto_destroy_at: Option<u64>) -> EmotionalRecord {
    EmotionalRecord {
        id: 0,
        title: "t".to_string(),
        content: String::new(),
        images: Vec::new(),
        music_url: None,
        music_title: None,
        created_at: T,
        updated_at: T,
        is_sealed: false,
        seal_until,
        auto_destroy_at,
    }
}

#[test]
fn trip_scenario() {
    let mut store = RecordStore::new();
    let id = store.create(draft("Trip"), T).unwrap();
    let cfg = SealConfig { seal_until: Some(T + HOUR), auto_destroy_at: Some(T + 2 * HOUR) };
    assert_eq!(store.seal(id, cfg, T), Ok(()));
    assert_eq!(store.update(id, draft("Trip edited"), T + HOUR / 2), Err(StoreError::Sealed));
    let r = store.read(id, T + 90 * 60).unwrap();
    assert!(!r.is_sealed);
    assert_eq!(r.title, "Trip");
    assert!(matches!(store.read(id, T + 3 * HOUR), Err(StoreError::NotFound)));
}

#[test]
fn seal_with_destroy_before_unseal_is_rejected() {
    let mut store = RecordStore::new();
    let id = store.create(draft("Trip"), T).unwrap();
    let cfg = SealConfig { seal_until: Some(T + 2 * HOUR), auto_destroy_at: Some(T + HOUR) };
    assert_eq!(store.seal(id, cfg, T), Err(StoreError::ValidationError));
    let r = store.read(id, T).unwrap();
    assert!(!r.is_sealed);
    assert_eq!(r.seal_until, None);
    assert_eq!(r.auto_destroy_at, None);
}

#[test]
fn seal_with_equal_times_is_rejected() {
    let mut store = RecordStore::new();
    let id = store.create(draft("a"), T).unwrap();
    let cfg = SealConfig { seal_until: Some(T + HOUR), auto_destroy_at: Some(T + HOUR) };
    assert_eq!(store.seal(id, cfg, T), Err(StoreError::ValidationError));
}

#[test]
fn seal_unknown_id_is_not_found() {
    let mut store = RecordStore::new();
    let cfg = SealConfig { seal_until: Some(T + HOUR), auto_destroy_at: Some(T + HOUR) };
    assert_eq!(store.seal(7, cfg, T), Err(StoreError::NotFound));
}

#[test]
fn ids_are_never_reused() {
    let mut store = RecordStore::new();
    let a = store.create(draft("a"), T).unwrap();
    assert_eq!(store.delete(a, T), Ok(()));
    let b = store.create(draft("b"), T).unwrap();
    assert_ne!(a, b);
    let cfg = SealConfig { seal_until: None, auto_destroy_at: Some(T + 1) };
    assert_eq!(store.seal(b, cfg, T), Ok(()));
    let c = store.create(draft("c"), T + 5).unwrap();
    assert_ne!(c, a);
    assert_ne!(c, b);
    assert_eq!(store.len(), 1);
}

#[test]
fn seal_flag_follows_the_clock() {
    let mut store = RecordStore::new();
    let id = store.create(draft("a"), T).unwrap();
    let cfg = SealConfig { seal_until: Some(T + 100), auto_destroy_at: None };
    assert_eq!(store.seal(id, cfg, T), Ok(()));
    assert!(store.read(id, T).unwrap().is_sealed);
    assert!(store.read(id, T + 99).unwrap().is_sealed);
    assert!(!store.read(id, T + 100).unwrap().is_sealed);
}

#[test]
fn seal_in_the_past_leaves_record_open() {
    let mut store = RecordStore::new();
    let id = store.create(draft("a"), T).unwrap();
    let cfg = SealConfig { seal_until: Some(T - 1), auto_destroy_at: None };
    assert_eq!(store.seal(id, cfg, T), Ok(()));
    let r = store.read(id, T).unwrap();
    assert!(!r.is_sealed);
    assert_eq!(r.seal_until, Some(T - 1));
    assert_eq!(store.update(id, draft("b"), T), Ok(()));
}

#[test]
fn destroyed_record_is_never_returned() {
    let mut store = RecordStore::new();
    let a = store.create(draft("a"), T).unwrap();
    let b = store.create(draft("b"), T + 1).unwrap();
    let cfg = SealConfig { seal_until: None, auto_destroy_at: Some(T + 10) };
    assert_eq!(store.seal(a, cfg, T + 2), Ok(()));
    assert_eq!(store.list(true, T + 9).len(), 2);
    let listed = store.list(true, T + 10);
    assert_eq!(listed.len(), 1);
    assert_eq!(listed[0].id, b);
    assert_eq!(store.read(a, T + 10).err(), Some(StoreError::NotFound));
    assert_eq!(store.delete(a, T + 11), Err(StoreError::NotFound));
}

#[test]
fn update_after_unseal_succeeds() {
    let mut store = RecordStore::new();
    let id = store.create(draft("a"), T).unwrap();
    let cfg = SealConfig { seal_until: Some(T + 60), auto_destroy_at: Some(T + 600) };
    assert_eq!(store.seal(id, cfg, T), Ok(()));
    assert_eq!(store.update(id, draft("b"), T), Err(StoreError::Sealed));
    assert_eq!(store.update(id, draft("b"), T + 60), Ok(()));
    let r = store.read(id, T + 61).unwrap();
    assert_eq!(r.title, "b");
    assert_eq!(r.updated_at, T + 60);
    assert_eq!(r.created_at, T);
}

#[test]
fn update_replaces_editable_fields() {
    let mut store = RecordStore::new();
    let id = store.create(draft("a"), T).unwrap();
    let d = RecordDraft {
        title: "new".to_string(),
        content: "body".to_string(),
        images: vec!["one.png".to_string(), "two.png".to_string()],
        music_url: Some("song.mp3".to_string()),
        music_title: Some("Song".to_string()),
    };
    assert_eq!(store.update(id, d, T + 5), Ok(()));
    let r = store.read(id, T + 5).unwrap();
    assert_eq!(r.id, id);
    assert_eq!(r.content, "body");
    assert_eq!(r.images, vec!["one.png".to_string(), "two.png".to_string()]);
    assert_eq!(r.music_url, Some("song.mp3".to_string()));
    assert_eq!(r.music_title, Some("Song".to_string()));
    assert_eq!(r.updated_at, T + 5);
}

#[test]
fn update_errors() {
    let mut store = RecordStore::new();
    assert_eq!(store.update(3, draft("x"), T), Err(StoreError::NotFound));
    let id = store.create(draft("a"), T).unwrap();
    assert_eq!(store.update(id, draft(""), T), Err(StoreError::ValidationError));
    assert_eq!(store.read(id, T).unwrap().title, "a");
}

#[test]
fn create_with_empty_title_is_rejected() {
    let mut store = RecordStore::new();
    assert_eq!(store.create(draft(""), T), Err(StoreError::ValidationError));
    assert_eq!(store.len(), 0);
}

#[test]
fn create_sets_timestamps_and_open_state() {
    let mut store = RecordStore::new();
    let id = store.create(draft("a"), T).unwrap();
    let r = store.read(id, T).unwrap();
    assert_eq!(r.created_at, T);
    assert_eq!(r.updated_at, T);
    assert!(!r.is_sealed);
    assert_eq!(r.seal_until, None);
    assert_eq!(r.auto_destroy_at, None);
}

#[test]
fn delete_twice_reports_not_found() {
    let mut store = RecordStore::new();
    let id = store.create(draft("a"), T).unwrap();
    let cfg = SealConfig { seal_until: Some(T + HOUR), auto_destroy_at: None };
    assert_eq!(store.seal(id, cfg, T), Ok(()));
    assert_eq!(store.delete(id, T), Ok(()));
    assert_eq!(store.delete(id, T), Err(StoreError::NotFound));
    assert!(store.read(id, T).is_err());
}

#[test]
fn list_is_newest_first_and_hides_sealed() {
    let mut store = RecordStore::new();
    let a = store.create(draft("a"), T + 20).unwrap();
    let b = store.create(draft("b"), T + 10).unwrap();
    let c = store.create(draft("c"), T + 30).unwrap();
    let all: Vec<u64> = store.list(true, T + 40).iter().map(|r| r.id).collect();
    assert_eq!(all, vec![c, a, b]);
    let cfg = SealConfig { seal_until: Some(T + 100), auto_destroy_at: None };
    assert_eq!(store.seal(a, cfg, T + 40), Ok(()));
    let open: Vec<u64> = store.list(false, T + 50).iter().map(|r| r.id).collect();
    assert_eq!(open, vec![c, b]);
    let with_sealed = store.list(true, T + 50);
    assert_eq!(with_sealed.len(), 3);
    assert!(with_sealed[1].is_sealed);
    let later: Vec<u64> = store.list(false, T + 100).iter().map(|r| r.id).collect();
    assert_eq!(later, vec![c, a, b]);
}

#[test]
fn list_of_empty_store_is_empty() {
    let mut store = RecordStore::new();
    assert!(store.list(true, T).is_empty());
}

#[test]
fn evaluate_states() {
    assert_eq!(evaluate(&record(None, None), T), RecordState::Open);
    assert_eq!(evaluate(&record(Some(T + 1), None), T), RecordState::Sealed);
    assert_eq!(evaluate(&record(Some(T), None), T), RecordState::Open);
    assert_eq!(evaluate(&record(Some(T + 5), Some(T + 9)), T + 9), RecordState::Destroyed);
    assert_eq!(evaluate(&record(None, Some(T)), T - 1), RecordState::Open);
    assert_eq!(record(Some(T + 1), None).state(T + 1), RecordState::Open);
}

#[test]
fn seal_config_validity() {
    assert!(SealConfig { seal_until: None, auto_destroy_at: None }.is_valid());
    assert!(SealConfig { seal_until: Some(1), auto_destroy_at: None }.is_valid());
    assert!(SealConfig { seal_until: None, auto_destroy_at: Some(1) }.is_valid());
    assert!(SealConfig { seal_until: Some(1), auto_destroy_at: Some(2) }.is_valid());
    assert!(!SealConfig { seal_until: Some(2), auto_destroy_at: Some(2) }.is_valid());
    assert!(!SealConfig { seal_until: Some(3), auto_destroy_at: Some(2) }.is_valid());
}

#[test]
fn copy_with_seal_flag_keeps_fields() {
    let mut r = record(Some(T), None);
    r.images = vec!["x".to_string()];
    r.music_title = Some("m".to_string());
    let c = r.copy_with_seal_flag(true);
    assert!(c.is_sealed);
    assert_eq!(c.images, r.images);
    assert_eq!(c.music_title, r.music_title);
    assert_eq!(c.seal_until, Some(T));
}

#[test]
fn can_create_on_fresh_store() {
    let store = RecordStore::new();
    assert!(store.can_create());
}
