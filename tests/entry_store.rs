use web_backend::gongzuo::{ContentKind, EntryError, Gongzuo, GongzuoHandler, GongzuoPayload};
use web_backend::time::{into_jst, UtcTime, JST_OFFSET_SECONDS};
use web_backend::user::UserHandler;

fn at(micros: i64) -> UtcTime {
    UtcTime { micros }
}

fn payload(start: i64, end: Option<i64>, kind: ContentKind, label: &str) -> GongzuoPayload {
    GongzuoPayload {
        started_at: at(start),
        ended_at: end.map(at),
        content_kind: kind,
        content: label.to_string(),
    }
}

#[test]
fn resolve_twice_gives_one_content() {
    let mut h = GongzuoHandler::new();
    let first = h.resolve_or_create(ContentKind::Work, "design".to_string()).unwrap();
    let second = h.resolve_or_create(ContentKind::Work, "design".to_string()).unwrap();
    assert_eq!(first, second);
    assert_eq!(first, 1);
    let other_kind = h.resolve_or_create(ContentKind::NotWork, "design".to_string()).unwrap();
    assert_eq!(other_kind, 2);
    let other_label = h.resolve_or_create(ContentKind::Work, "review".to_string()).unwrap();
    assert_eq!(other_label, 3);
    assert_eq!(h.resolve_or_create(ContentKind::Work, "design".to_string()), Ok(1));
}

#[test]
fn create_shares_content_between_entries() {
    let mut h = GongzuoHandler::new();
    let a = h.create_gongzuo(7, payload(0, Some(10), ContentKind::Work, "design")).unwrap();
    let b = h.create_gongzuo(8, payload(20, None, ContentKind::Work, "design")).unwrap();
    assert_eq!((a, b), (1, 2));
    let ra = h.gongzuo_by_gongzuo_id(a).unwrap();
    let rb = h.gongzuo_by_gongzuo_id(b).unwrap();
    assert_eq!(ra.content_id, rb.content_id);
    assert_eq!(ra.content, "design");
    assert_eq!(ra.content_kind, ContentKind::Work);
    assert_eq!(ra.user_id, 7);
    assert_eq!(ra.started_at, at(0));
    assert_eq!(ra.ended_at, Some(at(10)));
    assert_eq!(rb.ended_at, None);
}

#[test]
fn create_accepts_overlapping_entries() {
    let mut h = GongzuoHandler::new();
    let a = h.create_gongzuo(1, payload(100, Some(200), ContentKind::Work, "writing"));
    let b = h.create_gongzuo(1, payload(100, Some(200), ContentKind::Work, "writing"));
    let c = h.create_gongzuo(1, payload(150, None, ContentKind::NotWork, "lunch"));
    assert_eq!(a, Ok(1));
    assert_eq!(b, Ok(2));
    assert_eq!(c, Ok(3));
    assert_eq!(h.gongzuos_by_user_id(1).len(), 3);
}

#[test]
fn update_into_other_entry_is_conflict_and_changes_nothing() {
    let mut h = GongzuoHandler::new();
    let e1 = h.create_gongzuo(1, payload(100, Some(200), ContentKind::Work, "a")).unwrap();
    let e2 = h.create_gongzuo(1, payload(300, Some(400), ContentKind::Work, "b")).unwrap();
    let r = h.update_gongzuo(e2, 1, payload(150, Some(350), ContentKind::Work, "new label"));
    assert_eq!(r, Err(EntryError::Conflict));
    let g1 = h.gongzuo_by_gongzuo_id(e1).unwrap();
    let g2 = h.gongzuo_by_gongzuo_id(e2).unwrap();
    assert_eq!((g1.started_at, g1.ended_at), (at(100), Some(at(200))));
    assert_eq!((g2.started_at, g2.ended_at), (at(300), Some(at(400))));
    assert_eq!(g2.content, "b");
    // the rolled-back update created no content either
    assert_eq!(h.resolve_or_create(ContentKind::Work, "new label".to_string()), Ok(3));
}

#[test]
fn update_start_at_other_start_conflicts_but_at_other_end_does_not() {
    let mut h = GongzuoHandler::new();
    let _e1 = h.create_gongzuo(1, payload(100, Some(200), ContentKind::Work, "a")).unwrap();
    let e2 = h.create_gongzuo(1, payload(300, Some(400), ContentKind::Work, "b")).unwrap();
    assert_eq!(h.update_gongzuo(e2, 1, payload(100, Some(250), ContentKind::Work, "b")), Err(EntryError::Conflict));
    assert_eq!(h.update_gongzuo(e2, 1, payload(200, Some(250), ContentKind::Work, "b")), Ok(()));
}

#[test]
fn update_with_running_entry_conflicts_after_its_start() {
    let mut h = GongzuoHandler::new();
    let _running = h.create_gongzuo(1, payload(100, None, ContentKind::Work, "a")).unwrap();
    let e2 = h.create_gongzuo(1, payload(10, Some(20), ContentKind::Work, "b")).unwrap();
    assert_eq!(h.update_gongzuo(e2, 1, payload(5000, Some(6000), ContentKind::Work, "b")), Err(EntryError::Conflict));
    assert_eq!(h.update_gongzuo(e2, 1, payload(50, Some(60), ContentKind::Work, "b")), Ok(()));
}

#[test]
fn update_ignores_entries_of_other_users_and_itself() {
    let mut h = GongzuoHandler::new();
    let _other = h.create_gongzuo(2, payload(100, Some(200), ContentKind::Work, "a")).unwrap();
    let mine = h.create_gongzuo(1, payload(100, Some(200), ContentKind::Work, "a")).unwrap();
    assert_eq!(h.update_gongzuo(mine, 1, payload(150, Some(300), ContentKind::NotWork, "c")), Ok(()));
    let g = h.gongzuo_by_gongzuo_id(mine).unwrap();
    assert_eq!((g.started_at, g.ended_at), (at(150), Some(at(300))));
    assert_eq!(g.content_kind, ContentKind::NotWork);
    assert_eq!(g.content, "c");
    assert_eq!(g.user_id, 1);
}

#[test]
fn update_and_delete_of_foreign_entry_are_ownership_errors() {
    let mut h = GongzuoHandler::new();
    let theirs = h.create_gongzuo(2, payload(100, Some(200), ContentKind::Work, "a")).unwrap();
    assert_eq!(h.update_gongzuo(theirs, 1, payload(500, Some(600), ContentKind::Work, "z")), Err(EntryError::Ownership));
    assert_eq!(h.delete_gongzuo(theirs, 1), Err(EntryError::Ownership));
    let g = h.gongzuo_by_gongzuo_id(theirs).unwrap();
    assert_eq!((g.user_id, g.started_at, g.ended_at), (2, at(100), Some(at(200))));
    assert_eq!(g.content, "a");
    assert_eq!(h.resolve_or_create(ContentKind::Work, "z".to_string()), Ok(2));
}

#[test]
fn update_and_delete_of_missing_entry_are_not_found() {
    let mut h = GongzuoHandler::new();
    let e = h.create_gongzuo(1, payload(100, Some(200), ContentKind::Work, "a")).unwrap();
    assert_eq!(h.update_gongzuo(42, 1, payload(500, Some(600), ContentKind::Work, "a")), Err(EntryError::NotFound(42)));
    assert_eq!(h.delete_gongzuo(42, 1), Err(EntryError::NotFound(42)));
    assert_eq!(h.delete_gongzuo(e, 1), Ok(()));
    assert!(h.gongzuo_by_gongzuo_id(e).is_none());
    assert_eq!(h.delete_gongzuo(e, 1), Err(EntryError::NotFound(e)));
}

#[test]
fn identifiers_are_not_reused_after_delete() {
    let mut h = GongzuoHandler::new();
    let a = h.create_gongzuo(1, payload(0, Some(1), ContentKind::Work, "a")).unwrap();
    assert_eq!(h.delete_gongzuo(a, 1), Ok(()));
    let b = h.create_gongzuo(1, payload(0, Some(1), ContentKind::Work, "a")).unwrap();
    assert_eq!(b, 2);
}

#[test]
fn has_conflict_is_one_sided() {
    let mut h = GongzuoHandler::new();
    let e = h.create_gongzuo(1, payload(100, Some(200), ContentKind::Work, "a")).unwrap();
    assert!(h.has_conflict(1, at(100), None));
    assert!(h.has_conflict(1, at(199), None));
    assert!(!h.has_conflict(1, at(200), None));
    assert!(!h.has_conflict(1, at(99), None));
    assert!(!h.has_conflict(2, at(150), None));
    assert!(!h.has_conflict(1, at(150), Some(e)));
    assert!(h.has_conflict(1, at(150), Some(e + 1)));
}

#[test]
fn gongzuo_at_finds_running_entry() {
    let mut h = GongzuoHandler::new();
    let done = h.create_gongzuo(1, payload(100, Some(200), ContentKind::Work, "a")).unwrap();
    let open = h.create_gongzuo(1, payload(300, None, ContentKind::NotWork, "b")).unwrap();
    assert_eq!(h.gongzuo_at(1, at(150)).unwrap().id, done);
    assert!(h.gongzuo_at(1, at(200)).is_none());
    assert!(h.gongzuo_at(1, at(50)).is_none());
    let g = h.gongzuo_at(1, at(1_000_000)).unwrap();
    assert_eq!(g.id, open);
    assert_eq!(g.content, "b");
    assert!(h.gongzuo_at(2, at(150)).is_none());
}

#[test]
fn gongzuo_at_picks_lowest_id_of_overlapping_entries() {
    let mut h = GongzuoHandler::new();
    let _other_user = h.create_gongzuo(9, payload(0, None, ContentKind::Work, "x")).unwrap();
    let first = h.create_gongzuo(1, payload(100, Some(300), ContentKind::Work, "a")).unwrap();
    let _second = h.create_gongzuo(1, payload(50, Some(400), ContentKind::Work, "b")).unwrap();
    assert_eq!(h.gongzuo_at(1, at(200)).unwrap().id, first);
    assert_eq!(h.gongzuo_at(1, at(60)).unwrap().id, 3);
}

#[test]
fn listing_by_user_keeps_identifier_order() {
    let mut h = GongzuoHandler::new();
    h.create_gongzuo(1, payload(0, Some(1), ContentKind::Work, "a")).unwrap();
    h.create_gongzuo(2, payload(0, Some(1), ContentKind::Work, "b")).unwrap();
    h.create_gongzuo(1, payload(5, None, ContentKind::NotWork, "c")).unwrap();
    let rows = h.gongzuos_by_user_id(1);
    let ids: Vec<i32> = rows.iter().map(|g| g.id).collect();
    assert_eq!(ids, vec![1, 3]);
    assert_eq!(rows[1].content, "c");
    assert!(h.gongzuos_by_user_id(3).is_empty());
}

#[test]
fn all_gongzuos_leaves_out_admins_and_unknown_users() {
    let mut users = UserHandler::new();
    users.register_admin("admin", "00", "00", at(0)).unwrap();
    users.register_user("alice", "00", "00", at(0)).unwrap();
    let mut h = GongzuoHandler::new();
    h.create_gongzuo(1, payload(0, Some(1), ContentKind::Work, "admin work")).unwrap();
    h.create_gongzuo(2, payload(0, Some(1), ContentKind::Work, "alice work")).unwrap();
    h.create_gongzuo(3, payload(0, Some(1), ContentKind::Work, "nobody")).unwrap();
    let rows = h.all_gongzuos(&users);
    assert_eq!(rows.len(), 1);
    assert_eq!(rows[0].user_id, 2);
    assert_eq!(rows[0].content, "alice work");
}

#[test]
fn content_kind_codes() {
    assert_eq!(ContentKind::Work.code(), 0);
    assert_eq!(ContentKind::NotWork.code(), 1);
    assert_eq!(ContentKind::from_code(0), ContentKind::Work);
    assert_eq!(ContentKind::from_code(1), ContentKind::NotWork);
}

#[test]
fn shown_entries_are_in_japan_time() {
    let mut h = GongzuoHandler::new();
    let id = h.create_gongzuo(1, payload(10, Some(20), ContentKind::Work, "a")).unwrap();
    let g = Gongzuo::from_raw(h.gongzuo_by_gongzuo_id(id).unwrap());
    assert_eq!(g.started_at.utc, at(10));
    assert_eq!(g.started_at.offset_seconds, 32400);
    assert_eq!(g.ended_at.unwrap().utc, at(20));
    assert_eq!(JST_OFFSET_SECONDS, 9 * 3600);
    assert_eq!(into_jst(at(5)).offset_seconds, 32400);
}

#[test]
fn periods_must_end_after_they_start() {
    let mut h = GongzuoHandler::new();
    assert_eq!(h.create_gongzuo(1, payload(10, Some(5), ContentKind::Work, "a")), Err(EntryError::InvalidPeriod));
    assert_eq!(h.create_gongzuo(1, payload(10, Some(10), ContentKind::Work, "a")), Err(EntryError::InvalidPeriod));
    assert!(h.gongzuos_by_user_id(1).is_empty());
    // nothing was created, not even the content
    assert_eq!(h.resolve_or_create(ContentKind::Work, "a".to_string()), Ok(1));
    let e = h.create_gongzuo(1, payload(10, Some(11), ContentKind::Work, "a")).unwrap();
    assert_eq!(h.update_gongzuo(e, 1, payload(20, Some(20), ContentKind::Work, "b")), Err(EntryError::InvalidPeriod));
    assert_eq!(h.update_gongzuo(e, 1, payload(20, Some(3), ContentKind::Work, "b")), Err(EntryError::InvalidPeriod));
    let g = h.gongzuo_by_gongzuo_id(e).unwrap();
    assert_eq!((g.started_at, g.ended_at), (at(10), Some(at(11))));
    assert_eq!(h.update_gongzuo(e, 1, payload(20, None, ContentKind::Work, "b")), Ok(()));
}

#[test]
fn update_checks_existence_and_owner_before_room_for_contents() {
    let mut h = GongzuoHandler::new();
    let theirs = h.create_gongzuo(2, payload(0, Some(1), ContentKind::Work, "a")).unwrap();
    assert_eq!(h.update_gongzuo(theirs, 1, payload(5, Some(6), ContentKind::Work, "new")), Err(EntryError::Ownership));
    assert_eq!(h.update_gongzuo(77, 1, payload(5, Some(6), ContentKind::Work, "new")), Err(EntryError::NotFound(77)));
}

#[test]
fn update_reports_owner_and_existence_before_the_period() {
    let mut h = GongzuoHandler::new();
    let theirs = h.create_gongzuo(2, payload(0, Some(1), ContentKind::Work, "a")).unwrap();
    assert_eq!(h.update_gongzuo(theirs, 1, payload(9, Some(3), ContentKind::Work, "a")), Err(EntryError::Ownership));
    assert_eq!(h.update_gongzuo(55, 1, payload(9, Some(9), ContentKind::Work, "a")), Err(EntryError::NotFound(55)));
    assert_eq!(h.update_gongzuo(theirs, 2, payload(9, Some(9), ContentKind::Work, "a")), Err(EntryError::InvalidPeriod));
}

#[test]
fn two_creates_with_one_label_share_one_content() {
    let mut h = GongzuoHandler::new();
    let a = h.create_gongzuo(1, payload(0, Some(1), ContentKind::Work, "design")).unwrap();
    let b = h.create_gongzuo(2, payload(5, None, ContentKind::Work, "design")).unwrap();
    let ca = h.gongzuo_by_gongzuo_id(a).unwrap().content_id;
    let cb = h.gongzuo_by_gongzuo_id(b).unwrap().content_id;
    assert_eq!(ca, cb);
    // a new pair gets the next identifier: only one content row was made
    assert_eq!(h.resolve_or_create(ContentKind::NotWork, "design".to_string()), Ok(ca + 1));
}
