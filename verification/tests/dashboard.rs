use twba_dashboard::decimal::i32_string;
use twba_dashboard::error::ResponderError;
use twba_dashboard::error::not_found;
use twba_dashboard::index;
use twba_dashboard::services::IdValueForm;
use twba_dashboard::services::add;
use twba_dashboard::services::get_service_by_id;
use twba_dashboard::services::get_services;
use twba_dashboard::services::get_task_by_id;
use twba_dashboard::services::increment_progress;
use twba_dashboard::services::increment_task_progress;
use twba_dashboard::services::service_edit;
use twba_dashboard::services::service_index;
use twba_dashboard::services::task_edit;
use twba_dashboard::services::update_progress;
use twba_dashboard::store::ServiceRecord;
use twba_dashboard::store::Store;
use twba_dashboard::store::TaskRecord;

fn seeded() -> Store {
    let mut st = Store::new();
    assert!(st.insert_service(ServiceRecord {
        id: 1,
        name: "Service A".to_string(),
        last_update: None,
    }));
    assert!(st.insert_service(ServiceRecord {
        id: 2,
        name: "Service B".to_string(),
        last_update: Some("2020-01-01T00:00:00+00:00".to_string()),
    }));
    assert!(st.insert_task(TaskRecord {
        id: 1,
        service_id: 1,
        description: Some("first".to_string()),
        progress: 60,
        max_progress: 100,
    }));
    assert!(st.insert_task(TaskRecord {
        id: 2,
        service_id: 2,
        description: None,
        progress: 3,
        max_progress: 7,
    }));
    assert!(st.insert_task(TaskRecord {
        id: 3,
        service_id: 1,
        description: Some("third".to_string()),
        progress: 0,
        max_progress: 10,
    }));
    st
}

fn not_found_parts(e: &ResponderError) -> (String, String) {
    match e {
        ResponderError::DbEntityNotFound { table, key } => (table.clone(), key.clone()),
    }
}

#[test]
fn index_greets() {
    assert_eq!(index(), "Hello, world!");
}

#[test]
fn increment_adds_exactly_one_and_keeps_other_fields() {
    let mut st = seeded();
    let r = increment_task_progress(1, &mut st);
    assert!(r.is_ok());
    let t = get_task_by_id(1, &st).unwrap();
    assert_eq!(t.progress, 61);
    assert_eq!(t.id, 1);
    assert_eq!(t.service_id, 1);
    assert_eq!(t.description.as_deref(), Some("first"));
    assert_eq!(t.max_progress, 100);
    let u = get_task_by_id(2, &st).unwrap();
    assert_eq!(u.progress, 3);
}

#[test]
fn increment_scenario_sixty_to_sixty_one_with_stamp() {
    let mut st = Store::new();
    assert!(st.insert_service(ServiceRecord {
        id: 1,
        name: "Service A".to_string(),
        last_update: None,
    }));
    assert!(st.insert_task(TaskRecord {
        id: 1,
        service_id: 1,
        description: None,
        progress: 60,
        max_progress: 100,
    }));
    let before = chrono::offset::Utc::now();
    let r = increment_progress(1, 1, &mut st);
    assert!(r.is_ok());
    let t = get_task_by_id(1, &st).unwrap();
    assert_eq!(t.progress, 61);
    let s = get_service_by_id(1, &st).unwrap();
    let stamp = s.last_update.expect("last_update should be set");
    let parsed = chrono::DateTime::parse_from_rfc3339(&stamp).expect("stamp should parse");
    assert!(parsed.timestamp() >= before.timestamp() - 1);
}

#[test]
fn increment_missing_task_fails_without_mutation() {
    let mut st = seeded();
    let r = increment_progress(1, 999, &mut st);
    let (table, key) = not_found_parts(&r.unwrap_err());
    assert_eq!(table, "Tasks");
    assert_eq!(key, "999");
    let s = get_service_by_id(1, &st).unwrap();
    assert_eq!(s.last_update, None);
    let t = get_task_by_id(1, &st).unwrap();
    assert_eq!(t.progress, 60);
}

#[test]
fn increment_missing_service_fails_without_mutation() {
    let mut st = seeded();
    let r = increment_progress(77, 1, &mut st);
    let (table, key) = not_found_parts(&r.unwrap_err());
    assert_eq!(table, "Services");
    assert_eq!(key, "77");
    let t = get_task_by_id(1, &st).unwrap();
    assert_eq!(t.progress, 60);
}

#[test]
fn plain_increment_missing_task_fails() {
    let mut st = seeded();
    let r = increment_task_progress(42, &mut st);
    let (table, key) = not_found_parts(&r.unwrap_err());
    assert_eq!(table, "Tasks");
    assert_eq!(key, "42");
}

#[test]
fn edit_service_name_shows_in_listing() {
    let mut st = seeded();
    let before = get_services(&st).unwrap();
    let r = service_edit(&mut st, IdValueForm { id: 1, value: "X".to_string() });
    assert!(r.is_ok());
    let after = get_services(&st).unwrap();
    assert_eq!(after[0].name, "X");
    assert_eq!(after[0].id, before[0].id);
    assert_eq!(after[0].tasks.len(), before[0].tasks.len());
    for (a, b) in after[0].tasks.iter().zip(before[0].tasks.iter()) {
        assert_eq!(a.id, b.id);
        assert_eq!(a.description, b.description);
        assert_eq!(a.progress, b.progress);
    }
    assert_eq!(after[1].name, "Service B");
}

#[test]
fn edit_service_missing_id_fails() {
    let mut st = seeded();
    let r = service_edit(&mut st, IdValueForm { id: 9, value: "X".to_string() });
    let (table, key) = not_found_parts(&r.unwrap_err());
    assert_eq!(table, "Services");
    assert_eq!(key, "9");
}

#[test]
fn edit_task_empty_description_is_stored_empty() {
    let mut st = seeded();
    let r = task_edit(&mut st, IdValueForm { id: 1, value: String::new() });
    assert!(r.is_ok());
    let t = get_task_by_id(1, &st).unwrap();
    assert_eq!(t.description.as_deref(), Some(""));
    let shown = get_services(&st).unwrap();
    assert_eq!(shown[0].tasks[0].description, "");
}

#[test]
fn edit_task_missing_id_fails() {
    let mut st = seeded();
    let r = task_edit(&mut st, IdValueForm { id: 555, value: "text".to_string() });
    let (table, key) = not_found_parts(&r.unwrap_err());
    assert_eq!(table, "Tasks");
    assert_eq!(key, "555");
}

#[test]
fn listing_groups_tasks_under_their_service() {
    let st = seeded();
    let list = get_services(&st).unwrap();
    assert_eq!(list.len(), 2);
    assert_eq!(list[0].id, 1);
    assert_eq!(list[1].id, 2);
    let ids0: Vec<i32> = list[0].tasks.iter().map(|t| t.id).collect();
    let ids1: Vec<i32> = list[1].tasks.iter().map(|t| t.id).collect();
    assert_eq!(ids0, vec![1, 3]);
    assert_eq!(ids1, vec![2]);
    for t in &list[0].tasks {
        assert_eq!(t.service_id, 1);
    }
    for t in &list[1].tasks {
        assert_eq!(t.service_id, 2);
    }
    assert_eq!(list[1].tasks[0].description, "");
    assert_eq!(list[1].last_update, "2020-01-01T00:00:00+00:00");
    assert_eq!(list[0].last_update, "");
}

#[test]
fn listing_twice_is_identical() {
    let st = seeded();
    let a = get_services(&st).unwrap();
    let b = get_services(&st).unwrap();
    assert_eq!(a.len(), b.len());
    for (x, y) in a.iter().zip(b.iter()) {
        assert_eq!(x.id, y.id);
        assert_eq!(x.name, y.name);
        assert_eq!(x.last_update, y.last_update);
        assert_eq!(x.tasks.len(), y.tasks.len());
        for (s, t) in x.tasks.iter().zip(y.tasks.iter()) {
            assert_eq!(s.id, t.id);
            assert_eq!(s.service_id, t.service_id);
            assert_eq!(s.description, t.description);
            assert_eq!(s.progress, t.progress);
            assert_eq!(s.max_progress, t.max_progress);
        }
    }
}

#[test]
fn add_inserts_the_demo_service() {
    let mut st = seeded();
    let r = add(&mut st);
    assert!(r.is_ok());
    let list = get_services(&st).unwrap();
    assert_eq!(list.len(), 3);
    assert_eq!(list[2].name, "Test1");
    assert_eq!(list[2].last_update, "");
    assert!(list[2].tasks.is_empty());
    assert_ne!(list[2].id, 1);
    assert_ne!(list[2].id, 2);
}

#[test]
fn templates_are_named_as_the_routes_expect() {
    let st = seeded();
    let overview = service_index(&st).unwrap();
    assert_eq!(overview.template, "services-overview");
    assert_eq!(overview.services.len(), 2);
    let lighter = update_progress(&st).unwrap();
    assert_eq!(lighter.template, "services");
    assert_eq!(lighter.services.len(), 2);
}

#[test]
fn seeding_refuses_duplicates_and_orphans() {
    let mut st = seeded();
    assert!(!st.insert_service(ServiceRecord {
        id: 1,
        name: "again".to_string(),
        last_update: None,
    }));
    assert!(!st.insert_task(TaskRecord {
        id: 1,
        service_id: 1,
        description: None,
        progress: 0,
        max_progress: 1,
    }));
    assert!(!st.insert_task(TaskRecord {
        id: 99,
        service_id: 1234,
        description: None,
        progress: 0,
        max_progress: 1,
    }));
}

#[test]
fn error_message_names_table_and_key() {
    let e = not_found("Tasks", 999);
    assert_eq!(e.message(), "Could not find entity 'Tasks' with key:'999'");
}

#[test]
fn decimal_numerals() {
    assert_eq!(i32_string(0), "0");
    assert_eq!(i32_string(7), "7");
    assert_eq!(i32_string(999), "999");
    assert_eq!(i32_string(-42), "-42");
    assert_eq!(i32_string(i32::MAX), "2147483647");
    assert_eq!(i32_string(i32::MIN), "-2147483648");
}
