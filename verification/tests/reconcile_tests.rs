use dyndns::domain::Domain;
use dyndns::ip::IpAddress;
use dyndns::payload::{DomainList, DomainRecord};
use dyndns::reconcile::{reconcile_plan, RecordAction};

fn record(id: u64, ty: &str, name: &str, data: &str) -> DomainRecord {
    DomainRecord {
        ty: ty.to_string(),
        id,
        name: name.to_string(),
        data: data.to_string(),
    }
}

fn list(records: Vec<DomainRecord>) -> DomainList {
    DomainList { domain_records: records }
}

#[test]
fn empty_list_plans_one_insert() {
    let ip = IpAddress::V4(203, 0, 113, 7);
    let domain = Domain::new("home.example.com").unwrap();
    let plan = reconcile_plan(&ip, &domain, &list(vec![]));

    assert_eq!(plan.len(), 1);
    match &plan[0] {
        RecordAction::Insert { record } => {
            assert_eq!(record.ty, "A");
            assert_eq!(record.name, "home");
            assert_eq!(record.data, "203.0.113.7");
        }
        _ => panic!("expected an insert"),
    }
}

#[test]
fn single_matching_record_plans_nothing() {
    let ip = IpAddress::V4(203, 0, 113, 7);
    let domain = Domain::new("home.example.com").unwrap();
    let existing = record(42, "A", "home.example.com", "203.0.113.7");
    let plan = reconcile_plan(&ip, &domain, &list(vec![existing]));

    assert!(plan.is_empty());
}

#[test]
fn single_differing_record_plans_one_update() {
    let ip = IpAddress::V4(203, 0, 113, 7);
    let domain = Domain::new("home.example.com").unwrap();
    let existing = record(42, "A", "home.example.com", "198.51.100.1");
    let plan = reconcile_plan(&ip, &domain, &list(vec![existing]));

    assert_eq!(plan.len(), 1);
    match &plan[0] {
        RecordAction::Update { id, record } => {
            assert_eq!(*id, 42);
            assert_eq!(record.ty, "A");
            assert_eq!(record.name, "home");
            assert_eq!(record.data, "203.0.113.7");
        }
        _ => panic!("expected an update"),
    }
}

#[test]
fn duplicate_records_plan_update_then_deletes_in_order() {
    let ip = IpAddress::V4(3, 3, 3, 3);
    let domain = Domain::new("home.example.com").unwrap();
    let records = vec![
        record(1, "A", "home.example.com", "1.1.1.1"),
        record(2, "A", "home.example.com", "2.2.2.2"),
    ];
    let plan = reconcile_plan(&ip, &domain, &list(records));

    assert_eq!(plan.len(), 2);
    match &plan[0] {
        RecordAction::Update { id, record } => {
            assert_eq!(*id, 1);
            assert_eq!(record.data, "3.3.3.3");
        }
        _ => panic!("expected an update first"),
    }
    match &plan[1] {
        RecordAction::Delete { id } => assert_eq!(*id, 2),
        _ => panic!("expected a delete second"),
    }
}

#[test]
fn many_records_delete_all_but_the_first() {
    let ip = IpAddress::V4(9, 9, 9, 9);
    let domain = Domain::new("home.example.com").unwrap();
    let records = vec![
        record(10, "A", "home.example.com", "1.2.3.4"),
        record(11, "A", "home.example.com", "5.6.7.8"),
        record(12, "A", "home.example.com", "9.9.9.9"),
        record(13, "A", "home.example.com", "9.9.9.9"),
    ];
    let plan = reconcile_plan(&ip, &domain, &list(records));

    assert_eq!(plan.len(), 4);
    match &plan[0] {
        RecordAction::Update { id, .. } => assert_eq!(*id, 10),
        _ => panic!("expected an update first"),
    }
    let deleted: Vec<u64> = plan[1..]
        .iter()
        .map(|a| match a {
            RecordAction::Delete { id } => *id,
            _ => panic!("expected deletes after the update"),
        })
        .collect();
    assert_eq!(deleted, vec![11, 12, 13]);
}

#[test]
fn matching_first_record_still_purges_duplicates() {
    let ip = IpAddress::V4(3, 3, 3, 3);
    let domain = Domain::new("home.example.com").unwrap();
    let records = vec![
        record(1, "A", "home.example.com", "3.3.3.3"),
        record(2, "A", "home.example.com", "2.2.2.2"),
        record(3, "A", "home.example.com", "3.3.3.3"),
    ];
    let plan = reconcile_plan(&ip, &domain, &list(records));

    assert_eq!(plan.len(), 2);
    match &plan[0] {
        RecordAction::Delete { id } => assert_eq!(*id, 2),
        _ => panic!("expected only deletes"),
    }
    match &plan[1] {
        RecordAction::Delete { id } => assert_eq!(*id, 3),
        _ => panic!("expected only deletes"),
    }
}

#[test]
fn v6_address_plans_aaaa_upload_with_compressed_text() {
    let ip = IpAddress::V6(0x2001, 0xdb8, 0, 0, 0, 0, 0, 1);
    let domain = Domain::new("home.example.com").unwrap();
    let existing = record(7, "AAAA", "home.example.com", "2001:db8::2");
    let plan = reconcile_plan(&ip, &domain, &list(vec![existing]));

    assert_eq!(plan.len(), 1);
    match &plan[0] {
        RecordAction::Update { id, record } => {
            assert_eq!(*id, 7);
            assert_eq!(record.ty, "AAAA");
            assert_eq!(record.name, "home");
            assert_eq!(record.data, "2001:db8::1");
        }
        _ => panic!("expected an update"),
    }
}

#[test]
fn end_to_end_resolved_text_drives_the_plan() {
    // The resolver hands back "203.0.113.7"; the domain parses; the
    // provider lists one record already holding that text: no mutation.
    let domain = Domain::new("home.example.com").unwrap();
    assert_eq!(domain.name, "home");
    assert_eq!(domain.root, "example.com");

    let ip = IpAddress::V4(203, 0, 113, 7);
    assert_eq!(ip.to_text(), "203.0.113.7");

    let existing = record(42, "A", "home.example.com", "203.0.113.7");
    let plan = reconcile_plan(&ip, &domain, &list(vec![existing]));
    assert!(plan.is_empty());
}
