use product_service::ProductRecord;
use product_service::repository::DeleteOutcome;
use product_service::repository::GetOutcome;
use product_service::repository::ListOutcome;
use product_service::repository::ProductRepository;

fn seeded_repository() -> ProductRepository {
    ProductRepository::from_records(vec![
        ProductRecord { id: 1, name: String::from("A") },
        ProductRecord { id: 2, name: String::from("B") },
    ])
}

fn listed_records(repo: &ProductRepository) -> Vec<ProductRecord> {
    match repo.list_all() {
        ListOutcome::Listed(v) => v,
        ListOutcome::InternalFailure => panic!("repository unexpectedly poisoned"),
    }
}

#[test]
fn absent_id_get_and_delete_not_found() {
    let mut repo = seeded_repository();
    assert!(matches!(repo.get_by_id(99), GetOutcome::NotFound));
    assert!(matches!(repo.delete_by_id(99), DeleteOutcome::NotFound));
    let listed = listed_records(&repo);
    assert_eq!(listed.len(), 2);
    assert_eq!(listed[0].id, 1);
    assert_eq!(listed[1].id, 2);
}

#[test]
fn get_returns_equal_copy() {
    let repo = seeded_repository();
    let mut copy = match repo.get_by_id(1) {
        GetOutcome::Found(p) => p,
        _ => panic!("expected a record with id 1"),
    };
    assert_eq!(copy.id, 1);
    assert_eq!(copy.name, "A");
    copy.name = String::from("mutated");
    let again = match repo.get_by_id(1) {
        GetOutcome::Found(p) => p,
        _ => panic!("expected a record with id 1"),
    };
    assert_eq!(again.name, "A");
}

#[test]
fn delete_twice_success_then_not_found() {
    let mut repo = seeded_repository();
    let before = listed_records(&repo).len();
    assert!(matches!(repo.delete_by_id(2), DeleteOutcome::Success));
    assert!(matches!(repo.delete_by_id(2), DeleteOutcome::NotFound));
    let after = listed_records(&repo).len();
    assert_eq!(before - after, 1);
}

#[test]
fn delete_keeps_relative_order() {
    let mut repo = ProductRepository::from_records(vec![
        ProductRecord { id: 1, name: String::from("A") },
        ProductRecord { id: 2, name: String::from("B") },
        ProductRecord { id: 3, name: String::from("C") },
        ProductRecord { id: 4, name: String::from("D") },
    ]);
    assert!(matches!(repo.delete_by_id(2), DeleteOutcome::Success));
    let listed = listed_records(&repo);
    assert_eq!(listed.len(), 3);
    assert_eq!(listed[0].id, 1);
    assert_eq!(listed[0].name, "A");
    assert_eq!(listed[1].id, 3);
    assert_eq!(listed[1].name, "C");
    assert_eq!(listed[2].id, 4);
    assert_eq!(listed[2].name, "D");
}

#[test]
fn distinct_deletes_each_succeed_once() {
    let mut repo = ProductRepository::from_records(vec![
        ProductRecord { id: 1, name: String::from("A") },
        ProductRecord { id: 2, name: String::from("B") },
        ProductRecord { id: 3, name: String::from("C") },
    ]);
    assert!(matches!(repo.delete_by_id(2), DeleteOutcome::Success));
    assert!(matches!(repo.delete_by_id(3), DeleteOutcome::Success));
    assert!(matches!(repo.delete_by_id(5), DeleteOutcome::NotFound));
    let listed = listed_records(&repo);
    assert_eq!(listed.len(), 1);
    assert_eq!(listed[0].id, 1);
}

#[test]
fn first_match_wins_on_duplicate_ids() {
    let mut repo = ProductRepository::from_records(vec![
        ProductRecord { id: 7, name: String::from("first") },
        ProductRecord { id: 7, name: String::from("second") },
    ]);
    let found = match repo.get_by_id(7) {
        GetOutcome::Found(p) => p,
        _ => panic!("expected a record with id 7"),
    };
    assert_eq!(found.name, "first");
    assert!(matches!(repo.delete_by_id(7), DeleteOutcome::Success));
    let listed = listed_records(&repo);
    assert_eq!(listed.len(), 1);
    assert_eq!(listed[0].name, "second");
}

#[test]
fn empty_repository_operations() {
    let mut repo = ProductRepository::new();
    assert!(listed_records(&repo).is_empty());
    assert!(matches!(repo.get_by_id(99), GetOutcome::NotFound));
    assert!(matches!(repo.delete_by_id(99), DeleteOutcome::NotFound));
}

#[test]
fn poisoned_repository_fails_every_operation() {
    let mut repo = seeded_repository();
    repo.poison();
    assert!(matches!(repo.list_all(), ListOutcome::InternalFailure));
    assert!(matches!(repo.get_by_id(1), GetOutcome::InternalFailure));
    assert!(matches!(repo.delete_by_id(1), DeleteOutcome::InternalFailure));
    assert!(matches!(repo.list_all(), ListOutcome::InternalFailure));
}
