use game_server::net::registry::{contains_id, Registry};
use game_server::net::{NetIdGen, UserNetId};

#[test]
fn new_registry_is_empty() {
    let r: Registry<u8> = Registry::new();
    assert_eq!(r.len(), 0);
    assert_eq!(r.position(UserNetId(0)), None);
}

#[test]
fn register_gives_consecutive_identifiers() {
    let mut ids = NetIdGen::new();
    let mut r: Registry<&str> = Registry::new();
    assert_eq!(r.register(&mut ids, "a"), Some(UserNetId(0)));
    assert_eq!(r.register(&mut ids, "b"), Some(UserNetId(1)));
    assert_eq!(r.len(), 2);
    assert_eq!(r.id_at(0), UserNetId(0));
    assert_eq!(r.id_at(1), UserNetId(1));
    assert_eq!(*r.handle_at(0), "a");
    assert_eq!(*r.handle_at(1), "b");
    assert_eq!(r.position(UserNetId(1)), Some(1));
    assert_eq!(r.position(UserNetId(2)), None);
}

#[test]
fn two_registries_share_one_generator() {
    let mut ids = NetIdGen::new();
    let mut a: Registry<u8> = Registry::new();
    let mut b: Registry<u8> = Registry::new();
    assert_eq!(a.register(&mut ids, 1), Some(UserNetId(0)));
    assert_eq!(b.register(&mut ids, 2), Some(UserNetId(1)));
    assert_eq!(a.register(&mut ids, 3), Some(UserNetId(2)));
    assert_eq!(a.position(UserNetId(1)), None);
    assert_eq!(b.position(UserNetId(1)), Some(0));
}

#[test]
fn register_fails_when_the_generator_is_spent() {
    let mut ids = NetIdGen::starting_at(u32::MAX);
    let mut r: Registry<u8> = Registry::new();
    assert_eq!(r.register(&mut ids, 1), Some(UserNetId(u32::MAX)));
    assert_eq!(r.register(&mut ids, 2), None);
    assert_eq!(r.len(), 1);
}

#[test]
fn register_turns_away_an_identifier_that_is_live() {
    let mut ids = NetIdGen::new();
    let mut r: Registry<u8> = Registry::new();
    assert_eq!(r.register(&mut ids, 1), Some(UserNetId(0)));
    let mut other = NetIdGen::new();
    assert_eq!(r.register(&mut other, 2), None);
    assert_eq!(other.count(), 1);
    assert_eq!(r.len(), 1);
    assert_eq!(*r.handle_at(0), 1);
    assert_eq!(r.register(&mut other, 3), Some(UserNetId(1)));
}

#[test]
fn handle_mut_changes_one_handle() {
    let mut ids = NetIdGen::new();
    let mut r: Registry<Vec<u8>> = Registry::new();
    r.register(&mut ids, vec![1]);
    r.register(&mut ids, vec![2]);
    r.handle_mut(1).push(9);
    assert_eq!(*r.handle_at(0), vec![1]);
    assert_eq!(*r.handle_at(1), vec![2, 9]);
    assert_eq!(r.id_at(1), UserNetId(1));
}

#[test]
fn sweep_removes_the_bad_and_keeps_the_order() {
    let mut ids = NetIdGen::new();
    let mut r: Registry<char> = Registry::new();
    for c in ['a', 'b', 'c', 'd', 'e'] {
        r.register(&mut ids, c);
    }
    r.sweep(&vec![UserNetId(3), UserNetId(0), UserNetId(3), UserNetId(77)]);
    assert_eq!(r.len(), 3);
    assert_eq!((r.id_at(0), *r.handle_at(0)), (UserNetId(1), 'b'));
    assert_eq!((r.id_at(1), *r.handle_at(1)), (UserNetId(2), 'c'));
    assert_eq!((r.id_at(2), *r.handle_at(2)), (UserNetId(4), 'e'));
    assert_eq!(r.position(UserNetId(0)), None);
    assert_eq!(r.position(UserNetId(3)), None);
}

#[test]
fn sweep_without_marks_changes_nothing() {
    let mut ids = NetIdGen::new();
    let mut r: Registry<char> = Registry::new();
    r.register(&mut ids, 'a');
    r.register(&mut ids, 'b');
    r.sweep(&Vec::new());
    assert_eq!(r.len(), 2);
    assert_eq!(r.position(UserNetId(0)), Some(0));
    assert_eq!(r.position(UserNetId(1)), Some(1));
}

#[test]
fn swept_identifier_is_not_issued_again() {
    let mut ids = NetIdGen::new();
    let mut r: Registry<char> = Registry::new();
    r.register(&mut ids, 'a');
    r.sweep(&vec![UserNetId(0)]);
    assert_eq!(r.len(), 0);
    assert_eq!(r.register(&mut ids, 'b'), Some(UserNetId(1)));
}

#[test]
fn contains_id_looks_through_the_list() {
    let bad = vec![UserNetId(4), UserNetId(2)];
    assert!(contains_id(&bad, UserNetId(2)));
    assert!(contains_id(&bad, UserNetId(4)));
    assert!(!contains_id(&bad, UserNetId(3)));
    assert!(!contains_id(&Vec::new(), UserNetId(0)));
}
