use obscura_solverr::session::{not_found_text, BrowserSpec, SessionStore};

fn is_uuid_v4(s: &str) -> bool {
    let b: Vec<char> = s.chars().collect();
    b.len() == 36
        && b.iter().enumerate().all(|(i, c)| {
            if i == 8 || i == 13 || i == 18 || i == 23 {
                *c == '-'
            } else {
                c.is_ascii_hexdigit() && !c.is_ascii_uppercase()
            }
        })
        && b[14] == '4'
        && "89ab".contains(b[19])
}

#[test]
fn create_gives_uuid_and_builds_browser_from_id() {
    let mut store: SessionStore<String, u32> = SessionStore::new(3);
    let id = store.create(
        Some("http://proxy:3128".to_string()),
        true,
        Some("UA/1".to_string()),
        |b: BrowserSpec| {
            assert_eq!(b.proxy.as_deref(), Some("http://proxy:3128"));
            assert!(b.stealth);
            assert_eq!(b.user_agent.as_deref(), Some("UA/1"));
            (b.context_name, b.page_name.len() as u32)
        },
    );
    assert!(is_uuid_v4(&id));
    let s = store.get_mut(&id).unwrap();
    assert_eq!(s.context, format!("solverr-{id}"));
    assert_eq!(s.page, format!("solverr-page-{id}").len() as u32);
    assert_eq!(s.requests, 0);
}

#[test]
fn list_and_destroy() {
    let mut store: SessionStore<(), ()> = SessionStore::new(3);
    let a = store.create(None, false, None, |_: BrowserSpec| ((), ()));
    let b = store.create(None, false, None, |_: BrowserSpec| ((), ()));
    assert_ne!(a, b);
    assert_eq!(store.list(), vec![a.clone(), b.clone()]);
    assert!(store.destroy(&a));
    assert!(!store.destroy(&a));
    assert_eq!(store.list(), vec![b.clone()]);
    assert!(store.get_mut(&a).is_none());
}

#[test]
fn touch_counts_until_limit() {
    let mut store: SessionStore<(), ()> = SessionStore::new(2);
    let id = store.create(None, false, None, |_: BrowserSpec| ((), ()));
    assert_eq!(store.touch(&id), Ok(()));
    assert_eq!(store.touch(&id), Ok(()));
    assert_eq!(store.get_mut(&id).unwrap().requests, 2);
    assert_eq!(
        store.touch(&id),
        Err(format!("Session {id} exceeded max requests (2)"))
    );
    assert_eq!(store.get_mut(&id).unwrap().requests, 2);
}

#[test]
fn touch_unknown_session() {
    let mut store: SessionStore<(), ()> = SessionStore::new(25);
    assert_eq!(store.touch("nope"), Err("Session not found: nope".to_string()));
    assert_eq!(not_found_text("nope"), "Session not found: nope");
}

#[test]
fn touch_with_zero_limit_refuses_first_request() {
    let mut store: SessionStore<(), ()> = SessionStore::new(0);
    let id = store.create(None, false, None, |_: BrowserSpec| ((), ()));
    assert_eq!(
        store.touch(&id),
        Err(format!("Session {id} exceeded max requests (0)"))
    );
}

#[test]
fn get_mut_changes_in_place() {
    let mut store: SessionStore<u8, u8> = SessionStore::new(5);
    let id = store.create(None, false, None, |_: BrowserSpec| (1, 2));
    store.get_mut(&id).unwrap().page = 9;
    assert_eq!(store.get_mut(&id).unwrap().page, 9);
}

#[test]
fn budget_law_on_concrete_values() {
    let mut store: SessionStore<(), ()> = SessionStore::new(25);
    let id = store.create(None, false, None, |_: BrowserSpec| ((), ()));
    for k in 1..=25u32 {
        assert_eq!(store.touch(&id), Ok(()));
        assert_eq!(store.get_mut(&id).unwrap().requests, k);
    }
    for _ in 0..3 {
        assert_eq!(
            store.touch(&id),
            Err(format!("Session {id} exceeded max requests (25)"))
        );
        assert_eq!(store.get_mut(&id).unwrap().requests, 25);
    }
}

#[test]
fn touching_one_session_leaves_others() {
    let mut store: SessionStore<(), ()> = SessionStore::new(5);
    let a = store.create(None, false, None, |_: BrowserSpec| ((), ()));
    let b = store.create(None, false, None, |_: BrowserSpec| ((), ()));
    assert_eq!(store.touch(&a), Ok(()));
    assert_eq!(store.get_mut(&b).unwrap().requests, 0);
    assert_eq!(store.get_mut(&a).unwrap().requests, 1);
    assert_eq!(store.list(), vec![a, b]);
}
