use pass_vault::record::{ListedEntry, Record, RecordStore};

fn record(name: &str, username: &str, password: &str) -> Record {
    Record::new(name.to_string(), username.to_string(), password.to_string())
}

fn two_sites() -> RecordStore {
    let mut store = RecordStore::new();
    store.add(record("GitHub", "alice", "pw-one"));
    store.add(record("Gitlab", "bob", "pw-two"));
    store
}

#[test]
fn new_store_is_empty() {
    let store = RecordStore::new();
    assert!(store.is_empty());
    assert_eq!(store.len(), 0);
    assert!(store.list().is_empty());
    assert!(store.search("").is_empty());
    assert_eq!(store, RecordStore::default());
}

#[test]
fn record_keeps_its_three_texts() {
    let made = Record::new("Bank".to_string(), "carol".to_string(), "s3cret".to_string());
    assert_eq!(made.name, "Bank");
    assert_eq!(made.username, "carol");
    assert_eq!(made.password, "s3cret");
    let blank = record("", "", "");
    assert_eq!(blank.name, "");
    assert_eq!(blank.username, "");
    assert_eq!(blank.password, "");
}

#[test]
fn add_appends_in_order_and_keeps_duplicates() {
    let mut store = RecordStore::new();
    store.add(record("a", "u", "1"));
    store.add(record("b", "v", "2"));
    store.add(record("a", "u", "1"));
    assert_eq!(store.len(), 3);
    assert!(!store.is_empty());
    assert_eq!(store.entries[0], record("a", "u", "1"));
    assert_eq!(store.entries[1], record("b", "v", "2"));
    assert_eq!(store.entries[2], record("a", "u", "1"));
}

#[test]
fn add_then_list_shows_the_record_at_index_one() {
    let mut store = RecordStore::new();
    store.add(record("GitHub", "alice", "top secret"));
    let listed = store.list();
    assert_eq!(listed.len(), 1);
    assert_eq!(
        listed[0],
        ListedEntry { index: 1, name: "GitHub", username: "alice" }
    );
    let shown = format!("{:?}", listed);
    assert!(!shown.contains("top secret"));
}

#[test]
fn list_numbers_from_one_in_insertion_order() {
    let mut store = two_sites();
    store.add(record("", "", "x"));
    let listed = store.list();
    assert_eq!(listed.len(), 3);
    assert_eq!(listed[0], ListedEntry { index: 1, name: "GitHub", username: "alice" });
    assert_eq!(listed[1], ListedEntry { index: 2, name: "Gitlab", username: "bob" });
    assert_eq!(listed[2], ListedEntry { index: 3, name: "", username: "" });
    assert_eq!(store.list(), listed);
}

#[test]
fn search_git_in_any_case_finds_both() {
    let store = two_sites();
    for query in ["git", "GIT", "Git", "gIt"] {
        let found = store.search(query);
        assert_eq!(found.len(), 2);
        assert_eq!(found[0], &record("GitHub", "alice", "pw-one"));
        assert_eq!(found[1], &record("Gitlab", "bob", "pw-two"));
    }
}

#[test]
fn search_alice_finds_only_the_first() {
    let store = two_sites();
    let found = store.search("alice");
    assert_eq!(found.len(), 1);
    assert_eq!(found[0].name, "GitHub");
    assert_eq!(found[0].username, "alice");
    assert_eq!(found[0].password, "pw-one");
    assert_eq!(store.search("ALICE").len(), 1);
}

#[test]
fn search_zzz_finds_none() {
    let store = two_sites();
    assert!(store.search("zzz").is_empty());
    assert!(store.search("pw-one").is_empty());
}

#[test]
fn search_matches_name_or_username() {
    let store = two_sites();
    let by_username = store.search("BOB");
    assert_eq!(by_username.len(), 1);
    assert_eq!(by_username[0].name, "Gitlab");
    let by_name = store.search("hub");
    assert_eq!(by_name.len(), 1);
    assert_eq!(by_name[0].username, "alice");
    assert_eq!(store.search("").len(), 2);
    assert_eq!(store.search("githubx").len(), 0);
}

#[test]
fn search_lowercases_beyond_ascii() {
    let mut store = RecordStore::new();
    store.add(record("\u{c9}COLE", "\u{416}\u{415}\u{41d}\u{42f}", "p"));
    assert_eq!(store.search("\u{e9}cole").len(), 1);
    assert_eq!(store.search("\u{436}\u{435}\u{43d}").len(), 1);
    assert_eq!(store.search("ecole").len(), 0);
}

#[test]
fn record_holds_a_lowered_query_in_name_or_username() {
    let entry = record("GitHub", "alice", "git-secret");
    assert!(entry.holds_lowered(&['h', 'u', 'b']));
    assert!(entry.holds_lowered(&['l', 'i', 'c', 'e']));
    assert!(entry.holds_lowered(&[]));
    assert!(!entry.holds_lowered(&['H', 'U', 'B']));
    assert!(!entry.holds_lowered(&['s', 'e', 'c']));
}

#[test]
fn or_empty_falls_back_to_the_empty_store() {
    assert!(RecordStore::or_empty(None).is_empty());
    let kept = RecordStore::or_empty(Some(two_sites()));
    assert_eq!(kept, two_sites());
}

#[test]
fn clones_are_equal_to_their_origin() {
    let entry = record("n", "u", "p");
    assert_eq!(entry.clone(), entry);
    let store = two_sites();
    let copy = store.clone();
    assert_eq!(copy, store);
    assert_eq!(copy.len(), 2);
}
