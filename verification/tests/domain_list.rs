//! Lists of domains in two layers.
use numa::domain_list::PersistedDomainList;
use numa::memory::table_room;

fn test_list() -> PersistedDomainList {
    PersistedDomainList::unpersisted()
}

#[test]
fn save_load_roundtrip_preserves_user_entries() {
    let mut l = test_list();
    l.insert("user.example");
    l.insert("config-overlap.example");
    let saved = l.user_entries();

    let mut reloaded = test_list();
    reloaded.insert_from_config("config-overlap.example");
    reloaded.load_persisted(&saved);

    assert!(reloaded.matches("user.example"));
    assert!(!reloaded.is_config("user.example"));
    // Config wins on overlap: the persisted copy must not shadow it.
    assert!(reloaded.is_config("config-overlap.example"));
    assert_eq!(reloaded.len(), 2);
}

#[test]
fn config_and_user_layers_both_match() {
    let mut l = test_list();
    l.insert_from_config("config.example");
    l.insert("user.example");
    assert!(l.matches("config.example"));
    assert!(l.matches("user.example"));
    assert!(!l.matches("other.example"));
}

#[test]
fn suffix_match_covers_subdomains_not_lookalikes() {
    let mut l = test_list();
    l.insert_from_config("example.com");
    assert!(l.matches("nas.example.com"));
    assert!(l.matches("example.com"));
    assert!(!l.matches("evilexample.com"));
}

#[test]
fn normalizes_case_and_trailing_dot() {
    let mut l = test_list();
    l.insert("NAS.Example.COM.");
    assert!(l.matches("nas.example.com"));
    assert_eq!(l.entries(), vec!["nas.example.com"]);
}

#[test]
fn remove_drops_user_entry_but_not_config() {
    let mut l = test_list();
    l.insert_from_config("keep.example");
    l.insert("drop.example");
    assert!(l.remove("drop.example"));
    assert!(!l.matches("drop.example"));
    // Config entry is file-owned: remove is a no-op and reports false.
    assert!(!l.remove("keep.example"));
    assert!(l.matches("keep.example"));
}

#[test]
fn insert_skips_domain_already_in_config() {
    let mut l = test_list();
    l.insert_from_config("dup.example");
    l.insert("dup.example");
    // No duplicate user copy; still a single listed entry, still config-owned.
    assert_eq!(l.entries(), vec!["dup.example"]);
    assert!(l.is_config("dup.example"));
}

#[test]
fn entries_are_sorted_union() {
    let mut l = test_list();
    l.insert_from_config("b.example");
    l.insert("a.example");
    l.insert("c.example");
    assert_eq!(l.entries(), vec!["a.example", "b.example", "c.example"]);
}

#[test]
fn is_config_distinguishes_layers() {
    let mut l = test_list();
    l.insert_from_config("seed.example");
    l.insert("runtime.example");
    assert!(l.is_config("seed.example"));
    assert!(!l.is_config("runtime.example"));
}

#[test]
fn lists_are_made_of_seeds_and_kept_entries() {
    let seeds = vec!["A.example.".to_string()];
    let kept = vec!["a.example".to_string(), "b.example".to_string()];
    let l = PersistedDomainList::new(&seeds, &kept);
    assert_eq!(l.entries(), vec!["a.example", "b.example"]);
    assert_eq!(l.user_entries(), vec!["b.example"]);
    assert!(l.is_config("a.example"));
    assert!(l.heap_bytes() >= 2);
}

#[test]
fn letters_beyond_ascii_are_lowered_too() {
    let mut l = test_list();
    l.insert("\u{c4}RGER.example");
    assert_eq!(l.entries(), vec!["\u{e4}rger.example"]);
}

#[test]
fn an_entry_of_both_kinds_counts_once() {
    let mut l = test_list();
    assert!(l.insert("a.example"));
    l.insert_from_config("A.example.");
    assert_eq!(l.len(), 1);
    assert_eq!(l.len(), l.entries().len());
    assert!(l.is_config("a.example"));
    assert!(l.user_entries().is_empty());
    assert!(!l.remove("a.example"));
    assert!(l.matches("sub.a.example"));
}

#[test]
fn memory_of_a_list_is_places_and_rooms() {
    let place = 9 + std::mem::size_of::<String>();
    assert_eq!(table_room(&vec![10, 20]), 2 * place + 30);
    assert_eq!(table_room(&vec![]), 0);
    assert_eq!(table_room(&vec![usize::MAX, 1]), usize::MAX);
    let mut l = test_list();
    assert_eq!(l.heap_bytes(), 0);
    l.insert("a.example");
    l.insert_from_config("b.example");
    assert!(l.heap_bytes() >= 2 * place + 18);
}
