use divinepl::scripture::{exact_verse, keyword_verses};

#[test]
fn exact_lookup_finds_the_keyed_verse() {
    let v = exact_verse("creation").expect("the table holds a creation verse");
    assert_eq!(v, "In the beginning God created the heaven and the earth. (Genesis 1:1)");
}

#[test]
fn exact_lookup_lowercases_the_topic() {
    let v = exact_verse("LIGHT").expect("lookup is case-insensitive");
    assert_eq!(v, "And God said, Let there be light: and there was light. (Genesis 1:3)");
}

#[test]
fn exact_lookup_misses_unknown_topics() {
    assert_eq!(exact_verse("serpents"), None);
}

#[test]
fn keyword_search_scans_lowercased_verse_text() {
    // "God" appears only capitalized in the verse texts, so a hit on the
    // lowercased topic shows the texts were lowercased before matching.
    let matches = keyword_verses("god");
    let keys: Vec<&str> = matches.iter().map(|e| e.key.as_str()).collect();
    assert_eq!(keys, vec!["creation", "light", "error"]);
}

#[test]
fn keyword_search_scans_keys_too() {
    let matches = keyword_verses("CONCURRENCY");
    assert_eq!(matches.len(), 1);
    assert_eq!(matches[0].key, "concurrency");
}

#[test]
fn keyword_search_misses_unknown_topics() {
    assert!(keyword_verses("quaternions").is_empty());
}
