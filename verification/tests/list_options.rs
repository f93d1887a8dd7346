use books_api::list_options::ListOptions;

fn text(s: &str) -> String {
    s.to_string()
}

#[test]
fn new_options_are_empty() {
    let options = ListOptions::new();
    assert_eq!(options.len(), 0);
    assert_eq!(options.get("sort"), None);
    assert!(!options.contains_key("sort"));
}

#[test]
fn insert_appends_new_names_in_order() {
    let mut options = ListOptions::new();
    options.insert(text("field"), text("title"));
    options.insert(text("sort"), text("asc"));
    options.insert(text("author"), text("Tolkien"));
    assert_eq!(options.len(), 3);
    assert_eq!(options.entry(0), (&text("field"), &text("title")));
    assert_eq!(options.entry(1), (&text("sort"), &text("asc")));
    assert_eq!(options.entry(2), (&text("author"), &text("Tolkien")));
    assert_eq!(options.get("sort"), Some(&text("asc")));
    assert_eq!(options.get("author"), Some(&text("Tolkien")));
    assert_eq!(options.get("title"), None);
    assert!(options.contains_key("field"));
    assert!(!options.contains_key("Field"));
}

#[test]
fn insert_replaces_a_present_name_in_place() {
    let mut options = ListOptions::new();
    options.insert(text("field"), text("title"));
    options.insert(text("sort"), text("asc"));
    options.insert(text("field"), text("author"));
    assert_eq!(options.len(), 2);
    assert_eq!(options.entry(0), (&text("field"), &text("author")));
    assert_eq!(options.entry(1), (&text("sort"), &text("asc")));
    assert_eq!(options.get("field"), Some(&text("author")));
}

#[test]
fn names_are_compared_exactly() {
    let mut options = ListOptions::new();
    options.insert(text(""), text("empty"));
    options.insert(text("a"), text("1"));
    options.insert(text("A"), text("2"));
    options.insert(text("\u{e9}"), text("3"));
    assert_eq!(options.len(), 4);
    assert_eq!(options.get(""), Some(&text("empty")));
    assert_eq!(options.get("a"), Some(&text("1")));
    assert_eq!(options.get("A"), Some(&text("2")));
    assert_eq!(options.get("\u{e9}"), Some(&text("3")));
}
