use books_api::book_service::{can_load, delete, load};
use books_api::list_options::ListOptions;
use books_api::record_id::RecordId;
use bson::{Bson, Document};

fn options(pairs: &[(&str, &str)]) -> ListOptions {
    let mut options = ListOptions::new();
    for (name, value) in pairs {
        options.insert(name.to_string(), value.to_string());
    }
    options
}

fn entries(doc: &Document) -> Vec<(String, Bson)> {
    doc.iter().map(|(k, v)| (k.clone(), v.clone())).collect()
}

fn text(s: &str) -> Bson {
    Bson::String(s.to_string())
}

#[test]
fn sort_asc_orders_ascending_on_the_field() {
    let request = load(&options(&[("field", "title"), ("sort", "asc")]));
    assert!(request.filter.is_none());
    assert_eq!(entries(&request.sort), vec![("title".to_string(), Bson::Int32(1))]);
}

#[test]
fn sort_desc_orders_descending_on_the_field() {
    let request = load(&options(&[("field", "title"), ("sort", "desc")]));
    assert!(request.filter.is_none());
    assert_eq!(entries(&request.sort), vec![("title".to_string(), Bson::Int32(-1))]);
}

#[test]
fn sort_before_field_gives_the_same_document() {
    let request = load(&options(&[("sort", "asc"), ("field", "release")]));
    assert_eq!(entries(&request.sort), vec![("release".to_string(), Bson::Int32(1))]);
}

#[test]
fn unrecognized_sort_value_orders_nothing() {
    for value in ["ascending", "ASC", "", "1", "Desc"] {
        let request = load(&options(&[("field", "title"), ("sort", value)]));
        assert!(request.filter.is_none());
        assert!(request.sort.is_empty());
    }
}

#[test]
fn omitted_sort_orders_nothing() {
    let request = load(&options(&[("field", "title")]));
    assert!(request.filter.is_none());
    assert!(request.sort.is_empty());
    let none = load(&options(&[]));
    assert!(none.filter.is_none());
    assert!(none.sort.is_empty());
}

#[test]
fn extra_parameter_is_never_a_filter() {
    let request = load(&options(&[("author", "Tolkien")]));
    assert!(request.filter.is_none());
    assert_eq!(entries(&request.sort), vec![("author".to_string(), text("Tolkien"))]);
}

#[test]
fn extras_without_sort_are_all_carried_over_in_order() {
    let request = load(&options(&[("b", "2"), ("field", "title"), ("a", "1"), ("c", "3")]));
    assert!(request.filter.is_none());
    assert_eq!(
        entries(&request.sort),
        vec![
            ("b".to_string(), text("2")),
            ("a".to_string(), text("1")),
            ("c".to_string(), text("3")),
        ]
    );
}

#[test]
fn extras_are_carried_over_wherever_sort_is_walked() {
    let request = load(&options(&[
        ("author", "Tolkien"),
        ("field", "title"),
        ("sort", "asc"),
        ("year", "1937"),
    ]));
    assert!(request.filter.is_none());
    assert_eq!(
        entries(&request.sort),
        vec![
            ("author".to_string(), text("Tolkien")),
            ("title".to_string(), Bson::Int32(1)),
            ("year".to_string(), text("1937")),
        ]
    );
}

#[test]
fn unrecognized_sort_changes_nothing() {
    let request = load(&options(&[("author", "Tolkien"), ("sort", "up"), ("year", "1937")]));
    assert!(request.filter.is_none());
    assert_eq!(
        entries(&request.sort),
        vec![("author".to_string(), text("Tolkien")), ("year".to_string(), text("1937"))]
    );
}

#[test]
fn walk_order_does_not_change_what_is_held_under_each_name() {
    let given = [("author", "Tolkien"), ("field", "title"), ("sort", "desc"), ("year", "1937")];
    let orders: [[usize; 4]; 6] =
        [[0, 1, 2, 3], [3, 2, 1, 0], [2, 0, 3, 1], [1, 3, 0, 2], [2, 1, 0, 3], [0, 3, 2, 1]];
    for order in orders {
        let walked: Vec<(&str, &str)> = order.iter().map(|&i| given[i]).collect();
        let request = load(&options(&walked));
        assert!(request.filter.is_none());
        assert_eq!(request.sort.len(), 3);
        assert_eq!(request.sort.get("author"), Some(&text("Tolkien")));
        assert_eq!(request.sort.get("year"), Some(&text("1937")));
        assert_eq!(request.sort.get("title"), Some(&Bson::Int32(-1)));
        assert_eq!(request.sort.get("sort"), None);
        assert_eq!(request.sort.get("field"), None);
        let names: Vec<&str> = walked
            .iter()
            .filter(|(name, _)| *name != "field")
            .map(|(name, _)| if *name == "sort" { "title" } else { *name })
            .collect();
        let keys: Vec<&str> = request.sort.keys().map(|key| key.as_str()).collect();
        assert_eq!(keys, names);
    }
}

#[test]
fn extra_named_like_the_field_walked_after_sort_takes_its_place() {
    let request = load(&options(&[
        ("field", "title"),
        ("sort", "desc"),
        ("year", "1937"),
        ("title", "Dune"),
    ]));
    assert_eq!(
        entries(&request.sort),
        vec![("title".to_string(), text("Dune")), ("year".to_string(), text("1937"))]
    );
}

#[test]
fn sort_walked_after_an_extra_named_like_the_field_takes_its_place() {
    let request = load(&options(&[
        ("title", "Dune"),
        ("year", "1937"),
        ("field", "title"),
        ("sort", "desc"),
    ]));
    assert_eq!(
        entries(&request.sort),
        vec![("title".to_string(), Bson::Int32(-1)), ("year".to_string(), text("1937"))]
    );
}

#[test]
fn field_naming_a_reserved_name_orders_on_it() {
    let request = load(&options(&[("field", "sort"), ("sort", "asc"), ("author", "Tolkien")]));
    assert_eq!(
        entries(&request.sort),
        vec![("sort".to_string(), Bson::Int32(1)), ("author".to_string(), text("Tolkien"))]
    );
}

#[test]
fn can_load_asks_for_a_field_only_with_a_recognized_sort() {
    assert!(can_load(&options(&[])));
    assert!(can_load(&options(&[("field", "title"), ("sort", "asc")])));
    assert!(can_load(&options(&[("sort", "up")])));
    assert!(can_load(&options(&[("author", "Tolkien")])));
    assert!(!can_load(&options(&[("sort", "asc")])));
    assert!(!can_load(&options(&[("sort", "desc"), ("author", "Tolkien")])));
}

#[test]
fn delete_matches_the_identifier() {
    let bytes = [0x63, 0xce, 0xed, 0x18, 0xf7, 0x1d, 0xda, 0x7d, 0x8c, 0xf2, 0x1e, 0x8e];
    let request = delete(RecordId { bytes });
    assert_eq!(
        entries(&request.filter),
        vec![("_id".to_string(), Bson::ObjectId(bson::oid::ObjectId::from_bytes(bytes)))]
    );
}
