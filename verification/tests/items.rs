use qara::feed::{copy_items, table_rows, FeedExtension, NyaaChannel, NyaaItem};

fn ext(name: &str, value: Option<&str>) -> FeedExtension {
    FeedExtension { namespace: "nyaa".to_string(), name: name.to_string(), values: vec![value.map(String::from)] }
}

fn full(title: &str) -> NyaaItem {
    NyaaItem {
        title: Some(title.to_string()),
        link: Some(format!("https://nyaa.si/{title}")),
        extensions: vec![ext("downloads", Some("10")), ext("seeders", Some("5")), ext("size", Some("700 MiB"))],
    }
}

#[test]
fn nyaa_values_are_looked_up_by_name() {
    let it = full("x");
    assert_eq!(it.nyaa_value("seeders").as_deref(), Some("5"));
    assert_eq!(it.nyaa_value("leechers"), None);
    assert!(it.has_nyaa());
    let other = NyaaItem {
        title: None,
        link: None,
        extensions: vec![FeedExtension { namespace: "dc".to_string(), name: "seeders".to_string(), values: vec![Some("1".into())] }],
    };
    assert!(!other.has_nyaa());
    assert_eq!(other.nyaa_value("seeders"), None);
    let empty = NyaaItem { title: None, link: None, extensions: vec![ext("size", None)] };
    assert_eq!(empty.nyaa_value("size"), None);
}

#[test]
fn table_rows_skip_incomplete_items() {
    let mut partial = full("p");
    partial.extensions.retain(|e| e.name != "size");
    let items = vec![full("a"), partial, full("c")];
    let rows = table_rows(&items);
    assert_eq!(rows, vec![
        vec!["0".to_string(), "a".to_string(), "700 MiB".to_string(), "5".to_string()],
        vec!["2".to_string(), "c".to_string(), "700 MiB".to_string(), "5".to_string()],
    ]);
}

#[test]
fn selected_item_description() {
    assert_eq!(full("a").description_lines().unwrap(), vec![
        "a".to_string(),
        "https://nyaa.si/a".to_string(),
        "downloads: 10; seeds: 5".to_string(),
    ]);
    let anon = NyaaItem { title: None, link: None, extensions: vec![ext("size", Some("1"))] };
    assert_eq!(anon.description_lines().unwrap(), vec![
        "<anon>".to_string(),
        "<yo wth?>".to_string(),
        "downloads: <?>; seeds: <?>".to_string(),
    ]);
    let bare = NyaaItem { title: Some("t".into()), link: None, extensions: vec![] };
    assert_eq!(bare.description_lines(), None);
}

#[test]
fn copies_are_equal() {
    let items = vec![full("a"), full("b")];
    let copy = copy_items(&items);
    assert_eq!(copy.len(), 2);
    assert_eq!(copy[1].title, items[1].title);
    let c = NyaaChannel::new(items);
    let d = c.duplicate();
    assert_eq!(d.items.len(), 2);
    assert!(d.selected_item.is_none());
}
