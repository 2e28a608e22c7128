use catlas_api::types::Tags;

fn pair(k: &str, v: &str) -> (String, String) {
    (k.to_owned(), v.to_owned())
}

#[test]
fn tags_keep_keys_sorted_and_unique() {
    let tags = Tags::from_pairs(vec![
        pair("name", "Hall"),
        pair("building", "yes"),
        pair("name", "Tower"),
        pair("Name", "upper"),
        pair("b", "short"),
    ]);
    assert_eq!(
        *tags.entries(),
        vec![pair("Name", "upper"), pair("b", "short"), pair("building", "yes"), pair("name", "Tower")]
    );
    assert_eq!(tags.len(), 4);
    assert_eq!(tags.clone().into_entries(), tags.into_entries());
}

#[test]
fn no_pairs_make_no_tags() {
    assert!(Tags::from_pairs(vec![]).is_empty());
    assert!(Tags::new().is_empty());
}
