use rss2email::Item;

fn item(desc: &str, link: &str, title: &str) -> Item {
    Item { desc: desc.to_string(), link: link.to_string(), title: title.to_string() }
}

#[test]
fn identical_triples_hash_identically() {
    let a = item("World", "http://a.example/1", "Hello");
    let b = item("World", "http://a.example/1", "Hello");
    assert_eq!(a.hash_of(), b.hash_of());
}

#[test]
fn differing_title_hashes_apart() {
    let a = item("World", "http://a.example/1", "Hello");
    let b = item("World", "http://a.example/1", "Hello!");
    assert_ne!(a.hash_of(), b.hash_of());
}

#[test]
fn differing_link_hashes_apart() {
    let a = item("World", "http://a.example/1", "Hello");
    let b = item("World", "http://a.example/2", "Hello");
    assert_ne!(a.hash_of(), b.hash_of());
}

#[test]
fn differing_desc_hashes_apart() {
    let a = item("World", "http://a.example/1", "Hello");
    let b = item("World.", "http://a.example/1", "Hello");
    assert_ne!(a.hash_of(), b.hash_of());
}

#[test]
fn whitespace_is_not_normalized() {
    let a = item("World", "http://a.example/1", "Hello");
    let b = item("World ", "http://a.example/1", "Hello");
    assert_ne!(a.hash_of(), b.hash_of());
}

#[test]
fn field_boundaries_do_not_shift() {
    let a = item("ab", "c", "");
    let b = item("a", "bc", "");
    assert_ne!(a.hash_of(), b.hash_of());
}

#[test]
fn exact_hash_of_empty_item() {
    assert_eq!(Item::new().hash_of(), 0xdf328838e7876fed);
}

#[test]
fn exact_hash_of_one_letter_title() {
    assert_eq!(item("", "", "A").hash_of(), 0xca4d24b16b22c144);
}

#[test]
fn exact_hash_of_sample_item() {
    let a = item("World", "http://a.example/1", "Hello");
    assert_eq!(a.hash_of(), 0x8872aa3bb1abeb9e);
}
