use crfsuite::quark::Quark;

#[test]
fn find_by_str() {
    let mut quark = Quark::default();
    for (s, id) in [
        ("zero", 0),
        ("one", 1),
        ("two", 2),
        ("three", 3),
        ("two", 2),
        ("one", 1),
        ("zero", 0),
        ("four", 4),
    ] {
        assert_eq!(id, quark.find_or_insert(s), "{} != {}", s, id);
    }
}

#[test]
fn find_by_id() {
    let mut quark = Quark::default();
    quark.find_or_insert("zero");
    quark.find_or_insert("one");
    assert_eq!(quark.to_str(0), Some("zero"));
    assert_eq!(quark.to_str(1), Some("one"));
    assert_eq!(quark.to_str(2), None);
}

#[test]
fn to_id_after_inserts() {
    let mut quark = Quark::default();
    quark.find_or_insert("walk");
    quark.find_or_insert("shop");
    quark.find_or_insert("clean");
    assert_eq!(quark.to_id("walk"), Some(0));
    assert_eq!(quark.to_id("clean"), Some(2));
    assert_eq!(quark.to_id("swim"), None);
}
