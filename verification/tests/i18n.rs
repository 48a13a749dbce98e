use backuptool::i18n::{CatValue, Catalog, I18n};

fn catalog(entries: &[(&str, CatValue)]) -> Catalog {
    let mut c = Catalog::new();
    for (k, v) in entries {
        let v = match v {
            CatValue::Text(t) => CatValue::Text(t.clone()),
            CatValue::Flag(b) => CatValue::Flag(*b),
            CatValue::Other => CatValue::Other,
        };
        c.insert(k.to_string(), v);
    }
    c
}

fn sample() -> I18n {
    let mut i = I18n::new();
    i.insert("fa".into(), catalog(&[
        ("language_name", CatValue::Text("فارسی".into())),
        ("rtl", CatValue::Flag(true)),
        ("hello", CatValue::Text("سلام".into())),
        ("count", CatValue::Other),
    ]));
    i.insert("en".into(), catalog(&[
        ("language_name", CatValue::Text("English".into())),
        ("hello", CatValue::Text("Hello".into())),
        ("bye", CatValue::Text("Bye".into())),
        ("count", CatValue::Text("Count".into())),
    ]));
    i.insert("de".into(), catalog(&[("language_name", CatValue::Text("Deutsch".into())), ("rtl", CatValue::Flag(false))]));
    i
}

#[test]
fn codes_are_sorted() {
    assert_eq!(sample().codes(), vec!["de".to_string(), "en".to_string(), "fa".to_string()]);
}

#[test]
fn tr_falls_back_to_english_then_key() {
    let i = sample();
    assert_eq!(i.tr("fa", "hello"), "سلام");
    assert_eq!(i.tr("de", "hello"), "Hello");
    assert_eq!(i.tr("fa", "count"), "Count");
    assert_eq!(i.tr("xx", "bye"), "Bye");
    assert_eq!(i.tr("de", "missing"), "missing");
    assert_eq!(i.name_of("de"), "Deutsch");
    assert_eq!(i.name_of("zz"), "English");
}

#[test]
fn rtl_flag() {
    let i = sample();
    assert!(i.is_rtl("fa"));
    assert!(!i.is_rtl("de"));
    assert!(!i.is_rtl("en"));
    assert!(!i.is_rtl("xx"));
}

#[test]
fn later_catalog_replaces_earlier() {
    let mut i = sample();
    i.insert("de".into(), catalog(&[("hello", CatValue::Text("Hallo".into()))]));
    assert_eq!(i.tr("de", "hello"), "Hallo");
    assert_eq!(i.name_of("de"), "English");
    assert_eq!(i.codes().len(), 3);
}
