use web_crawler::crawler_datatypes::PageData;
use web_crawler::site_map::SiteMap;

fn page(title: &str) -> PageData {
    PageData { title: Some(title.to_string()) }
}

#[test]
fn inserting_twice_counts_once() {
    let mut site_map = SiteMap::new(3);
    assert!(!site_map.insert("a.com".to_string(), page("A")));
    assert_eq!(site_map.len(), 1);
    assert!(!site_map.insert("a.com".to_string(), page("other")));
    assert_eq!(site_map.len(), 1);
    let pages = site_map.get_map();
    assert_eq!(pages.len(), 1);
    assert_eq!(pages[0].0, "a.com".to_string());
    assert_eq!(pages[0].1.title, Some("A".to_string()));
}

#[test]
fn the_second_answer_tells_whether_the_registry_is_full() {
    let mut site_map = SiteMap::new(1);
    assert!(site_map.insert("a.com".to_string(), page("A")));
    assert!(site_map.insert("a.com".to_string(), page("A")));
    assert_eq!(site_map.len(), 1);
}

#[test]
fn completion_is_signalled_at_capacity_and_ever_after() {
    let mut site_map = SiteMap::new(2);
    assert!(!site_map.insert("a.com".to_string(), page("A")));
    assert!(site_map.insert("b.com".to_string(), page("B")));
    assert!(site_map.insert("c.com".to_string(), page("C")));
    assert!(site_map.insert("a.com".to_string(), page("A")));
    site_map.insert_bad("d.com".to_string());
    site_map.insert_previously("e.com".to_string());
    assert!(site_map.insert("f.com".to_string(), page("F")));
    assert_eq!(site_map.len(), 2);
    assert!(site_map.contains_key(&"a.com".to_string()));
    assert!(site_map.contains_key(&"b.com".to_string()));
}

#[test]
fn a_full_registry_turns_new_urls_away() {
    let mut site_map = SiteMap::new(1);
    assert!(site_map.insert("a.com".to_string(), page("A")));
    assert!(site_map.insert("b.com".to_string(), page("B")));
    assert!(!site_map.contains_key(&"b.com".to_string()));
    assert_eq!(site_map.len(), 1);
}

#[test]
fn capacity_zero_is_complete_from_the_start() {
    let mut site_map = SiteMap::new(0);
    assert!(site_map.insert("a.com".to_string(), page("A")));
    assert_eq!(site_map.len(), 0);
    assert!(!site_map.contains_key(&"a.com".to_string()));
    assert!(site_map.get_map().is_empty());
}

#[test]
fn every_marked_url_is_known() {
    let mut site_map = SiteMap::new(5);
    assert!(!site_map.contains_key(&"a.com".to_string()));
    site_map.insert("a.com".to_string(), page("A"));
    assert!(site_map.contains_key(&"a.com".to_string()));
    site_map.insert_bad("bad.com".to_string());
    assert!(site_map.contains_key(&"bad.com".to_string()));
    site_map.insert_previously("old.com".to_string());
    assert!(site_map.contains_key(&"old.com".to_string()));
    site_map.insert("b.com".to_string(), PageData { title: None });
    assert!(site_map.contains_key(&"a.com".to_string()));
    assert!(site_map.contains_key(&"bad.com".to_string()));
    assert!(site_map.contains_key(&"old.com".to_string()));
    assert!(site_map.contains_key(&"b.com".to_string()));
    assert!(!site_map.contains_key(&"c.com".to_string()));
}

#[test]
fn failed_and_preloaded_urls_do_not_count() {
    let mut site_map = SiteMap::new(1);
    site_map.insert_bad("bad.com".to_string());
    site_map.insert_previously("old.com".to_string());
    assert_eq!(site_map.len(), 0);
    assert!(site_map.get_map().is_empty());
    assert!(site_map.insert("bad.com".to_string(), page("after all")));
    assert_eq!(site_map.len(), 1);
}

#[test]
fn get_map_lists_the_pages_in_the_order_recorded() {
    let mut site_map = SiteMap::new(10);
    site_map.insert("c.com".to_string(), page("C"));
    site_map.insert("a.com".to_string(), PageData { title: None });
    site_map.insert("b.com".to_string(), page("B"));
    site_map.insert("a.com".to_string(), page("again"));
    let pages = site_map.get_map();
    let listed: Vec<(String, Option<String>)> =
        pages.into_iter().map(|(url, data)| (url, data.title)).collect();
    assert_eq!(
        listed,
        vec![
            ("c.com".to_string(), Some("C".to_string())),
            ("a.com".to_string(), None),
            ("b.com".to_string(), Some("B".to_string())),
        ]
    );
    assert_eq!(site_map.len(), 3);
}

#[test]
fn duplicate_copies_the_record() {
    let data = page("T");
    assert_eq!(data.duplicate().title, Some("T".to_string()));
    assert_eq!(PageData { title: None }.duplicate().title, None);
}
