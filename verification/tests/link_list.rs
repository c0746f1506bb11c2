use web_crawler::link_list::{LinkList, Offered};

fn urls(names: &[&str]) -> Vec<String> {
    names.iter().map(|name| name.to_string()).collect()
}

#[test]
fn offering_beyond_capacity_is_reported_and_kept() {
    let mut list = LinkList::new(Vec::new(), 3);
    let offered = list.add(urls(&["a.com", "b.com", "c.com", "d.com"]));
    assert_eq!(offered, Offered { wake: true, over_capacity: true });
    assert_eq!(list.should_add(), 0);
    let first = list.next().unwrap();
    assert_eq!(first.url, "a.com".to_string());
    assert!(first.wake_next);
    assert_eq!(list.next().unwrap().url, "b.com".to_string());
    assert_eq!(list.next().unwrap().url, "c.com".to_string());
    let last = list.next().unwrap();
    assert_eq!(last.url, "d.com".to_string());
    assert!(!last.wake_next);
    assert!(list.next().is_none());
}

#[test]
fn an_empty_offer_changes_nothing_and_wakes_nobody() {
    let mut list = LinkList::new(urls(&["a.com"]), 1);
    assert_eq!(list.add(Vec::new()), Offered { wake: false, over_capacity: false });
    assert_eq!(list.should_add(), 0);
    assert_eq!(list.next().unwrap().url, "a.com".to_string());
    assert!(list.next().is_none());
}

#[test]
fn an_offer_up_to_capacity_is_no_violation() {
    let mut list = LinkList::new(urls(&["a.com"]), 3);
    assert_eq!(list.should_add(), 2);
    assert_eq!(list.add(urls(&["b.com", "c.com"])), Offered { wake: true, over_capacity: false });
    assert_eq!(list.should_add(), 0);
    assert_eq!(list.add(urls(&["d.com"])), Offered { wake: true, over_capacity: true });
    assert_eq!(list.should_add(), 0);
}

#[test]
fn the_starting_points_come_out_in_their_order() {
    let mut list = LinkList::new(urls(&["1", "2", "3"]), 2);
    assert_eq!(list.should_add(), 0);
    assert_eq!(list.next().unwrap().url, "1".to_string());
    assert_eq!(list.should_add(), 0);
    assert_eq!(list.next().unwrap().url, "2".to_string());
    assert_eq!(list.should_add(), 1);
    list.add(urls(&["4"]));
    assert_eq!(list.next().unwrap().url, "3".to_string());
    assert_eq!(list.next().unwrap().url, "4".to_string());
    assert_eq!(list.should_add(), 2);
}

#[test]
fn taking_from_an_empty_frontier_asks_to_wait() {
    let mut list = LinkList::new(Vec::new(), 0);
    assert!(list.next().is_none());
    assert_eq!(list.should_add(), 0);
    assert_eq!(list.add(urls(&["a"])), Offered { wake: true, over_capacity: true });
}

#[test]
fn a_long_queue_has_no_room() {
    let mut list = LinkList::new(Vec::new(), 255);
    let many: Vec<String> = (0..300).map(|n| n.to_string()).collect();
    assert_eq!(list.add(many), Offered { wake: true, over_capacity: true });
    assert_eq!(list.should_add(), 0);
}
