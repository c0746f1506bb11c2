use std::time::Duration;
use web_crawler::crawler_datatypes::{DispOptions, PageData, ParsedPage, WorkerData};
use web_crawler::link_list::LinkList;
use web_crawler::site_map::SiteMap;
use web_crawler::worker::{Action, Event, Worker, WorkerState};

fn urls(names: &[&str]) -> Vec<String> {
    names.iter().map(|name| name.to_string()).collect()
}

fn page(title: &str, links: &[&str]) -> ParsedPage {
    ParsedPage { data: PageData { title: Some(title.to_string()) }, links: urls(links) }
}

/// A site on which every page links to three pages of its own.
fn resolve(url: &str) -> ParsedPage {
    let links = (1..=3).map(|n| format!("{}{}", url, n)).collect();
    ParsedPage { data: PageData { title: Some(url.to_string()) }, links }
}

fn resolved(action: Action) -> String {
    match action {
        Action::Resolve(url) => url,
        _ => panic!("a candidate was expected"),
    }
}

#[test]
fn a_new_worker_waits_while_both_frontiers_are_empty() {
    let mut site_map = SiteMap::new(5);
    let mut pub_links = LinkList::new(Vec::new(), 4);
    let mut worker = Worker::new();
    assert_eq!(worker.phase(), WorkerState::Fetching);
    let decision = worker.step(&mut site_map, &mut pub_links, Event::Ready);
    assert!(matches!(decision.action, Action::Wait));
    assert!(!decision.wake);
    assert!(!decision.recorded);
    assert_eq!(worker.phase(), WorkerState::Fetching);
}

#[test]
fn a_candidate_comes_from_the_global_frontier_when_the_local_one_is_empty() {
    let mut site_map = SiteMap::new(5);
    let mut pub_links = LinkList::new(urls(&["a.com/", "b.com/"]), 4);
    let mut worker = Worker::new();
    let decision = worker.step(&mut site_map, &mut pub_links, Event::Ready);
    assert!(decision.wake);
    assert_eq!(resolved(decision.action), "a.com/".to_string());
    assert_eq!(worker.phase(), WorkerState::Classifying);
    assert_eq!(pub_links.should_add(), 3);
}

#[test]
fn taking_the_last_candidate_wakes_nobody() {
    let mut site_map = SiteMap::new(5);
    let mut pub_links = LinkList::new(urls(&["a.com/"]), 4);
    let mut worker = Worker::new();
    let decision = worker.step(&mut site_map, &mut pub_links, Event::Ready);
    assert!(!decision.wake);
    assert_eq!(resolved(decision.action), "a.com/".to_string());
}

#[test]
fn a_known_candidate_is_dropped_without_a_fetch() {
    let mut site_map = SiteMap::new(5);
    site_map.insert_previously("a.com/".to_string());
    site_map.insert_bad("b.com/".to_string());
    site_map.insert("c.com/".to_string(), PageData { title: None });
    let mut pub_links = LinkList::new(urls(&["a.com/", "b.com/", "c.com/", "d.com/"]), 4);
    let mut worker = Worker::new();
    for _ in 0..3 {
        let decision = worker.step(&mut site_map, &mut pub_links, Event::Ready);
        assert!(matches!(decision.action, Action::Continue));
        assert_eq!(worker.phase(), WorkerState::Fetching);
    }
    let decision = worker.step(&mut site_map, &mut pub_links, Event::Ready);
    assert_eq!(resolved(decision.action), "d.com/".to_string());
}

#[test]
fn links_are_split_between_the_frontiers() {
    let mut site_map = SiteMap::new(5);
    let mut pub_links = LinkList::new(urls(&["x.com/", "y.com/"]), 4);
    let mut worker = Worker::new();
    let found = page("A", &["a.com/1", "b.com/2", "c.com/3", "d.com/4"]);
    let decision = worker.step(
        &mut site_map,
        &mut pub_links,
        Event::Resolved("a.com/".to_string(), found),
    );
    // room for 4 - 2 = 2, and 4 - 1 = 3 links on offer: 2 go out, 2 stay
    assert!(matches!(decision.action, Action::Continue));
    assert!(decision.wake);
    assert!(decision.recorded);
    assert_eq!(worker.phase(), WorkerState::Fetching);
    assert_eq!(worker.outstanding(), 2);
    assert_eq!(pub_links.should_add(), 0);
    assert_eq!(site_map.len(), 1);
    let mut queued = Vec::new();
    while let Some(taken) = pub_links.next() {
        queued.push(taken.url);
    }
    assert_eq!(queued, urls(&["x.com/", "y.com/", "a.com/1", "b.com/2"]));
    // the local frontier serves what stayed, first come first
    let decision = worker.step(&mut site_map, &mut pub_links, Event::Ready);
    assert_eq!(resolved(decision.action), "c.com/3".to_string());
    assert_eq!(worker.outstanding(), 1);
}

#[test]
fn one_link_is_always_kept() {
    let mut site_map = SiteMap::new(5);
    let mut pub_links = LinkList::new(Vec::new(), 200);
    let mut worker = Worker::new();
    let decision = worker.step(
        &mut site_map,
        &mut pub_links,
        Event::Resolved("a.com/".to_string(), page("A", &["a.com/1", "a.com/2", "a.com/3"])),
    );
    assert!(decision.wake);
    assert_eq!(worker.outstanding(), 1);
    assert_eq!(pub_links.should_add(), 198);
}

#[test]
fn a_single_link_stays_local() {
    let mut site_map = SiteMap::new(5);
    let mut pub_links = LinkList::new(Vec::new(), 4);
    let mut worker = Worker::new();
    let decision = worker.step(
        &mut site_map,
        &mut pub_links,
        Event::Resolved("a.com/".to_string(), page("A", &["a.com/1"])),
    );
    assert!(!decision.wake);
    assert_eq!(worker.outstanding(), 1);
    assert_eq!(pub_links.should_add(), 4);
}

#[test]
fn a_full_global_frontier_takes_nothing() {
    let mut site_map = SiteMap::new(5);
    let mut pub_links = LinkList::new(urls(&["1", "2", "3", "4", "5"]), 4);
    let mut worker = Worker::new();
    let decision = worker.step(
        &mut site_map,
        &mut pub_links,
        Event::Resolved("a.com/".to_string(), page("A", &["a.com/1", "a.com/2"])),
    );
    assert!(!decision.wake);
    assert_eq!(worker.outstanding(), 2);
    assert_eq!(pub_links.should_add(), 0);
}

#[test]
fn a_page_without_links_hands_nothing_on() {
    let mut site_map = SiteMap::new(5);
    let mut pub_links = LinkList::new(Vec::new(), 4);
    let mut worker = Worker::new();
    let decision = worker.step(
        &mut site_map,
        &mut pub_links,
        Event::Resolved("a.com/".to_string(), page("A", &[])),
    );
    assert!(matches!(decision.action, Action::Continue));
    assert!(!decision.wake);
    assert!(decision.recorded);
    assert_eq!(worker.outstanding(), 0);
    assert_eq!(pub_links.should_add(), 4);
}

#[test]
fn a_page_recorded_before_is_not_progress() {
    let mut site_map = SiteMap::new(5);
    site_map.insert("a.com/".to_string(), PageData { title: None });
    let mut pub_links = LinkList::new(Vec::new(), 4);
    let mut worker = Worker::new();
    let decision = worker.step(
        &mut site_map,
        &mut pub_links,
        Event::Resolved("a.com/".to_string(), page("A", &["a.com/1", "a.com/2"])),
    );
    assert!(matches!(decision.action, Action::Continue));
    assert!(!decision.recorded);
    assert_eq!(site_map.len(), 1);
    assert_eq!(worker.outstanding(), 1);
}

#[test]
fn the_page_that_fills_the_registry_stops_the_worker() {
    let mut site_map = SiteMap::new(1);
    let mut pub_links = LinkList::new(Vec::new(), 4);
    let mut worker = Worker::new();
    let decision = worker.step(
        &mut site_map,
        &mut pub_links,
        Event::Resolved("a.com/".to_string(), page("A", &["a.com/1", "a.com/2"])),
    );
    assert!(matches!(decision.action, Action::Stop));
    assert!(decision.recorded);
    assert!(!decision.wake);
    assert_eq!(worker.phase(), WorkerState::Completed);
    assert_eq!(worker.outstanding(), 0);
    assert_eq!(pub_links.should_add(), 4);
    // and it stays stopped, whatever it is told
    let decision = worker.step(&mut site_map, &mut pub_links, Event::Ready);
    assert!(matches!(decision.action, Action::Stop));
    let decision =
        worker.step(&mut site_map, &mut pub_links, Event::Failed("b.com/".to_string()));
    assert!(matches!(decision.action, Action::Stop));
    assert!(!site_map.contains_key(&"b.com/".to_string()));
    assert_eq!(worker.phase(), WorkerState::Completed);
}

#[test]
fn a_full_registry_stops_a_worker_at_its_next_page() {
    let mut site_map = SiteMap::new(1);
    site_map.insert("a.com/".to_string(), PageData { title: None });
    let mut pub_links = LinkList::new(urls(&["b.com/"]), 4);
    let mut worker = Worker::new();
    let decision = worker.step(&mut site_map, &mut pub_links, Event::Ready);
    let url = resolved(decision.action);
    let decision =
        worker.step(&mut site_map, &mut pub_links, Event::Resolved(url, page("B", &["b.com/1"])));
    assert!(matches!(decision.action, Action::Stop));
    assert!(!decision.recorded);
    assert_eq!(site_map.len(), 1);
    assert!(!site_map.contains_key(&"b.com/".to_string()));
}

#[test]
fn a_failed_fetch_is_marked_and_the_worker_goes_on() {
    let mut site_map = SiteMap::new(5);
    let mut pub_links = LinkList::new(urls(&["a.com/"]), 4);
    let mut worker = Worker::new();
    let decision = worker.step(&mut site_map, &mut pub_links, Event::Ready);
    let url = resolved(decision.action);
    let decision = worker.step(&mut site_map, &mut pub_links, Event::Failed(url));
    assert!(matches!(decision.action, Action::Continue));
    assert!(!decision.wake);
    assert!(!decision.recorded);
    assert_eq!(worker.phase(), WorkerState::Fetching);
    assert!(site_map.contains_key(&"a.com/".to_string()));
    assert_eq!(site_map.len(), 0);
}

#[test]
fn four_workers_record_five_pages_and_stop() {
    let mut site_map = SiteMap::new(5);
    let mut pub_links = LinkList::new(urls(&["a.com/", "b.com/"]), 4);
    let mut workers: Vec<Worker> = (0..4).map(|_| Worker::new()).collect();
    let mut events: Vec<Option<Event>> = (0..4).map(|_| Some(Event::Ready)).collect();
    let mut fetches_after_completion = vec![0usize; 4];
    let mut progress = 0;
    let mut rounds = 0;
    while events.iter().any(|event| event.is_some()) {
        rounds += 1;
        assert!(rounds < 1000);
        for id in 0..4 {
            let event = match events[id].take() {
                Some(event) => event,
                None => continue,
            };
            let decision = workers[id].step(&mut site_map, &mut pub_links, event);
            if decision.recorded {
                progress += 1;
            }
            events[id] = match decision.action {
                Action::Resolve(url) => {
                    if site_map.len() == 5 {
                        fetches_after_completion[id] += 1;
                    }
                    let parsed = resolve(&url);
                    Some(Event::Resolved(url, parsed))
                },
                Action::Continue | Action::Wait => Some(Event::Ready),
                Action::Stop => None,
            };
        }
    }
    assert_eq!(site_map.len(), 5);
    assert_eq!(progress, 5);
    let pages = site_map.get_map();
    assert_eq!(pages.len(), 5);
    for (at, (url, _)) in pages.iter().enumerate() {
        assert!(pages[at + 1..].iter().all(|(other, _)| other != url));
    }
    for id in 0..4 {
        assert_eq!(workers[id].phase(), WorkerState::Completed);
        assert!(fetches_after_completion[id] <= 1);
    }
}

#[test]
fn worker_data_keeps_what_it_is_given() {
    let data = WorkerData::new(3, Duration::from_millis(20), Duration::from_secs(1));
    assert_eq!(data.outstanding, 3);
    assert_eq!(data.req_time, Duration::from_millis(20));
    assert_eq!(data.tot_time, Duration::from_secs(1));
}

#[test]
fn a_message_shows_up_to_the_configured_level() {
    let opts = DispOptions::new(2);
    assert_eq!(opts.log_level, 2);
    assert!(opts.shows(0));
    assert!(opts.shows(2));
    assert!(!opts.shows(3));
    assert!(!DispOptions::new(0).shows(1));
}
