//! Plain records that travel between the crawler's parts.

use std::time::Duration;
use vstd::prelude::*;

verus! {

/// What a successful fetch yields about a page besides its links.
pub struct PageData {
    pub title: Option<String>,
}

impl View for PageData {
    type V = Option<Seq<char>>;

    /// The title as a sequence of characters, if there is one.
    open spec fn view(&self) -> Option<Seq<char>> {
        match self.title {
            Some(title) => Some(title@),
            None => None,
        }
    }
}

impl PageData {
    /// An independent copy of the record.
    pub fn duplicate(&self) -> (copy: PageData)
        ensures
            copy@ == self@,
    {
        match &self.title {
            Some(title) => PageData { title: Some(title.clone()) },
            None => PageData { title: None },
        }
    }
}

/// A fetched page: its record and the candidate URLs found on it.
pub struct ParsedPage {
    pub data: PageData,
    pub links: Vec<String>,
}

/// How much the crawler reports while it runs.
#[derive(Clone, Copy)]
pub struct DispOptions {
    pub log_level: u8,
}

impl DispOptions {
    pub fn new(log_level: u8) -> (opts: DispOptions)
        ensures
            opts.log_level == log_level,
    {
        DispOptions { log_level }
    }

    /// A message is shown when the configured level reaches its own.
    pub fn shows(&self, msg_level: u8) -> (shown: bool)
        ensures
            shown == (self.log_level >= msg_level),
    {
        self.log_level >= msg_level
    }
}

/// What one worker reports when it stops.
pub struct WorkerData {
    pub outstanding: usize,
    pub req_time: Duration,
    pub tot_time: Duration,
}

impl WorkerData {
    pub fn new(outstanding: usize, req_time: Duration, tot_time: Duration) -> (data: WorkerData)
        ensures
            data.outstanding == outstanding,
            data.req_time == req_time,
            data.tot_time == tot_time,
    {
        WorkerData { outstanding, req_time, tot_time }
    }
}

/// The strings of `urls`, each as a sequence of characters.
pub open spec fn texts(urls: Seq<String>) -> Seq<Seq<char>> {
    urls.map_values(|url: String| url@)
}

} // verus!
