use channel_archive::message::{Author, Message};
use channel_archive::messages_iter::{
    reversed, MessagesRange, PageRequest, SmartMessagesIter, PAGE_SIZE,
};

fn message(id: u64) -> Message {
    Message {
        id,
        author: Author { id: 1, face_url: String::from("https://cdn.example.com/a/1.png") },
        timestamp: 1_000 + id as i64,
        content: String::new(),
        attachments: Vec::new(),
        reactions: Vec::new(),
        sticker_items: Vec::new(),
        mention_roles: Vec::new(),
    }
}

fn history(count: u64) -> Vec<Message> {
    (1..=count).map(|i| message(i * 10)).collect()
}

fn fetch_page(history: &[Message], request: &PageRequest) -> Vec<Message> {
    let mut page: Vec<Message> = history
        .iter()
        .filter(|m| request.before.map_or(true, |b| m.id < b))
        .filter(|m| request.after.map_or(true, |a| m.id > a))
        .cloned()
        .collect();
    page.reverse();
    page.truncate(request.limit);
    page
}

fn walk(history: &[Message], range: MessagesRange) -> (Vec<u64>, usize) {
    let mut source = SmartMessagesIter::new(range);
    let mut yielded = Vec::new();
    let mut fetches = 0;
    loop {
        if source.needs_fetch() {
            let request = source.request();
            assert_eq!(request.limit, PAGE_SIZE);
            source.refresh(fetch_page(history, &request));
            fetches += 1;
        }
        match source.next() {
            Some(message) => yielded.push(message.id),
            None => {
                if source.is_finished() {
                    break;
                }
            }
        }
    }
    (yielded, fetches)
}

fn newest_first(count: u64) -> Vec<u64> {
    (1..=count).rev().map(|i| i * 10).collect()
}

#[test]
fn unbounded_range_has_no_bounds() {
    let range = MessagesRange::unbounded();
    assert_eq!(range.before, None);
    assert_eq!(range.after, None);
    assert!(range.needs_snapshot());
}

#[test]
fn snapshot_pins_an_open_upper_bound() {
    let range = MessagesRange { before: None, after: Some(5) };
    let pinned = range.snapshot_for_channel(Some(99));
    assert_eq!(pinned.before, Some(99));
    assert_eq!(pinned.after, Some(5));
    assert!(!pinned.needs_snapshot());
}

#[test]
fn snapshot_keeps_a_set_upper_bound() {
    let range = MessagesRange { before: Some(40), after: None };
    let pinned = range.snapshot_for_channel(Some(99));
    assert_eq!(pinned.before, Some(40));
    assert_eq!(pinned.after, None);
}

#[test]
fn snapshot_of_an_empty_channel_stays_open() {
    let pinned = MessagesRange::unbounded().snapshot_for_channel(None);
    assert_eq!(pinned.before, None);
}

#[test]
fn reversed_turns_a_page_round() {
    let turned = reversed(vec![message(3), message(2), message(1)]);
    let ids: Vec<u64> = turned.iter().map(|m| m.id).collect();
    assert_eq!(ids, vec![1, 2, 3]);
    assert!(reversed(Vec::new()).is_empty());
}

#[test]
fn new_source_asks_for_the_first_page() {
    let source = SmartMessagesIter::new(MessagesRange { before: Some(77), after: Some(3) });
    assert!(source.needs_fetch());
    assert!(!source.is_finished());
    let request = source.request();
    assert_eq!(request.before, Some(77));
    assert_eq!(request.after, Some(3));
    assert_eq!(request.limit, 100);
}

#[test]
fn refresh_buffers_the_whole_page_and_moves_the_cursor() {
    let mut source = SmartMessagesIter::new(MessagesRange::unbounded());
    source.refresh(vec![message(30), message(20), message(10)]);
    assert_eq!(source.before, Some(10));
    assert!(source.tried_fetch);
    assert!(source.exhausted);
    assert!(!source.needs_fetch());
    assert_eq!(source.next().map(|m| m.id), Some(30));
    assert_eq!(source.next().map(|m| m.id), Some(20));
    assert_eq!(source.next().map(|m| m.id), Some(10));
    assert!(source.next().is_none());
    assert!(source.is_finished());
}

#[test]
fn empty_channel_takes_one_fetch() {
    let (yielded, fetches) = walk(&history(0), MessagesRange::unbounded());
    assert!(yielded.is_empty());
    assert_eq!(fetches, 1);
}

#[test]
fn one_message_takes_one_fetch() {
    let (yielded, fetches) = walk(&history(1), MessagesRange::unbounded());
    assert_eq!(yielded, vec![10]);
    assert_eq!(fetches, 1);
}

#[test]
fn partial_last_page_ends_the_walk() {
    let (yielded, fetches) = walk(&history(250), MessagesRange::unbounded());
    assert_eq!(yielded, newest_first(250));
    assert_eq!(fetches, 3);
}

#[test]
fn one_hundred_and_fifty_messages_take_two_fetches() {
    let (yielded, fetches) = walk(&history(150), MessagesRange::unbounded());
    assert_eq!(yielded.len(), 150);
    assert_eq!(yielded, newest_first(150));
    assert_eq!(fetches, 2);
}

#[test]
fn full_last_page_is_followed_by_an_empty_one() {
    let (yielded, fetches) = walk(&history(200), MessagesRange::unbounded());
    assert_eq!(yielded, newest_first(200));
    assert_eq!(fetches, 3);
}

#[test]
fn walk_yields_strictly_falling_identifiers() {
    let (yielded, _) = walk(&history(321), MessagesRange::unbounded());
    assert_eq!(yielded.len(), 321);
    for pair in yielded.windows(2) {
        assert!(pair[0] > pair[1]);
    }
}

#[test]
fn walk_respects_both_bounds() {
    let range = MessagesRange { before: Some(2000), after: Some(500) };
    let (yielded, fetches) = walk(&history(300), range);
    let expected: Vec<u64> = (51..200).rev().map(|i| i * 10).collect();
    assert_eq!(yielded, expected);
    assert_eq!(fetches, 2);
}

#[test]
fn failed_fetch_ends_the_walk_and_keeps_the_buffer() {
    let mut source = SmartMessagesIter::new(MessagesRange::unbounded());
    let page: Vec<Message> = (1..=100).rev().map(|i| message(i)).collect();
    source.refresh(page);
    assert!(!source.exhausted);
    assert_eq!(source.next().map(|m| m.id), Some(100));
    source.fail();
    assert!(source.exhausted);
    assert!(!source.needs_fetch());
    assert_eq!(source.next().map(|m| m.id), Some(99));
}

#[test]
fn failed_first_fetch_leaves_nothing_to_yield() {
    let mut source = SmartMessagesIter::new(MessagesRange::unbounded());
    source.fail();
    assert!(!source.needs_fetch());
    assert!(source.next().is_none());
    assert!(source.is_finished());
}

#[test]
fn stream_collects_the_whole_walk() {
    let messages = history(250);
    let fetch = |request: PageRequest| -> Result<Vec<Message>, String> {
        Ok(fetch_page(&messages, &request))
    };
    let walked = SmartMessagesIter::stream(&fetch, MessagesRange::unbounded(), 10);
    let ids: Vec<u64> = walked.messages.iter().map(|m| m.id).collect();
    assert_eq!(ids, newest_first(250));
    assert_eq!(walked.fetches, 3);
    assert!(walked.complete);
    assert!(walked.failure.is_none());
}

#[test]
fn stream_of_an_empty_channel() {
    let fetch = |_request: PageRequest| -> Result<Vec<Message>, String> { Ok(Vec::new()) };
    let walked = SmartMessagesIter::stream(&fetch, MessagesRange::unbounded(), 1);
    assert!(walked.messages.is_empty());
    assert_eq!(walked.fetches, 1);
    assert!(walked.complete);
}

#[test]
fn stream_stops_at_the_fetch_limit() {
    let messages = history(250);
    let fetch = |request: PageRequest| -> Result<Vec<Message>, String> {
        Ok(fetch_page(&messages, &request))
    };
    let walked = SmartMessagesIter::stream(&fetch, MessagesRange::unbounded(), 2);
    assert_eq!(walked.messages.len(), 200);
    assert_eq!(walked.fetches, 2);
    assert!(!walked.complete);
    assert!(walked.failure.is_none());
    let none = SmartMessagesIter::stream(&fetch, MessagesRange::unbounded(), 0);
    assert!(none.messages.is_empty());
    assert!(!none.complete);
}

#[test]
fn stream_surfaces_a_failed_fetch() {
    let messages = history(250);
    let fetch = |request: PageRequest| -> Result<Vec<Message>, String> {
        if request.before.is_some() {
            Err(String::from("rate limited"))
        } else {
            Ok(fetch_page(&messages, &request))
        }
    };
    let walked = SmartMessagesIter::stream(&fetch, MessagesRange::unbounded(), 10);
    assert_eq!(walked.messages.len(), 100);
    assert_eq!(walked.fetches, 1);
    assert!(!walked.complete);
    assert_eq!(walked.failure, Some(String::from("rate limited")));
}
