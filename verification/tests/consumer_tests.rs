use runeclan_scraper::consumer::{Action, Consumer, Phase, MISS_LIMIT};
use runeclan_scraper::extract::extract;
use runeclan_scraper::record::{FetchError, PipelineResult, UserInfo};
use runeclan_scraper::scheduler::Scheduler;
use runeclan_scraper::source::{uid_url, IdSource};

fn named(name: &str) -> PipelineResult {
    PipelineResult::Success(UserInfo {
        name: Some(name.to_string()),
        xp: Some(1),
        date: Some("d".to_string()),
        previous_names: None,
    })
}

fn nameless() -> PipelineResult {
    PipelineResult::Success(UserInfo {
        name: None,
        xp: Some(5),
        date: Some("d".to_string()),
        previous_names: Some(vec!["x".to_string()]),
    })
}

fn failure() -> PipelineResult {
    PipelineResult::Failure(FetchError::Transport)
}

#[test]
fn new_consumer_is_running_and_empty() {
    let c = Consumer::new();
    assert_eq!(c.phase(), Phase::Running);
    assert_eq!(c.count(), 0);
    assert_eq!(c.total_millis(), 0);
    assert_eq!(c.misses(), 0);
    assert_eq!(c.average_millis(), 0);
    assert_eq!(MISS_LIMIT, 10);
}

#[test]
fn breaker_trips_on_the_eleventh_miss() {
    let mut c = Consumer::new();
    for i in 1..=10u64 {
        assert_eq!(c.step(&nameless(), 1), Action::Skip);
        assert_eq!(c.phase(), Phase::Running);
        assert_eq!(c.misses(), i);
    }
    assert_eq!(c.step(&nameless(), 1), Action::Abort);
    assert_eq!(c.phase(), Phase::Aborted);
    assert_eq!(c.misses(), 11);
    assert_eq!(c.count(), 11);
}

#[test]
fn breaker_resets_on_a_named_record() {
    let mut c = Consumer::new();
    for _ in 0..10 {
        assert_eq!(c.step(&nameless(), 0), Action::Skip);
    }
    assert_eq!(c.misses(), 10);
    assert_eq!(c.step(&named("Zed"), 0), Action::Emit("Zed - d - 1 - []".to_string()));
    assert_eq!(c.phase(), Phase::Running);
    assert_eq!(c.misses(), 0);
    for _ in 0..10 {
        assert_eq!(c.step(&nameless(), 0), Action::Skip);
    }
    assert_eq!(c.phase(), Phase::Running);
}

#[test]
fn failures_neither_count_nor_reset() {
    let mut c = Consumer::new();
    for i in 1..=10u64 {
        assert_eq!(c.step(&failure(), 2), Action::Skip);
        assert_eq!(c.misses(), i - 1);
        assert_eq!(c.step(&nameless(), 2), Action::Skip);
        assert_eq!(c.misses(), i);
        assert_eq!(c.phase(), Phase::Running);
    }
    for _ in 0..25 {
        assert_eq!(c.step(&failure(), 2), Action::Skip);
        assert_eq!(c.step(&PipelineResult::Failure(FetchError::MalformedXp), 2), Action::Skip);
    }
    assert_eq!(c.misses(), 10);
    assert_eq!(c.phase(), Phase::Running);
    assert_eq!(c.step(&nameless(), 2), Action::Abort);
    assert_eq!(c.phase(), Phase::Aborted);
    assert_eq!(c.count(), 71);
}

#[test]
fn nothing_is_taken_after_the_end() {
    let mut c = Consumer::new();
    for _ in 0..11 {
        c.step(&nameless(), 3);
    }
    let aborted = c;
    assert_eq!(c.step(&named("late"), 3), Action::Skip);
    assert_eq!(c, aborted);
    c.finish();
    assert_eq!(c.phase(), Phase::Aborted);

    let mut d = Consumer::new();
    d.step(&named("a"), 4);
    d.finish();
    assert_eq!(d.phase(), Phase::Completed);
    let completed = d;
    assert_eq!(d.step(&nameless(), 4), Action::Skip);
    assert_eq!(d, completed);
}

#[test]
fn statistics_and_messages() {
    let mut c = Consumer::new();
    assert_eq!(c.status_message(), "Average Time Per User: 0");
    assert_eq!(c.summary(), "Total MS: 0 Count: 0 Average MS: 0");
    c.step(&named("a"), 10);
    c.step(&failure(), 25);
    c.step(&nameless(), 0);
    assert_eq!(c.count(), 3);
    assert_eq!(c.total_millis(), 35);
    assert_eq!(c.average_millis(), 11);
    assert_eq!(c.status_message(), "Average Time Per User: 11");
    c.finish();
    assert_eq!(c.summary(), "Total MS: 35 Count: 3 Average MS: 11");
}

#[test]
fn total_holds_the_longest_gaps() {
    let mut c = Consumer::new();
    c.step(&failure(), u64::MAX);
    c.step(&failure(), u64::MAX);
    assert_eq!(c.total_millis(), 2 * (u64::MAX as u128));
    assert_eq!(c.average_millis(), u64::MAX as u128);
}

fn page_for(id: u64) -> String {
    let name = if id == 3 {
        String::new()
    } else {
        format!("<span class=\"xp_tracker_hname\">user{}</span>", id)
    };
    format!(
        "<html><body>{}<div class=\"xp_tracker_activity_r\">day {}</div>\
<table><tr><td class=\"xp_tracker_cxp\">{},000</td></tr></table>\
<div class=\"xp_tracker_prevnames\">Previous Names: old{}</div></body></html>",
        name, id, id, id
    )
}

#[test]
fn crawl_of_five_ids_with_one_miss() {
    let mut source = IdSource::new(1, Some(5));
    let mut scheduler: Scheduler<PipelineResult> = Scheduler::new(2);
    let mut consumer = Consumer::new();
    let mut waiting: Vec<(u64, String)> = Vec::new();
    let mut lines: Vec<String> = Vec::new();
    let mut misses_seen: Vec<u64> = Vec::new();
    let mut exhausted = false;
    loop {
        while !exhausted && scheduler.can_submit() {
            match source.next_id() {
                Some(id) => {
                    let ticket = scheduler.submit().unwrap();
                    assert_eq!(uid_url(id), format!("https://www.runeclan.com/uid/{}", id));
                    waiting.push((ticket, page_for(id)));
                }
                None => exhausted = true,
            }
        }
        if let Some((ticket, page)) = waiting.pop() {
            assert!(scheduler.complete(ticket, extract(&page)));
        }
        while let Some((_, result)) = scheduler.deliver() {
            match consumer.step(&result, 2) {
                Action::Emit(line) => lines.push(line),
                Action::Skip => (),
                Action::Abort => panic!("the crawl was aborted"),
            }
            misses_seen.push(consumer.misses());
        }
        if exhausted && scheduler.is_drained() {
            break;
        }
    }
    consumer.finish();
    assert_eq!(
        lines,
        vec![
            "user1 - day 1 - 1000 - [\"old1\"]".to_string(),
            "user2 - day 2 - 2000 - [\"old2\"]".to_string(),
            "user4 - day 4 - 4000 - [\"old4\"]".to_string(),
            "user5 - day 5 - 5000 - [\"old5\"]".to_string(),
        ]
    );
    assert_eq!(misses_seen, vec![0, 0, 1, 0, 0]);
    assert_eq!(consumer.phase(), Phase::Completed);
    assert_eq!(consumer.count(), 5);
    assert_eq!(consumer.summary(), "Total MS: 10 Count: 5 Average MS: 2");
}
