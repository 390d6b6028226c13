use runeclan_scraper::source::{
    name_target, names_total, trim_line_end, uid_url, user_url, IdSource, ESTIMATED_TOTAL,
};

#[test]
fn url_of_an_id() {
    assert_eq!(uid_url(1), "https://www.runeclan.com/uid/1");
    assert_eq!(uid_url(819864), "https://www.runeclan.com/uid/819864");
    assert_eq!(uid_url(u64::MAX), "https://www.runeclan.com/uid/18446744073709551615");
}

#[test]
fn url_of_a_name_is_verbatim() {
    assert_eq!(user_url("bob"), "https://www.runeclan.com/user/bob");
    assert_eq!(user_url("a b/c"), "https://www.runeclan.com/user/a b/c");
}

#[test]
fn empty_lines_give_no_target() {
    assert_eq!(name_target(""), None);
    assert_eq!(name_target("zezima"), Some("https://www.runeclan.com/user/zezima".to_string()));
}

#[test]
fn total_of_a_name_list() {
    assert_eq!(names_total(0), 1);
    assert_eq!(names_total(41), 42);
}

#[test]
fn bounded_range_yields_each_id_once() {
    let mut source = IdSource::new(1, Some(5));
    let mut ids = Vec::new();
    while let Some(id) = source.next_id() {
        ids.push(id);
    }
    assert_eq!(ids, vec![1, 2, 3, 4, 5]);
    assert_eq!(source.next_id(), None);
    assert_eq!(IdSource::progress_total(1, Some(5)), 5);
}

#[test]
fn single_and_empty_ranges() {
    let mut one = IdSource::new(7, Some(7));
    assert_eq!(one.next_id(), Some(7));
    assert_eq!(one.next_id(), None);
    assert_eq!(IdSource::progress_total(7, Some(7)), 1);
    let mut none = IdSource::new(8, Some(7));
    assert_eq!(none.next_id(), None);
    assert_eq!(none.next_id(), None);
}

#[test]
fn unbounded_range_keeps_going() {
    let mut source = IdSource::new(10, None);
    for expected in 10..1000u64 {
        assert_eq!(source.next_id(), Some(expected));
    }
    assert_eq!(IdSource::progress_total(10, None), ESTIMATED_TOTAL);
    assert_eq!(ESTIMATED_TOTAL, 819864);
}

#[test]
fn range_ends_at_the_largest_id() {
    let mut source = IdSource::new(u64::MAX - 1, None);
    assert_eq!(source.next_id(), Some(u64::MAX - 1));
    assert_eq!(source.next_id(), Some(u64::MAX));
    assert_eq!(source.next_id(), None);
    let mut bounded = IdSource::new(u64::MAX, Some(u64::MAX));
    assert_eq!(bounded.next_id(), Some(u64::MAX));
    assert_eq!(bounded.next_id(), None);
}

#[test]
fn line_ends_are_cut_off_once() {
    assert_eq!(trim_line_end("bob\n"), "bob");
    assert_eq!(trim_line_end("bob\r\n"), "bob");
    assert_eq!(trim_line_end("bob"), "bob");
    assert_eq!(trim_line_end("bob\r"), "bob\r");
    assert_eq!(trim_line_end("bob\n\n"), "bob\n");
    assert_eq!(trim_line_end("\n"), "");
    assert_eq!(trim_line_end("\r\n"), "");
    assert_eq!(trim_line_end(""), "");
    assert_eq!(trim_line_end(" bob \n"), " bob ");
}

#[test]
fn targets_of_raw_lines() {
    assert_eq!(name_target("\n"), None);
    assert_eq!(name_target("\r\n"), None);
    assert_eq!(name_target("zezima\r\n"), Some("https://www.runeclan.com/user/zezima".to_string()));
    assert_eq!(name_target("a b\n"), Some("https://www.runeclan.com/user/a b".to_string()));
}
