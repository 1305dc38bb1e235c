use usaidwat::client::{Redditor, TimelineIterator};
use usaidwat::clock::HasAge;
use usaidwat::thing::{About, Comment, Submission, User};

fn comment(created_utc: i64) -> Comment {
    Comment {
        id: String::new(),
        name: String::new(),
        subreddit_id: String::new(),
        subreddit: String::from("rpg"),
        link_title: String::new(),
        link_id: String::new(),
        permalink: String::new(),
        created_utc,
        body: String::new(),
        ups: 0,
        downs: 0,
        score: 0,
    }
}

fn about() -> About {
    About {
        name: String::from("mipadi"),
        id: String::from("30eb1"),
        created_utc: 1_206_975_326,
        link_karma: 11729,
        comment_karma: 121995,
    }
}

fn redditor(comments: Vec<Comment>, posts: Vec<Submission>) -> Redditor {
    let user = User::parse(Some(about()), Some(comments), Some(posts)).expect("all parts are there");
    Redditor::new(String::from("mipadi"), user)
}

#[test]
fn client_it_returns_its_username() {
    assert_eq!(redditor(vec![], vec![]).username(), "mipadi");
}

#[test]
fn client_it_returns_its_creation_date() {
    assert_eq!(redditor(vec![], vec![]).created_at(), 1_206_975_326);
}

#[test]
fn client_it_returns_its_age() {
    let now = 1_206_975_326 + 541_016_254;
    assert_eq!(redditor(vec![], vec![]).age(now), 541_016_254);
}

#[test]
fn client_it_returns_its_link_karma() {
    assert_eq!(redditor(vec![], vec![]).link_karma(), 11729);
}

#[test]
fn client_it_returns_its_comment_karma() {
    assert_eq!(redditor(vec![], vec![]).comment_karma(), 121995);
}

#[test]
fn client_it_returns_its_comments() {
    let user = redditor(vec![comment(1), comment(2), comment(3)], vec![]);
    assert_eq!(user.comments().len(), 3);
    assert!(user.has_comments());
    assert!(!user.has_submissions());
}

#[test]
fn a_user_with_nothing_has_nothing() {
    let user = redditor(vec![], vec![]);
    assert_eq!(user.comments().len(), 0);
    assert_eq!(user.submissions().len(), 0);
    assert!(!user.has_comments());
    assert!(!user.has_submissions());
}

#[test]
fn client_it_is_none() {
    assert!(User::parse(None, Some(vec![]), Some(vec![])).is_none());
    assert!(User::parse(Some(about()), None, Some(vec![])).is_none());
    assert!(User::parse(Some(about()), Some(vec![]), None).is_none());
}

#[test]
fn the_timeline_counts_every_comment() {
    let stamps = [0, 3600, 7200, 86_400, 86_400 * 3 + 60, 1_744_947_840, 1_744_947_841];
    let user = redditor(stamps.iter().map(|t| comment(*t)).collect(), vec![]);
    let timeline = user.timeline();
    let days = timeline.days();
    assert_eq!(days.len(), 7);
    for (i, (wday, hours)) in days.iter().enumerate() {
        assert_eq!(*wday as usize, i);
        assert_eq!(hours.len(), 24);
    }
    let total: u32 = days.iter().map(|(_, hours)| hours.iter().sum::<u32>()).sum();
    assert_eq!(total as usize, stamps.len());
}

#[test]
fn comments_a_second_apart_share_a_cell() {
    let user = redditor(vec![comment(1_744_947_840), comment(1_744_947_841)], vec![]);
    let days = user.timeline().days();
    let cells: Vec<u32> = days.iter().flat_map(|(_, hours)| hours.iter().copied()).collect();
    assert_eq!(cells.iter().filter(|n| **n > 0).count(), 1);
    assert_eq!(cells.iter().max(), Some(&2));
}

#[test]
fn the_timeline_iterator_walks_the_week_once() {
    let user = redditor(vec![], vec![]);
    let timeline = user.timeline();
    let mut it = TimelineIterator::new(&timeline);
    for day in 0..7 {
        let (wday, hours) = it.next().expect("a day of the week");
        assert_eq!(wday, day);
        assert_eq!(hours, vec![0; 24]);
    }
    assert!(it.next().is_none());
    assert!(it.next().is_none());
}

#[test]
fn it_processes_data_for_users_with_no_comments() {
    let client = redditor(vec![], vec![]);
    let timeline = client.timeline();
    let buckets: Vec<Vec<u32>> = timeline.days().into_iter().map(|(_, hours)| hours).collect();
    let expected_buckets = [
        [0, 0, 0, 0, 0, 0, 0, 0, 0, 0, 0, 0, 0, 0, 0, 0, 0, 0, 0, 0, 0, 0, 0, 0],
        [0, 0, 0, 0, 0, 0, 0, 0, 0, 0, 0, 0, 0, 0, 0, 0, 0, 0, 0, 0, 0, 0, 0, 0],
        [0, 0, 0, 0, 0, 0, 0, 0, 0, 0, 0, 0, 0, 0, 0, 0, 0, 0, 0, 0, 0, 0, 0, 0],
        [0, 0, 0, 0, 0, 0, 0, 0, 0, 0, 0, 0, 0, 0, 0, 0, 0, 0, 0, 0, 0, 0, 0, 0],
        [0, 0, 0, 0, 0, 0, 0, 0, 0, 0, 0, 0, 0, 0, 0, 0, 0, 0, 0, 0, 0, 0, 0, 0],
        [0, 0, 0, 0, 0, 0, 0, 0, 0, 0, 0, 0, 0, 0, 0, 0, 0, 0, 0, 0, 0, 0, 0, 0],
        [0, 0, 0, 0, 0, 0, 0, 0, 0, 0, 0, 0, 0, 0, 0, 0, 0, 0, 0, 0, 0, 0, 0, 0],
    ];
    assert_eq!(buckets, expected_buckets);
}
