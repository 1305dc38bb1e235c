use usaidwat::count::{SortAlgorithm, SubredditCounter};
use usaidwat::thing::Comment;

fn comment(subreddit: &str) -> Comment {
    Comment {
        id: String::new(),
        name: String::new(),
        subreddit_id: String::new(),
        subreddit: String::from(subreddit),
        link_title: String::new(),
        link_id: String::new(),
        permalink: String::new(),
        created_utc: 0,
        body: String::new(),
        ups: 0,
        downs: 0,
        score: 0,
    }
}

fn comments() -> Vec<Comment> {
    let counts = [
        ("cyphersystem", 1),
        ("DiscoElysium", 31),
        ("French", 1),
        ("MicrobrandWatches", 1),
        ("movies", 2),
        ("nealstephenson", 2),
        ("rpg", 51),
        ("sanfrancisco", 5),
        ("UnresolvedMysteries", 2),
        ("wikipedia", 1),
        ("worldbuilding", 2),
        ("worldnews", 1),
    ];
    // Interleave the subreddits so that counting does not depend on order.
    let mut out = Vec::new();
    let mut left: Vec<(&str, usize)> = counts.iter().map(|(s, n)| (*s, *n as usize)).collect();
    while left.iter().any(|(_, n)| *n > 0) {
        for (s, n) in left.iter_mut().rev() {
            if *n > 0 {
                out.push(comment(s));
                *n -= 1;
            }
        }
    }
    out
}

fn expected(pairs: &[(&str, usize)]) -> Vec<(String, usize)> {
    pairs.iter().map(|(s, n)| (s.to_string(), *n)).collect()
}

#[test]
fn it_counts_comments_by_subreddit() {
    let counter = SubredditCounter::from_iter(comments());
    let expected = vec![
        ("cyphersystem", 1),
        ("DiscoElysium", 31),
        ("French", 1),
        ("MicrobrandWatches", 1),
        ("movies", 2),
        ("nealstephenson", 2),
        ("rpg", 51),
        ("sanfrancisco", 5),
        ("UnresolvedMysteries", 2),
        ("wikipedia", 1),
        ("worldbuilding", 2),
        ("worldnews", 1),
    ];
    for (subreddit, expected) in expected {
        let actual = counter.get(subreddit).unwrap_or_else(|| panic!("no '{subreddit}' in counter"));
        assert_eq!(actual, expected, "counter[\"{subreddit}\"] == {actual}, != {expected}");
    }
    assert_eq!(counter.get("AskReddit"), None);
}

#[test]
fn it_sorts_by_subreddit_name() {
    let expected = expected(&[
        ("cyphersystem", 1),
        ("DiscoElysium", 31),
        ("French", 1),
        ("MicrobrandWatches", 1),
        ("movies", 2),
        ("nealstephenson", 2),
        ("rpg", 51),
        ("sanfrancisco", 5),
        ("UnresolvedMysteries", 2),
        ("wikipedia", 1),
        ("worldbuilding", 2),
        ("worldnews", 1),
    ]);
    let actual = SubredditCounter::from_iter(comments()).sort_by(&SortAlgorithm::Lexicographically);
    assert_eq!(actual, expected);
}

#[test]
fn it_sorts_by_subreddit_count() {
    let expected = expected(&[
        ("rpg", 51),
        ("DiscoElysium", 31),
        ("sanfrancisco", 5),
        ("movies", 2),
        ("nealstephenson", 2),
        ("UnresolvedMysteries", 2),
        ("worldbuilding", 2),
        ("cyphersystem", 1),
        ("French", 1),
        ("MicrobrandWatches", 1),
        ("wikipedia", 1),
        ("worldnews", 1),
    ]);
    let actual = SubredditCounter::from_iter(comments()).sort_by(&SortAlgorithm::Numerically);
    assert_eq!(actual, expected);
}

#[test]
fn the_default_sort_is_by_name() {
    assert_eq!(SortAlgorithm::default(), SortAlgorithm::Lexicographically);
}

#[test]
fn counting_nothing_gives_an_empty_tally() {
    let counter = SubredditCounter::from_iter(Vec::<Comment>::new());
    assert!(counter.sort_by(&SortAlgorithm::Lexicographically).is_empty());
    assert!(counter.sort_by(&SortAlgorithm::Numerically).is_empty());
}

#[test]
fn tallies_add_up_to_the_number_of_items() {
    let all = comments();
    let n = all.len();
    let tally = SubredditCounter::from_iter(all).sort_by(&SortAlgorithm::Numerically);
    assert_eq!(tally.iter().map(|(_, c)| c).sum::<usize>(), n);
}
