use usaidwat::cli::DateFormat;
use usaidwat::client::Redditor;
use usaidwat::count::{SortAlgorithm, SubredditCounter};
use usaidwat::thing::{About, Comment, Submission, User};
use usaidwat::view::{Tally, ViewOptions, Viewable};

const NOW: i64 = 1_748_454_660;

fn comment(subreddit: &str, title: &str, created_utc: i64, score: i64, body: &str) -> Comment {
    Comment {
        id: String::from("mqtcq8h"),
        name: String::from("t1_mqtcq8h"),
        subreddit_id: String::from("t5_2qh2s"),
        subreddit: String::from(subreddit),
        link_title: String::from(title),
        link_id: String::from("t3_1k1qk7e"),
        permalink: String::from("https://www.reddit.com/r/cyphersystem/comments/1k1qk7e/cypher_system_chatgpt/mqtcq8h/"),
        created_utc,
        body: String::from(body),
        ups: 3,
        downs: 0,
        score,
    }
}

fn post(is_self: bool) -> Submission {
    Submission {
        id: String::from("1hv9k9l"),
        name: String::from("t3_1hv9k9l"),
        permalink: String::from("https://www.reddit.com/r/rpg/comments/1hv9k9l/collections_coinage_and_the_tyranny_of_fantasy/"),
        author: String::from("mipadi"),
        domain: String::from("acoup.blog"),
        subreddit_id: String::from("t5_2qh2s"),
        subreddit: String::from("rpg"),
        url: String::from("https://acoup.blog/2025/01/03/collections-coinage-and-the-tyranny-of-fantasy-gold/"),
        title: String::from("Collections: Coinage and the Tyranny of Fantasy \"Gold\""),
        selftext: String::new(),
        is_self,
        created_utc: NOW - 3 * 86_400,
        num_comments: 12,
        ups: 40,
        downs: 0,
        score: 40,
    }
}

#[test]
fn it_returns_default_options() {
    let opts = ViewOptions::default();
    assert_eq!(opts.chosen_date_format(), DateFormat::default());
    assert!(!opts.is_oneline());
    assert!(!opts.is_raw());
}

#[test]
fn it_returns_custom_options() {
    let opts = ViewOptions::default().oneline(true).raw(true).date_format(DateFormat::Absolute);
    assert_eq!(opts.chosen_date_format(), DateFormat::Absolute);
    assert!(opts.is_oneline());
    assert!(opts.is_raw());
}

#[test]
fn it_returns_custom_options_with_only_oneline() {
    let opts = ViewOptions::default().oneline(true);
    assert_eq!(opts.chosen_date_format(), DateFormat::default());
    assert!(opts.is_oneline());
    assert!(!opts.is_raw());
}

#[test]
fn it_returns_custom_options_with_only_raw() {
    let opts = ViewOptions::default().raw(true);
    assert_eq!(opts.chosen_date_format(), DateFormat::default());
    assert!(!opts.is_oneline());
    assert!(opts.is_raw());
}

#[test]
fn it_returns_the_permalink_without_the_full_title() {
    let expected = "https://www.reddit.com/r/rpg/comments/1hv9k9l";
    assert_eq!(post(false).short_permalink(), expected);
}

#[test]
fn short_permalinks_of_short_paths_are_empty() {
    let mut p = post(false);
    p.permalink = String::from("rpg");
    assert_eq!(p.short_permalink(), "");
}

#[test]
fn it_returns_the_link_uri() {
    let expected = "https://acoup.blog/2025/01/03/collections-coinage-and-the-tyranny-of-fantasy-gold/";
    assert_eq!(post(false).link_uri(), expected);
}

#[test]
fn it_returns_an_empty_link_uri_for_self_posts() {
    assert_eq!(post(true).link_uri(), "")
}

#[test]
fn it_formats_a_post() {
    colored::control::set_override(false);
    let actual = post(false).view(&ViewOptions::default(), NOW);
    let expected = "rpg\nhttps://www.reddit.com/r/rpg/comments/1hv9k9l\nCollections: Coinage and the Tyranny of Fantasy \"Gold\"\n3 days ago\nhttps://acoup.blog/2025/01/03/collections-coinage-and-the-tyranny-of-fantasy-gold/";
    assert_eq!(actual, expected);
}

#[test]
fn it_formats_a_self_post() {
    colored::control::set_override(false);
    let actual = post(true).view(&ViewOptions::default(), NOW);
    let expected = "rpg\nhttps://www.reddit.com/r/rpg/comments/1hv9k9l\nCollections: Coinage and the Tyranny of Fantasy \"Gold\"\n3 days ago";
    assert_eq!(actual, expected);
}

#[test]
fn it_formats_a_post_on_oneline() {
    colored::control::set_override(false);
    let opts = ViewOptions::default().oneline(true);
    let actual = post(false).view(&opts, NOW);
    assert_eq!(actual, "rpg Collections: Coinage and the Tyranny of Fantasy \"Gold\"");
}

#[test]
fn it_formats_a_comment_on_oneline() {
    colored::control::set_override(false);
    let opts = ViewOptions::default().oneline(true);
    let c = comment("cyphersystem", "Cypher System & ChatGPT", NOW - 86_400 * 40, 3, "body");
    assert_eq!(c.view(&opts, NOW), "cyphersystem Cypher System & ChatGPT");
}

#[test]
fn it_formats_a_comment_with_relative_dates() {
    colored::control::set_override(false);
    let opts = ViewOptions::default().date_format(DateFormat::Relative);
    let c = comment("cyphersystem", "Cypher System & ChatGPT", NOW - 3 * 3600, -2, "I *love* it.");
    let expected = "cyphersystem\nhttps://www.reddit.com/r/cyphersystem/comments/1k1qk7e/cypher_system_chatgpt/mqtcq8h/\nCypher System & ChatGPT\n3 hours ago \u{2022} -2\n\nI *love* it.";
    assert_eq!(c.view(&opts, NOW), expected);
}

#[test]
fn scores_are_signed() {
    colored::control::set_override(false);
    let c = comment("rpg", "A title", NOW - 10, 0, "");
    assert!(c.view(&ViewOptions::default(), NOW).ends_with("a few seconds ago \u{2022} +0\n\n"));
}

#[test]
fn it_formats_a_comment_with_absolute_dates() {
    colored::control::set_override(false);
    let opts = ViewOptions::default().date_format(DateFormat::Absolute);
    let c = comment("cyphersystem", "Cypher System & ChatGPT", 1_744_947_840, 3, "body");
    let date = c.format_absolute_date();
    let expected = format!(
        "cyphersystem\nhttps://www.reddit.com/r/cyphersystem/comments/1k1qk7e/cypher_system_chatgpt/mqtcq8h/\nCypher System & ChatGPT\n{date} \u{2022} +3\n\nbody"
    );
    assert_eq!(c.view(&opts, NOW), expected);
    assert!(date.contains(", "));
    assert!(date.ends_with("AM") || date.ends_with("PM"));
    assert!(!date.contains(",  "));
}

#[test]
fn it_formats_comment_tallies() {
    let counts = Tally(vec![
        (String::from("cyphersystem"), 1),
        (String::from("DiscoElysium"), 31),
        (String::from("rpg"), 51),
    ]);
    let actual = counts.view(&ViewOptions::default(), NOW);
    assert_eq!(actual, "cyphersystem    1\nDiscoElysium   31\nrpg            51");
}

#[test]
fn tallies_align_counts_of_more_than_three_digits() {
    let counts = Tally(vec![(String::from("a"), 1234), (String::from("bb"), 5)]);
    assert_eq!(counts.view(&ViewOptions::default(), NOW), "a   1234\nbb    5");
}

#[test]
fn it_returns_an_empty_string_if_no_comments() {
    let counts = Tally(vec![]);
    assert_eq!(counts.view(&ViewOptions::default(), NOW), "");
}

fn redditor(comments: Vec<Comment>) -> Redditor {
    let about = About {
        name: String::from("mipadi"),
        id: String::from("30eb1"),
        created_utc: 1_206_975_326,
        link_karma: 11729,
        comment_karma: 121995,
    };
    let user = User::parse(Some(about), Some(comments), Some(vec![])).expect("all parts are there");
    Redditor::new(String::from("mipadi"), user)
}

#[test]
fn it_formats_a_user() {
    let user = redditor(vec![]);
    let actual = user.view(&ViewOptions::default(), NOW);
    assert!(actual.starts_with("Created: "));
    assert!(actual.contains(" (17 years ago)\n"));
    assert!(actual.ends_with("\nLink Karma: 11729\nComment Karma: 121995"));
}

#[test]
fn it_formats_a_timeline() {
    let c = comment("rpg", "t", NOW, 1, "");
    let user = redditor(vec![c]);
    let actual = user.timeline().view(&ViewOptions::default(), NOW);
    let lines: Vec<&str> = actual.lines().collect();
    assert_eq!(lines.len(), 8);
    let header: String = std::iter::once(String::from(" "))
        .chain((0..24).map(|i| format!("{i:>3}")))
        .collect();
    assert_eq!(lines[0], header);
    let initials: String = lines[1..].iter().map(|l| l.chars().next().unwrap()).collect();
    assert_eq!(initials, "MTWTFSS");
    assert_eq!(actual.matches('*').count(), 1);
    for line in &lines[1..] {
        assert_eq!(line.chars().count(), 1 + 3 * 24);
    }
}

#[test]
fn an_empty_timeline_has_no_marks() {
    let user = redditor(vec![]);
    let actual = user.timeline().view(&ViewOptions::default(), NOW);
    assert_eq!(actual.matches('*').count(), 0);
    assert!(actual.ends_with(&format!("S{}", " ".repeat(72))));
}

#[test]
fn it_returns_an_empty_string_if_no_submissions() {
    let user = redditor(vec![]);
    let counts = SubredditCounter::from_iter(user.submissions()).sort_by(&SortAlgorithm::default());
    let actual = Tally(counts).view(&ViewOptions::default(), NOW);
    assert_eq!(actual, "");
}
