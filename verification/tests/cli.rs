use usaidwat::ai::client::openai::OpenAIModel;
use usaidwat::ai::client::AIModel;
use usaidwat::cli::{
    info_output, log_output, posts_log_output, posts_tally_output, tally_output, timeline_output,
    AIModelClass, Command, DateFormat, PostCommandConfig, PostSubcommand, TallyConfig,
};
use usaidwat::client::Redditor;
use usaidwat::count::SortAlgorithm;
use usaidwat::thing::{About, Comment, Submission, User};

const NOW: i64 = 1_748_454_660;

#[test]
fn it_selects_the_flagship_model() {
    let model: OpenAIModel = AIModelClass::Flagship.model();
    assert_eq!(model, OpenAIModel::flagship());
}

#[test]
fn it_selects_the_best_model() {
    let model: OpenAIModel = AIModelClass::Best.model();
    assert_eq!(model, OpenAIModel::best());
}

#[test]
fn it_selects_the_cheapest_model() {
    let model: OpenAIModel = AIModelClass::Cheapest.model();
    assert_eq!(model, OpenAIModel::cheapest());
}

#[test]
fn it_selects_the_fastest_model() {
    let model: OpenAIModel = AIModelClass::Fastest.model();
    assert_eq!(model, OpenAIModel::fastest());
}

#[test]
fn options_have_their_command_line_names() {
    assert_eq!(DateFormat::Absolute.to_string(), "absolute");
    assert_eq!(DateFormat::Relative.to_string(), "relative");
    assert_eq!(DateFormat::default(), DateFormat::Relative);
    assert_eq!(AIModelClass::Flagship.to_string(), "flagship");
    assert_eq!(AIModelClass::Best.to_string(), "best");
    assert_eq!(AIModelClass::Cheapest.to_string(), "cheapest");
    assert_eq!(AIModelClass::Fastest.to_string(), "fastest");
    assert_eq!(AIModelClass::default(), AIModelClass::Fastest);
}

#[test]
fn every_command_names_its_user() {
    let tally = || TallyConfig { username: String::from("mipadi"), sort_by_count: true };
    let commands = vec![
        Command::Info { username: String::from("mipadi") },
        Command::Log {
            username: String::from("mipadi"),
            subreddits: vec![],
            date: DateFormat::Relative,
            grep: None,
            limit: None,
            oneline: false,
            raw: false,
        },
        Command::Posts(PostCommandConfig {
            command: PostSubcommand::Log {
                username: String::from("mipadi"),
                subreddits: vec![],
                oneline: true,
                date: DateFormat::Absolute,
            },
        }),
        Command::Posts(PostCommandConfig { command: PostSubcommand::Tally(tally()) }),
        Command::Summary { username: String::from("mipadi"), model: AIModelClass::Best },
        Command::Tally(tally()),
        Command::Timeline { username: String::from("mipadi") },
    ];
    for command in commands {
        assert_eq!(command.username(), "mipadi");
    }
}

#[test]
fn tally_options_choose_the_sort() {
    let by_count = TallyConfig { username: String::from("u"), sort_by_count: true };
    let by_name = TallyConfig { username: String::from("u"), sort_by_count: false };
    assert_eq!(by_count.sort_algorithm(), SortAlgorithm::Numerically);
    assert_eq!(by_name.sort_algorithm(), SortAlgorithm::Lexicographically);
}

fn comment(subreddit: &str, title: &str, body: &str) -> Comment {
    Comment {
        id: String::new(),
        name: String::new(),
        subreddit_id: String::new(),
        subreddit: String::from(subreddit),
        link_title: String::from(title),
        link_id: String::new(),
        permalink: String::from("https://www.reddit.com/r/x/comments/1/y/z/"),
        created_utc: NOW - 7200,
        body: String::from(body),
        ups: 0,
        downs: 0,
        score: 1,
    }
}

fn post(subreddit: &str, title: &str) -> Submission {
    Submission {
        id: String::new(),
        name: String::new(),
        permalink: String::from("https://www.reddit.com/r/x/comments/1/y/"),
        author: String::new(),
        domain: String::new(),
        subreddit_id: String::new(),
        subreddit: String::from(subreddit),
        url: String::new(),
        title: String::from(title),
        selftext: String::new(),
        is_self: true,
        created_utc: NOW - 7200,
        num_comments: 0,
        ups: 0,
        downs: 0,
        score: 0,
    }
}

fn redditor(comments: Vec<Comment>, posts: Vec<Submission>) -> Redditor {
    let about = About {
        name: String::from("mipadi"),
        id: String::new(),
        created_utc: NOW - 86_400 * 400,
        link_karma: -5,
        comment_karma: 7,
    };
    let user = User::parse(Some(about), Some(comments), Some(posts)).expect("all parts are there");
    Redditor::new(String::from("mipadi"), user)
}

fn sample() -> Redditor {
    redditor(
        vec![
            comment("rpg", "First", "nunc est bibendum"),
            comment("movies", "Second", "lorem ipsum"),
            comment("RPG", "Third", "Nunc dimittis"),
        ],
        vec![post("rpg", "A post"), post("books", "Another post")],
    )
}

#[test]
fn log_shows_the_selected_comments_on_one_line_each() {
    colored::control::set_override(false);
    let subreddits = vec![String::from("rpg")];
    let grep = Some(String::from("nunc"));
    let out = log_output(&sample(), &subreddits, DateFormat::Relative, &grep, &None, true, false, NOW);
    assert_eq!(out, Ok(String::from("rpg First\nRPG Third")));
}

#[test]
fn log_limits_the_comments_first() {
    colored::control::set_override(false);
    let out = log_output(&sample(), &vec![], DateFormat::Relative, &None, &Some(2), true, false, NOW);
    assert_eq!(out, Ok(String::from("rpg First\nmovies Second")));
}

#[test]
fn log_separates_full_comments_with_blank_lines() {
    colored::control::set_override(false);
    let subreddits = vec![String::from("-rpg")];
    let out = log_output(&sample(), &subreddits, DateFormat::Relative, &None, &None, false, false, NOW);
    let expected = "movies\nhttps://www.reddit.com/r/x/comments/1/y/z/\nSecond\n2 hours ago \u{2022} +1\n\nlorem ipsum";
    assert_eq!(out, Ok(String::from(expected)));
    let out = log_output(&sample(), &vec![], DateFormat::Relative, &None, &None, false, false, NOW).unwrap();
    assert_eq!(out.matches("\n\n\n").count(), 2);
}

#[test]
fn log_refuses_a_mixed_subreddit_filter() {
    let subreddits = vec![String::from("rpg"), String::from("-movies")];
    let out = log_output(&sample(), &subreddits, DateFormat::Relative, &None, &None, true, false, NOW);
    assert_eq!(out, Err(String::from("invalid subreddit filter: rpg -movies")));
}

#[test]
fn posts_log_shows_the_selected_posts() {
    colored::control::set_override(false);
    let subreddits = vec![String::from("Books")];
    let out = posts_log_output(&sample(), &subreddits, DateFormat::Relative, true, NOW);
    assert_eq!(out, Ok(String::from("books Another post")));
    let out = posts_log_output(&sample(), &vec![String::from("a,-b")], DateFormat::Relative, true, NOW);
    assert_eq!(out, Err(String::from("invalid subreddit filter: a,-b")));
}

#[test]
fn tallies_count_subreddits() {
    let out = tally_output(&sample(), &SortAlgorithm::Numerically);
    let lines: Vec<&str> = out.lines().collect();
    assert_eq!(lines.len(), 3);
    assert_eq!(lines[0], "movies    1");
    let out = posts_tally_output(&sample(), &SortAlgorithm::Lexicographically);
    assert_eq!(out, "books    1\nrpg      1");
}

#[test]
fn tallies_of_nothing_say_so() {
    let user = redditor(vec![], vec![]);
    assert_eq!(tally_output(&user, &SortAlgorithm::Lexicographically), "mipadi has no comments.");
    assert_eq!(posts_tally_output(&user, &SortAlgorithm::Numerically), "mipadi has no posts.");
    assert_eq!(timeline_output(&user), "mipadi has no comments.");
}

#[test]
fn the_timeline_has_a_mark_per_busy_hour() {
    let out = timeline_output(&sample());
    assert_eq!(out.matches('*').count(), 1);
}

#[test]
fn info_shows_karma() {
    let out = info_output(&sample(), NOW);
    assert!(out.starts_with("Created: "));
    assert!(out.contains(" (a year ago)\n"));
    assert!(out.ends_with("\nLink Karma: -5\nComment Karma: 7"));
}
