use usaidwat::ai::client::openai::OpenAIModel;
use usaidwat::client::Redditor;
use usaidwat::ai::client::openai::{OpenAIContent, OpenAIOutput, OpenAIResponse};
use usaidwat::summary::{summary_text, Summarizer};
use usaidwat::thing::{About, Comment, User};

fn comment(body: &str) -> Comment {
    Comment {
        id: String::new(),
        name: String::new(),
        subreddit_id: String::new(),
        subreddit: String::from("rpg"),
        link_title: String::new(),
        link_id: String::new(),
        permalink: String::new(),
        created_utc: 0,
        body: String::from(body),
        ups: 0,
        downs: 0,
        score: 0,
    }
}

fn redditor(bodies: &[&str]) -> Redditor {
    let about = About {
        name: String::from("mipadi"),
        id: String::new(),
        created_utc: 0,
        link_karma: 0,
        comment_karma: 0,
    };
    let comments = bodies.iter().map(|b| comment(b)).collect();
    let user = User::parse(Some(about), Some(comments), Some(vec![])).expect("all parts are there");
    Redditor::new(String::from("mipadi"), user)
}

#[test]
fn the_context_is_the_bare_comments() {
    let user = redditor(&["I *really* like **this**.", "See [the docs](https://example.com) &amp; more."]);
    let summarizer = Summarizer::new(&user, "Summarize.");
    assert_eq!(summarizer.context(), "I really like this.\n\nSee the docs & more.");
}

#[test]
fn the_preamble_is_on_one_line() {
    let user = redditor(&[]);
    let summarizer = Summarizer::new(&user, "Summarize these\ncomments\nplease.");
    assert_eq!(summarizer.preamble(), "Summarize these comments please.");
}

#[test]
fn the_input_is_the_preamble_then_the_context() {
    let user = redditor(&["one", "two"]);
    let summarizer = Summarizer::new(&user, "Be\nbrief.");
    assert_eq!(summarizer.input(), "Be brief.\n\none\n\ntwo");
}

#[test]
fn the_request_asks_the_chosen_model() {
    let user = redditor(&["one"]);
    let request = Summarizer::new(&user, "Hi.").request();
    assert_eq!(request.chosen_model(), OpenAIModel::Gpt4o);
    assert_eq!(request.input_text(), "Hi.\n\none");
    let request = Summarizer::new(&user, "Hi.").model(OpenAIModel::O3).request();
    assert_eq!(request.chosen_model(), OpenAIModel::O3);
    assert_eq!(request.instructions_text(), None);
}

#[test]
fn the_summary_is_wrapped_to_the_given_width() {
    let response = OpenAIResponse::new(vec![
        OpenAIOutput::new(vec![OpenAIContent::new(String::from("one two three four five"))]),
        OpenAIOutput::new(vec![OpenAIContent::new(String::from("six seven"))]),
    ]);
    assert_eq!(summary_text(&response, 10), "one two\nthree four\nfive\nsix seven");
    assert_eq!(summary_text(&response, 80), "one two three four five\nsix seven");
}
