use usaidwat::filter::{RedditFilter, Searchable, StringSet, StringSetValidator};
use usaidwat::thing::{Comment, HasSubreddit, Submission};

/// A thing whose searchable text is `text`.
fn searchable(text: &str, subreddit: &str) -> Comment {
    Comment {
        id: String::new(),
        name: String::new(),
        subreddit_id: String::new(),
        subreddit: String::from(subreddit),
        link_title: String::new(),
        link_id: String::new(),
        permalink: String::new(),
        created_utc: 0,
        body: String::from(text),
        ups: 0,
        downs: 0,
        score: 0,
    }
}

struct Rhyme;

impl Rhyme {
    fn default() -> Comment {
        searchable("peter piper picked a peck of pickled peppers", "subreddit")
    }
}

#[test]
fn it_returns_true_if_there_is_a_match() {
    let t = Rhyme::default();
    assert!(t.matches("peppers"));
}

#[test]
fn it_returns_true_if_there_are_multiple_matches() {
    let t = Rhyme::default();
    assert!(t.matches("pick"));
}

#[test]
fn it_matches_substrings() {
    let t = Rhyme::default();
    assert!(t.matches("pip"));
}

#[test]
fn it_matches_needles_with_spaces() {
    let t = Rhyme::default();
    assert!(t.matches("picked a peck"));
}

#[test]
fn it_returns_false_if_there_are_no_matches() {
    let t = Rhyme::default();
    assert!(!t.matches("usaidwait"));
}

#[test]
fn it_matches_regexes() {
    let t = Rhyme::default();
    assert!(t.matches("pep{2,}ers"));
}

#[test]
fn it_matches_regexes_case_insensitively() {
    let t = Rhyme::default();
    assert!(t.matches("Piper"));
}

#[test]
fn it_treats_invalid_regexes_as_a_fixed_string() {
    let t = Rhyme::default();
    assert!(!t.matches("pic{?}kl**ed"));
}

#[test]
fn it_takes_a_string() {
    let t = Rhyme::default();
    let s = String::from("Piper");
    assert!(t.matches(&s))
}

#[test]
fn invalid_regexes_are_found_as_fixed_strings() {
    let t = searchable("a pic{?}kl**ed pepper", "subreddit");
    assert!(t.matches("pic{?}kl**ed"));
}

#[test]
fn posts_are_searched_by_title() {
    let post = Submission {
        id: String::new(),
        name: String::new(),
        permalink: String::new(),
        author: String::new(),
        domain: String::new(),
        subreddit_id: String::new(),
        subreddit: String::from("rpg"),
        url: String::new(),
        title: String::from("Collections: Coinage"),
        selftext: String::from("nothing about peppers"),
        is_self: true,
        created_utc: 0,
        num_comments: 0,
        ups: 0,
        downs: 0,
        score: 0,
    };
    assert!(post.matches("coinage"));
    assert!(!post.matches("peppers"));
}

fn load_test() -> Vec<Comment> {
    let strings = vec![
        (
            "Lorem ipsum dolor sit amet, consectetur adipiscing elit.",
            "subreddit",
        ),
        ("In sodales urna et libero commodo varius.", "subreddit"),
        ("Morbi vitae varius orci.", "other"),
        ("Sed luctus turpis ac fringilla maximus.", "another"),
        (
            "In libero nisl, condimentum in gravida eget, bibendum id lectus.",
            "words",
        ),
        ("Nunc sit amet odio dolor.", "poetry"),
        ("Nunc quis urna vel sem iaculis dapibus.", "subreddit"),
        (
            "Donec justo metus, vulputate a purus at, tincidunt porttitor erat.",
            "blah",
        ),
        (
            "Quisque in metus molestie, dictum metus nec, malesuada tortor.",
            "foo",
        ),
        ("Nam sed turpis eu tortor semper rhoncus.", "bar"),
        (
            "Pellentesque habitant morbi tristique senectus et netus et malesuada fames ac turpis egestas.",
            "baz",
        ),
    ];
    strings.iter().map(|(s, sr)| searchable(s, sr)).collect()
}

#[test]
fn it_returns_the_first_n_items() {
    let texts = load_test();
    let limit = Some(3);
    let results = RedditFilter::new(texts).take(&limit);
    assert_eq!(results.collect().len(), 3);
}

#[test]
fn it_returns_all_items_when_limit_is_none() {
    let texts = load_test();
    let n = texts.len();
    let limit = None;
    let results = RedditFilter::new(texts).take(&limit);
    assert_eq!(results.collect().len(), n);
}

#[test]
fn it_returns_all_items_when_limit_exceeds_the_total_count() {
    let texts = load_test();
    let n = texts.len();
    let limit = Some(n as u32 + 1);
    let results = RedditFilter::new(texts).take(&limit);
    assert_eq!(results.collect().len(), n);
}

#[test]
fn it_finds_items_matching_a_string() {
    let texts = load_test();
    let grep = Some(String::from("\\bnunc\\b"));
    let matches = RedditFilter::new(texts).grep(&grep);
    assert_eq!(matches.collect().len(), 2);
}

#[test]
fn it_returns_everything_if_there_is_no_needle() {
    let texts = load_test();
    let n = texts.len();
    let grep = None;
    let matches = RedditFilter::new(texts).grep(&grep);
    assert_eq!(matches.collect().len(), n);
}

#[test]
fn it_returns_nothing_if_there_are_no_matches() {
    let texts = load_test();
    let grep = Some(String::from("some text"));
    let matches = RedditFilter::new(texts).grep(&grep);
    assert_eq!(matches.collect().len(), 0);
}

#[test]
fn it_returns_everything_if_subreddit_filter_is_empty() {
    let texts = load_test();
    let n = texts.len();
    let filter = StringSet::from(&Vec::<&str>::new()).expect("should create string set from empty vector");
    let filtered = RedditFilter::new(texts).filter(&filter);
    assert_eq!(filtered.collect().len(), n);
}

#[test]
fn it_returns_a_subset_if_subreddit_filter_is_positive() {
    let texts = load_test();
    let n = texts.iter().filter(|t| t.subreddit() == "subreddit").count();
    let filter = StringSet::from(&vec!["subreddit", "doesnotexist"]).expect("should create string set from empty vector");
    let filtered = RedditFilter::new(texts).filter(&filter);
    assert_eq!(filtered.collect().len(), n);
}

#[test]
fn it_returns_everything_if_subreddit_filter_is_negative() {
    let texts = load_test();
    let n = texts.len();
    let x = texts.iter().filter(|t| t.subreddit() == "subreddit").count();
    let filter = StringSet::from(&vec!["-subreddit", "-doesnotexist"]).expect("should create string set from empty vector");
    let filtered = RedditFilter::new(texts).filter(&filter);
    assert_eq!(filtered.collect().len(), n - x);
}

#[test]
fn filters_keep_the_order_of_items() {
    let texts = load_test();
    let filter = StringSet::from(&vec!["Subreddit"]).expect("should create string set");
    let kept: Vec<String> = RedditFilter::new(texts).filter(&filter).collect().into_iter().map(|t| t.body).collect();
    assert_eq!(
        kept,
        vec![
            "Lorem ipsum dolor sit amet, consectetur adipiscing elit.",
            "In sodales urna et libero commodo varius.",
            "Nunc quis urna vel sem iaculis dapibus.",
        ]
    );
}

#[test]
fn take_grep_and_filter_compose() {
    let texts = load_test();
    let filter = StringSet::from(&vec!["-poetry"]).expect("should create string set");
    let grep = Some(String::from("nunc"));
    let kept = RedditFilter::new(texts).take(&Some(7)).grep(&grep).filter(&filter).collect();
    assert_eq!(kept.len(), 1);
    assert_eq!(kept[0].body, "Nunc quis urna vel sem iaculis dapibus.");
}

#[test]
fn it_accepts_all_positive_strings() {
    let strings = vec!["alpha", "beta", "charlie", "delta"];
    let set = StringSet::from(&strings);
    assert!(set.is_some());
}

#[test]
fn it_accepts_all_positive_comma_separated_strings() {
    let strings = vec!["alpha,beta,charlie,delta"];
    let set = StringSet::from(&strings);
    assert!(set.is_some());
}

#[test]
fn it_accepts_all_positive_nested_strings() {
    let strings = vec!["alpha,beta", "charlie", "delta,echo,foxtrot", "golf"];
    let set = StringSet::from(&strings);
    assert!(set.is_some());
}

#[test]
fn it_accepts_all_negative_strings() {
    let strings = vec!["-alpha", "-beta", "-charlie", "-delta"];
    let set = StringSet::from(&strings);
    assert!(set.is_some());
}

#[test]
fn it_accepts_all_negative_comma_separated_strings() {
    let strings = vec!["-alpha,-beta,-charlie,-delta"];
    let set = StringSet::from(&strings);
    assert!(set.is_some());
}

#[test]
fn it_accepts_all_negative_nested_strings() {
    let strings = vec!["-alpha,-beta", "-charlie", "-delta,-echo,-foxtrot", "-golf"];
    let set = StringSet::from(&strings);
    assert!(set.is_some());
}

#[test]
fn it_rejects_mixed_strings() {
    let strings = vec!["alpha", "-beta", "-charlie", "delta"];
    let set = StringSet::from(&strings);
    assert!(set.is_none());
}

#[test]
fn it_rejects_mixed_comma_separated_strings() {
    let strings = vec!["-alpha,beta,-charlie,delta"];
    let set = StringSet::from(&strings);
    assert!(set.is_none());
}

#[test]
fn it_rejects_mixed_nested_strings() {
    let strings = vec!["-alpha,-beta", "charlie", "delta,-echo,foxtrot", "-golf"];
    let set = StringSet::from(&strings);
    assert!(set.is_none());
}

#[test]
fn it_returns_true_if_it_contains_negated_strings() {
    let strings = vec!["-alpha", "-beta", "-charlie", "-delta"];
    let set = StringSet::from(&strings).expect(&format!("should build set from {strings:?}"));
    assert!(set.is_negated());
}

#[test]
fn it_returns_false_if_it_contains_positive_strings() {
    let strings = vec!["alpha", "beta", "charlie", "delta"];
    let set = StringSet::from(&strings).expect(&format!("should build set from {strings:?}"));
    assert!(!set.is_negated());
}

#[test]
fn it_is_empty_if_it_contains_no_items() {
    let set = StringSet::from(&Vec::<&str>::new()).expect("should build set from empty vector");
    assert!(set.is_empty());
}

#[test]
fn it_is_not_empty_if_it_contains_items() {
    let strings = vec!["alpha", "beta", "charlie", "delta"];
    let set = StringSet::from(&strings).expect(&format!("should build set from {strings:?}"));
    assert!(!set.is_empty());
}

#[test]
fn it_accepts_a_string_in_the_set() {
    let strings = vec!["alpha,beta", "charlie", "delta,echo,foxtrot", "golf"];
    let set = StringSet::from(&strings).expect(&format!("should build set from {strings:?}"));
    assert!(set.contains("echo"));
}

#[test]
fn it_accepts_a_string_in_the_set_case_insensitively() {
    let strings = vec!["Alpha,Beta", "Charlie", "Delta,Echo,Foxtrot", "golf"];
    let set = StringSet::from(&strings).expect(&format!("should build set from {strings:?}"));
    assert!(set.contains("echo"), "'echo' should be in the set, but is not");
}

#[test]
fn it_rejects_a_string_not_in_the_set() {
    let strings = vec!["alpha,beta", "charlie", "delta,echo,foxtrot", "golf"];
    let set = StringSet::from(&strings).expect(&format!("should build set from {strings:?}"));
    assert!(!set.contains("romeo"));
}

#[test]
fn it_takes_a_string_as_a_needle() {
    let strings = vec!["alpha,beta", "charlie", "delta,echo,foxtrot", "golf"];
    let set = StringSet::from(&strings).expect(&format!("should build set from {strings:?}"));
    let needle = String::from("romeo");
    assert!(!set.contains(&needle));
}

#[test]
fn it_accepts_a_string_not_in_the_set() {
    let strings = vec!["-alpha,-beta", "-charlie", "-delta,-echo,-foxtrot", "-golf"];
    let set = StringSet::from(&strings).expect(&format!("should build set from {strings:?}"));
    assert!(set.contains("romeo"));
}

#[test]
fn it_rejects_a_string_in_the_set() {
    let strings = vec!["-alpha,-beta", "-charlie", "-delta,-echo,-foxtrot", "-golf"];
    let set = StringSet::from(&strings).expect(&format!("should build set from {strings:?}"));
    assert!(!set.contains("echo"), "'echo' should not be in the set, but is");
}

#[test]
fn it_rejects_a_string_in_the_set_case_insensitively() {
    let strings = vec!["-Alpha,-Beta", "-Charlie", "-Delta,-Echo,-Foxtrot", "-golf"];
    let set = StringSet::from(&strings).expect(&format!("should build set from {strings:?}"));
    assert!(!set.contains("echo"), "'echo' should not be in the set, but is");
}

#[test]
fn spaces_are_ignored_in_sets() {
    let set = StringSet::from(&vec!["alpha, beta , gamma"]).expect("should build set");
    assert!(set.contains("beta"));
    assert!(set.contains("gamma"));
    assert!(!set.contains(" beta"));
}

#[test]
fn negated_sets_accept_what_positive_sets_reject() {
    let positive = StringSet::from(&vec!["alpha", "Beta"]).expect("should build set");
    let negative = StringSet::from(&vec!["-alpha", "-Beta"]).expect("should build set");
    for needle in ["alpha", "ALPHA", "beta", "gamma", ""] {
        assert_eq!(negative.contains(needle), !positive.contains(needle), "{needle}");
    }
}

#[test]
fn filter_it_accepts_all_positive_strings() {
    let strings = vec!["alpha", "beta", "charlie", "delta"];
    let validator = StringSetValidator::from(&strings);
    assert!(validator.is_valid());
    assert!(validator.all_positive());
    assert!(!validator.all_negative());
}

#[test]
fn filter_it_accepts_all_positive_comma_separated_strings() {
    let strings = vec!["alpha,beta,charlie,delta"];
    let validator = StringSetValidator::from(&strings);
    assert!(validator.is_valid());
    assert!(validator.all_positive());
    assert!(!validator.all_negative());
}

#[test]
fn filter_it_accepts_all_positive_nested_strings() {
    let strings = vec!["alpha,beta", "charlie", "delta,echo,foxtrot", "golf"];
    let validator = StringSetValidator::from(&strings);
    assert!(validator.is_valid());
    assert!(validator.all_positive());
    assert!(!validator.all_negative());
}

#[test]
fn filter_it_accepts_all_negative_strings() {
    let strings = vec!["-alpha", "-beta", "-charlie", "-delta"];
    let validator = StringSetValidator::from(&strings);
    assert!(validator.is_valid());
    assert!(!validator.all_positive());
    assert!(validator.all_negative());
}

#[test]
fn filter_it_accepts_all_negative_comma_separated_strings() {
    let strings = vec!["-alpha,-beta,-charlie,-delta"];
    let validator = StringSetValidator::from(&strings);
    assert!(validator.is_valid());
    assert!(!validator.all_positive());
    assert!(validator.all_negative());
}

#[test]
fn filter_it_accepts_all_negative_nested_strings() {
    let strings = vec!["-alpha,-beta", "-charlie", "-delta,-echo,-foxtrot", "-golf"];
    let validator = StringSetValidator::from(&strings);
    assert!(validator.is_valid());
    assert!(!validator.all_positive());
    assert!(validator.all_negative());
}

#[test]
fn filter_it_rejects_mixed_strings() {
    let strings = vec!["alpha", "-beta", "-charlie", "delta"];
    let validator = StringSetValidator::from(&strings);
    assert!(!validator.is_valid());
    assert!(!validator.all_positive());
    assert!(!validator.all_negative());
}

#[test]
fn filter_it_rejects_mixed_comma_separated_strings() {
    let strings = vec!["-alpha,beta,-charlie,delta"];
    let validator = StringSetValidator::from(&strings);
    assert!(!validator.is_valid());
    assert!(!validator.all_positive());
    assert!(!validator.all_negative());
}

#[test]
fn filter_it_rejects_mixed_nested_strings() {
    let strings = vec!["-alpha,-beta", "charlie", "delta,-echo,foxtrot", "-golf"];
    let validator = StringSetValidator::from(&strings);
    assert!(!validator.is_valid());
    assert!(!validator.all_positive());
    assert!(!validator.all_negative());
}

#[test]
fn into_set_drops_dashes_and_lowercases() {
    let validator = StringSetValidator::from(&vec!["-Alpha,--beta", "-GAMMA"]);
    let mut set = validator.into_set();
    set.sort();
    assert_eq!(set, vec!["alpha", "beta", "gamma"]);
}

#[test]
fn invalid_regexes_are_found_case_insensitively() {
    let t = searchable("call foo( now", "subreddit");
    assert!(t.matches("FOO("));
    assert!(t.matches("Foo("));
    assert!(!t.matches("bar("));
}

#[test]
fn into_set_keeps_each_name_once() {
    let validator = StringSetValidator::from(&["-Alpha,-alpha", "-ALPHA", "-beta"]);
    assert_eq!(validator.into_set(), vec![String::from("alpha"), String::from("beta")]);
}
