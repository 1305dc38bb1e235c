use usaidwat::conf::pager_env;

fn get_less(oneline: &bool, less: Option<&str>) -> String {
    let vars = pager_env(oneline, less.map(String::from));
    vars.into_iter().nth(0).expect("expected at least one environment variable")
}

#[test]
fn it_returns_a_default_value_if_envvar_is_not_set() {
    let less = get_less(&false, None);
    assert_eq!(less, "LESS=FSRX");
}

#[test]
fn it_returns_a_default_value_including_s_option_if_oneline_is_selected() {
    let less = get_less(&true, None);
    assert_eq!(less, "LESS=FSRX");
}

#[test]
fn it_adds_r_option_to_env() {
    let less = get_less(&false, Some("SX"));
    assert_eq!(less, "LESS=SXR");
}

#[test]
fn it_includes_r_option_even_if_r_is_already_set() {
    let less = get_less(&false, Some("RSX"));
    assert_eq!(less, "LESS=RSX");
}

#[test]
fn it_adds_s_option_if_oneline_is_set() {
    let less = get_less(&true, Some("R"));
    assert_eq!(less, "LESS=RS");
}

#[test]
fn it_includes_s_option_if_oneline_is_set_even_if_s_is_already_set() {
    let less = get_less(&true, Some("SR"));
    assert_eq!(less, "LESS=SR");
}

#[test]
fn an_empty_less_gets_r_and_s() {
    assert_eq!(get_less(&true, Some("")), "LESS=RS");
    assert_eq!(get_less(&false, Some("")), "LESS=R");
}
