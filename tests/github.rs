use i3status_rs::blocks::github::{count_reasons, get_state, Github, GithubConfig};
use i3status_rs::blocks::{Block, State};

fn strings(v: &[&str]) -> Vec<String> {
    v.iter().map(|s| s.to_string()).collect()
}

#[test]
fn reasons_are_counted_once_each() {
    let agg = count_reasons(&strings(&["mention", "comment", "mention"]));
    assert_eq!(agg.len(), 2);
    assert!(agg.contains(&("mention".to_string(), 2)));
    assert!(agg.contains(&("comment".to_string(), 1)));
    assert!(count_reasons(&Vec::new()).is_empty());
}

#[test]
fn strongest_listed_reason_sets_state() {
    let agg = vec![("mention".to_string(), 1), ("author".to_string(), 0)];
    let critical = Some(strings(&["author"]));
    let warning = Some(strings(&["mention"]));
    assert_eq!(get_state(&critical, &warning, &None, &None, &agg), State::Warning);
    let critical = Some(strings(&["mention"]));
    assert_eq!(get_state(&critical, &warning, &None, &None, &agg), State::Critical);
    assert_eq!(get_state(&None, &None, &None, &None, &agg), State::Idle);
    let good = Some(strings(&["mention"]));
    assert_eq!(get_state(&None, &None, &None, &good, &agg), State::Good);
}

#[test]
fn github_hides_when_total_is_zero() {
    let mut config = GithubConfig::default();
    config.hide_if_total_is_zero = true;
    let mut g = Github::new(config, "token".to_string());
    assert_eq!(g.interval(), Some(30_000));
    g.apply_notifications(&Vec::new());
    assert!(g.view().is_empty());
    g.apply_notifications(&strings(&["mention", "assign"]));
    assert_eq!(g.view(), vec!["2".to_string()]);
}

#[test]
fn github_shows_total_and_state() {
    let mut config = GithubConfig::default();
    config.info = Some(strings(&["assign"]));
    let mut g = Github::new(config, "t".to_string());
    assert_eq!(g.api_server(), "https://api.github.com");
    g.apply_notifications(&strings(&["assign", "mention", "mention"]));
    assert_eq!(g.view(), vec!["3".to_string()]);
    assert_eq!(g.state(), State::Info);
    g.apply_notifications(&Vec::new());
    assert_eq!(g.view(), vec!["0".to_string()]);
    assert_eq!(g.state(), State::Idle);
}
