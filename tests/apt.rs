use i3status_rs::blocks::apt::{get_update_count, has_matching_update, Apt, AptConfig, AptError, LineFilter};
use i3status_rs::blocks::{Block, State};
use i3status_rs::dispatcher::MouseButton;

const LISTING: &str = "Listing...\n\
firefox/jammy-updates 120.0 amd64 [upgradable from: 119.0]\n\
linux-image-generic/jammy-security 5.15.0.91 amd64 [upgradable from: 5.15.0.89]\r\n\
vim/jammy 2:8.2 amd64 [upgradable from: 2:8.1]\n";

#[test]
fn counts_upgradable_lines() {
    assert_eq!(get_update_count(LISTING), 3);
    assert_eq!(get_update_count("Listing...\n"), 0);
    assert_eq!(get_update_count(""), 0);
    assert_eq!(get_update_count("a [upgradable [upgradable\nb"), 1);
}

#[test]
fn filter_matches_single_lines() {
    let f = LineFilter::new("^linux-.*security").unwrap();
    assert!(has_matching_update(LISTING, &f));
    let g = LineFilter::new("^firefox.*security").unwrap();
    assert!(!has_matching_update(LISTING, &g));
    let h = LineFilter::new(r"89\]$").unwrap();
    assert!(has_matching_update(LISTING, &h));
    assert!(LineFilter::new("(unclosed").is_none());
}

#[test]
fn invalid_patterns_are_errors() {
    let mut config = AptConfig::default();
    config.warning_updates_regex = Some("(".to_string());
    config.critical_updates_regex = Some(")".to_string());
    assert!(matches!(Apt::new(&config), Err(AptError::InvalidWarningRegex)));
    config.warning_updates_regex = None;
    assert!(matches!(Apt::new(&config), Err(AptError::InvalidCriticalRegex)));
}

#[test]
fn apt_state_follows_count_and_filters() {
    let mut config = AptConfig::default();
    config.warning_updates_regex = Some("firefox".to_string());
    config.critical_updates_regex = Some("security".to_string());
    let mut apt = Apt::new(&config).unwrap();
    assert_eq!(apt.interval(), Some(600_000));
    apt.apply_updates(LISTING);
    assert_eq!(apt.view(), vec!["3".to_string()]);
    assert_eq!(apt.state(), State::Critical);
    apt.apply_updates("firefox/jammy 1 amd64 [upgradable from: 0]");
    assert_eq!(apt.view(), vec!["1".to_string()]);
    assert_eq!(apt.state(), State::Warning);
    apt.apply_updates("vim/jammy 1 amd64 [upgradable from: 0]");
    assert_eq!(apt.state(), State::Info);
    apt.apply_updates("Listing...\nfirefox security");
    assert_eq!(apt.view(), vec!["0".to_string()]);
    assert_eq!(apt.state(), State::Idle);
    assert!(apt.click(MouseButton::Left));
    assert!(!apt.click(MouseButton::Right));
}
