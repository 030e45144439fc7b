use agent_browser_native::stealth::{
    get_realistic_user_agent, is_stealth_enabled, stealth_decision, STEALTH_CHROMIUM_ARGS, STEALTH_INIT_SCRIPT,
};

const MAC_USER_AGENT: &str = "Mozilla/5.0 (Macintosh; Intel Mac OS X 10_15_7) AppleWebKit/537.36 (KHTML, like Gecko) Chrome/131.0.0.0 Safari/537.36";

#[test]
fn user_agent_is_the_macos_one() {
    assert_eq!(get_realistic_user_agent(), MAC_USER_AGENT);
    assert_eq!(get_realistic_user_agent(), get_realistic_user_agent());
}

#[test]
fn user_agent_never_headless() {
    assert!(!get_realistic_user_agent().contains("HeadlessChrome"));
}

#[test]
fn stealth_launch_option_takes_priority() {
    assert!(!is_stealth_enabled(Some(false), Some("true")));
    assert!(is_stealth_enabled(Some(true), Some("false")));
}

#[test]
fn stealth_environment_value() {
    assert!(!is_stealth_enabled(None, Some("false")));
    assert!(!is_stealth_enabled(None, Some("FALSE")));
    assert!(!is_stealth_enabled(None, Some("0")));
    assert!(is_stealth_enabled(None, Some("no")));
    assert!(is_stealth_enabled(None, Some("")));
}

#[test]
fn stealth_on_by_default() {
    assert!(is_stealth_enabled(None, None));
}

#[test]
fn stealth_launch_arguments() {
    assert!(STEALTH_CHROMIUM_ARGS.contains(&"--disable-blink-features=AutomationControlled"));
    assert_eq!(STEALTH_CHROMIUM_ARGS.len(), 15);
    assert!(STEALTH_INIT_SCRIPT.contains("navigator.webdriver"));
}

#[test]
fn user_agent_shape() {
    let ua = get_realistic_user_agent();
    assert!(ua.starts_with("Mozilla/5.0 ("));
    assert!(ua.ends_with(") AppleWebKit/537.36 (KHTML, like Gecko) Chrome/131.0.0.0 Safari/537.36"));
}

#[test]
fn stealth_decision_on_lowered_value() {
    assert!(!stealth_decision(None, Some("false")));
    assert!(!stealth_decision(None, Some("0")));
    assert!(stealth_decision(None, Some("FALSE")));
    assert!(stealth_decision(None, None));
    assert!(!stealth_decision(Some(false), None));
}
