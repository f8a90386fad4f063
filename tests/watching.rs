use check_pjsip_state::config::{Config, ConfigError, SlackConfig, Sink};
use check_pjsip_state::snapshot::{get_pjsip_endpoints, Endpoint, EndpointsData};
use check_pjsip_state::watch::{change_message_of, command_failure_message, startup_message, Decision, WatchState};

fn notified(d: &Decision) -> bool {
    matches!(d, Decision::Notify(_))
}

#[test]
fn first_cycle_always_notifies() {
    let mut st = WatchState::new();
    assert!(notified(&st.observe("")));
    let mut st2 = WatchState::new();
    assert!(notified(&st2.observe("Endpoint: a Idle 0 of inf")));
}

#[test]
fn same_text_twice_notifies_once() {
    let raw = "Endpoint:  500/500   Unavailable   0 of inf\nEndpoint:  502/502   Not in use    0 of inf";
    let mut st = WatchState::new();
    assert!(notified(&st.observe(raw)));
    assert!(matches!(st.observe(raw), Decision::Unchanged));
    assert!(matches!(st.observe(raw), Decision::Unchanged));
}

#[test]
fn cosmetic_differences_do_not_notify() {
    let mut st = WatchState::new();
    assert!(notified(&st.observe("Endpoint: a Idle 0 of inf\n")));
    assert!(matches!(st.observe("header\n   Endpoint:    a Idle 0 of inf   \n\n"), Decision::Unchanged));
}

#[test]
fn state_change_notifies_exactly_once() {
    let before = "Endpoint:  500/500   Unavailable   0 of inf\nEndpoint:  502/502   Not in use    0 of inf";
    let after = "Endpoint:  500/500   Unavailable   0 of inf\nEndpoint:  502/502   Unavailable    0 of inf";
    let mut st = WatchState::new();
    let mut count = 0;
    for raw in [before, before, after, after] {
        if notified(&st.observe(raw)) {
            count += 1;
        }
    }
    assert_eq!(count, 2);
    match WatchState::new().observe(after) {
        Decision::Notify(m) => assert_eq!(
            m,
            "Endpoints have changed:\n- 500/500: Unavailable (0 of inf)\n- 502/502: Unavailable (0 of inf)"
        ),
        Decision::Unchanged => panic!("first report must be announced"),
    }
}

#[test]
fn decide_records_the_fingerprint() {
    let data = get_pjsip_endpoints("Endpoint: a Idle 0 of inf");
    let mut st = WatchState::new();
    assert!(notified(&st.decide(&data, "f1".to_string())));
    assert_eq!(st.last_fingerprint, Some("f1".to_string()));
    assert!(matches!(st.decide(&data, "f1".to_string()), Decision::Unchanged));
    assert!(notified(&st.decide(&data, "f2".to_string())));
    assert_eq!(st.last_fingerprint, Some("f2".to_string()));
}

#[test]
fn change_message_lists_every_record() {
    let data = EndpointsData {
        endpoints: vec![Endpoint {
            endpoint: "Voipfone".to_string(),
            state: "Not in use".to_string(),
            channels: "0 of inf".to_string(),
        }],
    };
    assert_eq!(change_message_of(&data), "Endpoints have changed:\n- Voipfone: Not in use (0 of inf)");
    assert_eq!(change_message_of(&EndpointsData { endpoints: vec![] }), "Endpoints have changed:");
}

#[test]
fn fixed_messages() {
    assert_eq!(startup_message(), "check-pjsip-started");
    assert_eq!(command_failure_message(), "Failed to run the command");
}

#[test]
fn config_validation() {
    let token = SlackConfig { api_token: Some("xoxb".to_string()), webhook_url: None };
    let none = SlackConfig { api_token: None, webhook_url: None };
    assert_eq!(Config::new(token.clone(), 0).err(), Some(ConfigError::ZeroInterval));
    assert_eq!(Config::new(none, 60).err(), Some(ConfigError::NoSink));
    let c = Config::new(token, 60).ok().unwrap();
    assert_eq!(c.sleep_time_seconds, 60);
    assert!(matches!(c.sink(), Sink::ApiToken(t) if t == "xoxb"));
    let both = SlackConfig {
        api_token: Some("xoxb".to_string()),
        webhook_url: Some("https://hooks.slack.com/services/TEST/WEBHOOK/URL".to_string()),
    };
    let c = Config::new(both, 5).ok().unwrap();
    assert!(matches!(c.sink(), Sink::Webhook(u) if u == "https://hooks.slack.com/services/TEST/WEBHOOK/URL"));
}
