use notecompanion::config::{config_from_document, load_config, Config, ConfigError, FieldName};
use notecompanion::document::{Document, Entry};
use notecompanion::monitor::{detect_active_app, is_meeting_app, plan_tick};

const ZOOM_CONFIG: &str =
    r#"{"meetingApps":["Zoom"],"notificationTitle":"Meeting","notificationMessage":"Take notes!"}"#;

fn zoom_config() -> Config {
    load_config(Some(ZOOM_CONFIG)).expect("configuration loads")
}

fn text_entry(key: &str, text: &str) -> Entry {
    Entry { key: key.to_string(), text: Some(text.to_string()), items: None }
}

fn list_entry(key: &str, items: Vec<Option<&str>>) -> Entry {
    Entry {
        key: key.to_string(),
        text: None,
        items: Some(items.into_iter().map(|i| i.map(|s| s.to_string())).collect()),
    }
}

#[test]
fn matching_app_dispatches_notification_and_link() {
    let config = zoom_config();
    let d = plan_tick(&config, &Some("Zoom".to_string())).expect("one dispatch");
    assert_eq!(d.title, "Meeting");
    assert_eq!(d.message, "Take notes!");
    assert_eq!(d.link, "obsidian://new");
}

#[test]
fn unlisted_app_dispatches_nothing() {
    let config = zoom_config();
    assert!(plan_tick(&config, &Some("Slack".to_string())).is_none());
}

#[test]
fn no_detected_app_dispatches_nothing() {
    let config = zoom_config();
    assert!(plan_tick(&config, &None).is_none());
}

#[test]
fn absent_config_file_is_fatal() {
    assert_eq!(load_config(None).unwrap_err(), ConfigError::Unreadable);
}

#[test]
fn loading_reproduces_list_title_and_message() {
    let text = r#"{"notificationMessage":"Open your notes","meetingApps":["Zoom","Microsoft Teams","Zoom"],"notificationTitle":"Call started","extra":3}"#;
    let config = load_config(Some(text)).expect("configuration loads");
    assert_eq!(config.meeting_apps, vec!["Zoom", "Microsoft Teams", "Zoom"]);
    assert_eq!(config.notification_title, "Call started");
    assert_eq!(config.notification_message, "Open your notes");
}

#[test]
fn empty_app_list_loads_and_never_matches() {
    let text = r#"{"meetingApps":[],"notificationTitle":"t","notificationMessage":"m"}"#;
    let config = load_config(Some(text)).expect("configuration loads");
    assert!(config.meeting_apps.is_empty());
    assert!(plan_tick(&config, &Some("Zoom".to_string())).is_none());
}

#[test]
fn missing_app_list_is_rejected() {
    let text = r#"{"notificationTitle":"t","notificationMessage":"m"}"#;
    assert_eq!(
        load_config(Some(text)).unwrap_err(),
        ConfigError::MissingField(FieldName::MeetingApps)
    );
}

#[test]
fn missing_title_is_rejected() {
    let text = r#"{"meetingApps":["Zoom"],"notificationMessage":"m"}"#;
    assert_eq!(
        load_config(Some(text)).unwrap_err(),
        ConfigError::MissingField(FieldName::NotificationTitle)
    );
}

#[test]
fn missing_message_is_rejected() {
    let text = r#"{"meetingApps":["Zoom"],"notificationTitle":"t"}"#;
    assert_eq!(
        load_config(Some(text)).unwrap_err(),
        ConfigError::MissingField(FieldName::NotificationMessage)
    );
}

#[test]
fn mistyped_fields_are_rejected() {
    let not_list = r#"{"meetingApps":"Zoom","notificationTitle":"t","notificationMessage":"m"}"#;
    assert_eq!(
        load_config(Some(not_list)).unwrap_err(),
        ConfigError::WrongType(FieldName::MeetingApps)
    );
    let bad_item = r#"{"meetingApps":["Zoom",7],"notificationTitle":"t","notificationMessage":"m"}"#;
    assert_eq!(
        load_config(Some(bad_item)).unwrap_err(),
        ConfigError::WrongType(FieldName::MeetingApps)
    );
    let null_title = r#"{"meetingApps":["Zoom"],"notificationTitle":null,"notificationMessage":"m"}"#;
    assert_eq!(
        load_config(Some(null_title)).unwrap_err(),
        ConfigError::WrongType(FieldName::NotificationTitle)
    );
    let number_message = r#"{"meetingApps":["Zoom"],"notificationTitle":"t","notificationMessage":1}"#;
    assert_eq!(
        load_config(Some(number_message)).unwrap_err(),
        ConfigError::WrongType(FieldName::NotificationMessage)
    );
}

#[test]
fn malformed_json_is_rejected() {
    assert_eq!(load_config(Some("{\"meetingApps\": [")).unwrap_err(), ConfigError::InvalidJson);
    assert_eq!(load_config(Some("")).unwrap_err(), ConfigError::InvalidJson);
}

#[test]
fn non_object_document_lacks_every_field() {
    assert_eq!(
        load_config(Some("[\"Zoom\"]")).unwrap_err(),
        ConfigError::MissingField(FieldName::MeetingApps)
    );
}

#[test]
fn repeated_member_keeps_last_value() {
    let text = r#"{"meetingApps":["Zoom"],"notificationTitle":"first","notificationTitle":"second","notificationMessage":"m"}"#;
    let config = load_config(Some(text)).expect("configuration loads");
    assert_eq!(config.notification_title, "second");
}

#[test]
fn repeated_matching_ticks_dispatch_every_time() {
    let config = zoom_config();
    let detected = Some("Zoom".to_string());
    let count = (0..5).filter(|_| plan_tick(&config, &detected).is_some()).count();
    assert_eq!(count, 5);
}

#[test]
fn run_of_unlisted_apps_dispatches_nothing() {
    let config = zoom_config();
    let ticks = vec![Some("Slack"), None, Some("zoom"), Some("Zoom ")];
    for t in ticks {
        assert!(plan_tick(&config, &t.map(|s| s.to_string())).is_none());
    }
}

#[test]
fn membership_is_exact() {
    let config = zoom_config();
    assert!(is_meeting_app(&config, &"Zoom".to_string()));
    assert!(!is_meeting_app(&config, &"ZOOM".to_string()));
    assert!(!is_meeting_app(&config, &String::new()));
}

#[test]
fn detector_reports_fixed_app() {
    assert_eq!(detect_active_app(), Some("Zoom".to_string()));
}

#[test]
fn document_with_all_fields_builds_config() {
    let doc = Document::Object(vec![
        list_entry("meetingApps", vec![Some("Zoom"), Some("Webex")]),
        text_entry("notificationMessage", "m"),
        text_entry("notificationTitle", "t"),
    ]);
    let config = config_from_document(&doc).expect("configuration builds");
    assert_eq!(config.meeting_apps, vec!["Zoom", "Webex"]);
    assert_eq!(config.notification_title, "t");
    assert_eq!(config.notification_message, "m");
}

#[test]
fn document_errors_follow_field_order() {
    let doc = Document::Object(vec![
        list_entry("meetingApps", vec![Some("Zoom"), None]),
        text_entry("other", "x"),
    ]);
    assert_eq!(
        config_from_document(&doc).unwrap_err(),
        ConfigError::WrongType(FieldName::MeetingApps)
    );
    let doc = Document::Object(vec![
        text_entry("notificationTitle", "t"),
        list_entry("meetingApps", vec![]),
        list_entry("notificationMessage", vec![]),
    ]);
    assert_eq!(
        config_from_document(&doc).unwrap_err(),
        ConfigError::WrongType(FieldName::NotificationMessage)
    );
    assert_eq!(
        config_from_document(&Document::NotObject).unwrap_err(),
        ConfigError::MissingField(FieldName::MeetingApps)
    );
}
