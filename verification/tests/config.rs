use sweeper::config::{default_deletion_period, default_message_lifetime, Config, Secret};

#[test]
fn default_lifetime_is_42_hours() {
    assert_eq!(default_message_lifetime(), 42 * 60 * 60);
}

#[test]
fn default_period_is_5_minutes() {
    assert_eq!(default_deletion_period(), 5 * 60);
}

#[test]
fn config_validity_requires_positive_timings() {
    let good = Config {
        telegram_bot_token: Secret::new("example-token".to_string()),
        storage_path: "messages.db".to_string(),
        message_lifetime: default_message_lifetime(),
        deletion_period: default_deletion_period(),
        nodelete_hashtags: vec!["keep".to_string()],
    };
    assert!(good.is_valid());

    let zero_lifetime = Config {
        telegram_bot_token: Secret::new("example-token".to_string()),
        storage_path: "messages.db".to_string(),
        message_lifetime: 0,
        deletion_period: 300,
        nodelete_hashtags: vec![],
    };
    assert!(!zero_lifetime.is_valid());

    let zero_period = Config {
        telegram_bot_token: Secret::new("example-token".to_string()),
        storage_path: "messages.db".to_string(),
        message_lifetime: 100,
        deletion_period: 0,
        nodelete_hashtags: vec![],
    };
    assert!(!zero_period.is_valid());
}

#[test]
fn secret_hands_back_its_value() {
    let s = Secret::new(42u64);
    assert_eq!(*s.get(), 42);
    assert_eq!(s.into_inner(), 42);
}
