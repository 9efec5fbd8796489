use paper::io::config::{Configuration, SettingDeduplicator, Wrap};
use paper::io::logging::{Config, Level};
use paper::io::Setting;

#[test]
fn deduplicator_follows_the_settings() {
    let mut dedup = SettingDeduplicator::new(None);
    assert_eq!(dedup.config, Configuration { wrap: Wrap(false) });
    assert!(dedup.allows(&Setting::Wrap(true)));
    assert!(!dedup.allows(&Setting::Wrap(true)));
    assert!(!SettingDeduplicator::new(None).allows(&Setting::Wrap(false)));
    assert_eq!(dedup.config.wrap, Wrap(true));
    let read = SettingDeduplicator::new(Some(Configuration { wrap: Wrap(true) }));
    assert_eq!(read.config.settings(), vec![Setting::Wrap(true)]);
}

#[test]
fn logging_follows_the_arguments() {
    assert_eq!(Config::default().level, Level::Warn);
    let config = Config::from_arguments(2, Some("starship"));
    assert_eq!(config.level, Level::Debug);
    assert!(config.is_starship_enabled);
    assert_eq!(Config::from_arguments(7, None).level, Level::Trace);
    assert!(config.enabled("other"));
    let quiet = Config::from_arguments(0, Some("star"));
    assert!(!quiet.is_starship_enabled);
    assert!(!quiet.enabled("starship::print"));
    assert!(quiet.enabled("paper::app"));
}
