use rbar::config::{margin_default, BarConfig, Config, MarginConfig};
use rbar::rbar::{IdSource, RBar};

#[test]
fn margin_is_zero_by_default() {
    assert_eq!(margin_default(), 0);
    assert_eq!(MarginConfig::default(), MarginConfig { top: 0, left: 0, right: 0, bottom: 0 });
}

#[test]
fn bar_config_is_empty_by_default() {
    let bar = BarConfig::default();
    assert_eq!(bar.height, 0);
    assert!(bar.modules.is_empty());
}

#[test]
fn config_is_empty_by_default() {
    let config = Config::default();
    assert_eq!(config.bar.height, 0);
    assert!(config.bar.modules.is_empty());
    assert_eq!(config.margin, MarginConfig::default());
}

#[test]
fn ids_start_at_one_and_go_up_by_one() {
    let mut ids = IdSource::new();
    assert_eq!(RBar::unique_id(&mut ids), 1);
    assert_eq!(RBar::unique_id(&mut ids), 2);
    assert_eq!(RBar::unique_id(&mut ids), 3);
}

#[test]
fn ids_differ_over_many_calls() {
    let mut ids = IdSource::new();
    let mut last = 0;
    for _ in 0..1000 {
        let id = RBar::unique_id(&mut ids);
        assert!(id > last);
        last = id;
    }
    assert_eq!(last, 1000);
}
