use plant_sensor::config::{BusSettings, Config, ConfigKey};

fn some(s: &str) -> Option<String> {
    Some(s.to_string())
}

#[test]
fn all_values_present() {
    let c = Config::from_values(some("h"), some("u"), some("p"), some("n"), some("d"), some("t")).unwrap();
    assert_eq!(c.host, "h");
    assert_eq!(c.user, "u");
    assert_eq!(c.password, "p");
    assert_eq!(c.namespace, "n");
    assert_eq!(c.database, "d");
    assert_eq!(c.table, "t");
}

#[test]
fn first_missing_value_is_reported() {
    let r = Config::from_values(None, None, some("p"), some("n"), some("d"), some("t"));
    assert_eq!(r.unwrap_err(), ConfigKey::Host);
    let r = Config::from_values(some("h"), None, None, some("n"), some("d"), some("t"));
    assert_eq!(r.unwrap_err(), ConfigKey::User);
    let r = Config::from_values(some("h"), some("u"), None, some("n"), some("d"), some("t"));
    assert_eq!(r.unwrap_err(), ConfigKey::Password);
    let r = Config::from_values(some("h"), some("u"), some("p"), None, some("d"), None);
    assert_eq!(r.unwrap_err(), ConfigKey::Namespace);
    let r = Config::from_values(some("h"), some("u"), some("p"), some("n"), None, some("t"));
    assert_eq!(r.unwrap_err(), ConfigKey::Database);
    let r = Config::from_values(some("h"), some("u"), some("p"), some("n"), some("d"), None);
    assert_eq!(r.unwrap_err(), ConfigKey::Table);
}

#[test]
fn key_names() {
    assert_eq!(ConfigKey::Host.name(), "DB_HOST");
    assert_eq!(ConfigKey::User.name(), "DB_USER");
    assert_eq!(ConfigKey::Password.name(), "DB_PASSWORD");
    assert_eq!(ConfigKey::Namespace.name(), "DB_NAMESPACE");
    assert_eq!(ConfigKey::Database.name(), "DB_NAME");
    assert_eq!(ConfigKey::Table.name(), "TABLE_NAME");
}

#[test]
fn standard_bus_settings() {
    let s = BusSettings::standard();
    assert_eq!(s.clock_hz, 1_000_000);
    assert_eq!(s.mode, 0);
    assert_eq!(s.chip_select, 0);
    assert_eq!(s.power_line, 17);
    assert_eq!(s.period_ms, 1000);
}
