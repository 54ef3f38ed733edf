use medicine_tracker::config::Config;

#[test]
fn redis_url_joins_host_and_port() {
    let config =
        Config { server_port: 8080, redis_host: "localhost".to_string(), redis_port: 6379 };
    assert_eq!(config.redis_url(), "redis://localhost:6379");
}

#[test]
fn redis_url_writes_any_port() {
    let config =
        Config { server_port: 1, redis_host: "store.internal".to_string(), redis_port: 65535 };
    assert_eq!(config.redis_url(), "redis://store.internal:65535");
    let config = Config { server_port: 1, redis_host: String::new(), redis_port: 0 };
    assert_eq!(config.redis_url(), "redis://:0");
}

#[test]
fn from_env_falls_back_to_the_defaults() {
    let config = Config::from_env(None, None, None);
    assert_eq!(config.server_port, 8080);
    assert_eq!(config.redis_host, "localhost");
    assert_eq!(config.redis_port, 6379);
}

#[test]
fn from_env_takes_what_is_set() {
    let config = Config::from_env(
        Some("3000".to_string()),
        Some("redis.example".to_string()),
        Some("6380".to_string()),
    );
    assert_eq!(config.server_port, 3000);
    assert_eq!(config.redis_host, "redis.example");
    assert_eq!(config.redis_port, 6380);
    assert_eq!(config.redis_url(), "redis://redis.example:6380");
}

#[test]
fn from_env_ignores_a_port_that_is_no_number() {
    let config = Config::from_env(Some("http".to_string()), None, Some("70000".to_string()));
    assert_eq!(config.server_port, 8080);
    assert_eq!(config.redis_port, 6379);
    let config = Config::from_env(Some(String::new()), None, Some("-1".to_string()));
    assert_eq!(config.server_port, 8080);
    assert_eq!(config.redis_port, 6379);
}
