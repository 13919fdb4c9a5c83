use topik::matches_pattern;

#[test]
fn mqtt_exact_match() {
    assert!(matches_pattern(
        "sensors/42/temperature",
        "sensors/42/temperature",
        '/',
        "+",
        "#"
    ));
}

#[test]
fn mqtt_single_wildcard() {
    assert!(matches_pattern(
        "sensors/42/temperature",
        "sensors/+/temperature",
        '/',
        "+",
        "#"
    ));
}

#[test]
fn mqtt_single_wildcard_no_match() {
    assert!(!matches_pattern(
        "sensors/42/temperature",
        "sensors/+/humidity",
        '/',
        "+",
        "#"
    ));
}

#[test]
fn mqtt_multi_wildcard() {
    assert!(matches_pattern(
        "sensors/42/temperature",
        "sensors/#",
        '/',
        "+",
        "#"
    ));
}

#[test]
fn mqtt_multi_wildcard_deep() {
    assert!(matches_pattern(
        "sensors/42/temperature/raw",
        "sensors/#",
        '/',
        "+",
        "#"
    ));
}

#[test]
fn mqtt_multi_wildcard_no_match_empty() {
    assert!(!matches_pattern(
        "sensors",
        "sensors/#",
        '/',
        "+",
        "#"
    ));
}

#[test]
fn mqtt_multiple_single_wildcards() {
    assert!(matches_pattern(
        "sensors/42/temperature",
        "sensors/+/+",
        '/',
        "+",
        "#"
    ));
}

#[test]
fn nats_single_wildcard() {
    assert!(matches_pattern(
        "sensors.42.temperature",
        "sensors.*.temperature",
        '.',
        "*",
        ">"
    ));
}

#[test]
fn nats_multi_wildcard() {
    assert!(matches_pattern(
        "sensors.42.temperature",
        "sensors.>",
        '.',
        "*",
        ">"
    ));
}

#[test]
fn nats_multi_wildcard_deep() {
    assert!(matches_pattern(
        "sensors.42.temperature.raw",
        "sensors.>",
        '.',
        "*",
        ">"
    ));
}

#[test]
fn nats_multiple_wildcards() {
    assert!(matches_pattern(
        "sensors.42.temperature",
        "sensors.*.*",
        '.',
        "*",
        ">"
    ));
}

#[test]
fn nats_no_match() {
    assert!(!matches_pattern(
        "sensors.42.temperature",
        "commands.*.*",
        '.',
        "*",
        ">"
    ));
}

#[test]
fn redis_single_wildcard() {
    assert!(matches_pattern(
        "sensors:42:temperature",
        "sensors:*:temperature",
        ':',
        "*",
        "*"
    ));
}

#[test]
fn redis_wildcard_no_match() {
    assert!(!matches_pattern(
        "sensors:42:temperature",
        "sensors:*:humidity",
        ':',
        "*",
        "*"
    ));
}

#[test]
fn redis_exact() {
    assert!(matches_pattern(
        "sensors:42:temperature",
        "sensors:42:temperature",
        ':',
        "*",
        "*"
    ));
}
