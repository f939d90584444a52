use charon::conf::{get_value as value_by_keys, ConfigEntry, ConfigValue, MythosConfig};

fn entry(key: &str, value: ConfigValue) -> ConfigEntry {
    ConfigEntry { key: key.to_string(), value }
}

fn config_tester() -> MythosConfig {
    MythosConfig::new(vec![
        entry("float", ConfigValue::Float("1.1".to_string())),
        entry("string", ConfigValue::String("string".to_string())),
        entry("int", ConfigValue::Integer(1)),
        entry("bool", ConfigValue::Boolean(true)),
        entry("date", ConfigValue::Datetime("1970-01-01".to_string())),
        entry("array", ConfigValue::Array(vec!["0".to_string(), "1".to_string()])),
        entry(
            "table",
            ConfigValue::Table(
                vec!["int1:1".to_string(), "int2:2".to_string()],
                MythosConfig::new(vec![
                    entry("int1", ConfigValue::Integer(1)),
                    entry("int2", ConfigValue::Integer(2)),
                    entry(
                        "deep",
                        ConfigValue::Table(
                            vec!["value:1000".to_string()],
                            MythosConfig::new(vec![entry("value", ConfigValue::Integer(1000))]),
                        ),
                    ),
                ]),
            ),
        ),
        entry("negative", ConfigValue::Integer(-120)),
        entry("least", ConfigValue::Integer(i64::MIN)),
        entry("most", ConfigValue::Integer(i64::MAX)),
        entry("empty", ConfigValue::Array(Vec::new())),
        entry("off", ConfigValue::Boolean(false)),
    ])
}

#[test]
fn try_open_file() {
    let conf = config_tester();
    assert_eq!(conf.try_get_integer("int"), Some(1));
}

// Floats, arrays and tables are handed out on `toml`'s own types by the
// program around the library, so only the plain values are asked for here.
#[test]
fn get_value() {
    let config = config_tester();
    assert_eq!(config.get_string("string", ""), "string".to_string());
    assert_eq!(config.get_integer("int", -1), 1);
    assert_eq!(config.get_boolean("bool", false), true);
    assert_eq!(config.get_datetime("date", "2000-01-01"), "1970-01-01");
    assert_eq!(config.get_string("int", "fallback"), "fallback");
    assert_eq!(config.get_integer("string", -1), -1);
    assert_eq!(config.get_boolean("missing", true), true);
    assert_eq!(config.get_datetime("string", "2000-01-01"), "2000-01-01");
}

// As above: the float, array and table getters are not the library's.
#[test]
fn try_get_value() {
    let config = config_tester();
    assert_eq!(config.try_get_string("string2"), None);
    assert_eq!(config.try_get_integer("int2"), None);
    assert_eq!(config.try_get_boolean("bool2"), None);
    assert_eq!(config.try_get_datetime("date2"), None);
    assert_eq!(config.try_get_string("string"), Some("string".to_string()));
    assert_eq!(config.try_get_boolean("off"), Some(false));
    assert_eq!(config.try_get_datetime("date"), Some("1970-01-01".to_string()));
    assert_eq!(config.try_get_string("int"), None);
    assert_eq!(config.try_get_integer("bool"), None);
}

fn keys(items: &[&str]) -> Vec<String> {
    items.iter().map(|s| s.to_string()).collect()
}

#[test]
fn test_get_number() {
    assert_eq!(value_by_keys(&config_tester(), &keys(&["array"])), "0 1");
}

#[test]
fn try_open_dir() {
    let conf = config_tester();
    let table = conf.get_subsection("table").unwrap();
    assert_eq!(table.try_get_integer("int2"), Some(2));
    assert_eq!(table.get_subsection("deep").unwrap().try_get_integer("value"), Some(1000));
    assert_eq!(conf.get_subsection("int"), None);
    assert_eq!(conf.get_subsection("missing"), None);
}

#[test]
fn values_are_found_along_a_path_of_keys() {
    let conf = config_tester();
    assert_eq!(value_by_keys(&conf, &keys(&["table", "int1"])), "1");
    assert_eq!(value_by_keys(&conf, &keys(&["table", "deep", "value"])), "1000");
    assert_eq!(value_by_keys(&conf, &keys(&["table", "deep"])), "value:1000");
    assert_eq!(value_by_keys(&conf, &keys(&["table", "nope", "value"])), "");
    assert_eq!(value_by_keys(&conf, &keys(&["int", "value"])), "");
    assert_eq!(value_by_keys(&conf, &keys(&["missing"])), "");
    assert_eq!(value_by_keys(&conf, &keys(&[])), "");
}

#[test]
fn forced_text_of_each_kind() {
    let config = config_tester();
    assert_eq!(config.force_get_string("string"), Some("string".to_string()));
    assert_eq!(config.force_get_string("float"), Some("1.1".to_string()));
    assert_eq!(config.force_get_string("int"), Some("1".to_string()));
    assert_eq!(config.force_get_string("negative"), Some("-120".to_string()));
    assert_eq!(config.force_get_string("least"), Some("-9223372036854775808".to_string()));
    assert_eq!(config.force_get_string("most"), Some("9223372036854775807".to_string()));
    assert_eq!(config.force_get_string("bool"), Some("true".to_string()));
    assert_eq!(config.force_get_string("off"), Some("false".to_string()));
    assert_eq!(config.force_get_string("date"), Some("1970-01-01".to_string()));
    assert_eq!(config.force_get_string("table"), Some("int1:1 int2:2".to_string()));
    assert_eq!(config.force_get_string("empty"), Some("".to_string()));
    assert_eq!(config.force_get_string("missing"), Some("".to_string()));
}

#[test]
fn keys_come_in_order_and_the_later_entry_counts() {
    let config = MythosConfig::new(vec![
        entry("a", ConfigValue::Integer(1)),
        entry("b", ConfigValue::Integer(2)),
        entry("a", ConfigValue::Integer(3)),
    ]);
    assert_eq!(config.list_keys(), vec!["a".to_string(), "b".to_string(), "a".to_string()]);
    assert_eq!(config.get_integer("a", 0), 3);
    assert_eq!(config.get("b"), Some(&ConfigValue::Integer(2)));
    assert_eq!(config.get("c"), None);
    assert_eq!(MythosConfig::new(Vec::new()).list_keys(), Vec::<String>::new());
}
