use novel_fetch::config::place_of;
use novel_fetch::config::ConfigError;
use novel_fetch::config::ConfigValue;
use novel_fetch::config::DynamicConfig;
use novel_fetch::config::Place;
use novel_fetch::config::Scalar;
use novel_fetch::fetcher::capture_again;
use novel_fetch::fetcher::download_chapter_singlefile;
use novel_fetch::fetcher::page_is_blocked;
use novel_fetch::fetcher::DirectiveError;
use novel_fetch::fetcher::PAGE_ATTEMPTS;

fn text(s: &str) -> ConfigValue {
    ConfigValue::text(s)
}

fn json(s: &str) -> ConfigValue {
    ConfigValue::json(s)
}

#[test]
fn test_dynamic_config_equality() {
    let mut config1 = DynamicConfig::new();
    config1.set("key2", text("value2")).unwrap();
    config1.set("key1", text("value1")).unwrap();

    let mut config2 = DynamicConfig::new();
    config2.set("key1", text("value1")).unwrap();
    config2.set("key2", text("value2")).unwrap();

    assert_eq!(config1, config2);

    config2.set("key2", text("different_value")).unwrap();

    assert_ne!(config1, config2);
}

#[test]
fn test_dynamic_config_remove() {
    let mut config = DynamicConfig::new();
    config.set("key1", text("value1")).unwrap();
    config.set("key2", text("value2")).unwrap();

    assert!(config.get("key1").is_some());
    assert!(config.get("key2").is_some());

    config.remove("key1").unwrap();

    assert!(config.get("key1").is_none());
    assert!(config.get("key2").is_some());

    let result = config.remove("nonexistent");
    assert!(result.is_err());
}

#[test]
fn test_dynamic_config_to_args() {
    let mut config = DynamicConfig::new();
    config.set("string_arg", text("string_value")).unwrap();
    config.set("number_arg", json("123")).unwrap();
    config.set("bool_arg", json("true")).unwrap();
    config.set("null_arg", ConfigValue::null()).unwrap();

    let args = config.to_args().unwrap();

    assert!(args.contains(&"--string_arg".to_string()));
    assert!(args.contains(&"string_value".to_string()));
    assert!(args.contains(&"--number_arg".to_string()));
    assert!(args.contains(&"123".to_string()));
    assert!(args.contains(&"--bool_arg".to_string()));
    assert!(args.contains(&"true".to_string()));
    assert!(args.contains(&"--null_arg".to_string()));
    assert_eq!(args.iter().filter(|&a| a == "null").count(), 0);
}

#[test]
fn test_dynamic_config_get_executable_path() {
    let mut config = DynamicConfig::new();

    assert!(config.get_executable_path().is_none());

    config.set("single-file-path", text("/path/to/single-file")).unwrap();
    assert_eq!(config.get_executable_path().unwrap(), "/path/to/single-file");
}

#[test]
fn test_dynamic_config_new() {
    let config = DynamicConfig::new();
    assert_eq!(config.len(), 0);
    assert!(config.entries().is_empty());
}

#[test]
fn test_dynamic_config_default() {
    let config = DynamicConfig::new();
    assert_eq!(config.len(), 0);
    assert!(config.entries().is_empty());
}

#[test]
fn test_dynamic_config_get() {
    let mut config = DynamicConfig::new();

    assert!(config.get("nonexistent").is_none());

    config.set("test_key", text("test_value")).unwrap();
    assert_eq!(config.get("test_key").unwrap(), &text("test_value"));

    config.set("number_key", json("42")).unwrap();
    config.set("bool_key", json("true")).unwrap();
    config.set("null_key", ConfigValue::null()).unwrap();

    assert_eq!(config.get("number_key").unwrap(), &json("42"));
    assert_eq!(config.get("bool_key").unwrap(), &json("true"));
    assert_eq!(config.get("null_key").unwrap(), &ConfigValue::null());
}

#[test]
fn test_dynamic_config_set() {
    let mut config = DynamicConfig::new();

    config.set("string_key", text("string_value")).unwrap();
    assert_eq!(config.get("string_key").unwrap(), &text("string_value"));

    config.set("number_key", json("123")).unwrap();
    assert_eq!(config.get("number_key").unwrap(), &json("123"));

    config.set("bool_key", json("true")).unwrap();
    assert_eq!(config.get("bool_key").unwrap(), &json("true"));

    config.set("null_key", ConfigValue::null()).unwrap();
    assert_eq!(config.get("null_key").unwrap(), &ConfigValue::null());

    let obj_value = json("{\"nested\":\"value\"}");
    config.set("object_key", obj_value.clone()).unwrap();
    assert_eq!(config.get("object_key").unwrap(), &obj_value);

    let array_value = ConfigValue::Many(vec![
        Scalar::Json("1".to_string()),
        Scalar::Json("2".to_string()),
        Scalar::Json("3".to_string()),
    ]);
    config.set("array_key", array_value.clone()).unwrap();
    assert_eq!(config.get("array_key").unwrap(), &array_value);
}

#[test]
fn the_arguments_come_in_the_order_of_the_keys() {
    let mut config = DynamicConfig::new();
    config.set("b", text("2")).unwrap();
    config.set("a", text("1")).unwrap();
    config.set("c", text("")).unwrap();
    config.set("aa", json("false")).unwrap();
    config.set("B", ConfigValue::null()).unwrap();
    config.set(
        "list",
        ConfigValue::Many(vec![Scalar::Text("x".to_string()), Scalar::Null, Scalar::Json("[1,2]".to_string())]),
    )
    .unwrap();
    config.set("empty", ConfigValue::Many(Vec::new())).unwrap();
    let args: Vec<String> = config.to_args().unwrap();
    assert_eq!(
        args,
        vec!["--B", "--a", "1", "--aa", "false", "--b", "2", "--c", "--list", "x", "--list", "--list", "[1,2]"]
    );
    let keys: Vec<&str> = config.entries().iter().map(|e| e.key.as_str()).collect();
    assert_eq!(keys, vec!["B", "a", "aa", "b", "c", "empty", "list"]);
}

#[test]
fn a_later_value_replaces_an_earlier_one() {
    let mut config = DynamicConfig::new();
    config.set("k", text("one")).unwrap();
    config.set("k", text("two")).unwrap();
    assert_eq!(config.len(), 1);
    assert_eq!(config.get("k").unwrap(), &text("two"));
    let chained = config.clone().with_set("k", text("three")).with_set("j", json("1"));
    assert_eq!(chained.len(), 2);
    assert_eq!(chained.get("k").unwrap(), &text("three"));
    assert_eq!(config.get("k").unwrap(), &text("two"));
}

#[test]
fn values_are_added_to_an_option() {
    let mut config = DynamicConfig::new();
    config.add("k", Scalar::Text("a".to_string())).unwrap();
    assert_eq!(config.get("k").unwrap(), &text("a"));
    assert_eq!(config.get_multi("k"), vec![&Scalar::Text("a".to_string())]);
    config.add("k", Scalar::Json("2".to_string())).unwrap();
    assert_eq!(
        config.get("k").unwrap(),
        &ConfigValue::Many(vec![Scalar::Text("a".to_string()), Scalar::Json("2".to_string())])
    );
    config.add("k", Scalar::Null).unwrap();
    assert_eq!(
        config.get_multi("k"),
        vec![&Scalar::Text("a".to_string()), &Scalar::Json("2".to_string()), &Scalar::Null]
    );
    assert!(config.get_multi("other").is_empty());
    assert_eq!(config.to_args().unwrap(), vec!["--k", "a", "--k", "2", "--k"]);
}

#[test]
fn removing_a_key_that_is_not_there_is_refused() {
    let mut config = DynamicConfig::new();
    assert_eq!(config.remove("k").unwrap_err(), ConfigError::MissingKey);
    config.set("k", text("v")).unwrap();
    config.set("j", text("w")).unwrap();
    assert!(config.remove("k").is_ok());
    assert_eq!(config.remove("k").unwrap_err(), ConfigError::MissingKey);
    assert_eq!(config.len(), 1);
    assert_eq!(config.get("j").unwrap(), &text("w"));
}

#[test]
fn the_path_of_the_tool_is_a_text() {
    let mut config = DynamicConfig::new();
    config.set("single-file-path", json("12")).unwrap();
    assert!(config.get_executable_path().is_none());
    config.set("single-file-path", ConfigValue::Many(vec![Scalar::Text("a".to_string())])).unwrap();
    assert!(config.get_executable_path().is_none());
    config.set("single-file-path", text("")).unwrap();
    assert_eq!(config.get_executable_path(), Some(String::new()));
}

#[test]
fn the_options_that_a_capture_starts_from() {
    let config = DynamicConfig::default();
    assert_eq!(config.len(), 4);
    assert_eq!(config.get("remove-hidden-elements").unwrap(), &json("false"));
    assert_eq!(config.get("dump-content").unwrap(), &json("true"));
    assert_eq!(config.get("output-json").unwrap(), &json("true"));
    assert_eq!(
        config.to_args().unwrap(),
        vec![
            "--browser-arg",
            "--user-data-dir=D:\\Singlefile data",
            "--browser-arg",
            "--profile-directory=Default",
            "--dump-content",
            "true",
            "--output-json",
            "true",
            "--remove-hidden-elements",
            "false"
        ]
    );
}

#[test]
fn keys_are_ordered_by_their_bytes() {
    assert_eq!(place_of("a", "b"), Place::Before);
    assert_eq!(place_of("b", "a"), Place::After);
    assert_eq!(place_of("a", "a"), Place::Same);
    assert_eq!(place_of("", ""), Place::Same);
    assert_eq!(place_of("", "a"), Place::Before);
    assert_eq!(place_of("a", "aa"), Place::Before);
    assert_eq!(place_of("B", "a"), Place::Before);
    assert_eq!(place_of("z", "é"), Place::Before);
    assert_eq!(place_of("ab", "b"), Place::Before);
}

#[test]
fn the_options_of_the_capture_of_a_chapter() {
    let options = download_chapter_singlefile(
        "https://www.linovelib.com/novel/2342/83546.html",
        "http://localhost:9223",
        "./temp/temp/x",
        "config\\chapter.json",
    )
    .unwrap();
    assert_eq!(options.len(), 15);
    assert_eq!(options.get("browser-server").unwrap(), &text("http://localhost:9223"));
    assert_eq!(options.get("crawl-sync-session").unwrap(), &text("./temp/temp/x"));
    assert_eq!(options.get("browser-script").unwrap(), &text("config\\chapter.json"));
    assert_eq!(options.get("crawl-max-depth").unwrap(), &json("20"));
    assert_eq!(options.get("browser-wait-delay").unwrap(), &json("1000"));
    assert_eq!(options.get("browser-load-max-time").unwrap(), &json("240000"));
    assert_eq!(options.get("browser-capture-max-time").unwrap(), &json("240000"));
    for key in [
        "remove-hidden-elements",
        "dump-content",
        "output-json",
        "block-images",
        "crawl-links",
        "crawl-no-parent",
        "crawl-inner-links-only",
    ] {
        assert_eq!(options.get(key).unwrap(), &json("true"));
    }
    assert_eq!(
        options.get("crawl-rewrite-rule").unwrap(),
        &ConfigValue::Many(vec![
            Scalar::Text(
                "^https://www\\.linovelib\\.com/novel/\\d+/vol_.*\\.html$ https://www.linovelib.com/".to_string()
            ),
            Scalar::Text(
                "^https://www\\.linovelib\\.com/novel/(\\d+)/\\d+(_\\d+)?\\.html$ https://www.linovelib.com/novel/$1/83546$2.html"
                    .to_string()
            ),
            Scalar::Text(
                "^https://www\\.linovelib\\.com/novel/\\d+/catalog.*$ https://www.linovelib.com/".to_string()
            ),
        ])
    );
}

#[test]
fn an_address_without_a_chapter_number_gives_no_options() {
    assert_eq!(
        download_chapter_singlefile("https://www.linovelib.com/novel/2342.html", "b", "c", "s").unwrap_err(),
        DirectiveError::NoChapterNumber
    );
    assert_eq!(
        download_chapter_singlefile("https://www.linovelib.com/novel/2342/7.html", "b", "c", "s").unwrap_err(),
        DirectiveError::NoChapterNumber
    );
    assert!(download_chapter_singlefile("novel/1/12", "b", "c", "s").is_ok());
}

#[test]
fn a_page_that_the_site_refused_is_captured_again() {
    assert!(page_is_blocked(""));
    assert!(page_is_blocked("<p>Cloudflare to restrict access</p>"));
    assert!(page_is_blocked("<h1>503 Service Temporarily Unavailable</h1>"));
    assert!(!page_is_blocked("<html></html>"));
    assert!(!page_is_blocked("503 Service"));
    assert_eq!(PAGE_ATTEMPTS, 5);
    assert!(capture_again(0, ""));
    assert!(capture_again(3, ""));
    assert!(!capture_again(4, ""));
    assert!(!capture_again(0, "<html></html>"));
    assert!(!capture_again(usize::MAX, ""));
}
