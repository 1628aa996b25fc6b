use vidar::{Config, ConfigBuilder, Error, Kind, Props};

fn lines(strs: &[&str]) -> Vec<String> {
    let mut v = Vec::new();
    for s in strs {
        v.push((*s).to_string());
    }
    v
}

fn plain_config(kind: Kind) -> Config {
    ConfigBuilder::default()
        .app_name("behavior")
        .kind(kind)
        .build()
        .expect("Unable to build Config")
}

#[test]
fn kind_tokens_round_trip() {
    let kinds = [
        Kind::Common,
        Kind::Development,
        Kind::Test,
        Kind::Integration,
        Kind::Staging,
        Kind::Production,
    ];
    let tokens = ["common", "dev", "test", "int", "stage", "prod"];
    for i in 0..kinds.len() {
        assert_eq!(kinds[i].to_token(), tokens[i]);
        assert_eq!(kinds[i].token_string(), tokens[i].to_string());
        match vidar::parse_kind(tokens[i]) {
            Ok(kind) => assert_eq!(kind, kinds[i]),
            Err(_) => assert!(false),
        }
        match vidar::parse_kind(&kinds[i].token_string()) {
            Ok(kind) => assert_eq!(kind, kinds[i]),
            Err(_) => assert!(false),
        }
    }
}

#[test]
fn kind_as_lookup_key() {
    let mut contents = std::collections::HashMap::new();
    contents.insert(Kind::Common, "shared");
    contents.insert(Kind::Development, "local");
    contents.insert(Kind::Production, "live");
    assert_eq!(contents.get(&Kind::Development), Some(&"local"));
    assert_eq!(contents.get(&Kind::Production), Some(&"live"));
    assert_eq!(contents.get(&Kind::Staging), None);
    assert_eq!(Kind::Test, Kind::Test);
    assert_ne!(Kind::Test, Kind::Staging);
}

#[test]
fn unknown_tokens_rejected() {
    for bad in ["", "Common", "development", "prod ", " dev", "staging", "DEV"] {
        match vidar::parse_kind(bad) {
            Ok(_) => assert!(false),
            Err(Error::InvalidKind(token)) => assert_eq!(token, bad.to_string()),
            Err(_) => assert!(false),
        }
    }
}

#[test]
fn kind_specific_value_wins() {
    let config = ConfigBuilder::default()
        .app_name("behavior")
        .common(true)
        .build()
        .expect("Unable to build Config");
    let common = Some(lines(&["url=https://common", "extra=kept"]));
    let dev = Some(lines(&["url=https://dev"]));
    let env = vidar::load(&config, &Vec::new(), &common, &dev).expect("load failed");
    assert_eq!(env.props().get("url"), Some(&"https://dev".to_string()));
    assert_eq!(env.props().get("extra"), Some(&"kept".to_string()));
}

#[test]
fn os_seed_lowest_priority() {
    let config = ConfigBuilder::default()
        .app_name("behavior")
        .common(true)
        .os(true)
        .build()
        .expect("Unable to build Config");
    let os_vars = vec![
        ("url".to_string(), "from-os".to_string()),
        ("shell".to_string(), "sh".to_string()),
    ];
    let common = Some(lines(&["url=https://common"]));
    let dev = Some(lines(&["url=https://dev"]));
    let env = vidar::load(&config, &os_vars, &common, &dev).expect("load failed");
    assert_eq!(env.props().get("url"), Some(&"https://dev".to_string()));
    assert_eq!(env.props().get("shell"), Some(&"sh".to_string()));
}

#[test]
fn os_seed_ignored_when_disabled() {
    let config = plain_config(Kind::Development);
    let os_vars = vec![("shell".to_string(), "sh".to_string())];
    let env = vidar::load(&config, &os_vars, &None, &Some(lines(&["k=v"])))
        .expect("load failed");
    assert!(!env.props().contains_key("shell"));
    assert_eq!(env.props().get("k"), Some(&"v".to_string()));
}

#[test]
fn load_twice_same_result() {
    let config = ConfigBuilder::default()
        .app_name("behavior")
        .common(true)
        .kind(Kind::Test)
        .build()
        .expect("Unable to build Config");
    let common = Some(lines(&["a=1", "b=2"]));
    let file = Some(lines(&["b=3", "c=4"]));
    let env1 = vidar::load(&config, &Vec::new(), &common, &file).expect("load failed");
    let env2 = vidar::load(&config, &Vec::new(), &common, &file).expect("load failed");
    assert_eq!(env1.current(), env2.current());
    for key in ["a", "b", "c", "absent"] {
        assert_eq!(env1.props().get(key), env2.props().get(key));
    }
    assert_eq!(env1.props().get("b"), Some(&"3".to_string()));
}

#[test]
fn missing_common_file_fatal() {
    let config = ConfigBuilder::default()
        .app_name("behavior")
        .common(true)
        .build()
        .expect("Unable to build Config");
    match vidar::load(&config, &Vec::new(), &None, &Some(lines(&["k=v"]))) {
        Err(Error::IoFailure) => (),
        _ => assert!(false),
    }
}

#[test]
fn malformed_common_file_fatal() {
    let config = ConfigBuilder::default()
        .app_name("behavior")
        .common(true)
        .build()
        .expect("Unable to build Config");
    let common = Some(lines(&["no separator here"]));
    match vidar::load(&config, &Vec::new(), &common, &Some(lines(&["k=v"]))) {
        Err(Error::InvalidProperty) => (),
        _ => assert!(false),
    }
}

#[test]
fn empty_line_rejected() {
    let config = plain_config(Kind::Development);
    match vidar::load(&config, &Vec::new(), &None, &Some(lines(&["a=b", ""]))) {
        Err(Error::InvalidProperty) => (),
        _ => assert!(false),
    }
}

#[test]
fn multiple_separators_rejected() {
    let config = plain_config(Kind::Development);
    match vidar::load(&config, &Vec::new(), &None, &Some(lines(&["a=b=c"]))) {
        Err(Error::InvalidProperty) => (),
        _ => assert!(false),
    }
}

#[test]
fn empty_key_or_value_accepted() {
    let config = plain_config(Kind::Development);
    let env = vidar::load(&config, &Vec::new(), &None, &Some(lines(&["=x", "k="])))
        .expect("load failed");
    assert_eq!(env.props().get(""), Some(&"x".to_string()));
    assert_eq!(env.props().get("k"), Some(&"".to_string()));
}

#[test]
fn values_not_trimmed() {
    let config = plain_config(Kind::Development);
    let env = vidar::load(&config, &Vec::new(), &None, &Some(lines(&["k = v"])))
        .expect("load failed");
    assert_eq!(env.props().get("k "), Some(&" v".to_string()));
    assert!(!env.props().contains_key("k"));
}

#[test]
fn last_line_wins_within_file() {
    let config = plain_config(Kind::Development);
    let env = vidar::load(&config, &Vec::new(), &None, &Some(lines(&["k=1", "k=2"])))
        .expect("load failed");
    assert_eq!(env.props().get("k"), Some(&"2".to_string()));
}

#[test]
fn comments_disabled_by_default() {
    // Without comment handling, "#a=b" is an ordinary property line.
    let config = plain_config(Kind::Development);
    let env = vidar::load(&config, &Vec::new(), &None, &Some(lines(&["#a=b"])))
        .expect("load failed");
    assert_eq!(env.props().get("#a"), Some(&"b".to_string()));
}

#[test]
fn custom_comment_char() {
    let config = ConfigBuilder::default()
        .app_name("behavior")
        .comments(true)
        .comment_char(';')
        .build()
        .expect("Unable to build Config");
    let env = vidar::load(&config, &Vec::new(), &None, &Some(lines(&["; note", "k=v"])))
        .expect("load failed");
    assert_eq!(env.props().get("k"), Some(&"v".to_string()));
    assert!(!env.props().contains_key("; note"));

    // A line led by some other character is no comment and must parse.
    match vidar::load(&config, &Vec::new(), &None, &Some(lines(&["# note"]))) {
        Err(Error::InvalidProperty) => (),
        _ => assert!(false),
    }
}

#[test]
fn builder_defaults() {
    assert!(ConfigBuilder::default().build().is_none());
    let config = ConfigBuilder::default()
        .app_name("behavior")
        .build()
        .expect("Unable to build Config");
    assert_eq!(config.kind(), Kind::Development);
    assert_eq!(config.app_name(), &"behavior".to_string());
    assert!(!config.common());
    assert!(!config.comments());
    assert_eq!(config.comment_char(), '#');
    assert!(!config.os());
    assert_eq!(ConfigBuilder::default().default_kind(), Kind::Development);
}

#[test]
fn config_setters() {
    let mut config = plain_config(Kind::Development);
    config.set_kind(Kind::Staging);
    config.set_app_name("renamed".to_string());
    config.set_common(true);
    config.set_comments(true);
    config.set_comment_char('!');
    config.set_os(true);
    assert_eq!(config.kind(), Kind::Staging);
    assert_eq!(config.app_name(), &"renamed".to_string());
    assert!(config.common());
    assert!(config.comments());
    assert_eq!(config.comment_char(), '!');
    assert!(config.os());
}

#[test]
fn split_line_exact() {
    match vidar::split_line("a=b") {
        Some((k, v)) => {
            assert_eq!(k, "a".to_string());
            assert_eq!(v, "b".to_string());
        }
        None => assert!(false),
    }
    assert!(vidar::split_line("ab").is_none());
    assert!(vidar::split_line("").is_none());
    assert!(vidar::split_line("a=b=c").is_none());
}

#[test]
fn props_overwrite() {
    let mut props = Props::new();
    props.insert("k".to_string(), "1".to_string());
    props.insert("k".to_string(), "2".to_string());
    props.insert("other".to_string(), "x".to_string());
    assert_eq!(props.get("k"), Some(&"2".to_string()));
    assert_eq!(props.get("other"), Some(&"x".to_string()));
    assert!(!props.contains_key("missing"));
}

#[test]
fn parse_props_merges() {
    let mut props = Props::new();
    let first = lines(&["a=1", "b=2"]);
    let second = lines(&["b=3"]);
    assert!(vidar::parse_props(&first, false, '#', &mut props).is_ok());
    assert!(vidar::parse_props(&second, false, '#', &mut props).is_ok());
    assert_eq!(props.get("a"), Some(&"1".to_string()));
    assert_eq!(props.get("b"), Some(&"3".to_string()));
    let bad = lines(&["broken"]);
    match vidar::parse_props(&bad, false, '#', &mut props) {
        Err(Error::InvalidProperty) => (),
        _ => assert!(false),
    }
}

#[test]
fn str_eq_exact() {
    assert!(vidar::str_eq("", ""));
    assert!(vidar::str_eq("abc", "abc"));
    assert!(!vidar::str_eq("abc", "abd"));
    assert!(!vidar::str_eq("abc", "ab"));
}
