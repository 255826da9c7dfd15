use jenkinsfile_ls::config::{config_to_toml, parse_config_toml, Config};
use jenkinsfile_ls::types::LspError;

#[test]
fn test_validate_valid_config() {
    let config = Config {
        jenkins_url: "https://jenkins.example.com".to_string(),
        username: "user".to_string(),
        api_token: "token123".to_string(),
        insecure: false,
    };
    assert!(config.validate().is_ok());
}

#[test]
fn test_validate_invalid_url() {
    let config = Config {
        jenkins_url: "not-a-url".to_string(),
        username: "user".to_string(),
        api_token: "token123".to_string(),
        insecure: false,
    };
    assert!(config.validate().is_err());
}

#[test]
fn test_validate_empty_fields() {
    let config = Config {
        jenkins_url: "https://jenkins.example.com".to_string(),
        username: "".to_string(),
        api_token: "token123".to_string(),
        insecure: false,
    };
    assert!(config.validate().is_err());
}

#[test]
fn test_validate_minimal_valid_config() {
    let config = Config {
        jenkins_url: "https://x".to_string(),
        username: "user".to_string(),
        api_token: "t".to_string(),
        insecure: false,
    };
    assert!(config.validate().is_ok());
}

#[test]
fn test_validate_http_scheme_accepted() {
    let config = Config {
        jenkins_url: "http://jenkins.internal".to_string(),
        username: "user".to_string(),
        api_token: "t".to_string(),
        insecure: false,
    };
    assert!(config.validate().is_ok());
}

#[test]
fn test_validate_error_messages() {
    let empty_url = Config {
        jenkins_url: "".to_string(),
        username: "user".to_string(),
        api_token: "t".to_string(),
        insecure: false,
    };
    match empty_url.validate() {
        Err(LspError::Config(m)) => assert_eq!(m, "jenkins_url cannot be empty"),
        other => panic!("unexpected result: {:?}", other),
    }
    let empty_token = Config {
        jenkins_url: "https://x".to_string(),
        username: "user".to_string(),
        api_token: "".to_string(),
        insecure: false,
    };
    match empty_token.validate() {
        Err(LspError::Config(m)) => assert_eq!(m, "api_token cannot be empty"),
        other => panic!("unexpected result: {:?}", other),
    }
    let bad_scheme = Config {
        jenkins_url: "ftp://jenkins".to_string(),
        username: "user".to_string(),
        api_token: "t".to_string(),
        insecure: false,
    };
    match bad_scheme.validate() {
        Err(LspError::Config(m)) => {
            assert_eq!(m, "jenkins_url must start with http:// or https://")
        }
        other => panic!("unexpected result: {:?}", other),
    }
}

#[test]
fn test_from_env_parts_all_present() {
    let config = Config::from_env_parts(
        Some("https://jenkins.example.com".to_string()),
        None,
        Some("user".to_string()),
        None,
        Some("token123".to_string()),
        None,
        None,
        None,
    )
    .unwrap();
    assert_eq!(config.jenkins_url, "https://jenkins.example.com");
    assert_eq!(config.username, "user");
    assert_eq!(config.api_token, "token123");
    assert!(!config.insecure);
}

#[test]
fn test_from_env_parts_fallback_variables() {
    let config = Config::from_env_parts(
        None,
        Some("https://host".to_string()),
        None,
        Some("alt-user".to_string()),
        None,
        None,
        Some("secret".to_string()),
        Some("1".to_string()),
    )
    .unwrap();
    assert_eq!(config.jenkins_url, "https://host");
    assert_eq!(config.username, "alt-user");
    assert_eq!(config.api_token, "secret");
    assert!(config.insecure);
}

#[test]
fn test_from_env_parts_primary_wins() {
    let config = Config::from_env_parts(
        Some("https://primary".to_string()),
        Some("https://secondary".to_string()),
        Some("user".to_string()),
        None,
        Some("token".to_string()),
        Some("other".to_string()),
        None,
        None,
    )
    .unwrap();
    assert_eq!(config.jenkins_url, "https://primary");
    assert_eq!(config.api_token, "token");
}

#[test]
fn test_from_env_parts_missing_required() {
    let r = Config::from_env_parts(
        Some("https://x".to_string()),
        None,
        Some("user".to_string()),
        None,
        None,
        None,
        None,
        None,
    );
    assert!(r.is_none());
}

#[test]
fn test_from_env_parts_insecure_truthiness() {
    let base = |flag: Option<String>| {
        Config::from_env_parts(
            Some("https://x".to_string()),
            None,
            Some("u".to_string()),
            None,
            Some("t".to_string()),
            None,
            None,
            flag,
        )
        .unwrap()
    };
    assert!(base(Some("1".to_string())).insecure);
    assert!(base(Some("true".to_string())).insecure);
    assert!(base(Some("TRUE".to_string())).insecure);
    assert!(base(Some("True".to_string())).insecure);
    assert!(!base(Some("0".to_string())).insecure);
    assert!(!base(Some("yes".to_string())).insecure);
    assert!(!base(None).insecure);
}

#[test]
fn test_parse_config_toml_valid() {
    let text = "jenkins_url = \"https://jenkins.example.com\"\nusername = \"user\"\napi_token = \"token123\"\ninsecure = true\n";
    let config = parse_config_toml(text).unwrap();
    assert_eq!(config.jenkins_url, "https://jenkins.example.com");
    assert_eq!(config.username, "user");
    assert_eq!(config.api_token, "token123");
    assert!(config.insecure);
}

#[test]
fn test_parse_config_toml_insecure_defaults_false() {
    let text = "jenkins_url = \"https://x\"\nusername = \"u\"\napi_token = \"t\"\n";
    let config = parse_config_toml(text).unwrap();
    assert!(!config.insecure);
}

#[test]
fn test_parse_config_toml_missing_key() {
    let text = "jenkins_url = \"https://x\"\nusername = \"u\"\n";
    match parse_config_toml(text) {
        Err(LspError::TomlDe(_)) => {}
        other => panic!("unexpected result: {:?}", other),
    }
}

#[test]
fn test_parse_config_toml_not_toml() {
    match parse_config_toml("{ this is not toml") {
        Err(LspError::TomlDe(_)) => {}
        other => panic!("unexpected result: {:?}", other),
    }
}

#[test]
fn test_parse_config_toml_invalid_scheme() {
    let text = "jenkins_url = \"jenkins.example.com\"\nusername = \"u\"\napi_token = \"t\"\n";
    match parse_config_toml(text) {
        Err(LspError::Config(m)) => {
            assert_eq!(m, "jenkins_url must start with http:// or https://")
        }
        other => panic!("unexpected result: {:?}", other),
    }
}

#[test]
fn test_config_toml_round_trip() {
    let config = Config {
        jenkins_url: "https://jenkins.example.com".to_string(),
        username: "user".to_string(),
        api_token: "token123".to_string(),
        insecure: true,
    };
    let text = config_to_toml(&config);
    assert_ne!(text, config.jenkins_url);
    let reloaded = parse_config_toml(&text).unwrap();
    assert_eq!(reloaded, config);
}
