use imagine_jobs::config::{lookup_var, split_text, Config, ConfigError};

fn vars(pairs: Vec<(&str, &str)>) -> Vec<(String, String)> {
    pairs.into_iter().map(|(k, v)| (k.to_string(), v.to_string())).collect()
}

fn full() -> Vec<(&'static str, &'static str)> {
    vec![
        ("PATH", "/usr/bin"),
        ("SERVER_ADDR", "0.0.0.0:9000"),
        ("LOG_LEVEL", "debug"),
        ("IMG_TEMP_PATH", "/var/img"),
        ("IMG_TMP_POINT", "http://files.example/file"),
        ("SD3_BASE_SERVER", "10.0.0.5:8188"),
        ("SD3_CLIENT_ID", "client-42"),
        ("SD3_MODEL_FILE_NAME", "sd3.safetensors"),
        ("SD3_CLIP_NAME1", "clip_g"),
        ("SD3_CLIP_NAME2", "clip_l"),
        ("SD3_CLIP_NAME3", "t5xxl"),
        ("WF_JSON_PATH", "wf.json"),
        ("SOLANA_POINTS", "https://a.example,https://b.example"),
    ]
}

fn without(name: &str) -> Vec<(String, String)> {
    vars(full().into_iter().filter(|(k, _)| *k != name).collect())
}

#[test]
fn configuration_holds_what_the_variables_say() {
    let config = Config::from_env(&vars(full())).unwrap();
    assert_eq!(
        config,
        Config {
            server_addr: "0.0.0.0:9000".to_string(),
            log_level: "debug".to_string(),
            sd3_model_file_name: "sd3.safetensors".to_string(),
            sd3_clip_name1: "clip_g".to_string(),
            sd3_clip_name2: "clip_l".to_string(),
            sd3_clip_name3: "t5xxl".to_string(),
            sd3_base_server: "10.0.0.5:8188".to_string(),
            sd3_client_id: "client-42".to_string(),
            img_tmp_point: "http://files.example/file".to_string(),
            img_tmp_path: "/var/img".to_string(),
            wf_json_path: "wf.json".to_string(),
            solana_points: vec!["https://a.example".to_string(), "https://b.example".to_string()],
        }
    );
}

#[test]
fn configuration_has_defaults_for_address_and_level() {
    let mut pairs = without("SERVER_ADDR");
    pairs.retain(|(k, _)| k != "LOG_LEVEL");
    let config = Config::from_env(&pairs).unwrap();
    assert_eq!(config.server_addr, "127.0.0.1:8080");
    assert_eq!(config.log_level, "INFO");
}

#[test]
fn configuration_makes_up_a_client_id_that_is_not_set() {
    let first = Config::from_env(&without("SD3_CLIENT_ID")).unwrap();
    let second = Config::from_env(&without("SD3_CLIENT_ID")).unwrap();
    assert_eq!(first.sd3_client_id.chars().count(), 36);
    assert_eq!(first.sd3_client_id.chars().filter(|c| *c == '-').count(), 4);
    assert_ne!(first.sd3_client_id, second.sd3_client_id);
    assert_eq!(first.img_tmp_path, "/var/img");
}

#[test]
fn configuration_names_the_missing_variable() {
    for name in vec![
        "IMG_TEMP_PATH",
        "IMG_TMP_POINT",
        "SD3_BASE_SERVER",
        "SD3_MODEL_FILE_NAME",
        "SD3_CLIP_NAME1",
        "SD3_CLIP_NAME2",
        "SD3_CLIP_NAME3",
        "WF_JSON_PATH",
        "SOLANA_POINTS",
    ] {
        assert_eq!(Config::from_env(&without(name)), Err(ConfigError::MissingEnvVar(name)), "{}", name);
    }
}

#[test]
fn configuration_names_the_first_missing_variable() {
    let mut pairs = without("WF_JSON_PATH");
    pairs.retain(|(k, _)| k != "SD3_BASE_SERVER");
    assert_eq!(Config::from_env(&pairs), Err(ConfigError::MissingEnvVar("SD3_BASE_SERVER")));
    assert_eq!(Config::from_env(&Vec::new()), Err(ConfigError::MissingEnvVar("IMG_TEMP_PATH")));
}

#[test]
fn configuration_error_says_which_variable() {
    assert_eq!(
        ConfigError::MissingEnvVar("WF_JSON_PATH").message(),
        "Missing environment variable: WF_JSON_PATH"
    );
}

#[test]
fn variables_are_found_by_exact_name() {
    let pairs = vars(vec![("A", "1"), ("B", "2"), ("A", "3"), ("", "4")]);
    assert_eq!(lookup_var(&pairs, "A"), Some("1"));
    assert_eq!(lookup_var(&pairs, "B"), Some("2"));
    assert_eq!(lookup_var(&pairs, ""), Some("4"));
    assert_eq!(lookup_var(&pairs, "a"), None);
    assert_eq!(lookup_var(&pairs, "C"), None);
}

#[test]
fn split_text_agrees_with_std() {
    for s in vec!["", ",", "a", "a,b", "a,,b", ",a,", "https://a.example,https://b.example", "日本,語", ",,,"] {
        let expected: Vec<String> = s.split(",").map(|p| p.to_string()).collect();
        assert_eq!(split_text(s, ','), expected, "{:?}", s);
    }
    assert_eq!(split_text("a,b", ','), vec!["a".to_string(), "b".to_string()]);
    assert_eq!(split_text("", ','), vec![String::new()]);
    assert_eq!(split_text("a;b,c", ';'), vec!["a".to_string(), "b,c".to_string()]);
}

#[test]
fn default_configuration_is_empty() {
    let config = Config::default();
    assert_eq!(config.server_addr, "");
    assert_eq!(config.log_level, "");
    assert_eq!(config.sd3_client_id, "");
    assert_eq!(config.solana_points, Vec::<String>::new());
}

#[test]
fn configuration_clone_is_equal() {
    let config = Config::from_env(&vars(full())).unwrap();
    assert_eq!(config.clone(), config);
    assert_eq!(Config::default().clone(), Config::default());
}
