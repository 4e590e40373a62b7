use declutter::config::{
    config_default_blacklist, config_default_whitelist, declutter_banner, declutter_cfg_messages,
    declutter_cfg_summary, Config, BANNER,
};

#[test]
fn default_allow_list_is_empty() {
    assert_eq!(config_default_whitelist(), Vec::<String>::new());
}

#[test]
fn default_deny_list_holds_the_asset_extensions() {
    let expected = vec![
        "jpg", "jpeg", "png", "svg", "ico", "gif", "webp", "bmp", "css", "scss", "tif", "tiff",
        "ttf", "otf", "woff", "woff2", "eot", "pdf", "mp3", "mp4", "avi",
    ];
    assert_eq!(config_default_blacklist(), expected);
    assert_eq!(config_default_blacklist().len(), 21);
}

#[test]
fn default_config() {
    let cfg = Config::default();
    assert!(cfg.allow_extensions.is_empty());
    assert_eq!(cfg.deny_extensions, config_default_blacklist());
    assert!(!cfg.allow_duplicates);
    assert!(!cfg.quiet);
}

#[test]
fn banner_has_six_rows() {
    let banner = declutter_banner();
    assert_eq!(banner, BANNER);
    assert_eq!(banner.lines().count(), 6);
    assert!(!banner.ends_with('\n'));
    assert!(!banner.starts_with(char::is_whitespace));
}

#[test]
fn quiet_config_has_no_summary() {
    let cfg = Config { quiet: true, ..Config::default() };
    assert_eq!(declutter_cfg_summary(&cfg), Vec::<String>::new());
}

#[test]
fn summary_of_the_default_config() {
    let summary = declutter_cfg_summary(&Config::default());
    assert_eq!(summary.len(), 4);
    assert_eq!(summary[0], declutter_banner());
    assert_eq!(summary[1], "declutter: allow all extensions");
    assert_eq!(
        summary[2],
        "declutter: denies extensions : [\"jpg\", \"jpeg\", \"png\", \"svg\", \"ico\", \"gif\", \
         \"webp\", \"bmp\", \"css\", \"scss\", \"tif\", \"tiff\", \"ttf\", \"otf\", \"woff\", \
         \"woff2\", \"eot\", \"pdf\", \"mp3\", \"mp4\", \"avi\"]"
    );
    assert_eq!(summary[3], "declutter: deny duplicates");
}

#[test]
fn summary_of_a_config_with_lists_swapped() {
    let cfg = Config {
        allow_extensions: vec!["png".to_string(), "a\"b".to_string()],
        deny_extensions: Vec::new(),
        allow_duplicates: true,
        quiet: false,
    };
    let summary = declutter_cfg_summary(&cfg);
    assert_eq!(summary.len(), 4);
    assert_eq!(summary[1], "declutter: allowed extensions : [\"png\", \"a\\\"b\"]");
    assert_eq!(summary[2], "declutter: denies no extensions");
    assert_eq!(summary[3], "declutter: allow duplicates");
}

#[test]
fn messages_show_the_lists_as_given() {
    let cfg = Config {
        allow_extensions: vec!["png".to_string()],
        deny_extensions: vec!["css".to_string()],
        allow_duplicates: false,
        quiet: false,
    };
    let messages = declutter_cfg_messages(&cfg, "<allowed>", "<denied>");
    assert_eq!(
        messages,
        vec![
            BANNER.to_string(),
            "declutter: allowed extensions : <allowed>".to_string(),
            "declutter: denies extensions : <denied>".to_string(),
            "declutter: deny duplicates".to_string(),
        ]
    );
}

#[test]
fn messages_do_not_show_empty_lists() {
    let cfg = Config {
        allow_extensions: Vec::new(),
        deny_extensions: Vec::new(),
        allow_duplicates: true,
        quiet: false,
    };
    let messages = declutter_cfg_messages(&cfg, "<allowed>", "<denied>");
    assert_eq!(
        messages,
        vec![
            BANNER.to_string(),
            "declutter: allow all extensions".to_string(),
            "declutter: denies no extensions".to_string(),
            "declutter: allow duplicates".to_string(),
        ]
    );
    let quiet = Config { quiet: true, ..cfg };
    assert_eq!(declutter_cfg_messages(&quiet, "<allowed>", "<denied>"), Vec::<String>::new());
}
