use msym::config::raw_config::RawConfig;
use msym::config::symbol_grade::SymbolGrade;
use msym::config::symbol_name::SymbolName;
use msym::config::symbol_optical_size::SymbolOpticalSize;
use msym::config::symbol_style::SymbolStyle;
use msym::config::symbol_weight::SymbolWeight;
use msym::config::{Config, ConfigError};
use msym::download::render_download;
use msym::executor::{needs_download, summarize, ExecutionResult, TaskOutcome};
use msym::kotlin::{add_import, last_segment, set_package, TransformConfig};
use msym::settings;
use msym::task::build_tasks;
use msym::util::{capitalize, icon_to_filename};

fn raw(icons: &[&str]) -> RawConfig {
    RawConfig {
        style: None,
        fill: None,
        weight: None,
        grade: None,
        optical_size: None,
        icons: icons.iter().map(|s| s.to_string()).collect(),
        compose_package: "com.example.icons".to_string(),
        compose_output_dir: None,
        compose_upper_camel_fields: None,
        compose_extension_class: None,
    }
}

fn flat(icons: &[&str]) -> settings::Config {
    settings::Config {
        style: None,
        fill: None,
        weight: None,
        grade: None,
        optical_size: None,
        icons: icons.iter().map(|s| s.to_string()).collect(),
        compose_package: "com.example.icons".to_string(),
        compose_output_dir: None,
    }
}

// ----- kotlin rewriting -----

#[test]
fn set_package_inserts_when_missing() {
    let out = set_package("public val home: ImageVector", "com.example");
    assert_eq!(out, "package com.example\npublic val home: ImageVector");
}

#[test]
fn set_package_replaces_first_declaration_and_ends_with_newline() {
    let out = set_package("// c\n  package old.pkg\nval x = 1", "new.pkg");
    assert_eq!(out, "// c\npackage new.pkg\nval x = 1\n");
}

#[test]
fn set_package_handles_crlf_lines() {
    let out = set_package("package a\r\nval x = 1\r\n", "b");
    assert_eq!(out, "package b\nval x = 1\n");
}

#[test]
fn add_import_without_package_goes_first() {
    let out = add_import("val x = 1", "a.B");
    assert_eq!(out, "import a.B\nval x = 1\n");
}

#[test]
fn add_import_twice_is_same_as_once() {
    for src in [
        "package p\n\nimport x.Y\n\nval v = 1",
        "package p\n\nval v = 1",
        "val v = 1",
        "",
        "import a.B\n\nimport c.D\nval v = 1",
    ] {
        let once = add_import(src, "q.R");
        let twice = add_import(&once, "q.R");
        assert_eq!(once, twice);
    }
}

#[test]
fn add_import_skips_import_outside_first_block() {
    let src = "import a\nx\nimport b\n";
    assert_eq!(add_import(src, "b"), src);
    let src = "import a\n// note\n  import b\nval v = 1";
    assert_eq!(add_import(src, "b"), src);
}

#[test]
fn add_import_block_spans_blank_lines() {
    let src = "import a.B\n\nimport c.D\nval v = 1";
    let out = add_import(src, "e.F");
    assert_eq!(out, "import a.B\n\nimport c.D\nimport e.F\nval v = 1\n");
}

#[test]
fn set_package_then_first_package_line_is_the_new_one() {
    let out = set_package("import a.B\nval v = 1", "x.y");
    assert_eq!(out.lines().find(|l| l.trim_start().starts_with("package ")), Some("package x.y"));
}

#[test]
fn set_package_twice_is_same_as_once() {
    for src in ["package a\nval v = 1", "val v = 1\n", "", "import x.Y\n\nval v = 1\n"] {
        let once = set_package(src, "p.q");
        assert_eq!(set_package(&once, "p.q"), once);
    }
}

#[test]
fn replacing_by_itself_changes_nothing() {
    let src = "public val home: ImageVector\nprivate var _home = home";
    assert_eq!(msym::kotlin::rename_field_upper_camel(src, "Home"), src);
}

#[test]
fn urls_differ_by_name_only() {
    let cfg = Config::from_raw(raw(&["home", "add"])).unwrap();
    let tasks = build_tasks(&cfg);
    assert_ne!(tasks[0].url, tasks[1].url);
    assert_eq!(tasks[0].url.replace("home", "add"), tasks[1].url);
}

#[test]
fn last_segment_of_class() {
    assert_eq!(last_segment("com.example.icons.Symbols.Rounded"), "Rounded");
    assert_eq!(last_segment("Symbols"), "Symbols");
    assert_eq!(last_segment("a."), "");
}

#[test]
fn rename_leaves_text_without_the_identifier() {
    let src = "val homeless = 1\nval _homepage = 2";
    assert_eq!(msym::kotlin::rename_field_upper_camel(src, "home"), src);
}

#[test]
fn extension_class_without_marker_is_unchanged() {
    let src = "private val home: ImageVector";
    assert_eq!(msym::kotlin::set_extension_class(src, "Rounded"), src);
}

#[test]
fn render_download_decodes_and_transforms() {
    let cfg = TransformConfig {
        package: "p".to_string(),
        field_name: "home".to_string(),
        upper_camel_fields: false,
        extension_class: None,
    };
    let out = render_download(b"package q\npublic val home: ImageVector", &cfg);
    assert_eq!(out, "package p\npublic val home: ImageVector\n");
    let bad = render_download(&[0x70, 0xff], &cfg);
    assert_eq!(bad, "package p\np\u{FFFD}");
}

// ----- names -----

#[test]
fn symbol_name_cases() {
    let n = SymbolName::new("arrow-back".to_string());
    assert_eq!(n.to_url_name(), "arrow_back");
    assert_eq!(n.to_filename(), "ArrowBack");
    assert_eq!(n.as_str(), "arrow-back");
}

#[test]
fn capitalize_examples() {
    assert_eq!(capitalize("home"), "Home");
    assert_eq!(capitalize(""), "");
    assert_eq!(capitalize("ßa"), "SSa");
}

#[test]
fn icon_to_filename_examples() {
    assert_eq!(icon_to_filename("arrow-forward"), "ArrowForward");
    assert_eq!(icon_to_filename("arrow_back_ios"), "ArrowBackIos");
    assert_eq!(icon_to_filename("home"), "Home");
    assert_eq!(icon_to_filename("a--b"), "AB");
    assert_eq!(icon_to_filename(""), "");
    for icon in ["arrow-forward", "a_b-c", "-x_", "home"] {
        let out = icon_to_filename(icon);
        assert!(!out.contains('-') && !out.contains('_'));
        assert_eq!(out.len(), icon.len() - icon.matches(|c| c == '-' || c == '_').count());
    }
}

// ----- enumerated settings -----

#[test]
fn enum_values_and_text() {
    assert_eq!(SymbolWeight::try_from_value(400), Some(SymbolWeight::W400));
    assert_eq!(SymbolWeight::try_from_value(450), None);
    assert_eq!(SymbolWeight::W700.value(), 700);
    assert_eq!(SymbolGrade::try_from_value(-25), Some(SymbolGrade::Low));
    assert_eq!(SymbolGrade::Low.to_text(), "-25");
    assert_eq!(SymbolWeight::W300.to_text(), "300");
    assert_eq!(SymbolOpticalSize::Dp48.to_text(), "48");
    assert_eq!(SymbolOpticalSize::try_from_value(48), Some(SymbolOpticalSize::Dp48));
    assert_eq!(SymbolOpticalSize::Dp20.value(), 20);
    assert_eq!(SymbolStyle::parse_name("sHaRp"), Some(SymbolStyle::Sharp));
    assert_eq!(SymbolStyle::parse_name("Sharpe"), None);
    assert_eq!(SymbolStyle::Outlined.name(), "Outlined");
}

// ----- validated configuration -----

#[test]
fn from_raw_defaults() {
    let cfg = Config::from_raw(raw(&["home", "  ", "add"])).unwrap();
    assert_eq!(cfg.style, SymbolStyle::Rounded);
    assert!(!cfg.fill);
    assert_eq!(cfg.weight, SymbolWeight::W400);
    assert_eq!(cfg.grade, SymbolGrade::Normal);
    assert_eq!(cfg.optical_size, SymbolOpticalSize::Dp24);
    let names: Vec<&str> = cfg.symbol_names.iter().map(|n| n.as_str()).collect();
    assert_eq!(names, vec!["home", "add"]);
    assert_eq!(cfg.compose_output_dir, ".");
    assert!(!cfg.compose_upper_camel_fields);
    assert_eq!(cfg.compose_extension_class, None);
}

#[test]
fn from_raw_errors() {
    let mut r = raw(&["home"]);
    r.style = Some("Bold".to_string());
    assert_eq!(Config::from_raw(r).err(), Some(ConfigError::InvalidStyle("Bold".to_string())));
    let mut r = raw(&["home"]);
    r.weight = Some(450);
    assert_eq!(Config::from_raw(r).err(), Some(ConfigError::InvalidWeight(450)));
    let mut r = raw(&["home"]);
    r.grade = Some(100);
    assert_eq!(Config::from_raw(r).err(), Some(ConfigError::InvalidGrade(100)));
    let mut r = raw(&["home"]);
    r.optical_size = Some(32);
    assert_eq!(Config::from_raw(r).err(), Some(ConfigError::InvalidOpticalSize(32)));
    assert_eq!(Config::from_raw(raw(&["", " \t"])).err(), Some(ConfigError::EmptyIconNames));
    let mut r = raw(&[]);
    r.weight = Some(1);
    assert_eq!(Config::from_raw(r).err(), Some(ConfigError::InvalidWeight(1)));
}

#[test]
fn from_raw_keeps_settings() {
    let mut r = raw(&["home"]);
    r.style = Some("outlined".to_string());
    r.fill = Some(true);
    r.weight = Some(700);
    r.grade = Some(200);
    r.optical_size = Some(48);
    r.compose_output_dir = Some("out".to_string());
    r.compose_upper_camel_fields = Some(true);
    r.compose_extension_class = Some("a.B".to_string());
    let cfg = Config::from_raw(r).unwrap();
    assert_eq!(cfg.style, SymbolStyle::Outlined);
    assert!(cfg.fill);
    assert_eq!(cfg.weight, SymbolWeight::W700);
    assert_eq!(cfg.grade, SymbolGrade::High);
    assert_eq!(cfg.optical_size, SymbolOpticalSize::Dp48);
    assert_eq!(cfg.compose_output_dir, "out");
    assert!(cfg.compose_upper_camel_fields);
    assert_eq!(cfg.compose_extension_class, Some("a.B".to_string()));
    let mut r = raw(&["home"]);
    r.compose_output_dir = Some(String::new());
    assert_eq!(Config::from_raw(r).unwrap().compose_output_dir, ".");
}

#[test]
fn resolve_defaults_and_errors() {
    let rc = flat(&["home"]).resolve().unwrap();
    assert_eq!(rc.style, "rounded");
    assert_eq!((rc.weight, rc.grade, rc.optical_size, rc.fill), (400, 0, 24, false));
    assert_eq!(rc.compose_output_dir, ".");
    let mut c = flat(&["home"]);
    c.style = Some("SHARP".to_string());
    assert_eq!(c.resolve().unwrap().style, "SHARP");
    let mut c = flat(&["home"]);
    c.style = Some("bold".to_string());
    assert!(matches!(c.resolve(), Err(ConfigError::InvalidStyle(s)) if s == "bold"));
    let mut c = flat(&["home"]);
    c.weight = Some(250);
    assert!(matches!(c.resolve(), Err(ConfigError::InvalidWeight(250))));
    let mut c = flat(&["home"]);
    c.grade = Some(1);
    assert!(matches!(c.resolve(), Err(ConfigError::InvalidGrade(1))));
    let mut c = flat(&["home"]);
    c.optical_size = Some(30);
    assert!(matches!(c.resolve(), Err(ConfigError::InvalidOpticalSize(30))));
    assert!(matches!(flat(&[]).resolve(), Err(ConfigError::NoIcons)));
}

#[test]
fn is_known_style_examples() {
    assert!(settings::is_known_style("outlined"));
    assert!(!settings::is_known_style("Outlined"));
    assert!(!settings::is_known_style("round"));
}

// ----- tasks -----

#[test]
fn build_tasks_one_per_name() {
    let mut r = raw(&["arrow-back", "home"]);
    r.style = Some("sharp".to_string());
    r.fill = Some(true);
    r.weight = Some(300);
    r.grade = Some(-25);
    r.optical_size = Some(20);
    r.compose_output_dir = Some("out/icons".to_string());
    r.compose_extension_class = Some("a.B".to_string());
    let cfg = Config::from_raw(r).unwrap();
    let tasks = build_tasks(&cfg);
    assert_eq!(tasks.len(), 2);
    assert_eq!(tasks[0].symbol_name.as_str(), "arrow-back");
    assert_eq!(
        tasks[0].url,
        "https://fonts.gstatic.com/render/v1/Material+Symbols+Sharp/20dp/arrow_back.kt?var=opsz,wght,FILL,GRAD,ROND@20,300,1,-25,50"
    );
    assert_eq!(tasks[0].output_path, "out/icons/ArrowBack.kt");
    assert_eq!(tasks[0].transform.field_name, "arrow_back");
    assert_eq!(tasks[0].transform.package, "com.example.icons");
    assert_eq!(tasks[0].transform.extension_class, Some("a.B".to_string()));
    assert_eq!(tasks[1].output_path, "out/icons/Home.kt");
}

#[test]
fn build_tasks_default_url_and_path() {
    let cfg = Config::from_raw(raw(&["home"])).unwrap();
    let tasks = build_tasks(&cfg);
    assert_eq!(
        tasks[0].url,
        "https://fonts.gstatic.com/render/v1/Material+Symbols+Rounded/24dp/home.kt?var=opsz,wght,FILL,GRAD,ROND@24,400,0,0,50"
    );
    assert_eq!(tasks[0].output_path, "./Home.kt");
    let mut r = raw(&["home"]);
    r.compose_output_dir = Some("dir/".to_string());
    let tasks = build_tasks(&Config::from_raw(r).unwrap());
    assert_eq!(tasks[0].output_path, "dir/Home.kt");
}

// ----- execution bookkeeping -----

#[test]
fn needs_download_rule() {
    assert!(needs_download(false, false));
    assert!(!needs_download(false, true));
    assert!(needs_download(true, true));
    assert!(needs_download(true, false));
}

#[test]
fn summarize_counts_every_job() {
    let outcomes = vec![
        TaskOutcome::Downloaded,
        TaskOutcome::Failed(SymbolName::new("a".to_string()), "e1"),
        TaskOutcome::Panicked,
        TaskOutcome::Downloaded,
        TaskOutcome::Failed(SymbolName::new("b".to_string()), "e2"),
    ];
    let exist = [true, false, false, true, false, false, true, false];
    let r = summarize(false, &exist, outcomes);
    assert_eq!(r.downloaded, 2);
    assert_eq!(r.skipped, 3);
    let errs: Vec<(&str, &str)> = r.errors.iter().map(|(n, e)| (n.as_str(), *e)).collect();
    assert_eq!(errs, vec![("a", "e1"), ("b", "e2")]);
    assert_eq!(r.skipped as usize + r.downloaded as usize + r.errors.len() + 1, exist.len());
    let forced: ExecutionResult<&str> = summarize(true, &exist, Vec::new());
    assert_eq!(forced.skipped, 0);
}

#[test]
fn config_error_messages() {
    assert_eq!(
        ConfigError::InvalidStyle("bold".to_string()).message(),
        "Invalid style: 'bold', must be one of Outlined, Rounded, Sharp"
    );
    assert_eq!(
        ConfigError::InvalidWeight(450).message(),
        "Invalid weight: '450', must be one of 100, 200, 300, 400, 500, 600, 700"
    );
    assert_eq!(
        ConfigError::InvalidGrade(-7).message(),
        "Invalid grade: '-7', must be one of -25, 0, 200"
    );
    assert_eq!(
        ConfigError::InvalidOpticalSize(0).message(),
        "Invalid optical_size: '0', must be one of 20, 24, 40, 48"
    );
    assert_eq!(ConfigError::EmptyIconNames.message(), "Empty icon names");
    assert_eq!(ConfigError::NoIcons.message(), "No icons specified in config");
}

#[test]
fn settings_error_messages() {
    let mut c = flat(&[]);
    c.style = Some("bold".to_string());
    c.weight = Some(450);
    c.grade = Some(7);
    assert_eq!(
        c.resolve().err().unwrap().settings_message(),
        "Invalid style 'bold': must be one of Outlined, Rounded, Sharp"
    );
    let mut c = flat(&[]);
    c.weight = Some(700);
    c.grade = Some(-25);
    c.optical_size = Some(48);
    assert_eq!(c.resolve().err().unwrap().settings_message(), "No icons specified in config");
    assert_eq!(
        ConfigError::InvalidWeight(4294967295).settings_message(),
        "Invalid weight '4294967295': must be one of 100, 200, 300, 400, 500, 600, 700"
    );
    assert_eq!(
        ConfigError::InvalidGrade(i32::MIN).settings_message(),
        "Invalid grade '-2147483648': must be one of -25, 0, 200"
    );
    assert_eq!(
        ConfigError::InvalidOpticalSize(30).settings_message(),
        "Invalid optical_size '30': must be one of 20, 24, 40, 48"
    );
}

#[test]
fn ascii_capitalize_examples() {
    assert_eq!(capitalize("Home"), "Home");
    assert_eq!(capitalize("hOME"), "HOME");
    assert_eq!(capitalize("1st"), "1st");
    assert_eq!(icon_to_filename("add"), "Add");
    assert_eq!(icon_to_filename("arrow_back"), "ArrowBack");
}
