use csd::config::PluginSource;
use csd::config::Config;
use csd::manager::{
    plugin_stats, resolve_plugin_path, validation_result, ManagerError, PluginInfo,
    PluginManager, ValidationResult,
};

fn plugin(kind: &str, enabled: bool, source: PluginSource) -> PluginInfo {
    PluginInfo {
        name: "p".to_string(),
        path: "plugins/p.py".to_string(),
        plugin_type: kind.to_string(),
        extensions: vec![],
        filenames: vec![],
        output_types: vec![],
        formats: vec![],
        source,
        enabled,
    }
}

#[test]
fn validation_result_flags() {
    let mut r = ValidationResult::default();
    assert!(r.is_valid());
    assert!(!r.has_issues());
    r.valid_plugins.push("input:python".to_string());
    assert!(r.is_valid());
    r.invalid_plugins.push("input:rust (path: x)".to_string());
    assert!(!r.is_valid());
    assert!(r.has_issues());
}

#[test]
fn stats_count_roles_states_and_sources() {
    let plugins = vec![
        plugin("input", true, PluginSource::Builtin {
            name: "python_analyzer".to_string(),
            plugin_type: "code".to_string(),
        }),
        plugin("input", false, PluginSource::Local { path: "x.py".to_string() }),
        plugin("output", true, PluginSource::GitHub { repo: "o/r".to_string(), version: None }),
        plugin("output", true, PluginSource::Git { url: "u".to_string(), branch: None }),
    ];
    let s = plugin_stats(&plugins);
    assert_eq!(s.total_plugins, 4);
    assert_eq!(s.enabled_plugins, 3);
    assert_eq!(s.input_plugins, 2);
    assert_eq!(s.output_plugins, 2);
    assert_eq!(s.enabled_input, 1);
    assert_eq!(s.enabled_output, 2);
    assert_eq!(s.builtin_plugins, 1);
    assert_eq!(s.local_plugins, 1);
    assert_eq!(s.remote_plugins, 2);
}

#[test]
fn manager_discovers_and_matches_plugins() {

    let mut m = PluginManager::new(Config::default());
    let all = m.discover_plugins();
    let names: Vec<_> = all.iter().map(|p| (p.name.clone(), p.plugin_type.clone())).collect();
    assert_eq!(
        names,
        vec![
            ("python".to_string(), "input".to_string()),
            ("rust".to_string(), "input".to_string()),
            ("markdown_docs".to_string(), "output".to_string()),
        ]
    );
    assert_eq!(all[0].path, "plugins/input/python_analyzer_analyzer.py");
    assert_eq!(all[2].path, "plugins/output/markdown_docs.py");

    let for_file = m.find_input_plugins_for_file("src/CARGO.TOML");
    assert_eq!(for_file.len(), 1);
    assert_eq!(for_file[0].name, "rust");
    assert_eq!(m.find_output_plugins_for_generation("documentation", "markdown").len(), 1);
    assert!(m.find_output_plugins_for_generation("documentation", "pdf").is_empty());

    assert!(m.is_plugin_enabled("rust", "input"));
    assert!(!m.is_plugin_enabled("rust", "output"));
    assert_eq!(m.set_plugin_enabled("rust", "input", false), Ok(()));
    assert!(!m.is_plugin_enabled("rust", "input"));
    assert_eq!(m.get_plugin_stats().total_plugins, 2);
    assert!(matches!(
        m.set_plugin_enabled("nope", "input", true),
        Err(ManagerError::NotFound { .. })
    ));
    assert_eq!(m.remove_plugin("rust", "input"), Ok(true));
    assert_eq!(m.remove_plugin("rust", "input"), Ok(false));
    assert!(matches!(
        m.remove_plugin("rust", "other"),
        Err(ManagerError::UnknownPluginType { .. })
    ));

    let targets = m.validation_targets();
    assert_eq!(targets[0], ("input:python".to_string(), "plugins/input/python_analyzer_analyzer.py".to_string()));
    let result = validation_result(&targets, &vec![true, false]);
    assert_eq!(result.valid_plugins, vec!["input:python".to_string()]);
    assert_eq!(
        result.invalid_plugins,
        vec!["output:markdown_docs (path: plugins/output/markdown_docs.py)".to_string()]
    );

    let git = PluginSource::Git { url: "https://h/o/r".to_string(), branch: None };
    assert_eq!(
        resolve_plugin_path("p", &git, "input").unwrap(),
        ".csd_cache/git/https:__h_o_r/main/p.py"
    );
    let gh = PluginSource::GitHub { repo: "o/r".to_string(), version: Some("v1".to_string()) };
    assert_eq!(resolve_plugin_path("p", &gh, "output").unwrap(), ".csd_cache/github/o/r/v1/p.py");
    let builtin = PluginSource::Builtin { name: "x".to_string(), plugin_type: "code".to_string() };
    assert!(matches!(
        resolve_plugin_path("p", &builtin, "weird"),
        Err(ManagerError::UnknownPluginType { .. })
    ));
}

#[test]
fn get_plugin_by_name_and_kind() {
    let m = PluginManager::new(Config::default());
    let rust = m.get_plugin("rust", "input").expect("rust analyzer");
    assert_eq!(rust.path, "plugins/input/rust_analyzer_analyzer.py");
    assert_eq!(rust.extensions, vec![".rs".to_string()]);
    assert!(m.get_plugin("rust", "output").is_none());
    assert_eq!(m.get_plugin("markdown_docs", "output").unwrap().formats, vec!["markdown".to_string()]);
    assert!(m.get_plugin("markdown_docs", "other").is_none());
}
