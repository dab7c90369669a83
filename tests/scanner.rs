use csd::config::{Config, PluginSource};
use csd::interface::{self, PluginOutput};
use csd::matrix::{
    DependencyType, ElementType, ImportType, ProjectMatrix, RelationshipType, TokenInfo,
};
use csd::scanner::{content_hash, matches_ignore_pattern, ProjectScanner, ScanError};

fn scanner() -> ProjectScanner {
    ProjectScanner::new(Config::default()).with_root("/proj".to_string())
}

#[test]
fn ignore_patterns_by_directory_extension_and_substring() {
    let s = scanner();
    assert!(s.should_ignore_file("/proj/target/debug/app"));
    assert!(s.should_ignore_file("/proj/web/node_modules/x.js"));
    assert!(s.should_ignore_file("/proj/build.log"));
    assert!(!s.should_ignore_file("/proj/src/main.rs"));
    assert!(!s.should_ignore_file("/proj/logbook.txt"));
    assert!(matches_ignore_pattern("a/tmp_b", &"tmp".to_string()));
    assert!(!matches_ignore_pattern("a/b.rs", &"*.log".to_string()));
}

#[test]
fn text_detection() {
    let s = scanner();
    assert!(s.is_text_file("/proj/a.py", &Some(".py".to_string())));
    assert!(s.is_text_file("/proj/README.md", &Some(".md".to_string())));
    assert!(!s.is_text_file("/proj/logo.png", &Some(".png".to_string())));
    assert!(s.is_text_file("/proj/Makefile", &None));
    assert!(!s.is_text_file("/proj/binary", &None));
}

#[test]
fn file_info_and_size_limit() {
    let s = scanner();
    let info = s.file_info(
        "/proj/src/Main.PY".to_string(),
        "src/Main.PY".to_string(),
        12,
        "abc".to_string(),
    );
    assert_eq!(info.extension, Some(".py".to_string()));
    assert!(info.is_text);
    assert_eq!(info.plugin_name, Some("python".to_string()));
    assert!(ProjectScanner::should_analyze(&info));
    assert!(s.within_size_limit(10 * 1024 * 1024));
    assert!(!s.within_size_limit(10 * 1024 * 1024 + 1));
}

#[test]
fn plugin_paths() {
    let mut config = Config::default();
    config.add_input_plugin(
        "remote".to_string(),
        csd::config::InputPluginConfig {
            source: PluginSource::GitHub { repo: "o/r".to_string(), version: None },
            file_patterns: csd::config::FilePatterns {
                extensions: vec![],
                filenames: vec![],
                glob_patterns: None,
            },
            enabled: true,
            config: None,
        },
    );
    let s = ProjectScanner::new(config);
    assert_eq!(
        s.plugin_path_for("python"),
        Ok(Some("plugins/input/python_analyzer_analyzer.py".to_string()))
    );
    assert_eq!(s.plugin_path_for("remote"), Ok(None));
    assert_eq!(
        s.plugin_path_for("nope"),
        Err(ScanError::UnknownPlugin { name: "nope".to_string() })
    );
}

#[test]
fn basic_node_and_converted_node() {
    let s = scanner();
    let info = s.file_info("/proj/a.rs".to_string(), "a.rs".to_string(), 5, "h".to_string());
    let basic = s.create_basic_file_node(&info);
    assert_eq!(basic.plugin, "rust");
    assert_eq!(basic.language, Some("rust".to_string()));
    assert_eq!(basic.token_info.total_tokens, 0);

    let other = s.file_info("/proj/x.bin".to_string(), "x.bin".to_string(), 5, "h".to_string());
    assert_eq!(s.create_basic_file_node(&other).plugin, "unknown");

    let output = PluginOutput {
        file_path: "/proj/a.rs".to_string(),
        file_hash: "h".to_string(),
        elements: vec![interface::CodeElement {
            element_type: "struct".to_string(),
            name: "S".to_string(),
            signature: None,
            line_start: 1,
            line_end: 3,
            summary: None,
            complexity_score: None,
            calls: vec![],
            metadata: "{}".to_string(),
        }, interface::CodeElement {
            element_type: "macro".to_string(),
            name: "m".to_string(),
            signature: None,
            line_start: 4,
            line_end: 4,
            summary: None,
            complexity_score: None,
            calls: vec![],
            metadata: "{}".to_string(),
        }],
        imports: vec![interface::Import {
            module: "crate::b".to_string(),
            items: vec![],
            alias: None,
            line_number: 1,
            import_type: "local".to_string(),
        }],
        exports: vec!["S".to_string()],
        relationships: vec![interface::Relationship {
            from_file: "/proj/a.rs".to_string(),
            to_file: "/proj/b.rs".to_string(),
            relationship_type: "call".to_string(),
            details: "calls b".to_string(),
            line_number: Some(2),
            strength: 500,
        }],
        external_dependencies: vec![interface::ExternalDependency {
            name: "serde".to_string(),
            version: None,
            ecosystem: "cargo".to_string(),
            dependency_type: "development".to_string(),
            source_file: "/proj/a.rs".to_string(),
        }],
        file_summary: Some("a".to_string()),
        processing_time_ms: 1,
        plugin_version: "1".to_string(),
    };
    let mut matrix = ProjectMatrix::new("/proj".to_string());
    let tokens = TokenInfo { total_tokens: 7, code_tokens: 5, documentation_tokens: 0, comment_tokens: 0 };
    let node = s.convert_plugin_output_to_file_node(&info, output, tokens, &mut matrix);
    assert_eq!(node.elements.len(), 2);
    assert_eq!(node.elements[0].element_type, ElementType::Struct);
    assert_eq!(node.elements[1].element_type, ElementType::Function);
    assert_eq!(node.imports[0].import_type, ImportType::Local);
    assert_eq!(node.exports, vec!["S".to_string()]);
    assert_eq!(node.token_info.total_tokens, 7);
    assert_eq!(matrix.relationships.len(), 1);
    assert_eq!(matrix.relationships[0].relationship_type, RelationshipType::Call);
    assert_eq!(matrix.relationships[0].strength, 500);
    assert_eq!(matrix.external_dependencies[0].dependency_type, DependencyType::Development);
}

#[test]
fn content_hash_is_sha256_hex() {
    assert_eq!(
        content_hash(b"abc"),
        "ba7816bf8f01cfea414140de5dae2223b00361a396177a9cb410ff61f20015ad"
    );
    assert_eq!(content_hash(b"").len(), 64);
}
