use csd::interface::{
    CodeElement, ExternalDependency, GeneratedOutput, Import, OutputPluginInput,
    OutputPluginResult, PluginInfo, PluginInput, PluginOutput, PluginType, Relationship,
};

fn create_test_code_element() -> CodeElement {
    CodeElement {
        element_type: "function".to_string(),
        name: "test_function".to_string(),
        signature: Some("fn test_function(x: i32) -> bool".to_string()),
        line_start: 10,
        line_end: 20,
        summary: Some("A test function".to_string()),
        complexity_score: Some(5),
        calls: vec!["helper_function".to_string(), "another_function".to_string()],
        metadata: "{\"is_async\": false, \"visibility\": \"public\", \"parameters\": [\"x\"]}"
            .to_string(),
    }
}

fn create_test_import() -> Import {
    Import {
        module: "std::collections".to_string(),
        items: vec!["HashMap".to_string(), "HashSet".to_string()],
        alias: Some("collections".to_string()),
        line_number: 5,
        import_type: "standard".to_string(),
    }
}

fn create_test_relationship() -> Relationship {
    Relationship {
        from_file: "src/main.rs".to_string(),
        to_file: "src/lib.rs".to_string(),
        relationship_type: "import".to_string(),
        details: "imports lib module".to_string(),
        line_number: Some(15),
        strength: 800,
    }
}

fn create_test_external_dependency() -> ExternalDependency {
    ExternalDependency {
        name: "serde".to_string(),
        version: Some("1.0.0".to_string()),
        ecosystem: "cargo".to_string(),
        dependency_type: "runtime".to_string(),
        source_file: "Cargo.toml".to_string(),
    }
}

#[test]
fn interface_test_code_element_creation() {
    let element = create_test_code_element();

    assert_eq!(element.element_type, "function");
    assert_eq!(element.name, "test_function");
    assert_eq!(element.line_start, 10);
    assert_eq!(element.line_end, 20);
    assert_eq!(element.complexity_score, Some(5));
    assert_eq!(element.calls.len(), 2);
    assert!(element.calls.contains(&"helper_function".to_string()));
    assert!(element.metadata.starts_with('{'));
}

#[test]
fn interface_test_import_creation() {
    let import = create_test_import();

    assert_eq!(import.module, "std::collections");
    assert_eq!(import.items.len(), 2);
    assert!(import.items.contains(&"HashMap".to_string()));
    assert!(import.items.contains(&"HashSet".to_string()));
    assert_eq!(import.alias, Some("collections".to_string()));
    assert_eq!(import.line_number, 5);
    assert_eq!(import.import_type, "standard");
}

#[test]
fn interface_test_relationship_creation() {
    let relationship = create_test_relationship();

    assert_eq!(relationship.from_file, "src/main.rs");
    assert_eq!(relationship.to_file, "src/lib.rs");
    assert_eq!(relationship.relationship_type, "import");
    assert_eq!(relationship.strength, 800);
    assert_eq!(relationship.line_number, Some(15));
}

#[test]
fn interface_test_external_dependency_creation() {
    let dependency = create_test_external_dependency();

    assert_eq!(dependency.name, "serde");
    assert_eq!(dependency.version, Some("1.0.0".to_string()));
    assert_eq!(dependency.ecosystem, "cargo");
    assert_eq!(dependency.dependency_type, "runtime");
    assert_eq!(dependency.source_file, "Cargo.toml");
}

#[test]
fn interface_test_plugin_input_creation() {
    let input = PluginInput {
        file_path: "/project/src/main.rs".to_string(),
        relative_path: "src/main.rs".to_string(),
        content: "fn main() { println!(\"Hello\"); }".to_string(),
        project_root: "/project".to_string(),
        cache_dir: "/project/.csd_cache".to_string(),
        plugin_config: Some("{\"analyze_comments\": true, \"max_complexity\": 10}".to_string()),
    };

    assert_eq!(input.file_path, "/project/src/main.rs");
    assert_eq!(input.relative_path, "src/main.rs");
    assert_eq!(input.project_root, "/project");
    assert_eq!(input.cache_dir, "/project/.csd_cache");
    assert!(input.content.contains("main"));
    assert!(input.plugin_config.is_some());
}

#[test]
fn interface_test_plugin_output_creation() {
    let output = PluginOutput {
        file_path: "/project/src/main.rs".to_string(),
        file_hash: "abc123def456".to_string(),
        elements: vec![create_test_code_element()],
        imports: vec![create_test_import()],
        exports: vec!["main_function".to_string(), "helper".to_string()],
        relationships: vec![create_test_relationship()],
        external_dependencies: vec![create_test_external_dependency()],
        file_summary: Some("Main application file".to_string()),
        processing_time_ms: 150,
        plugin_version: "1.0.0".to_string(),
    };

    assert_eq!(output.file_path, "/project/src/main.rs");
    assert_eq!(output.file_hash, "abc123def456");
    assert_eq!(output.elements.len(), 1);
    assert_eq!(output.imports.len(), 1);
    assert_eq!(output.exports.len(), 2);
    assert_eq!(output.relationships.len(), 1);
    assert_eq!(output.external_dependencies.len(), 1);
    assert_eq!(output.processing_time_ms, 150);
}

#[test]
fn interface_test_plugin_info_creation() {
    let info = PluginInfo {
        name: "rust_analyzer".to_string(),
        version: "2.0.0".to_string(),
        plugin_type: PluginType::Input,
        supported_extensions: vec![".rs".to_string()],
        supported_filenames: vec!["Cargo.toml".to_string(), "Cargo.lock".to_string()],
        supported_output_types: None,
        supported_formats: None,
    };

    assert_eq!(info.name, "rust_analyzer");
    assert_eq!(info.version, "2.0.0");
    assert_eq!(info.supported_extensions.len(), 1);
    assert_eq!(info.supported_filenames.len(), 2);
}

#[test]
fn plugin_info_roles() {
    let mut info = PluginInfo {
        name: "doc_generator".to_string(),
        version: "1.5.0".to_string(),
        plugin_type: PluginType::Output,
        supported_extensions: vec![],
        supported_filenames: vec![],
        supported_output_types: Some(vec!["documentation".to_string()]),
        supported_formats: Some(vec!["markdown".to_string(), "html".to_string()]),
    };
    assert!(!info.is_input_plugin());
    assert!(info.is_output_plugin());
    info.plugin_type = PluginType::Input;
    assert!(info.is_input_plugin());
    assert!(!info.is_output_plugin());
}

fn create_test_generated_output() -> GeneratedOutput {
    GeneratedOutput {
        output_path: "/project/docs/README.md".to_string(),
        content_type: "markdown".to_string(),
        size_bytes: 2048,
        checksum: "sha256:def789abc123".to_string(),
        metadata: "{\"sections\": [\"overview\", \"api\", \"examples\"], \"word_count\": 350}"
            .to_string(),
    }
}

#[test]
fn test_output_plugin_input_creation() {
    let input = OutputPluginInput {
        matrix_path: "/project/.csd_cache/matrix.json".to_string(),
        project_root: "/project".to_string(),
        output_dir: "/project/docs".to_string(),
        cache_dir: "/project/.csd_cache".to_string(),
        plugin_config: Some("{\"include_toc\": true, \"theme\": \"modern\"}".to_string()),
        format_options: "{\"format\": \"markdown\", \"output_type\": \"documentation\"}"
            .to_string(),
    };

    assert_eq!(input.matrix_path, "/project/.csd_cache/matrix.json");
    assert_eq!(input.project_root, "/project");
    assert_eq!(input.output_dir, "/project/docs");
    assert_eq!(input.cache_dir, "/project/.csd_cache");
    assert!(input.plugin_config.is_some());
    assert!(input.format_options.starts_with('{'));
}

#[test]
fn test_generated_output_creation() {
    let output = create_test_generated_output();

    assert_eq!(output.output_path, "/project/docs/README.md");
    assert_eq!(output.content_type, "markdown");
    assert_eq!(output.size_bytes, 2048);
    assert_eq!(output.checksum, "sha256:def789abc123");
    assert!(output.metadata.starts_with('{'));
}

#[test]
fn test_output_plugin_result_creation() {
    let result = OutputPluginResult {
        plugin_name: "markdown_docs".to_string(),
        plugin_version: "1.0.0".to_string(),
        output_type: "documentation".to_string(),
        outputs: vec![create_test_generated_output()],
        processing_time_ms: 500,
        metadata: "{\"total_files\": 1, \"total_size_mb\": 0.002}".to_string(),
    };

    assert_eq!(result.plugin_name, "markdown_docs");
    assert_eq!(result.plugin_version, "1.0.0");
    assert_eq!(result.output_type, "documentation");
    assert_eq!(result.outputs.len(), 1);
    assert_eq!(result.processing_time_ms, 500);
    assert!(result.metadata.starts_with('{'));
}

#[test]
fn test_interface_test_plugin_info_creation() {
    let info = PluginInfo {
        name: "rust_analyzer".to_string(),
        version: "2.0.0".to_string(),
        plugin_type: PluginType::Input,
        supported_extensions: vec![".rs".to_string()],
        supported_filenames: vec!["Cargo.toml".to_string(), "Cargo.lock".to_string()],
        supported_output_types: None,
        supported_formats: None,
    };

    assert_eq!(info.name, "rust_analyzer");
    assert_eq!(info.version, "2.0.0");
    assert_eq!(info.plugin_type, PluginType::Input);
    assert_eq!(info.supported_extensions.len(), 1);
    assert_eq!(info.supported_filenames.len(), 2);
    assert!(info.is_input_plugin());
    assert!(!info.is_output_plugin());
}

#[test]
fn test_plugin_info_output_plugin() {
    let info = PluginInfo {
        name: "doc_generator".to_string(),
        version: "1.5.0".to_string(),
        plugin_type: PluginType::Output,
        supported_extensions: vec![],
        supported_filenames: vec![],
        supported_output_types: Some(vec!["documentation".to_string()]),
        supported_formats: Some(vec!["markdown".to_string(), "html".to_string()]),
    };

    assert_eq!(info.name, "doc_generator");
    assert_eq!(info.plugin_type, PluginType::Output);
    assert!(!info.is_input_plugin());
    assert!(info.is_output_plugin());

    let capabilities = info.get_capabilities_description();
    assert!(capabilities.contains("Types: documentation"));
    assert!(capabilities.contains("Formats: markdown, html"));
}

#[test]
fn test_plugin_info_capabilities_description() {
    let input_info = PluginInfo {
        name: "python".to_string(),
        version: "1.0.0".to_string(),
        plugin_type: PluginType::Input,
        supported_extensions: vec![".py".to_string(), ".pyx".to_string()],
        supported_filenames: vec!["requirements.txt".to_string()],
        supported_output_types: None,
        supported_formats: None,
    };
    let input_caps = input_info.get_capabilities_description();
    assert!(input_caps.contains("Extensions: .py, .pyx"));
    assert!(input_caps.contains("Files: requirements.txt"));
    assert_eq!(input_caps, "Extensions: .py, .pyx; Files: requirements.txt");

    let output_info = PluginInfo {
        name: "docs".to_string(),
        version: "1.0.0".to_string(),
        plugin_type: PluginType::Output,
        supported_extensions: vec![],
        supported_filenames: vec![],
        supported_output_types: Some(vec!["documentation".to_string(), "reports".to_string()]),
        supported_formats: Some(vec!["markdown".to_string(), "pdf".to_string()]),
    };
    let output_caps = output_info.get_capabilities_description();
    assert!(output_caps.contains("Types: documentation, reports"));
    assert!(output_caps.contains("Formats: markdown, pdf"));
}
