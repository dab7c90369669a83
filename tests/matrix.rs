use csd::matrix::{
    CodeElement, DependencyType, ElementType, EntrypointInfo, ExternalDependency, FileNode,
    Import, ImportType, MatrixError, ProjectMatrix, ProjectType, Relationship, RelationshipType,
    TokenInfo, TOOL_VERSION,
};
use csd::tokens::{estimate_code_tokens, estimate_tokens};

fn create_test_file_node(path: &str, plugin: &str) -> FileNode {
    FileNode {
        path: path.to_string(),
        relative_path: path.to_string(),
        hash: "test_hash_123".to_string(),
        size_bytes: 1024,
        plugin: plugin.to_string(),
        language: Some(plugin.to_string()),
        is_text: true,
        elements: vec![],
        imports: vec![],
        exports: vec![],
        file_summary: Some("Test file summary".to_string()),
        token_info: TokenInfo {
            total_tokens: 256,
            code_tokens: 200,
            documentation_tokens: 40,
            comment_tokens: 16,
        },
    }
}

fn create_test_relationship(from: &str, to: &str) -> Relationship {
    Relationship {
        from_file: from.to_string(),
        to_file: to.to_string(),
        relationship_type: RelationshipType::Import,
        details: "test import".to_string(),
        line_number: Some(10),
        strength: 800,
    }
}

fn paths_of(files: &[&FileNode]) -> Vec<String> {
    files.iter().map(|f| f.path.clone()).collect()
}

#[test]
fn test_project_matrix_creation() {
    let project_root = "/test/project".to_string();
    let matrix = ProjectMatrix::new(project_root.clone());

    assert_eq!(matrix.metadata.project_root, project_root);
    assert_eq!(matrix.metadata.total_files, 0);
    assert_eq!(matrix.metadata.total_size_bytes, 0);
    assert_eq!(matrix.metadata.total_tokens, 0);
    assert!(matrix.files.is_empty());
    assert!(matrix.relationships.is_empty());
    assert!(matrix.external_dependencies.is_empty());
    assert_eq!(matrix.metadata.csd_version, TOOL_VERSION);

    assert!(matrix.project_info.entrypoints.is_empty());
    assert!(matches!(matrix.project_info.project_type, ProjectType::Unknown));
    assert_eq!(matrix.project_info.main_language, "");
    assert_eq!(matrix.project_info.token_summary.total_tokens, 0);
}

#[test]
fn test_add_file() {
    let mut matrix = ProjectMatrix::new("/test".to_string());
    let file_node = create_test_file_node("src/main.rs", "rust");

    matrix.add_file(file_node.clone());

    assert_eq!(matrix.metadata.total_files, 1);
    assert_eq!(matrix.metadata.total_size_bytes, 1024);
    assert_eq!(matrix.metadata.total_tokens, 256);
    assert!(matrix.metadata.plugins_used.contains(&"rust".to_string()));
    assert!(matrix.contains_file("src/main.rs"));

    assert_eq!(matrix.project_info.token_summary.total_tokens, 256);
    assert_eq!(matrix.project_info.token_summary.code_tokens, 200);
    assert_eq!(matrix.project_info.token_summary.documentation_tokens, 40);
}

#[test]
fn test_add_multiple_files_different_plugins() {
    let mut matrix = ProjectMatrix::new("/test".to_string());
    let rust_file = create_test_file_node("src/main.rs", "rust");
    let python_file = create_test_file_node("script.py", "python");

    matrix.add_file(rust_file);
    matrix.add_file(python_file);

    assert_eq!(matrix.metadata.total_files, 2);
    assert_eq!(matrix.metadata.total_size_bytes, 2048);
    assert_eq!(matrix.metadata.total_tokens, 512);
    assert_eq!(matrix.metadata.plugins_used.len(), 2);
    assert!(matrix.metadata.plugins_used.contains(&"rust".to_string()));
    assert!(matrix.metadata.plugins_used.contains(&"python".to_string()));
}

#[test]
fn test_finalize_detects_entrypoints() {
    let mut matrix = ProjectMatrix::new("/test".to_string());
    matrix.add_file(create_test_file_node("src/main.rs", "rust"));
    matrix.add_file(create_test_file_node("src/lib.rs", "rust"));
    matrix.add_file(create_test_file_node("src/utils.rs", "rust"));

    matrix.finalize();

    assert_eq!(matrix.project_info.entrypoints.len(), 2);

    let main_entry = matrix
        .project_info
        .entrypoints
        .iter()
        .find(|e| e.file_path == "src/main.rs")
        .expect("main.rs should be detected as entrypoint");
    assert_eq!(main_entry.entrypoint_type, "cli");
    assert_eq!(main_entry.confidence, 100);

    let lib_entry = matrix
        .project_info
        .entrypoints
        .iter()
        .find(|e| e.file_path == "src/lib.rs")
        .expect("lib.rs should be detected as entrypoint");
    assert_eq!(lib_entry.entrypoint_type, "lib");
    assert_eq!(lib_entry.confidence, 100);

    assert!(matches!(matrix.project_info.project_type, ProjectType::Mixed));
    assert_eq!(matrix.project_info.main_language, "rust");
}

#[test]
fn test_add_relationship() {
    let mut matrix = ProjectMatrix::new("/test".to_string());
    let relationship = create_test_relationship("src/main.rs", "src/lib.rs");

    matrix.add_relationship(relationship.clone());

    assert_eq!(matrix.relationships.len(), 1);
    let added_rel = &matrix.relationships[0];
    assert_eq!(added_rel.from_file, "src/main.rs");
    assert_eq!(added_rel.to_file, "src/lib.rs");
    assert_eq!(added_rel.strength, 800);
}

#[test]
fn test_add_external_dependency() {
    let mut matrix = ProjectMatrix::new("/test".to_string());
    let dependency = ExternalDependency {
        name: "serde".to_string(),
        version: Some("1.0.0".to_string()),
        ecosystem: "cargo".to_string(),
        dependency_type: DependencyType::Runtime,
        source_file: "Cargo.toml".to_string(),
    };

    matrix.add_external_dependency(dependency.clone());

    assert_eq!(matrix.external_dependencies.len(), 1);
    let added_dep = &matrix.external_dependencies[0];
    assert_eq!(added_dep.name, "serde");
    assert_eq!(added_dep.version, Some("1.0.0".to_string()));
    assert_eq!(added_dep.ecosystem, "cargo");
}

#[test]
fn test_token_estimation() {
    let text = "Hello, world!";
    let tokens = estimate_tokens(text);
    assert!(tokens > 0);
    assert_eq!(tokens, 4);

    let code = "fn main() { println!(\"Hello\"); }";
    let code_tokens = estimate_code_tokens(code);
    assert!(code_tokens > 0);
}

#[test]
fn test_get_files_by_token_count() {
    let mut matrix = ProjectMatrix::new("/test".to_string());

    let mut large_file = create_test_file_node("large.rs", "rust");
    large_file.token_info.total_tokens = 1000;
    let mut medium_file = create_test_file_node("medium.rs", "rust");
    medium_file.token_info.total_tokens = 500;
    let mut small_file = create_test_file_node("small.rs", "rust");
    small_file.token_info.total_tokens = 100;

    matrix.add_file(large_file);
    matrix.add_file(medium_file);
    matrix.add_file(small_file);

    let sorted_files = matrix.get_files_by_token_count();

    assert_eq!(sorted_files.len(), 3);
    assert_eq!(sorted_files[0].token_info.total_tokens, 1000);
    assert_eq!(sorted_files[1].token_info.total_tokens, 500);
    assert_eq!(sorted_files[2].token_info.total_tokens, 100);
}

#[test]
fn test_token_budget_info() {
    let mut matrix = ProjectMatrix::new("/test".to_string());

    let mut file1 = create_test_file_node("file1.rs", "rust");
    file1.token_info.total_tokens = 400;
    let mut file2 = create_test_file_node("file2.rs", "rust");
    file2.token_info.total_tokens = 300;
    let mut file3 = create_test_file_node("file3.rs", "rust");
    file3.token_info.total_tokens = 500;

    matrix.add_file(file1);
    matrix.add_file(file2);
    matrix.add_file(file3);

    let budget_info = matrix.get_token_budget_info(800);

    assert_eq!(budget_info.max_tokens, 800);
    assert_eq!(budget_info.used_tokens, 800);
    assert_eq!(budget_info.remaining_tokens, 0);
    assert_eq!(budget_info.included_files.len(), 2);
    assert_eq!(budget_info.excluded_files.len(), 1);

    assert!(budget_info.excluded_files.contains(&"file1.rs".to_string()));
    assert!(budget_info.included_files.contains(&"file3.rs".to_string()));
    assert!(budget_info.included_files.contains(&"file2.rs".to_string()));
}

#[test]
fn test_get_files_by_plugin() {
    let mut matrix = ProjectMatrix::new("/test".to_string());
    matrix.add_file(create_test_file_node("src/main.rs", "rust"));
    matrix.add_file(create_test_file_node("src/lib.rs", "rust"));
    matrix.add_file(create_test_file_node("script.py", "python"));

    let rust_files = matrix.get_files_by_plugin("rust");
    let python_files = matrix.get_files_by_plugin("python");
    let missing_files = matrix.get_files_by_plugin("javascript");

    assert_eq!(rust_files.len(), 2);
    assert_eq!(python_files.len(), 1);
    assert_eq!(missing_files.len(), 0);
}

#[test]
fn test_find_dependencies_and_dependents() {
    let mut matrix = ProjectMatrix::new("/test".to_string());
    matrix.add_file(create_test_file_node("src/main.rs", "rust"));
    matrix.add_file(create_test_file_node("src/lib.rs", "rust"));
    matrix.add_file(create_test_file_node("src/utils.rs", "rust"));

    matrix.add_relationship(create_test_relationship("src/main.rs", "src/lib.rs"));
    matrix.add_relationship(create_test_relationship("src/lib.rs", "src/utils.rs"));

    let main_deps = paths_of(&matrix.find_dependencies("src/main.rs"));
    assert_eq!(main_deps.len(), 1);
    assert_eq!(main_deps[0], "src/lib.rs");

    let lib_dependents = paths_of(&matrix.find_dependents("src/lib.rs"));
    assert_eq!(lib_dependents.len(), 1);
    assert_eq!(lib_dependents[0], "src/main.rs");

    let utils_deps = matrix.find_dependencies("src/utils.rs");
    assert_eq!(utils_deps.len(), 0);

    let utils_dependents = paths_of(&matrix.find_dependents("src/utils.rs"));
    assert_eq!(utils_dependents.len(), 1);
    assert_eq!(utils_dependents[0], "src/lib.rs");
}

#[test]
fn test_calculate_metrics() {
    let mut matrix = ProjectMatrix::new("/test".to_string());
    for file in vec![
        create_test_file_node("src/main.rs", "rust"),
        create_test_file_node("src/lib.rs", "rust"),
        create_test_file_node("src/utils.rs", "rust"),
        create_test_file_node("script.py", "python"),
    ] {
        matrix.add_file(file);
    }
    for rel in vec![
        create_test_relationship("src/main.rs", "src/lib.rs"),
        create_test_relationship("script.py", "src/lib.rs"),
        create_test_relationship("src/utils.rs", "src/lib.rs"),
    ] {
        matrix.add_relationship(rel);
    }

    let metrics = matrix.calculate_metrics();

    assert_eq!(metrics.total_files, 4);
    assert_eq!(metrics.total_relationships, 3);
    assert_eq!(metrics.total_tokens, 1024);
    assert_eq!(metrics.languages.len(), 2);
    assert!(metrics.languages.contains(&"rust".to_string()));
    assert!(metrics.languages.contains(&"python".to_string()));

    assert!(!metrics.highly_coupled_files.is_empty());
    assert_eq!(metrics.highly_coupled_files[0].0, "src/lib.rs");
    assert_eq!(metrics.highly_coupled_files[0].1, 3);
}

#[test]
fn test_matrix_test_code_element_creation() {
    let element = CodeElement {
        element_type: ElementType::Function,
        name: "test_function".to_string(),
        signature: Some("fn test_function() -> bool".to_string()),
        line_start: 10,
        line_end: 20,
        summary: Some("A test function".to_string()),
        complexity_score: Some(5),
        calls: vec!["helper_function".to_string()],
        metadata: "{\"is_async\": false, \"visibility\": \"public\"}".to_string(),
        tokens: 150,
    };

    assert_eq!(element.name, "test_function");
    assert_eq!(element.line_start, 10);
    assert_eq!(element.line_end, 20);
    assert_eq!(element.complexity_score, Some(5));
    assert_eq!(element.calls.len(), 1);
    assert!(element.calls.contains(&"helper_function".to_string()));
    assert_eq!(element.tokens, 150);
}

#[test]
fn test_matrix_test_import_creation() {
    let import = Import {
        module: "std::collections".to_string(),
        items: vec!["HashMap".to_string(), "HashSet".to_string()],
        alias: Some("collections".to_string()),
        line_number: 5,
        import_type: ImportType::Standard,
    };

    assert_eq!(import.module, "std::collections");
    assert_eq!(import.items.len(), 2);
    assert!(import.items.contains(&"HashMap".to_string()));
    assert!(import.items.contains(&"HashSet".to_string()));
    assert_eq!(import.alias, Some("collections".to_string()));
    assert_eq!(import.line_number, 5);
    assert!(matches!(import.import_type, ImportType::Standard));
}

#[test]
fn test_matrix_test_relationship_creation() {
    let relationship = Relationship {
        from_file: "src/main.rs".to_string(),
        to_file: "src/lib.rs".to_string(),
        relationship_type: RelationshipType::Import,
        details: "imports lib module".to_string(),
        line_number: Some(15),
        strength: 800,
    };

    assert_eq!(relationship.from_file, "src/main.rs");
    assert_eq!(relationship.to_file, "src/lib.rs");
    assert!(matches!(relationship.relationship_type, RelationshipType::Import));
    assert_eq!(relationship.details, "imports lib module");
    assert_eq!(relationship.line_number, Some(15));
    assert_eq!(relationship.strength, 800);
}

#[test]
fn test_matrix_test_external_dependency_creation() {
    let dependency = ExternalDependency {
        name: "tokio".to_string(),
        version: Some("1.0.0".to_string()),
        ecosystem: "cargo".to_string(),
        dependency_type: DependencyType::Runtime,
        source_file: "Cargo.toml".to_string(),
    };

    assert_eq!(dependency.name, "tokio");
    assert_eq!(dependency.version, Some("1.0.0".to_string()));
    assert_eq!(dependency.ecosystem, "cargo");
    assert!(matches!(dependency.dependency_type, DependencyType::Runtime));
    assert_eq!(dependency.source_file, "Cargo.toml");
}

#[test]
fn test_file_node_creation() {
    let file_node = FileNode {
        path: "/project/src/main.rs".to_string(),
        relative_path: "src/main.rs".to_string(),
        hash: "abc123def456".to_string(),
        size_bytes: 2048,
        plugin: "rust".to_string(),
        language: Some("rust".to_string()),
        is_text: true,
        elements: vec![],
        imports: vec![],
        exports: vec!["main".to_string()],
        file_summary: Some("Main application file".to_string()),
        token_info: TokenInfo {
            total_tokens: 512,
            code_tokens: 400,
            documentation_tokens: 80,
            comment_tokens: 32,
        },
    };

    assert_eq!(file_node.path, "/project/src/main.rs");
    assert_eq!(file_node.relative_path, "src/main.rs");
    assert_eq!(file_node.hash, "abc123def456");
    assert_eq!(file_node.size_bytes, 2048);
    assert_eq!(file_node.plugin, "rust");
    assert_eq!(file_node.language, Some("rust".to_string()));
    assert!(file_node.is_text);
    assert_eq!(file_node.exports, vec!["main".to_string()]);
    assert_eq!(file_node.file_summary, Some("Main application file".to_string()));
    assert_eq!(file_node.token_info.total_tokens, 512);
}

#[test]
fn test_token_info_creation() {
    let token_info = TokenInfo {
        total_tokens: 1000,
        code_tokens: 800,
        documentation_tokens: 150,
        comment_tokens: 50,
    };

    assert_eq!(token_info.total_tokens, 1000);
    assert_eq!(token_info.code_tokens, 800);
    assert_eq!(token_info.documentation_tokens, 150);
    assert_eq!(token_info.comment_tokens, 50);
}

#[test]
fn test_entrypoint_info_creation() {
    let entrypoint = EntrypointInfo {
        file_path: "src/main.rs".to_string(),
        entrypoint_type: "cli".to_string(),
        confidence: 95,
        reason: "Standard Rust binary entrypoint".to_string(),
    };

    assert_eq!(entrypoint.file_path, "src/main.rs");
    assert_eq!(entrypoint.entrypoint_type, "cli");
    assert_eq!(entrypoint.confidence, 95);
    assert_eq!(entrypoint.reason, "Standard Rust binary entrypoint");
}

#[test]
fn test_element_type_variants() {
    let variants = [
        ElementType::Function,
        ElementType::Method,
        ElementType::Class,
        ElementType::Struct,
        ElementType::Enum,
        ElementType::Interface,
        ElementType::Module,
        ElementType::Variable,
        ElementType::Constant,
        ElementType::Type,
    ];

    assert_eq!(variants.len(), 10);
    assert!(variants.contains(&ElementType::Function));
    assert!(variants.contains(&ElementType::Struct));
}

#[test]
fn test_import_type_variants() {
    let variants = [
        ImportType::Standard,
        ImportType::ThirdParty,
        ImportType::Local,
        ImportType::Relative,
    ];

    assert_eq!(variants.len(), 4);
    assert!(variants.contains(&ImportType::Standard));
    assert!(variants.contains(&ImportType::Local));
}

#[test]
fn test_relationship_type_variants() {
    let variants = [
        RelationshipType::Import,
        RelationshipType::Call,
        RelationshipType::Inheritance,
        RelationshipType::Configuration,
        RelationshipType::Test,
        RelationshipType::Documentation,
        RelationshipType::Build,
    ];

    assert_eq!(variants.len(), 7);
    assert!(variants.contains(&RelationshipType::Import));
    assert!(variants.contains(&RelationshipType::Call));
}

#[test]
fn test_dependency_type_variants() {
    let variants = [
        DependencyType::Runtime,
        DependencyType::Development,
        DependencyType::Build,
        DependencyType::Optional,
    ];

    assert_eq!(variants.len(), 4);
    assert!(variants.contains(&DependencyType::Runtime));
    assert!(variants.contains(&DependencyType::Development));
}

#[test]
fn test_project_type_variants() {
    let variants = [
        ProjectType::Binary,
        ProjectType::Library,
        ProjectType::WebApplication,
        ProjectType::Mixed,
        ProjectType::Unknown,
    ];

    assert_eq!(variants.len(), 5);
    assert!(matches!(variants[0], ProjectType::Binary));
    assert!(matches!(variants[1], ProjectType::Library));
    assert!(matches!(variants[2], ProjectType::WebApplication));
    assert!(matches!(variants[3], ProjectType::Mixed));
    assert!(matches!(variants[4], ProjectType::Unknown));
}

// ---------------------------------------------------------------------------
// Further cases
// ---------------------------------------------------------------------------

#[test]
fn re_adding_a_path_replaces_the_file_and_its_totals() {
    let mut matrix = ProjectMatrix::new("/test".to_string());
    matrix.add_file(create_test_file_node("src/main.rs", "rust"));
    let mut bigger = create_test_file_node("src/main.rs", "rust");
    bigger.size_bytes = 4096;
    bigger.token_info.total_tokens = 1000;
    matrix.add_file(bigger);

    assert_eq!(matrix.metadata.total_files, 1);
    assert_eq!(matrix.files.len(), 1);
    assert_eq!(matrix.metadata.total_size_bytes, 4096);
    assert_eq!(matrix.metadata.total_tokens, 1000);
    assert_eq!(matrix.project_info.token_summary.total_tokens, 1000);
    assert_eq!(matrix.project_info.token_summary.code_tokens, 200);
    assert_eq!(matrix.metadata.plugins_used, vec!["rust".to_string()]);
    assert_eq!(matrix.project_info.token_summary.largest_file_tokens, 1000);
}

#[test]
fn dangling_relationship_is_kept_but_not_traversed() {
    let mut matrix = ProjectMatrix::new("/test".to_string());
    matrix.add_file(create_test_file_node("a.rs", "rust"));
    matrix.add_file(create_test_file_node("b.rs", "rust"));
    matrix.add_relationship(create_test_relationship("a.rs", "missing.rs"));
    matrix.add_relationship(create_test_relationship("missing.rs", "b.rs"));
    matrix.add_relationship(create_test_relationship("a.rs", "b.rs"));

    assert_eq!(matrix.relationships.len(), 3);
    assert_eq!(paths_of(&matrix.find_dependencies("a.rs")), vec!["b.rs".to_string()]);
    assert_eq!(paths_of(&matrix.find_dependents("b.rs")), vec!["a.rs".to_string()]);
    assert!(matrix.find_dependents("missing.rs").is_empty());
    assert!(matrix.find_dependencies("missing.rs").is_empty());
}

#[test]
fn queries_follow_each_mutation() {
    let mut matrix = ProjectMatrix::new("/test".to_string());
    matrix.add_file(create_test_file_node("a.rs", "rust"));
    matrix.add_relationship(create_test_relationship("a.rs", "b.rs"));
    assert!(matrix.find_dependencies("a.rs").is_empty());

    matrix.add_file(create_test_file_node("b.rs", "rust"));
    assert_eq!(paths_of(&matrix.find_dependencies("a.rs")), vec!["b.rs".to_string()]);

    matrix.add_file(create_test_file_node("c.rs", "rust"));
    matrix.add_relationship(create_test_relationship("a.rs", "c.rs"));
    assert_eq!(
        paths_of(&matrix.find_dependencies("a.rs")),
        vec!["c.rs".to_string(), "b.rs".to_string()]
    );
}

#[test]
fn budget_skips_a_large_file_and_keeps_going() {
    let mut matrix = ProjectMatrix::new("/test".to_string());
    for (p, t) in [("a.rs", 500u64), ("b.rs", 700), ("c.rs", 200), ("d.rs", 200)] {
        let mut f = create_test_file_node(p, "rust");
        f.token_info.total_tokens = t;
        matrix.add_file(f);
    }
    let info = matrix.get_token_budget_info(900);
    assert_eq!(info.included_files, vec!["b.rs".to_string(), "c.rs".to_string()]);
    assert_eq!(info.excluded_files, vec!["a.rs".to_string(), "d.rs".to_string()]);
    assert_eq!(info.used_tokens, 900);
    assert_eq!(info.remaining_tokens, 0);

    let empty = ProjectMatrix::new("/test".to_string()).get_token_budget_info(10);
    assert!(empty.included_files.is_empty() && empty.excluded_files.is_empty());
    assert_eq!(empty.remaining_tokens, 10);
}

#[test]
fn token_ranking_keeps_insertion_order_on_ties() {
    let mut matrix = ProjectMatrix::new("/test".to_string());
    for p in ["x.rs", "y.rs", "z.rs"] {
        matrix.add_file(create_test_file_node(p, "rust"));
    }
    let ranked = paths_of(&matrix.get_files_by_token_count());
    assert_eq!(ranked, vec!["x.rs".to_string(), "y.rs".to_string(), "z.rs".to_string()]);
}

#[test]
fn coupling_lists_at_most_ten_and_breaks_ties_by_order() {
    let mut matrix = ProjectMatrix::new("/test".to_string());
    for i in 0..12 {
        matrix.add_file(create_test_file_node(&format!("f{i}.rs"), "rust"));
    }
    matrix.add_relationship(create_test_relationship("f0.rs", "f5.rs"));
    let metrics = matrix.calculate_metrics();
    assert_eq!(metrics.highly_coupled_files.len(), 10);
    assert_eq!(metrics.highly_coupled_files[0], ("f5.rs".to_string(), 1));
    assert_eq!(metrics.highly_coupled_files[1], ("f0.rs".to_string(), 0));
    assert_eq!(metrics.highly_coupled_files[2], ("f1.rs".to_string(), 0));
}

#[test]
fn finalize_detects_python_entrypoints_and_average() {
    let mut matrix = ProjectMatrix::new("/test".to_string());
    let mut main_module = create_test_file_node("/test/pkg/__main__.py", "python");
    main_module.relative_path = "pkg/__main__.py".to_string();
    let mut script = create_test_file_node("/test/tool.py", "python");
    script.relative_path = "tool.py".to_string();
    script.token_info.total_tokens = 101;
    script.elements.push(csd::matrix::CodeElement {
        element_type: ElementType::Variable,
        name: "__name__".to_string(),
        signature: None,
        line_start: 3,
        line_end: 3,
        summary: None,
        complexity_score: None,
        calls: vec![],
        metadata: "{\"is_main_check\": true}".to_string(),
        tokens: 4,
    });
    let mut guard_off = script.elements[0].clone();
    guard_off.metadata = "{\"is_main_check\": false}".to_string();
    script.elements.push(guard_off);
    matrix.add_file(main_module);
    matrix.add_file(script);
    matrix.finalize();

    let eps = &matrix.project_info.entrypoints;
    assert_eq!(eps.len(), 2);
    assert_eq!(eps[0].file_path, "pkg/__main__.py");
    assert_eq!(eps[0].entrypoint_type, "main");
    assert_eq!(eps[0].confidence, 90);
    assert_eq!(eps[1].file_path, "tool.py");
    assert_eq!(eps[1].entrypoint_type, "script");
    assert_eq!(eps[1].confidence, 90);
    assert!(matches!(matrix.project_info.project_type, ProjectType::Binary));
    assert_eq!(matrix.project_info.main_language, "python");
    assert_eq!(matrix.project_info.token_summary.average_tokens_per_file, 178);
}

#[test]
fn finalize_without_files_sets_average_to_zero() {
    let mut matrix = ProjectMatrix::new("/test".to_string());
    matrix.project_info.token_summary.average_tokens_per_file = 7;
    matrix.finalize();
    assert_eq!(matrix.project_info.token_summary.average_tokens_per_file, 0);
}

#[test]
fn totals_match_detects_inconsistent_parts() {
    let mut matrix = ProjectMatrix::new("/p".to_string());
    matrix.add_file(create_test_file_node("a.rs", "rust"));
    assert!(matrix.totals_match());
    let mut subset = matrix.clone().subset(&vec![]);
    assert!(!subset.totals_match());
    subset.metadata.total_files = 0;
    subset.metadata.total_size_bytes = 0;
    subset.metadata.total_tokens = 0;
    subset.project_info.token_summary.total_tokens = 0;
    subset.project_info.token_summary.code_tokens = 0;
    subset.project_info.token_summary.documentation_tokens = 0;
    assert!(subset.totals_match());
}

#[test]
fn main_language_is_the_most_common_first_on_ties() {
    let mut matrix = ProjectMatrix::new("/test".to_string());
    matrix.add_file(create_test_file_node("a.py", "python"));
    matrix.add_file(create_test_file_node("b.rs", "rust"));
    matrix.add_file(create_test_file_node("c.rs", "rust"));
    let mut d = create_test_file_node("d.txt", "text");
    d.language = None;
    matrix.add_file(d);
    matrix.finalize();
    assert_eq!(matrix.project_info.main_language, "rust");
    assert!(matches!(matrix.project_info.project_type, ProjectType::Unknown));

    let mut tie = ProjectMatrix::new("/t".to_string());
    tie.add_file(create_test_file_node("a.py", "python"));
    tie.add_file(create_test_file_node("b.rs", "rust"));
    tie.finalize();
    assert_eq!(tie.project_info.main_language, "python");
}

#[test]
fn subset_keeps_requested_files_and_inner_relationships() {
    let mut matrix = ProjectMatrix::new("/test/project".to_string());
    for p in ["src/main.rs", "src/lib.rs", "src/utils.rs"] {
        matrix.add_file(create_test_file_node(p, "rust"));
    }
    matrix.add_relationship(create_test_relationship("src/main.rs", "src/lib.rs"));
    matrix.add_relationship(create_test_relationship("src/lib.rs", "src/utils.rs"));
    matrix.add_external_dependency(ExternalDependency {
        name: "serde".to_string(),
        version: None,
        ecosystem: "cargo".to_string(),
        dependency_type: DependencyType::Runtime,
        source_file: "src/utils.rs".to_string(),
    });
    matrix.finalize();

    let wanted = vec![
        "src/main.rs".to_string(),
        "src/lib.rs".to_string(),
        "not/there.rs".to_string(),
    ];
    let mut subset = matrix.subset(&wanted);

    assert_eq!(subset.files.len(), 2);
    assert!(subset.contains_file("src/main.rs"));
    assert!(subset.contains_file("src/lib.rs"));
    assert!(!subset.contains_file("src/utils.rs"));
    assert_eq!(subset.relationships.len(), 1);
    assert_eq!(subset.relationships[0].from_file, "src/main.rs");
    assert_eq!(subset.relationships[0].to_file, "src/lib.rs");
    assert!(subset.external_dependencies.is_empty());
    assert_eq!(subset.metadata.total_files, 3);
    assert_eq!(paths_of(&subset.find_dependents("src/lib.rs")), vec!["src/main.rs".to_string()]);
}

#[test]
fn from_parts_rebuilds_and_rejects_duplicate_paths() {
    let mut matrix = ProjectMatrix::new("/p".to_string());
    matrix.add_file(create_test_file_node("a.rs", "rust"));
    matrix.add_file(create_test_file_node("b.rs", "rust"));
    matrix.add_relationship(create_test_relationship("a.rs", "b.rs"));
    let copy = matrix.clone();
    let mut rebuilt = ProjectMatrix::from_parts(
        copy.metadata,
        copy.files,
        copy.relationships,
        copy.external_dependencies,
        copy.project_info,
    )
    .expect("unique paths");
    assert_eq!(rebuilt.metadata.total_files, 2);
    assert_eq!(paths_of(&rebuilt.find_dependents("b.rs")), vec!["a.rs".to_string()]);

    let dup = ProjectMatrix::from_parts(
        matrix.metadata.clone(),
        vec![create_test_file_node("a.rs", "rust"), create_test_file_node("a.rs", "rust")],
        vec![],
        vec![],
        matrix.project_info.clone(),
    );
    assert!(matches!(dup, Err(MatrixError::DuplicatePath)));
}

#[test]
fn token_estimates_exact_values() {
    assert_eq!(estimate_tokens(""), 0);
    assert_eq!(estimate_tokens("abcd"), 1);
    assert_eq!(estimate_tokens("abcde"), 2);
    assert_eq!(estimate_tokens("é"), 1);
    assert_eq!(estimate_code_tokens("fn main() { println!(\"Hello\"); }"), 9);
    assert_eq!(estimate_code_tokens(""), 1);
    assert_eq!(estimate_code_tokens("a\u{3000}b"), 2);
}
