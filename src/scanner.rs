//! The scan orchestrator's decisions: which files are skipped, which are
//! text, which plugin analyzes a file and where it lives, and how an
//! analyzer's report is folded into the matrix. Walking the tree, reading
//! files and talking to plugins happen outside the library.
use vstd::prelude::*;
use crate::config::{dotted_extension, file_name_or_empty, first_claiming, Config, PluginSource};
use crate::interface::PluginOutput;
use crate::interface;
use crate::matrix::{
    CodeElement, DependencyType, ElementType, ExternalDependency, FileNode, Import, ImportType,
    ProjectMatrix, Relationship, RelationshipType, TokenInfo,
};
use crate::paths::{
    extension_of, file_name_of, has_prefix, has_suffix, lower_of, lowercase, occurs_in,
    text_contains, text_ends_with, text_starts_with,
};

verus! {

/// A file found by the scan.
#[derive(Debug, Clone)]
pub struct FileInfo {
    pub path: String,
    pub relative_path: String,
    /// The lowercased extension with its leading dot.
    pub extension: Option<String>,
    pub size_bytes: u64,
    pub is_text: bool,
    /// The input plugin that claims the file.
    pub plugin_name: Option<String>,
    pub content_hash: String,
}

/// Why a scan step failed.
#[derive(Debug, Clone, PartialEq, Eq)]
pub enum ScanError {
    /// A file names an input plugin that the configuration does not have.
    UnknownPlugin { name: String },
}

/// A scan of one project under one configuration.
pub struct ProjectScanner {
    config: Config,
    project_root: String,
}

// ---------------------------------------------------------------------------
// Ignore patterns and text files
// ---------------------------------------------------------------------------

/// A path matches an ignore pattern: `dir/` when `dir` occurs in it, `*.ext`
/// when it ends with `.ext`, any other pattern when it occurs in it.
pub open spec fn matches_ignore(path: Seq<char>, pattern: Seq<char>) -> bool {
    if pattern.len() > 0 && pattern.last() == '/' {
        occurs_in(path, pattern.drop_last())
    } else if has_prefix(pattern, "*."@) {
        has_suffix(path, pattern.subrange(1, pattern.len() as int))
    } else {
        occurs_in(path, pattern)
    }
}

/// Extensions of text files that no plugin claims.
pub open spec fn is_text_extension(ext: Seq<char>) -> bool {
    ext == ".md"@ || ext == ".rst"@ || ext == ".txt"@ || ext == ".asciidoc"@ || ext == ".adoc"@
        || ext == ".org"@ || ext == ".tex"@ || ext == ".ini"@ || ext == ".cfg"@ || ext == ".conf"@
        || ext == ".properties"@ || ext == ".env"@ || ext == ".gitignore"@ || ext
        == ".gitattributes"@ || ext == ".dockerignore"@ || ext == ".editorconfig"@
}

/// Names (lowercased) of text files without an extension.
pub open spec fn is_text_name(name: Seq<char>) -> bool {
    name == "readme"@ || name == "license"@ || name == "copyright"@ || name == "authors"@ || name
        == "contributors"@ || name == "changelog"@ || name == "news"@ || name == "dockerfile"@
        || name == "makefile"@ || name == ".gitignore"@ || name == ".gitattributes"@ || name
        == ".dockerignore"@ || name == ".editorconfig"@
}

/// Whether a string equals one of `options`.
fn equals_any(s: &String, options: &Vec<String>) -> (r: bool)
    ensures
        r == crate::matrix::str_views(options@).contains(s@),
{
    crate::matrix::contains_string(options, s)
}

fn strings(items: &[&str]) -> (r: Vec<String>)
    ensures
        crate::matrix::str_views(r@) == items@.map_values(|t: &str| t@),
{
    let mut out: Vec<String> = Vec::new();
    let mut i: usize = 0;
    while i < items.len()
        invariant
            i <= items@.len(),
            crate::matrix::str_views(out@) == items@.subrange(0, i as int).map_values(|t: &str| t@),
        decreases items@.len() - i,
    {
        let ghost prev = out@;
        out.push(String::from_str(items[i]));
        assert(crate::matrix::str_views(out@) =~= crate::matrix::str_views(prev).push(items@[i as int]@));
        assert(items@.subrange(0, i + 1).map_values(|t: &str| t@) =~= items@.subrange(
            0,
            i as int,
        ).map_values(|t: &str| t@).push(items@[i as int]@));
        i += 1;
    }
    assert(items@.subrange(0, items@.len() as int) =~= items@);
    out
}

/// Whether `ext` is one of the text extensions.
fn text_extension(ext: &String) -> (r: bool)
    ensures
        r == is_text_extension(ext@),
{
    let known = strings(
        &[
            ".md",
            ".rst",
            ".txt",
            ".asciidoc",
            ".adoc",
            ".org",
            ".tex",
            ".ini",
            ".cfg",
            ".conf",
            ".properties",
            ".env",
            ".gitignore",
            ".gitattributes",
            ".dockerignore",
            ".editorconfig",
        ],
    );
    let r = equals_any(ext, &known);
    proof {
        let v = crate::matrix::str_views(known@);
        if r {
            let w = choose|w: int| 0 <= w < v.len() && v[w] == ext@;
            assert(0 <= w < 16);
        }
        if is_text_extension(ext@) {
            assert(v.contains(ext@)) by {
                if ext@ == ".md"@ { assert(v[0] == ext@); }
                else if ext@ == ".rst"@ { assert(v[1] == ext@); }
                else if ext@ == ".txt"@ { assert(v[2] == ext@); }
                else if ext@ == ".asciidoc"@ { assert(v[3] == ext@); }
                else if ext@ == ".adoc"@ { assert(v[4] == ext@); }
                else if ext@ == ".org"@ { assert(v[5] == ext@); }
                else if ext@ == ".tex"@ { assert(v[6] == ext@); }
                else if ext@ == ".ini"@ { assert(v[7] == ext@); }
                else if ext@ == ".cfg"@ { assert(v[8] == ext@); }
                else if ext@ == ".conf"@ { assert(v[9] == ext@); }
                else if ext@ == ".properties"@ { assert(v[10] == ext@); }
                else if ext@ == ".env"@ { assert(v[11] == ext@); }
                else if ext@ == ".gitignore"@ { assert(v[12] == ext@); }
                else if ext@ == ".gitattributes"@ { assert(v[13] == ext@); }
                else if ext@ == ".dockerignore"@ { assert(v[14] == ext@); }
                else { assert(v[15] == ext@); }
            }
        }
    }
    r
}

/// Whether `name` (lowercased) is one of the text file names.
fn text_name(name: &String) -> (r: bool)
    ensures
        r == is_text_name(name@),
{
    let known = strings(
        &[
            "readme",
            "license",
            "copyright",
            "authors",
            "contributors",
            "changelog",
            "news",
            "dockerfile",
            "makefile",
            ".gitignore",
            ".gitattributes",
            ".dockerignore",
            ".editorconfig",
        ],
    );
    let r = equals_any(name, &known);
    proof {
        let v = crate::matrix::str_views(known@);
        if r {
            let w = choose|w: int| 0 <= w < v.len() && v[w] == name@;
            assert(0 <= w < 13);
        }
        if is_text_name(name@) {
            assert(v.contains(name@)) by {
                if name@ == "readme"@ { assert(v[0] == name@); }
                else if name@ == "license"@ { assert(v[1] == name@); }
                else if name@ == "copyright"@ { assert(v[2] == name@); }
                else if name@ == "authors"@ { assert(v[3] == name@); }
                else if name@ == "contributors"@ { assert(v[4] == name@); }
                else if name@ == "changelog"@ { assert(v[5] == name@); }
                else if name@ == "news"@ { assert(v[6] == name@); }
                else if name@ == "dockerfile"@ { assert(v[7] == name@); }
                else if name@ == "makefile"@ { assert(v[8] == name@); }
                else if name@ == ".gitignore"@ { assert(v[9] == name@); }
                else if name@ == ".gitattributes"@ { assert(v[10] == name@); }
                else if name@ == ".dockerignore"@ { assert(v[11] == name@); }
                else { assert(v[12] == name@); }
            }
        }
    }
    r
}

/// Whether `path` matches `pattern` (see `matches_ignore`).
pub fn matches_ignore_pattern(path: &str, pattern: &String) -> (r: bool)
    ensures
        r == matches_ignore(path@, pattern@),
{
    let n = pattern.as_str().unicode_len();
    if n > 0 && pattern.as_str().get_char(n - 1) == '/' {
        let dir = pattern.as_str().substring_char(0, n - 1);
        assert(dir@ =~= pattern@.drop_last());
        text_contains(path, dir)
    } else if text_starts_with(pattern.as_str(), "*.") {
        proof {
            reveal_strlit("*.");
        }
        let ext = pattern.as_str().substring_char(1, n);
        text_ends_with(path, ext)
    } else {
        text_contains(path, pattern.as_str())
    }
}

impl ProjectScanner {
    pub closed spec fn spec_config(&self) -> Config {
        self.config
    }

    pub closed spec fn spec_root(&self) -> Seq<char> {
        self.project_root@
    }

    /// A scanner of the current directory.
    pub fn new(config: Config) -> (r: Self)
        ensures
            r.spec_config() == config,
            r.spec_root() == "."@,
    {
        ProjectScanner { config, project_root: String::from_str(".") }
    }

    pub fn with_root(self, root: String) -> (r: Self)
        ensures
            r.spec_config() == self.spec_config(),
            r.spec_root() == root@,
    {
        ProjectScanner { project_root: root, ..self }
    }

    pub fn config(&self) -> (r: &Config)
        ensures
            *r == self.spec_config(),
    {
        &self.config
    }

    pub fn project_root(&self) -> (r: &String)
        ensures
            r@ == self.spec_root(),
    {
        &self.project_root
    }

    /// Whether `path` matches one of the configured ignore patterns.
    pub fn should_ignore_file(&self, path: &str) -> (r: bool)
        ensures
            r == exists|i: int|
                0 <= i < self.spec_config().scanning.ignore_patterns@.len() && matches_ignore(
                    path@,
                    (#[trigger] self.spec_config().scanning.ignore_patterns@[i])@,
                ),
    {
        let patterns = &self.config.scanning.ignore_patterns;
        let mut i: usize = 0;
        while i < patterns.len()
            invariant
                i <= patterns@.len(),
                patterns@ == self.spec_config().scanning.ignore_patterns@,
                forall|j: int| 0 <= j < i ==> !matches_ignore(path@, (#[trigger] patterns@[j])@),
            decreases patterns@.len() - i,
        {
            if matches_ignore_pattern(path, &patterns[i]) {
                assert(matches_ignore(path@, self.spec_config().scanning.ignore_patterns@[i as int]@));
                return true;
            }
            i += 1;
        }
        false
    }

    /// Whether the file at `path`, with lowercased dotted `extension`, is
    /// text: an input plugin claims it, or its extension is a text extension,
    /// or, without an extension, its lowercased name is a text file name.
    pub fn is_text_file(&self, path: &str, extension: &Option<String>) -> (r: bool)
        ensures
            r == (first_claiming(
                self.spec_config().input_plugins@,
                dotted_extension(path@),
                file_name_or_empty(path@),
            ) >= 0 || match *extension {
                Some(e) => is_text_extension(e@),
                None => is_text_name(lower_of(file_name_or_empty(path@))),
            }),
    {
        if self.config.find_input_plugin_for_file(path).is_some() {
            return true;
        }
        match extension {
            Some(e) => text_extension(e),
            None => {
                let name = match file_name_of(path) {
                    Some(n) => n,
                    None => String::new(),
                };
                text_name(&lowercase(name.as_str()))
            },
        }
    }

    /// Whether a file of `size_bytes` is within the configured size limit
    /// (in mebibytes).
    pub fn within_size_limit(&self, size_bytes: u64) -> (r: bool)
        ensures
            r == (size_bytes <= self.spec_config().scanning.max_file_size_mb * 1024 * 1024),
    {
        (size_bytes as u128) <= (self.config.scanning.max_file_size_mb as u128) * 1024 * 1024
    }

    /// What the scan records about one file: its lowercased dotted extension,
    /// whether it is text, and the input plugin that claims it.
    pub fn file_info(
        &self,
        path: String,
        relative_path: String,
        size_bytes: u64,
        content_hash: String,
    ) -> (r: FileInfo)
        ensures
            r.path == path,
            r.relative_path == relative_path,
            r.size_bytes == size_bytes,
            r.content_hash == content_hash,
            match r.extension {
                Some(e) => dotted_extension(path@) == Some(e@),
                None => dotted_extension(path@) is None,
            },
            r.is_text == (first_claiming(
                self.spec_config().input_plugins@,
                dotted_extension(path@),
                file_name_or_empty(path@),
            ) >= 0 || match dotted_extension(path@) {
                Some(e) => is_text_extension(e),
                None => is_text_name(lower_of(file_name_or_empty(path@))),
            }),
            ({
                let i = first_claiming(
                    self.spec_config().input_plugins@,
                    dotted_extension(path@),
                    file_name_or_empty(path@),
                );
                &&& i < 0 ==> r.plugin_name is None
                &&& i >= 0 ==> r.plugin_name is Some && r.plugin_name->0@
                    == self.spec_config().input_plugins@[i].0@
            }),
    {
        let extension = match extension_of(path.as_str()) {
            Some(e) => {
                let mut dotted = String::from_str(".");
                dotted.append(lowercase(e.as_str()).as_str());
                Some(dotted)
            },
            None => None,
        };
        let is_text = self.is_text_file(path.as_str(), &extension);
        let plugin_name = self.config.find_input_plugin_for_file(path.as_str());
        FileInfo { path, relative_path, extension, size_bytes, is_text, plugin_name, content_hash }
    }

    /// Whether a file goes to its plugin: it is text and a plugin claims it.
    pub fn should_analyze(info: &FileInfo) -> (r: bool)
        ensures
            r == (info.is_text && info.plugin_name is Some),
    {
        info.is_text && info.plugin_name.is_some()
    }

    /// Where the input plugin `plugin_name` lives: a built-in analyzer under
    /// `plugins/input/`, a local plugin at its path; none for remote sources,
    /// whose files are analyzed without a plugin. Fails when the plugin is
    /// not configured.
    pub fn plugin_path_for(&self, plugin_name: &str) -> (r: Result<Option<String>, ScanError>)
        ensures
            ({
                let entries = self.spec_config().input_plugins@;
                let i = crate::config::name_index(entries, plugin_name@);
                &&& i < 0 ==> (r matches Err(ScanError::UnknownPlugin { name }) && name@
                    == plugin_name@)
                &&& i >= 0 ==> match entries[i].1.source {
                    PluginSource::Builtin { name, .. } => (r matches Ok(Some(p)) && p@
                        == "plugins/input/"@ + name@ + "_analyzer.py"@),
                    PluginSource::Local { path } => (r matches Ok(Some(p)) && p@ == path@),
                    _ => r matches Ok(None),
                }
            }),
    {
        match self.config.get_input_plugin(plugin_name) {
            None => Err(ScanError::UnknownPlugin { name: String::from_str(plugin_name) }),
            Some(cfg) => match &cfg.source {
                PluginSource::Builtin { name, .. } => {
                    let mut p = String::from_str("plugins/input/");
                    p.append(name.as_str());
                    p.append("_analyzer.py");
                    Ok(Some(p))
                },
                PluginSource::Local { path } => Ok(Some(path.clone())),
                _ => Ok(None),
            },
        }
    }

    /// A node for a file that was not analyzed: its scan facts, the plugin
    /// that claims it (or `unknown`) and, as language, that plugin's name;
    /// no elements, imports, exports or summary, and zero tokens.
    pub fn create_basic_file_node(&self, info: &FileInfo) -> (r: FileNode)
        ensures
            node_from_scan(r, *info),
            language_from_config(r, self.spec_config(), info.path@),
            r.elements@.len() == 0,
            r.imports@.len() == 0,
            r.exports@.len() == 0,
            r.file_summary is None,
            r.token_info == (TokenInfo {
                total_tokens: 0,
                code_tokens: 0,
                documentation_tokens: 0,
                comment_tokens: 0,
            }),
    {
        FileNode {
            path: info.path.clone(),
            relative_path: info.relative_path.clone(),
            hash: info.content_hash.clone(),
            size_bytes: info.size_bytes,
            plugin: plugin_label(&info.plugin_name),
            language: self.config.find_input_plugin_for_file(info.path.as_str()),
            is_text: info.is_text,
            elements: Vec::new(),
            imports: Vec::new(),
            exports: Vec::new(),
            file_summary: None,
            token_info: TokenInfo {
                total_tokens: 0,
                code_tokens: 0,
                documentation_tokens: 0,
                comment_tokens: 0,
            },
        }
    }
}

/// The plugin name recorded for a file: the one that claims it, or `unknown`.
fn plugin_label(name: &Option<String>) -> (r: String)
    ensures
        r@ == match *name {
            Some(n) => n@,
            None => "unknown"@,
        },
{
    match name {
        Some(n) => n.clone(),
        None => String::from_str("unknown"),
    }
}

/// A node carries the scan facts of its file.
pub open spec fn node_from_scan(n: FileNode, info: FileInfo) -> bool {
    &&& n.path@ == info.path@
    &&& n.relative_path@ == info.relative_path@
    &&& n.hash@ == info.content_hash@
    &&& n.size_bytes == info.size_bytes
    &&& n.is_text == info.is_text
    &&& n.plugin@ == match info.plugin_name {
        Some(p) => p@,
        None => "unknown"@,
    }
}

/// A node's language is the name of the input plugin that claims its path.
pub open spec fn language_from_config(n: FileNode, config: Config, path: Seq<char>) -> bool {
    let i = first_claiming(config.input_plugins@, dotted_extension(path), file_name_or_empty(path));
    &&& i < 0 ==> n.language is None
    &&& i >= 0 ==> n.language is Some && n.language->0@ == config.input_plugins@[i].0@
}

// ---------------------------------------------------------------------------
// Folding an analyzer's report into the matrix
// ---------------------------------------------------------------------------

/// The element kind an analyzer's name stands for; unknown names are
/// functions.
pub open spec fn element_type_of(s: Seq<char>) -> ElementType {
    if s == "function"@ {
        ElementType::Function
    } else if s == "method"@ {
        ElementType::Method
    } else if s == "class"@ {
        ElementType::Class
    } else if s == "struct"@ {
        ElementType::Struct
    } else if s == "enum"@ {
        ElementType::Enum
    } else if s == "interface"@ {
        ElementType::Interface
    } else if s == "module"@ {
        ElementType::Module
    } else if s == "variable"@ {
        ElementType::Variable
    } else if s == "constant"@ {
        ElementType::Constant
    } else if s == "type"@ {
        ElementType::Type
    } else {
        ElementType::Function
    }
}

/// The import kind an analyzer's name stands for; unknown names are standard.
pub open spec fn import_type_of(s: Seq<char>) -> ImportType {
    if s == "third_party"@ {
        ImportType::ThirdParty
    } else if s == "local"@ {
        ImportType::Local
    } else if s == "relative"@ {
        ImportType::Relative
    } else {
        ImportType::Standard
    }
}

/// The relationship kind an analyzer's name stands for; unknown names are
/// imports.
pub open spec fn relationship_type_of(s: Seq<char>) -> RelationshipType {
    if s == "call"@ {
        RelationshipType::Call
    } else if s == "inheritance"@ {
        RelationshipType::Inheritance
    } else if s == "configuration"@ {
        RelationshipType::Configuration
    } else if s == "test"@ {
        RelationshipType::Test
    } else if s == "documentation"@ {
        RelationshipType::Documentation
    } else if s == "build"@ {
        RelationshipType::Build
    } else {
        RelationshipType::Import
    }
}

/// The dependency kind an analyzer's name stands for; unknown names are
/// runtime dependencies.
pub open spec fn dependency_type_of(s: Seq<char>) -> DependencyType {
    if s == "development"@ {
        DependencyType::Development
    } else if s == "build"@ {
        DependencyType::Build
    } else if s == "optional"@ {
        DependencyType::Optional
    } else {
        DependencyType::Runtime
    }
}

fn same(s: &String, lit: &str) -> (r: bool)
    ensures
        r == (s@ == lit@),
{
    *s == String::from_str(lit)
}

fn element_type_from(s: &String) -> (r: ElementType)
    ensures
        r == element_type_of(s@),
{
    if same(s, "function") {
        ElementType::Function
    } else if same(s, "method") {
        ElementType::Method
    } else if same(s, "class") {
        ElementType::Class
    } else if same(s, "struct") {
        ElementType::Struct
    } else if same(s, "enum") {
        ElementType::Enum
    } else if same(s, "interface") {
        ElementType::Interface
    } else if same(s, "module") {
        ElementType::Module
    } else if same(s, "variable") {
        ElementType::Variable
    } else if same(s, "constant") {
        ElementType::Constant
    } else if same(s, "type") {
        ElementType::Type
    } else {
        ElementType::Function
    }
}

fn import_type_from(s: &String) -> (r: ImportType)
    ensures
        r == import_type_of(s@),
{
    if same(s, "third_party") {
        ImportType::ThirdParty
    } else if same(s, "local") {
        ImportType::Local
    } else if same(s, "relative") {
        ImportType::Relative
    } else {
        ImportType::Standard
    }
}

fn relationship_type_from(s: &String) -> (r: RelationshipType)
    ensures
        r == relationship_type_of(s@),
{
    if same(s, "call") {
        RelationshipType::Call
    } else if same(s, "inheritance") {
        RelationshipType::Inheritance
    } else if same(s, "configuration") {
        RelationshipType::Configuration
    } else if same(s, "test") {
        RelationshipType::Test
    } else if same(s, "documentation") {
        RelationshipType::Documentation
    } else if same(s, "build") {
        RelationshipType::Build
    } else {
        RelationshipType::Import
    }
}

fn dependency_type_from(s: &String) -> (r: DependencyType)
    ensures
        r == dependency_type_of(s@),
{
    if same(s, "development") {
        DependencyType::Development
    } else if same(s, "build") {
        DependencyType::Build
    } else if same(s, "optional") {
        DependencyType::Optional
    } else {
        DependencyType::Runtime
    }
}

/// `m` is the matrix form of the reported element `e`, with no token count.
pub open spec fn converted_element(e: interface::CodeElement, m: CodeElement) -> bool {
    &&& m.element_type == element_type_of(e.element_type@)
    &&& m.name == e.name
    &&& m.signature == e.signature
    &&& m.line_start == e.line_start
    &&& m.line_end == e.line_end
    &&& m.summary == e.summary
    &&& m.complexity_score == e.complexity_score
    &&& m.calls == e.calls
    &&& m.metadata == e.metadata
    &&& m.tokens == 0
}

/// `m` is the matrix form of the reported import `i`.
pub open spec fn converted_import(i: interface::Import, m: Import) -> bool {
    &&& m.module == i.module
    &&& m.items == i.items
    &&& m.alias == i.alias
    &&& m.line_number == i.line_number
    &&& m.import_type == import_type_of(i.import_type@)
}

/// `m` is the matrix form of the reported relationship `r`.
pub open spec fn converted_relationship(r: interface::Relationship, m: Relationship) -> bool {
    &&& m.from_file == r.from_file
    &&& m.to_file == r.to_file
    &&& m.relationship_type == relationship_type_of(r.relationship_type@)
    &&& m.details == r.details
    &&& m.line_number == r.line_number
    &&& m.strength == r.strength
}

/// `m` is the matrix form of the reported dependency `d`.
pub open spec fn converted_dependency(d: interface::ExternalDependency, m: ExternalDependency) -> bool {
    &&& m.name == d.name
    &&& m.version == d.version
    &&& m.ecosystem == d.ecosystem
    &&& m.dependency_type == dependency_type_of(d.dependency_type@)
    &&& m.source_file == d.source_file
}

impl ProjectScanner {
    /// Folds an analyzer's report on `info` into `matrix` and builds the
    /// file's node: the report's relationships and dependencies are appended
    /// to the matrix in order, its elements and imports are converted to the
    /// matrix's kinds (unknown kind names fall back as the `*_type_of`
    /// functions say), and the node gets the scan facts, the claiming
    /// plugin's name as language, and `token_info`.
    pub fn convert_plugin_output_to_file_node(
        &self,
        info: &FileInfo,
        output: PluginOutput,
        token_info: TokenInfo,
        matrix: &mut ProjectMatrix,
    ) -> (r: FileNode)
        requires
            old(matrix).wf(),
        ensures
            final(matrix).wf(),
            final(matrix).files@ == old(matrix).files@,
            final(matrix).metadata == old(matrix).metadata,
            final(matrix).project_info == old(matrix).project_info,
            final(matrix).relationships@.len() == old(matrix).relationships@.len()
                + output.relationships@.len(),
            forall|j: int|
                0 <= j < old(matrix).relationships@.len() ==> final(matrix).relationships@[j]
                    == old(matrix).relationships@[j],
            forall|j: int|
                0 <= j < output.relationships@.len() ==> converted_relationship(
                    output.relationships@[j],
                    #[trigger] final(matrix).relationships@[old(matrix).relationships@.len() + j],
                ),
            final(matrix).external_dependencies@.len() == old(matrix).external_dependencies@.len()
                + output.external_dependencies@.len(),
            forall|j: int|
                0 <= j < old(matrix).external_dependencies@.len() ==> final(matrix).external_dependencies@[j] == old(matrix).external_dependencies@[j],
            forall|j: int|
                0 <= j < output.external_dependencies@.len() ==> converted_dependency(
                    output.external_dependencies@[j],
                    #[trigger] final(matrix).external_dependencies@[old(matrix).external_dependencies@.len() + j],
                ),
            node_from_scan(r, *info),
            language_from_config(r, self.spec_config(), info.path@),
            r.elements@.len() == output.elements@.len(),
            forall|j: int|
                0 <= j < output.elements@.len() ==> converted_element(
                    output.elements@[j],
                    #[trigger] r.elements@[j],
                ),
            r.imports@.len() == output.imports@.len(),
            forall|j: int|
                0 <= j < output.imports@.len() ==> converted_import(
                    output.imports@[j],
                    #[trigger] r.imports@[j],
                ),
            r.exports == output.exports,
            r.file_summary == output.file_summary,
            r.token_info == token_info,
    {
        let PluginOutput {
            elements: src_elements,
            imports: src_imports,
            exports,
            relationships: src_rels,
            external_dependencies: src_deps,
            file_summary,
            ..
        } = output;

        let ghost all = src_elements@;
        let mut pending = src_elements;
        let mut elements: Vec<CodeElement> = Vec::new();
        let n = pending.len();
        let mut k: usize = 0;
        while k < n
            invariant
                n == all.len(),
                k <= n,
                pending@ == all.subrange(k as int, n as int),
                elements@.len() == k,
                forall|j: int| 0 <= j < k ==> converted_element(all[j], #[trigger] elements@[j]),
            decreases n - k,
        {
            let e = pending.remove(0);
            assert(e == all[k as int]);
            let interface::CodeElement {
                element_type,
                name,
                signature,
                line_start,
                line_end,
                summary,
                complexity_score,
                calls,
                metadata,
            } = e;
            elements.push(
                CodeElement {
                    element_type: element_type_from(&element_type),
                    name,
                    signature,
                    line_start,
                    line_end,
                    summary,
                    complexity_score,
                    calls,
                    metadata,
                    tokens: 0,
                },
            );
            assert(pending@ =~= all.subrange(k + 1, n as int));
            k += 1;
        }

        let ghost all = src_imports@;
        let mut pending = src_imports;
        let mut imports: Vec<Import> = Vec::new();
        let n = pending.len();
        let mut k: usize = 0;
        while k < n
            invariant
                n == all.len(),
                k <= n,
                pending@ == all.subrange(k as int, n as int),
                imports@.len() == k,
                forall|j: int| 0 <= j < k ==> converted_import(all[j], #[trigger] imports@[j]),
            decreases n - k,
        {
            let i = pending.remove(0);
            assert(i == all[k as int]);
            let interface::Import { module, items, alias, line_number, import_type } = i;
            imports.push(
                Import {
                    module,
                    items,
                    alias,
                    line_number,
                    import_type: import_type_from(&import_type),
                },
            );
            assert(pending@ =~= all.subrange(k + 1, n as int));
            k += 1;
        }

        let ghost all = src_rels@;
        let ghost base = matrix.relationships@;
        let ghost files0 = matrix.files@;
        let mut pending = src_rels;
        let n = pending.len();
        let mut k: usize = 0;
        while k < n
            invariant
                n == all.len(),
                k <= n,
                pending@ == all.subrange(k as int, n as int),
                matrix.wf(),
                matrix.files@ == old(matrix).files@,
                matrix.metadata == old(matrix).metadata,
                matrix.project_info == old(matrix).project_info,
                matrix.external_dependencies@ == old(matrix).external_dependencies@,
                base == old(matrix).relationships@,
                matrix.relationships@.len() == base.len() + k,
                forall|j: int| 0 <= j < base.len() ==> matrix.relationships@[j] == base[j],
                forall|j: int|
                    0 <= j < k ==> converted_relationship(
                        all[j],
                        #[trigger] matrix.relationships@[base.len() + j],
                    ),
            decreases n - k,
        {
            let r = pending.remove(0);
            assert(r == all[k as int]);
            let interface::Relationship {
                from_file,
                to_file,
                relationship_type,
                details,
                line_number,
                strength,
            } = r;
            matrix.add_relationship(
                Relationship {
                    from_file,
                    to_file,
                    relationship_type: relationship_type_from(&relationship_type),
                    details,
                    line_number,
                    strength,
                },
            );
            assert(pending@ =~= all.subrange(k + 1, n as int));
            k += 1;
        }

        let ghost all = src_deps@;
        let ghost base = matrix.external_dependencies@;
        let ghost rels = matrix.relationships@;
        let mut pending = src_deps;
        let n = pending.len();
        let mut k: usize = 0;
        while k < n
            invariant
                n == all.len(),
                k <= n,
                pending@ == all.subrange(k as int, n as int),
                matrix.wf(),
                matrix.files@ == old(matrix).files@,
                matrix.metadata == old(matrix).metadata,
                matrix.project_info == old(matrix).project_info,
                matrix.relationships@ == rels,
                base == old(matrix).external_dependencies@,
                matrix.external_dependencies@.len() == base.len() + k,
                forall|j: int| 0 <= j < base.len() ==> matrix.external_dependencies@[j] == base[j],
                forall|j: int|
                    0 <= j < k ==> converted_dependency(
                        all[j],
                        #[trigger] matrix.external_dependencies@[base.len() + j],
                    ),
            decreases n - k,
        {
            let d = pending.remove(0);
            assert(d == all[k as int]);
            let interface::ExternalDependency { name, version, ecosystem, dependency_type, source_file } =
                d;
            matrix.add_external_dependency(
                ExternalDependency {
                    name,
                    version,
                    ecosystem,
                    dependency_type: dependency_type_from(&dependency_type),
                    source_file,
                },
            );
            assert(pending@ =~= all.subrange(k + 1, n as int));
            k += 1;
        }

        FileNode {
            path: info.path.clone(),
            relative_path: info.relative_path.clone(),
            hash: info.content_hash.clone(),
            size_bytes: info.size_bytes,
            plugin: plugin_label(&info.plugin_name),
            language: self.config.find_input_plugin_for_file(info.path.as_str()),
            is_text: info.is_text,
            elements,
            imports,
            exports,
            file_summary,
            token_info,
        }
    }
}

/// What sha2's SHA-256 gives for `bytes`, as lowercase hexadecimal.
pub uninterp spec fn sha256_hex(bytes: Seq<u8>) -> Seq<char>;

/// Relies on sha2's `Sha256::digest`, written as lowercase hexadecimal.
#[verifier::external_body]
fn sha256_text(bytes: &[u8]) -> (r: String)
    ensures
        r@ == sha256_hex(bytes@),
        r@.len() == 64,
{
    format!("{:x}", <sha2::Sha256 as sha2::Digest>::digest(bytes))
}

/// The content hash recorded for a file: the SHA-256 digest of its bytes in
/// lowercase hexadecimal.
pub fn content_hash(bytes: &[u8]) -> (r: String)
    ensures
        r@ == sha256_hex(bytes@),
        r@.len() == 64,
{
    sha256_text(bytes)
}

} // verus!
