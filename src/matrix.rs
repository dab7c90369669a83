//! The project matrix: scanned files keyed by path, the relationships between
//! them, the external dependencies they declare, and what is derived from
//! them (totals, entrypoints, project type, coupling, token budgets).
//!
//! Files are kept in insertion order, so every ranking below breaks ties by
//! that order. The traversal graph is a cache: it is dropped on every change
//! to the files or relationships and rebuilt from them on the next query.
use vstd::prelude::*;
use crate::graph::{
    graph_add_edge, graph_add_node, graph_edges, graph_new, graph_nodes, graph_sources_into,
    graph_targets_from, index_limit, sources_into, targets_from, GraphCache,
};
use crate::paths::{file_name_of, path_file_name};
use crate::ranking::{descending_order, is_desc_order};

verus! {

/// The version string recorded in every new matrix.
pub const TOOL_VERSION: &'static str = "0.1.0";

/// What kind of program a project is, judged from its entrypoints.
#[derive(Debug, Clone, Copy, PartialEq, Eq, Structural)]
pub enum ProjectType {
    Binary,
    Library,
    WebApplication,
    Mixed,
    Unknown,
}

/// Token counts of a file or of a whole project.
#[derive(Debug, Clone, Copy, PartialEq, Eq, Structural)]
pub struct TokenInfo {
    pub total_tokens: u64,
    pub code_tokens: u64,
    pub documentation_tokens: u64,
    pub comment_tokens: u64,
}

/// Kinds of source element an analyzer reports.
#[derive(Debug, Clone, Copy, PartialEq, Eq, Structural)]
pub enum ElementType {
    Function,
    Method,
    Class,
    Struct,
    Enum,
    Interface,
    Module,
    Variable,
    Constant,
    Type,
}

/// A source element of a file. `metadata` is free-form JSON text.
#[derive(Debug, Clone)]
pub struct CodeElement {
    pub element_type: ElementType,
    pub name: String,
    pub signature: Option<String>,
    pub line_start: u32,
    pub line_end: u32,
    pub summary: Option<String>,
    pub complexity_score: Option<u32>,
    pub calls: Vec<String>,
    pub metadata: String,
    pub tokens: u64,
}

/// How an import is classified.
#[derive(Debug, Clone, Copy, PartialEq, Eq, Structural)]
pub enum ImportType {
    Standard,
    ThirdParty,
    Local,
    Relative,
}

/// An import statement of a file.
#[derive(Debug, Clone)]
pub struct Import {
    pub module: String,
    pub items: Vec<String>,
    pub alias: Option<String>,
    pub line_number: u32,
    pub import_type: ImportType,
}

/// Kinds of relationship between two files.
#[derive(Debug, Clone, Copy, PartialEq, Eq, Structural)]
pub enum RelationshipType {
    Import,
    Call,
    Inheritance,
    Configuration,
    Test,
    Documentation,
    Build,
}

/// A directed, typed link between two files. `strength` is in thousandths,
/// from 0 (weakest) to 1000 (strongest). The endpoints need not be files of
/// the matrix.
#[derive(Debug, Clone)]
pub struct Relationship {
    pub from_file: String,
    pub to_file: String,
    pub relationship_type: RelationshipType,
    pub details: String,
    pub line_number: Option<u32>,
    pub strength: u16,
}

/// How a project depends on an external package.
#[derive(Debug, Clone, Copy, PartialEq, Eq, Structural)]
pub enum DependencyType {
    Runtime,
    Development,
    Build,
    Optional,
}

/// An external package declared by a file of the project.
#[derive(Debug, Clone)]
pub struct ExternalDependency {
    pub name: String,
    pub version: Option<String>,
    pub ecosystem: String,
    pub dependency_type: DependencyType,
    pub source_file: String,
}

/// A scanned file, keyed by its absolute `path`.
#[derive(Debug, Clone)]
pub struct FileNode {
    pub path: String,
    pub relative_path: String,
    pub hash: String,
    pub size_bytes: u64,
    pub plugin: String,
    pub language: Option<String>,
    pub is_text: bool,
    pub elements: Vec<CodeElement>,
    pub imports: Vec<Import>,
    pub exports: Vec<String>,
    pub file_summary: Option<String>,
    pub token_info: TokenInfo,
}

/// A file recognised as where a program or library starts. `confidence` is
/// a percentage.
#[derive(Debug, Clone)]
pub struct EntrypointInfo {
    pub file_path: String,
    pub entrypoint_type: String,
    pub confidence: u8,
    pub reason: String,
}

/// Project-wide token accounting. `average_tokens_per_file` is rounded down.
#[derive(Debug, Clone)]
pub struct TokenSummary {
    pub total_tokens: u64,
    pub code_tokens: u64,
    pub documentation_tokens: u64,
    pub average_tokens_per_file: u64,
    pub largest_file_tokens: u64,
    pub largest_file_path: Option<String>,
}

/// What is derived about the project as a whole.
#[derive(Debug, Clone)]
pub struct ProjectInfo {
    pub entrypoints: Vec<EntrypointInfo>,
    pub project_type: ProjectType,
    pub main_language: String,
    pub token_summary: TokenSummary,
}

/// Facts about a scan. `scan_timestamp` is in seconds since the Unix epoch.
#[derive(Debug, Clone)]
pub struct ProjectMetadata {
    pub project_root: String,
    pub scan_timestamp: i64,
    pub csd_version: String,
    pub total_files: usize,
    pub total_size_bytes: u64,
    pub total_tokens: u64,
    pub plugins_used: Vec<String>,
}

/// The aggregate model of a project.
#[derive(Debug, Clone)]
pub struct ProjectMatrix {
    pub metadata: ProjectMetadata,
    pub files: Vec<FileNode>,
    pub relationships: Vec<Relationship>,
    pub external_dependencies: Vec<ExternalDependency>,
    pub project_info: ProjectInfo,
    pub graph: GraphCache,
}

/// Coupling and size figures of a project.
#[derive(Debug)]
pub struct ProjectMetrics {
    pub total_files: usize,
    pub total_relationships: usize,
    pub highly_coupled_files: Vec<(String, usize)>,
    pub languages: Vec<String>,
    pub total_tokens: u64,
}

/// The outcome of fitting files into a token budget.
#[derive(Debug, Clone)]
pub struct TokenBudgetInfo {
    pub max_tokens: u64,
    pub used_tokens: u64,
    pub remaining_tokens: u64,
    pub included_files: Vec<String>,
    pub excluded_files: Vec<String>,
}

// ---------------------------------------------------------------------------
// The model
// ---------------------------------------------------------------------------

/// The sum of a sequence of integers.
pub open spec fn seq_sum(s: Seq<int>) -> int
    decreases s.len(),
{
    if s.len() == 0 {
        0
    } else {
        seq_sum(s.drop_last()) + s.last()
    }
}

pub open spec fn total_size(files: Seq<FileNode>) -> int {
    seq_sum(files.map_values(|f: FileNode| f.size_bytes as int))
}

pub open spec fn total_tokens(files: Seq<FileNode>) -> int {
    seq_sum(files.map_values(|f: FileNode| f.token_info.total_tokens as int))
}

pub open spec fn total_code_tokens(files: Seq<FileNode>) -> int {
    seq_sum(files.map_values(|f: FileNode| f.token_info.code_tokens as int))
}

pub open spec fn total_doc_tokens(files: Seq<FileNode>) -> int {
    seq_sum(files.map_values(|f: FileNode| f.token_info.documentation_tokens as int))
}

/// The views of a sequence of strings.
pub open spec fn str_views(v: Seq<String>) -> Seq<Seq<char>> {
    v.map_values(|s: String| s@)
}

/// No two files share a path.
pub open spec fn paths_unique(files: Seq<FileNode>) -> bool {
    forall|i: int, j: int|
        0 <= i < j < files.len() ==> (#[trigger] files[i]).path@ != (#[trigger] files[j]).path@
}

/// The first index in `files` whose path is `p`, or -1.
pub open spec fn path_index(files: Seq<FileNode>, p: Seq<char>) -> int
    decreases files.len(),
{
    if files.len() == 0 {
        -1
    } else {
        let r = path_index(files.drop_last(), p);
        if r >= 0 {
            r
        } else if files.last().path@ == p {
            files.len() - 1
        } else {
            -1
        }
    }
}

/// `files` after `node` is stored: it replaces the file with the same path,
/// or is appended.
pub open spec fn insert_file(files: Seq<FileNode>, node: FileNode) -> Seq<FileNode> {
    let i = path_index(files, node.path@);
    if i >= 0 {
        files.update(i, node)
    } else {
        files.push(node)
    }
}

/// The edges that relationships induce among files, in relationship order:
/// (index of source file, index of target file, index of relationship). A
/// relationship with an endpoint that is not a file gives no edge.
pub open spec fn graph_edges_of(files: Seq<FileNode>, rels: Seq<Relationship>) -> Seq<
    (usize, usize, usize),
>
    decreases rels.len(),
{
    if rels.len() == 0 {
        Seq::empty()
    } else {
        let prev = graph_edges_of(files, rels.drop_last());
        let r = rels.last();
        let a = path_index(files, r.from_file@);
        let b = path_index(files, r.to_file@);
        if a >= 0 && b >= 0 {
            prev.push((a as usize, b as usize, (rels.len() - 1) as usize))
        } else {
            prev
        }
    }
}

/// The files with an edge into `p`, newest relationship first; empty when
/// `p` is not a file.
pub open spec fn dependents_of(files: Seq<FileNode>, rels: Seq<Relationship>, p: Seq<char>) -> Seq<
    FileNode,
> {
    let i = path_index(files, p);
    if i < 0 {
        Seq::empty()
    } else {
        sources_into(graph_edges_of(files, rels), i as usize).map_values(|k: usize| files[k as int])
    }
}

/// The files that `p` has an edge to, newest relationship first; empty when
/// `p` is not a file.
pub open spec fn dependencies_of(files: Seq<FileNode>, rels: Seq<Relationship>, p: Seq<char>) -> Seq<
    FileNode,
> {
    let i = path_index(files, p);
    if i < 0 {
        Seq::empty()
    } else {
        targets_from(graph_edges_of(files, rels), i as usize).map_values(|k: usize| files[k as int])
    }
}

/// The number of edges into file `i`.
pub open spec fn in_degree(files: Seq<FileNode>, rels: Seq<Relationship>, i: int) -> int {
    sources_into(graph_edges_of(files, rels), i as usize).len() as int
}

impl ProjectMatrix {
    /// The graph, when present, matches the files and relationships: node `i`
    /// is file `i`, and the edges are those the relationships induce.
    pub open spec fn graph_coherent(&self) -> bool {
        match self.graph.held() {
            None => true,
            Some(g) => {
                &&& graph_nodes(g).len() == self.files@.len()
                &&& forall|i: int| 0 <= i < self.files@.len() ==> graph_nodes(g)[i] == i
                &&& graph_edges(g) == graph_edges_of(self.files@, self.relationships@)
            },
        }
    }

    /// The matrix's structural invariant: unique paths and a coherent graph
    /// cache.
    pub open spec fn wf(&self) -> bool {
        &&& paths_unique(self.files@)
        &&& self.graph_coherent()
    }

    /// The totals equal the sums over the stored files. Every matrix built
    /// by `new` and `add_file` keeps this; a subset keeps the totals of the
    /// matrix it was taken from.
    pub open spec fn counts_match(&self) -> bool {
        &&& self.metadata.total_files == self.files@.len()
        &&& self.metadata.total_size_bytes == total_size(self.files@)
        &&& self.metadata.total_tokens == total_tokens(self.files@)
        &&& self.project_info.token_summary.total_tokens == total_tokens(self.files@)
        &&& self.project_info.token_summary.code_tokens == total_code_tokens(self.files@)
        &&& self.project_info.token_summary.documentation_tokens == total_doc_tokens(self.files@)
    }

    /// Whether the traversal graph is currently built.
    pub open spec fn graph_built(&self) -> bool {
        self.graph.held() is Some
    }
}

// ---------------------------------------------------------------------------
// Lemmas on the model
// ---------------------------------------------------------------------------

proof fn lemma_sum_nonneg(s: Seq<int>)
    requires
        forall|i: int| 0 <= i < s.len() ==> s[i] >= 0,
    ensures
        seq_sum(s) >= 0,
    decreases s.len(),
{
    if s.len() > 0 {
        lemma_sum_nonneg(s.drop_last());
    }
}

proof fn lemma_sum_push(s: Seq<int>, x: int)
    ensures
        seq_sum(s.push(x)) == seq_sum(s) + x,
{
    assert(s.push(x).drop_last() =~= s);
}

proof fn lemma_sum_update(s: Seq<int>, i: int, x: int)
    requires
        0 <= i < s.len(),
    ensures
        seq_sum(s.update(i, x)) == seq_sum(s) - s[i] + x,
    decreases s.len(),
{
    if i == s.len() - 1 {
        assert(s.update(i, x).drop_last() =~= s.drop_last());
    } else {
        lemma_sum_update(s.drop_last(), i, x);
        assert(s.update(i, x).drop_last() =~= s.drop_last().update(i, x));
    }
}

/// `path_index` finds the first file with the given path, or none.
pub proof fn lemma_path_index(files: Seq<FileNode>, p: Seq<char>)
    ensures
        -1 <= path_index(files, p) < files.len(),
        path_index(files, p) >= 0 ==> files[path_index(files, p)].path@ == p,
        forall|j: int|
            0 <= j < files.len() && files[j].path@ == p ==> path_index(files, p) >= 0
                && path_index(files, p) <= j,
    decreases files.len(),
{
    if files.len() > 0 {
        lemma_path_index(files.drop_last(), p);
        assert forall|j: int| 0 <= j < files.len() && files[j].path@ == p implies path_index(
            files,
            p,
        ) >= 0 && path_index(files, p) <= j by {
            if j < files.len() - 1 {
                assert(files.drop_last()[j] == files[j]);
            }
        }
    }
}

/// In a sequence of files with unique paths, a file's index is found by its path.
pub proof fn lemma_path_index_unique(files: Seq<FileNode>, i: int)
    requires
        paths_unique(files),
        0 <= i < files.len(),
    ensures
        path_index(files, files[i].path@) == i,
{
    lemma_path_index(files, files[i].path@);
    let r = path_index(files, files[i].path@);
    if r != i {
        assert(files[r].path@ == files[i].path@);
    }
}

proof fn lemma_insert_file_unique(files: Seq<FileNode>, node: FileNode)
    requires
        paths_unique(files),
    ensures
        paths_unique(insert_file(files, node)),
{
    lemma_path_index(files, node.path@);
    let r = insert_file(files, node);
    assert forall|i: int, j: int| 0 <= i < j < r.len() implies (#[trigger] r[i]).path@ != (
    #[trigger] r[j]).path@ by {
        if path_index(files, node.path@) >= 0 {
            assert(files[i] == r[i] || i == path_index(files, node.path@));
        }
    }
}

proof fn lemma_sums_insert(files: Seq<FileNode>, node: FileNode)
    ensures
        ({
            let i = path_index(files, node.path@);
            let r = insert_file(files, node);
            &&& i >= 0 ==> total_size(r) == total_size(files) - files[i].size_bytes
                + node.size_bytes
            &&& i >= 0 ==> total_tokens(r) == total_tokens(files)
                - files[i].token_info.total_tokens + node.token_info.total_tokens
            &&& i >= 0 ==> total_code_tokens(r) == total_code_tokens(files)
                - files[i].token_info.code_tokens + node.token_info.code_tokens
            &&& i >= 0 ==> total_doc_tokens(r) == total_doc_tokens(files)
                - files[i].token_info.documentation_tokens + node.token_info.documentation_tokens
            &&& i < 0 ==> total_size(r) == total_size(files) + node.size_bytes
            &&& i < 0 ==> total_tokens(r) == total_tokens(files) + node.token_info.total_tokens
            &&& i < 0 ==> total_code_tokens(r) == total_code_tokens(files)
                + node.token_info.code_tokens
            &&& i < 0 ==> total_doc_tokens(r) == total_doc_tokens(files)
                + node.token_info.documentation_tokens
        }),
{
    lemma_path_index(files, node.path@);
    let i = path_index(files, node.path@);
    let fs = |f: FileNode| f.size_bytes as int;
    let ft = |f: FileNode| f.token_info.total_tokens as int;
    let fc = |f: FileNode| f.token_info.code_tokens as int;
    let fd = |f: FileNode| f.token_info.documentation_tokens as int;
    if i >= 0 {
        assert(files.update(i, node).map_values(fs) =~= files.map_values(fs).update(i, fs(node)));
        assert(files.update(i, node).map_values(ft) =~= files.map_values(ft).update(i, ft(node)));
        assert(files.update(i, node).map_values(fc) =~= files.map_values(fc).update(i, fc(node)));
        assert(files.update(i, node).map_values(fd) =~= files.map_values(fd).update(i, fd(node)));
        lemma_sum_update(files.map_values(fs), i, fs(node));
        lemma_sum_update(files.map_values(ft), i, ft(node));
        lemma_sum_update(files.map_values(fc), i, fc(node));
        lemma_sum_update(files.map_values(fd), i, fd(node));
    } else {
        assert(files.push(node).map_values(fs) =~= files.map_values(fs).push(fs(node)));
        assert(files.push(node).map_values(ft) =~= files.map_values(ft).push(ft(node)));
        assert(files.push(node).map_values(fc) =~= files.map_values(fc).push(fc(node)));
        assert(files.push(node).map_values(fd) =~= files.map_values(fd).push(fd(node)));
        lemma_sum_push(files.map_values(fs), fs(node));
        lemma_sum_push(files.map_values(ft), ft(node));
        lemma_sum_push(files.map_values(fc), fc(node));
        lemma_sum_push(files.map_values(fd), fd(node));
    }
}

proof fn lemma_sums_push(files: Seq<FileNode>, f: FileNode)
    ensures
        total_size(files.push(f)) == total_size(files) + f.size_bytes,
        total_tokens(files.push(f)) == total_tokens(files) + f.token_info.total_tokens,
        total_code_tokens(files.push(f)) == total_code_tokens(files) + f.token_info.code_tokens,
        total_doc_tokens(files.push(f)) == total_doc_tokens(files)
            + f.token_info.documentation_tokens,
{
    let fs = |x: FileNode| x.size_bytes as int;
    let ft = |x: FileNode| x.token_info.total_tokens as int;
    let fc = |x: FileNode| x.token_info.code_tokens as int;
    let fd = |x: FileNode| x.token_info.documentation_tokens as int;
    assert(files.push(f).map_values(fs) =~= files.map_values(fs).push(fs(f)));
    assert(files.push(f).map_values(ft) =~= files.map_values(ft).push(ft(f)));
    assert(files.push(f).map_values(fc) =~= files.map_values(fc).push(fc(f)));
    assert(files.push(f).map_values(fd) =~= files.map_values(fd).push(fd(f)));
    lemma_sum_push(files.map_values(fs), fs(f));
    lemma_sum_push(files.map_values(ft), ft(f));
    lemma_sum_push(files.map_values(fc), fc(f));
    lemma_sum_push(files.map_values(fd), fd(f));
}

/// Each file's share of a total is at most the total.
proof fn lemma_share_le_total(files: Seq<FileNode>, i: int)
    requires
        0 <= i < files.len(),
    ensures
        files[i].size_bytes <= total_size(files),
        files[i].token_info.total_tokens <= total_tokens(files),
        files[i].token_info.code_tokens <= total_code_tokens(files),
        files[i].token_info.documentation_tokens <= total_doc_tokens(files),
{
    let fs = |f: FileNode| f.size_bytes as int;
    let ft = |f: FileNode| f.token_info.total_tokens as int;
    let fc = |f: FileNode| f.token_info.code_tokens as int;
    let fd = |f: FileNode| f.token_info.documentation_tokens as int;
    lemma_sum_update(files.map_values(fs), i, 0);
    lemma_sum_update(files.map_values(ft), i, 0);
    lemma_sum_update(files.map_values(fc), i, 0);
    lemma_sum_update(files.map_values(fd), i, 0);
    lemma_sum_nonneg(files.map_values(fs).update(i, 0));
    lemma_sum_nonneg(files.map_values(ft).update(i, 0));
    lemma_sum_nonneg(files.map_values(fc).update(i, 0));
    lemma_sum_nonneg(files.map_values(fd).update(i, 0));
}

// ---------------------------------------------------------------------------
// Laws
// ---------------------------------------------------------------------------

/// Storing a file under a path that is already present replaces the earlier
/// file: storing two files with the same path leaves as many files as storing
/// the second alone, and the totals count only the second.
pub proof fn lemma_re_adding_keeps_count(files: Seq<FileNode>, a: FileNode, b: FileNode)
    requires
        paths_unique(files),
        a.path@ == b.path@,
    ensures
        insert_file(insert_file(files, a), b).len() == insert_file(files, b).len(),
        total_size(insert_file(insert_file(files, a), b)) == total_size(insert_file(files, b)),
        total_tokens(insert_file(insert_file(files, a), b)) == total_tokens(
            insert_file(files, b),
        ),
{
    let once = insert_file(files, a);
    lemma_path_index(files, a.path@);
    lemma_path_index(once, b.path@);
    lemma_sums_insert(files, a);
    lemma_sums_insert(once, b);
    lemma_sums_insert(files, b);
    let i = path_index(files, a.path@);
    if i >= 0 {
        lemma_insert_file_unique(files, a);
        lemma_path_index_unique(once, i);
    } else {
        lemma_insert_file_unique(files, a);
        lemma_path_index_unique(once, files.len() as int);
    }
}

impl ProjectMatrix {
    /// An empty matrix for the project at `project_root`, stamped with the
    /// current time.
    pub fn new(project_root: String) -> (r: ProjectMatrix)
        ensures
            r.wf(),
            r.counts_match(),
            r.metadata.project_root == project_root,
            r.is_empty(),
    {
        ProjectMatrix::new_at(project_root, now_timestamp())
    }

    /// An empty matrix for the project at `project_root`, stamped with
    /// `scan_timestamp`.
    pub fn new_at(project_root: String, scan_timestamp: i64) -> (r: ProjectMatrix)
        ensures
            r.wf(),
            r.counts_match(),
            r.metadata.project_root == project_root,
            r.metadata.scan_timestamp == scan_timestamp,
            r.is_empty(),
    {
        ProjectMatrix {
            metadata: ProjectMetadata {
                project_root,
                scan_timestamp,
                csd_version: String::from_str(TOOL_VERSION),
                total_files: 0,
                total_size_bytes: 0,
                total_tokens: 0,
                plugins_used: Vec::new(),
            },
            files: Vec::new(),
            relationships: Vec::new(),
            external_dependencies: Vec::new(),
            project_info: ProjectInfo {
                entrypoints: Vec::new(),
                project_type: ProjectType::Unknown,
                main_language: String::new(),
                token_summary: TokenSummary {
                    total_tokens: 0,
                    code_tokens: 0,
                    documentation_tokens: 0,
                    average_tokens_per_file: 0,
                    largest_file_tokens: 0,
                    largest_file_path: None,
                },
            },
            graph: GraphCache::empty(),
        }
    }

    /// A matrix as `new_at` makes it: no files, relationships, dependencies
    /// or entrypoints, zero totals, the tool's version, an unknown project type.
    pub open spec fn is_empty(&self) -> bool {
        &&& self.metadata.csd_version@ == TOOL_VERSION@
        &&& self.metadata.total_files == 0
        &&& self.metadata.total_size_bytes == 0
        &&& self.metadata.total_tokens == 0
        &&& self.metadata.plugins_used@.len() == 0
        &&& self.files@.len() == 0
        &&& self.relationships@.len() == 0
        &&& self.external_dependencies@.len() == 0
        &&& self.project_info.entrypoints@.len() == 0
        &&& self.project_info.project_type == ProjectType::Unknown
        &&& self.project_info.main_language@.len() == 0
        &&& self.project_info.token_summary.total_tokens == 0
        &&& self.project_info.token_summary.code_tokens == 0
        &&& self.project_info.token_summary.documentation_tokens == 0
        &&& self.project_info.token_summary.average_tokens_per_file == 0
        &&& self.project_info.token_summary.largest_file_tokens == 0
        &&& self.project_info.token_summary.largest_file_path is None
    }

    /// Whether the totals equal the sums over the stored files, as `add_file`
    /// requires; a matrix put together from parts or taken as a subset may not.
    pub fn totals_match(&self) -> (r: bool)
        ensures
            r == self.counts_match(),
    {
        let mut size: u128 = 0;
        let mut tokens: u128 = 0;
        let mut code: u128 = 0;
        let mut doc: u128 = 0;
        let mut i: usize = 0;
        while i < self.files.len()
            invariant
                i <= self.files@.len(),
                size == total_size(self.files@.subrange(0, i as int)),
                tokens == total_tokens(self.files@.subrange(0, i as int)),
                code == total_code_tokens(self.files@.subrange(0, i as int)),
                doc == total_doc_tokens(self.files@.subrange(0, i as int)),
                size <= i * 0xffff_ffff_ffff_ffff,
                tokens <= i * 0xffff_ffff_ffff_ffff,
                code <= i * 0xffff_ffff_ffff_ffff,
                doc <= i * 0xffff_ffff_ffff_ffff,
            decreases self.files@.len() - i,
        {
            let ghost prev = self.files@.subrange(0, i as int);
            let ghost next = self.files@.subrange(0, i + 1);
            assert(next =~= prev.push(self.files@[i as int]));
            proof {
                lemma_sums_push(prev, self.files@[i as int]);
                assert(i < 0x1_0000_0000_0000_0000);
            }
            let f = &self.files[i];
            size = size + f.size_bytes as u128;
            tokens = tokens + f.token_info.total_tokens as u128;
            code = code + f.token_info.code_tokens as u128;
            doc = doc + f.token_info.documentation_tokens as u128;
            i += 1;
        }
        assert(self.files@.subrange(0, self.files@.len() as int) =~= self.files@);
        self.metadata.total_files == self.files.len()
            && self.metadata.total_size_bytes as u128 == size
            && self.metadata.total_tokens as u128 == tokens
            && self.project_info.token_summary.total_tokens as u128 == tokens
            && self.project_info.token_summary.code_tokens as u128 == code
            && self.project_info.token_summary.documentation_tokens as u128 == doc
    }

    /// The index of the file stored under `path`, if any.
    pub fn find_file(&self, path: &String) -> (r: Option<usize>)
        requires
            paths_unique(self.files@),
        ensures
            match r {
                Some(i) => i < self.files@.len() && i == path_index(self.files@, path@)
                    && self.files@[i as int].path@ == path@,
                None => path_index(self.files@, path@) < 0,
            },
    {
        position_of_path(&self.files, path)
    }

    /// Whether a file is stored under `path`.
    pub fn contains_file(&self, path: &str) -> (r: bool)
        requires
            paths_unique(self.files@),
        ensures
            r == (path_index(self.files@, path@) >= 0),
    {
        self.find_file(&String::from_str(path)).is_some()
    }

    /// The file stored under `path`, if any.
    pub fn get_file(&self, path: &str) -> (r: Option<&FileNode>)
        requires
            paths_unique(self.files@),
        ensures
            path_index(self.files@, path@) < 0 ==> r is None,
            path_index(self.files@, path@) >= 0 ==> r == Some(
                &self.files@[path_index(self.files@, path@)],
            ),
    {
        match self.find_file(&String::from_str(path)) {
            Some(i) => Some(&self.files[i]),
            None => None,
        }
    }

    /// Stores `node` under its path, replacing any file stored there, and
    /// keeps the totals equal to the sums over the stored files (a replaced
    /// file's share is taken off first). Records the node's plugin in the
    /// list of plugins used, once, and the largest file seen so far. Drops
    /// the traversal graph.
    pub fn add_file(&mut self, node: FileNode)
        requires
            old(self).wf(),
            old(self).counts_match(),
            total_size(insert_file(old(self).files@, node)) <= u64::MAX,
            total_tokens(insert_file(old(self).files@, node)) <= u64::MAX,
            total_code_tokens(insert_file(old(self).files@, node)) <= u64::MAX,
            total_doc_tokens(insert_file(old(self).files@, node)) <= u64::MAX,
        ensures
            final(self).wf(),
            final(self).counts_match(),
            final(self).files@ == insert_file(old(self).files@, node),
            final(self).relationships@ == old(self).relationships@,
            final(self).external_dependencies@ == old(self).external_dependencies@,
            final(self).metadata.project_root == old(self).metadata.project_root,
            final(self).metadata.scan_timestamp == old(self).metadata.scan_timestamp,
            final(self).metadata.csd_version == old(self).metadata.csd_version,
            str_views(final(self).metadata.plugins_used@) == if str_views(
                old(self).metadata.plugins_used@,
            ).contains(node.plugin@) {
                str_views(old(self).metadata.plugins_used@)
            } else {
                str_views(old(self).metadata.plugins_used@).push(node.plugin@)
            },
            node.token_info.total_tokens > old(self).project_info.token_summary.largest_file_tokens ==> {
                &&& final(self).project_info.token_summary.largest_file_tokens
                    == node.token_info.total_tokens
                &&& final(self).project_info.token_summary.largest_file_path == Some(
                    node.relative_path,
                )
            },
            node.token_info.total_tokens <= old(self).project_info.token_summary.largest_file_tokens ==> {
                &&& final(self).project_info.token_summary.largest_file_tokens == old(self).project_info.token_summary.largest_file_tokens
                &&& final(self).project_info.token_summary.largest_file_path == old(self).project_info.token_summary.largest_file_path
            },
            final(self).project_info.token_summary.average_tokens_per_file == old(self).project_info.token_summary.average_tokens_per_file,
            final(self).project_info.entrypoints@ == old(self).project_info.entrypoints@,
            final(self).project_info.project_type == old(self).project_info.project_type,
            final(self).project_info.main_language == old(self).project_info.main_language,
            !final(self).graph_built(),
    {
        let ghost old_files = self.files@;
        proof {
            lemma_sums_insert(old_files, node);
            lemma_insert_file_unique(old_files, node);
        }
        let size = node.size_bytes;
        let tokens = node.token_info.total_tokens;
        let code = node.token_info.code_tokens;
        let doc = node.token_info.documentation_tokens;

        if tokens > self.project_info.token_summary.largest_file_tokens {
            self.project_info.token_summary.largest_file_tokens = tokens;
            self.project_info.token_summary.largest_file_path = Some(node.relative_path.clone());
        }
        self.note_plugin(&node.plugin);

        match self.find_file(&node.path) {
            Some(i) => {
                proof {
                    lemma_share_le_total(old_files, i as int);
                }
                let prev_size = self.files[i].size_bytes;
                let prev_tokens = self.files[i].token_info.total_tokens;
                let prev_code = self.files[i].token_info.code_tokens;
                let prev_doc = self.files[i].token_info.documentation_tokens;
                self.metadata.total_size_bytes = self.metadata.total_size_bytes - prev_size + size;
                self.metadata.total_tokens = self.metadata.total_tokens - prev_tokens + tokens;
                self.project_info.token_summary.total_tokens =
                    self.project_info.token_summary.total_tokens - prev_tokens + tokens;
                self.project_info.token_summary.code_tokens =
                    self.project_info.token_summary.code_tokens - prev_code + code;
                self.project_info.token_summary.documentation_tokens =
                    self.project_info.token_summary.documentation_tokens - prev_doc + doc;
                self.files.set(i, node);
            },
            None => {
                self.metadata.total_size_bytes = self.metadata.total_size_bytes + size;
                self.metadata.total_tokens = self.metadata.total_tokens + tokens;
                self.project_info.token_summary.total_tokens =
                    self.project_info.token_summary.total_tokens + tokens;
                self.project_info.token_summary.code_tokens =
                    self.project_info.token_summary.code_tokens + code;
                self.project_info.token_summary.documentation_tokens =
                    self.project_info.token_summary.documentation_tokens + doc;
                self.files.push(node);
                self.metadata.total_files = self.files.len();
            },
        }
        self.graph = GraphCache::empty();
    }

    /// Appends `plugin` to the plugins used unless it is listed already.
    fn note_plugin(&mut self, plugin: &String)
        ensures
            final(self).files == old(self).files,
            final(self).relationships == old(self).relationships,
            final(self).external_dependencies == old(self).external_dependencies,
            final(self).project_info == old(self).project_info,
            final(self).graph == old(self).graph,
            final(self).metadata.project_root == old(self).metadata.project_root,
            final(self).metadata.scan_timestamp == old(self).metadata.scan_timestamp,
            final(self).metadata.csd_version == old(self).metadata.csd_version,
            final(self).metadata.total_files == old(self).metadata.total_files,
            final(self).metadata.total_size_bytes == old(self).metadata.total_size_bytes,
            final(self).metadata.total_tokens == old(self).metadata.total_tokens,
            str_views(final(self).metadata.plugins_used@) == if str_views(
                old(self).metadata.plugins_used@,
            ).contains(plugin@) {
                str_views(old(self).metadata.plugins_used@)
            } else {
                str_views(old(self).metadata.plugins_used@).push(plugin@)
            },
    {
        let ghost used = str_views(self.metadata.plugins_used@);
        let mut i: usize = 0;
        while i < self.metadata.plugins_used.len()
            invariant
                i <= self.metadata.plugins_used@.len(),
                used == str_views(self.metadata.plugins_used@),
                forall|j: int| 0 <= j < i ==> used[j] != plugin@,
            decreases self.metadata.plugins_used@.len() - i,
        {
            if self.metadata.plugins_used[i] == *plugin {
                assert(used[i as int] == plugin@);
                return;
            }
            i += 1;
        }
        assert(!used.contains(plugin@));
        self.metadata.plugins_used.push(plugin.clone());
        assert(str_views(self.metadata.plugins_used@) =~= used.push(plugin@));
    }

    /// Appends `relationship`, whether or not its endpoints are stored files,
    /// and drops the traversal graph.
    pub fn add_relationship(&mut self, relationship: Relationship)
        requires
            old(self).wf(),
        ensures
            final(self).wf(),
            final(self).relationships@ == old(self).relationships@.push(relationship),
            final(self).files@ == old(self).files@,
            final(self).external_dependencies@ == old(self).external_dependencies@,
            final(self).metadata == old(self).metadata,
            final(self).project_info == old(self).project_info,
            !final(self).graph_built(),
    {
        self.relationships.push(relationship);
        self.graph = GraphCache::empty();
    }

    /// Appends `dependency`; the traversal graph is unaffected.
    pub fn add_external_dependency(&mut self, dependency: ExternalDependency)
        requires
            old(self).wf(),
        ensures
            final(self).wf(),
            final(self).external_dependencies@ == old(self).external_dependencies@.push(
                dependency,
            ),
            final(self).files@ == old(self).files@,
            final(self).relationships@ == old(self).relationships@,
            final(self).metadata == old(self).metadata,
            final(self).project_info == old(self).project_info,
            final(self).graph == old(self).graph,
    {
        self.external_dependencies.push(dependency);
    }
}

/// Every induced edge joins two files and names a relationship.
proof fn lemma_edges_in_range(files: Seq<FileNode>, rels: Seq<Relationship>)
    ensures
        graph_edges_of(files, rels).len() <= rels.len(),
        forall|k: int|
            0 <= k < graph_edges_of(files, rels).len() ==> {
                let e = #[trigger] graph_edges_of(files, rels)[k];
                &&& e.0 < files.len()
                &&& e.1 < files.len()
                &&& e.2 < rels.len()
            },
    decreases rels.len(),
{
    if rels.len() > 0 {
        lemma_edges_in_range(files, rels.drop_last());
        lemma_path_index(files, rels.last().from_file@);
        lemma_path_index(files, rels.last().to_file@);
    }
}

proof fn lemma_sources_in_range(edges: Seq<(usize, usize, usize)>, n: usize, bound: int)
    requires
        forall|k: int| 0 <= k < edges.len() ==> (#[trigger] edges[k]).0 < bound,
    ensures
        forall|k: int|
            0 <= k < sources_into(edges, n).len() ==> #[trigger] sources_into(edges, n)[k]
                < bound,
    decreases edges.len(),
{
    if edges.len() > 0 {
        assert forall|k: int| 0 <= k < edges.drop_last().len() implies (
        #[trigger] edges.drop_last()[k]).0 < bound by {
            assert(edges.drop_last()[k] == edges[k]);
        }
        lemma_sources_in_range(edges.drop_last(), n, bound);
        let rest = sources_into(edges.drop_last(), n);
        let all = sources_into(edges, n);
        assert(edges.last() == edges[edges.len() - 1]);
        assert forall|k: int| 0 <= k < all.len() implies #[trigger] all[k] < bound by {
            if all.len() != rest.len() && k > 0 {
                assert(all[k] == rest[k - 1]);
            }
        }
    }
}

proof fn lemma_targets_in_range(edges: Seq<(usize, usize, usize)>, n: usize, bound: int)
    requires
        forall|k: int| 0 <= k < edges.len() ==> (#[trigger] edges[k]).1 < bound,
    ensures
        forall|k: int|
            0 <= k < targets_from(edges, n).len() ==> #[trigger] targets_from(edges, n)[k]
                < bound,
    decreases edges.len(),
{
    if edges.len() > 0 {
        assert forall|k: int| 0 <= k < edges.drop_last().len() implies (
        #[trigger] edges.drop_last()[k]).1 < bound by {
            assert(edges.drop_last()[k] == edges[k]);
        }
        lemma_targets_in_range(edges.drop_last(), n, bound);
        let rest = targets_from(edges.drop_last(), n);
        let all = targets_from(edges, n);
        assert(edges.last() == edges[edges.len() - 1]);
        assert forall|k: int| 0 <= k < all.len() implies #[trigger] all[k] < bound by {
            if all.len() != rest.len() && k > 0 {
                assert(all[k] == rest[k - 1]);
            }
        }
    }
}

impl ProjectMatrix {
    /// The canonical data of two matrices agree: metadata, files,
    /// relationships, external dependencies and project information.
    pub open spec fn same_canonical(&self, other: &ProjectMatrix) -> bool {
        &&& self.metadata == other.metadata
        &&& self.files@ == other.files@
        &&& self.relationships@ == other.relationships@
        &&& self.external_dependencies@ == other.external_dependencies@
        &&& self.project_info == other.project_info
    }

    /// The files and relationships are few enough for the graph's `u32` indices.
    pub open spec fn fits_graph(&self) -> bool {
        &&& self.files@.len() < index_limit()
        &&& self.relationships@.len() < index_limit()
    }

    /// Builds the traversal graph from the files and relationships.
    fn rebuild_graph(&mut self)
        requires
            old(self).wf(),
            old(self).fits_graph(),
        ensures
            final(self).wf(),
            final(self).graph_built(),
            final(self).same_canonical(old(self)),
    {
        let mut g = graph_new();
        let n = self.files.len();
        let mut i: usize = 0;
        while i < n
            invariant
                n == self.files@.len(),
                n < index_limit(),
                i <= n,
                graph_nodes(g).len() == i,
                forall|j: int| 0 <= j < i ==> graph_nodes(g)[j] == j,
                graph_edges(g) == Seq::<(usize, usize, usize)>::empty(),
            decreases n - i,
        {
            graph_add_node(&mut g, i);
            i += 1;
        }
        let mut k: usize = 0;
        while k < self.relationships.len()
            invariant
                self.wf(),
                self.fits_graph(),
                k <= self.relationships@.len(),
                graph_nodes(g).len() == self.files@.len(),
                forall|j: int| 0 <= j < self.files@.len() ==> graph_nodes(g)[j] == j,
                graph_edges(g) == graph_edges_of(self.files@, self.relationships@.subrange(0, k as int)),
            decreases self.relationships@.len() - k,
        {
            let ghost rels = self.relationships@.subrange(0, k as int + 1);
            assert(rels.drop_last() =~= self.relationships@.subrange(0, k as int));
            proof {
                lemma_edges_in_range(self.files@, rels.drop_last());
            }
            let from = self.find_file(&self.relationships[k].from_file);
            let to = self.find_file(&self.relationships[k].to_file);
            match (from, to) {
                (Some(a), Some(b)) => {
                    graph_add_edge(&mut g, a, b, k);
                },
                _ => {},
            }
            assert(rels.last() == self.relationships@[k as int]);
            k += 1;
        }
        assert(self.relationships@.subrange(0, self.relationships@.len() as int) =~= self.relationships@);
        self.graph = GraphCache::holding(g);
    }

    /// Builds the traversal graph unless it is built already.
    fn ensure_graph(&mut self)
        requires
            old(self).wf(),
            old(self).fits_graph(),
        ensures
            final(self).wf(),
            final(self).graph_built(),
            final(self).same_canonical(old(self)),
    {
        if !self.graph.is_built() {
            self.rebuild_graph();
        }
    }

    /// The files that have a relationship to the file at `file_path`, newest
    /// relationship first, read from the traversal graph (built first when
    /// absent). Relationships with an endpoint that is not a stored file are
    /// left out. Empty when no file is stored under `file_path`.
    pub fn find_dependents(&mut self, file_path: &str) -> (r: Vec<&FileNode>)
        requires
            old(self).wf(),
            old(self).fits_graph(),
        ensures
            final(self).wf(),
            final(self).graph_built(),
            final(self).same_canonical(old(self)),
            r@.map_values(|f: &FileNode| *f) == dependents_of(
                old(self).files@,
                old(self).relationships@,
                file_path@,
            ),
    {
        self.ensure_graph();
        let this: &ProjectMatrix = self;
        let mut out: Vec<&FileNode> = Vec::new();
        match this.find_file(&String::from_str(file_path)) {
            None => {
                assert(out@.map_values(|f: &FileNode| *f) =~= Seq::<FileNode>::empty());
            },
            Some(i) => {
                let srcs = graph_sources_into(this.graph.get(), i);
                proof {
                    lemma_edges_in_range(this.files@, this.relationships@);
                    lemma_sources_in_range(
                        graph_edges_of(this.files@, this.relationships@),
                        i,
                        this.files@.len() as int,
                    );
                }
                let mut k: usize = 0;
                while k < srcs.len()
                    invariant
                        k <= srcs@.len(),
                        forall|j: int| 0 <= j < srcs@.len() ==> #[trigger] srcs@[j] < this.files@.len(),
                        out@.map_values(|f: &FileNode| *f) == srcs@.subrange(0, k as int).map_values(
                            |j: usize| this.files@[j as int],
                        ),
                    decreases srcs@.len() - k,
                {
                    let ghost prev = out@;
                    out.push(&this.files[srcs[k]]);
                    assert(out@.map_values(|f: &FileNode| *f) =~= prev.map_values(|f: &FileNode| *f).push(
                        this.files@[srcs@[k as int] as int],
                    ));
                    assert(srcs@.subrange(0, k + 1) =~= srcs@.subrange(0, k as int).push(srcs@[k as int]));
                    assert(out@.map_values(|f: &FileNode| *f) =~= srcs@.subrange(0, k + 1).map_values(
                        |j: usize| this.files@[j as int],
                    ));
                    k += 1;
                }
                assert(srcs@.subrange(0, srcs@.len() as int) =~= srcs@);
            },
        }
        out
    }

    /// The files that the file at `file_path` has a relationship to, newest
    /// relationship first, read from the traversal graph (built first when
    /// absent). Relationships with an endpoint that is not a stored file are
    /// left out. Empty when no file is stored under `file_path`.
    pub fn find_dependencies(&mut self, file_path: &str) -> (r: Vec<&FileNode>)
        requires
            old(self).wf(),
            old(self).fits_graph(),
        ensures
            final(self).wf(),
            final(self).graph_built(),
            final(self).same_canonical(old(self)),
            r@.map_values(|f: &FileNode| *f) == dependencies_of(
                old(self).files@,
                old(self).relationships@,
                file_path@,
            ),
    {
        self.ensure_graph();
        let this: &ProjectMatrix = self;
        let mut out: Vec<&FileNode> = Vec::new();
        match this.find_file(&String::from_str(file_path)) {
            None => {
                assert(out@.map_values(|f: &FileNode| *f) =~= Seq::<FileNode>::empty());
            },
            Some(i) => {
                let dsts = graph_targets_from(this.graph.get(), i);
                proof {
                    lemma_edges_in_range(this.files@, this.relationships@);
                    lemma_targets_in_range(
                        graph_edges_of(this.files@, this.relationships@),
                        i,
                        this.files@.len() as int,
                    );
                }
                let mut k: usize = 0;
                while k < dsts.len()
                    invariant
                        k <= dsts@.len(),
                        forall|j: int| 0 <= j < dsts@.len() ==> #[trigger] dsts@[j] < this.files@.len(),
                        out@.map_values(|f: &FileNode| *f) == dsts@.subrange(0, k as int).map_values(
                            |j: usize| this.files@[j as int],
                        ),
                    decreases dsts@.len() - k,
                {
                    let ghost prev = out@;
                    out.push(&this.files[dsts[k]]);
                    assert(out@.map_values(|f: &FileNode| *f) =~= prev.map_values(|f: &FileNode| *f).push(
                        this.files@[dsts@[k as int] as int],
                    ));
                    assert(dsts@.subrange(0, k + 1) =~= dsts@.subrange(0, k as int).push(dsts@[k as int]));
                    assert(out@.map_values(|f: &FileNode| *f) =~= dsts@.subrange(0, k + 1).map_values(
                        |j: usize| this.files@[j as int],
                    ));
                    k += 1;
                }
                assert(dsts@.subrange(0, dsts@.len() as int) =~= dsts@);
            },
        }
        out
    }
}


/// The token counts of the files, in file order.
pub open spec fn token_keys(files: Seq<FileNode>) -> Seq<u64> {
    files.map_values(|f: FileNode| f.token_info.total_tokens)
}

/// The in-degrees of the files, in file order.
pub open spec fn coupling_keys(files: Seq<FileNode>, rels: Seq<Relationship>) -> Seq<u64> {
    Seq::new(files.len(), |i: int| in_degree(files, rels, i) as u64)
}

/// Greedy budget allocation over files taken in the order `ord`: each file
/// whose count fits in what is left of the budget is included, the others are
/// skipped, and the walk goes on. Gives the included indices and what is left.
/// This is a heuristic, not an optimal packing.
pub open spec fn budget_pick(keys: Seq<u64>, ord: Seq<usize>, max_tokens: u64) -> (Seq<usize>, u64)
    decreases ord.len(),
{
    if ord.len() == 0 {
        (Seq::empty(), max_tokens)
    } else {
        let (inc, rem) = budget_pick(keys, ord.drop_last(), max_tokens);
        let t = keys[ord.last() as int];
        if t <= rem {
            (inc.push(ord.last()), (rem - t) as u64)
        } else {
            (inc, rem)
        }
    }
}

/// The paths of the first `n` files whose index is not in `picked`, in file order.
pub open spec fn unpicked_paths(files: Seq<FileNode>, picked: Seq<usize>, n: int) -> Seq<Seq<char>>
    decreases n,
{
    if n <= 0 {
        Seq::empty()
    } else {
        let prev = unpicked_paths(files, picked, n - 1);
        if picked.contains((n - 1) as usize) {
            prev
        } else {
            prev.push(files[n - 1].path@)
        }
    }
}

proof fn lemma_budget_bounds(keys: Seq<u64>, ord: Seq<usize>, max_tokens: u64)
    ensures
        budget_pick(keys, ord, max_tokens).1 <= max_tokens,
    decreases ord.len(),
{
    if ord.len() > 0 {
        lemma_budget_bounds(keys, ord.drop_last(), max_tokens);
    }
}

proof fn lemma_sources_len(edges: Seq<(usize, usize, usize)>, n: usize)
    ensures
        sources_into(edges, n).len() <= edges.len(),
    decreases edges.len(),
{
    if edges.len() > 0 {
        lemma_sources_len(edges.drop_last(), n);
    }
}

/// Traversals only ever yield stored files: each dependent or dependency is
/// one of `files`, so a path with no stored file neither appears among the
/// results nor has any of its own.
pub proof fn lemma_results_are_stored_files(
    files: Seq<FileNode>,
    rels: Seq<Relationship>,
    p: Seq<char>,
    q: Seq<char>,
)
    ensures
        forall|k: int|
            0 <= k < dependents_of(files, rels, p).len() ==> files.contains(
                #[trigger] dependents_of(files, rels, p)[k],
            ),
        forall|k: int|
            0 <= k < dependencies_of(files, rels, p).len() ==> files.contains(
                #[trigger] dependencies_of(files, rels, p)[k],
            ),
        path_index(files, q) < 0 ==> forall|k: int|
            0 <= k < dependents_of(files, rels, p).len() ==> (#[trigger] dependents_of(
                files,
                rels,
                p,
            )[k]).path@ != q,
        path_index(files, q) < 0 ==> forall|k: int|
            0 <= k < dependencies_of(files, rels, p).len() ==> (#[trigger] dependencies_of(
                files,
                rels,
                p,
            )[k]).path@ != q,
        path_index(files, q) < 0 ==> dependents_of(files, rels, q).len() == 0
            && dependencies_of(files, rels, q).len() == 0,
{
    lemma_path_index(files, p);
    lemma_path_index(files, q);
    let i = path_index(files, p);
    if i >= 0 {
        let edges = graph_edges_of(files, rels);
        lemma_edges_in_range(files, rels);
        lemma_sources_in_range(edges, i as usize, files.len() as int);
        lemma_targets_in_range(edges, i as usize, files.len() as int);
        let ds = dependents_of(files, rels, p);
        let ts = dependencies_of(files, rels, p);
        assert forall|k: int| 0 <= k < ds.len() implies files.contains(#[trigger] ds[k]) by {
            let j = sources_into(edges, i as usize)[k] as int;
            assert(ds[k] == files[j]);
        }
        assert forall|k: int| 0 <= k < ts.len() implies files.contains(#[trigger] ts[k]) by {
            let j = targets_from(edges, i as usize)[k] as int;
            assert(ts[k] == files[j]);
        }
        if path_index(files, q) < 0 {
            assert forall|k: int| 0 <= k < ds.len() implies (#[trigger] ds[k]).path@ != q by {
                let j = sources_into(edges, i as usize)[k] as int;
                assert(ds[k] == files[j]);
            }
            assert forall|k: int| 0 <= k < ts.len() implies (#[trigger] ts[k]).path@ != q by {
                let j = targets_from(edges, i as usize)[k] as int;
                assert(ts[k] == files[j]);
            }
        }
    }
}

/// A relationship between two stored files is traversed as soon as it is
/// added: its source comes first among the target's dependents, and its
/// target first among the source's dependencies.
pub proof fn lemma_new_relationship_is_traversed(
    files: Seq<FileNode>,
    rels: Seq<Relationship>,
    r: Relationship,
)
    requires
        files.len() <= usize::MAX,
        path_index(files, r.from_file@) >= 0,
        path_index(files, r.to_file@) >= 0,
    ensures
        dependents_of(files, rels.push(r), r.to_file@) == seq![
            files[path_index(files, r.from_file@)],
        ] + dependents_of(files, rels, r.to_file@),
        dependencies_of(files, rels.push(r), r.from_file@) == seq![
            files[path_index(files, r.to_file@)],
        ] + dependencies_of(files, rels, r.from_file@),
{
    lemma_path_index(files, r.from_file@);
    lemma_path_index(files, r.to_file@);
    let a = path_index(files, r.from_file@);
    let b = path_index(files, r.to_file@);
    let prev = graph_edges_of(files, rels);
    assert(rels.push(r).drop_last() =~= rels);
    let edges = graph_edges_of(files, rels.push(r));
    assert(edges == prev.push((a as usize, b as usize, rels.len() as usize)));
    assert(edges.drop_last() =~= prev);
    assert(sources_into(edges, b as usize) == seq![a as usize] + sources_into(prev, b as usize));
    assert(targets_from(edges, a as usize) == seq![b as usize] + targets_from(prev, a as usize));
    let f = |k: usize| files[k as int];
    let s1 = sources_into(prev, b as usize);
    assert((seq![a as usize] + s1).map_values(f) =~= seq![files[a]] + s1.map_values(f));
    let t1 = targets_from(prev, a as usize);
    assert((seq![b as usize] + t1).map_values(f) =~= seq![files[b]] + t1.map_values(f));
    assert(dependents_of(files, rels.push(r), r.to_file@) =~= seq![files[a]] + dependents_of(
        files,
        rels,
        r.to_file@,
    ));
    assert(dependencies_of(files, rels.push(r), r.from_file@) =~= seq![files[b]]
        + dependencies_of(files, rels, r.from_file@));
}

/// A relationship with an endpoint that is not a stored file induces no edge:
/// with or without it, every path has the same dependents and dependencies.
pub proof fn lemma_dangling_edge_excluded(
    files: Seq<FileNode>,
    rels: Seq<Relationship>,
    r: Relationship,
    p: Seq<char>,
)
    requires
        path_index(files, r.from_file@) < 0 || path_index(files, r.to_file@) < 0,
    ensures
        graph_edges_of(files, rels.push(r)) == graph_edges_of(files, rels),
        dependents_of(files, rels.push(r), p) == dependents_of(files, rels, p),
        dependencies_of(files, rels.push(r), p) == dependencies_of(files, rels, p),
{
    assert(rels.push(r).drop_last() =~= rels);
}

impl ProjectMatrix {
    /// The files whose plugin is `plugin_name`, in file order.
    pub fn get_files_by_plugin(&self, plugin_name: &str) -> (r: Vec<&FileNode>)
        ensures
            r@.map_values(|f: &FileNode| *f) == self.files@.filter(
                |f: FileNode| f.plugin@ == plugin_name@,
            ),
    {
        let name = String::from_str(plugin_name);
        let ghost pred = |f: FileNode| f.plugin@ == plugin_name@;
        let mut out: Vec<&FileNode> = Vec::new();
        let mut i: usize = 0;
        while i < self.files.len()
            invariant
                i <= self.files@.len(),
                name@ == plugin_name@,
                pred == (|f: FileNode| f.plugin@ == plugin_name@),
                out@.map_values(|f: &FileNode| *f) == self.files@.subrange(0, i as int).filter(pred),
            decreases self.files@.len() - i,
        {
            let ghost prev = out@;
            let ghost next = self.files@.subrange(0, i + 1);
            assert(next.drop_last() =~= self.files@.subrange(0, i as int));
            proof {
                reveal(Seq::filter);
            }
            assert(next.last() == self.files@[i as int]);
            if self.files[i].plugin == name {
                out.push(&self.files[i]);
                assert(out@.map_values(|f: &FileNode| *f) =~= prev.map_values(|f: &FileNode| *f).push(
                    self.files@[i as int],
                ));
                assert(self.files@[i as int].plugin@ == name@);
                assert(pred(next.last()));
                assert(next.filter(pred) == next.drop_last().filter(pred).push(next.last()));
            } else {
                assert(self.files@[i as int].plugin@ != name@);
                assert(!pred(next.last()));
                assert(next.filter(pred) == next.drop_last().filter(pred));
            }
            i += 1;
        }
        assert(self.files@.subrange(0, self.files@.len() as int) =~= self.files@);
        out
    }

    /// The indices of the files, largest token count first.
    fn token_order(&self) -> (r: Vec<usize>)
        ensures
            is_desc_order(token_keys(self.files@), r@),
    {
        let mut keys: Vec<u64> = Vec::new();
        let mut i: usize = 0;
        while i < self.files.len()
            invariant
                i <= self.files@.len(),
                keys@ == token_keys(self.files@).subrange(0, i as int),
            decreases self.files@.len() - i,
        {
            keys.push(self.files[i].token_info.total_tokens);
            assert(keys@ =~= token_keys(self.files@).subrange(0, i + 1));
            i += 1;
        }
        assert(keys@ =~= token_keys(self.files@));
        descending_order(&keys)
    }

    /// The files, largest token count first; files with equal counts keep
    /// their order.
    pub fn get_files_by_token_count(&self) -> (r: Vec<&FileNode>)
        ensures
            exists|ord: Seq<usize>|
                is_desc_order(token_keys(self.files@), ord) && r@.map_values(|f: &FileNode| *f)
                    == ord.map_values(|i: usize| self.files@[i as int]),
    {
        let ord = self.token_order();
        let mut out: Vec<&FileNode> = Vec::new();
        let mut k: usize = 0;
        while k < ord.len()
            invariant
                k <= ord@.len(),
                is_desc_order(token_keys(self.files@), ord@),
                out@.map_values(|f: &FileNode| *f) == ord@.subrange(0, k as int).map_values(
                    |i: usize| self.files@[i as int],
                ),
            decreases ord@.len() - k,
        {
            let ghost prev = out@;
            out.push(&self.files[ord[k]]);
            assert(out@.map_values(|f: &FileNode| *f) =~= prev.map_values(|f: &FileNode| *f).push(
                self.files@[ord@[k as int] as int],
            ));
            assert(ord@.subrange(0, k + 1) =~= ord@.subrange(0, k as int).push(ord@[k as int]));
            assert(out@.map_values(|f: &FileNode| *f) =~= ord@.subrange(0, k + 1).map_values(
                |i: usize| self.files@[i as int],
            ));
            k += 1;
        }
        assert(ord@.subrange(0, ord@.len() as int) =~= ord@);
        out
    }

    /// Fits files into a budget of `max_tokens`, taking them largest first
    /// and skipping any that no longer fit (see `budget_pick`). Included paths
    /// come in the order they were taken, excluded ones in file order.
    pub fn get_token_budget_info(&self, max_tokens: u64) -> (r: TokenBudgetInfo)
        ensures
            r.max_tokens == max_tokens,
            exists|ord: Seq<usize>|
                {
                    &&& is_desc_order(token_keys(self.files@), ord)
                    &&& r.remaining_tokens == budget_pick(token_keys(self.files@), ord, max_tokens).1
                    &&& r.used_tokens == max_tokens - r.remaining_tokens
                    &&& str_views(r.included_files@) == budget_pick(
                        token_keys(self.files@),
                        ord,
                        max_tokens,
                    ).0.map_values(|i: usize| self.files@[i as int].path@)
                    &&& str_views(r.excluded_files@) == unpicked_paths(
                        self.files@,
                        budget_pick(token_keys(self.files@), ord, max_tokens).0,
                        self.files@.len() as int,
                    )
                },
    {
        let ord = self.token_order();
        let ghost keys = token_keys(self.files@);
        let n = self.files.len();
        let mut taken: Vec<bool> = Vec::new();
        let mut i: usize = 0;
        while i < n
            invariant
                n == self.files@.len(),
                i <= n,
                taken@.len() == i,
                forall|j: int| 0 <= j < i ==> !taken@[j],
            decreases n - i,
        {
            taken.push(false);
            i += 1;
        }
        let mut included: Vec<String> = Vec::new();
        let mut remaining = max_tokens;
        let mut k: usize = 0;
        while k < ord.len()
            invariant
                n == self.files@.len(),
                keys == token_keys(self.files@),
                is_desc_order(keys, ord@),
                k <= ord@.len(),
                taken@.len() == n,
                ({
                    let (inc, rem) = budget_pick(keys, ord@.subrange(0, k as int), max_tokens);
                    &&& remaining == rem
                    &&& str_views(included@) == inc.map_values(
                        |i: usize| self.files@[i as int].path@,
                    )
                    &&& forall|j: int| 0 <= j < n ==> taken@[j] == inc.contains(j as usize)
                }),
            decreases ord@.len() - k,
        {
            let ghost sub = ord@.subrange(0, k + 1);
            assert(sub.drop_last() =~= ord@.subrange(0, k as int));
            let ghost inc = budget_pick(keys, ord@.subrange(0, k as int), max_tokens).0;
            let idx = ord[k];
            let t = self.files[idx].token_info.total_tokens;
            if t <= remaining {
                let ghost prev = included@;
                included.push(self.files[idx].path.clone());
                taken.set(idx, true);
                remaining = remaining - t;
                assert(str_views(included@) =~= str_views(prev).push(self.files@[idx as int].path@));
                assert(inc.push(idx).map_values(|i: usize| self.files@[i as int].path@) =~= inc.map_values(
                    |i: usize| self.files@[i as int].path@,
                ).push(self.files@[idx as int].path@));
                assert forall|j: int| 0 <= j < n implies taken@[j] == inc.push(idx).contains(
                    j as usize,
                ) by {
                    if j as usize == idx {
                        assert(inc.push(idx)[inc.len() as int] == idx);
                    } else if inc.push(idx).contains(j as usize) {
                        let w = choose|w: int| 0 <= w < inc.push(idx).len() && inc.push(idx)[w] == j as usize;
                        assert(inc[w] == j as usize);
                    } else if inc.contains(j as usize) {
                        let w = choose|w: int| 0 <= w < inc.len() && inc[w] == j as usize;
                        assert(inc.push(idx)[w] == j as usize);
                    }
                }
            }
            k += 1;
        }
        assert(ord@.subrange(0, ord@.len() as int) =~= ord@);
        let ghost inc = budget_pick(keys, ord@, max_tokens).0;
        let mut excluded: Vec<String> = Vec::new();
        let mut j: usize = 0;
        while j < n
            invariant
                n == self.files@.len(),
                j <= n,
                taken@.len() == n,
                forall|m: int| 0 <= m < n ==> taken@[m] == inc.contains(m as usize),
                str_views(excluded@) == unpicked_paths(self.files@, inc, j as int),
            decreases n - j,
        {
            if !taken[j] {
                let ghost prev = excluded@;
                excluded.push(self.files[j].path.clone());
                assert(str_views(excluded@) =~= str_views(prev).push(self.files@[j as int].path@));
            }
            j += 1;
        }
        proof {
            lemma_budget_bounds(keys, ord@, max_tokens);
        }
        TokenBudgetInfo {
            max_tokens,
            used_tokens: max_tokens - remaining,
            remaining_tokens: remaining,
            included_files: included,
            excluded_files: excluded,
        }
    }

    /// Counts, for every file, the relationships into it that the traversal
    /// graph holds (building it first when absent), and lists the ten most
    /// depended-upon files with their counts, highest first; files with equal
    /// counts keep their order.
    pub fn calculate_metrics(&mut self) -> (r: ProjectMetrics)
        requires
            old(self).wf(),
            old(self).fits_graph(),
        ensures
            final(self).wf(),
            final(self).same_canonical(old(self)),
            r.total_files == old(self).files@.len(),
            r.total_relationships == old(self).relationships@.len(),
            r.total_tokens == old(self).metadata.total_tokens,
            str_views(r.languages@) == str_views(old(self).metadata.plugins_used@),
            r.highly_coupled_files@.len() == if old(self).files@.len() < 10 {
                old(self).files@.len() as int
            } else {
                10
            },
            exists|ord: Seq<usize>|
                {
                    &&& is_desc_order(coupling_keys(old(self).files@, old(self).relationships@), ord)
                    &&& forall|k: int|
                        0 <= k < r.highly_coupled_files@.len() ==> {
                            &&& (#[trigger] r.highly_coupled_files@[k]).0@ == old(self).files@[ord[k] as int].path@
                            &&& r.highly_coupled_files@[k].1 == in_degree(
                                old(self).files@,
                                old(self).relationships@,
                                ord[k] as int,
                            )
                        }
                },
    {
        self.ensure_graph();
        let n = self.files.len();
        let ghost keys = coupling_keys(self.files@, self.relationships@);
        proof {
            lemma_edges_in_range(self.files@, self.relationships@);
        }
        let mut degrees: Vec<u64> = Vec::new();
        let mut i: usize = 0;
        while i < n
            invariant
                self.wf(),
                self.graph_built(),
                n == self.files@.len(),
                keys == coupling_keys(self.files@, self.relationships@),
                i <= n,
                degrees@ == keys.subrange(0, i as int),
            decreases n - i,
        {
            let srcs = graph_sources_into(self.graph.get(), i);
            degrees.push(srcs.len() as u64);
            assert(degrees@ =~= keys.subrange(0, i + 1));
            i += 1;
        }
        assert(degrees@ =~= keys);
        let ord = descending_order(&degrees);
        let top: usize = if n < 10 {
            n
        } else {
            10
        };
        let mut coupled: Vec<(String, usize)> = Vec::new();
        let mut k: usize = 0;
        while k < top
            invariant
                n == self.files@.len(),
                self.fits_graph(),
                top <= n,
                k <= top,
                degrees@ == keys,
                keys == coupling_keys(self.files@, self.relationships@),
                is_desc_order(keys, ord@),
                coupled@.len() == k,
                forall|m: int|
                    0 <= m < k ==> {
                        &&& (#[trigger] coupled@[m]).0@ == self.files@[ord@[m] as int].path@
                        &&& coupled@[m].1 == in_degree(self.files@, self.relationships@, ord@[m] as int)
                    },
            decreases top - k,
        {
            let idx = ord[k];
            proof {
                lemma_sources_len(graph_edges_of(self.files@, self.relationships@), idx);
                lemma_edges_in_range(self.files@, self.relationships@);
            }
            coupled.push((self.files[idx].path.clone(), degrees[idx] as usize));
            k += 1;
        }
        let mut languages: Vec<String> = Vec::new();
        let mut j: usize = 0;
        while j < self.metadata.plugins_used.len()
            invariant
                j <= self.metadata.plugins_used@.len(),
                str_views(languages@) == str_views(self.metadata.plugins_used@.subrange(0, j as int)),
            decreases self.metadata.plugins_used@.len() - j,
        {
            let ghost prev = languages@;
            languages.push(self.metadata.plugins_used[j].clone());
            assert(str_views(languages@) =~= str_views(prev).push(self.metadata.plugins_used@[j as int]@));
            assert(str_views(languages@) =~= str_views(self.metadata.plugins_used@.subrange(0, j + 1)));
            j += 1;
        }
        assert(self.metadata.plugins_used@.subrange(0, self.metadata.plugins_used@.len() as int)
            =~= self.metadata.plugins_used@);
        ProjectMetrics {
            total_files: n,
            total_relationships: self.relationships.len(),
            highly_coupled_files: coupled,
            languages,
            total_tokens: self.metadata.total_tokens,
        }
    }
}

// ---------------------------------------------------------------------------
// Entrypoints and project structure
// ---------------------------------------------------------------------------

/// An entrypoint as plain values: (file, kind, confidence, reason).
pub type EntryView = (Seq<char>, Seq<char>, u8, Seq<char>);

pub open spec fn entry_view(e: EntrypointInfo) -> EntryView {
    (e.file_path@, e.entrypoint_type@, e.confidence, e.reason@)
}

pub open spec fn entry_views(s: Seq<EntrypointInfo>) -> Seq<EntryView> {
    s.map_values(|e: EntrypointInfo| entry_view(e))
}

/// The first index in `files` whose relative path is `p`, or -1.
pub open spec fn relative_index(files: Seq<FileNode>, p: Seq<char>) -> int
    decreases files.len(),
{
    if files.len() == 0 {
        -1
    } else {
        let r = relative_index(files.drop_last(), p);
        if r >= 0 {
            r
        } else if files.last().relative_path@ == p {
            files.len() - 1
        } else {
            -1
        }
    }
}

/// The entry for the file at `relative_index(files, p)`, if there is one.
pub open spec fn entry_at(files: Seq<FileNode>, p: Seq<char>, kind: Seq<char>, reason: Seq<char>) -> Seq<
    EntryView,
> {
    let i = relative_index(files, p);
    if i >= 0 {
        seq![(files[i].relative_path@, kind, 100u8, reason)]
    } else {
        Seq::empty()
    }
}

pub open spec fn is_python(f: FileNode) -> bool {
    f.language is Some && f.language->0@ == "python"@
}

/// A variable `__name__` that the analyzer flagged as a "run as script" check.
pub open spec fn is_main_guard(e: CodeElement) -> bool {
    &&& e.element_type == ElementType::Variable
    &&& e.name@ == "__name__"@
    &&& json_bool_at(e.metadata@, "is_main_check"@) == Some(true)
}

/// One script entry for `f` per main guard among `elems`.
pub open spec fn script_entries(f: FileNode, elems: Seq<CodeElement>) -> Seq<EntryView>
    decreases elems.len(),
{
    if elems.len() == 0 {
        Seq::empty()
    } else {
        let prev = script_entries(f, elems.drop_last());
        if is_main_guard(elems.last()) {
            prev.push((f.relative_path@, "script"@, 90u8, "Python script with main check"@))
        } else {
            prev
        }
    }
}

/// The entries of one Python file: its `__main__.py` module entry, then one
/// per main guard.
pub open spec fn python_file_entries(f: FileNode) -> Seq<EntryView> {
    if is_python(f) {
        let module = if path_file_name(f.path@) == Some("__main__.py"@) {
            seq![(f.relative_path@, "main"@, 90u8, "Python __main__ module"@)]
        } else {
            Seq::empty()
        };
        module + script_entries(f, f.elements@)
    } else {
        Seq::empty()
    }
}

pub open spec fn python_entries(files: Seq<FileNode>) -> Seq<EntryView>
    decreases files.len(),
{
    if files.len() == 0 {
        Seq::empty()
    } else {
        python_entries(files.drop_last()) + python_file_entries(files.last())
    }
}

/// The entrypoints of a project: the Rust binary root, the Rust library
/// root, then the Python entries file by file.
pub open spec fn detected_entrypoints(files: Seq<FileNode>) -> Seq<EntryView> {
    entry_at(files, "src/main.rs"@, "cli"@, "Standard Rust binary entrypoint"@) + entry_at(
        files,
        "src/lib.rs"@,
        "lib"@,
        "Standard Rust library entrypoint"@,
    ) + python_entries(files)
}

pub open spec fn has_entry_kind(eps: Seq<EntryView>, kind: Seq<char>) -> bool {
    exists|i: int| 0 <= i < eps.len() && (#[trigger] eps[i]).1 == kind
}

/// The project type implied by the presence of binary and library entrypoints.
pub open spec fn project_type_of(has_main: bool, has_lib: bool) -> ProjectType {
    if has_main && has_lib {
        ProjectType::Mixed
    } else if has_main {
        ProjectType::Binary
    } else if has_lib {
        ProjectType::Library
    } else {
        ProjectType::Unknown
    }
}

pub open spec fn project_type_for(eps: Seq<EntryView>) -> ProjectType {
    project_type_of(
        has_entry_kind(eps, "cli"@) || has_entry_kind(eps, "main"@),
        has_entry_kind(eps, "lib"@),
    )
}

/// How many files are in language `l`.
pub open spec fn lang_count(files: Seq<FileNode>, l: Seq<char>) -> nat
    decreases files.len(),
{
    if files.len() == 0 {
        0
    } else {
        let last = files.last();
        lang_count(files.drop_last(), l) + if last.language is Some && last.language->0@ == l {
            1nat
        } else {
            0nat
        }
    }
}

/// `main` is the language of the first file whose language is the most
/// common one.
pub open spec fn is_main_language(files: Seq<FileNode>, main: Seq<char>) -> bool {
    exists|b: int|
        0 <= b < files.len() && (#[trigger] files[b]).language is Some && main
            == files[b].language->0@ && (forall|j: int|
            0 <= j < files.len() && (#[trigger] files[j]).language is Some ==> lang_count(
                files,
                files[j].language->0@,
            ) <= lang_count(files, main)) && (forall|j: int|
            0 <= j < b && (#[trigger] files[j]).language is Some ==> lang_count(
                files,
                files[j].language->0@,
            ) < lang_count(files, main))
}

proof fn lemma_lang_count_bound(files: Seq<FileNode>, l: Seq<char>)
    ensures
        lang_count(files, l) <= files.len(),
    decreases files.len(),
{
    if files.len() > 0 {
        lemma_lang_count_bound(files.drop_last(), l);
    }
}

/// The boolean stored under `key` in the JSON object `text`; none when `text`
/// is not JSON, not an object, or holds no boolean there.
pub uninterp spec fn json_bool_at(text: Seq<char>, key: Seq<char>) -> Option<bool>;

/// Relies on serde_json's `from_str` into a `Value`, and on `Value::get` and
/// `Value::as_bool`, to read a boolean field of a JSON object.
#[verifier::external_body]
fn json_bool_field(text: &str, key: &str) -> (r: Option<bool>)
    ensures
        r == json_bool_at(text@, key@),
{
    match serde_json::from_str::<serde_json::Value>(text) {
        Ok(v) => v.get(key).and_then(|b| b.as_bool()),
        Err(_) => None,
    }
}

/// Appends the entries of one Python file.
fn push_python_entries(f: &FileNode, eps: &mut Vec<EntrypointInfo>)
    ensures
        entry_views(final(eps)@) == entry_views(old(eps)@) + python_file_entries(*f),
{
    let ghost start = entry_views(eps@);
    let python = String::from_str("python");
    let is_py = match &f.language {
        Some(l) => *l == python,
        None => false,
    };
    if !is_py {
        assert(entry_views(eps@) =~= start + python_file_entries(*f));
        return;
    }
    let main_module = String::from_str("__main__.py");
    match file_name_of(f.path.as_str()) {
        Some(n) => {
            if n == main_module {
                let ghost prev = eps@;
                eps.push(
                    EntrypointInfo {
                        file_path: f.relative_path.clone(),
                        entrypoint_type: String::from_str("main"),
                        confidence: 90,
                        reason: String::from_str("Python __main__ module"),
                    },
                );
                assert(entry_views(eps@) =~= entry_views(prev).push(
                    (f.relative_path@, "main"@, 90u8, "Python __main__ module"@),
                ));
            }
        },
        None => {},
    }
    let ghost mid = entry_views(eps@);
    assert(mid =~= start + if path_file_name(f.path@) == Some("__main__.py"@) {
        seq![(f.relative_path@, "main"@, 90u8, "Python __main__ module"@)]
    } else {
        Seq::<EntryView>::empty()
    });
    let name = String::from_str("__name__");
    let flag = String::from_str("is_main_check");
    let mut k: usize = 0;
    while k < f.elements.len()
        invariant
            k <= f.elements@.len(),
            name@ == "__name__"@,
            flag@ == "is_main_check"@,
            entry_views(eps@) == mid + script_entries(*f, f.elements@.subrange(0, k as int)),
        decreases f.elements@.len() - k,
    {
        let e = &f.elements[k];
        let ghost sub = f.elements@.subrange(0, k + 1);
        assert(sub.drop_last() =~= f.elements@.subrange(0, k as int));
        assert(sub.last() == f.elements@[k as int]);
        if e.element_type == ElementType::Variable && e.name == name && json_bool_field(
            e.metadata.as_str(),
            flag.as_str(),
        ) == Some(true) {
            let ghost prev = eps@;
            eps.push(
                EntrypointInfo {
                    file_path: f.relative_path.clone(),
                    entrypoint_type: String::from_str("script"),
                    confidence: 90,
                    reason: String::from_str("Python script with main check"),
                },
            );
            assert(entry_views(eps@) =~= entry_views(prev).push(
                (f.relative_path@, "script"@, 90u8, "Python script with main check"@),
            ));
        }
        k += 1;
    }
    assert(f.elements@.subrange(0, f.elements@.len() as int) =~= f.elements@);
}

impl ProjectMatrix {
    /// The first index whose relative path is `p`, if any.
    fn find_relative(&self, p: &String) -> (r: Option<usize>)
        ensures
            match r {
                Some(i) => i < self.files@.len() && i == relative_index(self.files@, p@),
                None => relative_index(self.files@, p@) < 0,
            },
    {
        let mut found: Option<usize> = None;
        let mut i: usize = 0;
        while i < self.files.len()
            invariant
                i <= self.files@.len(),
                match found {
                    Some(j) => j < i && j == relative_index(self.files@.subrange(0, i as int), p@),
                    None => relative_index(self.files@.subrange(0, i as int), p@) < 0,
                },
            decreases self.files@.len() - i,
        {
            let ghost sub = self.files@.subrange(0, i + 1);
            assert(sub.drop_last() =~= self.files@.subrange(0, i as int));
            assert(sub.last() == self.files@[i as int]);
            if found.is_none() && self.files[i].relative_path == *p {
                found = Some(i);
            }
            i += 1;
        }
        assert(self.files@.subrange(0, self.files@.len() as int) =~= self.files@);
        found
    }

    /// Appends an entry for the file whose relative path is `p`, if any.
    fn push_rooted_entry(
        &self,
        p: &str,
        kind: &str,
        reason: &str,
        eps: &mut Vec<EntrypointInfo>,
    )
        ensures
            entry_views(final(eps)@) == entry_views(old(eps)@) + entry_at(
                self.files@,
                p@,
                kind@,
                reason@,
            ),
    {
        let ghost start = entry_views(eps@);
        match self.find_relative(&String::from_str(p)) {
            Some(i) => {
                eps.push(
                    EntrypointInfo {
                        file_path: self.files[i].relative_path.clone(),
                        entrypoint_type: String::from_str(kind),
                        confidence: 100,
                        reason: String::from_str(reason),
                    },
                );
                assert(entry_views(eps@) =~= start + entry_at(self.files@, p@, kind@, reason@));
            },
            None => {
                assert(entry_views(eps@) =~= start + entry_at(self.files@, p@, kind@, reason@));
            },
        }
    }

    /// The project's entrypoints, as `detected_entrypoints` lists them.
    fn detect_entrypoints(&self) -> (r: Vec<EntrypointInfo>)
        ensures
            entry_views(r@) == detected_entrypoints(self.files@),
    {
        let mut eps: Vec<EntrypointInfo> = Vec::new();
        assert(entry_views(eps@) =~= Seq::<EntryView>::empty());
        self.push_rooted_entry("src/main.rs", "cli", "Standard Rust binary entrypoint", &mut eps);
        self.push_rooted_entry("src/lib.rs", "lib", "Standard Rust library entrypoint", &mut eps);
        let ghost rooted = entry_views(eps@);
        let mut i: usize = 0;
        while i < self.files.len()
            invariant
                i <= self.files@.len(),
                entry_views(eps@) == rooted + python_entries(self.files@.subrange(0, i as int)),
            decreases self.files@.len() - i,
        {
            let ghost sub = self.files@.subrange(0, i + 1);
            assert(sub.drop_last() =~= self.files@.subrange(0, i as int));
            assert(sub.last() == self.files@[i as int]);
            push_python_entries(&self.files[i], &mut eps);
            i += 1;
        }
        assert(self.files@.subrange(0, self.files@.len() as int) =~= self.files@);
        eps
    }

    /// How many files are in language `l`.
    fn count_language(&self, l: &String) -> (r: usize)
        ensures
            r == lang_count(self.files@, l@),
    {
        let mut c: usize = 0;
        let mut i: usize = 0;
        while i < self.files.len()
            invariant
                i <= self.files@.len(),
                c == lang_count(self.files@.subrange(0, i as int), l@),
            decreases self.files@.len() - i,
        {
            let ghost sub = self.files@.subrange(0, i + 1);
            assert(sub.drop_last() =~= self.files@.subrange(0, i as int));
            assert(sub.last() == self.files@[i as int]);
            proof {
                lemma_lang_count_bound(self.files@.subrange(0, i as int), l@);
            }
            match &self.files[i].language {
                Some(m) => {
                    if *m == *l {
                        c = c + 1;
                    }
                },
                None => {},
            }
            i += 1;
        }
        assert(self.files@.subrange(0, self.files@.len() as int) =~= self.files@);
        c
    }

    /// The language of the first file whose language is the most common one,
    /// if any file has a language.
    fn main_language(&self) -> (r: Option<String>)
        ensures
            match r {
                Some(l) => is_main_language(self.files@, l@),
                None => forall|j: int|
                    0 <= j < self.files@.len() ==> (#[trigger] self.files@[j]).language is None,
            },
    {
        let mut best: Option<usize> = None;
        let mut best_count: usize = 0;
        let mut i: usize = 0;
        while i < self.files.len()
            invariant
                i <= self.files@.len(),
                match best {
                    Some(b) => {
                        &&& b < i
                        &&& self.files@[b as int].language is Some
                        &&& best_count == lang_count(
                            self.files@,
                            self.files@[b as int].language->0@,
                        )
                        &&& forall|j: int|
                            0 <= j < i && (#[trigger] self.files@[j]).language is Some
                                ==> lang_count(self.files@, self.files@[j].language->0@)
                                <= best_count
                        &&& forall|j: int|
                            0 <= j < b && (#[trigger] self.files@[j]).language is Some
                                ==> lang_count(self.files@, self.files@[j].language->0@)
                                < best_count
                    },
                    None => forall|j: int|
                        0 <= j < i ==> (#[trigger] self.files@[j]).language is None,
                },
            decreases self.files@.len() - i,
        {
            match &self.files[i].language {
                Some(l) => {
                    let c = self.count_language(l);
                    proof {
                        let files = self.files@;
                        let lc = files[i as int].language->0@;
                        if lang_count(files, lc) == 0 {
                            // the file itself is in its own language
                            assert(files.subrange(0, i as int + 1).drop_last() =~= files.subrange(
                                0,
                                i as int,
                            ));
                            lemma_lang_count_prefix_le(files, lc, i as int + 1);
                        }
                    }
                    match best {
                        Some(_) => {
                            if c > best_count {
                                best = Some(i);
                                best_count = c;
                            }
                        },
                        None => {
                            best = Some(i);
                            best_count = c;
                        },
                    }
                },
                None => {},
            }
            i += 1;
        }
        match best {
            Some(b) => {
                let l = match &self.files[b].language {
                    Some(l) => l.clone(),
                    None => String::new(),
                };
                assert(is_main_language(self.files@, l@)) by {
                    assert(self.files@[b as int].language is Some);
                }
                Some(l)
            },
            None => None,
        }
    }

    /// Completes a scan: sets the average tokens per file (rounded down; 0
    /// when there are no files), the entrypoints as
    /// `detected_entrypoints` lists them, the project type they imply and the
    /// main language (left as it is when no file has a language).
    pub fn finalize(&mut self)
        requires
            old(self).wf(),
        ensures
            final(self).wf(),
            final(self).metadata == old(self).metadata,
            final(self).files@ == old(self).files@,
            final(self).relationships@ == old(self).relationships@,
            final(self).external_dependencies@ == old(self).external_dependencies@,
            final(self).graph == old(self).graph,
            old(self).metadata.total_files > 0 ==> final(self).project_info.token_summary.average_tokens_per_file == old(self).project_info.token_summary.total_tokens / (old(self).metadata.total_files as u64),
            old(self).metadata.total_files == 0 ==> final(self).project_info.token_summary.average_tokens_per_file == 0,
            entry_views(final(self).project_info.entrypoints@) == detected_entrypoints(
                old(self).files@,
            ),
            final(self).project_info.project_type == project_type_for(
                detected_entrypoints(old(self).files@),
            ),
            (exists|j: int|
                0 <= j < old(self).files@.len() && (#[trigger] old(self).files@[j]).language is Some)
                ==> is_main_language(old(self).files@, final(self).project_info.main_language@),
            (forall|j: int|
                0 <= j < old(self).files@.len() ==> (#[trigger] old(self).files@[j]).language is None)
                ==> final(self).project_info.main_language == old(self).project_info.main_language,
            final(self).project_info.token_summary.total_tokens == old(self).project_info.token_summary.total_tokens,
            final(self).project_info.token_summary.code_tokens == old(self).project_info.token_summary.code_tokens,
            final(self).project_info.token_summary.documentation_tokens == old(self).project_info.token_summary.documentation_tokens,
            final(self).project_info.token_summary.largest_file_tokens == old(self).project_info.token_summary.largest_file_tokens,
            final(self).project_info.token_summary.largest_file_path == old(self).project_info.token_summary.largest_file_path,
    {
        self.project_info.token_summary.average_tokens_per_file = if self.metadata.total_files > 0 {
            self.project_info.token_summary.total_tokens / (self.metadata.total_files as u64)
        } else {
            0
        };
        let eps = self.detect_entrypoints();
        let ptype = project_type_from(&eps);
        self.project_info.entrypoints = eps;
        self.project_info.project_type = ptype;
        match self.main_language() {
            Some(l) => {
                self.project_info.main_language = l;
            },
            None => {},
        }
    }
}

proof fn lemma_lang_count_prefix_le(files: Seq<FileNode>, l: Seq<char>, k: int)
    requires
        0 < k <= files.len(),
        files[k - 1].language is Some,
        files[k - 1].language->0@ == l,
    ensures
        lang_count(files, l) >= 1,
    decreases files.len(),
{
    if k < files.len() {
        assert(files.drop_last()[k - 1] == files[k - 1]);
        lemma_lang_count_prefix_le(files.drop_last(), l, k);
    }
}

/// Whether some entrypoint is of kind `kind`.
fn has_kind(eps: &Vec<EntrypointInfo>, kind: &str) -> (r: bool)
    ensures
        r == has_entry_kind(entry_views(eps@), kind@),
{
    let k = String::from_str(kind);
    let mut i: usize = 0;
    while i < eps.len()
        invariant
            i <= eps@.len(),
            k@ == kind@,
            forall|j: int| 0 <= j < i ==> (#[trigger] eps@[j]).entrypoint_type@ != kind@,
        decreases eps@.len() - i,
    {
        if eps[i].entrypoint_type == k {
            assert(entry_views(eps@)[i as int].1 == kind@);
            return true;
        }
        i += 1;
    }
    assert forall|j: int| 0 <= j < entry_views(eps@).len() implies (#[trigger] entry_views(
        eps@,
    )[j]).1 != kind@ by {
        assert(eps@[j].entrypoint_type@ != kind@);
    }
    false
}

/// The project type implied by a list of entrypoints.
fn project_type_from(eps: &Vec<EntrypointInfo>) -> (r: ProjectType)
    ensures
        r == project_type_for(entry_views(eps@)),
{
    let has_main = has_kind(eps, "cli") || has_kind(eps, "main");
    let has_lib = has_kind(eps, "lib");
    if has_main && has_lib {
        ProjectType::Mixed
    } else if has_main {
        ProjectType::Binary
    } else if has_lib {
        ProjectType::Library
    } else {
        ProjectType::Unknown
    }
}

/// The index of the first file in `files` whose path is `path`, if any.
pub fn position_of_path(files: &Vec<FileNode>, path: &String) -> (r: Option<usize>)
    ensures
        match r {
            Some(i) => i < files@.len() && i == path_index(files@, path@) && files@[i as int].path@
                == path@,
            None => path_index(files@, path@) < 0,
        },
{
    let mut i: usize = 0;
    while i < files.len()
        invariant
            i <= files@.len(),
            forall|j: int| 0 <= j < i ==> files@[j].path@ != path@,
        decreases files@.len() - i,
    {
        if files[i].path == *path {
            proof {
                lemma_path_index(files@, path@);
                assert(files@[i as int].path@ == path@);
                let r = path_index(files@, path@);
                assert(0 <= r <= i);
                assert(files@[r].path@ == path@);
            }
            return Some(i);
        }
        i += 1;
    }
    proof {
        lemma_path_index(files@, path@);
    }
    None
}

/// Whether `s` is among `v`.
pub fn contains_string(v: &Vec<String>, s: &String) -> (r: bool)
    ensures
        r == str_views(v@).contains(s@),
{
    let mut i: usize = 0;
    while i < v.len()
        invariant
            i <= v@.len(),
            forall|j: int| 0 <= j < i ==> v@[j]@ != s@,
        decreases v@.len() - i,
    {
        if v[i] == *s {
            assert(str_views(v@)[i as int] == s@);
            return true;
        }
        i += 1;
    }
    assert(!str_views(v@).contains(s@)) by {
        if str_views(v@).contains(s@) {
            let w = choose|w: int| 0 <= w < str_views(v@).len() && str_views(v@)[w] == s@;
            assert(v@[w]@ == s@);
        }
    }
    false
}

proof fn lemma_filter_paths_unique(files: Seq<FileNode>, pred: spec_fn(FileNode) -> bool)
    requires
        paths_unique(files),
    ensures
        paths_unique(files.filter(pred)),
    decreases files.len(),
{
    reveal(Seq::filter);
    if files.len() > 0 {
        let prev = files.drop_last();
        lemma_filter_paths_unique(prev, pred);
        prev.filter_lemma(pred);
        let r = files.filter(pred);
        if pred(files.last()) {
            assert forall|i: int, j: int| 0 <= i < j < r.len() implies (#[trigger] r[i]).path@ != (
            #[trigger] r[j]).path@ by {
                if j == r.len() - 1 {
                    assert(r[i] == prev.filter(pred)[i]);
                    assert(prev.filter(pred).contains(r[i]));
                    prev.lemma_filter_contains_rev(pred, r[i]);
                    let w = choose|w: int| 0 <= w < prev.len() && prev[w] == r[i];
                    assert(files[w] == r[i]);
                    assert(files[files.len() - 1] == r[j]);
                } else {
                    assert(r[i] == prev.filter(pred)[i] && r[j] == prev.filter(pred)[j]);
                }
            }
        }
    }
}

/// The requested paths that are stored files.
pub open spec fn subset_files(files: Seq<FileNode>, paths: Seq<Seq<char>>) -> Seq<FileNode> {
    files.filter(|f: FileNode| paths.contains(f.path@))
}

/// The relationships with both endpoints among `files`.
pub open spec fn relationships_within(files: Seq<FileNode>, rels: Seq<Relationship>) -> Seq<
    Relationship,
> {
    rels.filter(
        |r: Relationship| path_index(files, r.from_file@) >= 0 && path_index(files, r.to_file@) >= 0,
    )
}

/// The dependencies declared by one of `files`.
pub open spec fn dependencies_within(files: Seq<FileNode>, deps: Seq<ExternalDependency>) -> Seq<
    ExternalDependency,
> {
    deps.filter(|d: ExternalDependency| path_index(files, d.source_file@) >= 0)
}

/// Why a matrix could not be put together from persisted parts.
#[derive(Debug, Clone, Copy, PartialEq, Eq, Structural)]
pub enum MatrixError {
    /// Two files are stored under the same path.
    DuplicatePath,
}

impl ProjectMatrix {
    /// A matrix with the given canonical parts, as read back from a saved
    /// document; the traversal graph is built on the first query. Fails when
    /// two files share a path.
    pub fn from_parts(
        metadata: ProjectMetadata,
        files: Vec<FileNode>,
        relationships: Vec<Relationship>,
        external_dependencies: Vec<ExternalDependency>,
        project_info: ProjectInfo,
    ) -> (r: Result<ProjectMatrix, MatrixError>)
        ensures
            paths_unique(files@) <==> r is Ok,
            r is Ok ==> {
                let m = r->Ok_0;
                &&& m.wf()
                &&& !m.graph_built()
                &&& m.metadata == metadata
                &&& m.files@ == files@
                &&& m.relationships@ == relationships@
                &&& m.external_dependencies@ == external_dependencies@
                &&& m.project_info == project_info
            },
            r is Err ==> r->Err_0 == MatrixError::DuplicatePath,
    {
        let mut i: usize = 0;
        while i < files.len()
            invariant
                i <= files@.len(),
                forall|a: int, b: int|
                    0 <= a < b < files@.len() && a < i ==> (#[trigger] files@[a]).path@ != (
                    #[trigger] files@[b]).path@,
            decreases files@.len() - i,
        {
            let mut j: usize = i + 1;
            while j < files.len()
                invariant
                    i < j <= files@.len(),
                    forall|a: int, b: int|
                        0 <= a < b < files@.len() && a < i ==> (#[trigger] files@[a]).path@ != (
                        #[trigger] files@[b]).path@,
                    forall|b: int| i < b < j ==> files@[i as int].path@ != (#[trigger] files@[b]).path@,
                decreases files@.len() - j,
            {
                if files[i].path == files[j].path {
                    return Err(MatrixError::DuplicatePath);
                }
                j += 1;
            }
            i += 1;
        }
        Ok(
            ProjectMatrix {
                metadata,
                files,
                relationships,
                external_dependencies,
                project_info,
                graph: GraphCache::empty(),
            },
        )
    }

    /// The part of the matrix about the files stored under `paths`: metadata
    /// and project information as they are, the requested files that are
    /// stored (in file order), the relationships with both endpoints among
    /// them and the dependencies they declare. The traversal graph is built on
    /// the first query.
    pub fn subset(self, paths: &Vec<String>) -> (r: ProjectMatrix)
        requires
            self.wf(),
        ensures
            r.wf(),
            !r.graph_built(),
            r.metadata == self.metadata,
            r.project_info == self.project_info,
            r.files@ == subset_files(self.files@, str_views(paths@)),
            r.relationships@ == relationships_within(r.files@, self.relationships@),
            r.external_dependencies@ == dependencies_within(r.files@, self.external_dependencies@),
    {
        let ghost want = str_views(paths@);
        let ghost fpred = |f: FileNode| want.contains(f.path@);
        let ProjectMatrix { metadata, files, relationships, external_dependencies, project_info, graph: _ } = self;
        let ghost all_files = files@;
        let mut files = files;
        let mut kept: Vec<FileNode> = Vec::new();
        let n = files.len();
        let mut k: usize = 0;
        while k < n
            invariant
                n == all_files.len(),
                k <= n,
                want == str_views(paths@),
                fpred == (|f: FileNode| want.contains(f.path@)),
                files@ == all_files.subrange(k as int, n as int),
                kept@ == all_files.subrange(0, k as int).filter(fpred),
            decreases n - k,
        {
            let f = files.remove(0);
            let ghost sub = all_files.subrange(0, k + 1);
            assert(sub.drop_last() =~= all_files.subrange(0, k as int));
            assert(sub.last() == f);
            proof {
                reveal(Seq::filter);
            }
            if contains_string(paths, &f.path) {
                assert(fpred(f));
                kept.push(f);
            } else {
                assert(!fpred(f));
            }
            assert(files@ =~= all_files.subrange(k + 1, n as int));
            k += 1;
        }
        assert(all_files.subrange(0, n as int) =~= all_files);
        proof {
            lemma_filter_paths_unique(all_files, fpred);
        }
        let ghost rpred = |r: Relationship|
            path_index(kept@, r.from_file@) >= 0 && path_index(kept@, r.to_file@) >= 0;
        let ghost all_rels = relationships@;
        let mut relationships = relationships;
        let mut rels: Vec<Relationship> = Vec::new();
        let m = relationships.len();
        let mut k: usize = 0;
        while k < m
            invariant
                m == all_rels.len(),
                k <= m,
                rpred == (|r: Relationship|
                    path_index(kept@, r.from_file@) >= 0 && path_index(kept@, r.to_file@) >= 0),
                relationships@ == all_rels.subrange(k as int, m as int),
                rels@ == all_rels.subrange(0, k as int).filter(rpred),
            decreases m - k,
        {
            let r = relationships.remove(0);
            let ghost sub = all_rels.subrange(0, k + 1);
            assert(sub.drop_last() =~= all_rels.subrange(0, k as int));
            assert(sub.last() == r);
            proof {
                reveal(Seq::filter);
            }
            if position_of_path(&kept, &r.from_file).is_some() && position_of_path(
                &kept,
                &r.to_file,
            ).is_some() {
                assert(rpred(r));
                rels.push(r);
            } else {
                assert(!rpred(r));
            }
            assert(relationships@ =~= all_rels.subrange(k + 1, m as int));
            k += 1;
        }
        assert(all_rels.subrange(0, m as int) =~= all_rels);
        let ghost dpred = |d: ExternalDependency| path_index(kept@, d.source_file@) >= 0;
        let ghost all_deps = external_dependencies@;
        let mut external_dependencies = external_dependencies;
        let mut deps: Vec<ExternalDependency> = Vec::new();
        let m = external_dependencies.len();
        let mut k: usize = 0;
        while k < m
            invariant
                m == all_deps.len(),
                k <= m,
                dpred == (|d: ExternalDependency| path_index(kept@, d.source_file@) >= 0),
                external_dependencies@ == all_deps.subrange(k as int, m as int),
                deps@ == all_deps.subrange(0, k as int).filter(dpred),
            decreases m - k,
        {
            let d = external_dependencies.remove(0);
            let ghost sub = all_deps.subrange(0, k + 1);
            assert(sub.drop_last() =~= all_deps.subrange(0, k as int));
            assert(sub.last() == d);
            proof {
                reveal(Seq::filter);
            }
            if position_of_path(&kept, &d.source_file).is_some() {
                assert(dpred(d));
                deps.push(d);
            } else {
                assert(!dpred(d));
            }
            assert(external_dependencies@ =~= all_deps.subrange(k + 1, m as int));
            k += 1;
        }
        assert(all_deps.subrange(0, m as int) =~= all_deps);
        ProjectMatrix {
            metadata,
            files: kept,
            relationships: rels,
            external_dependencies: deps,
            project_info,
            graph: GraphCache::empty(),
        }
    }
}

/// A subset holds exactly the requested paths that are stored files, and a
/// relationship survives in it exactly when both its endpoints do.
pub proof fn lemma_subset_exact(
    files: Seq<FileNode>,
    rels: Seq<Relationship>,
    paths: Seq<Seq<char>>,
    p: Seq<char>,
    r: Relationship,
)
    requires
        paths_unique(files),
    ensures
        path_index(subset_files(files, paths), p) >= 0 <==> (paths.contains(p) && path_index(
            files,
            p,
        ) >= 0),
        relationships_within(subset_files(files, paths), rels).contains(r) <==> (rels.contains(r)
            && path_index(subset_files(files, paths), r.from_file@) >= 0 && path_index(
            subset_files(files, paths),
            r.to_file@,
        ) >= 0),
{
    let pred = |f: FileNode| paths.contains(f.path@);
    let sub = files.filter(pred);
    let rpred = |x: Relationship|
        path_index(sub, x.from_file@) >= 0 && path_index(sub, x.to_file@) >= 0;
    lemma_path_index(files, p);
    lemma_path_index(sub, p);
    files.filter_lemma(pred);
    rels.filter_lemma(rpred);
    if path_index(sub, p) >= 0 {
        let i = path_index(sub, p);
        assert(sub.contains(sub[i]));
        files.lemma_filter_contains_rev(pred, sub[i]);
        let w = choose|w: int| 0 <= w < files.len() && files[w] == sub[i];
        assert(files[w].path@ == p);
    }
    if paths.contains(p) && path_index(files, p) >= 0 {
        let j = path_index(files, p);
        assert(pred(files[j]));
        assert(sub.contains(files[j]));
        let w = choose|w: int| 0 <= w < sub.len() && sub[w] == files[j];
        assert(sub[w].path@ == p);
    }
    if relationships_within(sub, rels).contains(r) {
        rels.lemma_filter_contains_rev(rpred, r);
        let w = choose|w: int| 0 <= w < rels.filter(rpred).len() && rels.filter(rpred)[w] == r;
        assert(rpred(rels.filter(rpred)[w]));
    }
    if rels.contains(r) && rpred(r) {
        let w = choose|w: int| 0 <= w < rels.len() && rels[w] == r;
        assert(rpred(rels[w]));
    }
}

/// Relies on chrono's `Utc::now`, read as whole seconds since the Unix epoch.
#[verifier::external_body]
fn now_timestamp() -> (r: i64) {
    chrono::Utc::now().timestamp()
}

} // verus!
