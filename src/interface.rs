//! The messages exchanged with plugin processes and the data they carry.
//!
//! Values here are plain: free-form JSON (element metadata, plugin
//! configuration, format options) is carried as JSON text, strengths are in
//! thousandths and confidences in percent.
use vstd::prelude::*;

verus! {

/// Which role a plugin plays.
#[derive(Debug, Clone, Copy, PartialEq, Eq, Structural)]
pub enum PluginType {
    /// An analyzer: reads a source file and reports its structure.
    Input,
    /// A generator: turns a saved matrix into documents.
    Output,
}

/// A source element as an analyzer reports it.
#[derive(Debug, Clone)]
pub struct CodeElement {
    pub element_type: String,
    pub name: String,
    pub signature: Option<String>,
    pub line_start: u32,
    pub line_end: u32,
    pub summary: Option<String>,
    pub complexity_score: Option<u32>,
    pub calls: Vec<String>,
    pub metadata: String,
}

/// An import as an analyzer reports it.
#[derive(Debug, Clone)]
pub struct Import {
    pub module: String,
    pub items: Vec<String>,
    pub alias: Option<String>,
    pub line_number: u32,
    pub import_type: String,
}

/// A relationship as an analyzer reports it; `strength` is in thousandths.
#[derive(Debug, Clone)]
pub struct Relationship {
    pub from_file: String,
    pub to_file: String,
    pub relationship_type: String,
    pub details: String,
    pub line_number: Option<u32>,
    pub strength: u16,
}

/// An external dependency as an analyzer reports it.
#[derive(Debug, Clone)]
pub struct ExternalDependency {
    pub name: String,
    pub version: Option<String>,
    pub ecosystem: String,
    pub dependency_type: String,
    pub source_file: String,
}

/// What an analyzer produces for one file; it is written to a cache file.
#[derive(Debug, Clone)]
pub struct PluginOutput {
    pub file_path: String,
    pub file_hash: String,
    pub elements: Vec<CodeElement>,
    pub imports: Vec<Import>,
    pub exports: Vec<String>,
    pub relationships: Vec<Relationship>,
    pub external_dependencies: Vec<ExternalDependency>,
    pub file_summary: Option<String>,
    pub processing_time_ms: u64,
    pub plugin_version: String,
}

/// The input of an analysis request.
#[derive(Debug, Clone)]
pub struct PluginInput {
    pub file_path: String,
    pub relative_path: String,
    pub content: String,
    pub project_root: String,
    pub cache_dir: String,
    pub plugin_config: Option<String>,
}

/// The input of a generation request.
#[derive(Debug, Clone)]
pub struct OutputPluginInput {
    pub matrix_path: String,
    pub project_root: String,
    pub output_dir: String,
    pub cache_dir: String,
    pub plugin_config: Option<String>,
    pub format_options: String,
}

/// One artifact a generator produced.
#[derive(Debug, Clone)]
pub struct GeneratedOutput {
    pub output_path: String,
    pub content_type: String,
    pub size_bytes: u64,
    pub checksum: String,
    pub metadata: String,
}

/// What a generator returns inline.
#[derive(Debug, Clone)]
pub struct OutputPluginResult {
    pub plugin_name: String,
    pub plugin_version: String,
    pub output_type: String,
    pub outputs: Vec<GeneratedOutput>,
    pub processing_time_ms: u64,
    pub metadata: String,
}

/// A request sent to a plugin.
#[derive(Debug, Clone)]
pub enum PluginMessage {
    Analyze { input: PluginInput },
    Generate { input: OutputPluginInput },
    CanAnalyze { file_path: String, content_preview: String },
    CanGenerate { output_type: String, format: String },
    GetInfo,
}

/// A plugin's answer.
#[derive(Debug, Clone)]
pub enum PluginResponse {
    /// An analysis finished; its result is in `cache_file` inside the cache
    /// directory.
    Success { cache_file: String, processing_time_ms: u64 },
    /// A generation finished.
    OutputSuccess { result: OutputPluginResult },
    CanAnalyze { can_analyze: bool, confidence: u8 },
    CanGenerate { can_generate: bool, confidence: u8 },
    Info {
        name: String,
        version: String,
        plugin_type: PluginType,
        supported_extensions: Vec<String>,
        supported_filenames: Vec<String>,
        supported_output_types: Option<Vec<String>>,
        supported_formats: Option<Vec<String>>,
    },
    Error { message: String, details: Option<String> },
}

/// What a plugin says about itself.
#[derive(Debug, Clone)]
pub struct PluginInfo {
    pub name: String,
    pub version: String,
    pub plugin_type: PluginType,
    pub supported_extensions: Vec<String>,
    pub supported_filenames: Vec<String>,
    pub supported_output_types: Option<Vec<String>>,
    pub supported_formats: Option<Vec<String>>,
}

/// `items` separated by `sep`.
pub open spec fn joined(items: Seq<Seq<char>>, sep: Seq<char>) -> Seq<char>
    decreases items.len(),
{
    if items.len() == 0 {
        Seq::empty()
    } else if items.len() == 1 {
        items[0]
    } else {
        joined(items.drop_last(), sep) + sep + items.last()
    }
}

/// The names listed, or none.
pub open spec fn listed(v: Option<Vec<String>>) -> Seq<Seq<char>> {
    match v {
        Some(items) => items@.map_values(|s: String| s@),
        None => Seq::empty(),
    }
}

/// Appends `items` to `out`, separated by `sep`.
fn append_joined(out: &mut String, items: &Vec<String>, sep: &str)
    ensures
        final(out)@ == old(out)@ + joined(items@.map_values(|s: String| s@), sep@),
{
    let ghost start = out@;
    let ghost views = items@.map_values(|s: String| s@);
    let mut i: usize = 0;
    while i < items.len()
        invariant
            i <= items@.len(),
            views == items@.map_values(|s: String| s@),
            out@ == start + joined(views.subrange(0, i as int), sep@),
        decreases items@.len() - i,
    {
        let ghost sub = views.subrange(0, i + 1);
        assert(sub.drop_last() =~= views.subrange(0, i as int));
        assert(sub.last() == items@[i as int]@);
        if i > 0 {
            out.append(sep);
        } else {
            assert(joined(views.subrange(0, 0), sep@) =~= Seq::<char>::empty());
        }
        out.append(items[i].as_str());
        proof {
            if i == 0 {
                assert(sub.len() == 1);
                assert(out@ =~= start + joined(sub, sep@));
            } else {
                assert(out@ =~= start + joined(sub, sep@));
            }
        }
        i += 1;
    }
    assert(views.subrange(0, items@.len() as int) =~= views);
}

impl PluginInfo {
    /// What the plugin handles: for an analyzer `Extensions: a, b; Files: c`,
    /// for a generator `Types: a, b; Formats: c`.
    pub fn get_capabilities_description(&self) -> (r: String)
        ensures
            self.plugin_type == PluginType::Input ==> r@ == "Extensions: "@ + joined(
                self.supported_extensions@.map_values(|s: String| s@),
                ", "@,
            ) + "; Files: "@ + joined(self.supported_filenames@.map_values(|s: String| s@), ", "@),
            self.plugin_type == PluginType::Output ==> r@ == "Types: "@ + joined(
                listed(self.supported_output_types),
                ", "@,
            ) + "; Formats: "@ + joined(listed(self.supported_formats), ", "@),
    {
        match self.plugin_type {
            PluginType::Input => {
                let mut out = String::from_str("Extensions: ");
                append_joined(&mut out, &self.supported_extensions, ", ");
                out.append("; Files: ");
                append_joined(&mut out, &self.supported_filenames, ", ");
                out
            },
            PluginType::Output => {
                let none: Vec<String> = Vec::new();
                let mut out = String::from_str("Types: ");
                match &self.supported_output_types {
                    Some(v) => append_joined(&mut out, v, ", "),
                    None => {
                        assert(none@.map_values(|s: String| s@) =~= Seq::<Seq<char>>::empty());
                        append_joined(&mut out, &none, ", ");
                    },
                }
                out.append("; Formats: ");
                match &self.supported_formats {
                    Some(v) => append_joined(&mut out, v, ", "),
                    None => {
                        assert(none@.map_values(|s: String| s@) =~= Seq::<Seq<char>>::empty());
                        append_joined(&mut out, &none, ", ");
                    },
                }
                out
            },
        }
    }

    pub fn is_input_plugin(&self) -> (r: bool)
        ensures
            r == (self.plugin_type == PluginType::Input),
    {
        self.plugin_type == PluginType::Input
    }

    pub fn is_output_plugin(&self) -> (r: bool)
        ensures
            r == (self.plugin_type == PluginType::Output),
    {
        self.plugin_type == PluginType::Output
    }
}

} // verus!
