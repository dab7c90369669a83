//! What is known about the configured plugins as a whole: their list,
//! counts by role, state and source, and whether each could be found.
use vstd::prelude::*;
use crate::config::{
    claims, lemma_name_index, dotted_extension, file_name_or_empty, name_index, serves, Config, InputPluginConfig,
    OutputPluginConfig, PluginSource,
};
use crate::matrix::contains_string;
use crate::paths::{extension_of, file_name_of, lowercase, replace_char};

verus! {

/// A configured plugin, resolved to the file that implements it.
#[derive(Debug)]
pub struct PluginInfo {
    pub name: String,
    pub path: String,
    /// `"input"` or `"output"`.
    pub plugin_type: String,
    /// For input plugins: the extensions they analyze.
    pub extensions: Vec<String>,
    /// For input plugins: the file names they analyze.
    pub filenames: Vec<String>,
    /// For output plugins: what they generate.
    pub output_types: Vec<String>,
    /// For output plugins: the formats they write.
    pub formats: Vec<String>,
    pub source: PluginSource,
    pub enabled: bool,
}

/// Counts of plugins by role, state and source.
#[derive(Debug, Default)]
pub struct PluginStats {
    pub total_plugins: usize,
    pub enabled_plugins: usize,
    pub input_plugins: usize,
    pub output_plugins: usize,
    pub enabled_input: usize,
    pub enabled_output: usize,
    pub builtin_plugins: usize,
    pub local_plugins: usize,
    pub remote_plugins: usize,
}

/// Which enabled plugins were found and which were not.
#[derive(Debug, Default)]
pub struct ValidationResult {
    pub valid_plugins: Vec<String>,
    pub invalid_plugins: Vec<String>,
}

impl ValidationResult {
    pub fn is_valid(&self) -> (r: bool)
        ensures
            r == (self.invalid_plugins@.len() == 0),
    {
        self.invalid_plugins.len() == 0
    }

    pub fn has_issues(&self) -> (r: bool)
        ensures
            r == (self.invalid_plugins@.len() > 0),
    {
        self.invalid_plugins.len() > 0
    }
}

/// How many of `plugins` satisfy `pred`.
pub open spec fn count_where(plugins: Seq<PluginInfo>, pred: spec_fn(PluginInfo) -> bool) -> nat
    decreases plugins.len(),
{
    if plugins.len() == 0 {
        0
    } else {
        count_where(plugins.drop_last(), pred) + if pred(plugins.last()) {
            1nat
        } else {
            0nat
        }
    }
}

pub open spec fn is_input(p: PluginInfo) -> bool {
    p.plugin_type@ == "input"@
}

pub open spec fn is_output(p: PluginInfo) -> bool {
    p.plugin_type@ == "output"@
}

proof fn lemma_count_bound(plugins: Seq<PluginInfo>, pred: spec_fn(PluginInfo) -> bool)
    ensures
        count_where(plugins, pred) <= plugins.len(),
    decreases plugins.len(),
{
    if plugins.len() > 0 {
        lemma_count_bound(plugins.drop_last(), pred);
    }
}

/// Counts `plugins` by role, state and source; GitHub and Git sources count
/// as remote.
pub fn plugin_stats(plugins: &Vec<PluginInfo>) -> (r: PluginStats)
    ensures
        r.total_plugins == plugins@.len(),
        r.enabled_plugins == count_where(plugins@, |p: PluginInfo| p.enabled),
        r.input_plugins == count_where(plugins@, |p: PluginInfo| is_input(p)),
        r.output_plugins == count_where(plugins@, |p: PluginInfo| is_output(p)),
        r.enabled_input == count_where(plugins@, |p: PluginInfo| is_input(p) && p.enabled),
        r.enabled_output == count_where(plugins@, |p: PluginInfo| is_output(p) && p.enabled),
        r.builtin_plugins == count_where(plugins@, |p: PluginInfo| p.source is Builtin),
        r.local_plugins == count_where(plugins@, |p: PluginInfo| p.source is Local),
        r.remote_plugins == count_where(
            plugins@,
            |p: PluginInfo| p.source is GitHub || p.source is Git,
        ),
{
    let input = String::from_str("input");
    let output = String::from_str("output");
    let mut r = PluginStats {
        total_plugins: plugins.len(),
        enabled_plugins: 0,
        input_plugins: 0,
        output_plugins: 0,
        enabled_input: 0,
        enabled_output: 0,
        builtin_plugins: 0,
        local_plugins: 0,
        remote_plugins: 0,
    };
    let mut i: usize = 0;
    while i < plugins.len()
        invariant
            i <= plugins@.len(),
            input@ == "input"@,
            output@ == "output"@,
            r.total_plugins == plugins@.len(),
            ({
                let s = plugins@.subrange(0, i as int);
                &&& r.enabled_plugins == count_where(s, |p: PluginInfo| p.enabled)
                &&& r.input_plugins == count_where(s, |p: PluginInfo| is_input(p))
                &&& r.output_plugins == count_where(s, |p: PluginInfo| is_output(p))
                &&& r.enabled_input == count_where(s, |p: PluginInfo| is_input(p) && p.enabled)
                &&& r.enabled_output == count_where(s, |p: PluginInfo| is_output(p) && p.enabled)
                &&& r.builtin_plugins == count_where(s, |p: PluginInfo| p.source is Builtin)
                &&& r.local_plugins == count_where(s, |p: PluginInfo| p.source is Local)
                &&& r.remote_plugins == count_where(
                    s,
                    |p: PluginInfo| p.source is GitHub || p.source is Git,
                )
            }),
        decreases plugins@.len() - i,
    {
        let ghost s = plugins@.subrange(0, i as int);
        let ghost t = plugins@.subrange(0, i + 1);
        assert(t.drop_last() =~= s);
        assert(t.last() == plugins@[i as int]);
        proof {
            lemma_count_bound(s, |p: PluginInfo| p.enabled);
            lemma_count_bound(s, |p: PluginInfo| is_input(p));
            lemma_count_bound(s, |p: PluginInfo| is_output(p));
            lemma_count_bound(s, |p: PluginInfo| is_input(p) && p.enabled);
            lemma_count_bound(s, |p: PluginInfo| is_output(p) && p.enabled);
            lemma_count_bound(s, |p: PluginInfo| p.source is Builtin);
            lemma_count_bound(s, |p: PluginInfo| p.source is Local);
            lemma_count_bound(s, |p: PluginInfo| p.source is GitHub || p.source is Git);
        }
        let p = &plugins[i];
        let is_in = p.plugin_type == input;
        let is_out = p.plugin_type == output;
        if p.enabled {
            r.enabled_plugins = r.enabled_plugins + 1;
        }
        if is_in {
            r.input_plugins = r.input_plugins + 1;
            if p.enabled {
                r.enabled_input = r.enabled_input + 1;
            }
        }
        if is_out {
            r.output_plugins = r.output_plugins + 1;
            if p.enabled {
                r.enabled_output = r.enabled_output + 1;
            }
        }
        match &p.source {
            PluginSource::Builtin { .. } => {
                r.builtin_plugins = r.builtin_plugins + 1;
            },
            PluginSource::Local { .. } => {
                r.local_plugins = r.local_plugins + 1;
            },
            PluginSource::GitHub { .. } | PluginSource::Git { .. } => {
                r.remote_plugins = r.remote_plugins + 1;
            },
        }
        i += 1;
    }
    assert(plugins@.subrange(0, plugins@.len() as int) =~= plugins@);
    r
}

/// Why a plugin-management request failed.
#[derive(Debug, Clone, PartialEq, Eq)]
pub enum ManagerError {
    /// The plugin type is neither `input` nor `output`.
    UnknownPluginType { plugin_type: String },
    /// No plugin of that type has that name.
    NotFound { plugin_type: String, name: String },
}

/// Plugin discovery and management over a configuration.
pub struct PluginManager {
    config: Config,
}

/// Where a plugin of kind `kind` and `source` lives: a local path as given;
/// a built-in input plugin under `plugins/input/` with an `_analyzer` suffix,
/// a built-in output plugin under `plugins/output/`; remote plugins in the
/// cache, by repository (or URL with `/` as `_`) and version (or branch).
/// None for a built-in plugin of another kind.
pub open spec fn resolved_path(name: Seq<char>, source: PluginSource, kind: Seq<char>) -> Option<Seq<char>> {
    match source {
        PluginSource::Local { path } => Some(path@),
        PluginSource::Builtin { name: pn, .. } => if kind == "input"@ {
            Some("plugins/input/"@ + pn@ + "_analyzer.py"@)
        } else if kind == "output"@ {
            Some("plugins/output/"@ + pn@ + ".py"@)
        } else {
            None
        },
        PluginSource::GitHub { repo, version } => Some(
            ".csd_cache/github/"@ + repo@ + "/"@ + match version {
                Some(v) => v@,
                None => "latest"@,
            } + "/"@ + name + ".py"@,
        ),
        PluginSource::Git { url, branch } => Some(
            ".csd_cache/git/"@ + url@.map_values(|c: char| if c == '/' { '_' } else { c }) + "/"@
                + match branch {
                Some(b) => b@,
                None => "main"@,
            } + "/"@ + name + ".py"@,
        ),
    }
}

/// `info` describes the enabled input plugin `name` with settings `cfg`.
pub open spec fn describes_input(info: PluginInfo, name: String, cfg: InputPluginConfig) -> bool {
    &&& info.name == name
    &&& resolved_path(name@, cfg.source, "input"@) == Some(info.path@)
    &&& info.plugin_type@ == "input"@
    &&& info.extensions@ == cfg.file_patterns.extensions@
    &&& info.filenames@ == cfg.file_patterns.filenames@
    &&& info.output_types@.len() == 0
    &&& info.formats@.len() == 0
    &&& info.source == cfg.source
    &&& info.enabled == cfg.enabled
}

/// `info` describes the enabled output plugin `name` with settings `cfg`.
pub open spec fn describes_output(info: PluginInfo, name: String, cfg: OutputPluginConfig) -> bool {
    &&& info.name == name
    &&& resolved_path(name@, cfg.source, "output"@) == Some(info.path@)
    &&& info.plugin_type@ == "output"@
    &&& info.extensions@.len() == 0
    &&& info.filenames@.len() == 0
    &&& info.output_types@ == cfg.output_types@
    &&& info.formats@ == cfg.formats@
    &&& info.source == cfg.source
    &&& info.enabled == cfg.enabled
}

/// `r` describes, in order, the input entries of `entries`.
pub open spec fn describes_inputs(r: Seq<PluginInfo>, entries: Seq<(String, InputPluginConfig)>) -> bool {
    &&& r.len() == entries.len()
    &&& forall|i: int| 0 <= i < r.len() ==> describes_input(#[trigger] r[i], entries[i].0, entries[i].1)
}

/// `r` describes, in order, the output entries of `entries`.
pub open spec fn describes_outputs(r: Seq<PluginInfo>, entries: Seq<(String, OutputPluginConfig)>) -> bool {
    &&& r.len() == entries.len()
    &&& forall|i: int| 0 <= i < r.len() ==> describes_output(#[trigger] r[i], entries[i].0, entries[i].1)
}

pub open spec fn enabled_inputs(c: Config) -> Seq<(String, InputPluginConfig)> {
    c.input_plugins@.filter(|e: (String, InputPluginConfig)| e.1.enabled)
}

pub open spec fn enabled_outputs(c: Config) -> Seq<(String, OutputPluginConfig)> {
    c.output_plugins@.filter(|e: (String, OutputPluginConfig)| e.1.enabled)
}

/// The discovered plugins: the enabled input plugins, then the enabled
/// output plugins, each in configuration order.
pub open spec fn is_discovery(c: Config, r: Seq<PluginInfo>) -> bool {
    let ins = enabled_inputs(c);
    &&& r.len() == ins.len() + enabled_outputs(c).len()
    &&& describes_inputs(r.subrange(0, ins.len() as int), ins)
    &&& describes_outputs(r.subrange(ins.len() as int, r.len() as int), enabled_outputs(c))
}

/// A copy of `s`.
fn copy_source(s: &PluginSource) -> (r: PluginSource)
    ensures
        r == *s,
{
    match s {
        PluginSource::Local { path } => PluginSource::Local { path: path.clone() },
        PluginSource::GitHub { repo, version } => PluginSource::GitHub {
            repo: repo.clone(),
            version: match version {
                Some(v) => Some(v.clone()),
                None => None,
            },
        },
        PluginSource::Git { url, branch } => PluginSource::Git {
            url: url.clone(),
            branch: match branch {
                Some(b) => Some(b.clone()),
                None => None,
            },
        },
        PluginSource::Builtin { name, plugin_type } => PluginSource::Builtin {
            name: name.clone(),
            plugin_type: plugin_type.clone(),
        },
    }
}

/// A copy of `v`.
fn copy_strings(v: &Vec<String>) -> (r: Vec<String>)
    ensures
        r@ == v@,
{
    let mut out: Vec<String> = Vec::new();
    let mut i: usize = 0;
    while i < v.len()
        invariant
            i <= v@.len(),
            out@ == v@.subrange(0, i as int),
        decreases v@.len() - i,
    {
        out.push(v[i].clone());
        assert(out@ =~= v@.subrange(0, i + 1));
        i += 1;
    }
    assert(v@.subrange(0, v@.len() as int) =~= v@);
    out
}

/// Where the plugin `name` of kind `plugin_type` lives (see `resolved_path`).
pub fn resolve_plugin_path(name: &str, source: &PluginSource, plugin_type: &str) -> (r: Result<
    String,
    ManagerError,
>)
    ensures
        match resolved_path(name@, *source, plugin_type@) {
            Some(p) => (r matches Ok(s) && s@ == p),
            None => (r matches Err(ManagerError::UnknownPluginType { plugin_type: t }) && t@
                == plugin_type@),
        },
{
    let kind = String::from_str(plugin_type);
    match source {
        PluginSource::Local { path } => Ok(path.clone()),
        PluginSource::Builtin { name: pn, .. } => {
            if kind == String::from_str("input") {
                let mut p = String::from_str("plugins/input/");
                p.append(pn.as_str());
                p.append("_analyzer.py");
                Ok(p)
            } else if kind == String::from_str("output") {
                let mut p = String::from_str("plugins/output/");
                p.append(pn.as_str());
                p.append(".py");
                Ok(p)
            } else {
                Err(ManagerError::UnknownPluginType { plugin_type: kind })
            }
        },
        PluginSource::GitHub { repo, version } => {
            let mut p = String::from_str(".csd_cache/github/");
            p.append(repo.as_str());
            p.append("/");
            match version {
                Some(v) => p.append(v.as_str()),
                None => p.append("latest"),
            }
            p.append("/");
            p.append(name);
            p.append(".py");
            Ok(p)
        },
        PluginSource::Git { url, branch } => {
            let mut p = String::from_str(".csd_cache/git/");
            p.append(replace_char(url.as_str(), '/', '_').as_str());
            p.append("/");
            match branch {
                Some(b) => p.append(b.as_str()),
                None => p.append("main"),
            }
            p.append("/");
            p.append(name);
            p.append(".py");
            Ok(p)
        },
    }
}

/// The description of input plugin `name`.
fn describe_input(name: &String, cfg: &InputPluginConfig) -> (r: PluginInfo)
    ensures
        describes_input(r, *name, *cfg),
{
    let path = match resolve_plugin_path(name.as_str(), &cfg.source, "input") {
        Ok(p) => p,
        Err(_) => {
            proof {
                assert(false);
            }
            String::new()
        },
    };
    PluginInfo {
        name: name.clone(),
        path,
        plugin_type: String::from_str("input"),
        extensions: copy_strings(&cfg.file_patterns.extensions),
        filenames: copy_strings(&cfg.file_patterns.filenames),
        output_types: Vec::new(),
        formats: Vec::new(),
        source: copy_source(&cfg.source),
        enabled: cfg.enabled,
    }
}

/// The description of output plugin `name`.
fn describe_output(name: &String, cfg: &OutputPluginConfig) -> (r: PluginInfo)
    ensures
        describes_output(r, *name, *cfg),
{
    let path = match resolve_plugin_path(name.as_str(), &cfg.source, "output") {
        Ok(p) => p,
        Err(_) => {
            proof {
                assert(false);
            }
            String::new()
        },
    };
    PluginInfo {
        name: name.clone(),
        path,
        plugin_type: String::from_str("output"),
        extensions: Vec::new(),
        filenames: Vec::new(),
        output_types: copy_strings(&cfg.output_types),
        formats: copy_strings(&cfg.formats),
        source: copy_source(&cfg.source),
        enabled: cfg.enabled,
    }
}

/// Descriptions of the input entries that satisfy `keep`, in order.
fn describe_inputs_where(
    entries: &Vec<(String, InputPluginConfig)>,
    ext: &Option<String>,
    name_lower: &String,
    by_file: bool,
    Ghost(keep): Ghost<spec_fn((String, InputPluginConfig)) -> bool>,
) -> (r: Vec<PluginInfo>)
    requires
        forall|e: (String, InputPluginConfig)|
            #[trigger] keep(e) == if by_file {
                e.1.enabled && ((ext is Some && crate::matrix::str_views(
                    e.1.file_patterns.extensions@,
                ).contains(ext->0@)) || exists|i: int|
                    0 <= i < e.1.file_patterns.filenames@.len() && crate::paths::lower_of(
                        (#[trigger] e.1.file_patterns.filenames@[i])@,
                    ) == name_lower@)
            } else {
                e.1.enabled
            },
    ensures
        describes_inputs(r@, entries@.filter(keep)),
{
    let mut out: Vec<PluginInfo> = Vec::new();
    let mut i: usize = 0;
    while i < entries.len()
        invariant
            i <= entries@.len(),
            forall|e: (String, InputPluginConfig)|
                #[trigger] keep(e) == if by_file {
                    e.1.enabled && ((ext is Some && crate::matrix::str_views(
                        e.1.file_patterns.extensions@,
                    ).contains(ext->0@)) || exists|i: int|
                        0 <= i < e.1.file_patterns.filenames@.len() && crate::paths::lower_of(
                            (#[trigger] e.1.file_patterns.filenames@[i])@,
                        ) == name_lower@)
                } else {
                    e.1.enabled
                },
            describes_inputs(out@, entries@.subrange(0, i as int).filter(keep)),
        decreases entries@.len() - i,
    {
        let ghost sub = entries@.subrange(0, i + 1);
        assert(sub.drop_last() =~= entries@.subrange(0, i as int));
        assert(sub.last() == entries@[i as int]);
        proof {
            reveal(Seq::filter);
        }
        let e = &entries[i];
        let wanted = if by_file {
            e.1.enabled && ((match ext {
                Some(x) => contains_string(&e.1.file_patterns.extensions, x),
                None => false,
            }) || any_lower_match(&e.1.file_patterns.filenames, name_lower))
        } else {
            e.1.enabled
        };
        if wanted {
            assert(keep(sub.last()));
            let ghost prev = out@;
            out.push(describe_input(&e.0, &e.1));
            assert(sub.filter(keep) == sub.drop_last().filter(keep).push(sub.last()));
            assert forall|j: int| 0 <= j < out@.len() implies describes_input(
                #[trigger] out@[j],
                sub.filter(keep)[j].0,
                sub.filter(keep)[j].1,
            ) by {
                if j < prev.len() {
                    assert(out@[j] == prev[j]);
                }
            }
        } else {
            assert(!keep(sub.last()));
            assert(sub.filter(keep) == sub.drop_last().filter(keep));
        }
        i += 1;
    }
    assert(entries@.subrange(0, entries@.len() as int) =~= entries@);
    out
}

/// Descriptions of the output entries that satisfy `keep`, in order.
fn describe_outputs_where(
    entries: &Vec<(String, OutputPluginConfig)>,
    t: &String,
    f: &String,
    by_generation: bool,
    Ghost(keep): Ghost<spec_fn((String, OutputPluginConfig)) -> bool>,
) -> (r: Vec<PluginInfo>)
    requires
        forall|e: (String, OutputPluginConfig)|
            #[trigger] keep(e) == if by_generation {
                serves(e.1, t@, f@)
            } else {
                e.1.enabled
            },
    ensures
        describes_outputs(r@, entries@.filter(keep)),
{
    let mut out: Vec<PluginInfo> = Vec::new();
    let mut i: usize = 0;
    while i < entries.len()
        invariant
            i <= entries@.len(),
            forall|e: (String, OutputPluginConfig)|
                #[trigger] keep(e) == if by_generation {
                    serves(e.1, t@, f@)
                } else {
                    e.1.enabled
                },
            describes_outputs(out@, entries@.subrange(0, i as int).filter(keep)),
        decreases entries@.len() - i,
    {
        let ghost sub = entries@.subrange(0, i + 1);
        assert(sub.drop_last() =~= entries@.subrange(0, i as int));
        assert(sub.last() == entries@[i as int]);
        proof {
            reveal(Seq::filter);
        }
        let e = &entries[i];
        let wanted = if by_generation {
            e.1.enabled && (e.1.output_types.len() == 0 || contains_string(&e.1.output_types, t))
                && (e.1.formats.len() == 0 || contains_string(&e.1.formats, f))
        } else {
            e.1.enabled
        };
        if wanted {
            assert(keep(sub.last()));
            let ghost prev = out@;
            out.push(describe_output(&e.0, &e.1));
            assert(sub.filter(keep) == sub.drop_last().filter(keep).push(sub.last()));
            assert forall|j: int| 0 <= j < out@.len() implies describes_output(
                #[trigger] out@[j],
                sub.filter(keep)[j].0,
                sub.filter(keep)[j].1,
            ) by {
                if j < prev.len() {
                    assert(out@[j] == prev[j]);
                }
            }
        } else {
            assert(!keep(sub.last()));
            assert(sub.filter(keep) == sub.drop_last().filter(keep));
        }
        i += 1;
    }
    assert(entries@.subrange(0, entries@.len() as int) =~= entries@);
    out
}

/// Whether some name equals `name_lower` once lowercased.
fn any_lower_match(names: &Vec<String>, name_lower: &String) -> (r: bool)
    ensures
        r == exists|i: int|
            0 <= i < names@.len() && crate::paths::lower_of((#[trigger] names@[i])@)
                == name_lower@,
{
    let mut i: usize = 0;
    while i < names.len()
        invariant
            i <= names@.len(),
            forall|j: int| 0 <= j < i ==> crate::paths::lower_of((#[trigger] names@[j])@) != name_lower@,
        decreases names@.len() - i,
    {
        if lowercase(names[i].as_str()) == *name_lower {
            assert(crate::paths::lower_of(names@[i as int]@) == name_lower@);
            return true;
        }
        i += 1;
    }
    false
}

impl PluginManager {
    pub closed spec fn spec_config(&self) -> Config {
        self.config
    }

    pub fn new(config: Config) -> (r: Self)
        ensures
            r.spec_config() == config,
    {
        PluginManager { config }
    }

    /// The enabled input plugins, described, in configuration order.
    pub fn discover_input_plugins(&self) -> (r: Vec<PluginInfo>)
        ensures
            describes_inputs(r@, enabled_inputs(self.spec_config())),
    {
        describe_inputs_where(
            &self.config.input_plugins,
            &None,
            &String::new(),
            false,
            Ghost(|e: (String, InputPluginConfig)| e.1.enabled),
        )
    }

    /// The enabled output plugins, described, in configuration order.
    pub fn discover_output_plugins(&self) -> (r: Vec<PluginInfo>)
        ensures
            describes_outputs(r@, enabled_outputs(self.spec_config())),
    {
        describe_outputs_where(
            &self.config.output_plugins,
            &String::new(),
            &String::new(),
            false,
            Ghost(|e: (String, OutputPluginConfig)| e.1.enabled),
        )
    }

    /// The enabled plugins, described: input plugins first, then output
    /// plugins, each in configuration order.
    pub fn discover_plugins(&self) -> (r: Vec<PluginInfo>)
        ensures
            is_discovery(self.spec_config(), r@),
    {
        let mut r = self.discover_input_plugins();
        let ghost ins = r@;
        let mut outs = self.discover_output_plugins();
        let ghost outs_v = outs@;
        r.append(&mut outs);
        assert(r@.subrange(0, ins.len() as int) =~= ins);
        assert(r@.subrange(ins.len() as int, r@.len() as int) =~= outs_v);
        r
    }

    /// The enabled input plugins that claim `file_path` (see `claims`), in
    /// configuration order.
    pub fn find_input_plugins_for_file(&self, file_path: &str) -> (r: Vec<PluginInfo>)
        ensures
            describes_inputs(
                r@,
                self.spec_config().input_plugins@.filter(
                    |e: (String, InputPluginConfig)|
                        claims(e.1, dotted_extension(file_path@), file_name_or_empty(file_path@)),
                ),
            ),
    {
        let ext: Option<String> = match extension_of(file_path) {
            Some(e) => {
                let mut dotted = String::from_str(".");
                dotted.append(lowercase(e.as_str()).as_str());
                Some(dotted)
            },
            None => None,
        };
        let name = match file_name_of(file_path) {
            Some(n) => n,
            None => String::new(),
        };
        let name_lower = lowercase(name.as_str());
        let ghost keep = |e: (String, InputPluginConfig)|
            claims(e.1, dotted_extension(file_path@), file_name_or_empty(file_path@));
        assert(match ext {
            Some(e) => dotted_extension(file_path@) == Some(e@),
            None => dotted_extension(file_path@) is None,
        });
        describe_inputs_where(&self.config.input_plugins, &ext, &name_lower, true, Ghost(keep))
    }

    /// The output plugins that serve `output_type` in `format` (see
    /// `serves`), in configuration order.
    pub fn find_output_plugins_for_generation(&self, output_type: &str, format: &str) -> (r: Vec<
        PluginInfo,
    >)
        ensures
            describes_outputs(
                r@,
                self.spec_config().output_plugins@.filter(
                    |e: (String, OutputPluginConfig)| serves(e.1, output_type@, format@),
                ),
            ),
    {
        describe_outputs_where(
            &self.config.output_plugins,
            &String::from_str(output_type),
            &String::from_str(format),
            true,
            Ghost(|e: (String, OutputPluginConfig)| serves(e.1, output_type@, format@)),
        )
    }

    /// The enabled plugin `name` of kind `plugin_type`, described; none when
    /// there is no such enabled plugin or the kind is neither `input` nor
    /// `output`.
    pub fn get_plugin(&self, name: &str, plugin_type: &str) -> (r: Option<PluginInfo>)
        ensures
            plugin_type@ == "input"@ ==> {
                let es = enabled_inputs(self.spec_config());
                let i = name_index(es, name@);
                &&& i >= 0 ==> r is Some && describes_input(r->0, es[i].0, es[i].1)
                &&& i < 0 ==> r is None
            },
            plugin_type@ == "output"@ ==> {
                let es = enabled_outputs(self.spec_config());
                let i = name_index(es, name@);
                &&& i >= 0 ==> r is Some && describes_output(r->0, es[i].0, es[i].1)
                &&& i < 0 ==> r is None
            },
            plugin_type@ != "input"@ && plugin_type@ != "output"@ ==> r is None,
    {
        proof {
            reveal_strlit("input");
            reveal_strlit("output");
        }
        assert("input"@ != "output"@) by {
            assert("input"@.len() != "output"@.len());
        }
        let kind = String::from_str(plugin_type);
        let wanted = String::from_str(name);
        let is_input = kind == String::from_str("input");
        let mut infos = if is_input {
            self.discover_input_plugins()
        } else if kind == String::from_str("output") {
            self.discover_output_plugins()
        } else {
            return None;
        };
        let ghost names = infos@.map_values(|p: PluginInfo| p.name@);
        let mut k: usize = 0;
        while k < infos.len()
            invariant
                k <= infos@.len(),
                wanted@ == name@,
                kind@ == plugin_type@,
                is_input == (plugin_type@ == "input"@),
                "input"@ != "output"@,
                is_input ==> describes_inputs(infos@, enabled_inputs(self.spec_config())),
                !is_input ==> plugin_type@ == "output"@ && describes_outputs(
                    infos@,
                    enabled_outputs(self.spec_config()),
                ),
                names == infos@.map_values(|p: PluginInfo| p.name@),
                forall|j: int| 0 <= j < k ==> names[j] != name@,
            decreases infos@.len() - k,
        {
            if infos[k].name == wanted {
                assert(names[k as int] == name@);
                proof {
                    if is_input {
                        let es = enabled_inputs(self.spec_config());
                        lemma_name_index(es, name@);
                        assert(describes_input(infos@[k as int], es[k as int].0, es[k as int].1));
                        let r = name_index(es, name@);
                        assert(0 <= r <= k);
                        assert(describes_input(infos@[r], es[r].0, es[r].1));
                        assert(names[r] == infos@[r].name@);
                        assert(r == k);
                    } else {
                        let es = enabled_outputs(self.spec_config());
                        lemma_name_index(es, name@);
                        assert(describes_output(infos@[k as int], es[k as int].0, es[k as int].1));
                        let r = name_index(es, name@);
                        assert(0 <= r <= k);
                        assert(describes_output(infos@[r], es[r].0, es[r].1));
                        assert(names[r] == infos@[r].name@);
                        assert(r == k);
                    }
                }
                let ghost all = infos@;
                let found = infos.remove(k);
                assert(found == all[k as int]);
                return Some(found);
            }
            k += 1;
        }
        proof {
            if is_input {
                let es = enabled_inputs(self.spec_config());
                lemma_name_index(es, name@);
                if name_index(es, name@) >= 0 {
                    let r = name_index(es, name@);
                    assert(describes_input(infos@[r], es[r].0, es[r].1));
                    assert(names[r] == infos@[r].name@);
                    assert(false);
                }
            } else {
                let es = enabled_outputs(self.spec_config());
                lemma_name_index(es, name@);
                if name_index(es, name@) >= 0 {
                    let r = name_index(es, name@);
                    assert(describes_output(infos@[r], es[r].0, es[r].1));
                    assert(names[r] == infos@[r].name@);
                    assert(false);
                }
            }
        }
        None
    }

    /// Whether the plugin `name` of kind `plugin_type` is configured and
    /// enabled.
    pub fn is_plugin_enabled(&self, name: &str, plugin_type: &str) -> (r: bool)
        ensures
            r == if plugin_type@ == "input"@ {
                let i = name_index(self.spec_config().input_plugins@, name@);
                i >= 0 && self.spec_config().input_plugins@[i].1.enabled
            } else if plugin_type@ == "output"@ {
                let i = name_index(self.spec_config().output_plugins@, name@);
                i >= 0 && self.spec_config().output_plugins@[i].1.enabled
            } else {
                false
            },
    {
        let kind = String::from_str(plugin_type);
        if kind == String::from_str("input") {
            match self.config.get_input_plugin(name) {
                Some(c) => c.enabled,
                None => false,
            }
        } else if kind == String::from_str("output") {
            match self.config.get_output_plugin(name) {
                Some(c) => c.enabled,
                None => false,
            }
        } else {
            false
        }
    }

    /// Counts of the discovered plugins (see `plugin_stats`).
    pub fn get_plugin_stats(&self) -> (r: PluginStats)
        ensures
            exists|ps: Seq<PluginInfo>| is_discovery(self.spec_config(), ps) && stats_of(r, ps),
    {
        let ps = self.discover_plugins();
        let r = plugin_stats(&ps);
        assert(is_discovery(self.spec_config(), ps@) && stats_of(r, ps@));
        r
    }

    /// Removes the plugin `name` of kind `plugin_type`; says whether it was
    /// there. Fails for another kind.
    pub fn remove_plugin(&mut self, name: &str, plugin_type: &str) -> (r: Result<bool, ManagerError>)
        ensures
            plugin_type@ == "input"@ ==> r == Ok::<bool, ManagerError>(
                name_index(old(self).spec_config().input_plugins@, name@) >= 0,
            ) && final(self).spec_config().input_plugins@ == if name_index(
                old(self).spec_config().input_plugins@,
                name@,
            ) >= 0 {
                old(self).spec_config().input_plugins@.remove(
                    name_index(old(self).spec_config().input_plugins@, name@),
                )
            } else {
                old(self).spec_config().input_plugins@
            },
            plugin_type@ == "output"@ ==> r == Ok::<bool, ManagerError>(
                name_index(old(self).spec_config().output_plugins@, name@) >= 0,
            ) && final(self).spec_config().output_plugins@ == if name_index(
                old(self).spec_config().output_plugins@,
                name@,
            ) >= 0 {
                old(self).spec_config().output_plugins@.remove(
                    name_index(old(self).spec_config().output_plugins@, name@),
                )
            } else {
                old(self).spec_config().output_plugins@
            },
            plugin_type@ != "input"@ && plugin_type@ != "output"@ ==> (r matches Err(
                ManagerError::UnknownPluginType { plugin_type: t },
            ) && t@ == plugin_type@) && final(self).spec_config() == old(self).spec_config(),
    {
        proof {
            reveal_strlit("input");
            reveal_strlit("output");
        }
        let kind = String::from_str(plugin_type);
        assert("input"@ != "output"@) by {
            assert("input"@.len() != "output"@.len());
        }
        if kind == String::from_str("input") {
            Ok(self.config.remove_input_plugin(name).is_some())
        } else if kind == String::from_str("output") {
            Ok(self.config.remove_output_plugin(name).is_some())
        } else {
            Err(ManagerError::UnknownPluginType { plugin_type: kind })
        }
    }

    /// Enables or disables the plugin `name` of kind `plugin_type`. Fails when
    /// there is no such plugin, or for another kind.
    pub fn set_plugin_enabled(&mut self, name: &str, plugin_type: &str, enabled: bool) -> (r: Result<
        (),
        ManagerError,
    >)
        ensures
            plugin_type@ == "input"@ ==> {
                let i = name_index(old(self).spec_config().input_plugins@, name@);
                &&& i >= 0 ==> r is Ok && final(self).spec_config().input_plugins@ == old(self).spec_config().input_plugins@.update(
                    i,
                    (
                        old(self).spec_config().input_plugins@[i].0,
                        InputPluginConfig {
                            enabled,
                            ..old(self).spec_config().input_plugins@[i].1
                        },
                    ),
                )
                &&& i < 0 ==> (r matches Err(ManagerError::NotFound { .. })) && final(self).spec_config() == old(self).spec_config()
            },
            plugin_type@ == "output"@ ==> {
                let i = name_index(old(self).spec_config().output_plugins@, name@);
                &&& i >= 0 ==> r is Ok && final(self).spec_config().output_plugins@ == old(self).spec_config().output_plugins@.update(
                    i,
                    (
                        old(self).spec_config().output_plugins@[i].0,
                        OutputPluginConfig {
                            enabled,
                            ..old(self).spec_config().output_plugins@[i].1
                        },
                    ),
                )
                &&& i < 0 ==> (r matches Err(ManagerError::NotFound { .. })) && final(self).spec_config() == old(self).spec_config()
            },
            plugin_type@ != "input"@ && plugin_type@ != "output"@ ==> (r matches Err(
                ManagerError::UnknownPluginType { .. },
            )) && final(self).spec_config() == old(self).spec_config(),
    {
        proof {
            reveal_strlit("input");
            reveal_strlit("output");
        }
        let kind = String::from_str(plugin_type);
        assert("input"@ != "output"@) by {
            assert("input"@.len() != "output"@.len());
        }
        if kind == String::from_str("input") {
            match crate::config::position_of_name(&self.config.input_plugins, name) {
                Some(i) => {
                    self.config.input_plugins[i].1.enabled = enabled;
                    Ok(())
                },
                None => Err(ManagerError::NotFound { plugin_type: kind, name: String::from_str(name) }),
            }
        } else if kind == String::from_str("output") {
            match crate::config::position_of_name(&self.config.output_plugins, name) {
                Some(i) => {
                    self.config.output_plugins[i].1.enabled = enabled;
                    Ok(())
                },
                None => Err(ManagerError::NotFound { plugin_type: kind, name: String::from_str(name) }),
            }
        } else {
            Err(ManagerError::UnknownPluginType { plugin_type: kind })
        }
    }

    /// What validation checks: for each enabled plugin, inputs first, its
    /// label (`input:name` or `output:name`) and the path to look for.
    pub fn validation_targets(&self) -> (r: Vec<(String, String)>)
        ensures
            exists|ps: Seq<PluginInfo>|
                is_discovery(self.spec_config(), ps) && r@.len() == ps.len() && forall|i: int|
                    0 <= i < ps.len() ==> (#[trigger] r@[i]).0@ == ps[i].plugin_type@ + ":"@
                        + ps[i].name@ && r@[i].1@ == ps[i].path@,
    {
        let ps = self.discover_plugins();
        let mut out: Vec<(String, String)> = Vec::new();
        let mut i: usize = 0;
        while i < ps.len()
            invariant
                i <= ps@.len(),
                out@.len() == i,
                forall|j: int|
                    0 <= j < i ==> (#[trigger] out@[j]).0@ == ps@[j].plugin_type@ + ":"@
                        + ps@[j].name@ && out@[j].1@ == ps@[j].path@,
            decreases ps@.len() - i,
        {
            let mut label = ps[i].plugin_type.clone();
            label.append(":");
            label.append(ps[i].name.as_str());
            out.push((label, ps[i].path.clone()));
            i += 1;
        }
        out
    }
}

/// `r` counts the plugins `ps` as `plugin_stats` does.
pub open spec fn stats_of(r: PluginStats, ps: Seq<PluginInfo>) -> bool {
    &&& r.total_plugins == ps.len()
    &&& r.enabled_plugins == count_where(ps, |p: PluginInfo| p.enabled)
    &&& r.input_plugins == count_where(ps, |p: PluginInfo| is_input(p))
    &&& r.output_plugins == count_where(ps, |p: PluginInfo| is_output(p))
    &&& r.enabled_input == count_where(ps, |p: PluginInfo| is_input(p) && p.enabled)
    &&& r.enabled_output == count_where(ps, |p: PluginInfo| is_output(p) && p.enabled)
    &&& r.builtin_plugins == count_where(ps, |p: PluginInfo| p.source is Builtin)
    &&& r.local_plugins == count_where(ps, |p: PluginInfo| p.source is Local)
    &&& r.remote_plugins == count_where(ps, |p: PluginInfo| p.source is GitHub || p.source is Git)
}

/// The outcome of validation: each target whose file was `found` is valid
/// under its label; each other is invalid, as `label (path: path)`.
pub fn validation_result(targets: &Vec<(String, String)>, found: &Vec<bool>) -> (r: ValidationResult)
    requires
        found@.len() == targets@.len(),
    ensures
        crate::matrix::str_views(r.valid_plugins@) == Seq::new(targets@.len(), |i: int| i).filter(
            |i: int| found@[i],
        ).map_values(|i: int| targets@[i].0@),
        crate::matrix::str_views(r.invalid_plugins@) == Seq::new(targets@.len(), |i: int| i).filter(
            |i: int| !found@[i],
        ).map_values(|i: int| targets@[i].0@ + " (path: "@ + targets@[i].1@ + ")"@),
{
    let ghost idx = Seq::new(targets@.len(), |i: int| i);
    let ghost pv = |i: int| found@[i];
    let ghost pi = |i: int| !found@[i];
    let mut valid: Vec<String> = Vec::new();
    let mut invalid: Vec<String> = Vec::new();
    let mut k: usize = 0;
    while k < targets.len()
        invariant
            k <= targets@.len(),
            found@.len() == targets@.len(),
            idx == Seq::new(targets@.len(), |i: int| i),
            pv == (|i: int| found@[i]),
            pi == (|i: int| !found@[i]),
            crate::matrix::str_views(valid@) == idx.subrange(0, k as int).filter(pv).map_values(
                |i: int| targets@[i].0@,
            ),
            crate::matrix::str_views(invalid@) == idx.subrange(0, k as int).filter(pi).map_values(
                |i: int| targets@[i].0@ + " (path: "@ + targets@[i].1@ + ")"@,
            ),
        decreases targets@.len() - k,
    {
        let ghost sub = idx.subrange(0, k + 1);
        assert(sub.drop_last() =~= idx.subrange(0, k as int));
        assert(sub.last() == k);
        proof {
            reveal(Seq::filter);
        }
        if found[k] {
            let ghost prev = valid@;
            valid.push(targets[k].0.clone());
            assert(crate::matrix::str_views(valid@) =~= crate::matrix::str_views(prev).push(
                targets@[k as int].0@,
            ));
            assert(sub.filter(pv) == sub.drop_last().filter(pv).push(k as int));
            assert(sub.filter(pi) == sub.drop_last().filter(pi));
            assert(sub.filter(pv).map_values(|i: int| targets@[i].0@) =~= sub.drop_last().filter(
                pv,
            ).map_values(|i: int| targets@[i].0@).push(targets@[k as int].0@));
        } else {
            let ghost prev = invalid@;
            let mut entry = targets[k].0.clone();
            entry.append(" (path: ");
            entry.append(targets[k].1.as_str());
            entry.append(")");
            invalid.push(entry);
            assert(crate::matrix::str_views(invalid@) =~= crate::matrix::str_views(prev).push(
                targets@[k as int].0@ + " (path: "@ + targets@[k as int].1@ + ")"@,
            ));
            assert(sub.filter(pi) == sub.drop_last().filter(pi).push(k as int));
            assert(sub.filter(pv) == sub.drop_last().filter(pv));
            assert(sub.filter(pi).map_values(
                |i: int| targets@[i].0@ + " (path: "@ + targets@[i].1@ + ")"@,
            ) =~= sub.drop_last().filter(pi).map_values(
                |i: int| targets@[i].0@ + " (path: "@ + targets@[i].1@ + ")"@,
            ).push(targets@[k as int].0@ + " (path: "@ + targets@[k as int].1@ + ")"@));
        }
        k += 1;
    }
    assert(idx.subrange(0, targets@.len() as int) =~= idx);
    ValidationResult { valid_plugins: valid, invalid_plugins: invalid }
}

} // verus!
