//! Configuration values: where plugins come from, which files they claim,
//! and the scanning and language-model settings.
use vstd::prelude::*;
use crate::matrix::{contains_string, str_views};
use crate::paths::{extension_of, file_name_of, lower_of, lowercase, path_extension, path_file_name};

verus! {

/// Which files an input plugin claims. Extensions are written with their
/// leading dot.
#[derive(Debug, Clone)]
pub struct FilePatterns {
    pub extensions: Vec<String>,
    pub filenames: Vec<String>,
    pub glob_patterns: Option<Vec<String>>,
}

/// Where a plugin's implementation comes from.
#[derive(Debug, Clone)]
pub enum PluginSource {
    Local { path: String },
    GitHub { repo: String, version: Option<String> },
    Git { url: String, branch: Option<String> },
    Builtin { name: String, plugin_type: String },
}

/// The language model used by generators.
#[derive(Debug, Clone)]
pub struct LlmConfig {
    pub provider: String,
    pub base_url: String,
    pub model: String,
    pub timeout_seconds: u64,
}

/// How the source tree is walked.
#[derive(Debug, Clone)]
pub struct ScanConfig {
    pub ignore_patterns: Vec<String>,
    pub include_hidden: bool,
    pub max_file_size_mb: u64,
}

/// Counts and names of the configured plugins.
#[derive(Debug, Clone)]
pub struct PluginSummary {
    pub total_input_plugins: usize,
    pub enabled_input_plugins: usize,
    pub total_output_plugins: usize,
    pub enabled_output_plugins: usize,
    pub input_plugin_names: Vec<String>,
    pub output_plugin_names: Vec<String>,
}

/// serde_yaml's document value, carried as plugin-specific settings.
#[verifier::external_type_specification]
#[verifier::external_body]
pub struct ExYamlValue(serde_yaml::Value);

/// An analyzer plugin's settings.
#[derive(Debug, Clone)]
pub struct InputPluginConfig {
    pub source: PluginSource,
    pub file_patterns: FilePatterns,
    pub enabled: bool,
    pub config: Option<serde_yaml::Value>,
}

/// A generator plugin's settings.
#[derive(Debug, Clone)]
pub struct OutputPluginConfig {
    pub source: PluginSource,
    pub output_types: Vec<String>,
    pub formats: Vec<String>,
    pub enabled: bool,
    pub config: Option<serde_yaml::Value>,
}

/// A plugin entry of the older configuration layout, whose role is guessed
/// from which fields it has.
#[derive(Debug, Clone)]
pub struct LegacyPluginConfig {
    pub source: PluginSource,
    pub file_patterns: Option<FilePatterns>,
    pub output_types: Option<Vec<String>>,
    pub formats: Option<Vec<String>>,
    pub enabled: bool,
    pub config: Option<serde_yaml::Value>,
}

/// The tool's configuration. Plugins are kept as (name, settings) entries in
/// the order they were added, so every lookup below is deterministic.
#[derive(Debug, Clone)]
pub struct Config {
    pub output_dir: String,
    pub llm: LlmConfig,
    pub scanning: ScanConfig,
    pub input_plugins: Vec<(String, InputPluginConfig)>,
    pub output_plugins: Vec<(String, OutputPluginConfig)>,
    pub python_executable: Option<String>,
    /// Entries of the older layout, still to be migrated.
    pub plugins: Option<Vec<(String, LegacyPluginConfig)>>,
}

// ---------------------------------------------------------------------------
// Named entries
// ---------------------------------------------------------------------------

/// The first index whose name is `n`, or -1.
pub open spec fn name_index<T>(entries: Seq<(String, T)>, n: Seq<char>) -> int
    decreases entries.len(),
{
    if entries.len() == 0 {
        -1
    } else {
        let r = name_index(entries.drop_last(), n);
        if r >= 0 {
            r
        } else if entries.last().0@ == n {
            entries.len() - 1
        } else {
            -1
        }
    }
}

/// `entries` with `value` stored under `name`: it replaces the first entry of
/// that name, or is appended.
pub open spec fn upserted<T>(entries: Seq<(String, T)>, name: String, value: T) -> Seq<(String, T)> {
    let i = name_index(entries, name@);
    if i >= 0 {
        entries.update(i, (name, value))
    } else {
        entries.push((name, value))
    }
}

pub open spec fn entry_names<T>(entries: Seq<(String, T)>) -> Seq<Seq<char>> {
    entries.map_values(|e: (String, T)| e.0@)
}

proof fn lemma_name_index_bound<T>(entries: Seq<(String, T)>, n: Seq<char>)
    ensures
        -1 <= name_index(entries, n) < entries.len(),
    decreases entries.len(),
{
    if entries.len() > 0 {
        lemma_name_index_bound(entries.drop_last(), n);
    }
}

/// `name_index` finds the first entry with the given name, or none.
pub proof fn lemma_name_index<T>(entries: Seq<(String, T)>, n: Seq<char>)
    ensures
        -1 <= name_index(entries, n) < entries.len(),
        name_index(entries, n) >= 0 ==> entries[name_index(entries, n)].0@ == n,
        forall|j: int|
            0 <= j < entries.len() && (#[trigger] entries[j]).0@ == n ==> name_index(entries, n)
                >= 0 && name_index(entries, n) <= j,
    decreases entries.len(),
{
    if entries.len() > 0 {
        lemma_name_index(entries.drop_last(), n);
        assert forall|j: int| 0 <= j < entries.len() && (#[trigger] entries[j]).0@ == n implies name_index(
            entries,
            n,
        ) >= 0 && name_index(entries, n) <= j by {
            if j < entries.len() - 1 {
                assert(entries.drop_last()[j] == entries[j]);
            }
        }
    }
}

/// The index of the first entry named `name`, if any.
pub fn position_of_name<T>(entries: &Vec<(String, T)>, name: &str) -> (r: Option<usize>)
    ensures
        match r {
            Some(i) => i < entries@.len() && i == name_index(entries@, name@),
            None => name_index(entries@, name@) < 0,
        },
{
    let wanted = String::from_str(name);
    let mut found: Option<usize> = None;
    let mut i: usize = 0;
    while i < entries.len()
        invariant
            i <= entries@.len(),
            wanted@ == name@,
            match found {
                Some(j) => j < i && j == name_index(entries@.subrange(0, i as int), name@),
                None => name_index(entries@.subrange(0, i as int), name@) < 0,
            },
        decreases entries@.len() - i,
    {
        let ghost sub = entries@.subrange(0, i + 1);
        assert(sub.drop_last() =~= entries@.subrange(0, i as int));
        assert(sub.last() == entries@[i as int]);
        if found.is_none() && entries[i].0 == wanted {
            found = Some(i);
        }
        i += 1;
    }
    assert(entries@.subrange(0, entries@.len() as int) =~= entries@);
    found
}

/// Stores `value` under `name`, replacing the first entry of that name.
pub fn upsert<T>(entries: &mut Vec<(String, T)>, name: String, value: T)
    ensures
        final(entries)@ == upserted(old(entries)@, name, value),
{
    match position_of_name(entries, name.as_str()) {
        Some(i) => {
            entries.set(i, (name, value));
        },
        None => {
            entries.push((name, value));
        },
    }
}

/// Takes out the first entry named `name`, if any.
pub fn remove_named<T>(entries: &mut Vec<(String, T)>, name: &str) -> (r: Option<T>)
    ensures
        name_index(old(entries)@, name@) >= 0 ==> {
            &&& r == Some(old(entries)@[name_index(old(entries)@, name@)].1)
            &&& final(entries)@ == old(entries)@.remove(name_index(old(entries)@, name@))
        },
        name_index(old(entries)@, name@) < 0 ==> r is None && final(entries)@ == old(entries)@,
{
    match position_of_name(entries, name) {
        Some(i) => {
            let (_, v) = entries.remove(i);
            Some(v)
        },
        None => None,
    }
}

/// The settings stored under `name`, if any.
pub fn lookup<'a, T>(entries: &'a Vec<(String, T)>, name: &str) -> (r: Option<&'a T>)
    ensures
        name_index(entries@, name@) >= 0 ==> r == Some(&entries@[name_index(entries@, name@)].1),
        name_index(entries@, name@) < 0 ==> r is None,
{
    match position_of_name(entries, name) {
        Some(i) => Some(&entries[i].1),
        None => None,
    }
}

fn push_str(v: &mut Vec<String>, s: &str)
    ensures
        str_views(final(v)@) == str_views(old(v)@).push(s@),
{
    v.push(String::from_str(s));
    assert(str_views(v@) =~= str_views(old(v)@).push(s@));
}

// ---------------------------------------------------------------------------
// Matching files and generations to plugins
// ---------------------------------------------------------------------------

/// A path's extension, lowercased, with its leading dot.
pub open spec fn dotted_extension(path: Seq<char>) -> Option<Seq<char>> {
    match path_extension(path) {
        Some(e) => Some("."@ + lower_of(e)),
        None => None,
    }
}

/// A path's final component, or nothing.
pub open spec fn file_name_or_empty(path: Seq<char>) -> Seq<char> {
    match path_file_name(path) {
        Some(n) => n,
        None => Seq::empty(),
    }
}

/// An enabled input plugin claims a file by its extension, or by its file
/// name compared without regard to case.
pub open spec fn claims(cfg: InputPluginConfig, ext: Option<Seq<char>>, name: Seq<char>) -> bool {
    &&& cfg.enabled
    &&& {
        ||| (ext is Some && str_views(cfg.file_patterns.extensions@).contains(ext->0))
        ||| exists|i: int|
            0 <= i < cfg.file_patterns.filenames@.len() && lower_of(
                (#[trigger] cfg.file_patterns.filenames@[i])@,
            ) == lower_of(name)
    }
}

/// The first entry that claims the file, or -1.
pub open spec fn first_claiming(
    entries: Seq<(String, InputPluginConfig)>,
    ext: Option<Seq<char>>,
    name: Seq<char>,
) -> int
    decreases entries.len(),
{
    if entries.len() == 0 {
        -1
    } else {
        let r = first_claiming(entries.drop_last(), ext, name);
        if r >= 0 {
            r
        } else if claims(entries.last().1, ext, name) {
            entries.len() - 1
        } else {
            -1
        }
    }
}

/// An enabled output plugin serves an output type and format when it lists
/// them, or lists no types (formats) at all.
pub open spec fn serves(cfg: OutputPluginConfig, output_type: Seq<char>, format: Seq<char>) -> bool {
    &&& cfg.enabled
    &&& (cfg.output_types@.len() == 0 || str_views(cfg.output_types@).contains(output_type))
    &&& (cfg.formats@.len() == 0 || str_views(cfg.formats@).contains(format))
}

/// How many entries are enabled.
pub open spec fn enabled_count<T>(entries: Seq<(String, T)>, enabled: spec_fn(T) -> bool) -> nat
    decreases entries.len(),
{
    if entries.len() == 0 {
        0
    } else {
        enabled_count(entries.drop_last(), enabled) + if enabled(entries.last().1) {
            1nat
        } else {
            0nat
        }
    }
}

proof fn lemma_enabled_count_bound<T>(entries: Seq<(String, T)>, enabled: spec_fn(T) -> bool)
    ensures
        enabled_count(entries, enabled) <= entries.len(),
    decreases entries.len(),
{
    if entries.len() > 0 {
        lemma_enabled_count_bound(entries.drop_last(), enabled);
    }
}

/// Whether some pattern equals `name_lower` once lowercased.
fn any_name_matches(patterns: &Vec<String>, name_lower: &String) -> (r: bool)
    ensures
        r == exists|i: int|
            0 <= i < patterns@.len() && lower_of((#[trigger] patterns@[i])@) == name_lower@,
{
    let mut i: usize = 0;
    while i < patterns.len()
        invariant
            i <= patterns@.len(),
            forall|j: int| 0 <= j < i ==> lower_of((#[trigger] patterns@[j])@) != name_lower@,
        decreases patterns@.len() - i,
    {
        if lowercase(patterns[i].as_str()) == *name_lower {
            assert(lower_of(patterns@[i as int]@) == name_lower@);
            return true;
        }
        i += 1;
    }
    false
}

// ---------------------------------------------------------------------------
// Migration of the older layout
// ---------------------------------------------------------------------------

/// One legacy entry moved into the typed lists: with file patterns it becomes
/// an input plugin; otherwise, with output types or formats, an output plugin
/// (a missing list becoming empty); otherwise it is dropped.
pub open spec fn migrate_step(
    ins: Seq<(String, InputPluginConfig)>,
    outs: Seq<(String, OutputPluginConfig)>,
    entry: (String, LegacyPluginConfig),
    ins2: Seq<(String, InputPluginConfig)>,
    outs2: Seq<(String, OutputPluginConfig)>,
) -> bool {
    let (name, l) = entry;
    if l.file_patterns is Some {
        &&& outs2 == outs
        &&& ins2 == upserted(
            ins,
            name,
            InputPluginConfig {
                source: l.source,
                file_patterns: l.file_patterns->0,
                enabled: l.enabled,
                config: l.config,
            },
        )
    } else if l.output_types is Some || l.formats is Some {
        let i = name_index(outs, name@);
        let p = if i >= 0 {
            i
        } else {
            outs.len() as int
        };
        &&& ins2 == ins
        &&& outs2.len() == (if i >= 0 {
            outs.len() as int
        } else {
            outs.len() + 1 as int
        })
        &&& forall|j: int| 0 <= j < outs.len() && j != p ==> outs2[j] == outs[j]
        &&& outs2[p].0 == name
        &&& outs2[p].1.source == l.source
        &&& outs2[p].1.enabled == l.enabled
        &&& outs2[p].1.config == l.config
        &&& outs2[p].1.output_types@ == match l.output_types {
            Some(v) => v@,
            None => Seq::empty(),
        }
        &&& outs2[p].1.formats@ == match l.formats {
            Some(v) => v@,
            None => Seq::empty(),
        }
    } else {
        ins2 == ins && outs2 == outs
    }
}

/// The typed lists after the legacy entries were moved in, one by one: a
/// chain of states that `migrate_step` links, one step per legacy entry.
pub open spec fn migrates_to(
    ins: Seq<(String, InputPluginConfig)>,
    outs: Seq<(String, OutputPluginConfig)>,
    legacy: Seq<(String, LegacyPluginConfig)>,
    ins2: Seq<(String, InputPluginConfig)>,
    outs2: Seq<(String, OutputPluginConfig)>,
) -> bool {
    exists|states: Seq<(Seq<(String, InputPluginConfig)>, Seq<(String, OutputPluginConfig)>)>|
        #[trigger] is_migration_chain(states, ins, outs, legacy) && states[legacy.len() as int] == (
        ins2,
        outs2,
    )
}

pub open spec fn is_migration_chain(
    states: Seq<(Seq<(String, InputPluginConfig)>, Seq<(String, OutputPluginConfig)>)>,
    ins: Seq<(String, InputPluginConfig)>,
    outs: Seq<(String, OutputPluginConfig)>,
    legacy: Seq<(String, LegacyPluginConfig)>,
) -> bool {
    &&& states.len() == legacy.len() + 1
    &&& states[0] == (ins, outs)
    &&& forall|k: int|
        0 <= k < legacy.len() ==> migrate_step(
            (#[trigger] states[k]).0,
            states[k].1,
            legacy[k],
            states[k + 1].0,
            states[k + 1].1,
        )
}

impl Config {
    /// Moves the entries of the older layout into the typed lists (see
    /// `migrate_step`) and clears them.
    pub fn migrate_legacy_plugins(&mut self)
        ensures
            final(self).plugins is None,
            final(self).output_dir == old(self).output_dir,
            final(self).llm == old(self).llm,
            final(self).scanning == old(self).scanning,
            final(self).python_executable == old(self).python_executable,
            match old(self).plugins {
                None => final(self).input_plugins@ == old(self).input_plugins@
                    && final(self).output_plugins@ == old(self).output_plugins@,
                Some(legacy) => migrates_to(
                    old(self).input_plugins@,
                    old(self).output_plugins@,
                    legacy@,
                    final(self).input_plugins@,
                    final(self).output_plugins@,
                ),
            },
    {
        let taken = self.plugins.take();
        match taken {
            None => {},
            Some(legacy) => {
                let ghost ins0 = self.input_plugins@;
                let ghost outs0 = self.output_plugins@;
                let ghost all = legacy@;
                let mut legacy = legacy;
                let n = legacy.len();
                let mut k: usize = 0;
                let ghost mut states = seq![(ins0, outs0)];
                while k < n
                    invariant
                        n == all.len(),
                        k <= n,
                        legacy@ == all.subrange(k as int, n as int),
                        is_migration_chain(states, ins0, outs0, all.subrange(0, k as int)),
                        states[k as int] == (self.input_plugins@, self.output_plugins@),
                        self.plugins is None,
                        self.output_dir == old(self).output_dir,
                        self.llm == old(self).llm,
                        self.scanning == old(self).scanning,
                        self.python_executable == old(self).python_executable,
                    decreases n - k,
                {
                    let ghost mi = self.input_plugins@;
                    let ghost mo = self.output_plugins@;
                    let (name, l) = legacy.remove(0);
                    assert((name, l) == all[k as int]);
                    let has_patterns = l.file_patterns.is_some();
                    let has_outputs = l.output_types.is_some() || l.formats.is_some();
                    if has_patterns {
                        let patterns = match l.file_patterns {
                            Some(p) => p,
                            None => FilePatterns {
                                extensions: Vec::new(),
                                filenames: Vec::new(),
                                glob_patterns: None,
                            },
                        };
                        let cfg = InputPluginConfig {
                            source: l.source,
                            file_patterns: patterns,
                            enabled: l.enabled,
                            config: l.config,
                        };
                        upsert(&mut self.input_plugins, name, cfg);
                    } else if has_outputs {
                        let types = match l.output_types {
                            Some(v) => v,
                            None => Vec::new(),
                        };
                        let formats = match l.formats {
                            Some(v) => v,
                            None => Vec::new(),
                        };
                        let cfg = OutputPluginConfig {
                            source: l.source,
                            output_types: types,
                            formats,
                            enabled: l.enabled,
                            config: l.config,
                        };
                        proof {
                            lemma_name_index_bound(mo, name@);
                        }
                        upsert(&mut self.output_plugins, name, cfg);
                    }
                    assert(migrate_step(mi, mo, all[k as int], self.input_plugins@, self.output_plugins@));
                    proof {
                        let prev = states;
                        states = states.push((self.input_plugins@, self.output_plugins@));
                        assert forall|j: int| 0 <= j < k + 1 implies migrate_step(
                            (#[trigger] states[j]).0,
                            states[j].1,
                            all.subrange(0, k + 1)[j],
                            states[j + 1].0,
                            states[j + 1].1,
                        ) by {
                            assert(all.subrange(0, k + 1)[j] == all[j]);
                            if j < k {
                                assert(states[j] == prev[j] && states[j + 1] == prev[j + 1]);
                                assert(all.subrange(0, k as int)[j] == all[j]);
                            }
                        }
                    }
                    assert(legacy@ =~= all.subrange(k + 1, n as int));
                    k += 1;
                }
                assert(all.subrange(0, n as int) =~= all);
                assert(is_migration_chain(states, ins0, outs0, all));
            },
        }
    }

    /// The first enabled input plugin, in configuration order, that claims
    /// `file_path` (see `claims`): by its lowercased extension with a leading
    /// dot, or by its file name compared without regard to case.
    pub fn find_input_plugin_for_file(&self, file_path: &str) -> (r: Option<String>)
        ensures
            ({
                let i = first_claiming(
                    self.input_plugins@,
                    dotted_extension(file_path@),
                    file_name_or_empty(file_path@),
                );
                &&& i < 0 ==> r is None
                &&& i >= 0 ==> r is Some && r->0@ == self.input_plugins@[i].0@
            }),
    {
        let ext: Option<String> = match extension_of(file_path) {
            Some(e) => {
                let mut dotted = String::from_str(".");
                dotted.append(lowercase(e.as_str()).as_str());
                Some(dotted)
            },
            None => None,
        };
        let name = match file_name_of(file_path) {
            Some(n) => n,
            None => String::new(),
        };
        let name_lower = lowercase(name.as_str());
        let ghost ext_v = dotted_extension(file_path@);
        let ghost name_v = file_name_or_empty(file_path@);
        assert(match ext {
            Some(e) => ext_v == Some(e@),
            None => ext_v is None,
        });
        let mut found: Option<usize> = None;
        let mut i: usize = 0;
        while i < self.input_plugins.len()
            invariant
                i <= self.input_plugins@.len(),
                name_lower@ == lower_of(name_v),
                match ext {
                    Some(e) => ext_v == Some(e@),
                    None => ext_v is None,
                },
                match found {
                    Some(j) => j < i && j == first_claiming(
                        self.input_plugins@.subrange(0, i as int),
                        ext_v,
                        name_v,
                    ),
                    None => first_claiming(self.input_plugins@.subrange(0, i as int), ext_v, name_v)
                        < 0,
                },
            decreases self.input_plugins@.len() - i,
        {
            let ghost sub = self.input_plugins@.subrange(0, i + 1);
            assert(sub.drop_last() =~= self.input_plugins@.subrange(0, i as int));
            assert(sub.last() == self.input_plugins@[i as int]);
            if found.is_none() {
                let cfg = &self.input_plugins[i].1;
                let by_ext = match &ext {
                    Some(e) => contains_string(&cfg.file_patterns.extensions, e),
                    None => false,
                };
                if cfg.enabled && (by_ext || any_name_matches(
                    &cfg.file_patterns.filenames,
                    &name_lower,
                )) {
                    found = Some(i);
                }
            }
            i += 1;
        }
        assert(self.input_plugins@.subrange(0, self.input_plugins@.len() as int)
            =~= self.input_plugins@);
        match found {
            Some(j) => Some(self.input_plugins[j].0.clone()),
            None => None,
        }
    }

    /// The same as `find_input_plugin_for_file`.
    pub fn find_plugin_for_file(&self, file_path: &str) -> (r: Option<String>)
        ensures
            ({
                let i = first_claiming(
                    self.input_plugins@,
                    dotted_extension(file_path@),
                    file_name_or_empty(file_path@),
                );
                &&& i < 0 ==> r is None
                &&& i >= 0 ==> r is Some && r->0@ == self.input_plugins@[i].0@
            }),
    {
        self.find_input_plugin_for_file(file_path)
    }

    /// The names of the output plugins that serve `output_type` in `format`
    /// (see `serves`), in configuration order.
    pub fn find_output_plugins_for_type(&self, output_type: &str, format: &str) -> (r: Vec<String>)
        ensures
            str_views(r@) == entry_names(
                self.output_plugins@.filter(
                    |e: (String, OutputPluginConfig)| serves(e.1, output_type@, format@),
                ),
            ),
    {
        let t = String::from_str(output_type);
        let f = String::from_str(format);
        let ghost pred = |e: (String, OutputPluginConfig)| serves(e.1, output_type@, format@);
        let mut out: Vec<String> = Vec::new();
        let mut i: usize = 0;
        while i < self.output_plugins.len()
            invariant
                i <= self.output_plugins@.len(),
                t@ == output_type@,
                f@ == format@,
                pred == (|e: (String, OutputPluginConfig)| serves(e.1, output_type@, format@)),
                str_views(out@) == entry_names(self.output_plugins@.subrange(0, i as int).filter(pred)),
            decreases self.output_plugins@.len() - i,
        {
            let ghost sub = self.output_plugins@.subrange(0, i + 1);
            assert(sub.drop_last() =~= self.output_plugins@.subrange(0, i as int));
            assert(sub.last() == self.output_plugins@[i as int]);
            proof {
                reveal(Seq::filter);
            }
            let cfg = &self.output_plugins[i].1;
            let ok = cfg.enabled && (cfg.output_types.len() == 0 || contains_string(
                &cfg.output_types,
                &t,
            )) && (cfg.formats.len() == 0 || contains_string(&cfg.formats, &f));
            if ok {
                let ghost prev = out@;
                out.push(self.output_plugins[i].0.clone());
                assert(pred(sub.last()));
                assert(sub.filter(pred) == sub.drop_last().filter(pred).push(sub.last()));
                assert(str_views(out@) =~= str_views(prev).push(self.output_plugins@[i as int].0@));
                assert(entry_names(sub.filter(pred)) =~= entry_names(sub.drop_last().filter(pred)).push(
                    self.output_plugins@[i as int].0@,
                ));
            } else {
                assert(!pred(sub.last()));
                assert(sub.filter(pred) == sub.drop_last().filter(pred));
            }
            i += 1;
        }
        assert(self.output_plugins@.subrange(0, self.output_plugins@.len() as int)
            =~= self.output_plugins@);
        out
    }

    /// The input plugin named `name`, if configured.
    pub fn get_input_plugin(&self, name: &str) -> (r: Option<&InputPluginConfig>)
        ensures
            name_index(self.input_plugins@, name@) >= 0 ==> r == Some(
                &self.input_plugins@[name_index(self.input_plugins@, name@)].1,
            ),
            name_index(self.input_plugins@, name@) < 0 ==> r is None,
    {
        lookup(&self.input_plugins, name)
    }

    /// The output plugin named `name`, if configured.
    pub fn get_output_plugin(&self, name: &str) -> (r: Option<&OutputPluginConfig>)
        ensures
            name_index(self.output_plugins@, name@) >= 0 ==> r == Some(
                &self.output_plugins@[name_index(self.output_plugins@, name@)].1,
            ),
            name_index(self.output_plugins@, name@) < 0 ==> r is None,
    {
        lookup(&self.output_plugins, name)
    }

    /// Adds the input plugin `name`, or replaces its settings.
    pub fn add_input_plugin(&mut self, name: String, config: InputPluginConfig)
        ensures
            final(self).input_plugins@ == upserted(old(self).input_plugins@, name, config),
            final(self).output_plugins@ == old(self).output_plugins@,
    {
        upsert(&mut self.input_plugins, name, config);
    }

    /// Adds the output plugin `name`, or replaces its settings.
    pub fn add_output_plugin(&mut self, name: String, config: OutputPluginConfig)
        ensures
            final(self).output_plugins@ == upserted(old(self).output_plugins@, name, config),
            final(self).input_plugins@ == old(self).input_plugins@,
    {
        upsert(&mut self.output_plugins, name, config);
    }

    /// Removes the input plugin `name`, giving back its settings.
    pub fn remove_input_plugin(&mut self, name: &str) -> (r: Option<InputPluginConfig>)
        ensures
            name_index(old(self).input_plugins@, name@) >= 0 ==> {
                let i = name_index(old(self).input_plugins@, name@);
                &&& r == Some(old(self).input_plugins@[i].1)
                &&& final(self).input_plugins@ == old(self).input_plugins@.remove(i)
            },
            name_index(old(self).input_plugins@, name@) < 0 ==> r is None
                && final(self).input_plugins@ == old(self).input_plugins@,
            final(self).output_plugins@ == old(self).output_plugins@,
    {
        remove_named(&mut self.input_plugins, name)
    }

    /// Removes the output plugin `name`, giving back its settings.
    pub fn remove_output_plugin(&mut self, name: &str) -> (r: Option<OutputPluginConfig>)
        ensures
            name_index(old(self).output_plugins@, name@) >= 0 ==> {
                let i = name_index(old(self).output_plugins@, name@);
                &&& r == Some(old(self).output_plugins@[i].1)
                &&& final(self).output_plugins@ == old(self).output_plugins@.remove(i)
            },
            name_index(old(self).output_plugins@, name@) < 0 ==> r is None
                && final(self).output_plugins@ == old(self).output_plugins@,
            final(self).input_plugins@ == old(self).input_plugins@,
    {
        remove_named(&mut self.output_plugins, name)
    }

    /// The enabled input plugins, in configuration order.
    pub fn get_enabled_input_plugins(&self) -> (r: Vec<(&String, &InputPluginConfig)>)
        ensures
            r@.map_values(|e: (&String, &InputPluginConfig)| (*e.0, *e.1)) == self.input_plugins@.filter(
                |e: (String, InputPluginConfig)| e.1.enabled,
            ),
    {
        let ghost pred = |e: (String, InputPluginConfig)| e.1.enabled;
        let mut out: Vec<(&String, &InputPluginConfig)> = Vec::new();
        let mut i: usize = 0;
        while i < self.input_plugins.len()
            invariant
                i <= self.input_plugins@.len(),
                pred == (|e: (String, InputPluginConfig)| e.1.enabled),
                out@.map_values(|e: (&String, &InputPluginConfig)| (*e.0, *e.1))
                    == self.input_plugins@.subrange(0, i as int).filter(pred),
            decreases self.input_plugins@.len() - i,
        {
            let ghost sub = self.input_plugins@.subrange(0, i + 1);
            assert(sub.drop_last() =~= self.input_plugins@.subrange(0, i as int));
            assert(sub.last() == self.input_plugins@[i as int]);
            proof {
                reveal(Seq::filter);
            }
            let e = &self.input_plugins[i];
            if e.1.enabled {
                let ghost prev = out@;
                out.push((&e.0, &e.1));
                assert(out@.map_values(|e: (&String, &InputPluginConfig)| (*e.0, *e.1)) =~= prev.map_values(
                    |e: (&String, &InputPluginConfig)| (*e.0, *e.1),
                ).push(self.input_plugins@[i as int]));
                assert(pred(sub.last()));
                assert(sub.filter(pred) == sub.drop_last().filter(pred).push(sub.last()));
            } else {
                assert(!pred(sub.last()));
                assert(sub.filter(pred) == sub.drop_last().filter(pred));
            }
            i += 1;
        }
        assert(self.input_plugins@.subrange(0, self.input_plugins@.len() as int)
            =~= self.input_plugins@);
        out
    }

    /// The enabled output plugins, in configuration order.
    pub fn get_enabled_output_plugins(&self) -> (r: Vec<(&String, &OutputPluginConfig)>)
        ensures
            r@.map_values(|e: (&String, &OutputPluginConfig)| (*e.0, *e.1)) == self.output_plugins@.filter(
                |e: (String, OutputPluginConfig)| e.1.enabled,
            ),
    {
        let ghost pred = |e: (String, OutputPluginConfig)| e.1.enabled;
        let mut out: Vec<(&String, &OutputPluginConfig)> = Vec::new();
        let mut i: usize = 0;
        while i < self.output_plugins.len()
            invariant
                i <= self.output_plugins@.len(),
                pred == (|e: (String, OutputPluginConfig)| e.1.enabled),
                out@.map_values(|e: (&String, &OutputPluginConfig)| (*e.0, *e.1))
                    == self.output_plugins@.subrange(0, i as int).filter(pred),
            decreases self.output_plugins@.len() - i,
        {
            let ghost sub = self.output_plugins@.subrange(0, i + 1);
            assert(sub.drop_last() =~= self.output_plugins@.subrange(0, i as int));
            assert(sub.last() == self.output_plugins@[i as int]);
            proof {
                reveal(Seq::filter);
            }
            let e = &self.output_plugins[i];
            if e.1.enabled {
                let ghost prev = out@;
                out.push((&e.0, &e.1));
                assert(out@.map_values(|e: (&String, &OutputPluginConfig)| (*e.0, *e.1)) =~= prev.map_values(
                    |e: (&String, &OutputPluginConfig)| (*e.0, *e.1),
                ).push(self.output_plugins@[i as int]));
                assert(pred(sub.last()));
                assert(sub.filter(pred) == sub.drop_last().filter(pred).push(sub.last()));
            } else {
                assert(!pred(sub.last()));
                assert(sub.filter(pred) == sub.drop_last().filter(pred));
            }
            i += 1;
        }
        assert(self.output_plugins@.subrange(0, self.output_plugins@.len() as int)
            =~= self.output_plugins@);
        out
    }

    /// Counts and names of the configured plugins, names in configuration order.
    pub fn get_plugin_summary(&self) -> (r: PluginSummary)
        ensures
            r.total_input_plugins == self.input_plugins@.len(),
            r.total_output_plugins == self.output_plugins@.len(),
            r.enabled_input_plugins == enabled_count(
                self.input_plugins@,
                |c: InputPluginConfig| c.enabled,
            ),
            r.enabled_output_plugins == enabled_count(
                self.output_plugins@,
                |c: OutputPluginConfig| c.enabled,
            ),
            str_views(r.input_plugin_names@) == entry_names(self.input_plugins@),
            str_views(r.output_plugin_names@) == entry_names(self.output_plugins@),
    {
        let mut enabled_in: usize = 0;
        let mut names_in: Vec<String> = Vec::new();
        let mut i: usize = 0;
        while i < self.input_plugins.len()
            invariant
                i <= self.input_plugins@.len(),
                enabled_in == enabled_count(
                    self.input_plugins@.subrange(0, i as int),
                    |c: InputPluginConfig| c.enabled,
                ),
                str_views(names_in@) == entry_names(self.input_plugins@.subrange(0, i as int)),
            decreases self.input_plugins@.len() - i,
        {
            let ghost sub = self.input_plugins@.subrange(0, i + 1);
            assert(sub.drop_last() =~= self.input_plugins@.subrange(0, i as int));
            assert(sub.last() == self.input_plugins@[i as int]);
            proof {
                lemma_enabled_count_bound(
                    self.input_plugins@.subrange(0, i as int),
                    |c: InputPluginConfig| c.enabled,
                );
            }
            if self.input_plugins[i].1.enabled {
                enabled_in = enabled_in + 1;
            }
            let ghost prev = names_in@;
            names_in.push(self.input_plugins[i].0.clone());
            assert(str_views(names_in@) =~= str_views(prev).push(self.input_plugins@[i as int].0@));
            assert(entry_names(sub) =~= entry_names(sub.drop_last()).push(sub.last().0@));
            i += 1;
        }
        assert(self.input_plugins@.subrange(0, self.input_plugins@.len() as int)
            =~= self.input_plugins@);
        let mut enabled_out: usize = 0;
        let mut names_out: Vec<String> = Vec::new();
        let mut i: usize = 0;
        while i < self.output_plugins.len()
            invariant
                i <= self.output_plugins@.len(),
                enabled_out == enabled_count(
                    self.output_plugins@.subrange(0, i as int),
                    |c: OutputPluginConfig| c.enabled,
                ),
                str_views(names_out@) == entry_names(self.output_plugins@.subrange(0, i as int)),
            decreases self.output_plugins@.len() - i,
        {
            let ghost sub = self.output_plugins@.subrange(0, i + 1);
            assert(sub.drop_last() =~= self.output_plugins@.subrange(0, i as int));
            assert(sub.last() == self.output_plugins@[i as int]);
            proof {
                lemma_enabled_count_bound(
                    self.output_plugins@.subrange(0, i as int),
                    |c: OutputPluginConfig| c.enabled,
                );
            }
            if self.output_plugins[i].1.enabled {
                enabled_out = enabled_out + 1;
            }
            let ghost prev = names_out@;
            names_out.push(self.output_plugins[i].0.clone());
            assert(str_views(names_out@) =~= str_views(prev).push(self.output_plugins@[i as int].0@));
            assert(entry_names(sub) =~= entry_names(sub.drop_last()).push(sub.last().0@));
            i += 1;
        }
        assert(self.output_plugins@.subrange(0, self.output_plugins@.len() as int)
            =~= self.output_plugins@);
        PluginSummary {
            total_input_plugins: self.input_plugins.len(),
            enabled_input_plugins: enabled_in,
            total_output_plugins: self.output_plugins.len(),
            enabled_output_plugins: enabled_out,
            input_plugin_names: names_in,
            output_plugin_names: names_out,
        }
    }
}

impl Config {
    /// The built-in configuration: Python and Rust analyzers and a Markdown
    /// documentation generator, all built in and enabled; output in `output`;
    /// a local Ollama model; and the usual build, dependency, VCS, log and
    /// cache paths ignored.
    pub open spec fn is_default(&self) -> bool {
        &&& self.output_dir@ == "output"@
        &&& self.llm.provider@ == "ollama"@
        &&& self.llm.base_url@ == "http://localhost:11434"@
        &&& self.llm.model@ == "deepseek-coder"@
        &&& self.llm.timeout_seconds == 30
        &&& str_views(self.scanning.ignore_patterns@) == seq![
            "target/"@,
            "node_modules/"@,
            ".git/"@,
            "*.log"@,
            ".csd_cache/"@,
        ]
        &&& !self.scanning.include_hidden
        &&& self.scanning.max_file_size_mb == 10
        &&& self.python_executable is None
        &&& self.plugins is None
        &&& entry_names(self.input_plugins@) == seq!["python"@, "rust"@]
        &&& entry_names(self.output_plugins@) == seq!["markdown_docs"@]
        &&& is_builtin_input(
            self.input_plugins@[0].1,
            "python_analyzer"@,
            seq![".py"@],
            seq![
                "requirements.txt"@,
                "setup.py"@,
                "pyproject.toml"@,
                "Pipfile"@,
                "poetry.lock"@,
                "tox.ini"@,
                "pytest.ini"@,
            ],
            seq!["requirements*.txt"@, "**/setup.py"@],
        )
        &&& is_builtin_input(
            self.input_plugins@[1].1,
            "rust_analyzer"@,
            seq![".rs"@],
            seq!["Cargo.toml"@, "Cargo.lock"@, ".rustfmt.toml"@, "rust-toolchain.toml"@],
            seq!["**/Cargo.toml"@, "rust-toolchain*"@],
        )
        &&& {
            let md = self.output_plugins@[0].1;
            &&& md.source matches PluginSource::Builtin { name, plugin_type } && name@
                == "markdown_docs"@ && plugin_type@ == "docs"@
            &&& str_views(md.output_types@) == seq!["documentation"@]
            &&& str_views(md.formats@) == seq!["markdown"@]
            &&& md.enabled
            &&& md.config is None
        }
    }
}

/// A built-in, enabled analyzer of kind `code` with the given patterns and
/// no settings of its own.
pub open spec fn is_builtin_input(
    cfg: InputPluginConfig,
    name: Seq<char>,
    extensions: Seq<Seq<char>>,
    filenames: Seq<Seq<char>>,
    globs: Seq<Seq<char>>,
) -> bool {
    &&& cfg.source matches PluginSource::Builtin { name: n, plugin_type } && n@ == name
        && plugin_type@ == "code"@
    &&& str_views(cfg.file_patterns.extensions@) == extensions
    &&& str_views(cfg.file_patterns.filenames@) == filenames
    &&& cfg.file_patterns.glob_patterns matches Some(g) && str_views(g@) == globs
    &&& cfg.enabled
    &&& cfg.config is None
}

fn no_strings() -> (r: Vec<String>)
    ensures
        str_views(r@) == Seq::<Seq<char>>::empty(),
{
    let r: Vec<String> = Vec::new();
    assert(str_views(r@) =~= Seq::<Seq<char>>::empty());
    r
}

impl Default for Config {
    fn default() -> (r: Self)
        ensures
            r.is_default(),
    {
        let mut py_ext = no_strings();
        push_str(&mut py_ext, ".py");
        let mut py_names = no_strings();
        push_str(&mut py_names, "requirements.txt");
        push_str(&mut py_names, "setup.py");
        push_str(&mut py_names, "pyproject.toml");
        push_str(&mut py_names, "Pipfile");
        push_str(&mut py_names, "poetry.lock");
        push_str(&mut py_names, "tox.ini");
        push_str(&mut py_names, "pytest.ini");
        let mut py_globs = no_strings();
        push_str(&mut py_globs, "requirements*.txt");
        push_str(&mut py_globs, "**/setup.py");
        let python = InputPluginConfig {
            source: PluginSource::Builtin {
                name: String::from_str("python_analyzer"),
                plugin_type: String::from_str("code"),
            },
            file_patterns: FilePatterns {
                extensions: py_ext,
                filenames: py_names,
                glob_patterns: Some(py_globs),
            },
            enabled: true,
            config: None,
        };
        let ghost python_v = python;

        let mut rs_ext = no_strings();
        push_str(&mut rs_ext, ".rs");
        let mut rs_names = no_strings();
        push_str(&mut rs_names, "Cargo.toml");
        push_str(&mut rs_names, "Cargo.lock");
        push_str(&mut rs_names, ".rustfmt.toml");
        push_str(&mut rs_names, "rust-toolchain.toml");
        let mut rs_globs = no_strings();
        push_str(&mut rs_globs, "**/Cargo.toml");
        push_str(&mut rs_globs, "rust-toolchain*");
        let rust = InputPluginConfig {
            source: PluginSource::Builtin {
                name: String::from_str("rust_analyzer"),
                plugin_type: String::from_str("code"),
            },
            file_patterns: FilePatterns {
                extensions: rs_ext,
                filenames: rs_names,
                glob_patterns: Some(rs_globs),
            },
            enabled: true,
            config: None,
        };
        let ghost rust_v = rust;
        assert(str_views(rust_v.file_patterns.extensions@) == seq![".rs"@]);
        assert(str_views(rust_v.file_patterns.filenames@) == seq![
            "Cargo.toml"@,
            "Cargo.lock"@,
            ".rustfmt.toml"@,
            "rust-toolchain.toml"@,
        ]);
        assert(rust_v.source matches PluginSource::Builtin { name: n, plugin_type } && n@
            == "rust_analyzer"@ && plugin_type@ == "code"@);
        assert(rust_v.file_patterns.glob_patterns matches Some(g) && str_views(g@) == seq![
            "**/Cargo.toml"@,
            "rust-toolchain*"@,
        ]);

        let mut md_types = no_strings();
        push_str(&mut md_types, "documentation");
        let mut md_formats = no_strings();
        push_str(&mut md_formats, "markdown");
        let markdown = OutputPluginConfig {
            source: PluginSource::Builtin {
                name: String::from_str("markdown_docs"),
                plugin_type: String::from_str("docs"),
            },
            output_types: md_types,
            formats: md_formats,
            enabled: true,
            config: None,
        };
        let ghost markdown_v = markdown;
        assert(markdown_v.source matches PluginSource::Builtin { name, plugin_type } && name@
            == "markdown_docs"@ && plugin_type@ == "docs"@);

        let mut input_plugins: Vec<(String, InputPluginConfig)> = Vec::new();
        input_plugins.push((String::from_str("python"), python));
        input_plugins.push((String::from_str("rust"), rust));
        let mut output_plugins: Vec<(String, OutputPluginConfig)> = Vec::new();
        output_plugins.push((String::from_str("markdown_docs"), markdown));

        let mut ignore = no_strings();
        push_str(&mut ignore, "target/");
        push_str(&mut ignore, "node_modules/");
        push_str(&mut ignore, ".git/");
        push_str(&mut ignore, "*.log");
        push_str(&mut ignore, ".csd_cache/");

        let r = Config {
            output_dir: String::from_str("output"),
            llm: LlmConfig {
                provider: String::from_str("ollama"),
                base_url: String::from_str("http://localhost:11434"),
                model: String::from_str("deepseek-coder"),
                timeout_seconds: 30,
            },
            scanning: ScanConfig { ignore_patterns: ignore, include_hidden: false, max_file_size_mb: 10 },
            input_plugins,
            output_plugins,
            python_executable: None,
            plugins: None,
        };
        assert(str_views(r.scanning.ignore_patterns@) =~= seq![
            "target/"@,
            "node_modules/"@,
            ".git/"@,
            "*.log"@,
            ".csd_cache/"@,
        ]);
        assert(entry_names(r.input_plugins@) =~= seq!["python"@, "rust"@]);
        assert(entry_names(r.output_plugins@) =~= seq!["markdown_docs"@]);
        assert(r.output_dir@ == "output"@);
        assert(r.llm.provider@ == "ollama"@);
        assert(r.input_plugins@[0].1 == python_v);
        assert(r.input_plugins@[1].1 == rust_v);
        assert(r.output_plugins@[0].1 == markdown_v);
        assert(is_builtin_input(
            r.input_plugins@[1].1,
            "rust_analyzer"@,
            seq![".rs"@],
            seq!["Cargo.toml"@, "Cargo.lock"@, ".rustfmt.toml"@, "rust-toolchain.toml"@],
            seq!["**/Cargo.toml"@, "rust-toolchain*"@],
        ));
        assert(str_views(markdown_v.output_types@) == seq!["documentation"@]);
        assert(str_views(markdown_v.formats@) == seq!["markdown"@]);
        assert(r.llm.base_url@ == "http://localhost:11434"@);
        assert(r.llm.model@ == "deepseek-coder"@);
        assert(str_views(python_v.file_patterns.extensions@) == seq![".py"@]);
        assert(python_v.source matches PluginSource::Builtin { name: n, plugin_type } && n@ == "python_analyzer"@ && plugin_type@ == "code"@);
        assert(str_views(python_v.file_patterns.filenames@) == seq![
                "requirements.txt"@,
                "setup.py"@,
                "pyproject.toml"@,
                "Pipfile"@,
                "poetry.lock"@,
                "tox.ini"@,
                "pytest.ini"@,
            ]);
        assert(python_v.file_patterns.glob_patterns matches Some(g) && str_views(g@) == seq!["requirements*.txt"@, "**/setup.py"@]);
        assert(is_builtin_input(
            r.input_plugins@[0].1,
            "python_analyzer"@,
            seq![".py"@],
            seq![
                "requirements.txt"@,
                "setup.py"@,
                "pyproject.toml"@,
                "Pipfile"@,
                "poetry.lock"@,
                "tox.ini"@,
                "pytest.ini"@,
            ],
            seq!["requirements*.txt"@, "**/setup.py"@],
        ));
        r
    }
}

} // verus!
