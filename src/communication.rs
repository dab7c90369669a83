//! The decisions of the plugin protocol: how a request is planned (its
//! deadline, heartbeat and input file), how a finished process's output is
//! judged, and what each response means for each kind of request.
//!
//! Spawning the process, racing it against the deadline, writing and removing
//! the input file and parsing JSON happen around these functions, outside the
//! library.
use vstd::prelude::*;
use crate::paths::{extension_of, path_extension};
use crate::interface::{
    OutputPluginResult, PluginInfo, PluginMessage, PluginResponse, PluginType,
};

verus! {

/// The cache directory used unless another is set.
pub const DEFAULT_CACHE_DIR: &'static str = ".csd_cache";

/// The interpreter used unless another is set or detected.
pub const DEFAULT_PYTHON: &'static str = "python";

/// The interpreter tried when `python` does not run.
pub const FALLBACK_PYTHON: &'static str = "python3";

/// The longest content preview sent with a capability check, in characters.
pub const PREVIEW_CHARS: usize = 500;

/// How to reach one plugin: its file, the interpreter that runs it, and the
/// directory where requests and results are exchanged.
pub struct PluginCommunicator {
    plugin_path: String,
    python_executable: String,
    cache_dir: String,
}

impl PluginCommunicator {
    pub closed spec fn spec_plugin_path(&self) -> Seq<char> {
        self.plugin_path@
    }

    pub closed spec fn spec_python(&self) -> Seq<char> {
        self.python_executable@
    }

    pub closed spec fn spec_cache_dir(&self) -> Seq<char> {
        self.cache_dir@
    }

    /// A communicator for the plugin at `plugin_path`, run by `python`, with
    /// the default cache directory.
    pub fn new(plugin_path: String) -> (r: Self)
        ensures
            r.spec_plugin_path() == plugin_path@,
            r.spec_python() == DEFAULT_PYTHON@,
            r.spec_cache_dir() == DEFAULT_CACHE_DIR@,
    {
        PluginCommunicator {
            plugin_path,
            python_executable: String::from_str(DEFAULT_PYTHON),
            cache_dir: String::from_str(DEFAULT_CACHE_DIR),
        }
    }

    pub fn with_cache_dir(self, cache_dir: String) -> (r: Self)
        ensures
            r.spec_plugin_path() == self.spec_plugin_path(),
            r.spec_python() == self.spec_python(),
            r.spec_cache_dir() == cache_dir@,
    {
        PluginCommunicator { cache_dir, ..self }
    }

    pub fn with_python_executable(self, executable: String) -> (r: Self)
        ensures
            r.spec_plugin_path() == self.spec_plugin_path(),
            r.spec_python() == executable@,
            r.spec_cache_dir() == self.spec_cache_dir(),
    {
        PluginCommunicator { python_executable: executable, ..self }
    }

    /// Picks the interpreter from what was found to run: `python` first,
    /// then `python3`; keeps the current one when neither runs.
    pub fn with_python_auto_detect(self, python_runs: bool, python3_runs: bool) -> (r: Self)
        ensures
            r.spec_plugin_path() == self.spec_plugin_path(),
            r.spec_cache_dir() == self.spec_cache_dir(),
            r.spec_python() == if python_runs {
                DEFAULT_PYTHON@
            } else if python3_runs {
                FALLBACK_PYTHON@
            } else {
                self.spec_python()
            },
    {
        if python_runs {
            self.with_python_executable(String::from_str(DEFAULT_PYTHON))
        } else if python3_runs {
            self.with_python_executable(String::from_str(FALLBACK_PYTHON))
        } else {
            self
        }
    }

    pub fn plugin_path(&self) -> (r: &String)
        ensures
            r@ == self.spec_plugin_path(),
    {
        &self.plugin_path
    }

    pub fn python_executable(&self) -> (r: &String)
        ensures
            r@ == self.spec_python(),
    {
        &self.python_executable
    }

    pub fn cache_dir(&self) -> (r: &String)
        ensures
            r@ == self.spec_cache_dir(),
    {
        &self.cache_dir
    }
}

/// A communicator for an analyzer plugin.
pub struct InputPluginCommunicator {
    base: PluginCommunicator,
}

impl InputPluginCommunicator {
    pub closed spec fn spec_base(&self) -> PluginCommunicator {
        self.base
    }

    pub fn new(plugin_path: String) -> (r: Self)
        ensures
            r.spec_base().spec_plugin_path() == plugin_path@,
            r.spec_base().spec_python() == DEFAULT_PYTHON@,
            r.spec_base().spec_cache_dir() == DEFAULT_CACHE_DIR@,
    {
        InputPluginCommunicator { base: PluginCommunicator::new(plugin_path) }
    }

    pub fn with_cache_dir(self, cache_dir: String) -> (r: Self)
        ensures
            r.spec_base().spec_plugin_path() == self.spec_base().spec_plugin_path(),
            r.spec_base().spec_python() == self.spec_base().spec_python(),
            r.spec_base().spec_cache_dir() == cache_dir@,
    {
        InputPluginCommunicator { base: self.base.with_cache_dir(cache_dir) }
    }

    pub fn with_python_executable(self, executable: String) -> (r: Self)
        ensures
            r.spec_base().spec_plugin_path() == self.spec_base().spec_plugin_path(),
            r.spec_base().spec_python() == executable@,
            r.spec_base().spec_cache_dir() == self.spec_base().spec_cache_dir(),
    {
        InputPluginCommunicator { base: self.base.with_python_executable(executable) }
    }

    /// As `PluginCommunicator::with_python_auto_detect`.
    pub fn with_python_auto_detect(self, python_runs: bool, python3_runs: bool) -> (r: Self)
        ensures
            r.spec_base().spec_plugin_path() == self.spec_base().spec_plugin_path(),
            r.spec_base().spec_cache_dir() == self.spec_base().spec_cache_dir(),
            r.spec_base().spec_python() == if python_runs {
                DEFAULT_PYTHON@
            } else if python3_runs {
                FALLBACK_PYTHON@
            } else {
                self.spec_base().spec_python()
            },
    {
        InputPluginCommunicator { base: self.base.with_python_auto_detect(python_runs, python3_runs) }
    }

    pub fn base(&self) -> (r: &PluginCommunicator)
        ensures
            *r == self.spec_base(),
    {
        &self.base
    }
}

/// A communicator for a generator plugin.
pub struct OutputPluginCommunicator {
    base: PluginCommunicator,
}

impl OutputPluginCommunicator {
    pub closed spec fn spec_base(&self) -> PluginCommunicator {
        self.base
    }

    pub fn new(plugin_path: String) -> (r: Self)
        ensures
            r.spec_base().spec_plugin_path() == plugin_path@,
            r.spec_base().spec_python() == DEFAULT_PYTHON@,
            r.spec_base().spec_cache_dir() == DEFAULT_CACHE_DIR@,
    {
        OutputPluginCommunicator { base: PluginCommunicator::new(plugin_path) }
    }

    pub fn with_cache_dir(self, cache_dir: String) -> (r: Self)
        ensures
            r.spec_base().spec_plugin_path() == self.spec_base().spec_plugin_path(),
            r.spec_base().spec_python() == self.spec_base().spec_python(),
            r.spec_base().spec_cache_dir() == cache_dir@,
    {
        OutputPluginCommunicator { base: self.base.with_cache_dir(cache_dir) }
    }

    pub fn with_python_executable(self, executable: String) -> (r: Self)
        ensures
            r.spec_base().spec_plugin_path() == self.spec_base().spec_plugin_path(),
            r.spec_base().spec_python() == executable@,
            r.spec_base().spec_cache_dir() == self.spec_base().spec_cache_dir(),
    {
        OutputPluginCommunicator { base: self.base.with_python_executable(executable) }
    }

    /// As `PluginCommunicator::with_python_auto_detect`.
    pub fn with_python_auto_detect(self, python_runs: bool, python3_runs: bool) -> (r: Self)
        ensures
            r.spec_base().spec_plugin_path() == self.spec_base().spec_plugin_path(),
            r.spec_base().spec_cache_dir() == self.spec_base().spec_cache_dir(),
            r.spec_base().spec_python() == if python_runs {
                DEFAULT_PYTHON@
            } else if python3_runs {
                FALLBACK_PYTHON@
            } else {
                self.spec_base().spec_python()
            },
    {
        OutputPluginCommunicator { base: self.base.with_python_auto_detect(python_runs, python3_runs) }
    }

    pub fn base(&self) -> (r: &PluginCommunicator)
        ensures
            *r == self.spec_base(),
    {
        &self.base
    }
}

/// Why a plugin request failed.
#[derive(Debug, Clone)]
pub enum PluginError {
    /// The plugin process could not be started or its files not be handled.
    Transport { message: String },
    /// The plugin did not finish before the request's deadline.
    Timeout { operation: String, minutes: u64 },
    /// The plugin exited with a failure status.
    NonZeroExit { status: String, stdout: String, stderr: String },
    /// The plugin printed nothing but white space.
    NoOutput { stderr: String },
    /// No line of the plugin's output opens a JSON object.
    NoResponse { stdout: String, stderr: String },
    /// The response line is not a response.
    Unparsable { line: String, reason: String, stderr: String },
    /// The plugin answered with an error.
    Reported { message: String, details: Option<String> },
    /// The plugin answered with a response of the wrong kind for the request.
    UnexpectedResponse { request: String },
}

/// How a request is run: its deadline, how often a heartbeat is logged while
/// it runs, and what it is called in messages.
#[derive(Debug, Clone)]
pub struct OperationPlan {
    pub timeout_secs: u64,
    pub progress_interval_secs: u64,
    pub operation_name: String,
}

/// The deadline, heartbeat interval and name of each kind of request.
pub open spec fn plan_spec(message: PluginMessage) -> (u64, u64, Seq<char>) {
    match message {
        PluginMessage::Analyze { .. } => (300, 30, "Analyzing code"@),
        PluginMessage::Generate { .. } => (600, 30, "Generating documentation"@),
        PluginMessage::CanAnalyze { .. } => (30, 10, "Checking file compatibility"@),
        PluginMessage::CanGenerate { .. } => (30, 10, "Checking generation capability"@),
        PluginMessage::GetInfo => (30, 10, "Getting plugin info"@),
    }
}

/// How `message` is to be run.
pub fn plan_for(message: &PluginMessage) -> (r: OperationPlan)
    ensures
        (r.timeout_secs, r.progress_interval_secs, r.operation_name@) == plan_spec(*message),
{
    match message {
        PluginMessage::Analyze { .. } => OperationPlan {
            timeout_secs: 300,
            progress_interval_secs: 30,
            operation_name: String::from_str("Analyzing code"),
        },
        PluginMessage::Generate { .. } => OperationPlan {
            timeout_secs: 600,
            progress_interval_secs: 30,
            operation_name: String::from_str("Generating documentation"),
        },
        PluginMessage::CanAnalyze { .. } => OperationPlan {
            timeout_secs: 30,
            progress_interval_secs: 10,
            operation_name: String::from_str("Checking file compatibility"),
        },
        PluginMessage::CanGenerate { .. } => OperationPlan {
            timeout_secs: 30,
            progress_interval_secs: 10,
            operation_name: String::from_str("Checking generation capability"),
        },
        PluginMessage::GetInfo => OperationPlan {
            timeout_secs: 30,
            progress_interval_secs: 10,
            operation_name: String::from_str("Getting plugin info"),
        },
    }
}

/// The error for a request that ran past its deadline of `timeout_secs`.
pub fn timeout_error(plan: &OperationPlan) -> (r: PluginError)
    ensures
        (r matches PluginError::Timeout { operation, minutes } && operation@
            == plan.operation_name@ && minutes == plan.timeout_secs / 60),
{
    PluginError::Timeout {
        operation: plan.operation_name.clone(),
        minutes: plan.timeout_secs / 60,
    }
}

/// The decimal digits of `n`.
pub open spec fn decimal(n: u64) -> Seq<char>
    decreases n,
{
    if n < 10 {
        seq![digit_char(n)]
    } else {
        decimal(n / 10).push(digit_char(n % 10))
    }
}

pub open spec fn digit_char(d: u64) -> char {
    if d == 0 { '0' }
    else if d == 1 { '1' }
    else if d == 2 { '2' }
    else if d == 3 { '3' }
    else if d == 4 { '4' }
    else if d == 5 { '5' }
    else if d == 6 { '6' }
    else if d == 7 { '7' }
    else if d == 8 { '8' }
    else { '9' }
}

fn digit_text(d: u64) -> (r: &'static str)
    requires
        d < 10,
    ensures
        r@ == seq![digit_char(d)],
{
    proof {
        reveal_strlit("0");
        reveal_strlit("1");
        reveal_strlit("2");
        reveal_strlit("3");
        reveal_strlit("4");
        reveal_strlit("5");
        reveal_strlit("6");
        reveal_strlit("7");
        reveal_strlit("8");
        reveal_strlit("9");
    }
    let r = if d == 0 { "0" }
    else if d == 1 { "1" }
    else if d == 2 { "2" }
    else if d == 3 { "3" }
    else if d == 4 { "4" }
    else if d == 5 { "5" }
    else if d == 6 { "6" }
    else if d == 7 { "7" }
    else if d == 8 { "8" }
    else { "9" };
    assert(r@ =~= seq![digit_char(d)]);
    r
}

/// `n` in decimal.
pub fn decimal_text(n: u64) -> (r: String)
    ensures
        r@ == decimal(n),
    decreases n,
{
    if n < 10 {
        String::from_str(digit_text(n))
    } else {
        let mut s = decimal_text(n / 10);
        s.append(digit_text(n % 10));
        assert(s@ =~= decimal(n));
        s
    }
}

/// The heartbeat logged while `operation` has run for `elapsed_secs`.
pub open spec fn progress_text(operation: Seq<char>, elapsed_secs: u64) -> Seq<char> {
    if elapsed_secs == 30 {
        operation + " is taking longer than expected, still working..."@
    } else if elapsed_secs == 60 {
        operation + " in progress (1 minute elapsed)..."@
    } else if elapsed_secs == 120 {
        operation + " continuing (2 minutes elapsed)..."@
    } else if elapsed_secs == 180 {
        operation + " almost there (3 minutes elapsed)..."@
    } else if elapsed_secs == 240 {
        operation + " taking a while (4 minutes elapsed)..."@
    } else if elapsed_secs == 300 {
        operation + " final stretch (5 minutes elapsed)..."@
    } else {
        operation + " still running ("@ + decimal(elapsed_secs / 60) + " minutes elapsed)..."@
    }
}

/// The heartbeat logged while `operation` has run for `elapsed_secs`.
pub fn progress_message(operation: &str, elapsed_secs: u64) -> (r: String)
    ensures
        r@ == progress_text(operation@, elapsed_secs),
{
    let mut m = String::from_str(operation);
    if elapsed_secs == 30 {
        m.append(" is taking longer than expected, still working...");
    } else if elapsed_secs == 60 {
        m.append(" in progress (1 minute elapsed)...");
    } else if elapsed_secs == 120 {
        m.append(" continuing (2 minutes elapsed)...");
    } else if elapsed_secs == 180 {
        m.append(" almost there (3 minutes elapsed)...");
    } else if elapsed_secs == 240 {
        m.append(" taking a while (4 minutes elapsed)...");
    } else if elapsed_secs == 300 {
        m.append(" final stretch (5 minutes elapsed)...");
    } else {
        m.append(" still running (");
        m.append(decimal_text(elapsed_secs / 60).as_str());
        m.append(" minutes elapsed)...");
    }
    m
}

/// The name of the file a request is written to, made unique by `id`.
pub fn input_file_name(id: &str) -> (r: String)
    ensures
        r@ == "plugin_input_"@ + id@ + ".json"@,
{
    let mut name = String::from_str("plugin_input_");
    name.append(id);
    name.append(".json");
    name
}

/// The first `PREVIEW_CHARS` characters of `content`, or all of it when
/// shorter.
pub fn content_preview(content: &str) -> (r: String)
    ensures
        r@ == if content@.len() <= PREVIEW_CHARS {
            content@
        } else {
            content@.subrange(0, PREVIEW_CHARS as int)
        },
{
    let n = content.unicode_len();
    if n <= PREVIEW_CHARS {
        assert(content@.subrange(0, n as int) =~= content@);
        String::from_str(content.substring_char(0, n))
    } else {
        String::from_str(content.substring_char(0, PREVIEW_CHARS))
    }
}

/// A Unicode `White_Space` character.
pub open spec fn is_white_space_char(c: char) -> bool {
    crate::tokens::is_white_space(c)
}

/// `t` is `s` without its leading and trailing white space.
pub open spec fn is_trim_of(s: Seq<char>, t: Seq<char>) -> bool {
    exists|a: int, b: int|
        0 <= a <= b <= s.len() && t == s.subrange(a, b) && (forall|i: int|
            0 <= i < a ==> is_white_space_char(#[trigger] s[i])) && (forall|i: int|
            b <= i < s.len() ==> is_white_space_char(#[trigger] s[i])) && (a < b ==> !is_white_space_char(s[a])
            && !is_white_space_char(s[b - 1]))
}

/// What `str::trim` returns for `s`.
pub uninterp spec fn trim_of(s: Seq<char>) -> Seq<char>;

/// Relies on std's `str::trim`: leading and trailing white space removed.
#[verifier::external_body]
fn trim_text(s: &str) -> (r: String)
    ensures
        r@ == trim_of(s@),
        is_trim_of(s@, r@),
{
    s.trim().to_string()
}

/// What `str::lines` yields for `s`.
pub uninterp spec fn lines_of(s: Seq<char>) -> Seq<Seq<char>>;

/// Relies on std's `str::lines`: the lines of `s`, without line endings.
#[verifier::external_body]
fn text_lines(s: &str) -> (r: Vec<String>)
    ensures
        r@.map_values(|l: String| l@) == lines_of(s@),
{
    s.lines().map(|l| l.to_string()).collect()
}

/// A trimmed line that opens a JSON object.
pub open spec fn opens_object(t: Seq<char>) -> bool {
    t.len() > 0 && t[0] == '{'
}

/// The first line that, trimmed, opens a JSON object, trimmed.
pub open spec fn first_object_line(lines: Seq<Seq<char>>) -> Option<Seq<char>>
    decreases lines.len(),
{
    if lines.len() == 0 {
        None
    } else {
        match first_object_line(lines.drop_last()) {
            Some(l) => Some(l),
            None => if opens_object(trim_of(lines.last())) {
                Some(trim_of(lines.last()))
            } else {
                None
            },
        }
    }
}

/// Judges what a finished plugin process left: a failure status, output
/// that is only white space, or output without a line that opens a JSON
/// object are errors (carrying the trimmed streams); otherwise the first
/// such line, trimmed, is the response to parse. Other lines are noise.
pub fn judge_output(exit_ok: bool, status: String, stdout: &str, stderr: &str) -> (r: Result<
    String,
    PluginError,
>)
    ensures
        !exit_ok ==> (r matches Err(PluginError::NonZeroExit { status: s, stdout: o, stderr: e })
            && s == status && o@ == trim_of(stdout@) && e@ == trim_of(stderr@)),
        exit_ok && trim_of(stdout@).len() == 0 ==> (r matches Err(
            PluginError::NoOutput { stderr: e },
        ) && e@ == trim_of(stderr@)),
        exit_ok && trim_of(stdout@).len() > 0 && first_object_line(lines_of(stdout@)) is None
            ==> (r matches Err(PluginError::NoResponse { stdout: o, stderr: e }) && o@ == trim_of(
            stdout@,
        ) && e@ == trim_of(stderr@)),
        exit_ok && trim_of(stdout@).len() > 0 && first_object_line(lines_of(stdout@)) is Some
            ==> (r matches Ok(l) && l@ == first_object_line(lines_of(stdout@))->0),
{
    let out = trim_text(stdout);
    if !exit_ok {
        return Err(PluginError::NonZeroExit { status, stdout: out, stderr: trim_text(stderr) });
    }
    if out.as_str().unicode_len() == 0 {
        return Err(PluginError::NoOutput { stderr: trim_text(stderr) });
    }
    let lines = text_lines(stdout);
    let ghost views = lines@.map_values(|l: String| l@);
    let mut k: usize = 0;
    while k < lines.len()
        invariant
            k <= lines@.len(),
            exit_ok,
            trim_of(stdout@).len() > 0,
            views == lines@.map_values(|l: String| l@),
            views == lines_of(stdout@),
            first_object_line(views.subrange(0, k as int)) is None,
        decreases lines@.len() - k,
    {
        let ghost sub = views.subrange(0, k + 1);
        assert(sub.drop_last() =~= views.subrange(0, k as int));
        assert(sub.last() == lines@[k as int]@);
        let t = trim_text(lines[k].as_str());
        if t.as_str().unicode_len() > 0 && t.as_str().get_char(0) == '{' {
            assert(first_object_line(views) == Some(t@)) by {
                lemma_first_object_line_prefix(views, k as int + 1);
            }
            return Ok(t);
        }
        k += 1;
    }
    assert(views.subrange(0, lines@.len() as int) =~= views);
    Err(PluginError::NoResponse { stdout: out, stderr: trim_text(stderr) })
}

/// Once a prefix holds an opening line, the whole sequence has the same first one.
proof fn lemma_first_object_line_prefix(lines: Seq<Seq<char>>, k: int)
    requires
        0 <= k <= lines.len(),
        first_object_line(lines.subrange(0, k)) is Some,
    ensures
        first_object_line(lines) == first_object_line(lines.subrange(0, k)),
    decreases lines.len(),
{
    if k < lines.len() {
        assert(lines.drop_last().subrange(0, k) =~= lines.subrange(0, k));
        lemma_first_object_line_prefix(lines.drop_last(), k);
    } else {
        assert(lines.subrange(0, k) =~= lines);
    }
}

/// What a `GetInfo` request yields for `response`.
pub fn info_from_response(response: PluginResponse) -> (r: Result<PluginInfo, PluginError>)
    ensures
        match response {
            PluginResponse::Info {
                name,
                version,
                plugin_type,
                supported_extensions,
                supported_filenames,
                supported_output_types,
                supported_formats,
            } => r == Ok::<PluginInfo, PluginError>(
                PluginInfo {
                    name,
                    version,
                    plugin_type,
                    supported_extensions,
                    supported_filenames,
                    supported_output_types,
                    supported_formats,
                },
            ),
            PluginResponse::Error { message, details } => r == Err::<PluginInfo, PluginError>(
                PluginError::Reported { message, details },
            ),
            _ => r matches Err(PluginError::UnexpectedResponse { .. }),
        },
{
    match response {
        PluginResponse::Info {
            name,
            version,
            plugin_type,
            supported_extensions,
            supported_filenames,
            supported_output_types,
            supported_formats,
        } => Ok(
            PluginInfo {
                name,
                version,
                plugin_type,
                supported_extensions,
                supported_filenames,
                supported_output_types,
                supported_formats,
            },
        ),
        PluginResponse::Error { message, details } => Err(PluginError::Reported { message, details }),
        _ => Err(PluginError::UnexpectedResponse { request: String::from_str("get_info") }),
    }
}

/// The plugin type a `GetInfo` request yields for `response`.
pub fn plugin_type_from_response(response: PluginResponse) -> (r: Result<PluginType, PluginError>)
    ensures
        match response {
            PluginResponse::Info { plugin_type, .. } => r == Ok::<PluginType, PluginError>(
                plugin_type,
            ),
            PluginResponse::Error { message, details } => r == Err::<PluginType, PluginError>(
                PluginError::Reported { message, details },
            ),
            _ => r matches Err(PluginError::UnexpectedResponse { .. }),
        },
{
    match info_from_response(response) {
        Ok(info) => Ok(info.plugin_type),
        Err(e) => Err(e),
    }
}

/// What a capability check for analysis yields for `response`: the plugin's
/// answer; its error, passed on; or an error for a reply of another kind.
pub fn can_analyze_from_response(response: PluginResponse) -> (r: Result<bool, PluginError>)
    ensures
        match response {
            PluginResponse::CanAnalyze { can_analyze, .. } => r == Ok::<bool, PluginError>(
                can_analyze,
            ),
            PluginResponse::Error { message, details } => r == Err::<bool, PluginError>(
                PluginError::Reported { message, details },
            ),
            _ => r matches Err(PluginError::UnexpectedResponse { .. }),
        },
{
    match response {
        PluginResponse::CanAnalyze { can_analyze, .. } => Ok(can_analyze),
        PluginResponse::Error { message, details } => Err(PluginError::Reported { message, details }),
        _ => Err(PluginError::UnexpectedResponse { request: String::from_str("can_analyze") }),
    }
}

/// What a capability check for generation yields for `response`: the
/// plugin's answer; its error, passed on; or an error for a reply of another
/// kind.
pub fn can_generate_from_response(response: PluginResponse) -> (r: Result<bool, PluginError>)
    ensures
        match response {
            PluginResponse::CanGenerate { can_generate, .. } => r == Ok::<bool, PluginError>(
                can_generate,
            ),
            PluginResponse::Error { message, details } => r == Err::<bool, PluginError>(
                PluginError::Reported { message, details },
            ),
            _ => r matches Err(PluginError::UnexpectedResponse { .. }),
        },
{
    match response {
        PluginResponse::CanGenerate { can_generate, .. } => Ok(can_generate),
        PluginResponse::Error { message, details } => Err(PluginError::Reported { message, details }),
        _ => Err(PluginError::UnexpectedResponse { request: String::from_str("can_generate") }),
    }
}

/// What an analysis request yields for `response`: the name of the cache
/// file that holds the result, to be read from the cache directory.
pub fn cache_file_from_response(response: PluginResponse) -> (r: Result<String, PluginError>)
    ensures
        match response {
            PluginResponse::Success { cache_file, .. } => r == Ok::<String, PluginError>(
                cache_file,
            ),
            PluginResponse::Error { message, details } => r == Err::<String, PluginError>(
                PluginError::Reported { message, details },
            ),
            _ => r matches Err(PluginError::UnexpectedResponse { .. }),
        },
{
    match response {
        PluginResponse::Success { cache_file, .. } => Ok(cache_file),
        PluginResponse::Error { message, details } => Err(PluginError::Reported { message, details }),
        _ => Err(PluginError::UnexpectedResponse { request: String::from_str("analyze") }),
    }
}

/// What a generation request yields for `response`.
pub fn generation_from_response(response: PluginResponse) -> (r: Result<
    OutputPluginResult,
    PluginError,
>)
    ensures
        match response {
            PluginResponse::OutputSuccess { result } => r == Ok::<
                OutputPluginResult,
                PluginError,
            >(result),
            PluginResponse::Error { message, details } => r == Err::<
                OutputPluginResult,
                PluginError,
            >(PluginError::Reported { message, details }),
            _ => r matches Err(PluginError::UnexpectedResponse { .. }),
        },
{
    match response {
        PluginResponse::OutputSuccess { result } => Ok(result),
        PluginResponse::Error { message, details } => Err(PluginError::Reported { message, details }),
        _ => Err(PluginError::UnexpectedResponse { request: String::from_str("generate") }),
    }
}

/// The output types a plugin's information lists, none when it lists none.
pub fn supported_output_types(info: PluginInfo) -> (r: Vec<String>)
    ensures
        r@ == match info.supported_output_types {
            Some(v) => v@,
            None => Seq::empty(),
        },
{
    match info.supported_output_types {
        Some(v) => v,
        None => Vec::new(),
    }
}

/// The formats a plugin's information lists, none when it lists none.
pub fn supported_formats(info: PluginInfo) -> (r: Vec<String>)
    ensures
        r@ == match info.supported_formats {
            Some(v) => v@,
            None => Seq::empty(),
        },
{
    match info.supported_formats {
        Some(v) => v,
        None => Vec::new(),
    }
}

/// The error for a response line that does not parse as a response, with
/// the plugin's trimmed stderr.
pub fn unparsable_error(line: String, reason: String, stderr: &str) -> (r: PluginError)
    ensures
        (r matches PluginError::Unparsable { line: l, reason: why, stderr: e } && l == line && why
            == reason && e@ == trim_of(stderr@)),
{
    PluginError::Unparsable { line, reason, stderr: trim_text(stderr) }
}

/// Whether the cache sweep removes the file at `path`, modified at
/// `modified_secs`: a `.json` file older than `max_age_hours` (see
/// `is_expired`).
pub fn is_stale_cache_file(path: &str, modified_secs: u64, now_secs: u64, max_age_hours: u64) -> (r:
    bool)
    ensures
        r == (path_extension(path@) == Some("json"@) && modified_secs + max_age_hours * 3600
            < now_secs),
{
    let json = match extension_of(path) {
        Some(e) => e == String::from_str("json"),
        None => false,
    };
    json && is_expired(modified_secs, now_secs, max_age_hours)
}

/// A cache file is swept when it is older than `max_age_hours`: modified
/// before `now_secs` minus that age (all in seconds since the Unix epoch).
pub fn is_expired(modified_secs: u64, now_secs: u64, max_age_hours: u64) -> (r: bool)
    ensures
        r == (modified_secs + max_age_hours * 3600 < now_secs),
{
    let age: u128 = max_age_hours as u128 * 3600;
    (modified_secs as u128) + age < now_secs as u128
}

} // verus!
