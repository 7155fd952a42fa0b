//! Local LLM runner: configuration, the command line that starts it, its status snapshot
//! and its bounded log buffer.
//!
//! Two runner kinds: `llama-cpp` runs a foreground server process; `lms` drives the LM
//! Studio daemon (`lms server start`, then `lms load <model>`).
use crate::text::{
    chars_of, decimal, decimal_string, is_blank, str_equals, string_from_chars,
    trim_chars, trim_end_by, trim_ws, words, words_from,
};
use std::collections::VecDeque;
use vstd::prelude::*;

verus! {

/// Runner kind of a foreground `llama-server`-like process.
pub const RUNNER_TYPE_LLAMA_CPP: &'static str = "llama-cpp";

/// Runner kind of the LM Studio daemon.
pub const RUNNER_TYPE_LMS: &'static str = "lms";

/// Key of the stored configuration.
pub const CONFIG_KEY: &'static str = "llm_runner_config";

/// Most log lines kept.
pub const LOG_BUFFER_LINES: usize = 500;

/// Runner configuration.
#[derive(Debug, Clone)]
pub struct LlmRunnerConfig {
    /// `"llama-cpp"` or `"lms"`.
    pub runner_type: String,
    pub executable_path: String,
    /// Model file (llama-cpp) or model name (lms).
    pub model_path: String,
    pub host: String,
    pub port: u16,
    pub context_size: u32,
    /// GPU layers; 0 runs on the CPU only.
    pub gpu_layers: u32,
    /// Extra arguments, split at whitespace.
    pub extra_args: String,
    /// Explicit OpenAI-compatible endpoint; empty derives one from the runner kind.
    pub base_url: String,
    pub auto_start: bool,
}

/// Default runner kind.
pub fn default_runner_type() -> (s: String)
    ensures
        s@ == "llama-cpp"@,
{
    String::from_str("llama-cpp")
}

/// Default executable.
pub fn default_executable_path() -> (s: String)
    ensures
        s@ == "llama-server"@,
{
    String::from_str("llama-server")
}

/// Default listening host.
pub fn default_host() -> (s: String)
    ensures
        s@ == "127.0.0.1"@,
{
    String::from_str("127.0.0.1")
}

/// Default port.
pub fn default_port() -> (p: u16)
    ensures
        p == 8080,
{
    8080
}

/// Default context length.
pub fn default_context_size() -> (n: u32)
    ensures
        n == 4096,
{
    4096
}

impl LlmRunnerConfig {
    /// The default configuration: `llama-cpp` running `llama-server` on 127.0.0.1:8080 with a
    /// 4096 context, no model, CPU only, no extra arguments, no explicit endpoint.
    pub fn default_config() -> (c: LlmRunnerConfig)
        ensures
            c.runner_type@ == "llama-cpp"@,
            c.executable_path@ == "llama-server"@,
            c.model_path@.len() == 0,
            c.host@ == "127.0.0.1"@,
            c.port == 8080,
            c.context_size == 4096,
            c.gpu_layers == 0,
            c.extra_args@.len() == 0,
            c.base_url@.len() == 0,
            !c.auto_start,
    {
        LlmRunnerConfig {
            runner_type: default_runner_type(),
            executable_path: default_executable_path(),
            model_path: String::new(),
            host: default_host(),
            port: default_port(),
            context_size: default_context_size(),
            gpu_layers: 0,
            extra_args: String::new(),
            base_url: String::new(),
            auto_start: false,
        }
    }
}

/// The endpoint derived from the runner kind: `lms` listens on 127.0.0.1 whatever the host.
pub open spec fn derived_base_url(c: LlmRunnerConfig) -> Seq<char> {
    if c.runner_type@ == "lms"@ {
        "http://127.0.0.1:"@ + decimal(c.port as nat) + "/v1"@
    } else {
        "http://"@ + c.host@ + ":"@ + decimal(c.port as nat) + "/v1"@
    }
}

/// The endpoint in use: the explicit one, trimmed and without trailing `/`, when it is not
/// blank; the derived one otherwise.
pub open spec fn effective_url(c: LlmRunnerConfig) -> Seq<char> {
    let t = trim_ws(c.base_url@);
    if t.len() > 0 {
        trim_end_by(t, |ch: char| ch == '/')
    } else {
        derived_base_url(c)
    }
}

/// The endpoint derived from the runner kind: `http://{host}:{port}/v1`, or
/// `http://127.0.0.1:{port}/v1` for `lms`.
pub fn default_base_url(config: &LlmRunnerConfig) -> (r: String)
    ensures
        r@ == derived_base_url(*config),
{
    let port = decimal_string(config.port as u64);
    if str_equals(config.runner_type.as_str(), RUNNER_TYPE_LMS) {
        let mut s = String::from_str("http://127.0.0.1:");
        s.append(port.as_str());
        s.append("/v1");
        s
    } else {
        let mut s = String::from_str("http://");
        s.append(config.host.as_str());
        s.append(":");
        s.append(port.as_str());
        s.append("/v1");
        s
    }
}

/// The endpoint in use: the explicit `base_url` (trimmed, trailing `/` removed) unless it
/// is blank, else the derived one.
pub fn effective_base_url(config: &LlmRunnerConfig) -> (r: String)
    ensures
        r@ == effective_url(*config),
{
    let raw = chars_of(config.base_url.as_str());
    let t = trim_chars(raw.as_slice());
    if t.len() > 0 {
        let mut end = t.len();
        while end > 0 && t[end - 1] == '/'
            invariant
                end <= t.len(),
                forall|k: int| end <= k < t.len() ==> t@[k] == '/',
            decreases end,
        {
            end = end - 1;
        }
        proof {
            crate::text::lemma_trailing_count_exact(t@, |ch: char| ch == '/', t.len() - end);
            assert(t@.take(end as int) =~= t@.subrange(0, end as int));
        }
        let kept = crate::text::sub_chars(t.as_slice(), 0, end);
        string_from_chars(kept.as_slice())
    } else {
        default_base_url(config)
    }
}

/// Whether the runner is the LM Studio daemon (`lms`).
pub fn is_daemon_runner(config: &LlmRunnerConfig) -> (r: bool)
    ensures
        r == (config.runner_type@ == "lms"@),
{
    str_equals(config.runner_type.as_str(), RUNNER_TYPE_LMS)
}

// ---------------------------------------------------------------------------
// Command line
// ---------------------------------------------------------------------------

/// A program and its arguments.
#[derive(Debug, Clone)]
pub struct CommandSpec {
    pub program: String,
    pub args: Vec<String>,
}

/// Errors of the runner; I/O errors carry their message.
#[derive(Debug, Clone, PartialEq, Eq)]
pub enum LlmRunnerError {
    Other(String),
    Io(String),
    Config(String),
}

/// The arguments that start the runner: `server start --port P` for `lms`;
/// `[-m MODEL] --port P --host H -c CTX [-ngl N]` otherwise (model only when not blank, GPU
/// layers only when positive); then the extra arguments split at whitespace.
pub open spec fn start_args(c: LlmRunnerConfig) -> Seq<Seq<char>> {
    (if c.runner_type@ == "lms"@ {
        seq!["server"@, "start"@, "--port"@, decimal(c.port as nat)]
    } else {
        (if trim_ws(c.model_path@).len() > 0 {
            seq!["-m"@, c.model_path@]
        } else {
            seq![]
        }) + seq![
            "--port"@,
            decimal(c.port as nat),
            "--host"@,
            c.host@,
            "-c"@,
            decimal(c.context_size as nat),
        ] + (if c.gpu_layers > 0 {
            seq!["-ngl"@, decimal(c.gpu_layers as nat)]
        } else {
            seq![]
        })
    }) + words(c.extra_args@)
}

fn push_lit(v: &mut Vec<String>, s: &str)
    ensures
        final(v)@.map_values(|x: String| x@) == old(v)@.map_values(|x: String| x@).push(s@),
{
    let ghost before = v@.map_values(|x: String| x@);
    v.push(String::from_str(s));
    assert(v@.map_values(|x: String| x@) =~= before.push(s@));
}

fn push_owned(v: &mut Vec<String>, s: String)
    ensures
        final(v)@.map_values(|x: String| x@) == old(v)@.map_values(|x: String| x@).push(s@),
{
    let ghost before = v@.map_values(|x: String| x@);
    let ghost sv = s@;
    v.push(s);
    assert(v@.map_values(|x: String| x@) =~= before.push(sv));
}

/// The words of `s` (`split_whitespace`), as strings.
pub fn split_words(s: &str) -> (r: Vec<String>)
    ensures
        r@.map_values(|x: String| x@) == words(s@),
{
    let c = chars_of(s);
    let mut out: Vec<String> = Vec::new();
    let mut i: usize = 0;
    let ghost mut done: Seq<Seq<char>> = seq![];
    assert(out@.map_values(|x: String| x@) =~= done);
    while i < c.len()
        invariant
            i <= c.len(),
            c@ == s@,
            words(s@) == done + words_from(s@, i as int),
            out@.map_values(|x: String| x@) == done,
        decreases c.len() - i,
    {
        if crate::text::char_is_whitespace(c[i]) {
            i = i + 1;
        } else {
            let e = crate::text::scan_run(
                c.as_slice(),
                i,
                c.len(),
                Ghost(crate::text::not_ws()),
                crate::text::is_not_whitespace,
            );
            proof {
                crate::text::lemma_run_len(s@, i as int, s@.len() as nat, crate::text::not_ws());
            }
            let w = crate::text::sub_chars(c.as_slice(), i, e);
            push_owned(&mut out, string_from_chars(w.as_slice()));
            proof {
                let old_done = done;
                done = done.push(w@);
                assert(seq![w@] + words_from(s@, e as int) == words_from(s@, i as int));
                assert(old_done + (seq![w@] + words_from(s@, e as int)) =~= done + words_from(
                    s@,
                    e as int,
                ));
            }
            i = e;
        }
    }
    assert(done + words_from(s@, i as int) =~= done);
    out
}

/// The command that starts the runner: the executable and `start_args`. A blank executable
/// path is refused.
pub fn build_command(config: &LlmRunnerConfig) -> (r: Result<CommandSpec, LlmRunnerError>)
    ensures
        trim_ws(config.executable_path@).len() == 0 <==> r is Err,
        r matches Err(e) ==> e is Config,
        r matches Ok(cmd) ==> cmd.program@ == config.executable_path@ && cmd.args@.map_values(
            |x: String| x@,
        ) == start_args(*config),
{
    let exe = chars_of(config.executable_path.as_str());
    if is_blank(exe.as_slice()) {
        return Err(LlmRunnerError::Config(String::from_str("可执行文件路径不能为空")));
    }
    let mut args: Vec<String> = Vec::new();
    if str_equals(config.runner_type.as_str(), RUNNER_TYPE_LMS) {
        push_lit(&mut args, "server");
        push_lit(&mut args, "start");
        push_lit(&mut args, "--port");
        push_owned(&mut args, decimal_string(config.port as u64));
    } else {
        let model = chars_of(config.model_path.as_str());
        if !is_blank(model.as_slice()) {
            push_lit(&mut args, "-m");
            push_owned(&mut args, config.model_path.clone());
        }
        push_lit(&mut args, "--port");
        push_owned(&mut args, decimal_string(config.port as u64));
        push_lit(&mut args, "--host");
        push_owned(&mut args, config.host.clone());
        push_lit(&mut args, "-c");
        push_owned(&mut args, decimal_string(config.context_size as u64));
        if config.gpu_layers > 0 {
            push_lit(&mut args, "-ngl");
            push_owned(&mut args, decimal_string(config.gpu_layers as u64));
        }
    }
    let ghost head = args@.map_values(|x: String| x@);
    let extra = split_words(config.extra_args.as_str());
    let mut k: usize = 0;
    while k < extra.len()
        invariant
            k <= extra.len(),
            args@.map_values(|x: String| x@) == head + extra@.take(k as int).map_values(
                |x: String| x@,
            ),
        decreases extra.len() - k,
    {
        push_owned(&mut args, extra[k].clone());
        k = k + 1;
        assert(extra@.take(k as int).map_values(|x: String| x@) =~= extra@.take(k - 1).map_values(
            |x: String| x@,
        ).push(extra@[k - 1]@));
    }
    assert(extra@.take(extra.len() as int) =~= extra@);
    assert(args@.map_values(|x: String| x@) =~= start_args(*config));
    Ok(CommandSpec { program: config.executable_path.clone(), args })
}

// ---------------------------------------------------------------------------
// Status and logs
// ---------------------------------------------------------------------------

/// Status snapshot of the runner.
#[derive(Debug, Clone)]
pub struct LlmRunnerStatus {
    pub running: bool,
    pub pid: Option<u32>,
    pub base_url: String,
    pub started_at: Option<i64>,
    pub last_error: Option<String>,
    pub recent_logs: Vec<String>,
    pub config: LlmRunnerConfig,
}

/// The status of a runner that is not running: no process, no start time, no error, no
/// logs, and the endpoint the configuration gives.
pub fn stopped_status(cfg: LlmRunnerConfig) -> (s: LlmRunnerStatus)
    ensures
        !s.running,
        s.pid is None,
        s.started_at is None,
        s.last_error is None,
        s.recent_logs@.len() == 0,
        s.base_url@ == effective_url(cfg),
        s.config == cfg,
{
    let base_url = effective_base_url(&cfg);
    LlmRunnerStatus {
        running: false,
        pid: None,
        base_url,
        started_at: None,
        last_error: None,
        recent_logs: Vec::new(),
        config: cfg,
    }
}

/// The last `LOG_BUFFER_LINES` log lines.
pub struct LogBuffer {
    lines: VecDeque<String>,
}

impl LogBuffer {
    pub closed spec fn view_lines(&self) -> Seq<String> {
        self.lines@
    }

    /// The buffer never holds more than `LOG_BUFFER_LINES` lines.
    #[verifier::type_invariant]
    spec fn within_bound(&self) -> bool {
        self.lines@.len() <= LOG_BUFFER_LINES
    }

    /// An empty buffer.
    pub fn new() -> (b: LogBuffer)
        ensures
            b.view_lines().len() == 0,
    {
        LogBuffer { lines: VecDeque::new() }
    }

    /// Appends a line, dropping the oldest one when the buffer is full.
    pub fn append_log(&mut self, line: String)
        ensures
            final(self).view_lines().len() <= LOG_BUFFER_LINES,
            final(self).view_lines() == if old(self).view_lines().len() >= LOG_BUFFER_LINES {
                old(self).view_lines().drop_first().push(line)
            } else {
                old(self).view_lines().push(line)
            },
    {
        proof {
            use_type_invariant(&*self);
        }
        let ghost lv = line;
        let mut lines: VecDeque<String> = VecDeque::new();
        std::mem::swap(&mut lines, &mut self.lines);
        if lines.len() >= LOG_BUFFER_LINES {
            lines.pop_front();
        }
        lines.push_back(line);
        self.lines = lines;
        assert(self.lines@ =~= if old(self).view_lines().len() >= LOG_BUFFER_LINES {
            old(self).view_lines().drop_first().push(lv)
        } else {
            old(self).view_lines().push(lv)
        });
    }

    /// The kept lines, oldest first.
    pub fn lines(&self) -> (r: &VecDeque<String>)
        ensures
            r@ == self.view_lines(),
            r@.len() <= LOG_BUFFER_LINES,
    {
        proof {
            use_type_invariant(self);
        }
        &self.lines
    }
}

/// Law: the log buffer never holds more than `LOG_BUFFER_LINES` lines, and after any append
/// the newest line is last.
pub proof fn law_log_buffer_bounded(before: Seq<String>, line: String)
    requires
        before.len() <= LOG_BUFFER_LINES,
    ensures
        ({
            let after = if before.len() >= LOG_BUFFER_LINES {
                before.drop_first().push(line)
            } else {
                before.push(line)
            };
            after.len() <= LOG_BUFFER_LINES && after.last() == line
        }),
{
}


/// Whether a character may not appear in an executable path: `|`, `;` or `&`.
pub open spec fn shell_meta(c: char) -> bool {
    c == '|' || c == ';' || c == '&'
}

/// Checks a configuration before it is saved: the executable path must not be blank, the
/// host must not be blank unless the runner is `lms`, the port must not be 0, and the
/// executable path must not hold `|`, `;` or `&`. The first failed check is reported.
pub fn validate_config(req: &LlmRunnerConfig) -> (r: Result<(), crate::error::IpcError>)
    ensures
        trim_ws(req.executable_path@).len() == 0 ==> (r matches Err(
            crate::error::IpcError::BadRequest(m),
        ) && m@ == "可执行文件路径不能为空"@),
        trim_ws(req.executable_path@).len() > 0 && req.runner_type@ != RUNNER_TYPE_LMS@
            && trim_ws(req.host@).len() == 0 ==> (r matches Err(
            crate::error::IpcError::BadRequest(m),
        ) && m@ == "监听 host 不能为空"@),
        trim_ws(req.executable_path@).len() > 0 && !(req.runner_type@ != RUNNER_TYPE_LMS@
            && trim_ws(req.host@).len() == 0) && req.port == 0 ==> (r matches Err(
            crate::error::IpcError::BadRequest(m),
        ) && m@ == "监听端口不能为 0"@),
        trim_ws(req.executable_path@).len() > 0 && !(req.runner_type@ != RUNNER_TYPE_LMS@
            && trim_ws(req.host@).len() == 0) && req.port != 0 && (exists|i: int|
            0 <= i < req.executable_path@.len() && shell_meta(#[trigger] req.executable_path@[i]))
            ==> (r matches Err(crate::error::IpcError::BadRequest(m)) && m@
            == "可执行文件路径包含非法字符（| ; &）"@),
        trim_ws(req.executable_path@).len() > 0 && !(req.runner_type@ != RUNNER_TYPE_LMS@
            && trim_ws(req.host@).len() == 0) && req.port != 0 && !(exists|i: int|
            0 <= i < req.executable_path@.len() && shell_meta(#[trigger] req.executable_path@[i]))
            ==> r is Ok,
{
    let exe = chars_of(req.executable_path.as_str());
    let exe_t = trim_chars(exe.as_slice());
    if exe_t.len() == 0 {
        return Err(crate::error::IpcError::BadRequest(String::from_str("可执行文件路径不能为空")));
    }
    let host = chars_of(req.host.as_str());
    let host_t = trim_chars(host.as_slice());
    if !str_equals(req.runner_type.as_str(), RUNNER_TYPE_LMS) && host_t.len() == 0 {
        return Err(crate::error::IpcError::BadRequest(String::from_str("监听 host 不能为空")));
    }
    if req.port == 0 {
        return Err(crate::error::IpcError::BadRequest(String::from_str("监听端口不能为 0")));
    }
    let mut k: usize = 0;
    while k < exe.len()
        invariant
            k <= exe.len(),
            exe@ == req.executable_path@,
            trim_ws(req.executable_path@).len() > 0,
            !(req.runner_type@ != RUNNER_TYPE_LMS@ && trim_ws(req.host@).len() == 0),
            req.port != 0,
            forall|j: int| 0 <= j < k ==> !shell_meta(exe@[j]),
        decreases exe.len() - k,
    {
        let c = exe[k];
        if c == '|' || c == ';' || c == '&' {
            assert(shell_meta(req.executable_path@[k as int]));
            return Err(
                crate::error::IpcError::BadRequest(
                    String::from_str("可执行文件路径包含非法字符（| ; &）"),
                ),
            );
        }
        k = k + 1;
    }
    Ok(())
}

/// The models endpoint a connection test calls: the base URL without trailing `/`, then
/// `/models`.
pub fn models_url(base_url: &str) -> (r: String)
    ensures
        r@ == trim_end_by(base_url@, |c: char| c == '/') + "/models"@,
{
    let b = chars_of(base_url);
    let mut end = b.len();
    while end > 0 && b[end - 1] == '/'
        invariant
            end <= b.len(),
            forall|k: int| end <= k < b.len() ==> b@[k] == '/',
        decreases end,
    {
        end = end - 1;
    }
    proof {
        crate::text::lemma_trailing_count_exact(b@, |c: char| c == '/', b.len() - end);
        assert(b@.take(end as int) =~= b@.subrange(0, end as int));
    }
    let kept = crate::text::sub_chars(b.as_slice(), 0, end);
    let mut s = string_from_chars(kept.as_slice());
    s.append("/models");
    s
}


/// The message of a runner error.
pub open spec fn runner_error_message(e: LlmRunnerError) -> Seq<char> {
    match e {
        LlmRunnerError::Other(m) => "LLM 启动器错误: "@ + m@,
        LlmRunnerError::Io(m) => "IO 错误: "@ + m@,
        LlmRunnerError::Config(m) => "配置错误: "@ + m@,
    }
}

impl LlmRunnerError {
    /// The message the error is shown with.
    pub fn message(&self) -> (r: String)
        ensures
            r@ == runner_error_message(*self),
    {
        match self {
            LlmRunnerError::Other(m) => crate::error::with_prefix("LLM 启动器错误: ", m),
            LlmRunnerError::Io(m) => crate::error::with_prefix("IO 错误: ", m),
            LlmRunnerError::Config(m) => crate::error::with_prefix("配置错误: ", m),
        }
    }
}

/// The command that stops the `lms` daemon: `server stop`.
pub fn stop_command(config: &LlmRunnerConfig) -> (r: CommandSpec)
    ensures
        r.program@ == config.executable_path@,
        r.args@.map_values(|x: String| x@) == seq!["server"@, "stop"@],
{
    let mut args: Vec<String> = Vec::new();
    push_lit(&mut args, "server");
    push_lit(&mut args, "stop");
    assert(args@.map_values(|x: String| x@) =~= seq!["server"@, "stop"@]);
    CommandSpec { program: config.executable_path.clone(), args }
}

/// The command that loads the model into the `lms` daemon: `load MODEL` and the extra
/// arguments split at whitespace.
pub fn load_command(config: &LlmRunnerConfig) -> (r: CommandSpec)
    ensures
        r.program@ == config.executable_path@,
        r.args@.map_values(|x: String| x@) == seq!["load"@, config.model_path@] + words(
            config.extra_args@,
        ),
{
    let mut args: Vec<String> = Vec::new();
    push_lit(&mut args, "load");
    push_owned(&mut args, config.model_path.clone());
    let extra = split_words(config.extra_args.as_str());
    let mut k: usize = 0;
    let ghost head = seq!["load"@, config.model_path@];
    assert(args@.map_values(|x: String| x@) =~= head);
    while k < extra.len()
        invariant
            k <= extra.len(),
            head == seq!["load"@, config.model_path@],
            extra@.map_values(|x: String| x@) == words(config.extra_args@),
            args@.map_values(|x: String| x@) == head + extra@.map_values(|x: String| x@).take(
                k as int,
            ),
        decreases extra.len() - k,
    {
        let ghost before = args@.map_values(|x: String| x@);
        push_owned(&mut args, extra[k].clone());
        assert(extra@.map_values(|x: String| x@).take(k + 1) =~= extra@.map_values(
            |x: String| x@,
        ).take(k as int).push(extra@[k as int]@));
        k = k + 1;
    }
    assert(extra@.map_values(|x: String| x@).take(extra.len() as int) =~= extra@.map_values(
        |x: String| x@,
    ));
    CommandSpec { program: config.executable_path.clone(), args }
}

/// What the runner knows of its process besides the process itself: whether it runs, the
/// id of a foreground process, when it started, the last error and the recent log lines.
pub struct RunnerRecord {
    pub running: bool,
    pub pid: Option<u32>,
    pub started_at: Option<i64>,
    pub last_error: Option<String>,
    pub logs: LogBuffer,
}

impl RunnerRecord {
    /// A runner that never ran.
    pub fn new() -> (r: RunnerRecord)
        ensures
            !r.running,
            r.pid is None,
            r.started_at is None,
            r.last_error is None,
            r.logs.view_lines().len() == 0,
    {
        RunnerRecord {
            running: false,
            pid: None,
            started_at: None,
            last_error: None,
            logs: LogBuffer::new(),
        }
    }

    /// A start that failed before any process ran: the error is kept and, when `logged`,
    /// also written to the log as `[error] ...`.
    pub fn record_start_failure(&mut self, msg: String, logged: bool)
        ensures
            final(self).last_error == Some(msg),
            final(self).running == old(self).running,
            final(self).pid == old(self).pid,
            final(self).started_at == old(self).started_at,
            logged ==> final(self).logs.view_lines().last()@ == "[error] "@ + msg@,
            !logged ==> final(self).logs.view_lines() == old(self).logs.view_lines(),
    {
        if logged {
            let line = crate::error::with_prefix("[error] ", &msg);
            self.logs.append_log(line);
        }
        self.last_error = Some(msg);
    }

    /// A foreground process started: it runs since `now`, the last error is cleared and
    /// `[info] 进程已启动 (pid=...)` is logged.
    pub fn record_foreground_start(&mut self, pid: u32, now: i64)
        ensures
            final(self).running,
            final(self).pid == Some(pid),
            final(self).started_at == Some(now),
            final(self).last_error is None,
            final(self).logs.view_lines().last()@ == "[info] 进程已启动 (pid="@ + decimal(
                pid as nat,
            ) + ")"@,
    {
        self.running = true;
        self.pid = Some(pid);
        self.started_at = Some(now);
        self.last_error = None;
        let mut v = chars_of("[info] 进程已启动 (pid=");
        crate::text::push_decimal(&mut v, pid as u64);
        v.push(')');
        proof {
            reveal_strlit(")");
        }
        assert(v@ =~= "[info] 进程已启动 (pid="@ + decimal(pid as nat) + ")"@);
        self.logs.append_log(string_from_chars(v.as_slice()));
    }

    /// The `lms` daemon started at `now`: it runs, the last error is cleared and
    /// `[info] lms server start 已返回` is logged.
    pub fn record_daemon_start(&mut self, now: i64)
        ensures
            final(self).running,
            final(self).pid == old(self).pid,
            final(self).started_at == Some(now),
            final(self).last_error is None,
            final(self).logs.view_lines().last()@ == "[info] lms server start 已返回"@,
    {
        self.running = true;
        self.started_at = Some(now);
        self.last_error = None;
        self.logs.append_log(String::from_str("[info] lms server start 已返回"));
    }

    /// Lines a command printed: each non-empty one is logged in order; returns them (they
    /// are also sent to the interface).
    pub fn record_output(&mut self, lines: &Vec<String>) -> (shown: Vec<String>)
        ensures
            final(self).running == old(self).running,
            final(self).pid == old(self).pid,
            final(self).started_at == old(self).started_at,
            final(self).last_error == old(self).last_error,
            shown@ == lines@.filter(|l: String| l@.len() > 0),
    {
        let ghost pred = |l: String| l@.len() > 0;
        let mut shown: Vec<String> = Vec::new();
        let mut k: usize = 0;
        while k < lines.len()
            invariant
                k <= lines.len(),
                self.running == old(self).running,
                self.pid == old(self).pid,
                self.started_at == old(self).started_at,
                self.last_error == old(self).last_error,
                pred == (|l: String| l@.len() > 0),
                shown@ == lines@.take(k as int).filter(pred),
            decreases lines.len() - k,
        {
            proof {
                reveal_with_fuel(Seq::filter, 1);
                assert(lines@.take(k + 1).drop_last() =~= lines@.take(k as int));
            }
            let c = chars_of(lines[k].as_str());
            if c.len() > 0 {
                self.logs.append_log(lines[k].clone());
                shown.push(lines[k].clone());
            }
            k = k + 1;
        }
        assert(lines@.take(lines.len() as int) =~= lines@);
        shown
    }

    /// The process is gone or the runner was stopped: it no longer runs and has no start
    /// time or process; `note`, when given, is logged.
    pub fn record_stopped(&mut self, note: Option<String>)
        ensures
            !final(self).running,
            final(self).pid is None,
            final(self).started_at is None,
            final(self).last_error == old(self).last_error,
            match note {
                Some(n) => final(self).logs.view_lines().last() == n,
                None => final(self).logs.view_lines() == old(self).logs.view_lines(),
            },
    {
        self.running = false;
        self.pid = None;
        self.started_at = None;
        match note {
            Some(n) => self.logs.append_log(n),
            None => {},
        }
    }

    /// Whether the runner still runs, given whether its foreground process is alive
    /// (ignored for the daemon): a foreground process found gone leaves the record stopped.
    pub fn check_running(&mut self, daemon: bool, process_alive: bool) -> (r: bool)
        ensures
            r == (old(self).running && (daemon || process_alive)),
            final(self).running == r,
            r ==> final(self).pid == old(self).pid && final(self).started_at == old(self).started_at,
            !old(self).running ==> final(self).started_at == old(self).started_at,
            old(self).running && !daemon && !process_alive ==> final(self).started_at is None
                && final(self).pid is None,
            final(self).last_error == old(self).last_error,
            final(self).logs.view_lines() == old(self).logs.view_lines(),
    {
        if !self.running {
            return false;
        }
        if daemon || process_alive {
            return true;
        }
        self.running = false;
        self.pid = None;
        self.started_at = None;
        false
    }

    /// The status snapshot, with the configuration and its endpoint.
    pub fn status(&self, config: LlmRunnerConfig) -> (s: LlmRunnerStatus)
        ensures
            s.running == self.running,
            s.pid == self.pid,
            s.started_at == self.started_at,
            s.last_error == self.last_error,
            s.recent_logs@ == self.logs.view_lines(),
            s.base_url@ == effective_url(config),
            s.config == config,
    {
        let logs = self.logs.lines();
        let mut copy: Vec<String> = Vec::new();
        let mut k: usize = 0;
        while k < logs.len()
            invariant
                k <= logs.len(),
                copy@ == logs@.take(k as int),
            decreases logs.len() - k,
        {
            copy.push(logs[k].clone());
            k = k + 1;
            assert(copy@ =~= logs@.take(k as int));
        }
        assert(logs@.take(logs.len() as int) =~= logs@);
        LlmRunnerStatus {
            running: self.running,
            pid: self.pid,
            base_url: effective_base_url(&config),
            started_at: self.started_at,
            last_error: match &self.last_error {
                Some(e) => Some(e.clone()),
                None => None,
            },
            recent_logs: copy,
            config,
        }
    }
}

impl LlmRunnerConfig {
    /// A field-by-field copy of the configuration.
    pub fn copied(&self) -> (c: LlmRunnerConfig)
        ensures
            c == *self,
    {
        LlmRunnerConfig {
            runner_type: self.runner_type.clone(),
            executable_path: self.executable_path.clone(),
            model_path: self.model_path.clone(),
            host: self.host.clone(),
            port: self.port,
            context_size: self.context_size,
            gpu_layers: self.gpu_layers,
            extra_args: self.extra_args.clone(),
            base_url: self.base_url.clone(),
            auto_start: self.auto_start,
        }
    }
}

/// The runner's state apart from its process: the configuration in use and the record of
/// what happened to the process.
pub struct LlmRunnerState {
    pub config: LlmRunnerConfig,
    pub record: RunnerRecord,
}

impl LlmRunnerState {
    /// A runner with the given configuration that never ran.
    pub fn new(config: LlmRunnerConfig) -> (s: LlmRunnerState)
        ensures
            s.config == config,
            !s.record.running,
            s.record.pid is None,
            s.record.started_at is None,
            s.record.last_error is None,
            s.record.logs.view_lines().len() == 0,
    {
        LlmRunnerState { config, record: RunnerRecord::new() }
    }

    /// The endpoint in use (see `effective_base_url`).
    pub fn base_url(&self) -> (r: String)
        ensures
            r@ == effective_url(self.config),
    {
        effective_base_url(&self.config)
    }

    /// Replaces the configuration; a running process keeps running until restarted.
    pub fn update_config(&mut self, config: LlmRunnerConfig)
        ensures
            final(self).config == config,
            final(self).record == old(self).record,
    {
        self.config = config;
    }

    /// Whether the runner still runs, given whether its foreground process is alive: the
    /// daemon is trusted to run while it is marked so; a foreground process found gone
    /// leaves the state stopped.
    pub fn is_running(&mut self, process_alive: bool) -> (r: bool)
        ensures
            final(self).config == old(self).config,
            r == (old(self).record.running && (old(self).config.runner_type@ == "lms"@
                || process_alive)),
            final(self).record.running == r,
            !r ==> final(self).record.pid is None || !old(self).record.running,
            final(self).record.logs.view_lines() == old(self).record.logs.view_lines(),
    {
        let daemon = is_daemon_runner(&self.config);
        self.record.check_running(daemon, process_alive)
    }

    /// Appends a log line, dropping the oldest one when the buffer is full.
    pub fn append_log(&mut self, line: String)
        ensures
            final(self).config == old(self).config,
            final(self).record.logs.view_lines() == if old(self).record.logs.view_lines().len()
                >= LOG_BUFFER_LINES {
                old(self).record.logs.view_lines().drop_first().push(line)
            } else {
                old(self).record.logs.view_lines().push(line)
            },
    {
        self.record.logs.append_log(line);
    }

    /// The status snapshot, after checking whether the process still runs.
    pub fn status(&mut self, process_alive: bool) -> (s: LlmRunnerStatus)
        ensures
            final(self).config == old(self).config,
            s.running == (old(self).record.running && (old(self).config.runner_type@ == "lms"@
                || process_alive)),
            s.running == final(self).record.running,
            s.pid == final(self).record.pid,
            s.started_at == final(self).record.started_at,
            s.last_error == final(self).record.last_error,
            s.recent_logs@ == final(self).record.logs.view_lines(),
            s.base_url@ == effective_url(old(self).config),
            s.config == old(self).config,
    {
        self.is_running(process_alive);
        let config = self.config.copied();
        self.record.status(config)
    }
}

/// `{what} 失败 (exit={code}): {stderr}`, the report of a command that exited with an error
/// (`code` is -1 when the process gave none).
pub fn exit_failure_message(what: &str, code: i32, stderr: &str) -> (r: String)
    ensures
        r@ == what@ + " 失败 (exit="@ + crate::text::signed_decimal(code as int) + "): "@ + stderr@,
{
    let mut v = chars_of(what);
    let a = chars_of(" 失败 (exit=");
    crate::text::extend_chars(&mut v, a.as_slice());
    crate::text::push_signed_decimal(&mut v, code as i64);
    let b = chars_of("): ");
    crate::text::extend_chars(&mut v, b.as_slice());
    let c = chars_of(stderr);
    crate::text::extend_chars(&mut v, c.as_slice());
    string_from_chars(v.as_slice())
}

} // verus!
