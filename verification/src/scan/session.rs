//! The life of one scan: the messages the scan worker sends, how SwiftBeaver's
//! log lines become such messages, and the state the UI keeps from them.
//!
//! The worker itself (spawning the process, reading its pipes, waiting for it)
//! runs outside this module; it hands each line and each outcome to the
//! functions here and forwards the messages they return.

use vstd::prelude::*;

use super::progress::{
    json_log_spec, parse_json_log, LogPayload, PayloadView, ProgressView, ScanProgress,
};
use super::{DiscoveredBinary, LogEntry, ScanState};
use crate::config::ScanConfig;
use crate::text::{append_str, chars_of, dec, eq_str, push_dec, string_of, string_of_str};

verus! {

/// Messages from the scan worker to the UI.
#[derive(Debug)]
pub enum ScanMessage {
    Progress(ScanProgress),
    Log(LogEntry),
    StateChange(ScanState),
    Error(String),
    /// Run output path from swiftbeaver's "starting" log.
    RunOutputPath { run_id: String, output_path: String },
}

// ---------------------------------------------------------------------------
// Outside helpers: the clock, JSON, case mapping
// ---------------------------------------------------------------------------

/// The current UTC time in RFC 3339 form (`chrono::Utc::now().to_rfc3339()`).
/// It depends on the clock, so nothing is promised of it.
#[verifier::external_body]
pub(crate) fn now_rfc3339() -> (r: String) {
    chrono::Utc::now().to_rfc3339()
}

pub open spec fn opt_s(o: Option<String>) -> Option<Seq<char>> {
    match o {
        Some(s) => Some(s@),
        None => None,
    }
}

/// What `str::to_uppercase` gives: the string mapped by Unicode's uppercase rules.
pub uninterp spec fn unicode_uppercase(s: Seq<char>) -> Seq<char>;

/// `str::to_uppercase`: the result is the name above applied to the argument.
#[verifier::external_body]
pub(crate) fn uppercase(s: &str) -> (r: String)
    ensures
        r@ == unicode_uppercase(s@),
{
    s.to_uppercase()
}

// ---------------------------------------------------------------------------
// Log lines
// ---------------------------------------------------------------------------

/// What a line of SwiftBeaver's output amounts to.
pub enum LogEvent {
    /// Not a structured log record: shown as is.
    Plain,
    /// A progress report.
    Progress(ProgressView),
    /// The run announcement, with run id and output directory.
    Start(Seq<char>, Seq<char>),
    /// A record that carries nothing to show.
    Silent,
    /// A log record, with its level (upper case) and message.
    Entry(Seq<char>, Seq<char>),
}

/// How a line is read: [`json_log_spec`] names the event; a progress event
/// forwards its report, a starting event its run, and any other event a log
/// entry with the level in upper case (the line itself where the record
/// carries no message).
pub open spec fn log_event(line: Seq<char>) -> LogEvent {
    match json_log_spec(line) {
        None => LogEvent::Plain,
        Some((et, payload)) => if et == "progress"@ {
            match payload {
                PayloadView::Progress(p) => LogEvent::Progress(p),
                _ => LogEvent::Silent,
            }
        } else if et == "starting"@ {
            match payload {
                PayloadView::Starting(rid, out) => if out.len() > 0 {
                    LogEvent::Start(rid, out)
                } else {
                    LogEvent::Silent
                },
                _ => LogEvent::Silent,
            }
        } else {
            match payload {
                PayloadView::Message(m) => LogEvent::Entry(unicode_uppercase(et), m),
                _ => LogEvent::Entry(unicode_uppercase(et), line),
            }
        },
    }
}

pub open spec fn is_log(m: ScanMessage, level: Seq<char>, message: Seq<char>) -> bool {
    m matches ScanMessage::Log(e) && e.level@ == level && e.message@ == message
}

pub open spec fn run_line(run_id: Seq<char>, output: Seq<char>) -> Seq<char> {
    "Run ID: "@ + run_id + " → Output: "@ + output
}

/// The messages a line is forwarded as.
pub open spec fn dispatched(msgs: Seq<ScanMessage>, line: Seq<char>, default_level: Seq<char>) -> bool {
    match log_event(line) {
        LogEvent::Plain => if line.len() > 0 {
            msgs.len() == 1 && is_log(msgs[0], default_level, line)
        } else {
            msgs.len() == 0
        },
        LogEvent::Progress(p) => msgs.len() == 1 && (msgs[0] matches ScanMessage::Progress(q) && q@ == p),
        LogEvent::Start(rid, out) => msgs.len() == 2 && (msgs[0] matches ScanMessage::RunOutputPath {
            run_id,
            output_path,
        } && run_id@ == rid && output_path@ == out) && is_log(msgs[1], "INFO"@, run_line(rid, out)),
        LogEvent::Silent => msgs.len() == 0,
        LogEvent::Entry(level, m) => msgs.len() == 1 && is_log(msgs[0], level, m),
    }
}

fn log_message(level: &str, message: &str) -> (m: ScanMessage)
    ensures
        is_log(m, level@, message@),
{
    ScanMessage::Log(LogEntry {
        timestamp: now_rfc3339(),
        level: string_of_str(level),
        message: string_of_str(message),
    })
}

/// Parse one line of SwiftBeaver output into the messages to forward:
/// progress, the run's output path, or a log entry. Lines that are not
/// structured records are shown with `default_level`; empty ones are dropped.
pub fn dispatch_log_line(line: &str, default_level: &str) -> (r: Vec<ScanMessage>)
    ensures
        dispatched(r@, line@, default_level@),
{
    let mut out: Vec<ScanMessage> = Vec::new();
    let (event_type, payload) = match parse_json_log(line) {
        Some(t) => t,
        None => {
            if !line.is_empty() {
                out.push(log_message(default_level, line));
            }
            return out;
        },
    };
    let ec = chars_of(event_type.as_str());
    if eq_str(&ec, "progress") {
        if let LogPayload::Progress(p) = payload {
            out.push(ScanMessage::Progress(p));
        }
    } else if eq_str(&ec, "starting") {
        if let LogPayload::Starting(info) = payload {
            if info.output.as_str().unicode_len() > 0 {
                let mut text = chars_of("Run ID: ");
                append_str(&mut text, info.run_id.as_str());
                append_str(&mut text, " → Output: ");
                append_str(&mut text, info.output.as_str());
                let t = string_of(&text);
                let lm = log_message("INFO", t.as_str());
                out.push(ScanMessage::RunOutputPath { run_id: info.run_id, output_path: info.output });
                out.push(lm);
            }
        }
    } else {
        let up = uppercase(event_type.as_str());
        let lm = match &payload {
            LogPayload::Message(m) => log_message(up.as_str(), m.as_str()),
            _ => log_message(up.as_str(), line),
        };
        out.push(lm);
    }
    out
}

// ---------------------------------------------------------------------------
// The UI's view of a scan
// ---------------------------------------------------------------------------

/// Manages the scan lifecycle as the UI sees it.
#[derive(Debug)]
pub struct ScanManager {
    state: ScanState,
    run_id: Option<String>,
    run_output_path: Option<String>,
    progress: Option<ScanProgress>,
    logs: Vec<LogEntry>,
    error: Option<String>,
    /// Whether the channels to a scan worker are held.
    connected: bool,
}

/// Mathematical model of a [`ScanManager`] (log entries without timestamps).
pub struct ManagerView {
    pub state: ScanState,
    pub run_id: Option<Seq<char>>,
    pub run_output_path: Option<Seq<char>>,
    pub progress: Option<ProgressView>,
    pub logs: Seq<(Seq<char>, Seq<char>)>,
    pub error: Option<Seq<char>>,
    pub connected: bool,
}

pub open spec fn log_views(v: Seq<LogEntry>) -> Seq<(Seq<char>, Seq<char>)> {
    v.map_values(|e: LogEntry| (e.level@, e.message@))
}

impl View for ScanManager {
    type V = ManagerView;

    closed spec fn view(&self) -> ManagerView {
        ManagerView {
            state: self.state,
            run_id: opt_s(self.run_id),
            run_output_path: opt_s(self.run_output_path),
            progress: match self.progress {
                Some(p) => Some(p@),
                None => None,
            },
            logs: log_views(self.logs@),
            error: opt_s(self.error),
            connected: self.connected,
        }
    }
}

/// The view after one message from the worker.
pub open spec fn after_message(v: ManagerView, m: ScanMessage) -> ManagerView {
    match m {
        ScanMessage::Progress(p) => ManagerView { progress: Some(p@), ..v },
        ScanMessage::Log(e) => ManagerView { logs: v.logs.push((e.level@, e.message@)), ..v },
        ScanMessage::StateChange(s) => ManagerView { state: s, ..v },
        ScanMessage::Error(e) => ManagerView {
            logs: v.logs.push(("ERROR"@, e@)),
            error: Some(e@),
            ..v
        },
        ScanMessage::RunOutputPath { run_id, output_path } => ManagerView {
            run_id: Some(run_id@),
            run_output_path: Some(output_path@),
            ..v
        },
    }
}

/// The view after a batch of messages, in order.
pub open spec fn after_messages(v: ManagerView, ms: Seq<ScanMessage>) -> ManagerView
    decreases ms.len(),
{
    if ms.len() == 0 {
        v
    } else {
        after_message(after_messages(v, ms.drop_last()), ms.last())
    }
}

/// Whether a batch holds a state change away from `Running`.
pub open spec fn ends_scan(ms: Seq<ScanMessage>) -> bool {
    exists|i: int| 0 <= i < ms.len() && (#[trigger] ms[i] matches ScanMessage::StateChange(s) && s != ScanState::Running)
}

/// What `poll` makes of a batch: nothing without a worker; otherwise every
/// message applied in order, and the worker released once the scan ended.
pub open spec fn polled(v: ManagerView, ms: Seq<ScanMessage>) -> ManagerView {
    if !v.connected {
        v
    } else {
        ManagerView { connected: !ends_scan(ms), ..after_messages(v, ms) }
    }
}

pub open spec fn idle_view() -> ManagerView {
    ManagerView {
        state: ScanState::Idle,
        run_id: None,
        run_output_path: None,
        progress: None,
        logs: Seq::empty(),
        error: None,
        connected: false,
    }
}

/// The resume checkpoint path of a configuration, when it names one.
pub open spec fn resume_path(c: ScanConfig) -> Option<Seq<char>> {
    match c.resume_from {
        Some(p) => if p@.len() > 0 {
            Some(p@)
        } else {
            None
        },
        None => None,
    }
}

/// Why a scan may not start, when that is decided by the manager and the
/// configuration alone.
pub open spec fn start_refusal(state: ScanState, issues: Seq<Seq<char>>) -> Option<Seq<char>> {
    if state == ScanState::Running {
        Some("Scan already in progress"@)
    } else if issues.len() > 0 {
        Some("Invalid scan configuration: "@ + crate::text::join(issues, "; "@))
    } else {
        None
    }
}

/// The answer to a start request, given the flag issues and what the disk
/// says of the input (it exists) and of the resume checkpoint (it is a file):
/// refusals in the order running, flags, input, resume; the checkpoint only
/// counts when one is named.
pub open spec fn start_outcome(
    state: ScanState,
    issues: Seq<Seq<char>>,
    c: ScanConfig,
    input_exists: bool,
    resume_is_file: bool,
) -> Result<(), Seq<char>> {
    match start_refusal(state, issues) {
        Some(m) => Err(m),
        None => if !input_exists {
            Err("Input file does not exist: "@ + c.input_path@)
        } else if resume_path(c) is Some && !resume_is_file {
            Err("Resume checkpoint file does not exist: "@ + resume_path(c).unwrap())
        } else {
            Ok(())
        },
    }
}

pub open spec fn outcome_view(r: Result<(), String>) -> Result<(), Seq<char>> {
    match r {
        Ok(()) => Ok(()),
        Err(e) => Err(e@),
    }
}

/// Decides a start request from the manager's state, the configuration and
/// the disk's answers: whether the checkpoint names the input, whether the
/// input exists, and whether the resume checkpoint is a file.
pub fn start_decision(
    state: ScanState,
    config: &ScanConfig,
    checkpoint_is_input: bool,
    input_exists: bool,
    resume_is_file: bool,
) -> (r: Result<(), String>)
    ensures
        outcome_view(r) == start_outcome(
            state,
            crate::config::flag_issues(*config, checkpoint_is_input),
            *config,
            input_exists,
            resume_is_file,
        ),
{
    if state == ScanState::Running {
        return Err(string_of_str("Scan already in progress"));
    }
    let issues = crate::config::flag_issues_for(config, checkpoint_is_input);
    if issues.len() > 0 {
        let mut msg = chars_of("Invalid scan configuration: ");
        let joined = crate::text::join_strings(&issues, "; ");
        crate::text::append_chars(&mut msg, &joined);
        return Err(string_of(&msg));
    }
    if !input_exists {
        let mut msg = chars_of("Input file does not exist: ");
        append_str(&mut msg, config.input_path.as_str());
        return Err(string_of(&msg));
    }
    match &config.resume_from {
        Some(p) => {
            if p.as_str().unicode_len() > 0 && !resume_is_file {
                let mut msg = chars_of("Resume checkpoint file does not exist: ");
                append_str(&mut msg, p.as_str());
                return Err(string_of(&msg));
            }
        },
        None => {},
    }
    Ok(())
}

impl ScanManager {
    pub fn new() -> (r: Self)
        ensures
            r@ == idle_view(),
    {
        let r = ScanManager {
            state: ScanState::Idle,
            run_id: None,
            run_output_path: None,
            progress: None,
            logs: Vec::new(),
            error: None,
            connected: false,
        };
        proof {
            assert(log_views(r.logs@) =~= Seq::<(Seq<char>, Seq<char>)>::empty());
        }
        r
    }

    pub fn state(&self) -> (r: ScanState)
        ensures
            r == self@.state,
    {
        self.state
    }

    pub fn progress(&self) -> (r: Option<&ScanProgress>)
        ensures
            match r {
                Some(p) => self@.progress == Some(p@),
                None => self@.progress is None,
            },
    {
        match &self.progress {
            Some(p) => Some(p),
            None => None,
        }
    }

    pub fn logs(&self) -> (r: &[LogEntry])
        ensures
            log_views(r@) == self@.logs,
    {
        self.logs.as_slice()
    }

    pub fn run_output_path(&self) -> (r: Option<&str>)
        ensures
            match r {
                Some(p) => self@.run_output_path == Some(p@),
                None => self@.run_output_path is None,
            },
    {
        match &self.run_output_path {
            Some(p) => Some(p.as_str()),
            None => None,
        }
    }

    pub fn error(&self) -> (r: Option<&str>)
        ensures
            match r {
                Some(e) => self@.error == Some(e@),
                None => self@.error is None,
            },
    {
        match &self.error {
            Some(e) => Some(e.as_str()),
            None => None,
        }
    }

    /// Whether the channels to a scan worker are held.
    pub fn is_connected(&self) -> (r: bool)
        ensures
            r == self@.connected,
    {
        self.connected
    }

    fn apply(&mut self, msg: ScanMessage)
        ensures
            final(self)@ == after_message(old(self)@, msg),
    {
        let ghost m0 = msg;
        let ghost before = log_views(self.logs@);
        match msg {
            ScanMessage::Progress(p) => {
                self.progress = Some(p);
            },
            ScanMessage::Log(entry) => {
                self.logs.push(entry);
                proof {
                    assert(log_views(self.logs@) =~= before.push((entry.level@, entry.message@)));
                }
            },
            ScanMessage::StateChange(s) => {
                self.state = s;
            },
            ScanMessage::Error(e) => {
                let entry = LogEntry { timestamp: now_rfc3339(), level: string_of_str("ERROR"), message: e.clone() };
                self.logs.push(entry);
                proof {
                    assert(log_views(self.logs@) =~= before.push(("ERROR"@, e@)));
                }
                self.error = Some(e);
            },
            ScanMessage::RunOutputPath { run_id, output_path } => {
                self.run_id = Some(run_id);
                self.run_output_path = Some(output_path);
            },
        }
    }

    /// Apply the messages the worker sent since the last poll, in order;
    /// once the scan has ended (a state other than `Running`), the worker's
    /// channels are released. Without a worker nothing changes.
    pub fn poll(&mut self, messages: Vec<ScanMessage>)
        ensures
            final(self)@ == polled(old(self)@, messages@),
    {
        if !self.connected {
            return;
        }
        let ghost all = messages@;
        let ghost start = self@;
        let mut pending = messages;
        let mut ended = false;
        let n = pending.len();
        proof {
            assert(all.take(0) =~= Seq::<ScanMessage>::empty());
        }
        for i in 0..n
            invariant
                n == all.len(),
                pending@.len() == n,
                forall|j: int| i <= j < n ==> pending@[j] == all[j],
                self.connected,
                self@ == (ManagerView { connected: true, ..after_messages(start, all.take(i as int)) }),
                start.connected,
                ended == ends_scan(all.take(i as int)),
        {
            let mut msg = ScanMessage::StateChange(ScanState::Idle);
            pending.set_and_swap(i, &mut msg);
            let ghost m = msg;
            proof {
                assert(all.take(i + 1).drop_last() =~= all.take(i as int));
                assert(all.take(i + 1).last() == m);
            }
            let ends = match &msg {
                ScanMessage::StateChange(s) => *s != ScanState::Running,
                _ => false,
            };
            self.apply(msg);
            if ends {
                ended = true;
            }
            proof {
                let t = all.take(i + 1);
                if ends {
                    assert(t[i as int] == m);
                } else {
                    assert forall|k: int| 0 <= k < t.len() && (#[trigger] t[k] matches ScanMessage::StateChange(s) && s != ScanState::Running) implies ends_scan(all.take(i as int)) by {
                        assert(k < i);
                        assert(t[k] == all.take(i as int)[k]);
                    }
                }
                if ended && !ends {
                    let k = choose|k: int| 0 <= k < all.take(i as int).len() && (#[trigger] all.take(i as int)[k] matches ScanMessage::StateChange(s) && s != ScanState::Running);
                    assert(t[k] == all.take(i as int)[k]);
                }
            }
        }
        proof {
            assert(all.take(n as int) =~= all);
        }
        if ended {
            self.connected = false;
        }
    }

    /// Checks that a scan may start: none is running, the flag combination is
    /// accepted, the input exists on disk, and a resume checkpoint, when one
    /// is named, is an existing file. The disk answers three questions (does
    /// the checkpoint name the input, does the input exist, is the checkpoint
    /// a file); the answer is [`start_decision`]'s for those answers.
    pub fn check_start(&self, config: &ScanConfig) -> (r: Result<(), String>)
        ensures
            exists|same: bool, input_exists: bool, resume_is_file: bool|
                #![trigger start_outcome(self@.state, crate::config::flag_issues(*config, same), *config, input_exists, resume_is_file)]
                (crate::config::checkpoint_matches_input(*config) ==> same)
                && (config.checkpoint_path is None ==> !same)
                && outcome_view(r) == start_outcome(
                    self@.state,
                    crate::config::flag_issues(*config, same),
                    *config,
                    input_exists,
                    resume_is_file,
                ),
    {
        let same = crate::config::checkpoint_names_input(config);
        let input_exists = super::path_exists(config.input_path.as_str());
        let resume_is_file = match &config.resume_from {
            Some(p) => if p.as_str().unicode_len() > 0 {
                crate::ui::config_panel::path_is_file(p.as_str())
            } else {
                true
            },
            None => true,
        };
        start_decision(self.state, config, same, input_exists, resume_is_file)
    }

    /// Starts tracking a new scan of `config` (after `check_start` passed and
    /// the output directory exists): the run's fields are reset, the start is
    /// logged, and the command-line arguments for the worker are returned.
    pub fn begin_scan(&mut self, config: &ScanConfig) -> (args: Vec<String>)
        ensures
            final(self)@ == (ManagerView {
                state: ScanState::Running,
                run_id: None,
                run_output_path: None,
                progress: None,
                logs: seq![("INFO"@, "Starting scan on: "@ + config.input_path@)],
                error: None,
                connected: true,
            }),
            crate::text::string_views(args@) == super::manager::cli_args(*config),
    {
        let mut text = chars_of("Starting scan on: ");
        append_str(&mut text, config.input_path.as_str());
        let entry = LogEntry { timestamp: now_rfc3339(), level: string_of_str("INFO"), message: string_of(&text) };
        self.state = ScanState::Running;
        self.run_id = None;
        self.run_output_path = None;
        self.progress = None;
        self.logs = Vec::new();
        self.logs.push(entry);
        self.error = None;
        self.connected = true;
        proof {
            assert(log_views(self.logs@) =~= seq![("INFO"@, "Starting scan on: "@ + config.input_path@)]);
        }
        super::manager::build_cli_args(config)
    }

    /// Asks to stop the current scan: refused when none is running; otherwise
    /// says whether there is a worker to send the cancel request to.
    pub fn stop(&mut self) -> (r: Result<bool, String>)
        ensures
            final(self)@ == old(self)@,
            old(self)@.state != ScanState::Running ==> r is Err && r->Err_0@ == "No scan in progress"@,
            old(self)@.state == ScanState::Running ==> r == Ok::<bool, String>(old(self)@.connected),
    {
        if self.state != ScanState::Running {
            return Err(string_of_str("No scan in progress"));
        }
        Ok(self.connected)
    }
}

impl Default for ScanManager {
    fn default() -> (r: Self)
        ensures
            r@ == idle_view(),
    {
        ScanManager::new()
    }
}

// ---------------------------------------------------------------------------
// The worker's decisions
// ---------------------------------------------------------------------------

pub open spec fn failed_with(msgs: Seq<ScanMessage>, e: Seq<char>) -> bool {
    msgs.len() == 2 && (msgs[0] matches ScanMessage::Error(x) && x@ == e) && msgs[1]
        == ScanMessage::StateChange(ScanState::Failed)
}

fn fail_with(e: String) -> (r: Vec<ScanMessage>)
    ensures
        failed_with(r@, e@),
        ends_once(r@),
{
    let ghost text = e@;
    let mut r: Vec<ScanMessage> = Vec::new();
    r.push(ScanMessage::Error(e));
    r.push(ScanMessage::StateChange(ScanState::Failed));
    proof {
        lemma_failed_ends_once(r@, text);
    }
    r
}

pub open spec fn not_found_message() -> Seq<char> {
    "swiftbeaver binary not found. Install SwiftBeaver v0.5.1+ on PATH, or place the `swiftbeaver` binary in <exe_dir>/bin/ or ./bin/."@
}

/// What the check before spawning answers: the binary's path when one was
/// found and is compatible, else the two messages that fail the scan with the
/// reason (no binary, or the compatibility issue).
pub open spec fn preflight_answer(discovered: Option<DiscoveredBinary>, r: Result<String, Vec<ScanMessage>>) -> bool {
    match discovered {
        None => r is Err && failed_with(r->Err_0@, not_found_message()),
        Some(d) => match r {
            Ok(p) => p == d.path && d.version is Some && super::version_at_least(d.version.unwrap(), (0, 6, 7)),
            Err(ms) => exists|issue: super::CompatibilityIssue|
                #![trigger issue.message_spec()]
                failed_with(ms@, issue.message_spec()) && match d.version {
                    Some(v) => !super::version_at_least(v, (0, 6, 7)) && issue == super::CompatibilityIssue::UnsupportedVersion { detected: v, minimum: (0, 6, 7) },
                    None => issue is UnparseableVersion,
                },
        },
    }
}

/// Before spawning: the path of the binary to run, or the messages that end
/// the scan (no binary found, or one that is not compatible).
pub fn preflight(discovered: Option<DiscoveredBinary>) -> (r: Result<String, Vec<ScanMessage>>)
    ensures
        preflight_answer(discovered, r),
        r matches Err(ms) ==> ends_once(ms@),
{
    match discovered {
        None => Err(fail_with(string_of_str(
            "swiftbeaver binary not found. Install SwiftBeaver v0.5.1+ on PATH, or place the `swiftbeaver` binary in <exe_dir>/bin/ or ./bin/.",
        ))),
        Some(d) => match d.check_compatibility() {
            Ok(()) => Ok(d.path),
            Err(issue) => {
                let m = issue.user_message();
                Err(fail_with(m))
            },
        },
    }
}

/// Messages when the process could not be spawned.
pub fn spawn_failed(error: &str) -> (r: Vec<ScanMessage>)
    ensures
        failed_with(r@, "Failed to spawn swiftbeaver: "@ + error@),
        ends_once(r@),
{
    let mut m = chars_of("Failed to spawn swiftbeaver: ");
    append_str(&mut m, error);
    fail_with(string_of(&m))
}

/// Messages when an output pipe of the process could not be taken.
pub fn capture_failed(stdout: bool) -> (r: Vec<ScanMessage>)
    ensures
        failed_with(r@, if stdout { "Failed to capture stdout"@ } else { "Failed to capture stderr"@ }),
        ends_once(r@),
{
    if stdout {
        fail_with(string_of_str("Failed to capture stdout"))
    } else {
        fail_with(string_of_str("Failed to capture stderr"))
    }
}

/// The log message announcing the spawned process.
pub fn process_started(pid: u32) -> (r: ScanMessage)
    ensures
        is_log(r, "INFO"@, "Process started with PID: "@ + dec(pid as nat)),
{
    let mut m = chars_of("Process started with PID: ");
    push_dec(&mut m, pid as u64);
    let t = string_of(&m);
    log_message("INFO", t.as_str())
}

/// How the process ended.
#[derive(Debug)]
pub enum ProcessEnd {
    /// The user cancelled and the process was told to stop.
    Cancelled,
    /// The process exited; `code` is its exit code when it has one.
    Exited { success: bool, code: Option<i32> },
    /// Waiting for the process failed.
    WaitFailed(String),
}

/// Decimal text of a signed number.
pub open spec fn signed_text(c: i32) -> Seq<char> {
    if c < 0 {
        "-"@ + dec((-c) as nat)
    } else {
        dec(c as nat)
    }
}

/// `{:?}` of an `Option<i32>`.
pub open spec fn debug_code(code: Option<i32>) -> Seq<char> {
    match code {
        Some(c) => "Some("@ + signed_text(c) + ")"@,
        None => "None"@,
    }
}

fn push_debug_code(out: &mut Vec<char>, code: Option<i32>)
    ensures
        final(out)@ == old(out)@ + debug_code(code),
{
    match code {
        Some(c) => {
            append_str(out, "Some(");
            if c < 0 {
                out.push('-');
                let m: i64 = -(c as i64);
                push_dec(out, m as u64);
            } else {
                push_dec(out, c as u64);
            }
            append_str(out, ")");
            proof {
                reveal_strlit("-");
            }
        },
        None => {
            append_str(out, "None");
        },
    }
}

pub open spec fn final_state(end: ProcessEnd) -> ScanState {
    match end {
        ProcessEnd::Cancelled => ScanState::Cancelled,
        ProcessEnd::Exited { success, .. } => if success {
            ScanState::Completed
        } else {
            ScanState::Failed
        },
        ProcessEnd::WaitFailed(_) => ScanState::Failed,
    }
}

/// The messages the worker sends when the process has ended; the last one
/// always names the final state.
pub fn finish_messages(end: ProcessEnd) -> (r: Vec<ScanMessage>)
    ensures
        r@.len() > 0 && r@.last() == ScanMessage::StateChange(final_state(end)),
        ends_once(r@),
        match end {
            ProcessEnd::Cancelled => r@.len() == 2 && is_log(r@[0], "INFO"@, "Scan cancelled by user"@),
            ProcessEnd::Exited { success, code } => if success {
                r@.len() == 2 && is_log(r@[0], "INFO"@, "Scan completed successfully"@)
            } else {
                r@.len() == 3 && (r@[0] matches ScanMessage::Error(e) && e@ == "Process exited with code: "@ + debug_code(code))
                    && is_log(r@[1], "ERROR"@, "Scan failed: exit code "@ + debug_code(code))
            },
            ProcessEnd::WaitFailed(e) => r@.len() == 2 && (r@[0] matches ScanMessage::Error(x) && x@ == "Wait error: "@ + e@),
        },
{
    let ghost e0 = end;
    let mut r: Vec<ScanMessage> = Vec::new();
    let state = match end {
        ProcessEnd::Cancelled => {
            r.push(log_message("INFO", "Scan cancelled by user"));
            ScanState::Cancelled
        },
        ProcessEnd::Exited { success, code } => {
            if success {
                r.push(log_message("INFO", "Scan completed successfully"));
                ScanState::Completed
            } else {
                let mut a = chars_of("Process exited with code: ");
                push_debug_code(&mut a, code);
                let mut b = chars_of("Scan failed: exit code ");
                push_debug_code(&mut b, code);
                r.push(ScanMessage::Error(string_of(&a)));
                let t = string_of(&b);
                r.push(log_message("ERROR", t.as_str()));
                ScanState::Failed
            }
        },
        ProcessEnd::WaitFailed(e) => {
            let mut a = chars_of("Wait error: ");
            append_str(&mut a, e.as_str());
            r.push(ScanMessage::Error(string_of(&a)));
            ScanState::Failed
        },
    };
    let ghost body = r@;
    assert(no_state_change(body));
    r.push(ScanMessage::StateChange(state));
    assert(r@.drop_last() =~= body);
    r
}


// ---------------------------------------------------------------------------
// What a poll leaves behind
// ---------------------------------------------------------------------------

/// The payload of the last progress report of a batch, if any.
pub open spec fn last_progress(ms: Seq<ScanMessage>) -> Option<ProgressView>
    decreases ms.len(),
{
    if ms.len() == 0 {
        None
    } else {
        match ms.last() {
            ScanMessage::Progress(p) => Some(p@),
            _ => last_progress(ms.drop_last()),
        }
    }
}

/// The state of the last state change of a batch, if any.
pub open spec fn last_state(ms: Seq<ScanMessage>) -> Option<ScanState>
    decreases ms.len(),
{
    if ms.len() == 0 {
        None
    } else {
        match ms.last() {
            ScanMessage::StateChange(s) => Some(s),
            _ => last_state(ms.drop_last()),
        }
    }
}

/// The text of the last error of a batch, if any.
pub open spec fn last_error(ms: Seq<ScanMessage>) -> Option<Seq<char>>
    decreases ms.len(),
{
    if ms.len() == 0 {
        None
    } else {
        match ms.last() {
            ScanMessage::Error(e) => Some(e@),
            _ => last_error(ms.drop_last()),
        }
    }
}

/// The run id and output directory of the last run announcement of a batch, if any.
pub open spec fn last_run(ms: Seq<ScanMessage>) -> Option<(Seq<char>, Seq<char>)>
    decreases ms.len(),
{
    if ms.len() == 0 {
        None
    } else {
        match ms.last() {
            ScanMessage::RunOutputPath { run_id, output_path } => Some((run_id@, output_path@)),
            _ => last_run(ms.drop_last()),
        }
    }
}

/// The log lines a batch adds, in order: each log entry, and each error as
/// an `ERROR` entry.
pub open spec fn logged(ms: Seq<ScanMessage>) -> Seq<(Seq<char>, Seq<char>)>
    decreases ms.len(),
{
    if ms.len() == 0 {
        seq![]
    } else {
        let rest = logged(ms.drop_last());
        match ms.last() {
            ScanMessage::Log(e) => rest.push((e.level@, e.message@)),
            ScanMessage::Error(e) => rest.push(("ERROR"@, e@)),
            _ => rest,
        }
    }
}

pub open spec fn or_else<T>(o: Option<T>, d: T) -> T {
    match o {
        Some(x) => x,
        None => d,
    }
}

proof fn lemma_after_messages_last(v: ManagerView, ms: Seq<ScanMessage>)
    ensures
        after_messages(v, ms).logs == v.logs + logged(ms),
        after_messages(v, ms).progress == (match last_progress(ms) {
            Some(p) => Some(p),
            None => v.progress,
        }),
        after_messages(v, ms).state == or_else(last_state(ms), v.state),
        after_messages(v, ms).error == (match last_error(ms) {
            Some(e) => Some(e),
            None => v.error,
        }),
        after_messages(v, ms).run_id == (match last_run(ms) {
            Some(r) => Some(r.0),
            None => v.run_id,
        }),
        after_messages(v, ms).run_output_path == (match last_run(ms) {
            Some(r) => Some(r.1),
            None => v.run_output_path,
        }),
        after_messages(v, ms).connected == v.connected,
    decreases ms.len(),
{
    if ms.len() == 0 {
        assert(v.logs + logged(ms) =~= v.logs);
    } else {
        lemma_after_messages_last(v, ms.drop_last());
        let rest = logged(ms.drop_last());
        match ms.last() {
            ScanMessage::Log(e) => {
                assert((v.logs + rest).push((e.level@, e.message@)) =~= v.logs + rest.push((e.level@, e.message@)));
            },
            ScanMessage::Error(e) => {
                assert((v.logs + rest).push(("ERROR"@, e@)) =~= v.logs + rest.push(("ERROR"@, e@)));
            },
            _ => {},
        }
    }
}

/// A poll of a connected manager appends the batch's log lines in order, and
/// leaves progress, state, error and run in the payload of the last message
/// of their kind (unchanged where the batch has none). Once a batch ends the
/// scan, the worker is released and later polls change nothing.
pub proof fn lemma_poll_keeps_last_payloads(v: ManagerView, ms: Seq<ScanMessage>, later: Seq<ScanMessage>)
    requires
        v.connected,
    ensures
        polled(v, ms).logs == v.logs + logged(ms),
        polled(v, ms).progress == (match last_progress(ms) {
            Some(p) => Some(p),
            None => v.progress,
        }),
        polled(v, ms).state == or_else(last_state(ms), v.state),
        polled(v, ms).error == (match last_error(ms) {
            Some(e) => Some(e),
            None => v.error,
        }),
        polled(v, ms).run_id == (match last_run(ms) {
            Some(r) => Some(r.0),
            None => v.run_id,
        }),
        polled(v, ms).run_output_path == (match last_run(ms) {
            Some(r) => Some(r.1),
            None => v.run_output_path,
        }),
        polled(v, ms).connected == !ends_scan(ms),
        ends_scan(ms) ==> polled(polled(v, ms), later) == polled(v, ms),
{
    lemma_after_messages_last(v, ms);
}

// ---------------------------------------------------------------------------
// The worker's message sequence
// ---------------------------------------------------------------------------

/// No message of `ms` changes the scan state.
pub open spec fn no_state_change(ms: Seq<ScanMessage>) -> bool {
    forall|i: int| 0 <= i < ms.len() ==> !(#[trigger] ms[i] is StateChange)
}

/// `ms` ends the scan exactly once: its last message, and no other, is a
/// state change, to `Completed`, `Failed` or `Cancelled`.
pub open spec fn ends_once(ms: Seq<ScanMessage>) -> bool {
    &&& ms.len() > 0
    &&& ms.last() matches ScanMessage::StateChange(s) && (s is Completed || s is Failed || s is Cancelled)
    &&& no_state_change(ms.drop_last())
}

/// The messages of several output lines, one batch after another.
pub open spec fn concat_batches(batches: Seq<Seq<ScanMessage>>) -> Seq<ScanMessage>
    decreases batches.len(),
{
    if batches.len() == 0 {
        seq![]
    } else {
        concat_batches(batches.drop_last()) + batches.last()
    }
}

proof fn lemma_dispatched_changes_no_state(ms: Seq<ScanMessage>, line: Seq<char>, level: Seq<char>)
    requires
        dispatched(ms, line, level),
    ensures
        no_state_change(ms),
{
    assert forall|i: int| 0 <= i < ms.len() implies !(#[trigger] ms[i] is StateChange) by {
        match log_event(line) {
            LogEvent::Start(rid, out) => {
                assert(i == 0 || i == 1);
            },
            _ => {
                assert(i == 0);
            },
        }
    }
}

proof fn lemma_failed_ends_once(ms: Seq<ScanMessage>, e: Seq<char>)
    requires
        failed_with(ms, e),
    ensures
        ends_once(ms),
{
    assert(ms.drop_last().len() == 1);
    assert(ms.drop_last()[0] == ms[0]);
}

proof fn lemma_batches_change_no_state(batches: Seq<Seq<ScanMessage>>)
    requires
        forall|i: int| 0 <= i < batches.len() ==> no_state_change(#[trigger] batches[i]),
    ensures
        no_state_change(concat_batches(batches)),
    decreases batches.len(),
{
    if batches.len() > 0 {
        let init = batches.drop_last();
        assert forall|i: int| 0 <= i < init.len() implies no_state_change(#[trigger] init[i]) by {
            assert(init[i] == batches[i]);
        }
        lemma_batches_change_no_state(init);
        let a = concat_batches(init);
        let b = batches.last();
        assert(no_state_change(b));
        assert forall|i: int| 0 <= i < (a + b).len() implies !(#[trigger] (a + b)[i] is StateChange) by {
            if i < a.len() {
                assert((a + b)[i] == a[i]);
            } else {
                assert((a + b)[i] == b[i - a.len()]);
            }
        }
    }
}

/// A spawned run sends the start message, the messages of each output line in
/// turn, and the messages of its end (or of a pipe it could not capture,
/// with no lines). Whatever the lines, the whole sequence ends the scan
/// exactly once, with its last message.
pub proof fn lemma_spawned_run_ends_once(
    pid: u32,
    started: ScanMessage,
    lines: Seq<(Seq<char>, Seq<char>)>,
    batches: Seq<Seq<ScanMessage>>,
    last: Seq<ScanMessage>,
)
    requires
        is_log(started, "INFO"@, "Process started with PID: "@ + dec(pid as nat)),
        batches.len() == lines.len(),
        forall|i: int| 0 <= i < batches.len() ==> dispatched(#[trigger] batches[i], lines[i].0, lines[i].1),
        ends_once(last),
    ensures
        ends_once(seq![started] + concat_batches(batches) + last),
{
    assert forall|i: int| 0 <= i < batches.len() implies no_state_change(#[trigger] batches[i]) by {
        lemma_dispatched_changes_no_state(batches[i], lines[i].0, lines[i].1);
    }
    lemma_batches_change_no_state(batches);
    let head = seq![started] + concat_batches(batches);
    let all = head + last;
    assert(all.last() == last.last());
    assert forall|i: int| 0 <= i < all.drop_last().len() implies !(#[trigger] all.drop_last()[i] is StateChange) by {
        if i == 0 {
            assert(all.drop_last()[i] == started);
        } else if i < head.len() {
            assert(all.drop_last()[i] == concat_batches(batches)[i - 1]);
        } else {
            assert(all.drop_last()[i] == last.drop_last()[i - head.len()]);
        }
    }
}

/// Everything the worker sends for one run, in order: the messages of a failed
/// check before spawning; or those of a failed spawn; or the start message,
/// then either the messages of a pipe that could not be taken, or the
/// messages of each output line followed by the messages of the end.
pub open spec fn run_messages(
    pre: Result<String, Vec<ScanMessage>>,
    spawn: Result<ScanMessage, Vec<ScanMessage>>,
    capture: Option<Vec<ScanMessage>>,
    batches: Seq<Seq<ScanMessage>>,
    finish: Seq<ScanMessage>,
) -> Seq<ScanMessage> {
    match pre {
        Err(ms) => ms@,
        Ok(_) => match spawn {
            Err(ms) => ms@,
            Ok(started) => seq![started] + match capture {
                Some(ms) => ms@,
                None => concat_batches(batches) + finish,
            },
        },
    }
}

/// A whole run ends the scan exactly once, with its last message. With no
/// binary, or an incompatible one, the run is the two messages of the check
/// and nothing is spawned; a failed spawn or pipe fails the scan; otherwise the
/// final state is the one the end gives, `Completed` exactly when the process
/// was not cancelled and exited successfully.
pub proof fn lemma_run_ends_once(
    discovered: Option<DiscoveredBinary>,
    pre: Result<String, Vec<ScanMessage>>,
    spawn_error: Seq<char>,
    pid: u32,
    spawn: Result<ScanMessage, Vec<ScanMessage>>,
    stdout: bool,
    capture: Option<Vec<ScanMessage>>,
    lines: Seq<(Seq<char>, Seq<char>)>,
    batches: Seq<Seq<ScanMessage>>,
    end: ProcessEnd,
    finish: Seq<ScanMessage>,
)
    requires
        preflight_answer(discovered, pre),
        spawn matches Err(ms) ==> failed_with(ms@, "Failed to spawn swiftbeaver: "@ + spawn_error),
        spawn matches Ok(m) ==> is_log(m, "INFO"@, "Process started with PID: "@ + dec(pid as nat)),
        capture matches Some(ms) ==> failed_with(
            ms@,
            if stdout {
                "Failed to capture stdout"@
            } else {
                "Failed to capture stderr"@
            },
        ),
        batches.len() == lines.len(),
        forall|i: int| 0 <= i < batches.len() ==> dispatched(#[trigger] batches[i], lines[i].0, lines[i].1),
        ends_once(finish),
        finish.last() == ScanMessage::StateChange(final_state(end)),
    ensures
        ends_once(run_messages(pre, spawn, capture, batches, finish)),
        pre matches Err(ms) ==> run_messages(pre, spawn, capture, batches, finish) == ms@ && ms@.len() == 2,
        (run_messages(pre, spawn, capture, batches, finish).last() == ScanMessage::StateChange(ScanState::Completed))
            <==> (pre is Ok && spawn is Ok && capture is None && end matches ProcessEnd::Exited { success: true, .. }),
{
    let all = run_messages(pre, spawn, capture, batches, finish);
    match pre {
        Err(ms) => {
            let e = choose|e: Seq<char>| failed_with(ms@, e);
            lemma_failed_ends_once(ms@, e);
        },
        Ok(_) => match spawn {
            Err(ms) => {
                lemma_failed_ends_once(ms@, "Failed to spawn swiftbeaver: "@ + spawn_error);
            },
            Ok(started) => match capture {
                Some(ms) => {
                    let e = if stdout {
                        "Failed to capture stdout"@
                    } else {
                        "Failed to capture stderr"@
                    };
                    lemma_failed_ends_once(ms@, e);
                    lemma_spawned_run_ends_once(pid, started, Seq::<(Seq<char>, Seq<char>)>::empty(), Seq::<Seq<ScanMessage>>::empty(), ms@);
                    assert(concat_batches(Seq::<Seq<ScanMessage>>::empty()) =~= Seq::<ScanMessage>::empty());
                    assert(seq![started] + concat_batches(Seq::<Seq<ScanMessage>>::empty()) + ms@ =~= all);
                },
                None => {
                    lemma_spawned_run_ends_once(pid, started, lines, batches, finish);
                    assert(seq![started] + concat_batches(batches) + finish =~= all);
                    assert(all.last() == finish.last());
                },
            },
        },
    }
}

} // verus!
