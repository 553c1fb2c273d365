//! IPC frames between the CLI and `netpland`.
//!
//! A frame is size-prefixed: a little-endian `u32` body length, then the body.
//! The body holds a root offset (8), the `PNET` file identifier, the protocol
//! version, the request identifier that correlates a response with its
//! request, the payload type (the discriminator of the payload union), and the
//! payload's fields. The envelope keeps the size prefix, root offset and file
//! identifier positions of a size-prefixed FlatBuffers buffer, so the
//! identifier is checked with `flatbuffers::buffer_has_identifier`; the fields
//! themselves are this library's own length-prefixed little-endian encoding,
//! not FlatBuffers tables.

use vstd::prelude::*;
use vstd::string::StringSliceAdditionalSpecFns;

use crate::codec::{get_items, lemma_get_items, put_items, read_items, views, write_items, Codec};
use crate::config::ConfigFormat;
use crate::error::Error;
use crate::model::{
    AdapterInfo, AdapterView, Capability, CapabilityView, WifiInterfaceStatus, WifiInterfaceView,
    WifiNetwork, WifiNetworkView,
};
use crate::plan::{Operation, OperationView};
use crate::text::{dec, decimal, owned, append};
use crate::wire::{
    contains_at, get_bool, get_bytes, get_opt_text, get_opt_u32, get_text, get_u32, get_u64,
    get_u8, le32, le64, lemma_get_bool, lemma_get_bytes, lemma_get_opt_text, lemma_get_opt_u32,
    lemma_get_text, lemma_get_u32, lemma_get_u64, lemma_get_u8, lemma_split, lemma_subrange,
    lemma_u32_at, lemma_u64_at, lemma_whole, max_len, put_bool, put_bytes, put_opt_text,
    put_opt_u32, put_text, put_u32, put_u64, put_u8, read_bool, read_bytes, read_opt_text,
    read_opt_u32, read_text, read_u32, read_u32_at, read_u64, read_u64_at, read_u8, u32_at, u64_at,
    write_bool, write_bytes, write_opt_text, write_opt_u32, write_text, write_u32, write_u64,
    write_u8,
};
use crate::PROTOCOL_VERSION;

verus! {

/// Maximum accepted frame body size.
pub const MAX_FRAME_SIZE: usize = 16777216;

/// A decoded request or response with its correlation identifier.
#[derive(Clone, Debug, PartialEq, Eq)]
pub struct Frame<T> {
    /// Correlation identifier supplied by the client.
    pub request_id: u64,
    /// Typed payload.
    pub payload: T,
}

/// Configuration operation requested from the daemon.
#[derive(Clone, Copy, Debug, PartialEq, Eq, Structural)]
pub enum ConfigAction {
    /// Decode and validate only.
    Validate,
    /// Produce a deterministic operation plan.
    Plan,
    /// Submit an apply job.
    Apply,
}

/// Requests accepted by `netpland`.
#[derive(Clone, Debug, PartialEq, Eq)]
pub enum Request {
    /// Health and version probe.
    Ping,
    /// Query daemon uptime and in-memory job counters.
    DaemonStatus,
    /// Query image capabilities.
    Capabilities,
    /// Enumerate network adapters.
    ListAdapters,
    /// Validate, plan, or apply a configuration document.
    Config {
        /// Requested action.
        action: ConfigAction,
        /// Document encoding.
        format: ConfigFormat,
        /// UTF-8 YAML or JSON bytes.
        document: Vec<u8>,
        /// Refuse system mutations when true.
        dry_run: bool,
    },
    /// Get the current state of an apply job.
    JobStatus {
        /// Job identifier returned by an apply request.
        job_id: String,
    },
    /// List apply jobs retained by the running daemon.
    ListJobs {
        /// Optional exact state filter.
        state: Option<JobState>,
        /// Maximum number of jobs to return.
        limit: u32,
    },
    /// Query current adapter and Wi-Fi connection state.
    NetworkStatus,
    /// Query current Wi-Fi interface connection state.
    WifiStatus {
        /// Optional Windows interface index filter.
        if_index: Option<u32>,
    },
    /// Scan or read cached Wi-Fi networks.
    WifiScan {
        /// Optional Windows interface index filter.
        if_index: Option<u32>,
        /// Request a native scan before reading results.
        refresh: bool,
        /// Maximum scan completion wait in milliseconds.
        timeout_ms: u32,
    },
}

/// Configuration validation diagnostic.
#[derive(Clone, Debug, PartialEq, Eq)]
pub struct ValidationIssue {
    /// Optional field path.
    pub path: Option<String>,
    /// Human-readable diagnostic.
    pub message: String,
}

/// Apply job state.
#[derive(Clone, Copy, Debug, PartialEq, Eq, Structural)]
pub enum JobState {
    /// Waiting for execution.
    Queued,
    /// Currently running.
    Running,
    /// Completed successfully.
    Succeeded,
    /// Failed without completing.
    Failed,
    /// Failed and restored the captured state.
    RolledBack,
}

/// Summary of an apply job retained by the running daemon.
#[derive(Clone, Debug, PartialEq, Eq)]
pub struct JobSummary {
    /// Job identifier returned by apply.
    pub job_id: String,
    /// Current job state.
    pub state: JobState,
    /// Optional progress or completion message.
    pub message: Option<String>,
    /// Creation timestamp in Unix milliseconds.
    pub created_at_unix_ms: u64,
    /// Last update timestamp in Unix milliseconds.
    pub updated_at_unix_ms: u64,
}

/// Stable daemon error code.
#[derive(Clone, Copy, Debug, PartialEq, Eq, Structural)]
pub enum ErrorCode {
    /// Request does not match the protocol.
    InvalidRequest,
    /// Configuration is invalid.
    InvalidConfig,
    /// Required capability is unavailable.
    Unsupported,
    /// Caller is not authorized.
    PermissionDenied,
    /// Requested object does not exist.
    NotFound,
    /// Unexpected daemon failure.
    Internal,
}

/// Responses returned by `netpland`.
#[derive(Clone, Debug, PartialEq, Eq)]
pub enum Response {
    /// Successful ping.
    Pong {
        /// Daemon package version.
        daemon_version: String,
        /// Daemon protocol version.
        protocol_version: u32,
    },
    /// Daemon process status and in-memory job counters.
    DaemonStatus {
        /// Daemon package version.
        daemon_version: String,
        /// Daemon protocol version.
        protocol_version: u32,
        /// Daemon start timestamp in Unix milliseconds.
        started_at_unix_ms: u64,
        /// Monotonic uptime in milliseconds.
        uptime_ms: u64,
        /// Total number of retained jobs.
        total_jobs: u32,
        /// Retained queued jobs.
        queued_jobs: u32,
        /// Retained running jobs.
        running_jobs: u32,
        /// Retained successful jobs.
        succeeded_jobs: u32,
        /// Retained failed jobs.
        failed_jobs: u32,
        /// Retained rolled-back jobs.
        rolled_back_jobs: u32,
    },
    /// Platform capability report.
    Capabilities(Vec<Capability>),
    /// Adapter inventory.
    Adapters(Vec<AdapterInfo>),
    /// Configuration validation result.
    Validation {
        /// Whether the document is valid.
        valid: bool,
        /// Diagnostics; empty when valid.
        issues: Vec<ValidationIssue>,
    },
    /// Deterministic plan.
    Plan(Vec<Operation>),
    /// Apply job accepted by the daemon.
    Apply {
        /// Job identifier.
        job_id: String,
        /// Initial job state.
        state: JobState,
        /// Planned operations.
        operations: Vec<Operation>,
    },
    /// Current apply job state.
    JobStatus {
        /// Job identifier.
        job_id: String,
        /// Current state.
        state: JobState,
        /// Optional diagnostic.
        message: Option<String>,
    },
    /// Apply jobs retained by the running daemon.
    Jobs {
        /// Jobs after filtering, ordering, and limiting.
        jobs: Vec<JobSummary>,
        /// Matching count before the limit is applied.
        total: u32,
    },
    /// Current local adapter and Wi-Fi connection state.
    NetworkStatus {
        /// Snapshot timestamp in Unix milliseconds.
        captured_at_unix_ms: u64,
        /// Current network adapter inventory.
        adapters: Vec<AdapterInfo>,
        /// Current Wi-Fi interface states.
        wifi_interfaces: Vec<WifiInterfaceStatus>,
        /// Optional Wi-Fi discovery error without failing adapter status.
        wifi_error: Option<String>,
    },
    /// Current Wi-Fi interface states.
    WifiStatus(Vec<WifiInterfaceStatus>),
    /// Networks returned by native Wi-Fi discovery.
    WifiNetworks {
        /// Whether scan completion was observed before results were read.
        refreshed: bool,
        /// Available networks, sorted by connection and signal quality.
        networks: Vec<WifiNetwork>,
    },
    /// Typed daemon rejection.
    Error {
        /// Stable error code.
        code: ErrorCode,
        /// Human-readable diagnostic.
        message: String,
    },
}

/// Mathematical view of a [`Request`].
pub enum RequestView {
    Ping,
    DaemonStatus,
    Capabilities,
    ListAdapters,
    Config { action: ConfigAction, format: ConfigFormat, document: Seq<u8>, dry_run: bool },
    JobStatus { job_id: Seq<char> },
    ListJobs { state: Option<JobState>, limit: u32 },
    NetworkStatus,
    WifiStatus { if_index: Option<u32> },
    WifiScan { if_index: Option<u32>, refresh: bool, timeout_ms: u32 },
}

/// Mathematical view of a [`Response`].
pub enum ResponseView {
    Pong { daemon_version: Seq<char>, protocol_version: u32 },
    DaemonStatus {
        daemon_version: Seq<char>,
        protocol_version: u32,
        started_at_unix_ms: u64,
        uptime_ms: u64,
        total_jobs: u32,
        queued_jobs: u32,
        running_jobs: u32,
        succeeded_jobs: u32,
        failed_jobs: u32,
        rolled_back_jobs: u32,
    },
    Capabilities(Seq<CapabilityView>),
    Adapters(Seq<AdapterView>),
    Validation { valid: bool, issues: Seq<ValidationIssueView> },
    Plan(Seq<OperationView>),
    Apply { job_id: Seq<char>, state: JobState, operations: Seq<OperationView> },
    JobStatus { job_id: Seq<char>, state: JobState, message: Option<Seq<char>> },
    Jobs { jobs: Seq<JobSummaryView>, total: u32 },
    NetworkStatus {
        captured_at_unix_ms: u64,
        adapters: Seq<AdapterView>,
        wifi_interfaces: Seq<WifiInterfaceView>,
        wifi_error: Option<Seq<char>>,
    },
    WifiStatus(Seq<WifiInterfaceView>),
    WifiNetworks { refreshed: bool, networks: Seq<WifiNetworkView> },
    Error { code: ErrorCode, message: Seq<char> },
}

impl View for ConfigAction {
    type V = ConfigAction;

    open spec fn view(&self) -> ConfigAction {
        *self
    }
}

/// Wire code of a configuration action.
pub open spec fn config_action_code(x: ConfigAction) -> u8 {
    match x {
        ConfigAction::Validate => 0,
        ConfigAction::Plan => 1,
        ConfigAction::Apply => 2,
    }
}

/// The configuration action with a wire code.
pub open spec fn config_action_of(c: u8) -> Option<ConfigAction> {
    if c == 0 {
        Some(ConfigAction::Validate)
    }     else if c == 1 {
        Some(ConfigAction::Plan)
    }     else if c == 2 {
        Some(ConfigAction::Apply)
    } else {
        None
    }
}

pub fn config_action_to_code(x: ConfigAction) -> (c: u8)
    ensures
        c == config_action_code(x),
{
    match x {
        ConfigAction::Validate => 0,
        ConfigAction::Plan => 1,
        ConfigAction::Apply => 2,
    }
}

pub fn config_action_from_code(c: u8) -> (x: Option<ConfigAction>)
    ensures
        x == config_action_of(c),
{
    if c == 0 {
        Some(ConfigAction::Validate)
    }     else if c == 1 {
        Some(ConfigAction::Plan)
    }     else if c == 2 {
        Some(ConfigAction::Apply)
    } else {
        None
    }
}

impl View for ConfigFormat {
    type V = ConfigFormat;

    open spec fn view(&self) -> ConfigFormat {
        *self
    }
}

/// Wire code of a configuration format.
pub open spec fn config_format_code(x: ConfigFormat) -> u8 {
    match x {
        ConfigFormat::Auto => 0,
        ConfigFormat::Yaml => 1,
        ConfigFormat::Json => 2,
    }
}

/// The configuration format with a wire code.
pub open spec fn config_format_of(c: u8) -> Option<ConfigFormat> {
    if c == 0 {
        Some(ConfigFormat::Auto)
    }     else if c == 1 {
        Some(ConfigFormat::Yaml)
    }     else if c == 2 {
        Some(ConfigFormat::Json)
    } else {
        None
    }
}

pub fn config_format_to_code(x: ConfigFormat) -> (c: u8)
    ensures
        c == config_format_code(x),
{
    match x {
        ConfigFormat::Auto => 0,
        ConfigFormat::Yaml => 1,
        ConfigFormat::Json => 2,
    }
}

pub fn config_format_from_code(c: u8) -> (x: Option<ConfigFormat>)
    ensures
        x == config_format_of(c),
{
    if c == 0 {
        Some(ConfigFormat::Auto)
    }     else if c == 1 {
        Some(ConfigFormat::Yaml)
    }     else if c == 2 {
        Some(ConfigFormat::Json)
    } else {
        None
    }
}

impl View for JobState {
    type V = JobState;

    open spec fn view(&self) -> JobState {
        *self
    }
}

/// Wire code of a job state.
pub open spec fn job_state_code(x: JobState) -> u8 {
    match x {
        JobState::Queued => 0,
        JobState::Running => 1,
        JobState::Succeeded => 2,
        JobState::Failed => 3,
        JobState::RolledBack => 4,
    }
}

/// The job state with a wire code.
pub open spec fn job_state_of(c: u8) -> Option<JobState> {
    if c == 0 {
        Some(JobState::Queued)
    }     else if c == 1 {
        Some(JobState::Running)
    }     else if c == 2 {
        Some(JobState::Succeeded)
    }     else if c == 3 {
        Some(JobState::Failed)
    }     else if c == 4 {
        Some(JobState::RolledBack)
    } else {
        None
    }
}

pub fn job_state_to_code(x: JobState) -> (c: u8)
    ensures
        c == job_state_code(x),
{
    match x {
        JobState::Queued => 0,
        JobState::Running => 1,
        JobState::Succeeded => 2,
        JobState::Failed => 3,
        JobState::RolledBack => 4,
    }
}

pub fn job_state_from_code(c: u8) -> (x: Option<JobState>)
    ensures
        x == job_state_of(c),
{
    if c == 0 {
        Some(JobState::Queued)
    }     else if c == 1 {
        Some(JobState::Running)
    }     else if c == 2 {
        Some(JobState::Succeeded)
    }     else if c == 3 {
        Some(JobState::Failed)
    }     else if c == 4 {
        Some(JobState::RolledBack)
    } else {
        None
    }
}

impl View for ErrorCode {
    type V = ErrorCode;

    open spec fn view(&self) -> ErrorCode {
        *self
    }
}

/// Wire code of a daemon error code.
pub open spec fn error_code_code(x: ErrorCode) -> u8 {
    match x {
        ErrorCode::InvalidRequest => 0,
        ErrorCode::InvalidConfig => 1,
        ErrorCode::Unsupported => 2,
        ErrorCode::PermissionDenied => 3,
        ErrorCode::NotFound => 4,
        ErrorCode::Internal => 5,
    }
}

/// The daemon error code with a wire code.
pub open spec fn error_code_of(c: u8) -> Option<ErrorCode> {
    if c == 0 {
        Some(ErrorCode::InvalidRequest)
    }     else if c == 1 {
        Some(ErrorCode::InvalidConfig)
    }     else if c == 2 {
        Some(ErrorCode::Unsupported)
    }     else if c == 3 {
        Some(ErrorCode::PermissionDenied)
    }     else if c == 4 {
        Some(ErrorCode::NotFound)
    }     else if c == 5 {
        Some(ErrorCode::Internal)
    } else {
        None
    }
}

pub fn error_code_to_code(x: ErrorCode) -> (c: u8)
    ensures
        c == error_code_code(x),
{
    match x {
        ErrorCode::InvalidRequest => 0,
        ErrorCode::InvalidConfig => 1,
        ErrorCode::Unsupported => 2,
        ErrorCode::PermissionDenied => 3,
        ErrorCode::NotFound => 4,
        ErrorCode::Internal => 5,
    }
}

pub fn error_code_from_code(c: u8) -> (x: Option<ErrorCode>)
    ensures
        x == error_code_of(c),
{
    if c == 0 {
        Some(ErrorCode::InvalidRequest)
    }     else if c == 1 {
        Some(ErrorCode::InvalidConfig)
    }     else if c == 2 {
        Some(ErrorCode::Unsupported)
    }     else if c == 3 {
        Some(ErrorCode::PermissionDenied)
    }     else if c == 4 {
        Some(ErrorCode::NotFound)
    }     else if c == 5 {
        Some(ErrorCode::Internal)
    } else {
        None
    }
}

/// An optional job state is a presence flag and a state code that is 0 when
/// absent.
pub open spec fn put_opt_state(o: Option<JobState>) -> Seq<u8> {
    match o {
        Some(s) => put_bool(true) + put_u8(job_state_code(s)),
        None => put_bool(false) + put_u8(0),
    }
}

/// The code of an absent state is ignored; a present one must be known.
pub open spec fn get_opt_state(b: Seq<u8>, p: int) -> Option<(Option<JobState>, int)> {
    match get_bool(b, p) {
        Some((present, q)) => match get_u8(b, q) {
            Some((c, r)) => if present {
                match job_state_of(c) {
                    Some(s) => Some((Some(s), r)),
                    None => None,
                }
            } else {
                Some((None, r))
            },
            None => None,
        },
        None => None,
    }
}

proof fn lemma_get_opt_state(b: Seq<u8>, p: int, o: Option<JobState>)
    requires
        contains_at(b, p, put_opt_state(o)),
    ensures
        get_opt_state(b, p) == Some((o, p + put_opt_state(o).len())),
{
    let c = match o {
        Some(s) => job_state_code(s),
        None => 0u8,
    };
    lemma_split(b, p, put_bool(o is Some), put_u8(c));
    lemma_get_bool(b, p, o is Some);
    lemma_get_u8(b, p + 1, c);
}

fn write_opt_state(out: &mut Vec<u8>, o: Option<JobState>)
    ensures
        final(out)@ == old(out)@ + put_opt_state(o),
{
    match o {
        Some(s) => {
            write_bool(out, true);
            write_u8(out, job_state_to_code(s));
        },
        None => {
            write_bool(out, false);
            write_u8(out, 0);
        },
    }
    assert(out@ =~= old(out)@ + put_opt_state(o));
}

fn read_opt_state(b: &[u8], p: usize) -> (r: Option<(Option<JobState>, usize)>)
    ensures
        match r {
            Some((o, q)) => get_opt_state(b@, p as int) == Some((o, q as int)),
            None => get_opt_state(b@, p as int) is None,
        },
{
    let (present, q) = read_bool(b, p)?;
    let (c, r) = read_u8(b, q)?;
    if present {
        let s = job_state_from_code(c)?;
        Some((Some(s), r))
    } else {
        Some((None, r))
    }
}

/// Mathematical view of a [`ValidationIssue`].
pub struct ValidationIssueView {
    pub path: Option<Seq<char>>,
    pub message: Seq<char>,
}

impl View for ValidationIssue {
    type V = ValidationIssueView;

    open spec fn view(&self) -> ValidationIssueView {
        ValidationIssueView { path: self.path.deep_view(), message: self.message@ }
    }
}

impl Codec for ValidationIssue {
    open spec fn encoding(v: ValidationIssueView) -> Seq<u8> {
        put_opt_text(v.path) + put_text(v.message)
    }

    open spec fn decoding(b: Seq<u8>, p: int) -> Option<(ValidationIssueView, int)> {
        match get_opt_text(b, p) {
            Some((path, p1)) => {
                match get_text(b, p1) {
                    Some((message, p2)) => {
                        Some((ValidationIssueView { path, message }, p2))
                    },
                    None => None,
                }
            },
            None => None,
        }
    }

    fn write(&self, out: &mut Vec<u8>) {
        let mut t: Vec<u8> = Vec::new();
        write_opt_text(&mut t, &self.path);
        assert(t@ =~= put_opt_text(self.path.deep_view()));
        write_text(&mut t, self.message.as_str());
        out.append(&mut t);
    }

    fn read(b: &[u8], p: usize) -> (r: Option<(Self, usize)>) {
        let (path, p1) = read_opt_text(b, p)?;
        let (message, p2) = read_text(b, p1)?;
        Some((ValidationIssue { path, message }, p2))
    }

    proof fn lemma_reads_back(b: Seq<u8>, p: int, v: ValidationIssueView) {
        let a0 = put_opt_text(v.path);
        let a1 = put_text(v.message);
        lemma_split(b, p, a0, a1);
        lemma_get_opt_text(b, p, v.path);
        lemma_get_text(b, p + (a0).len(), v.message);
    }

    proof fn lemma_nonempty(v: ValidationIssueView) {
    }
}

/// Mathematical view of a [`JobSummary`].
pub struct JobSummaryView {
    pub job_id: Seq<char>,
    pub state: JobState,
    pub message: Option<Seq<char>>,
    pub created_at_unix_ms: u64,
    pub updated_at_unix_ms: u64,
}

impl View for JobSummary {
    type V = JobSummaryView;

    open spec fn view(&self) -> JobSummaryView {
        JobSummaryView { job_id: self.job_id@, state: self.state, message: self.message.deep_view(), created_at_unix_ms: self.created_at_unix_ms, updated_at_unix_ms: self.updated_at_unix_ms }
    }
}

impl Codec for JobSummary {
    open spec fn encoding(v: JobSummaryView) -> Seq<u8> {
        put_text(v.job_id) + put_u8(job_state_code(v.state)) + put_opt_text(v.message) + put_u64(v.created_at_unix_ms) + put_u64(v.updated_at_unix_ms)
    }

    open spec fn decoding(b: Seq<u8>, p: int) -> Option<(JobSummaryView, int)> {
        match get_text(b, p) {
            Some((job_id, p1)) => {
                match get_u8(b, p1) {
                    Some((c2, p2)) => match job_state_of(c2) {
                        Some(state) => {
                            match get_opt_text(b, p2) {
                                Some((message, p3)) => {
                                    match get_u64(b, p3) {
                                        Some((created_at_unix_ms, p4)) => {
                                            match get_u64(b, p4) {
                                                Some((updated_at_unix_ms, p5)) => {
                                                    Some((JobSummaryView { job_id, state, message, created_at_unix_ms, updated_at_unix_ms }, p5))
                                                },
                                                None => None,
                                            }
                                        },
                                        None => None,
                                    }
                                },
                                None => None,
                            }
                        },
                        None => None,
                    },
                    None => None,
                }
            },
            None => None,
        }
    }

    fn write(&self, out: &mut Vec<u8>) {
        let mut t: Vec<u8> = Vec::new();
        write_text(&mut t, self.job_id.as_str());
        assert(t@ =~= put_text(self.job_id@));
        write_u8(&mut t, job_state_to_code(self.state));
        write_opt_text(&mut t, &self.message);
        write_u64(&mut t, self.created_at_unix_ms);
        write_u64(&mut t, self.updated_at_unix_ms);
        out.append(&mut t);
    }

    fn read(b: &[u8], p: usize) -> (r: Option<(Self, usize)>) {
        let (job_id, p1) = read_text(b, p)?;
        let (c2, p2) = read_u8(b, p1)?;
        let state = job_state_from_code(c2)?;
        let (message, p3) = read_opt_text(b, p2)?;
        let (created_at_unix_ms, p4) = read_u64_at(b, p3)?;
        let (updated_at_unix_ms, p5) = read_u64_at(b, p4)?;
        Some((JobSummary { job_id, state, message, created_at_unix_ms, updated_at_unix_ms }, p5))
    }

    proof fn lemma_reads_back(b: Seq<u8>, p: int, v: JobSummaryView) {
        let a0 = put_text(v.job_id);
        let a1 = put_u8(job_state_code(v.state));
        let a2 = put_opt_text(v.message);
        let a3 = put_u64(v.created_at_unix_ms);
        let a4 = put_u64(v.updated_at_unix_ms);
        lemma_split(b, p, a0 + a1 + a2 + a3, a4);
        lemma_split(b, p, a0 + a1 + a2, a3);
        lemma_split(b, p, a0 + a1, a2);
        lemma_split(b, p, a0, a1);
        lemma_get_text(b, p, v.job_id);
        lemma_get_u8(b, p + (a0).len(), job_state_code(v.state));
        lemma_get_opt_text(b, p + (a0 + a1).len(), v.message);
        lemma_get_u64(b, p + (a0 + a1 + a2).len(), v.created_at_unix_ms);
        lemma_get_u64(b, p + (a0 + a1 + a2 + a3).len(), v.updated_at_unix_ms);
    }

    proof fn lemma_nonempty(v: JobSummaryView) {
    }
}

impl View for Request {
    type V = RequestView;

    open spec fn view(&self) -> RequestView {
        match self {
            Request::Ping => RequestView::Ping,
            Request::DaemonStatus => RequestView::DaemonStatus,
            Request::Capabilities => RequestView::Capabilities,
            Request::ListAdapters => RequestView::ListAdapters,
            Request::Config { action, format, document, dry_run } => RequestView::Config {
                action: *action,
                format: *format,
                document: document@,
                dry_run: *dry_run,
            },
            Request::JobStatus { job_id } => RequestView::JobStatus {
                job_id: job_id@,
            },
            Request::ListJobs { state, limit } => RequestView::ListJobs {
                state: *state,
                limit: *limit,
            },
            Request::NetworkStatus => RequestView::NetworkStatus,
            Request::WifiStatus { if_index } => RequestView::WifiStatus {
                if_index: *if_index,
            },
            Request::WifiScan { if_index, refresh, timeout_ms } => RequestView::WifiScan {
                if_index: *if_index,
                refresh: *refresh,
                timeout_ms: *timeout_ms,
            },
        }
    }
}

/// Payload type of a request.
pub open spec fn request_type(v: RequestView) -> u8 {
    match v {
        RequestView::Ping => 1,
        RequestView::DaemonStatus => 14,
        RequestView::Capabilities => 3,
        RequestView::ListAdapters => 5,
        RequestView::Config { action, format, document, dry_run, .. } => 7,
        RequestView::JobStatus { job_id, .. } => 11,
        RequestView::ListJobs { state, limit, .. } => 16,
        RequestView::NetworkStatus => 18,
        RequestView::WifiStatus { if_index, .. } => 20,
        RequestView::WifiScan { if_index, refresh, timeout_ms, .. } => 22,
    }
}

/// Whether a payload type carries a request.
pub open spec fn is_request_type(t: u8) -> bool {
    t == 1 || t == 14 || t == 3 || t == 5 || t == 7 || t == 11 || t == 16 || t == 18 || t == 20 || t == 22
}

/// The bytes that follow the payload type of a request.
pub open spec fn request_fields(v: RequestView) -> Seq<u8> {
    match v {
        RequestView::Ping => Seq::empty(),
        RequestView::DaemonStatus => Seq::empty(),
        RequestView::Capabilities => Seq::empty(),
        RequestView::ListAdapters => Seq::empty(),
        RequestView::Config { action, format, document, dry_run } => put_u8(config_action_code(action)) + put_u8(config_format_code(format)) + put_bytes(document) + put_bool(dry_run),
        RequestView::JobStatus { job_id } => put_text(job_id),
        RequestView::ListJobs { state, limit } => put_opt_state(state) + put_u32(limit),
        RequestView::NetworkStatus => Seq::empty(),
        RequestView::WifiStatus { if_index } => put_opt_u32(if_index),
        RequestView::WifiScan { if_index, refresh, timeout_ms } => put_opt_u32(if_index) + put_bool(refresh) + put_u32(timeout_ms),
    }
}

/// Reads the fields of a `Request::Config`.
pub open spec fn request_config_at(b: Seq<u8>, p: int) -> Option<(RequestView, int)> {
    match get_u8(b, p) {
        Some((c1, p1)) => match config_action_of(c1) {
            Some(action) => {
                match get_u8(b, p1) {
                    Some((c2, p2)) => match config_format_of(c2) {
                        Some(format) => {
                            match get_bytes(b, p2) {
                                Some((document, p3)) => {
                                    match get_bool(b, p3) {
                                        Some((dry_run, p4)) => {
                                            Some((RequestView::Config { action, format, document, dry_run }, p4))
                                        },
                                        None => None,
                                    }
                                },
                                None => None,
                            }
                        },
                        None => None,
                    },
                    None => None,
                }
            },
            None => None,
        },
        None => None,
    }
}

/// Reads the fields of a `Request::JobStatus`.
pub open spec fn request_job_status_at(b: Seq<u8>, p: int) -> Option<(RequestView, int)> {
    match get_text(b, p) {
        Some((job_id, p1)) => {
            Some((RequestView::JobStatus { job_id }, p1))
        },
        None => None,
    }
}

/// Reads the fields of a `Request::ListJobs`.
pub open spec fn request_list_jobs_at(b: Seq<u8>, p: int) -> Option<(RequestView, int)> {
    match get_opt_state(b, p) {
        Some((state, p1)) => {
            match get_u32(b, p1) {
                Some((limit, p2)) => {
                    Some((RequestView::ListJobs { state, limit }, p2))
                },
                None => None,
            }
        },
        None => None,
    }
}

/// Reads the fields of a `Request::WifiStatus`.
pub open spec fn request_wifi_status_at(b: Seq<u8>, p: int) -> Option<(RequestView, int)> {
    match get_opt_u32(b, p) {
        Some((if_index, p1)) => {
            Some((RequestView::WifiStatus { if_index }, p1))
        },
        None => None,
    }
}

/// Reads the fields of a `Request::WifiScan`.
pub open spec fn request_wifi_scan_at(b: Seq<u8>, p: int) -> Option<(RequestView, int)> {
    match get_opt_u32(b, p) {
        Some((if_index, p1)) => {
            match get_bool(b, p1) {
                Some((refresh, p2)) => {
                    match get_u32(b, p2) {
                        Some((timeout_ms, p3)) => {
                            Some((RequestView::WifiScan { if_index, refresh, timeout_ms }, p3))
                        },
                        None => None,
                    }
                },
                None => None,
            }
        },
        None => None,
    }
}

/// Reads the request of payload type `t` at `p`.
pub open spec fn request_payload(t: u8, b: Seq<u8>, p: int) -> Option<(RequestView, int)> {
    if t == 1 {
        Some((RequestView::Ping, p))
    }     else if t == 14 {
        Some((RequestView::DaemonStatus, p))
    }     else if t == 3 {
        Some((RequestView::Capabilities, p))
    }     else if t == 5 {
        Some((RequestView::ListAdapters, p))
    }     else if t == 7 {
        request_config_at(b, p)
    }     else if t == 11 {
        request_job_status_at(b, p)
    }     else if t == 16 {
        request_list_jobs_at(b, p)
    }     else if t == 18 {
        Some((RequestView::NetworkStatus, p))
    }     else if t == 20 {
        request_wifi_status_at(b, p)
    }     else if t == 22 {
        request_wifi_scan_at(b, p)
    } else {
        None
    }
}

fn request_type_code(v: &Request) -> (t: u8)
    ensures
        t == request_type(v@),
{
    match v {
        Request::Ping => 1,
        Request::DaemonStatus => 14,
        Request::Capabilities => 3,
        Request::ListAdapters => 5,
        Request::Config { .. } => 7,
        Request::JobStatus { .. } => 11,
        Request::ListJobs { .. } => 16,
        Request::NetworkStatus => 18,
        Request::WifiStatus { .. } => 20,
        Request::WifiScan { .. } => 22,
    }
}

fn write_request_fields(out: &mut Vec<u8>, v: &Request)
    requires
        request_fields(v@).len() <= max_len(),
    ensures
        final(out)@ == old(out)@ + request_fields(v@),
{
    match v {
        Request::Ping => {
            assert(out@ =~= old(out)@ + request_fields(v@));
        },
        Request::DaemonStatus => {
            assert(out@ =~= old(out)@ + request_fields(v@));
        },
        Request::Capabilities => {
            assert(out@ =~= old(out)@ + request_fields(v@));
        },
        Request::ListAdapters => {
            assert(out@ =~= old(out)@ + request_fields(v@));
        },
        Request::Config { action, format, document, dry_run } => {
            let mut t: Vec<u8> = Vec::new();
            write_u8(&mut t, config_action_to_code(*action));
            assert(t@ =~= put_u8(config_action_code(*action)));
            write_u8(&mut t, config_format_to_code(*format));
            write_bytes(&mut t, document.as_slice());
            write_bool(&mut t, *dry_run);
            out.append(&mut t);
        },
        Request::JobStatus { job_id } => {
            let mut t: Vec<u8> = Vec::new();
            write_text(&mut t, job_id.as_str());
            assert(t@ =~= put_text(job_id@));
            out.append(&mut t);
        },
        Request::ListJobs { state, limit } => {
            let mut t: Vec<u8> = Vec::new();
            write_opt_state(&mut t, *state);
            assert(t@ =~= put_opt_state(*state));
            write_u32(&mut t, *limit);
            out.append(&mut t);
        },
        Request::NetworkStatus => {
            assert(out@ =~= old(out)@ + request_fields(v@));
        },
        Request::WifiStatus { if_index } => {
            let mut t: Vec<u8> = Vec::new();
            write_opt_u32(&mut t, *if_index);
            assert(t@ =~= put_opt_u32(*if_index));
            out.append(&mut t);
        },
        Request::WifiScan { if_index, refresh, timeout_ms } => {
            let mut t: Vec<u8> = Vec::new();
            write_opt_u32(&mut t, *if_index);
            assert(t@ =~= put_opt_u32(*if_index));
            write_bool(&mut t, *refresh);
            write_u32(&mut t, *timeout_ms);
            out.append(&mut t);
        },
    }
}

fn read_request_config(b: &[u8], p: usize) -> (r: Option<(Request, usize)>)
    ensures
        match r {
            Some((x, q)) => request_config_at(b@, p as int) == Some((x@, q as int)),
            None => request_config_at(b@, p as int) is None,
        },
{
    let (c1, p1) = read_u8(b, p)?;
    let action = config_action_from_code(c1)?;
    let (c2, p2) = read_u8(b, p1)?;
    let format = config_format_from_code(c2)?;
    let (document, p3) = read_bytes(b, p2)?;
    let (dry_run, p4) = read_bool(b, p3)?;
    Some((Request::Config { action, format, document, dry_run }, p4))
}

fn read_request_job_status(b: &[u8], p: usize) -> (r: Option<(Request, usize)>)
    ensures
        match r {
            Some((x, q)) => request_job_status_at(b@, p as int) == Some((x@, q as int)),
            None => request_job_status_at(b@, p as int) is None,
        },
{
    let (job_id, p1) = read_text(b, p)?;
    Some((Request::JobStatus { job_id }, p1))
}

fn read_request_list_jobs(b: &[u8], p: usize) -> (r: Option<(Request, usize)>)
    ensures
        match r {
            Some((x, q)) => request_list_jobs_at(b@, p as int) == Some((x@, q as int)),
            None => request_list_jobs_at(b@, p as int) is None,
        },
{
    let (state, p1) = read_opt_state(b, p)?;
    let (limit, p2) = read_u32_at(b, p1)?;
    Some((Request::ListJobs { state, limit }, p2))
}

fn read_request_wifi_status(b: &[u8], p: usize) -> (r: Option<(Request, usize)>)
    ensures
        match r {
            Some((x, q)) => request_wifi_status_at(b@, p as int) == Some((x@, q as int)),
            None => request_wifi_status_at(b@, p as int) is None,
        },
{
    let (if_index, p1) = read_opt_u32(b, p)?;
    Some((Request::WifiStatus { if_index }, p1))
}

fn read_request_wifi_scan(b: &[u8], p: usize) -> (r: Option<(Request, usize)>)
    ensures
        match r {
            Some((x, q)) => request_wifi_scan_at(b@, p as int) == Some((x@, q as int)),
            None => request_wifi_scan_at(b@, p as int) is None,
        },
{
    let (if_index, p1) = read_opt_u32(b, p)?;
    let (refresh, p2) = read_bool(b, p1)?;
    let (timeout_ms, p3) = read_u32_at(b, p2)?;
    Some((Request::WifiScan { if_index, refresh, timeout_ms }, p3))
}

fn read_request_payload(t: u8, b: &[u8], p: usize) -> (r: Option<(Request, usize)>)
    ensures
        match r {
            Some((x, q)) => request_payload(t, b@, p as int) == Some((x@, q as int)),
            None => request_payload(t, b@, p as int) is None,
        },
{
    if t == 1 {
        Some((Request::Ping, p))
    }     else if t == 14 {
        Some((Request::DaemonStatus, p))
    }     else if t == 3 {
        Some((Request::Capabilities, p))
    }     else if t == 5 {
        Some((Request::ListAdapters, p))
    }     else if t == 7 {
        read_request_config(b, p)
    }     else if t == 11 {
        read_request_job_status(b, p)
    }     else if t == 16 {
        read_request_list_jobs(b, p)
    }     else if t == 18 {
        Some((Request::NetworkStatus, p))
    }     else if t == 20 {
        read_request_wifi_status(b, p)
    }     else if t == 22 {
        read_request_wifi_scan(b, p)
    } else {
        None
    }
}

proof fn lemma_request_config(b: Seq<u8>, p: int, v: RequestView)
    requires
        v is Config,
        contains_at(b, p, request_fields(v)),
        request_fields(v).len() <= max_len(),
    ensures
        request_config_at(b, p) == Some((v, p + request_fields(v).len())),
{
    match v {
        RequestView::Config { action, format, document, dry_run } => {
            let a0 = put_u8(config_action_code(action));
            let a1 = put_u8(config_format_code(format));
            let a2 = put_bytes(document);
            let a3 = put_bool(dry_run);
            lemma_split(b, p, a0 + a1 + a2, a3);
            lemma_split(b, p, a0 + a1, a2);
            lemma_split(b, p, a0, a1);
            lemma_get_u8(b, p, config_action_code(action));
            lemma_get_u8(b, p + (a0).len(), config_format_code(format));
            lemma_get_bytes(b, p + (a0 + a1).len(), document);
            lemma_get_bool(b, p + (a0 + a1 + a2).len(), dry_run);
        },
        _ => {},
    }
}

proof fn lemma_request_job_status(b: Seq<u8>, p: int, v: RequestView)
    requires
        v is JobStatus,
        contains_at(b, p, request_fields(v)),
        request_fields(v).len() <= max_len(),
    ensures
        request_job_status_at(b, p) == Some((v, p + request_fields(v).len())),
{
    match v {
        RequestView::JobStatus { job_id } => {
            let a0 = put_text(job_id);
            lemma_get_text(b, p, job_id);
        },
        _ => {},
    }
}

proof fn lemma_request_list_jobs(b: Seq<u8>, p: int, v: RequestView)
    requires
        v is ListJobs,
        contains_at(b, p, request_fields(v)),
        request_fields(v).len() <= max_len(),
    ensures
        request_list_jobs_at(b, p) == Some((v, p + request_fields(v).len())),
{
    match v {
        RequestView::ListJobs { state, limit } => {
            let a0 = put_opt_state(state);
            let a1 = put_u32(limit);
            lemma_split(b, p, a0, a1);
            lemma_get_opt_state(b, p, state);
            lemma_get_u32(b, p + (a0).len(), limit);
        },
        _ => {},
    }
}

proof fn lemma_request_wifi_status(b: Seq<u8>, p: int, v: RequestView)
    requires
        v is WifiStatus,
        contains_at(b, p, request_fields(v)),
        request_fields(v).len() <= max_len(),
    ensures
        request_wifi_status_at(b, p) == Some((v, p + request_fields(v).len())),
{
    match v {
        RequestView::WifiStatus { if_index } => {
            let a0 = put_opt_u32(if_index);
            lemma_get_opt_u32(b, p, if_index);
        },
        _ => {},
    }
}

proof fn lemma_request_wifi_scan(b: Seq<u8>, p: int, v: RequestView)
    requires
        v is WifiScan,
        contains_at(b, p, request_fields(v)),
        request_fields(v).len() <= max_len(),
    ensures
        request_wifi_scan_at(b, p) == Some((v, p + request_fields(v).len())),
{
    match v {
        RequestView::WifiScan { if_index, refresh, timeout_ms } => {
            let a0 = put_opt_u32(if_index);
            let a1 = put_bool(refresh);
            let a2 = put_u32(timeout_ms);
            lemma_split(b, p, a0 + a1, a2);
            lemma_split(b, p, a0, a1);
            lemma_get_opt_u32(b, p, if_index);
            lemma_get_bool(b, p + (a0).len(), refresh);
            lemma_get_u32(b, p + (a0 + a1).len(), timeout_ms);
        },
        _ => {},
    }
}

proof fn lemma_request_payload(b: Seq<u8>, p: int, v: RequestView)
    requires
        contains_at(b, p, request_fields(v)),
        request_fields(v).len() <= max_len(),
    ensures
        request_payload(request_type(v), b, p) == Some((v, p + request_fields(v).len())),
        is_request_type(request_type(v)),
{
    match v {
        RequestView::Ping => {},
        RequestView::DaemonStatus => {},
        RequestView::Capabilities => {},
        RequestView::ListAdapters => {},
        RequestView::Config { .. } => lemma_request_config(b, p, v),
        RequestView::JobStatus { .. } => lemma_request_job_status(b, p, v),
        RequestView::ListJobs { .. } => lemma_request_list_jobs(b, p, v),
        RequestView::NetworkStatus => {},
        RequestView::WifiStatus { .. } => lemma_request_wifi_status(b, p, v),
        RequestView::WifiScan { .. } => lemma_request_wifi_scan(b, p, v),
    }
}

impl View for Response {
    type V = ResponseView;

    open spec fn view(&self) -> ResponseView {
        match self {
            Response::Pong { daemon_version, protocol_version } => ResponseView::Pong {
                daemon_version: daemon_version@,
                protocol_version: *protocol_version,
            },
            Response::DaemonStatus { daemon_version, protocol_version, started_at_unix_ms, uptime_ms, total_jobs, queued_jobs, running_jobs, succeeded_jobs, failed_jobs, rolled_back_jobs } => ResponseView::DaemonStatus {
                daemon_version: daemon_version@,
                protocol_version: *protocol_version,
                started_at_unix_ms: *started_at_unix_ms,
                uptime_ms: *uptime_ms,
                total_jobs: *total_jobs,
                queued_jobs: *queued_jobs,
                running_jobs: *running_jobs,
                succeeded_jobs: *succeeded_jobs,
                failed_jobs: *failed_jobs,
                rolled_back_jobs: *rolled_back_jobs,
            },
            Response::Capabilities(capabilities) => ResponseView::Capabilities(views(capabilities@)),
            Response::Adapters(adapters) => ResponseView::Adapters(views(adapters@)),
            Response::Validation { valid, issues } => ResponseView::Validation {
                valid: *valid,
                issues: views(issues@),
            },
            Response::Plan(operations) => ResponseView::Plan(views(operations@)),
            Response::Apply { job_id, state, operations } => ResponseView::Apply {
                job_id: job_id@,
                state: *state,
                operations: views(operations@),
            },
            Response::JobStatus { job_id, state, message } => ResponseView::JobStatus {
                job_id: job_id@,
                state: *state,
                message: message.deep_view(),
            },
            Response::Jobs { jobs, total } => ResponseView::Jobs {
                jobs: views(jobs@),
                total: *total,
            },
            Response::NetworkStatus { captured_at_unix_ms, adapters, wifi_interfaces, wifi_error } => ResponseView::NetworkStatus {
                captured_at_unix_ms: *captured_at_unix_ms,
                adapters: views(adapters@),
                wifi_interfaces: views(wifi_interfaces@),
                wifi_error: wifi_error.deep_view(),
            },
            Response::WifiStatus(interfaces) => ResponseView::WifiStatus(views(interfaces@)),
            Response::WifiNetworks { refreshed, networks } => ResponseView::WifiNetworks {
                refreshed: *refreshed,
                networks: views(networks@),
            },
            Response::Error { code, message } => ResponseView::Error {
                code: *code,
                message: message@,
            },
        }
    }
}

/// Payload type of a response.
pub open spec fn response_type(v: ResponseView) -> u8 {
    match v {
        ResponseView::Pong { daemon_version, protocol_version, .. } => 2,
        ResponseView::DaemonStatus { daemon_version, protocol_version, started_at_unix_ms, uptime_ms, total_jobs, queued_jobs, running_jobs, succeeded_jobs, failed_jobs, rolled_back_jobs, .. } => 15,
        ResponseView::Capabilities(..) => 4,
        ResponseView::Adapters(..) => 6,
        ResponseView::Validation { valid, issues, .. } => 8,
        ResponseView::Plan(..) => 9,
        ResponseView::Apply { job_id, state, operations, .. } => 10,
        ResponseView::JobStatus { job_id, state, message, .. } => 12,
        ResponseView::Jobs { jobs, total, .. } => 17,
        ResponseView::NetworkStatus { captured_at_unix_ms, adapters, wifi_interfaces, wifi_error, .. } => 19,
        ResponseView::WifiStatus(..) => 21,
        ResponseView::WifiNetworks { refreshed, networks, .. } => 23,
        ResponseView::Error { code, message, .. } => 13,
    }
}

/// Whether a payload type carries a response.
pub open spec fn is_response_type(t: u8) -> bool {
    t == 2 || t == 15 || t == 4 || t == 6 || t == 8 || t == 9 || t == 10 || t == 12 || t == 17 || t == 19 || t == 21 || t == 23 || t == 13
}

/// The bytes that follow the payload type of a response.
pub open spec fn response_fields(v: ResponseView) -> Seq<u8> {
    match v {
        ResponseView::Pong { daemon_version, protocol_version } => put_text(daemon_version) + put_u32(protocol_version),
        ResponseView::DaemonStatus { daemon_version, protocol_version, started_at_unix_ms, uptime_ms, total_jobs, queued_jobs, running_jobs, succeeded_jobs, failed_jobs, rolled_back_jobs } => put_text(daemon_version) + put_u32(protocol_version) + put_u64(started_at_unix_ms) + put_u64(uptime_ms) + put_u32(total_jobs) + put_u32(queued_jobs) + put_u32(running_jobs) + put_u32(succeeded_jobs) + put_u32(failed_jobs) + put_u32(rolled_back_jobs),
        ResponseView::Capabilities(capabilities) => put_items::<Capability>(capabilities),
        ResponseView::Adapters(adapters) => put_items::<AdapterInfo>(adapters),
        ResponseView::Validation { valid, issues } => put_bool(valid) + put_items::<ValidationIssue>(issues),
        ResponseView::Plan(operations) => put_items::<Operation>(operations),
        ResponseView::Apply { job_id, state, operations } => put_text(job_id) + put_u8(job_state_code(state)) + put_items::<Operation>(operations),
        ResponseView::JobStatus { job_id, state, message } => put_text(job_id) + put_u8(job_state_code(state)) + put_opt_text(message),
        ResponseView::Jobs { jobs, total } => put_items::<JobSummary>(jobs) + put_u32(total),
        ResponseView::NetworkStatus { captured_at_unix_ms, adapters, wifi_interfaces, wifi_error } => put_u64(captured_at_unix_ms) + put_items::<AdapterInfo>(adapters) + put_items::<WifiInterfaceStatus>(wifi_interfaces) + put_opt_text(wifi_error),
        ResponseView::WifiStatus(interfaces) => put_items::<WifiInterfaceStatus>(interfaces),
        ResponseView::WifiNetworks { refreshed, networks } => put_bool(refreshed) + put_items::<WifiNetwork>(networks),
        ResponseView::Error { code, message } => put_u8(error_code_code(code)) + put_text(message),
    }
}

/// Reads the fields of a `Response::Pong`.
pub open spec fn response_pong_at(b: Seq<u8>, p: int) -> Option<(ResponseView, int)> {
    match get_text(b, p) {
        Some((daemon_version, p1)) => {
            match get_u32(b, p1) {
                Some((protocol_version, p2)) => {
                    Some((ResponseView::Pong { daemon_version, protocol_version }, p2))
                },
                None => None,
            }
        },
        None => None,
    }
}

/// Reads the fields of a `Response::DaemonStatus`.
pub open spec fn response_daemon_status_at(b: Seq<u8>, p: int) -> Option<(ResponseView, int)> {
    match get_text(b, p) {
        Some((daemon_version, p1)) => {
            match get_u32(b, p1) {
                Some((protocol_version, p2)) => {
                    match get_u64(b, p2) {
                        Some((started_at_unix_ms, p3)) => {
                            match get_u64(b, p3) {
                                Some((uptime_ms, p4)) => {
                                    match get_u32(b, p4) {
                                        Some((total_jobs, p5)) => {
                                            match get_u32(b, p5) {
                                                Some((queued_jobs, p6)) => {
                                                    match get_u32(b, p6) {
                                                        Some((running_jobs, p7)) => {
                                                            match get_u32(b, p7) {
                                                                Some((succeeded_jobs, p8)) => {
                                                                    match get_u32(b, p8) {
                                                                        Some((failed_jobs, p9)) => {
                                                                            match get_u32(b, p9) {
                                                                                Some((rolled_back_jobs, p10)) => {
                                                                                    Some((ResponseView::DaemonStatus { daemon_version, protocol_version, started_at_unix_ms, uptime_ms, total_jobs, queued_jobs, running_jobs, succeeded_jobs, failed_jobs, rolled_back_jobs }, p10))
                                                                                },
                                                                                None => None,
                                                                            }
                                                                        },
                                                                        None => None,
                                                                    }
                                                                },
                                                                None => None,
                                                            }
                                                        },
                                                        None => None,
                                                    }
                                                },
                                                None => None,
                                            }
                                        },
                                        None => None,
                                    }
                                },
                                None => None,
                            }
                        },
                        None => None,
                    }
                },
                None => None,
            }
        },
        None => None,
    }
}

/// Reads the fields of a `Response::Capabilities`.
pub open spec fn response_capabilities_at(b: Seq<u8>, p: int) -> Option<(ResponseView, int)> {
    match get_items::<Capability>(b, p) {
        Some((capabilities, p1)) => {
            Some((ResponseView::Capabilities(capabilities), p1))
        },
        None => None,
    }
}

/// Reads the fields of a `Response::Adapters`.
pub open spec fn response_adapters_at(b: Seq<u8>, p: int) -> Option<(ResponseView, int)> {
    match get_items::<AdapterInfo>(b, p) {
        Some((adapters, p1)) => {
            Some((ResponseView::Adapters(adapters), p1))
        },
        None => None,
    }
}

/// Reads the fields of a `Response::Validation`.
pub open spec fn response_validation_at(b: Seq<u8>, p: int) -> Option<(ResponseView, int)> {
    match get_bool(b, p) {
        Some((valid, p1)) => {
            match get_items::<ValidationIssue>(b, p1) {
                Some((issues, p2)) => {
                    Some((ResponseView::Validation { valid, issues }, p2))
                },
                None => None,
            }
        },
        None => None,
    }
}

/// Reads the fields of a `Response::Plan`.
pub open spec fn response_plan_at(b: Seq<u8>, p: int) -> Option<(ResponseView, int)> {
    match get_items::<Operation>(b, p) {
        Some((operations, p1)) => {
            Some((ResponseView::Plan(operations), p1))
        },
        None => None,
    }
}

/// Reads the fields of a `Response::Apply`.
pub open spec fn response_apply_at(b: Seq<u8>, p: int) -> Option<(ResponseView, int)> {
    match get_text(b, p) {
        Some((job_id, p1)) => {
            match get_u8(b, p1) {
                Some((c2, p2)) => match job_state_of(c2) {
                    Some(state) => {
                        match get_items::<Operation>(b, p2) {
                            Some((operations, p3)) => {
                                Some((ResponseView::Apply { job_id, state, operations }, p3))
                            },
                            None => None,
                        }
                    },
                    None => None,
                },
                None => None,
            }
        },
        None => None,
    }
}

/// Reads the fields of a `Response::JobStatus`.
pub open spec fn response_job_status_at(b: Seq<u8>, p: int) -> Option<(ResponseView, int)> {
    match get_text(b, p) {
        Some((job_id, p1)) => {
            match get_u8(b, p1) {
                Some((c2, p2)) => match job_state_of(c2) {
                    Some(state) => {
                        match get_opt_text(b, p2) {
                            Some((message, p3)) => {
                                Some((ResponseView::JobStatus { job_id, state, message }, p3))
                            },
                            None => None,
                        }
                    },
                    None => None,
                },
                None => None,
            }
        },
        None => None,
    }
}

/// Reads the fields of a `Response::Jobs`.
pub open spec fn response_jobs_at(b: Seq<u8>, p: int) -> Option<(ResponseView, int)> {
    match get_items::<JobSummary>(b, p) {
        Some((jobs, p1)) => {
            match get_u32(b, p1) {
                Some((total, p2)) => {
                    Some((ResponseView::Jobs { jobs, total }, p2))
                },
                None => None,
            }
        },
        None => None,
    }
}

/// Reads the fields of a `Response::NetworkStatus`.
pub open spec fn response_network_status_at(b: Seq<u8>, p: int) -> Option<(ResponseView, int)> {
    match get_u64(b, p) {
        Some((captured_at_unix_ms, p1)) => {
            match get_items::<AdapterInfo>(b, p1) {
                Some((adapters, p2)) => {
                    match get_items::<WifiInterfaceStatus>(b, p2) {
                        Some((wifi_interfaces, p3)) => {
                            match get_opt_text(b, p3) {
                                Some((wifi_error, p4)) => {
                                    Some((ResponseView::NetworkStatus { captured_at_unix_ms, adapters, wifi_interfaces, wifi_error }, p4))
                                },
                                None => None,
                            }
                        },
                        None => None,
                    }
                },
                None => None,
            }
        },
        None => None,
    }
}

/// Reads the fields of a `Response::WifiStatus`.
pub open spec fn response_wifi_status_at(b: Seq<u8>, p: int) -> Option<(ResponseView, int)> {
    match get_items::<WifiInterfaceStatus>(b, p) {
        Some((interfaces, p1)) => {
            Some((ResponseView::WifiStatus(interfaces), p1))
        },
        None => None,
    }
}

/// Reads the fields of a `Response::WifiNetworks`.
pub open spec fn response_wifi_networks_at(b: Seq<u8>, p: int) -> Option<(ResponseView, int)> {
    match get_bool(b, p) {
        Some((refreshed, p1)) => {
            match get_items::<WifiNetwork>(b, p1) {
                Some((networks, p2)) => {
                    Some((ResponseView::WifiNetworks { refreshed, networks }, p2))
                },
                None => None,
            }
        },
        None => None,
    }
}

/// Reads the fields of a `Response::Error`.
pub open spec fn response_error_at(b: Seq<u8>, p: int) -> Option<(ResponseView, int)> {
    match get_u8(b, p) {
        Some((c1, p1)) => match error_code_of(c1) {
            Some(code) => {
                match get_text(b, p1) {
                    Some((message, p2)) => {
                        Some((ResponseView::Error { code, message }, p2))
                    },
                    None => None,
                }
            },
            None => None,
        },
        None => None,
    }
}

/// Reads the response of payload type `t` at `p`.
pub open spec fn response_payload(t: u8, b: Seq<u8>, p: int) -> Option<(ResponseView, int)> {
    if t == 2 {
        response_pong_at(b, p)
    }     else if t == 15 {
        response_daemon_status_at(b, p)
    }     else if t == 4 {
        response_capabilities_at(b, p)
    }     else if t == 6 {
        response_adapters_at(b, p)
    }     else if t == 8 {
        response_validation_at(b, p)
    }     else if t == 9 {
        response_plan_at(b, p)
    }     else if t == 10 {
        response_apply_at(b, p)
    }     else if t == 12 {
        response_job_status_at(b, p)
    }     else if t == 17 {
        response_jobs_at(b, p)
    }     else if t == 19 {
        response_network_status_at(b, p)
    }     else if t == 21 {
        response_wifi_status_at(b, p)
    }     else if t == 23 {
        response_wifi_networks_at(b, p)
    }     else if t == 13 {
        response_error_at(b, p)
    } else {
        None
    }
}

fn response_type_code(v: &Response) -> (t: u8)
    ensures
        t == response_type(v@),
{
    match v {
        Response::Pong { .. } => 2,
        Response::DaemonStatus { .. } => 15,
        Response::Capabilities(..) => 4,
        Response::Adapters(..) => 6,
        Response::Validation { .. } => 8,
        Response::Plan(..) => 9,
        Response::Apply { .. } => 10,
        Response::JobStatus { .. } => 12,
        Response::Jobs { .. } => 17,
        Response::NetworkStatus { .. } => 19,
        Response::WifiStatus(..) => 21,
        Response::WifiNetworks { .. } => 23,
        Response::Error { .. } => 13,
    }
}

fn write_response_fields(out: &mut Vec<u8>, v: &Response)
    requires
        response_fields(v@).len() <= max_len(),
    ensures
        final(out)@ == old(out)@ + response_fields(v@),
{
    match v {
        Response::Pong { daemon_version, protocol_version } => {
            let mut t: Vec<u8> = Vec::new();
            write_text(&mut t, daemon_version.as_str());
            assert(t@ =~= put_text(daemon_version@));
            write_u32(&mut t, *protocol_version);
            out.append(&mut t);
        },
        Response::DaemonStatus { daemon_version, protocol_version, started_at_unix_ms, uptime_ms, total_jobs, queued_jobs, running_jobs, succeeded_jobs, failed_jobs, rolled_back_jobs } => {
            let mut t: Vec<u8> = Vec::new();
            write_text(&mut t, daemon_version.as_str());
            assert(t@ =~= put_text(daemon_version@));
            write_u32(&mut t, *protocol_version);
            write_u64(&mut t, *started_at_unix_ms);
            write_u64(&mut t, *uptime_ms);
            write_u32(&mut t, *total_jobs);
            write_u32(&mut t, *queued_jobs);
            write_u32(&mut t, *running_jobs);
            write_u32(&mut t, *succeeded_jobs);
            write_u32(&mut t, *failed_jobs);
            write_u32(&mut t, *rolled_back_jobs);
            out.append(&mut t);
        },
        Response::Capabilities(capabilities) => {
            let mut t: Vec<u8> = Vec::new();
            write_items(&mut t, capabilities);
            assert(t@ =~= put_items::<Capability>(views(capabilities@)));
            out.append(&mut t);
        },
        Response::Adapters(adapters) => {
            let mut t: Vec<u8> = Vec::new();
            write_items(&mut t, adapters);
            assert(t@ =~= put_items::<AdapterInfo>(views(adapters@)));
            out.append(&mut t);
        },
        Response::Validation { valid, issues } => {
            let mut t: Vec<u8> = Vec::new();
            write_bool(&mut t, *valid);
            assert(t@ =~= put_bool(*valid));
            write_items(&mut t, issues);
            out.append(&mut t);
        },
        Response::Plan(operations) => {
            let mut t: Vec<u8> = Vec::new();
            write_items(&mut t, operations);
            assert(t@ =~= put_items::<Operation>(views(operations@)));
            out.append(&mut t);
        },
        Response::Apply { job_id, state, operations } => {
            let mut t: Vec<u8> = Vec::new();
            write_text(&mut t, job_id.as_str());
            assert(t@ =~= put_text(job_id@));
            write_u8(&mut t, job_state_to_code(*state));
            write_items(&mut t, operations);
            out.append(&mut t);
        },
        Response::JobStatus { job_id, state, message } => {
            let mut t: Vec<u8> = Vec::new();
            write_text(&mut t, job_id.as_str());
            assert(t@ =~= put_text(job_id@));
            write_u8(&mut t, job_state_to_code(*state));
            write_opt_text(&mut t, message);
            out.append(&mut t);
        },
        Response::Jobs { jobs, total } => {
            let mut t: Vec<u8> = Vec::new();
            write_items(&mut t, jobs);
            assert(t@ =~= put_items::<JobSummary>(views(jobs@)));
            write_u32(&mut t, *total);
            out.append(&mut t);
        },
        Response::NetworkStatus { captured_at_unix_ms, adapters, wifi_interfaces, wifi_error } => {
            let mut t: Vec<u8> = Vec::new();
            write_u64(&mut t, *captured_at_unix_ms);
            assert(t@ =~= put_u64(*captured_at_unix_ms));
            write_items(&mut t, adapters);
            write_items(&mut t, wifi_interfaces);
            write_opt_text(&mut t, wifi_error);
            out.append(&mut t);
        },
        Response::WifiStatus(interfaces) => {
            let mut t: Vec<u8> = Vec::new();
            write_items(&mut t, interfaces);
            assert(t@ =~= put_items::<WifiInterfaceStatus>(views(interfaces@)));
            out.append(&mut t);
        },
        Response::WifiNetworks { refreshed, networks } => {
            let mut t: Vec<u8> = Vec::new();
            write_bool(&mut t, *refreshed);
            assert(t@ =~= put_bool(*refreshed));
            write_items(&mut t, networks);
            out.append(&mut t);
        },
        Response::Error { code, message } => {
            let mut t: Vec<u8> = Vec::new();
            write_u8(&mut t, error_code_to_code(*code));
            assert(t@ =~= put_u8(error_code_code(*code)));
            write_text(&mut t, message.as_str());
            out.append(&mut t);
        },
    }
}

fn read_response_pong(b: &[u8], p: usize) -> (r: Option<(Response, usize)>)
    ensures
        match r {
            Some((x, q)) => response_pong_at(b@, p as int) == Some((x@, q as int)),
            None => response_pong_at(b@, p as int) is None,
        },
{
    let (daemon_version, p1) = read_text(b, p)?;
    let (protocol_version, p2) = read_u32_at(b, p1)?;
    Some((Response::Pong { daemon_version, protocol_version }, p2))
}

fn read_response_daemon_status(b: &[u8], p: usize) -> (r: Option<(Response, usize)>)
    ensures
        match r {
            Some((x, q)) => response_daemon_status_at(b@, p as int) == Some((x@, q as int)),
            None => response_daemon_status_at(b@, p as int) is None,
        },
{
    let (daemon_version, p1) = read_text(b, p)?;
    let (protocol_version, p2) = read_u32_at(b, p1)?;
    let (started_at_unix_ms, p3) = read_u64_at(b, p2)?;
    let (uptime_ms, p4) = read_u64_at(b, p3)?;
    let (total_jobs, p5) = read_u32_at(b, p4)?;
    let (queued_jobs, p6) = read_u32_at(b, p5)?;
    let (running_jobs, p7) = read_u32_at(b, p6)?;
    let (succeeded_jobs, p8) = read_u32_at(b, p7)?;
    let (failed_jobs, p9) = read_u32_at(b, p8)?;
    let (rolled_back_jobs, p10) = read_u32_at(b, p9)?;
    Some((Response::DaemonStatus { daemon_version, protocol_version, started_at_unix_ms, uptime_ms, total_jobs, queued_jobs, running_jobs, succeeded_jobs, failed_jobs, rolled_back_jobs }, p10))
}

fn read_response_capabilities(b: &[u8], p: usize) -> (r: Option<(Response, usize)>)
    ensures
        match r {
            Some((x, q)) => response_capabilities_at(b@, p as int) == Some((x@, q as int)),
            None => response_capabilities_at(b@, p as int) is None,
        },
{
    let (capabilities, p1) = read_items::<Capability>(b, p)?;
    Some((Response::Capabilities(capabilities), p1))
}

fn read_response_adapters(b: &[u8], p: usize) -> (r: Option<(Response, usize)>)
    ensures
        match r {
            Some((x, q)) => response_adapters_at(b@, p as int) == Some((x@, q as int)),
            None => response_adapters_at(b@, p as int) is None,
        },
{
    let (adapters, p1) = read_items::<AdapterInfo>(b, p)?;
    Some((Response::Adapters(adapters), p1))
}

fn read_response_validation(b: &[u8], p: usize) -> (r: Option<(Response, usize)>)
    ensures
        match r {
            Some((x, q)) => response_validation_at(b@, p as int) == Some((x@, q as int)),
            None => response_validation_at(b@, p as int) is None,
        },
{
    let (valid, p1) = read_bool(b, p)?;
    let (issues, p2) = read_items::<ValidationIssue>(b, p1)?;
    Some((Response::Validation { valid, issues }, p2))
}

fn read_response_plan(b: &[u8], p: usize) -> (r: Option<(Response, usize)>)
    ensures
        match r {
            Some((x, q)) => response_plan_at(b@, p as int) == Some((x@, q as int)),
            None => response_plan_at(b@, p as int) is None,
        },
{
    let (operations, p1) = read_items::<Operation>(b, p)?;
    Some((Response::Plan(operations), p1))
}

fn read_response_apply(b: &[u8], p: usize) -> (r: Option<(Response, usize)>)
    ensures
        match r {
            Some((x, q)) => response_apply_at(b@, p as int) == Some((x@, q as int)),
            None => response_apply_at(b@, p as int) is None,
        },
{
    let (job_id, p1) = read_text(b, p)?;
    let (c2, p2) = read_u8(b, p1)?;
    let state = job_state_from_code(c2)?;
    let (operations, p3) = read_items::<Operation>(b, p2)?;
    Some((Response::Apply { job_id, state, operations }, p3))
}

fn read_response_job_status(b: &[u8], p: usize) -> (r: Option<(Response, usize)>)
    ensures
        match r {
            Some((x, q)) => response_job_status_at(b@, p as int) == Some((x@, q as int)),
            None => response_job_status_at(b@, p as int) is None,
        },
{
    let (job_id, p1) = read_text(b, p)?;
    let (c2, p2) = read_u8(b, p1)?;
    let state = job_state_from_code(c2)?;
    let (message, p3) = read_opt_text(b, p2)?;
    Some((Response::JobStatus { job_id, state, message }, p3))
}

fn read_response_jobs(b: &[u8], p: usize) -> (r: Option<(Response, usize)>)
    ensures
        match r {
            Some((x, q)) => response_jobs_at(b@, p as int) == Some((x@, q as int)),
            None => response_jobs_at(b@, p as int) is None,
        },
{
    let (jobs, p1) = read_items::<JobSummary>(b, p)?;
    let (total, p2) = read_u32_at(b, p1)?;
    Some((Response::Jobs { jobs, total }, p2))
}

fn read_response_network_status(b: &[u8], p: usize) -> (r: Option<(Response, usize)>)
    ensures
        match r {
            Some((x, q)) => response_network_status_at(b@, p as int) == Some((x@, q as int)),
            None => response_network_status_at(b@, p as int) is None,
        },
{
    let (captured_at_unix_ms, p1) = read_u64_at(b, p)?;
    let (adapters, p2) = read_items::<AdapterInfo>(b, p1)?;
    let (wifi_interfaces, p3) = read_items::<WifiInterfaceStatus>(b, p2)?;
    let (wifi_error, p4) = read_opt_text(b, p3)?;
    Some((Response::NetworkStatus { captured_at_unix_ms, adapters, wifi_interfaces, wifi_error }, p4))
}

fn read_response_wifi_status(b: &[u8], p: usize) -> (r: Option<(Response, usize)>)
    ensures
        match r {
            Some((x, q)) => response_wifi_status_at(b@, p as int) == Some((x@, q as int)),
            None => response_wifi_status_at(b@, p as int) is None,
        },
{
    let (interfaces, p1) = read_items::<WifiInterfaceStatus>(b, p)?;
    Some((Response::WifiStatus(interfaces), p1))
}

fn read_response_wifi_networks(b: &[u8], p: usize) -> (r: Option<(Response, usize)>)
    ensures
        match r {
            Some((x, q)) => response_wifi_networks_at(b@, p as int) == Some((x@, q as int)),
            None => response_wifi_networks_at(b@, p as int) is None,
        },
{
    let (refreshed, p1) = read_bool(b, p)?;
    let (networks, p2) = read_items::<WifiNetwork>(b, p1)?;
    Some((Response::WifiNetworks { refreshed, networks }, p2))
}

fn read_response_error(b: &[u8], p: usize) -> (r: Option<(Response, usize)>)
    ensures
        match r {
            Some((x, q)) => response_error_at(b@, p as int) == Some((x@, q as int)),
            None => response_error_at(b@, p as int) is None,
        },
{
    let (c1, p1) = read_u8(b, p)?;
    let code = error_code_from_code(c1)?;
    let (message, p2) = read_text(b, p1)?;
    Some((Response::Error { code, message }, p2))
}

fn read_response_payload(t: u8, b: &[u8], p: usize) -> (r: Option<(Response, usize)>)
    ensures
        match r {
            Some((x, q)) => response_payload(t, b@, p as int) == Some((x@, q as int)),
            None => response_payload(t, b@, p as int) is None,
        },
{
    if t == 2 {
        read_response_pong(b, p)
    }     else if t == 15 {
        read_response_daemon_status(b, p)
    }     else if t == 4 {
        read_response_capabilities(b, p)
    }     else if t == 6 {
        read_response_adapters(b, p)
    }     else if t == 8 {
        read_response_validation(b, p)
    }     else if t == 9 {
        read_response_plan(b, p)
    }     else if t == 10 {
        read_response_apply(b, p)
    }     else if t == 12 {
        read_response_job_status(b, p)
    }     else if t == 17 {
        read_response_jobs(b, p)
    }     else if t == 19 {
        read_response_network_status(b, p)
    }     else if t == 21 {
        read_response_wifi_status(b, p)
    }     else if t == 23 {
        read_response_wifi_networks(b, p)
    }     else if t == 13 {
        read_response_error(b, p)
    } else {
        None
    }
}

proof fn lemma_response_pong(b: Seq<u8>, p: int, v: ResponseView)
    requires
        v is Pong,
        contains_at(b, p, response_fields(v)),
        response_fields(v).len() <= max_len(),
    ensures
        response_pong_at(b, p) == Some((v, p + response_fields(v).len())),
{
    match v {
        ResponseView::Pong { daemon_version, protocol_version } => {
            let a0 = put_text(daemon_version);
            let a1 = put_u32(protocol_version);
            lemma_split(b, p, a0, a1);
            lemma_get_text(b, p, daemon_version);
            lemma_get_u32(b, p + (a0).len(), protocol_version);
        },
        _ => {},
    }
}

proof fn lemma_response_daemon_status(b: Seq<u8>, p: int, v: ResponseView)
    requires
        v is DaemonStatus,
        contains_at(b, p, response_fields(v)),
        response_fields(v).len() <= max_len(),
    ensures
        response_daemon_status_at(b, p) == Some((v, p + response_fields(v).len())),
{
    match v {
        ResponseView::DaemonStatus { daemon_version, protocol_version, started_at_unix_ms, uptime_ms, total_jobs, queued_jobs, running_jobs, succeeded_jobs, failed_jobs, rolled_back_jobs } => {
            let a0 = put_text(daemon_version);
            let a1 = put_u32(protocol_version);
            let a2 = put_u64(started_at_unix_ms);
            let a3 = put_u64(uptime_ms);
            let a4 = put_u32(total_jobs);
            let a5 = put_u32(queued_jobs);
            let a6 = put_u32(running_jobs);
            let a7 = put_u32(succeeded_jobs);
            let a8 = put_u32(failed_jobs);
            let a9 = put_u32(rolled_back_jobs);
            lemma_split(b, p, a0 + a1 + a2 + a3 + a4 + a5 + a6 + a7 + a8, a9);
            lemma_split(b, p, a0 + a1 + a2 + a3 + a4 + a5 + a6 + a7, a8);
            lemma_split(b, p, a0 + a1 + a2 + a3 + a4 + a5 + a6, a7);
            lemma_split(b, p, a0 + a1 + a2 + a3 + a4 + a5, a6);
            lemma_split(b, p, a0 + a1 + a2 + a3 + a4, a5);
            lemma_split(b, p, a0 + a1 + a2 + a3, a4);
            lemma_split(b, p, a0 + a1 + a2, a3);
            lemma_split(b, p, a0 + a1, a2);
            lemma_split(b, p, a0, a1);
            lemma_get_text(b, p, daemon_version);
            lemma_get_u32(b, p + (a0).len(), protocol_version);
            lemma_get_u64(b, p + (a0 + a1).len(), started_at_unix_ms);
            lemma_get_u64(b, p + (a0 + a1 + a2).len(), uptime_ms);
            lemma_get_u32(b, p + (a0 + a1 + a2 + a3).len(), total_jobs);
            lemma_get_u32(b, p + (a0 + a1 + a2 + a3 + a4).len(), queued_jobs);
            lemma_get_u32(b, p + (a0 + a1 + a2 + a3 + a4 + a5).len(), running_jobs);
            lemma_get_u32(b, p + (a0 + a1 + a2 + a3 + a4 + a5 + a6).len(), succeeded_jobs);
            lemma_get_u32(b, p + (a0 + a1 + a2 + a3 + a4 + a5 + a6 + a7).len(), failed_jobs);
            lemma_get_u32(b, p + (a0 + a1 + a2 + a3 + a4 + a5 + a6 + a7 + a8).len(), rolled_back_jobs);
        },
        _ => {},
    }
}

proof fn lemma_response_capabilities(b: Seq<u8>, p: int, v: ResponseView)
    requires
        v is Capabilities,
        contains_at(b, p, response_fields(v)),
        response_fields(v).len() <= max_len(),
    ensures
        response_capabilities_at(b, p) == Some((v, p + response_fields(v).len())),
{
    match v {
        ResponseView::Capabilities(capabilities) => {
            let a0 = put_items::<Capability>(capabilities);
            lemma_get_items::<Capability>(b, p, capabilities);
        },
        _ => {},
    }
}

proof fn lemma_response_adapters(b: Seq<u8>, p: int, v: ResponseView)
    requires
        v is Adapters,
        contains_at(b, p, response_fields(v)),
        response_fields(v).len() <= max_len(),
    ensures
        response_adapters_at(b, p) == Some((v, p + response_fields(v).len())),
{
    match v {
        ResponseView::Adapters(adapters) => {
            let a0 = put_items::<AdapterInfo>(adapters);
            lemma_get_items::<AdapterInfo>(b, p, adapters);
        },
        _ => {},
    }
}

proof fn lemma_response_validation(b: Seq<u8>, p: int, v: ResponseView)
    requires
        v is Validation,
        contains_at(b, p, response_fields(v)),
        response_fields(v).len() <= max_len(),
    ensures
        response_validation_at(b, p) == Some((v, p + response_fields(v).len())),
{
    match v {
        ResponseView::Validation { valid, issues } => {
            let a0 = put_bool(valid);
            let a1 = put_items::<ValidationIssue>(issues);
            lemma_split(b, p, a0, a1);
            lemma_get_bool(b, p, valid);
            lemma_get_items::<ValidationIssue>(b, p + (a0).len(), issues);
        },
        _ => {},
    }
}

proof fn lemma_response_plan(b: Seq<u8>, p: int, v: ResponseView)
    requires
        v is Plan,
        contains_at(b, p, response_fields(v)),
        response_fields(v).len() <= max_len(),
    ensures
        response_plan_at(b, p) == Some((v, p + response_fields(v).len())),
{
    match v {
        ResponseView::Plan(operations) => {
            let a0 = put_items::<Operation>(operations);
            lemma_get_items::<Operation>(b, p, operations);
        },
        _ => {},
    }
}

proof fn lemma_response_apply(b: Seq<u8>, p: int, v: ResponseView)
    requires
        v is Apply,
        contains_at(b, p, response_fields(v)),
        response_fields(v).len() <= max_len(),
    ensures
        response_apply_at(b, p) == Some((v, p + response_fields(v).len())),
{
    match v {
        ResponseView::Apply { job_id, state, operations } => {
            let a0 = put_text(job_id);
            let a1 = put_u8(job_state_code(state));
            let a2 = put_items::<Operation>(operations);
            lemma_split(b, p, a0 + a1, a2);
            lemma_split(b, p, a0, a1);
            lemma_get_text(b, p, job_id);
            lemma_get_u8(b, p + (a0).len(), job_state_code(state));
            lemma_get_items::<Operation>(b, p + (a0 + a1).len(), operations);
        },
        _ => {},
    }
}

proof fn lemma_response_job_status(b: Seq<u8>, p: int, v: ResponseView)
    requires
        v is JobStatus,
        contains_at(b, p, response_fields(v)),
        response_fields(v).len() <= max_len(),
    ensures
        response_job_status_at(b, p) == Some((v, p + response_fields(v).len())),
{
    match v {
        ResponseView::JobStatus { job_id, state, message } => {
            let a0 = put_text(job_id);
            let a1 = put_u8(job_state_code(state));
            let a2 = put_opt_text(message);
            lemma_split(b, p, a0 + a1, a2);
            lemma_split(b, p, a0, a1);
            lemma_get_text(b, p, job_id);
            lemma_get_u8(b, p + (a0).len(), job_state_code(state));
            lemma_get_opt_text(b, p + (a0 + a1).len(), message);
        },
        _ => {},
    }
}

proof fn lemma_response_jobs(b: Seq<u8>, p: int, v: ResponseView)
    requires
        v is Jobs,
        contains_at(b, p, response_fields(v)),
        response_fields(v).len() <= max_len(),
    ensures
        response_jobs_at(b, p) == Some((v, p + response_fields(v).len())),
{
    match v {
        ResponseView::Jobs { jobs, total } => {
            let a0 = put_items::<JobSummary>(jobs);
            let a1 = put_u32(total);
            lemma_split(b, p, a0, a1);
            lemma_get_items::<JobSummary>(b, p, jobs);
            lemma_get_u32(b, p + (a0).len(), total);
        },
        _ => {},
    }
}

proof fn lemma_response_network_status(b: Seq<u8>, p: int, v: ResponseView)
    requires
        v is NetworkStatus,
        contains_at(b, p, response_fields(v)),
        response_fields(v).len() <= max_len(),
    ensures
        response_network_status_at(b, p) == Some((v, p + response_fields(v).len())),
{
    match v {
        ResponseView::NetworkStatus { captured_at_unix_ms, adapters, wifi_interfaces, wifi_error } => {
            let a0 = put_u64(captured_at_unix_ms);
            let a1 = put_items::<AdapterInfo>(adapters);
            let a2 = put_items::<WifiInterfaceStatus>(wifi_interfaces);
            let a3 = put_opt_text(wifi_error);
            lemma_split(b, p, a0 + a1 + a2, a3);
            lemma_split(b, p, a0 + a1, a2);
            lemma_split(b, p, a0, a1);
            lemma_get_u64(b, p, captured_at_unix_ms);
            lemma_get_items::<AdapterInfo>(b, p + (a0).len(), adapters);
            lemma_get_items::<WifiInterfaceStatus>(b, p + (a0 + a1).len(), wifi_interfaces);
            lemma_get_opt_text(b, p + (a0 + a1 + a2).len(), wifi_error);
        },
        _ => {},
    }
}

proof fn lemma_response_wifi_status(b: Seq<u8>, p: int, v: ResponseView)
    requires
        v is WifiStatus,
        contains_at(b, p, response_fields(v)),
        response_fields(v).len() <= max_len(),
    ensures
        response_wifi_status_at(b, p) == Some((v, p + response_fields(v).len())),
{
    match v {
        ResponseView::WifiStatus(interfaces) => {
            let a0 = put_items::<WifiInterfaceStatus>(interfaces);
            lemma_get_items::<WifiInterfaceStatus>(b, p, interfaces);
        },
        _ => {},
    }
}

proof fn lemma_response_wifi_networks(b: Seq<u8>, p: int, v: ResponseView)
    requires
        v is WifiNetworks,
        contains_at(b, p, response_fields(v)),
        response_fields(v).len() <= max_len(),
    ensures
        response_wifi_networks_at(b, p) == Some((v, p + response_fields(v).len())),
{
    match v {
        ResponseView::WifiNetworks { refreshed, networks } => {
            let a0 = put_bool(refreshed);
            let a1 = put_items::<WifiNetwork>(networks);
            lemma_split(b, p, a0, a1);
            lemma_get_bool(b, p, refreshed);
            lemma_get_items::<WifiNetwork>(b, p + (a0).len(), networks);
        },
        _ => {},
    }
}

proof fn lemma_response_error(b: Seq<u8>, p: int, v: ResponseView)
    requires
        v is Error,
        contains_at(b, p, response_fields(v)),
        response_fields(v).len() <= max_len(),
    ensures
        response_error_at(b, p) == Some((v, p + response_fields(v).len())),
{
    match v {
        ResponseView::Error { code, message } => {
            let a0 = put_u8(error_code_code(code));
            let a1 = put_text(message);
            lemma_split(b, p, a0, a1);
            lemma_get_u8(b, p, error_code_code(code));
            lemma_get_text(b, p + (a0).len(), message);
        },
        _ => {},
    }
}

proof fn lemma_response_payload(b: Seq<u8>, p: int, v: ResponseView)
    requires
        contains_at(b, p, response_fields(v)),
        response_fields(v).len() <= max_len(),
    ensures
        response_payload(response_type(v), b, p) == Some((v, p + response_fields(v).len())),
        is_response_type(response_type(v)),
{
    match v {
        ResponseView::Pong { .. } => lemma_response_pong(b, p, v),
        ResponseView::DaemonStatus { .. } => lemma_response_daemon_status(b, p, v),
        ResponseView::Capabilities(..) => lemma_response_capabilities(b, p, v),
        ResponseView::Adapters(..) => lemma_response_adapters(b, p, v),
        ResponseView::Validation { .. } => lemma_response_validation(b, p, v),
        ResponseView::Plan(..) => lemma_response_plan(b, p, v),
        ResponseView::Apply { .. } => lemma_response_apply(b, p, v),
        ResponseView::JobStatus { .. } => lemma_response_job_status(b, p, v),
        ResponseView::Jobs { .. } => lemma_response_jobs(b, p, v),
        ResponseView::NetworkStatus { .. } => lemma_response_network_status(b, p, v),
        ResponseView::WifiStatus(..) => lemma_response_wifi_status(b, p, v),
        ResponseView::WifiNetworks { .. } => lemma_response_wifi_networks(b, p, v),
        ResponseView::Error { .. } => lemma_response_error(b, p, v),
    }
}

// ---------------------------------------------------------------------------
// Payload union discriminators
// ---------------------------------------------------------------------------

/// Members of the payload union, in discriminator order.
#[derive(Clone, Copy, Debug, PartialEq, Eq, Structural)]
pub enum PayloadType {
    PingRequest,
    PingResponse,
    CapabilitiesRequest,
    CapabilitiesResponse,
    ListAdaptersRequest,
    ListAdaptersResponse,
    ConfigRequest,
    ValidateConfigResponse,
    PlanConfigResponse,
    ApplyConfigResponse,
    JobStatusRequest,
    JobStatusResponse,
    ErrorResponse,
    DaemonStatusRequest,
    DaemonStatusResponse,
    ListJobsRequest,
    ListJobsResponse,
    NetworkStatusRequest,
    NetworkStatusResponse,
    WifiStatusRequest,
    WifiStatusResponse,
    WifiScanRequest,
    WifiScanResponse,
}

/// Discriminator of a payload union member; members added after version 1
/// follow those that version 1 defined.
pub open spec fn payload_code(t: PayloadType) -> u8 {
    match t {
        PayloadType::PingRequest => 1,
        PayloadType::PingResponse => 2,
        PayloadType::CapabilitiesRequest => 3,
        PayloadType::CapabilitiesResponse => 4,
        PayloadType::ListAdaptersRequest => 5,
        PayloadType::ListAdaptersResponse => 6,
        PayloadType::ConfigRequest => 7,
        PayloadType::ValidateConfigResponse => 8,
        PayloadType::PlanConfigResponse => 9,
        PayloadType::ApplyConfigResponse => 10,
        PayloadType::JobStatusRequest => 11,
        PayloadType::JobStatusResponse => 12,
        PayloadType::ErrorResponse => 13,
        PayloadType::DaemonStatusRequest => 14,
        PayloadType::DaemonStatusResponse => 15,
        PayloadType::ListJobsRequest => 16,
        PayloadType::ListJobsResponse => 17,
        PayloadType::NetworkStatusRequest => 18,
        PayloadType::NetworkStatusResponse => 19,
        PayloadType::WifiStatusRequest => 20,
        PayloadType::WifiStatusResponse => 21,
        PayloadType::WifiScanRequest => 22,
        PayloadType::WifiScanResponse => 23,
    }
}

impl PayloadType {
    /// The discriminator of this member.
    pub fn code(self) -> (c: u8)
        ensures
            c == payload_code(self),
    {
        match self {
            PayloadType::PingRequest => 1,
            PayloadType::PingResponse => 2,
            PayloadType::CapabilitiesRequest => 3,
            PayloadType::CapabilitiesResponse => 4,
            PayloadType::ListAdaptersRequest => 5,
            PayloadType::ListAdaptersResponse => 6,
            PayloadType::ConfigRequest => 7,
            PayloadType::ValidateConfigResponse => 8,
            PayloadType::PlanConfigResponse => 9,
            PayloadType::ApplyConfigResponse => 10,
            PayloadType::JobStatusRequest => 11,
            PayloadType::JobStatusResponse => 12,
            PayloadType::ErrorResponse => 13,
            PayloadType::DaemonStatusRequest => 14,
            PayloadType::DaemonStatusResponse => 15,
            PayloadType::ListJobsRequest => 16,
            PayloadType::ListJobsResponse => 17,
            PayloadType::NetworkStatusRequest => 18,
            PayloadType::NetworkStatusResponse => 19,
            PayloadType::WifiStatusRequest => 20,
            PayloadType::WifiStatusResponse => 21,
            PayloadType::WifiScanRequest => 22,
            PayloadType::WifiScanResponse => 23,
        }
    }
}

// ---------------------------------------------------------------------------
// Frames
// ---------------------------------------------------------------------------

/// The `PNET` file identifier.
pub open spec fn file_identifier() -> Seq<u8> {
    seq![0x50u8, 0x4e, 0x45, 0x54]
}

proof fn lemma_identifier_literal()
    ensures
        "PNET".spec_bytes() == file_identifier(),
{
    reveal_strlit("PNET");
    vstd::utf8::is_ascii_chars_encode_utf8("PNET"@);
    assert("PNET".spec_bytes() =~= file_identifier());
}

/// Largest frame that is built: the 2 GiB limit of a size-prefixed buffer.
pub open spec fn encode_limit() -> int {
    0x7fff_ffff
}

/// Envelope header: root offset, file identifier, protocol version and
/// request identifier.
pub open spec fn header(request_id: u64) -> Seq<u8> {
    le32(8) + file_identifier() + le32(PROTOCOL_VERSION) + le64(request_id)
}

/// A complete frame: the body length, then the header, the payload type and
/// the payload's fields.
pub open spec fn frame_of(request_id: u64, payload_type: u8, fields: Seq<u8>) -> Seq<u8> {
    let body = header(request_id) + put_u8(payload_type) + fields;
    le32(body.len() as u32) + body
}

/// The frame of a request.
pub open spec fn request_frame(request_id: u64, r: RequestView) -> Seq<u8> {
    frame_of(request_id, request_type(r), request_fields(r))
}

/// The frame of a response.
pub open spec fn response_frame(request_id: u64, r: ResponseView) -> Seq<u8> {
    frame_of(request_id, response_type(r), response_fields(r))
}

/// Diagnostic of a frame whose length prefix is wrong.
pub open spec fn length_message(declared: nat, actual: nat) -> Seq<char> {
    "invalid frame length: declared "@ + dec(declared) + ", actual "@ + dec(actual)
}

/// Diagnostic of a frame of another protocol version.
pub open spec fn version_message(version: nat) -> Seq<char> {
    "unsupported protocol version "@ + dec(version) + "; expected "@ + dec(PROTOCOL_VERSION as nat)
}

/// Problem with the length prefix of a frame, if any.
pub open spec fn frame_length_error(b: Seq<u8>) -> Option<Seq<char>> {
    if b.len() < 4 {
        Some("frame is missing its size prefix"@)
    } else if u32_at(b, 0) == 0 || u32_at(b, 0) > MAX_FRAME_SIZE || u32_at(b, 0) + 4 != b.len() {
        Some(length_message(u32_at(b, 0) as nat, (b.len() - 4) as nat))
    } else {
        None
    }
}

/// Problem with the envelope of a frame, if any, in the order in which it is
/// checked: length, file identifier (a frame too short to hold one has
/// none), header layout, protocol version.
pub open spec fn envelope_error(b: Seq<u8>) -> Option<Seq<char>> {
    match frame_length_error(b) {
        Some(m) => Some(m),
        None => if b.len() < 12 || b.subrange(8, 12) != file_identifier() {
            Some("missing PNET file identifier"@)
        } else if b.len() < 25 || u32_at(b, 4) != 8 {
            Some("malformed frame body"@)
        } else if u32_at(b, 12) != PROTOCOL_VERSION {
            Some(version_message(u32_at(b, 12) as nat))
        } else {
            None
        },
    }
}

/// What a frame decodes to as a request: its request identifier and
/// payload, or the diagnostic of the first problem.
pub open spec fn request_frame_result(b: Seq<u8>) -> Result<(u64, RequestView), Seq<char>> {
    match envelope_error(b) {
        Some(m) => Err(m),
        None => if !is_request_type(b[24]) {
            Err("frame does not contain a request"@)
        } else {
            match request_payload(b[24], b, 25) {
                Some((r, q)) => if q == b.len() {
                    Ok((u64_at(b, 16) as u64, r))
                } else {
                    Err("malformed frame body"@)
                },
                None => Err("malformed frame body"@),
            }
        },
    }
}

/// What a frame decodes to as a response.
pub open spec fn response_frame_result(b: Seq<u8>) -> Result<(u64, ResponseView), Seq<char>> {
    match envelope_error(b) {
        Some(m) => Err(m),
        None => if !is_response_type(b[24]) {
            Err("frame does not contain a response"@)
        } else {
            match response_payload(b[24], b, 25) {
                Some((r, q)) => if q == b.len() {
                    Ok((u64_at(b, 16) as u64, r))
                } else {
                    Err("malformed frame body"@)
                },
                None => Err("malformed frame body"@),
            }
        },
    }
}

/// A decoding result agrees with its specification.
pub open spec fn frame_agrees<T: View>(r: Result<Frame<T>, Error>, s: Result<(u64, T::V), Seq<char>>) -> bool {
    match r {
        Ok(f) => s == Ok::<(u64, T::V), Seq<char>>((f.request_id, f.payload@)),
        Err(Error::Protocol(m)) => s == Err::<(u64, T::V), Seq<char>>(m@),
        Err(_) => false,
    }
}

/// `flatbuffers::buffer_has_identifier`: whether the four bytes after the
/// root offset (and after the size prefix, for a size-prefixed buffer) are
/// those of `ident`. The function asserts that `ident` has four bytes and that
/// the buffer is long enough.
#[verifier::external_body]
fn buffer_has_identifier(data: &[u8], ident: &str, size_prefixed: bool) -> (r: bool)
    requires
        ident.spec_bytes().len() == 4,
        data@.len() >= if size_prefixed { 12int } else { 8int },
    ensures
        size_prefixed ==> r == (data@.subrange(8, 12) == ident.spec_bytes()),
        !size_prefixed ==> r == (data@.subrange(4, 8) == ident.spec_bytes()),
{
    flatbuffers::buffer_has_identifier(data, ident, size_prefixed)
}

/// Checks the length prefix of a frame.
pub fn validate_frame_length(frame: &[u8]) -> (r: Result<(), Error>)
    ensures
        match frame_length_error(frame@) {
            Some(m) => r matches Err(Error::Protocol(s)) && s@ == m,
            None => r is Ok,
        },
{
    let len = frame.len();
    if len < 4 {
        return Err(Error::Protocol(owned("frame is missing its size prefix")));
    }
    let body_len = read_u32(frame, 0);
    if body_len == 0 || body_len as usize > MAX_FRAME_SIZE || body_len as usize != len - 4 {
        let mut m = owned("invalid frame length: declared ");
        let d = decimal(body_len as u64);
        append(&mut m, d.as_str());
        append(&mut m, ", actual ");
        let a = decimal((len - 4) as u64);
        append(&mut m, a.as_str());
        return Err(Error::Protocol(m));
    }
    Ok(())
}

/// Checks the body length announced by a size prefix before the body is read.
pub fn check_body_length(body_len: u32) -> (r: Result<usize, Error>)
    ensures
        match r {
            Ok(n) => n == body_len && 0 < body_len <= MAX_FRAME_SIZE,
            Err(Error::Protocol(m)) => !(0 < body_len <= MAX_FRAME_SIZE) && m@ == "frame body length "@
                + dec(body_len as nat) + " exceeds the allowed range"@,
            Err(_) => false,
        },
{
    if body_len == 0 || body_len as usize > MAX_FRAME_SIZE {
        let mut m = owned("frame body length ");
        let d = decimal(body_len as u64);
        append(&mut m, d.as_str());
        append(&mut m, " exceeds the allowed range");
        return Err(Error::Protocol(m));
    }
    Ok(body_len as usize)
}

/// Checks the envelope of a frame and returns its request identifier.
fn check_envelope(frame: &[u8]) -> (r: Result<u64, Error>)
    ensures
        match envelope_error(frame@) {
            Some(m) => r matches Err(Error::Protocol(s)) && s@ == m,
            None => r == Ok::<u64, Error>(u64_at(frame@, 16) as u64),
        },
{
    validate_frame_length(frame)?;
    proof {
        lemma_identifier_literal();
    }
    if frame.len() < 12 {
        return Err(Error::Protocol(owned("missing PNET file identifier")));
    }
    if !buffer_has_identifier(frame, "PNET", true) {
        return Err(Error::Protocol(owned("missing PNET file identifier")));
    }
    if frame.len() < 25 || read_u32(frame, 4) != 8 {
        return Err(Error::Protocol(owned("malformed frame body")));
    }
    let version = read_u32(frame, 12);
    if version != PROTOCOL_VERSION {
        let mut m = owned("unsupported protocol version ");
        let d = decimal(version as u64);
        append(&mut m, d.as_str());
        append(&mut m, "; expected ");
        let e = decimal(PROTOCOL_VERSION as u64);
        append(&mut m, e.as_str());
        return Err(Error::Protocol(m));
    }
    Ok(read_u64(frame, 16))
}

fn is_request_type_code(t: u8) -> (r: bool)
    ensures
        r == is_request_type(t),
{
    t == 1 || t == 14 || t == 3 || t == 5 || t == 7 || t == 11 || t == 16 || t == 18 || t == 20
        || t == 22
}

fn is_response_type_code(t: u8) -> (r: bool)
    ensures
        r == is_response_type(t),
{
    t == 2 || t == 15 || t == 4 || t == 6 || t == 8 || t == 9 || t == 10 || t == 12 || t == 17
        || t == 19 || t == 21 || t == 23 || t == 13
}

/// Writes a frame around a payload type and its fields.
fn finish_frame(request_id: u64, payload_type: u8, fields: &mut Vec<u8>) -> (out: Vec<u8>)
    requires
        frame_of(request_id, payload_type, old(fields)@).len() <= encode_limit(),
    ensures
        out@ == frame_of(request_id, payload_type, old(fields)@),
{
    let mut body: Vec<u8> = Vec::new();
    write_u32(&mut body, 8);
    assert(body@ =~= le32(8));
    proof {
        lemma_identifier_literal();
    }
    let ident = "PNET".as_bytes();
    body.push(ident[0]);
    body.push(ident[1]);
    body.push(ident[2]);
    body.push(ident[3]);
    assert(body@ =~= le32(8) + file_identifier());
    write_u32(&mut body, PROTOCOL_VERSION);
    write_u64(&mut body, request_id);
    write_u8(&mut body, payload_type);
    body.append(fields);
    let mut out: Vec<u8> = Vec::new();
    write_u32(&mut out, body.len() as u32);
    assert(out@ =~= le32(body@.len() as u32));
    out.append(&mut body);
    out
}

/// Encode one request as a size-prefixed frame.
pub fn encode_request(request_id: u64, request: &Request) -> (out: Vec<u8>)
    requires
        request_frame(request_id, request@).len() <= encode_limit(),
    ensures
        out@ == request_frame(request_id, request@),
{
    let mut fields: Vec<u8> = Vec::new();
    write_request_fields(&mut fields, request);
    assert(fields@ =~= request_fields(request@));
    finish_frame(request_id, request_type_code(request), &mut fields)
}

/// Encode one response as a size-prefixed frame.
pub fn encode_response(request_id: u64, response: &Response) -> (out: Vec<u8>)
    requires
        response_frame(request_id, response@).len() <= encode_limit(),
    ensures
        out@ == response_frame(request_id, response@),
{
    let mut fields: Vec<u8> = Vec::new();
    write_response_fields(&mut fields, response);
    assert(fields@ =~= response_fields(response@));
    finish_frame(request_id, response_type_code(response), &mut fields)
}

/// Decode and verify one request frame.
pub fn decode_request(frame: &[u8]) -> (r: Result<Frame<Request>, Error>)
    ensures
        frame_agrees(r, request_frame_result(frame@)),
{
    let request_id = check_envelope(frame)?;
    let t = frame[24];
    if !is_request_type_code(t) {
        return Err(Error::Protocol(owned("frame does not contain a request")));
    }
    match read_request_payload(t, frame, 25) {
        Some((payload, q)) => {
            if q == frame.len() {
                Ok(Frame { request_id, payload })
            } else {
                Err(Error::Protocol(owned("malformed frame body")))
            }
        },
        None => Err(Error::Protocol(owned("malformed frame body"))),
    }
}

/// Decode and verify one response frame.
pub fn decode_response(frame: &[u8]) -> (r: Result<Frame<Response>, Error>)
    ensures
        frame_agrees(r, response_frame_result(frame@)),
{
    let request_id = check_envelope(frame)?;
    let t = frame[24];
    if !is_response_type_code(t) {
        return Err(Error::Protocol(owned("frame does not contain a response")));
    }
    match read_response_payload(t, frame, 25) {
        Some((payload, q)) => {
            if q == frame.len() {
                Ok(Frame { request_id, payload })
            } else {
                Err(Error::Protocol(owned("malformed frame body")))
            }
        },
        None => Err(Error::Protocol(owned("malformed frame body"))),
    }
}

// ---------------------------------------------------------------------------
// Round trips
// ---------------------------------------------------------------------------

/// Reading the envelope of a frame built by `frame_of` gives back its parts.
proof fn lemma_frame_of(request_id: u64, t: u8, fields: Seq<u8>)
    requires
        frame_of(request_id, t, fields).len() <= MAX_FRAME_SIZE + 4,
    ensures
        ({
            let b = frame_of(request_id, t, fields);
            &&& envelope_error(b) is None
            &&& b[24] == t
            &&& u64_at(b, 16) == request_id
            &&& contains_at(b, 25, fields)
            &&& 25 + fields.len() == b.len()
        }),
{
    let b = frame_of(request_id, t, fields);
    let body = header(request_id) + put_u8(t) + fields;
    let n = body.len() as u32;
    lemma_whole(b);
    lemma_split(b, 0, le32(n), body);
    lemma_u32_at(b, 0, n);
    lemma_split(b, 4, header(request_id) + put_u8(t), fields);
    lemma_split(b, 4, header(request_id), put_u8(t));
    lemma_split(b, 4, le32(8) + file_identifier() + le32(PROTOCOL_VERSION), le64(request_id));
    lemma_split(b, 4, le32(8) + file_identifier(), le32(PROTOCOL_VERSION));
    lemma_split(b, 4, le32(8), file_identifier());
    lemma_u32_at(b, 4, 8);
    lemma_subrange(b, 8, file_identifier());
    lemma_u32_at(b, 12, PROTOCOL_VERSION);
    lemma_u64_at(b, 16, request_id);
    lemma_subrange(b, 24, put_u8(t));
    assert(b.subrange(24, 25)[0] == b[24]);
}

/// Decoding the frame of a request gives back its identifier and payload.
pub proof fn lemma_request_round_trip(request_id: u64, r: RequestView)
    requires
        request_frame(request_id, r).len() <= MAX_FRAME_SIZE + 4,
    ensures
        request_frame_result(request_frame(request_id, r)) == Ok::<(u64, RequestView), Seq<char>>(
            (request_id, r),
        ),
{
    let b = request_frame(request_id, r);
    lemma_frame_of(request_id, request_type(r), request_fields(r));
    lemma_request_payload(b, 25, r);
}

/// Decoding the frame of a response gives back its identifier and payload.
pub proof fn lemma_response_round_trip(request_id: u64, r: ResponseView)
    requires
        response_frame(request_id, r).len() <= MAX_FRAME_SIZE + 4,
    ensures
        response_frame_result(response_frame(request_id, r)) == Ok::<(u64, ResponseView), Seq<char>>(
            (request_id, r),
        ),
{
    let b = response_frame(request_id, r);
    lemma_frame_of(request_id, response_type(r), response_fields(r));
    lemma_response_payload(b, 25, r);
}

} // verus!
