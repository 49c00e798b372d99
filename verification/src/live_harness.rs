//! Records of the loopback live experiment harness.
use vstd::prelude::*;
use crate::error::{BenchmarkError, LivePreparationErrorCode};
use vstd::string::StrSliceExecFns;
use crate::context_stability::Observed;
use crate::fields::{bounded_text, check_bounded_text};
use crate::text::{concat2, concat3, opt_view, owned, push_char, str_eq};
use crate::ordering::{check_keys_sorted, keys_sorted};
use crate::conformance::{lemma_same_but_instruction, request_json, request_ok, same_but_instruction, text_fingerprint, with_instruction, ConformanceRequest};
use crate::hashing::sha256_hex;
use crate::json::{array_value, json_array, json_object, json_string, member, object_value, push_member, string_value};
use crate::loader::json_digest;
use crate::ordering::views;
use crate::materialization::{build_candidate_experiment_pair, CandidateExperimentPair, MaterializedCandidate};

verus! {

#[derive(Debug, Clone, PartialEq)]
pub struct LoopbackEndpoint {
    pub url: String,
}

#[derive(Debug, Clone, Copy, PartialEq, Eq, Structural)]
pub enum LiveSequenceRole {
    Control,
    CandidateTreatment,
    Interference,
}

#[derive(Debug, Clone, PartialEq, Eq)]
pub enum LiveSequenceRelation {
    Initial,
    ExactRepeatOf(String),
    ReturnTo(String),
    Independent,
}

#[derive(Debug, Clone, PartialEq, Eq)]
pub struct LiveSequenceStep {
    pub step_id: String,
    pub role: LiveSequenceRole,
    pub request_fingerprint: String,
    pub relation: LiveSequenceRelation,
}

#[derive(Debug, Clone, Copy, PartialEq, Eq, Structural)]
pub enum LiveEvidenceState {
    Prepared,
    Executed,
    Normalized,
    Admitted,
    Partial,
    Failed,
}

#[derive(Debug, Clone, PartialEq, Eq)]
pub struct LiveFailure {
    pub code: String,
    pub message: String,
}

#[derive(Debug, Clone, PartialEq)]
pub struct LiveReadinessRecord {
    pub schema_id: String,
    pub schema_version: u32,
    pub state: LiveEvidenceState,
    pub network_calls: u32,
    pub experiment_id: String,
    pub source_request_fingerprint: String,
    pub treatment_request_fingerprint: String,
    pub safety_certificate_fingerprint: String,
    pub runtime_config_fingerprint: String,
    pub endpoint: LoopbackEndpoint,
    pub sequence_step_ids: Vec<String>,
    pub provenance: Vec<(String, String)>,
}

/// The parts of a parsed URL that the endpoint rules read.
#[derive(Debug, Clone, PartialEq, Eq)]
pub struct UrlParts {
    pub scheme: String,
    pub username: String,
    pub password: Option<String>,
    pub host: Option<String>,
    pub query: Option<String>,
    pub fragment: Option<String>,
}

pub open spec fn url_parts_view(r: Result<UrlParts, String>) -> Result<(Seq<char>, Seq<char>, Option<Seq<char>>, Option<Seq<char>>, Option<Seq<char>>, Option<Seq<char>>), Seq<char>> {
    match r {
        Ok(p) => Ok((p.scheme@, p.username@, opt_view(p.password), opt_view(p.host), opt_view(p.query), opt_view(p.fragment))),
        Err(e) => Err(e@),
    }
}

/// What the `url` crate's parser (behind `reqwest::Url::parse`) makes of a
/// text: scheme, username, password, host, query and fragment of the URL,
/// or the text of the parse error.
pub uninterp spec fn url_parse(text: Seq<char>) -> Result<(Seq<char>, Seq<char>, Option<Seq<char>>, Option<Seq<char>>, Option<Seq<char>>, Option<Seq<char>>), Seq<char>>;

/// `reqwest::Url::parse`, reduced to the parts the endpoint rules read.
/// Parsing uses no base URL and no other state, so its result is named as a
/// function of the text; nothing else about the parser is claimed.
#[verifier::external_body]
fn parse_url(text: &str) -> (r: Result<UrlParts, String>)
    ensures
        url_parts_view(r) == url_parse(text@),
{
    match reqwest::Url::parse(text) {
        Ok(u) => Ok(UrlParts {
            scheme: u.scheme().to_string(),
            username: u.username().to_string(),
            password: u.password().map(str::to_string),
            host: u.host_str().map(str::to_string),
            query: u.query().map(str::to_string),
            fragment: u.fragment().map(str::to_string),
        }),
        Err(e) => Err(e.to_string()),
    }
}

/// The hosts accepted as loopback literals.
pub open spec fn is_loopback_host(host: Seq<char>) -> bool {
    host == "127.0.0.1"@ || host == "::1"@ || host == "[::1]"@ || host == "localhost"@
}

/// The code and message an endpoint is refused with, if it is.
pub open spec fn endpoint_refusal(
    parsed: Result<(Seq<char>, Seq<char>, Option<Seq<char>>, Option<Seq<char>>, Option<Seq<char>>, Option<Seq<char>>), Seq<char>>,
) -> Option<(LivePreparationErrorCode, Seq<char>)> {
    match parsed {
        Err(error) => Some((LivePreparationErrorCode::InvalidEndpoint, bounded_message("endpoint URL is invalid: "@ + error))),
        Ok((scheme, username, password, host, query, fragment)) => {
            if scheme != "http"@ || username != ""@ || password is Some {
                Some((LivePreparationErrorCode::InvalidEndpoint, "only unauthenticated HTTP endpoints are supported"@))
            } else if query is Some || fragment is Some {
                Some((LivePreparationErrorCode::InvalidEndpoint, "endpoint must not contain a query or fragment"@))
            } else {
                match host {
                    Some(h) => if is_loopback_host(h) {
                        None
                    } else {
                        Some((LivePreparationErrorCode::NonLoopbackEndpoint, "endpoint host is not an approved loopback literal"@))
                    },
                    None => Some((LivePreparationErrorCode::InvalidEndpoint, "endpoint must contain a host"@)),
                }
            }
        },
    }
}

/// `r` is the verdict `endpoint_refusal` gives on `parsed`.
pub open spec fn endpoint_verdict(
    r: Result<(), BenchmarkError>,
    parsed: Result<(Seq<char>, Seq<char>, Option<Seq<char>>, Option<Seq<char>>, Option<Seq<char>>, Option<Seq<char>>), Seq<char>>,
) -> bool {
    match r {
        Ok(_) => endpoint_refusal(parsed) is None,
        Err(BenchmarkError::LiveHarness { code, message }) => endpoint_refusal(parsed) == Some((code, message@)),
        Err(_) => false,
    }
}

fn refuse(code: LivePreparationErrorCode, message: &str) -> (r: Result<(), BenchmarkError>)
    ensures
        r matches Err(BenchmarkError::LiveHarness { code: c, message: m }) && c == code && m@ == message@,
{
    Err(BenchmarkError::live_harness(code, message))
}

/// Decides whether parsed URL parts name an unauthenticated loopback HTTP
/// endpoint without query or fragment.
pub fn check_endpoint_parts(parsed: &Result<UrlParts, String>) -> (r: Result<(), BenchmarkError>)
    ensures
        endpoint_verdict(r, url_parts_view(*parsed)),
{
    proof {
        reveal_strlit("http");
        reveal_strlit("");
        reveal_strlit("127.0.0.1");
        reveal_strlit("::1");
        reveal_strlit("[::1]");
        reveal_strlit("localhost");
    }
    match parsed {
        Err(error) => {
            let message = concat2("endpoint URL is invalid: ", error.as_str());
            Err(live_error(LivePreparationErrorCode::InvalidEndpoint, message.as_str()))
        },
        Ok(parts) => {
            if !str_eq(parts.scheme.as_str(), "http") || !str_eq(parts.username.as_str(), "") || parts.password.is_some() {
                return refuse(LivePreparationErrorCode::InvalidEndpoint, "only unauthenticated HTTP endpoints are supported");
            }
            if parts.query.is_some() || parts.fragment.is_some() {
                return refuse(LivePreparationErrorCode::InvalidEndpoint, "endpoint must not contain a query or fragment");
            }
            match &parts.host {
                Some(h) => {
                    let host = h.as_str();
                    if str_eq(host, "127.0.0.1") || str_eq(host, "::1") || str_eq(host, "[::1]") || str_eq(host, "localhost") {
                        Ok(())
                    } else {
                        refuse(LivePreparationErrorCode::NonLoopbackEndpoint, "endpoint host is not an approved loopback literal")
                    }
                },
                None => refuse(LivePreparationErrorCode::InvalidEndpoint, "endpoint must contain a host"),
            }
        },
    }
}

impl LoopbackEndpoint {
    /// An endpoint for `value`, if it names an unauthenticated loopback HTTP
    /// endpoint without query or fragment.
    pub fn parse(value: String) -> (r: Result<Self, BenchmarkError>)
        ensures
            match r {
                Ok(endpoint) => endpoint.url == value && endpoint_refusal(url_parse(value@)) is None,
                Err(e) => endpoint_verdict(Err(e), url_parse(value@)),
            },
    {
        let endpoint = Self { url: value };
        match endpoint.validate() {
            Ok(_) => Ok(endpoint),
            Err(e) => Err(e),
        }
    }

    /// Checks that the URL names an unauthenticated loopback HTTP endpoint.
    pub fn validate(&self) -> (r: Result<(), BenchmarkError>)
        ensures
            endpoint_verdict(r, url_parse(self.url@)),
    {
        let parsed = parse_url(self.url.as_str());
        check_endpoint_parts(&parsed)
    }
}

// ---------------------------------------------------------------------------
// Bounded texts, maps and the environment manifest.

/// The longest message a live harness error carries, in characters.
pub const MAX_LIVE_TEXT_BYTES: usize = 512;
pub const MAX_LIVE_PROVENANCE: usize = 32;
pub const ENVIRONMENT_MANIFEST_SCHEMA_ID: &'static str = "prefixity.live-environment-manifest";
pub const ENVIRONMENT_MANIFEST_SCHEMA_VERSION: u32 = 1;

/// The first `MAX_LIVE_TEXT_BYTES` characters of `s`.
pub open spec fn bounded_message(s: Seq<char>) -> Seq<char> {
    if s.len() > MAX_LIVE_TEXT_BYTES { s.take(MAX_LIVE_TEXT_BYTES as int) } else { s }
}

/// The first `MAX_LIVE_TEXT_BYTES` characters of `value`.
pub fn bounded_error(value: &str) -> (r: String)
    ensures
        r@ == bounded_message(value@),
{
    let n = value.unicode_len();
    if n <= MAX_LIVE_TEXT_BYTES {
        return value.to_string();
    }
    let mut r = String::new();
    let mut i: usize = 0;
    while i < MAX_LIVE_TEXT_BYTES
        invariant
            i <= MAX_LIVE_TEXT_BYTES < n,
            n == value@.len(),
            r@ == value@.take(i as int),
        decreases MAX_LIVE_TEXT_BYTES - i,
    {
        push_char(&mut r, value.get_char(i));
        proof {
            assert(r@ =~= value@.take(i + 1));
        }
        i = i + 1;
    }
    r
}

/// A live harness error whose message is bounded (see `bounded_message`).
pub fn live_error(code: LivePreparationErrorCode, message: &str) -> (r: BenchmarkError)
    ensures
        r matches BenchmarkError::LiveHarness { code: c, message: m } && c == code && m@ == bounded_message(message@),
{
    BenchmarkError::LiveHarness { code, message: bounded_error(message) }
}

pub open spec fn is_path_separator(c: char) -> bool {
    c == '/' || c == '\\'
}

/// Some part of `s`, between separators (`/` or `\`), is `..`.
pub open spec fn has_parent_part(s: Seq<char>) -> bool {
    exists|i: int| 0 <= i && i + 2 <= s.len() && #[trigger] s[i] == '.' && s[i + 1] == '.'
        && (i == 0 || is_path_separator(s[i - 1])) && (i + 2 == s.len() || is_path_separator(s[i + 2]))
}

/// An absolute path, a text with a `:` (a scheme or drive), or one that
/// climbs to a parent directory.
pub open spec fn unsafe_path(s: Seq<char>) -> bool {
    ||| (s.len() > 0 && s[0] == '/')
    ||| s.contains(':')
    ||| has_parent_part(s)
}

fn parent_part_at(s: &str, n: usize, i: usize) -> (r: bool)
    requires
        n == s@.len(),
        i + 2 <= n,
    ensures
        r == (s@[i as int] == '.' && s@[i + 1] == '.' && (i == 0 || is_path_separator(s@[i - 1]))
            && (i + 2 == n || is_path_separator(s@[i + 2]))),
{
    if s.get_char(i) != '.' || s.get_char(i + 1) != '.' {
        return false;
    }
    if i > 0 {
        let c = s.get_char(i - 1);
        if c != '/' && c != '\\' {
            return false;
        }
    }
    if i + 2 < n {
        let c = s.get_char(i + 2);
        if c != '/' && c != '\\' {
            return false;
        }
    }
    true
}

/// Whether `s` is an unsafe path (see `unsafe_path`).
pub fn is_unsafe_path(s: &str) -> (r: bool)
    ensures
        r == unsafe_path(s@),
{
    let n = s.unicode_len();
    if n > 0 && s.get_char(0) == '/' {
        return true;
    }
    let mut i: usize = 0;
    while i < n
        invariant
            i <= n,
            n == s@.len(),
            forall|j: int| 0 <= j < i ==> s@[j] != ':',
        decreases n - i,
    {
        if s.get_char(i) == ':' {
            proof {
                assert(s@[i as int] == ':');
            }
            return true;
        }
        i = i + 1;
    }
    let mut i: usize = 0;
    while i < n && n - i >= 2
        invariant
            i <= n,
            n == s@.len(),
            !s@.contains(':'),
            !(n > 0 && s@[0] == '/'),
            forall|j: int| 0 <= j < i && j + 2 <= n ==> !(#[trigger] s@[j] == '.' && s@[j + 1] == '.'
                && (j == 0 || is_path_separator(s@[j - 1])) && (j + 2 == n || is_path_separator(s@[j + 2]))),
        decreases n - i,
    {
        if parent_part_at(s, n, i) {
            return true;
        }
        i = i + 1;
    }
    false
}

/// What is wrong with the `i`-th entry of a map, if anything: its key or
/// value is blank or longer than `MAX_LIVE_TEXT_BYTES` bytes, or, when
/// paths are refused, its value is an unsafe path.
pub open spec fn entry_fault(entries: Seq<(String, String)>, field: Seq<char>, reject_paths: bool, i: int) -> Option<Seq<char>> {
    if !bounded_text(entries[i].0@, MAX_LIVE_TEXT_BYTES as int) {
        Some(field + " key is empty or exceeds its bound"@)
    } else if !bounded_text(entries[i].1@, MAX_LIVE_TEXT_BYTES as int) {
        Some(field + " value is empty or exceeds its bound"@)
    } else if reject_paths && unsafe_path(entries[i].1@) {
        Some(field + " contains an unsafe absolute or parent path"@)
    } else {
        None
    }
}

/// The fault of the first faulty entry among the first `k`.
pub open spec fn first_entry_fault(entries: Seq<(String, String)>, field: Seq<char>, reject_paths: bool, k: int) -> Option<Seq<char>>
    decreases k,
{
    if k <= 0 {
        None
    } else {
        match first_entry_fault(entries, field, reject_paths, k - 1) {
            Some(m) => Some(m),
            None => entry_fault(entries, field, reject_paths, k - 1),
        }
    }
}

/// Why a map of bounded texts is refused, if it is: too many entries, or
/// the first faulty entry (see `entry_fault`).
pub open spec fn map_fault(entries: Seq<(String, String)>, field: Seq<char>, reject_paths: bool) -> Option<Seq<char>> {
    if entries.len() > MAX_LIVE_PROVENANCE {
        Some(field + " exceeds its bound"@)
    } else if first_entry_fault(entries, field, reject_paths, entries.len() as int) is Some {
        first_entry_fault(entries, field, reject_paths, entries.len() as int)
    } else if !keys_sorted(entries) {
        Some(field + " keys must be unique and in key order"@)
    } else {
        None
    }
}

/// `r` refuses with an invalid-configuration error carrying the bounded
/// `fault` exactly when there is one.
pub open spec fn refused_with(r: Result<(), BenchmarkError>, fault: Option<Seq<char>>) -> bool {
    match fault {
        None => r is Ok,
        Some(m) => r matches Err(BenchmarkError::LiveHarness { code, message })
            && code == LivePreparationErrorCode::InvalidConfiguration && message@ == bounded_message(m),
    }
}

proof fn lemma_first_entry_fault_stays(entries: Seq<(String, String)>, field: Seq<char>, reject_paths: bool, k: int, m: int)
    requires
        0 < k <= m,
        first_entry_fault(entries, field, reject_paths, k) is Some,
    ensures
        first_entry_fault(entries, field, reject_paths, m) == first_entry_fault(entries, field, reject_paths, k),
    decreases m - k,
{
    if k < m {
        lemma_first_entry_fault_stays(entries, field, reject_paths, k, m - 1);
    }
}

fn configuration_error(message: String) -> (r: Result<(), BenchmarkError>)
    ensures
        refused_with(r, Some(message@)),
{
    Err(live_error(LivePreparationErrorCode::InvalidConfiguration, message.as_str()))
}

/// Checks a map of bounded texts, held as key/value pairs in key order (see
/// `map_fault`).
pub fn validate_map(values: &Vec<(String, String)>, field: &str, reject_paths: bool) -> (r: Result<(), BenchmarkError>)
    ensures
        refused_with(r, map_fault(values@, field@, reject_paths)),
{
    proof {
        reveal_strlit(" exceeds its bound");
        reveal_strlit(" key is empty or exceeds its bound");
        reveal_strlit(" value is empty or exceeds its bound");
        reveal_strlit(" contains an unsafe absolute or parent path");
        reveal_strlit(" keys must be unique and in key order");
    }
    if values.len() > MAX_LIVE_PROVENANCE {
        return configuration_error(concat2(field, " exceeds its bound"));
    }
    let mut i: usize = 0;
    while i < values.len()
        invariant
            i <= values.len() <= MAX_LIVE_PROVENANCE,
            first_entry_fault(values@, field@, reject_paths, i as int) is None,
        decreases values.len() - i,
    {
        let (key, value) = (&values[i].0, &values[i].1);
        let fault = if !check_bounded_text(key.as_str(), MAX_LIVE_TEXT_BYTES) {
            Some(concat2(field, " key is empty or exceeds its bound"))
        } else if !check_bounded_text(value.as_str(), MAX_LIVE_TEXT_BYTES) {
            Some(concat2(field, " value is empty or exceeds its bound"))
        } else if reject_paths && is_unsafe_path(value.as_str()) {
            Some(concat2(field, " contains an unsafe absolute or parent path"))
        } else {
            None
        };
        match fault {
            Some(message) => {
                proof {
                    assert(entry_fault(values@, field@, reject_paths, i as int) == Some(message@));
                    lemma_first_entry_fault_stays(values@, field@, reject_paths, i as int + 1, values.len() as int);
                }
                return configuration_error(message);
            },
            None => {},
        }
        i = i + 1;
    }
    if !check_keys_sorted(values) {
        return configuration_error(concat2(field, " keys must be unique and in key order"));
    }
    Ok(())
}

/// A value observed of the environment, or not.
#[derive(Debug, Clone, PartialEq, Eq)]
pub struct EnvironmentObservation<T> {
    pub value: Observed<T>,
}

impl<T> EnvironmentObservation<T> {
    /// An observation whose value is unknown.
    pub fn unknown() -> (r: Self)
        ensures
            r.value is Unknown,
    {
        Self { value: Observed::Unknown }
    }
}

/// What is known of the machine, build and model a live run used. The launch
/// configuration and provenance are maps, held as key/value pairs in key
/// order.
#[derive(Debug, Clone, PartialEq, Eq)]
pub struct LiveEnvironmentManifest {
    pub schema_id: String,
    pub schema_version: u32,
    pub os: EnvironmentObservation<String>,
    pub llama_build: EnvironmentObservation<String>,
    pub model_identity: EnvironmentObservation<String>,
    pub quantization: EnvironmentObservation<String>,
    pub model_file_size_bytes: EnvironmentObservation<u64>,
    pub context_size: EnvironmentObservation<u64>,
    pub cpu: EnvironmentObservation<String>,
    pub logical_threads: EnvironmentObservation<u32>,
    pub gpu: EnvironmentObservation<String>,
    pub ram_bytes: EnvironmentObservation<u64>,
    pub vram_bytes: EnvironmentObservation<u64>,
    pub launch_configuration: Vec<(String, String)>,
    pub provenance: Vec<(String, String)>,
}

impl LiveEnvironmentManifest {
    /// Why the manifest is refused, if it is: an unsupported schema, a
    /// faulty launch configuration (whose values may not be unsafe paths),
    /// or a faulty provenance.
    pub open spec fn manifest_fault(self) -> Option<Seq<char>> {
        if self.schema_id@ != ENVIRONMENT_MANIFEST_SCHEMA_ID@ || self.schema_version != ENVIRONMENT_MANIFEST_SCHEMA_VERSION {
            Some("unsupported environment manifest schema"@)
        } else if map_fault(self.launch_configuration@, "launch configuration"@, true) is Some {
            map_fault(self.launch_configuration@, "launch configuration"@, true)
        } else {
            map_fault(self.provenance@, "provenance"@, false)
        }
    }

    /// Checks the schema, the launch configuration and the provenance (see
    /// `manifest_fault`).
    pub fn validate(&self) -> (r: Result<(), BenchmarkError>)
        ensures
            refused_with(r, self.manifest_fault()),
    {
        if !str_eq(self.schema_id.as_str(), ENVIRONMENT_MANIFEST_SCHEMA_ID)
            || self.schema_version != ENVIRONMENT_MANIFEST_SCHEMA_VERSION
        {
            return configuration_error(owned("unsupported environment manifest schema"));
        }
        let r = validate_map(&self.launch_configuration, "launch configuration", true);
        if r.is_err() {
            return r;
        }
        validate_map(&self.provenance, "provenance", false)
    }
}

/// The failure code recorded for an error of a live run: the code of a live
/// harness error, and an incomplete sequence for any other error.
pub open spec fn failure_code_of(e: BenchmarkError) -> Seq<char> {
    match e {
        BenchmarkError::LiveHarness { code, .. } => code.spec_label(),
        _ => "incomplete_sequence"@,
    }
}

/// The failure code recorded for an error (see `failure_code_of`).
pub fn failure_code(error: &BenchmarkError) -> (r: String)
    ensures
        r@ == failure_code_of(*error),
{
    match error {
        BenchmarkError::LiveHarness { code, .. } => owned(code.label()),
        _ => {
            proof {
                reveal_strlit("incomplete_sequence");
            }
            owned("incomplete_sequence")
        },
    }
}

// ---------------------------------------------------------------------------
// The fixed sequence of a live experiment.

pub const LIVE_SEQUENCE_LENGTH: usize = 7;

pub open spec fn relation_view(r: LiveSequenceRelation) -> (int, Seq<char>) {
    match r {
        LiveSequenceRelation::Initial => (0, Seq::empty()),
        LiveSequenceRelation::ExactRepeatOf(s) => (1, s@),
        LiveSequenceRelation::ReturnTo(s) => (2, s@),
        LiveSequenceRelation::Independent => (3, Seq::empty()),
    }
}

/// The step expected at each position of a live experiment: A1 and A2 run
/// the control request (A2 repeating A1), C1 and C2 the treatment (C2
/// repeating C1), B1 an independent interference request, then A3 and C3
/// return to A1 and C1.
pub open spec fn expected_live_step(
    i: int,
    control: Seq<char>,
    treatment: Seq<char>,
    interference: Seq<char>,
) -> (Seq<char>, LiveSequenceRole, Seq<char>, (int, Seq<char>)) {
    if i == 0 {
        ("A1"@, LiveSequenceRole::Control, control, (0, Seq::empty()))
    } else if i == 1 {
        ("A2"@, LiveSequenceRole::Control, control, (1, "A1"@))
    } else if i == 2 {
        ("C1"@, LiveSequenceRole::CandidateTreatment, treatment, (0, Seq::empty()))
    } else if i == 3 {
        ("C2"@, LiveSequenceRole::CandidateTreatment, treatment, (1, "C1"@))
    } else if i == 4 {
        ("B1"@, LiveSequenceRole::Interference, interference, (3, Seq::empty()))
    } else if i == 5 {
        ("A3"@, LiveSequenceRole::Control, control, (2, "A1"@))
    } else {
        ("C3"@, LiveSequenceRole::CandidateTreatment, treatment, (2, "C1"@))
    }
}

pub open spec fn live_step_view(s: LiveSequenceStep) -> (Seq<char>, LiveSequenceRole, Seq<char>, (int, Seq<char>)) {
    (s.step_id@, s.role, s.request_fingerprint@, relation_view(s.relation))
}

/// The sequence is the fixed seven-step order over the given fingerprints.
pub open spec fn live_sequence_ok(
    sequence: Seq<LiveSequenceStep>,
    control: Seq<char>,
    treatment: Seq<char>,
    interference: Seq<char>,
) -> bool {
    &&& sequence.len() == LIVE_SEQUENCE_LENGTH
    &&& forall|i: int| 0 <= i < LIVE_SEQUENCE_LENGTH
        ==> live_step_view(#[trigger] sequence[i]) == expected_live_step(i, control, treatment, interference)
}

fn step_matches(
    actual: &LiveSequenceStep,
    step_id: &str,
    role: LiveSequenceRole,
    fingerprint: &str,
    relation: &LiveSequenceRelation,
) -> (r: bool)
    ensures
        r == (live_step_view(*actual) == (step_id@, role, fingerprint@, relation_view(*relation))),
{
    let same_relation = match (&actual.relation, relation) {
        (LiveSequenceRelation::Initial, LiveSequenceRelation::Initial) => true,
        (LiveSequenceRelation::ExactRepeatOf(a), LiveSequenceRelation::ExactRepeatOf(b)) => str_eq(a.as_str(), b.as_str()),
        (LiveSequenceRelation::ReturnTo(a), LiveSequenceRelation::ReturnTo(b)) => str_eq(a.as_str(), b.as_str()),
        (LiveSequenceRelation::Independent, LiveSequenceRelation::Independent) => true,
        _ => false,
    };
    str_eq(actual.step_id.as_str(), step_id) && actual.role == role
        && str_eq(actual.request_fingerprint.as_str(), fingerprint) && same_relation
}

/// Checks that a live experiment's sequence is the fixed seven-step order
/// over the control, treatment and interference request fingerprints (see
/// `live_sequence_ok`).
pub fn validate_live_sequence(
    sequence: &Vec<LiveSequenceStep>,
    control: &str,
    treatment: &str,
    interference: &str,
) -> (r: Result<(), BenchmarkError>)
    ensures
        match r {
            Ok(_) => live_sequence_ok(sequence@, control@, treatment@, interference@),
            Err(e) => !live_sequence_ok(sequence@, control@, treatment@, interference@)
                && (e matches BenchmarkError::LiveHarness { code, message }
                && code == LivePreparationErrorCode::IncompleteSequence
                && message@ == if sequence.len() != LIVE_SEQUENCE_LENGTH {
                    "live experiment must contain exactly seven sequence steps"@
                } else {
                    "live sequence does not match the fixed A1/A2/C1/C2/B1/A3/C3 order"@
                }),
        },
{
    if sequence.len() != LIVE_SEQUENCE_LENGTH {
        return Err(BenchmarkError::live_harness(
            LivePreparationErrorCode::IncompleteSequence,
            "live experiment must contain exactly seven sequence steps",
        ));
    }
    proof {
        reveal_strlit("A1");
        reveal_strlit("A2");
        reveal_strlit("A3");
        reveal_strlit("B1");
        reveal_strlit("C1");
        reveal_strlit("C2");
        reveal_strlit("C3");
    }
    let a1 = LiveSequenceRelation::ExactRepeatOf(owned("A1"));
    let c1 = LiveSequenceRelation::ExactRepeatOf(owned("C1"));
    let back_a = LiveSequenceRelation::ReturnTo(owned("A1"));
    let back_c = LiveSequenceRelation::ReturnTo(owned("C1"));
    let ok = step_matches(&sequence[0], "A1", LiveSequenceRole::Control, control, &LiveSequenceRelation::Initial)
        && step_matches(&sequence[1], "A2", LiveSequenceRole::Control, control, &a1)
        && step_matches(&sequence[2], "C1", LiveSequenceRole::CandidateTreatment, treatment, &LiveSequenceRelation::Initial)
        && step_matches(&sequence[3], "C2", LiveSequenceRole::CandidateTreatment, treatment, &c1)
        && step_matches(&sequence[4], "B1", LiveSequenceRole::Interference, interference, &LiveSequenceRelation::Independent)
        && step_matches(&sequence[5], "A3", LiveSequenceRole::Control, control, &back_a)
        && step_matches(&sequence[6], "C3", LiveSequenceRole::CandidateTreatment, treatment, &back_c);
    proof {
        let s = sequence@;
        if ok {
            assert forall|i: int| 0 <= i < LIVE_SEQUENCE_LENGTH implies live_step_view(#[trigger] s[i])
                == expected_live_step(i, control@, treatment@, interference@) by {
                if i == 0 {} else if i == 1 {} else if i == 2 {} else if i == 3 {} else if i == 4 {} else if i == 5 {} else {}
            }
        } else {
            assert(!live_sequence_ok(s, control@, treatment@, interference@)) by {
                if live_sequence_ok(s, control@, treatment@, interference@) {
                    assert(live_step_view(s[0]) == expected_live_step(0, control@, treatment@, interference@));
                    assert(live_step_view(s[1]) == expected_live_step(1, control@, treatment@, interference@));
                    assert(live_step_view(s[2]) == expected_live_step(2, control@, treatment@, interference@));
                    assert(live_step_view(s[3]) == expected_live_step(3, control@, treatment@, interference@));
                    assert(live_step_view(s[4]) == expected_live_step(4, control@, treatment@, interference@));
                    assert(live_step_view(s[5]) == expected_live_step(5, control@, treatment@, interference@));
                    assert(live_step_view(s[6]) == expected_live_step(6, control@, treatment@, interference@));
                }
            }
        }
    }
    if !ok {
        return Err(BenchmarkError::live_harness(
            LivePreparationErrorCode::IncompleteSequence,
            "live sequence does not match the fixed A1/A2/C1/C2/B1/A3/C3 order",
        ));
    }
    Ok(())
}

// ---------------------------------------------------------------------------
// The live experiment definition.

pub const LIVE_HARNESS_SCHEMA_ID: &'static str = "prefixity.llama-cpp-live-harness";
pub const LIVE_HARNESS_SCHEMA_VERSION: u32 = 1;

/// A prepared live experiment: the control request, the certified
/// treatment, an interference request, their experiment pair and the fixed
/// seven-step sequence. `provenance` is a map, held as key/value pairs in
/// key order.
#[derive(Debug)]
pub struct LiveExperimentDefinition {
    pub schema_id: String,
    pub schema_version: u32,
    pub experiment_id: String,
    pub control_request: ConformanceRequest,
    pub treatment: MaterializedCandidate,
    pub interference_request: ConformanceRequest,
    pub pair: CandidateExperimentPair,
    pub sequence: Vec<LiveSequenceStep>,
    pub provenance: Vec<(String, String)>,
}

impl LiveExperimentDefinition {
    /// The schema, a bounded experiment ID, valid requests, a certified
    /// treatment, a valid pair naming the control request and the
    /// treatment's request, the fixed sequence over the three request
    /// fingerprints, and bounded provenance.
    pub open spec fn live_definition_ok(self) -> bool {
        let control = text_fingerprint(request_json(self.control_request));
        let interference = text_fingerprint(request_json(self.interference_request));
        &&& self.schema_id@ == LIVE_HARNESS_SCHEMA_ID@
        &&& self.schema_version == LIVE_HARNESS_SCHEMA_VERSION
        &&& bounded_text(self.experiment_id@, MAX_LIVE_TEXT_BYTES as int)
        &&& request_ok(self.control_request)
        &&& self.treatment.materialized_ok()
        &&& request_ok(self.interference_request)
        &&& self.pair.pair_ok()
        &&& self.pair.source_request_fingerprint@ == control
        &&& self.pair.candidate_request_fingerprint@ == self.treatment.materialized_request_fingerprint@
        &&& live_sequence_ok(self.sequence@, control, self.treatment.materialized_request_fingerprint@, interference)
        &&& map_fault(self.provenance@, "provenance"@, false) is None
    }

    /// Checks the definition (see `live_definition_ok`). An uncertified
    /// treatment is refused as an unsafe materialized candidate, a wrong
    /// sequence as an incomplete sequence.
    pub fn validate(&self) -> (r: Result<(), BenchmarkError>)
        ensures
            r is Ok <==> self.live_definition_ok(),
    {
        if !str_eq(self.schema_id.as_str(), LIVE_HARNESS_SCHEMA_ID) || self.schema_version != LIVE_HARNESS_SCHEMA_VERSION {
            return Err(live_error(LivePreparationErrorCode::InvalidConfiguration, "unsupported live harness schema"));
        }
        if !check_bounded_text(self.experiment_id.as_str(), MAX_LIVE_TEXT_BYTES) {
            return Err(live_error(LivePreparationErrorCode::InvalidConfiguration, "experiment_id is empty or exceeds its bound"));
        }
        let r = self.control_request.validate();
        if r.is_err() {
            return r;
        }
        match self.treatment.validate() {
            Ok(_) => {},
            Err(e) => {
                let message = uncertified_message(&e);
                return Err(live_error(LivePreparationErrorCode::UnsafeMaterializedCandidate, message.as_str()));
            },
        }
        let r = self.interference_request.validate();
        if r.is_err() {
            return r;
        }
        let r = self.pair.validate();
        if r.is_err() {
            return r;
        }
        let control = match self.control_request.request_fingerprint() {
            Ok(f) => f,
            Err(e) => return Err(e),
        };
        if !str_eq(self.pair.source_request_fingerprint.as_str(), control.as_str())
            || !str_eq(self.pair.candidate_request_fingerprint.as_str(), self.treatment.materialized_request_fingerprint.as_str())
        {
            return Err(live_error(
                LivePreparationErrorCode::UnsafeMaterializedCandidate,
                "control/treatment identities do not match the certified pair",
            ));
        }
        let interference = match self.interference_request.request_fingerprint() {
            Ok(f) => f,
            Err(e) => return Err(e),
        };
        let r = validate_live_sequence(&self.sequence, control.as_str(),
            self.treatment.materialized_request_fingerprint.as_str(), interference.as_str());
        if r.is_err() {
            return r;
        }
        validate_map(&self.provenance, "provenance", false)
    }
}

/// The message of a treatment that failed its certification check.
fn uncertified_message(error: &BenchmarkError) -> (r: String) {
    let mut message = owned("materialized candidate is not certified: ");
    match error {
        BenchmarkError::Validation { path, message: detail } => {
            message.append("controlled benchmark validation failed at ");
            message.append(path.as_str());
            message.append(": ");
            message.append(detail.as_str());
        },
        _ => {},
    }
    message
}

// ---------------------------------------------------------------------------
// Building a live experiment definition.

pub open spec fn role_json(r: LiveSequenceRole) -> Seq<char> {
    match r {
        LiveSequenceRole::Control => json_string("control"@),
        LiveSequenceRole::CandidateTreatment => json_string("candidate_treatment"@),
        LiveSequenceRole::Interference => json_string("interference"@),
    }
}

pub open spec fn relation_json(r: LiveSequenceRelation) -> Seq<char> {
    match r {
        LiveSequenceRelation::Initial => json_object(seq![member("kind"@, json_string("initial"@))]),
        LiveSequenceRelation::ExactRepeatOf(c) =>
            json_object(seq![member("case_id"@, json_string(c@)), member("kind"@, json_string("exact_repeat_of"@))]),
        LiveSequenceRelation::ReturnTo(c) =>
            json_object(seq![member("case_id"@, json_string(c@)), member("kind"@, json_string("return_to"@))]),
        LiveSequenceRelation::Independent => json_object(seq![member("kind"@, json_string("independent"@))]),
    }
}

/// The canonical JSON of a sequence step.
pub open spec fn step_json(s: LiveSequenceStep) -> Seq<char> {
    json_object(seq![
        member("relation"@, relation_json(s.relation)),
        member("request_fingerprint"@, json_string(s.request_fingerprint@)),
        member("role"@, role_json(s.role)),
        member("step_id"@, json_string(s.step_id@)),
    ])
}

pub open spec fn step_texts(s: Seq<LiveSequenceStep>) -> Seq<Seq<char>> {
    Seq::new(s.len(), |i: int| step_json(s[i]))
}

/// The canonical JSON that identifies a live experiment: its request
/// fingerprints, its pair and its sequence.
pub open spec fn live_identity_json(
    control: Seq<char>,
    treatment: Seq<char>,
    interference: Seq<char>,
    pair: Seq<char>,
    sequence: Seq<LiveSequenceStep>,
) -> Seq<char> {
    json_object(seq![
        member("interference"@, json_string(interference)),
        member("pair"@, json_string(pair)),
        member("schema_id"@, json_string(LIVE_HARNESS_SCHEMA_ID@)),
        member("sequence"@, json_array(step_texts(sequence))),
        member("source"@, json_string(control)),
        member("treatment"@, json_string(treatment)),
    ])
}

/// The system instruction of the interference request: the source's,
/// behind a marker made of the first sixteen characters of the source
/// request's fingerprint.
pub open spec fn interference_instruction(source_fingerprint: Seq<char>, instruction: Seq<char>) -> Seq<char> {
    let marker = if source_fingerprint.len() >= 16 { source_fingerprint.take(16) } else { source_fingerprint };
    "[interference-marker:"@ + marker + "]\n"@ + instruction
}

fn role_text(r: LiveSequenceRole) -> (t: String)
    ensures
        t@ == role_json(r),
{
    match r {
        LiveSequenceRole::Control => string_value("control"),
        LiveSequenceRole::CandidateTreatment => string_value("candidate_treatment"),
        LiveSequenceRole::Interference => string_value("interference"),
    }
}

fn relation_text(r: &LiveSequenceRelation) -> (t: String)
    ensures
        t@ == relation_json(*r),
{
    let mut members: Vec<String> = Vec::new();
    match r {
        LiveSequenceRelation::Initial => {
            push_member(&mut members, "kind", string_value("initial"));
        },
        LiveSequenceRelation::ExactRepeatOf(c) => {
            push_member(&mut members, "case_id", string_value(c.as_str()));
            push_member(&mut members, "kind", string_value("exact_repeat_of"));
        },
        LiveSequenceRelation::ReturnTo(c) => {
            push_member(&mut members, "case_id", string_value(c.as_str()));
            push_member(&mut members, "kind", string_value("return_to"));
        },
        LiveSequenceRelation::Independent => {
            push_member(&mut members, "kind", string_value("independent"));
        },
    }
    proof {
        match r {
            LiveSequenceRelation::Initial => {
                assert(views(members@) =~= seq![member("kind"@, json_string("initial"@))]);
            },
            LiveSequenceRelation::ExactRepeatOf(c) => {
                assert(views(members@) =~= seq![member("case_id"@, json_string(c@)), member("kind"@, json_string("exact_repeat_of"@))]);
            },
            LiveSequenceRelation::ReturnTo(c) => {
                assert(views(members@) =~= seq![member("case_id"@, json_string(c@)), member("kind"@, json_string("return_to"@))]);
            },
            LiveSequenceRelation::Independent => {
                assert(views(members@) =~= seq![member("kind"@, json_string("independent"@))]);
            },
        }
    }
    object_value(&members)
}

fn step_text(s: &LiveSequenceStep) -> (t: String)
    ensures
        t@ == step_json(*s),
{
    let mut members: Vec<String> = Vec::new();
    push_member(&mut members, "relation", relation_text(&s.relation));
    push_member(&mut members, "request_fingerprint", string_value(s.request_fingerprint.as_str()));
    push_member(&mut members, "role", role_text(s.role));
    push_member(&mut members, "step_id", string_value(s.step_id.as_str()));
    proof {
        assert(views(members@) =~= seq![
            member("relation"@, relation_json(s.relation)),
            member("request_fingerprint"@, json_string(s.request_fingerprint@)),
            member("role"@, role_json(s.role)),
            member("step_id"@, json_string(s.step_id@)),
        ]);
    }
    object_value(&members)
}

fn step_items(sequence: &Vec<LiveSequenceStep>) -> (items: Vec<String>)
    ensures
        views(items@) == step_texts(sequence@),
{
    let mut items: Vec<String> = Vec::new();
    let mut i: usize = 0;
    while i < sequence.len()
        invariant
            i <= sequence.len(),
            items.len() == i,
            forall|k: int| 0 <= k < i ==> (#[trigger] items@[k])@ == step_json(sequence@[k]),
        decreases sequence.len() - i,
    {
        items.push(step_text(&sequence[i]));
        i = i + 1;
    }
    assert(views(items@) =~= step_texts(sequence@));
    items
}

#[verifier::spinoff_prover]
fn live_identity_fingerprint(
    control: &str,
    treatment: &str,
    interference: &str,
    pair: &str,
    sequence: &Vec<LiveSequenceStep>,
) -> (r: String)
    ensures
        r@ == json_digest(live_identity_json(control@, treatment@, interference@, pair@, sequence@)),
        r@.len() == 64,
{
    let items = step_items(sequence);
    let mut members: Vec<String> = Vec::new();
    push_member(&mut members, "interference", string_value(interference));
    push_member(&mut members, "pair", string_value(pair));
    push_member(&mut members, "schema_id", string_value(LIVE_HARNESS_SCHEMA_ID));
    push_member(&mut members, "sequence", array_value(&items));
    push_member(&mut members, "source", string_value(control));
    push_member(&mut members, "treatment", string_value(treatment));
    proof {
        assert(views(members@) =~= seq![
            member("interference"@, json_string(interference@)),
            member("pair"@, json_string(pair@)),
            member("schema_id"@, json_string(LIVE_HARNESS_SCHEMA_ID@)),
            member("sequence"@, json_array(step_texts(sequence@))),
            member("source"@, json_string(control@)),
            member("treatment"@, json_string(treatment@)),
        ]);
    }
    let text = object_value(&members);
    sha256_hex(text.as_str().as_bytes())
}

fn live_step(step_id: &str, role: LiveSequenceRole, fingerprint: &String, relation: LiveSequenceRelation) -> (s: LiveSequenceStep)
    ensures
        s.step_id@ == step_id@,
        s.role == role,
        s.request_fingerprint@ == fingerprint@,
        s.relation == relation,
{
    LiveSequenceStep { step_id: owned(step_id), role, request_fingerprint: fingerprint.clone(), relation }
}

fn first_chars(s: &str, n: usize) -> (r: String)
    ensures
        r@ == if s@.len() >= n { s@.take(n as int) } else { s@ },
{
    let len = s.unicode_len();
    let end = if len >= n { n } else { len };
    let mut r = String::new();
    let mut i: usize = 0;
    while i < end
        invariant
            i <= end <= len,
            len == s@.len(),
            r@ == s@.take(i as int),
        decreases end - i,
    {
        push_char(&mut r, s.get_char(i));
        proof {
            assert(s@.take(i + 1) =~= s@.take(i as int).push(s@[i as int]));
        }
        i = i + 1;
    }
    proof {
        if len < n {
            assert(s@.take(len as int) =~= s@);
        }
    }
    r
}

/// Prepares a live experiment for a source request and its certified
/// materialized candidate: the control runs the source request, the
/// treatment the materialized request, and an interference request is the
/// source with a marker before its system instruction; the experiment pair
/// names the two case IDs, and the experiment ID is the fingerprint of the
/// experiment's identity. The definition returned is valid.
pub fn build_live_experiment_definition(
    source_request: &ConformanceRequest,
    materialized: MaterializedCandidate,
    source_case_id: String,
    candidate_case_id: String,
    provenance: Vec<(String, String)>,
) -> (r: Result<LiveExperimentDefinition, BenchmarkError>)
    ensures
        r matches Ok(d) ==> {
            &&& d.live_definition_ok()
            &&& request_json(d.control_request) == request_json(*source_request)
            &&& same_but_instruction(*source_request, d.control_request)
            &&& same_but_instruction(*source_request, d.interference_request)
            &&& d.interference_request.context.system_instruction@ == interference_instruction(
                materialized.source_request_fingerprint@, source_request.context.system_instruction@)
            &&& d.pair.source_case_id == source_case_id
            &&& d.pair.candidate_case_id == candidate_case_id
            &&& d.experiment_id@ == json_digest(live_identity_json(
                d.pair.source_request_fingerprint@, d.treatment.materialized_request_fingerprint@,
                text_fingerprint(request_json(d.interference_request)), d.pair.pair_fingerprint@, d.sequence@))
            &&& d.provenance == provenance
        },
        r is Ok ==> request_ok(*source_request) && materialized.materialized_ok()
            && map_fault(provenance@, "provenance"@, false) is None
            && materialized.source_request_fingerprint@ == text_fingerprint(request_json(*source_request)),
{
    let r = source_request.validate();
    match r {
        Ok(_) => {},
        Err(e) => return Err(e),
    }
    match materialized.validate() {
        Ok(_) => {},
        Err(e) => {
            let message = uncertified_message(&e);
            return Err(live_error(LivePreparationErrorCode::UnsafeMaterializedCandidate, message.as_str()));
        },
    }
    let r = validate_map(&provenance, "provenance", false);
    match r {
        Ok(_) => {},
        Err(e) => return Err(e),
    }
    let control_fingerprint = match source_request.request_fingerprint() {
        Ok(f) => f,
        Err(e) => return Err(e),
    };
    if !str_eq(materialized.source_request_fingerprint.as_str(), control_fingerprint.as_str()) {
        return Err(live_error(LivePreparationErrorCode::UnsafeMaterializedCandidate,
            "source request does not match the certified candidate"));
    }
    let mut purpose: Vec<(String, String)> = Vec::new();
    purpose.push((owned("purpose"), owned("p0-l6a-live-preparation")));
    let pair = match build_candidate_experiment_pair(&materialized, source_case_id, candidate_case_id, purpose) {
        Ok(p) => p,
        Err(e) => return Err(e),
    };
    let marker = first_chars(materialized.source_request_fingerprint.as_str(), 16);
    let head = concat3("[interference-marker:", marker.as_str(), "]\n");
    let instruction = concat2(head.as_str(), source_request.context.system_instruction.as_str());
    proof {
        reveal_strlit("[interference-marker:");
        reveal_strlit("]\n");
    }
    let interference_request = with_instruction(source_request, instruction);
    let interference_fingerprint = match interference_request.request_fingerprint() {
        Ok(f) => f,
        Err(e) => return Err(e),
    };
    let control_request = with_instruction(source_request, source_request.context.system_instruction.clone());
    proof {
        lemma_same_but_instruction(*source_request, control_request);
    }
    let treatment_fingerprint = materialized.materialized_request_fingerprint.clone();
    let mut sequence: Vec<LiveSequenceStep> = Vec::new();
    sequence.push(live_step("A1", LiveSequenceRole::Control, &control_fingerprint, LiveSequenceRelation::Initial));
    sequence.push(live_step("A2", LiveSequenceRole::Control, &control_fingerprint,
        LiveSequenceRelation::ExactRepeatOf(owned("A1"))));
    sequence.push(live_step("C1", LiveSequenceRole::CandidateTreatment, &treatment_fingerprint, LiveSequenceRelation::Initial));
    sequence.push(live_step("C2", LiveSequenceRole::CandidateTreatment, &treatment_fingerprint,
        LiveSequenceRelation::ExactRepeatOf(owned("C1"))));
    sequence.push(live_step("B1", LiveSequenceRole::Interference, &interference_fingerprint, LiveSequenceRelation::Independent));
    sequence.push(live_step("A3", LiveSequenceRole::Control, &control_fingerprint, LiveSequenceRelation::ReturnTo(owned("A1"))));
    sequence.push(live_step("C3", LiveSequenceRole::CandidateTreatment, &treatment_fingerprint,
        LiveSequenceRelation::ReturnTo(owned("C1"))));
    let experiment_id = live_identity_fingerprint(control_fingerprint.as_str(), treatment_fingerprint.as_str(),
        interference_fingerprint.as_str(), pair.pair_fingerprint.as_str(), &sequence);
    let definition = LiveExperimentDefinition {
        schema_id: owned(LIVE_HARNESS_SCHEMA_ID),
        schema_version: LIVE_HARNESS_SCHEMA_VERSION,
        experiment_id,
        control_request,
        treatment: materialized,
        interference_request,
        pair,
        sequence,
        provenance,
    };
    match definition.validate() {
        Ok(_) => Ok(definition),
        Err(e) => Err(e),
    }
}


} // verus!
