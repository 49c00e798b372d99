//! Structural differences between requests: the records, and the
//! comparisons of texts and artifact lists that produce them.
use vstd::prelude::*;
use vstd::string::*;
use vstd::utf8::{decode_utf8, encode_utf8, is_char_boundary};
use crate::conformance::{context_json, reasoning_json, reasoning_text, request_json, request_ok, response_format_json,
    response_format_text, text_fingerprint, tool_json, ConformanceRequest, ReasoningSetting, RequestEnvelope, ResponseFormat, ContextArtifactInput, JsonField, OrderedJsonObject, RequestContext, ToolDefinition};
use crate::context_stability::Observed;
use crate::error::{checked, BenchmarkError};
use crate::layout_planner::{last_position, lemma_last_position, lemma_last_position_contains, name_position, position_view};
use crate::ordering::views;
use crate::fields::is_white_space;
use crate::hashing::{hash_text, hex_lower, sha256_digest, sha256_hex};
use crate::json::{array_value, json_array, json_object, json_string, member, object_value, push_member, string_array_value, string_value};
use crate::json_value::{render_value, value_json, JsonValue};
use crate::text::{concat2, concat3, decimal, decimal_string, opt_view, owned, str_eq};

verus! {

pub const PREFIX_DIFF_SCHEMA_ID: &'static str = "prefixity.prefix-diff";
pub const PREFIX_DIFF_SCHEMA_VERSION: u32 = 1;
pub const ENVELOPE_DIFF_SCHEMA_ID: &'static str = "prefixity.request-envelope-diff";
pub const ENVELOPE_DIFF_SCHEMA_VERSION: u32 = 1;
pub const REQUEST_DIFF_SCHEMA_ID: &'static str = "prefixity.request-diff";
pub const REQUEST_DIFF_SCHEMA_VERSION: u32 = 1;
pub const MAX_CHANGES: usize = 256;
pub const MAX_PREVIEW_BYTES: usize = 64;

/// A deliberately conservative cache interpretation for a structural diff.
#[derive(Debug, Clone, Copy, PartialEq, Eq, Default, Structural)]
pub enum CacheImpactAssessment {
    /// No runtime/provider evidence is attached to this diagnostic.
    #[default]
    Unknown,
    /// The compared dimension does not apply to the requested diagnostic.
    NotApplicable,
    /// Reserved for an evidence-attached result; no diagnostic here produces it.
    EvidenceSupported,
}

#[derive(Debug, Clone, Copy, PartialEq, Eq, Structural)]
pub enum DiffState {
    Identical,
    Changed,
}

#[derive(Debug, Clone, Copy, PartialEq, Eq, Structural)]
pub enum ChangeCategory {
    TextContentChanged,
    ContentAdded,
    ContentRemoved,
    ArtifactAdded,
    ArtifactRemoved,
    ArtifactOrderChanged,
    ArtifactContentChanged,
    ToolAdded,
    ToolRemoved,
    ToolOrderChanged,
    ToolDefinitionChanged,
    OptionalSchemaFieldAdded,
    OptionalSchemaFieldRemoved,
    OrderedSchemaFieldChanged,
    JsonStructureChanged,
    ValueChanged,
    PresenceChanged,
}

/// A bounded description of a value involved in a difference. Full content is
/// intentionally absent; the fingerprint and size are sufficient for audit.
#[derive(Debug, Clone, PartialEq, Eq)]
pub struct ValueSummary {
    pub value_type: String,
    pub fingerprint: String,
    pub size_bytes: usize,
    pub preview: Option<String>,
}

#[derive(Debug, Clone, PartialEq, Eq)]
pub struct DiffChange {
    pub path: String,
    pub category: ChangeCategory,
    pub left: Option<ValueSummary>,
    pub right: Option<ValueSummary>,
    pub order_changed: bool,
    pub content_changed: bool,
    pub presence_changed: bool,
    pub whitespace_only: bool,
    pub sequence_index: Option<usize>,
}

#[derive(Debug, Clone, PartialEq, Eq)]
pub struct TextCommonPrefix {
    pub path: String,
    pub left_bytes: usize,
    pub right_bytes: usize,
    pub common_bytes: usize,
}

#[derive(Debug, Clone, PartialEq, Eq)]
pub struct CommonPrefixMeasurement {
    pub structural_units: usize,
    pub artifact_units: usize,
    pub tool_units: usize,
    pub text: Vec<TextCommonPrefix>,
    /// Token-level prefix measurement is not available without a tokenizer.
    pub token_units: Observed<u64>,
}

/// The difference between the model-visible contexts of two requests.
/// `provenance` is a map, held as key/value pairs in key order.
#[derive(Debug, Clone, PartialEq, Eq)]
pub struct PrefixDiff {
    pub schema_id: String,
    pub schema_version: u32,
    pub left_context_fingerprint: String,
    pub right_context_fingerprint: String,
    pub identical: bool,
    pub common_prefix: CommonPrefixMeasurement,
    pub first_divergence: Option<DiffChange>,
    pub changes: Vec<DiffChange>,
    pub provenance: Vec<(String, String)>,
    pub cache_impact: CacheImpactAssessment,
}

#[derive(Debug, Clone, Copy, PartialEq, Eq, Structural)]
pub enum EnvelopeField {
    Model,
    Reasoning,
    ResponseFormat,
}

#[derive(Debug, Clone, PartialEq, Eq)]
pub struct EnvelopeChange {
    pub path: String,
    pub field: EnvelopeField,
    pub left: Option<ValueSummary>,
    pub right: Option<ValueSummary>,
    pub presence_changed: bool,
}

#[derive(Debug, Clone, PartialEq, Eq)]
pub struct EnvelopeDiff {
    pub schema_id: String,
    pub schema_version: u32,
    pub left_request_fingerprint: String,
    pub right_request_fingerprint: String,
    pub identical: bool,
    pub changes: Vec<EnvelopeChange>,
    pub cache_impact: CacheImpactAssessment,
}

#[derive(Debug, Clone, PartialEq, Eq)]
pub struct RequestDiffInterpretation {
    pub context: DiffState,
    pub envelope: DiffState,
}

/// The difference between two requests: their contexts and their envelopes.
#[derive(Debug, Clone, PartialEq, Eq)]
pub struct RequestDiff {
    pub schema_id: String,
    pub schema_version: u32,
    pub left_request_fingerprint: String,
    pub right_request_fingerprint: String,
    pub prefix_diff: PrefixDiff,
    pub envelope_diff: EnvelopeDiff,
    pub interpretation: RequestDiffInterpretation,
    pub cache_impact: CacheImpactAssessment,
}

// ---------------------------------------------------------------------------
// Comparing texts.

/// `k` is the length of the longest common prefix of `a` and `b`.
pub open spec fn common_prefix_len(a: Seq<u8>, b: Seq<u8>, k: int) -> bool {
    &&& 0 <= k <= a.len()
    &&& k <= b.len()
    &&& a.take(k) == b.take(k)
    &&& (k < a.len() && k < b.len() ==> a[k] != b[k])
}

/// The number of leading bytes the two texts share.
pub fn common_byte_prefix(left: &str, right: &str) -> (r: usize)
    ensures
        common_prefix_len(left.spec_bytes(), right.spec_bytes(), r as int),
{
    let a = left.as_bytes();
    let b = right.as_bytes();
    let mut k: usize = 0;
    while k < a.len() && k < b.len() && a[k] == b[k]
        invariant
            k <= a.len(),
            k <= b.len(),
            a@ == left.spec_bytes(),
            b@ == right.spec_bytes(),
            a@.take(k as int) == b@.take(k as int),
        decreases a.len() - k,
    {
        proof {
            assert(a@.take(k + 1) =~= a@.take(k as int).push(a@[k as int]));
            assert(b@.take(k + 1) =~= b@.take(k as int).push(b@[k as int]));
        }
        k = k + 1;
    }
    k
}

/// The largest character boundary of `bytes` at or below `e`.
pub open spec fn boundary_at_most(bytes: Seq<u8>, e: int) -> int
    decreases e,
{
    if e <= 0 || is_char_boundary(bytes, e) {
        e
    } else {
        boundary_at_most(bytes, e - 1)
    }
}

/// A text as a change preview shows it: whole when it has at most
/// `MAX_PREVIEW_BYTES` bytes, else its longest prefix of whole characters
/// within that bound, marked as truncated.
pub open spec fn preview_of(value: Seq<char>) -> Seq<char> {
    let b = encode_utf8(value);
    if b.len() <= MAX_PREVIEW_BYTES {
        value
    } else {
        decode_utf8(b.subrange(0, boundary_at_most(b, MAX_PREVIEW_BYTES as int))) + "…[truncated]"@
    }
}

/// The preview of a text.
pub fn bounded_preview(value: &str) -> (r: Option<String>)
    ensures
        opt_view(r) == Some(preview_of(value@)),
{
    broadcast use vstd::utf8::encode_utf8_decode_utf8, vstd::utf8::encode_utf8_valid_utf8;
    if value.as_bytes().len() <= MAX_PREVIEW_BYTES {
        return Some(owned(value));
    }
    let ghost b = value.spec_bytes();
    proof {
        vstd::utf8::is_char_boundary_start_end_of_seq(b);
    }
    let mut end: usize = MAX_PREVIEW_BYTES;
    while !value.is_char_boundary(end)
        invariant
            b == value.spec_bytes(),
            is_char_boundary(b, 0),
            end <= MAX_PREVIEW_BYTES,
            b.len() > MAX_PREVIEW_BYTES,
            boundary_at_most(b, end as int) == boundary_at_most(b, MAX_PREVIEW_BYTES as int),
        decreases end,
    {
        end = end - 1;
    }
    let (head, _) = value.split_at(end);
    proof {
        assert(head.spec_bytes() =~= b.subrange(0, end as int));
        assert(decode_utf8(encode_utf8(head@)) == head@);
    }
    Some(concat2(head, "…[truncated]"))
}

/// A summary of a text: its type, fingerprint, size and preview.
pub open spec fn text_summary(s: ValueSummary, value: Seq<char>) -> bool {
    &&& s.value_type@ == "string"@
    &&& s.fingerprint@ == hex_lower(sha256_digest(encode_utf8(value)))
    &&& s.size_bytes == encode_utf8(value).len()
    &&& opt_view(s.preview) == Some(preview_of(value))
}

/// The summary of a text.
pub fn summary_text(value: &str) -> (r: ValueSummary)
    ensures
        text_summary(r, value@),
{
    ValueSummary {
        value_type: owned("string"),
        fingerprint: hash_text(value),
        size_bytes: value.as_bytes().len(),
        preview: bounded_preview(value),
    }
}

/// The JSON array of the names.
pub open spec fn names_json(names: Seq<Seq<char>>) -> Seq<char> {
    json_array(names.map_values(|n: Seq<char>| json_string(n)))
}

/// A summary of a list of names, as the JSON array of its strings.
pub open spec fn sequence_summary_of(s: ValueSummary, names: Seq<Seq<char>>) -> bool {
    &&& s.value_type@ == "array"@
    &&& s.fingerprint@ == hex_lower(sha256_digest(encode_utf8(names_json(names))))
    &&& s.size_bytes == encode_utf8(names_json(names)).len()
    &&& s.preview is None
}

/// The summary of a list of names.
pub fn sequence_summary(names: &Vec<String>) -> (r: ValueSummary)
    ensures
        sequence_summary_of(r, views(names@)),
{
    let text = string_array_value(names);
    proof {
        assert(names@.map_values(|s: String| json_string(s@)) =~= views(names@).map_values(|n: Seq<char>| json_string(n)));
    }
    let bytes = text.as_str().as_bytes();
    ValueSummary {
        value_type: owned("array"),
        fingerprint: sha256_hex(bytes),
        size_bytes: bytes.len(),
        preview: None,
    }
}

/// The characters of `s` that are not whitespace.
pub open spec fn non_space(s: Seq<char>) -> Seq<char> {
    s.filter(|c: char| !is_white_space(c))
}

fn white_space_char(c: char) -> (r: bool)
    ensures
        r == is_white_space(c),
{
    let n = c as u32;
    (9 <= n && n <= 13) || n == 32 || n == 0x85 || n == 0xa0 || n == 0x1680
        || (0x2000 <= n && n <= 0x200a)
        || n == 0x2028 || n == 0x2029 || n == 0x202f || n == 0x205f || n == 0x3000
}

fn non_space_chars(s: &str) -> (r: Vec<char>)
    ensures
        r@ == non_space(s@),
{
    let n = s.unicode_len();
    let mut r: Vec<char> = Vec::new();
    let mut i: usize = 0;
    while i < n
        invariant
            n == s@.len(),
            i <= n,
            r@ == non_space(s@.take(i as int)),
        decreases n - i,
    {
        let c = s.get_char(i);
        proof {
            assert(s@.take(i + 1).drop_last() =~= s@.take(i as int));
            assert(s@.take(i + 1).last() == c);
            reveal(Seq::filter);
            assert(non_space(s@.take(i + 1)) == if !is_white_space(c) {
                non_space(s@.take(i as int)).push(c)
            } else {
                non_space(s@.take(i as int))
            });
        }
        if !white_space_char(c) {
            r.push(c);
        }
        i = i + 1;
    }
    proof {
        assert(s@.take(n as int) =~= s@);
    }
    r
}

/// The two texts differ at most in whitespace.
pub fn whitespace_only_change(left: &str, right: &str) -> (r: bool)
    ensures
        r == (non_space(left@) == non_space(right@)),
{
    let a = non_space_chars(left);
    let b = non_space_chars(right);
    if a.len() != b.len() {
        return false;
    }
    let mut i: usize = 0;
    while i < a.len()
        invariant
            a@ == non_space(left@),
            b@ == non_space(right@),
            a.len() == b.len(),
            i <= a.len(),
            forall|j: int| 0 <= j < i ==> a@[j] == b@[j],
        decreases a.len() - i,
    {
        if a[i] != b[i] {
            return false;
        }
        i = i + 1;
    }
    proof {
        assert(a@ =~= b@);
    }
    true
}

/// Records a change while the record holds at most `MAX_CHANGES` of them.
pub fn push_change(changes: &mut Vec<DiffChange>, change: DiffChange)
    ensures
        final(changes)@ == if old(changes).len() <= MAX_CHANGES { old(changes)@.push(change) } else { old(changes)@ },
{
    if changes.len() <= MAX_CHANGES {
        changes.push(change);
    }
}

/// Checks that a change record stays within its bound.
pub fn ensure_change_bound(changes: &Vec<DiffChange>) -> (r: Result<(), BenchmarkError>)
    ensures
        checked(r, changes.len() <= MAX_CHANGES),
{
    if changes.len() > MAX_CHANGES {
        return Err(BenchmarkError::validation("request diff exceeds its bounded change limit"));
    }
    Ok(())
}

/// A change of presence: something added or removed.
pub fn presence_change(
    path: String,
    category: ChangeCategory,
    left: Option<ValueSummary>,
    right: Option<ValueSummary>,
    sequence_index: Option<usize>,
) -> (r: DiffChange)
    ensures
        r == (DiffChange { path, category, left, right, order_changed: false, content_changed: false,
            presence_changed: true, whitespace_only: false, sequence_index }),
{
    DiffChange { path, category, left, right, order_changed: false, content_changed: false, presence_changed: true,
        whitespace_only: false, sequence_index }
}

/// A change of a value.
pub fn value_change(
    path: String,
    category: ChangeCategory,
    left: Option<ValueSummary>,
    right: Option<ValueSummary>,
    sequence_index: Option<usize>,
) -> (r: DiffChange)
    ensures
        r == (DiffChange { path, category, left, right, order_changed: false, content_changed: true,
            presence_changed: false, whitespace_only: false, sequence_index }),
{
    DiffChange { path, category, left, right, order_changed: false, content_changed: true, presence_changed: false,
        whitespace_only: false, sequence_index }
}

/// The change that `compare_text` records for two different texts.
pub open spec fn text_change(
    c: DiffChange,
    path: Seq<char>,
    left: Seq<char>,
    right: Seq<char>,
    category: ChangeCategory,
    sequence_index: Option<usize>,
) -> bool {
    &&& c.path@ == path
    &&& c.category == category
    &&& c.left matches Some(l) && text_summary(l, left)
    &&& c.right matches Some(r) && text_summary(r, right)
    &&& !c.order_changed
    &&& c.content_changed
    &&& !c.presence_changed
    &&& c.whitespace_only == (non_space(left) == non_space(right))
    &&& c.sequence_index == sequence_index
}

/// The common-prefix record that `compare_text` keeps for two texts.
pub open spec fn text_prefix(t: TextCommonPrefix, path: Seq<char>, left: Seq<char>, right: Seq<char>) -> bool {
    &&& t.path@ == path
    &&& t.left_bytes == encode_utf8(left).len()
    &&& t.right_bytes == encode_utf8(right).len()
    &&& common_prefix_len(encode_utf8(left), encode_utf8(right), t.common_bytes as int)
}

/// Compares two texts at `path`: records their common prefix, and, when
/// they differ, a content change, while there is room for it.
pub fn compare_text(
    path: String,
    left: &str,
    right: &str,
    category: ChangeCategory,
    sequence_index: Option<usize>,
    changes: &mut Vec<DiffChange>,
    text: &mut Vec<TextCommonPrefix>,
)
    ensures
        final(text)@.len() == old(text)@.len() + 1,
        final(text)@.take(old(text)@.len() as int) == old(text)@,
        text_prefix(final(text)@.last(), path@, left@, right@),
        if left@ != right@ && old(changes).len() <= MAX_CHANGES {
            &&& final(changes)@.len() == old(changes)@.len() + 1
            &&& final(changes)@.take(old(changes)@.len() as int) == old(changes)@
            &&& text_change(final(changes)@.last(), path@, left@, right@, category, sequence_index)
        } else {
            final(changes)@ == old(changes)@
        },
{
    let common_bytes = common_byte_prefix(left, right);
    let ghost old_text = text@;
    text.push(TextCommonPrefix {
        path: path.clone(),
        left_bytes: left.len(),
        right_bytes: right.len(),
        common_bytes,
    });
    proof {
        assert(text@.take(old_text.len() as int) =~= old_text);
    }
    let ghost old_changes = changes@;
    if !str_eq(left, right) {
        let change = DiffChange {
            path,
            category,
            left: Some(summary_text(left)),
            right: Some(summary_text(right)),
            order_changed: false,
            content_changed: true,
            presence_changed: false,
            whitespace_only: whitespace_only_change(left, right),
            sequence_index,
        };
        push_change(changes, change);
        proof {
            if old_changes.len() <= MAX_CHANGES {
                assert(changes@.take(old_changes.len() as int) =~= old_changes);
            }
        }
    }
}

/// The first position where the two name lists differ, or, when one is a
/// prefix of the other, the length of the shorter.
pub open spec fn first_difference(left: Seq<Seq<char>>, right: Seq<Seq<char>>) -> Option<int> {
    let m = if left.len() < right.len() { left.len() as int } else { right.len() as int };
    if exists|i: int| 0 <= i < m && left[i] != right[i] {
        Some(choose|i: int| 0 <= i < m && left[i] != right[i] && forall|j: int| 0 <= j < i ==> left[j] == right[j])
    } else if left.len() != right.len() {
        Some(m)
    } else {
        None
    }
}

/// The position where two name lists first differ, if they do.
pub fn first_difference_index(left: &Vec<String>, right: &Vec<String>) -> (r: Option<usize>)
    ensures
        match r {
            Some(i) => first_difference(crate::ordering::views(left@), crate::ordering::views(right@)) == Some(i as int),
            None => first_difference(crate::ordering::views(left@), crate::ordering::views(right@)) is None,
        },
{
    let ghost l = crate::ordering::views(left@);
    let ghost rt = crate::ordering::views(right@);
    let m = if left.len() < right.len() { left.len() } else { right.len() };
    let mut i: usize = 0;
    while i < m
        invariant
            l == crate::ordering::views(left@),
            rt == crate::ordering::views(right@),
            m == (if left.len() < right.len() { left.len() } else { right.len() }),
            i <= m,
            forall|j: int| 0 <= j < i ==> l[j] == rt[j],
        decreases m - i,
    {
        if !str_eq(left[i].as_str(), right[i].as_str()) {
            proof {
                assert(l[i as int] != rt[i as int]);
                let w = choose|w: int| 0 <= w < m && l[w] != rt[w] && forall|j: int| 0 <= j < w ==> l[j] == rt[j];
                if w < i {
                    assert(l[w] == rt[w]);
                } else if w > i {
                    assert(l[i as int] == rt[i as int]);
                }
            }
            return Some(i);
        }
        i = i + 1;
    }
    if left.len() != right.len() {
        Some(m)
    } else {
        None
    }
}

// ---------------------------------------------------------------------------
// Comparing artifact lists.

/// A change that a comparison records, described by the values it is built
/// from.
pub enum ExpectedChange {
    /// The same names in another order.
    Order { path: Seq<char>, category: ChangeCategory, left: Seq<Seq<char>>, right: Seq<Seq<char>>, index: Option<int> },
    /// Something added or removed, with the texts of either side.
    Presence { path: Seq<char>, category: ChangeCategory, left: Option<Seq<char>>, right: Option<Seq<char>>, index: int },
    /// A text that changed.
    Text { path: Seq<char>, category: ChangeCategory, left: Seq<char>, right: Seq<char>, index: int },
    /// A text of the request that changed, at no position of a list.
    PlainText { path: Seq<char>, category: ChangeCategory, left: Seq<char>, right: Seq<char> },
    /// A JSON value added or removed, with the values of either side.
    ValuePresence { path: Seq<char>, category: ChangeCategory, left: Option<JsonValue>, right: Option<JsonValue>, index: int },
    /// A JSON value that changed.
    Value { path: Seq<char>, category: ChangeCategory, left: JsonValue, right: JsonValue, index: int },
}

pub open spec fn value_summary_opt(s: Option<ValueSummary>, v: Option<JsonValue>) -> bool {
    match (s, v) {
        (Some(a), Some(x)) => value_summary_of(a, x),
        (None, None) => true,
        _ => false,
    }
}

pub open spec fn summary_opt(s: Option<ValueSummary>, text: Option<Seq<char>>) -> bool {
    match (s, text) {
        (Some(a), Some(t)) => text_summary(a, t),
        (None, None) => true,
        _ => false,
    }
}

pub open spec fn index_view(i: Option<usize>) -> Option<int> {
    match i {
        Some(x) => Some(x as int),
        None => None,
    }
}

/// `c` is the change that `e` describes.
pub open spec fn change_is(c: DiffChange, e: ExpectedChange) -> bool {
    match e {
        ExpectedChange::Order { path, category, left, right, index } => {
            &&& c.path@ == path
            &&& c.category == category
            &&& c.left matches Some(l) && sequence_summary_of(l, left)
            &&& c.right matches Some(r) && sequence_summary_of(r, right)
            &&& c.order_changed && !c.content_changed && !c.presence_changed && !c.whitespace_only
            &&& index_view(c.sequence_index) == index
        },
        ExpectedChange::Presence { path, category, left, right, index } => {
            &&& c.path@ == path
            &&& c.category == category
            &&& summary_opt(c.left, left)
            &&& summary_opt(c.right, right)
            &&& !c.order_changed && !c.content_changed && c.presence_changed && !c.whitespace_only
            &&& index_view(c.sequence_index) == Some(index)
        },
        ExpectedChange::Text { path, category, left, right, index } =>
            text_change(c, path, left, right, category, Some(index as usize)) && 0 <= index <= usize::MAX,
        ExpectedChange::PlainText { path, category, left, right } =>
            text_change(c, path, left, right, category, None),
        ExpectedChange::ValuePresence { path, category, left, right, index } => {
            &&& c.path@ == path
            &&& c.category == category
            &&& value_summary_opt(c.left, left)
            &&& value_summary_opt(c.right, right)
            &&& !c.order_changed && !c.content_changed && c.presence_changed && !c.whitespace_only
            &&& index_view(c.sequence_index) == Some(index)
        },
        ExpectedChange::Value { path, category, left, right, index } => {
            &&& c.path@ == path
            &&& c.category == category
            &&& c.left matches Some(l) && value_summary_of(l, left)
            &&& c.right matches Some(r) && value_summary_of(r, right)
            &&& !c.order_changed && c.content_changed && !c.presence_changed && !c.whitespace_only
            &&& index_view(c.sequence_index) == Some(index)
        },
    }
}

/// How many of `wanted` changes a record that held `had` changes keeps:
/// changes are recorded while the record holds at most `MAX_CHANGES`.
pub open spec fn kept(had: int, wanted: int) -> int {
    if had > MAX_CHANGES {
        0
    } else if wanted < MAX_CHANGES + 1 - had {
        wanted
    } else {
        MAX_CHANGES + 1 - had
    }
}

/// `after` is `before` with the changes `expected` describes appended, as
/// far as the bound lets them in.
pub open spec fn changes_extend(after: Seq<DiffChange>, before: Seq<DiffChange>, expected: Seq<ExpectedChange>) -> bool {
    let n = kept(before.len() as int, expected.len() as int);
    &&& after.len() == before.len() + n
    &&& after.take(before.len() as int) == before
    &&& forall|k: int| 0 <= k < n ==> change_is(#[trigger] after[before.len() + k], expected[k])
}

proof fn lemma_extend_push(
    cur: Seq<DiffChange>,
    before: Seq<DiffChange>,
    expected: Seq<ExpectedChange>,
    c: DiffChange,
    e: ExpectedChange,
)
    requires
        changes_extend(cur, before, expected),
        change_is(c, e),
    ensures
        changes_extend(if cur.len() <= MAX_CHANGES { cur.push(c) } else { cur }, before, expected.push(e)),
{
    let next = if cur.len() <= MAX_CHANGES { cur.push(c) } else { cur };
    let n = kept(before.len() as int, expected.len() as int);
    let m = kept(before.len() as int, expected.len() + 1int);
    if cur.len() <= MAX_CHANGES {
        assert(m == n + 1);
        assert(next.take(before.len() as int) =~= before) by {
            assert(cur.take(before.len() as int) == before);
        }
        assert forall|k: int| 0 <= k < m implies change_is(#[trigger] next[before.len() + k], expected.push(e)[k]) by {
            if k < n {
                assert(next[before.len() + k] == cur[before.len() + k]);
            } else {
                assert(next[before.len() + k] == c);
            }
        }
    } else {
        assert(m == n);
        assert forall|k: int| 0 <= k < m implies change_is(#[trigger] next[before.len() + k], expected.push(e)[k]) by {
            assert(expected.push(e)[k] == expected[k]);
        }
    }
}

/// The path of the artifact at `index`.
pub open spec fn artifact_path(index: int) -> Seq<char> {
    "context.artifacts["@ + decimal(index as nat) + "]"@
}

/// The path of the content of the artifact at `index`.
pub open spec fn artifact_content_path(index: int) -> Seq<char> {
    "context.artifacts["@ + decimal(index as nat) + "].content"@
}

pub open spec fn artifact_ids(items: Seq<ContextArtifactInput>) -> Seq<String> {
    items.map_values(|a: ContextArtifactInput| a.artifact_id)
}

/// The artifacts of `side` before `k` whose identifiers `other` lacks, as
/// presence changes of `category`; `removed` tells on which side the text is.
pub open spec fn presence_changes(
    side: Seq<ContextArtifactInput>,
    other: Seq<Seq<char>>,
    k: int,
    category: ChangeCategory,
    removed: bool,
) -> Seq<ExpectedChange>
    decreases k,
{
    if k <= 0 {
        Seq::empty()
    } else {
        presence_changes(side, other, k - 1, category, removed) + if !other.contains(side[k - 1].artifact_id@) {
            seq![ExpectedChange::Presence {
                path: artifact_path(k - 1),
                category,
                left: if removed { Some(side[k - 1].content@) } else { None },
                right: if removed { None } else { Some(side[k - 1].content@) },
                index: k - 1,
            }]
        } else {
            Seq::empty()
        }
    }
}

/// The content changes between the artifacts of `left` before `k` and the
/// last artifact of `right` with the same identifier.
pub open spec fn content_changes(left: Seq<ContextArtifactInput>, right: Seq<ContextArtifactInput>, k: int) -> Seq<ExpectedChange>
    decreases k,
{
    if k <= 0 {
        Seq::empty()
    } else {
        content_changes(left, right, k - 1) + match last_position(views(artifact_ids(right)), left[k - 1].artifact_id@) {
            Some(j) => if left[k - 1].content@ != right[j].content@ {
                seq![ExpectedChange::Text {
                    path: artifact_content_path(j),
                    category: ChangeCategory::ArtifactContentChanged,
                    left: left[k - 1].content@,
                    right: right[j].content@,
                    index: j,
                }]
            } else {
                Seq::empty()
            },
            None => Seq::empty(),
        }
    }
}

/// The texts compared for the artifacts of `left` before `k`: path, left
/// content and right content.
pub open spec fn content_texts(left: Seq<ContextArtifactInput>, right: Seq<ContextArtifactInput>, k: int) -> Seq<(Seq<char>, Seq<char>, Seq<char>)>
    decreases k,
{
    if k <= 0 {
        Seq::empty()
    } else {
        content_texts(left, right, k - 1) + match last_position(views(artifact_ids(right)), left[k - 1].artifact_id@) {
            Some(j) => seq![(artifact_content_path(j), left[k - 1].content@, right[j].content@)],
            None => Seq::empty(),
        }
    }
}

/// `after` is `before` with the common-prefix records of `expected` appended.
pub open spec fn texts_extend(
    after: Seq<TextCommonPrefix>,
    before: Seq<TextCommonPrefix>,
    expected: Seq<(Seq<char>, Seq<char>, Seq<char>)>,
) -> bool {
    &&& after.len() == before.len() + expected.len()
    &&& after.take(before.len() as int) == before
    &&& forall|k: int| 0 <= k < expected.len() ==>
        text_prefix(#[trigger] after[before.len() + k], expected[k].0, expected[k].1, expected[k].2)
}

/// Every change that comparing two artifact lists records, in order: the
/// reordering of the same identifiers, the removed artifacts, the added
/// artifacts, and the changed contents.
pub open spec fn artifact_changes(left: Seq<ContextArtifactInput>, right: Seq<ContextArtifactInput>) -> Seq<ExpectedChange> {
    let l = views(artifact_ids(left));
    let r = views(artifact_ids(right));
    (if l.to_set() == r.to_set() && l != r {
        seq![ExpectedChange::Order {
            path: "context.artifacts"@,
            category: ChangeCategory::ArtifactOrderChanged,
            left: l,
            right: r,
            index: first_difference(l, r),
        }]
    } else {
        Seq::empty()
    })
        + presence_changes(left, r, left.len() as int, ChangeCategory::ArtifactRemoved, true)
        + presence_changes(right, l, right.len() as int, ChangeCategory::ArtifactAdded, false)
        + content_changes(left, right, left.len() as int)
}

fn artifact_id_list(items: &Vec<ContextArtifactInput>) -> (r: Vec<String>)
    ensures
        views(r@) == views(artifact_ids(items@)),
{
    let mut r: Vec<String> = Vec::new();
    let mut i: usize = 0;
    while i < items.len()
        invariant
            i <= items.len(),
            r.len() == i,
            forall|k: int| 0 <= k < i ==> (#[trigger] r@[k])@ == items@[k].artifact_id@,
        decreases items.len() - i,
    {
        r.push(items[i].artifact_id.clone());
        i = i + 1;
    }
    proof {
        assert(views(r@) =~= views(artifact_ids(items@)));
    }
    r
}

proof fn lemma_extend_full(cur: Seq<DiffChange>, before: Seq<DiffChange>, expected: Seq<ExpectedChange>, e: ExpectedChange)
    requires
        changes_extend(cur, before, expected),
        cur.len() > MAX_CHANGES,
    ensures
        changes_extend(cur, before, expected.push(e)),
{
    assert forall|k: int| 0 <= k < kept(before.len() as int, expected.len() + 1int)
        implies change_is(#[trigger] cur[before.len() + k], expected.push(e)[k]) by {
        assert(expected.push(e)[k] == expected[k]);
    }
}

/// `names` holds the name `x`.
fn contains_name(names: &Vec<String>, x: &str) -> (r: bool)
    ensures
        r == views(names@).contains(x@),
{
    proof {
        lemma_last_position_contains(views(names@), x@);
    }
    name_position(names, x).is_some()
}

/// The two name lists hold the same names, as sets.
fn same_name_set(a: &Vec<String>, b: &Vec<String>) -> (r: bool)
    ensures
        r == (views(a@).to_set() == views(b@).to_set()),
{
    let mut i: usize = 0;
    while i < a.len()
        invariant
            i <= a.len(),
            forall|k: int| 0 <= k < i ==> views(b@).contains(#[trigger] views(a@)[k]),
        decreases a.len() - i,
    {
        if !contains_name(b, a[i].as_str()) {
            proof {
                assert(views(a@).to_set().contains(views(a@)[i as int]));
            }
            return false;
        }
        i = i + 1;
    }
    let mut j: usize = 0;
    while j < b.len()
        invariant
            j <= b.len(),
            forall|k: int| 0 <= k < a.len() ==> views(b@).contains(#[trigger] views(a@)[k]),
            forall|k: int| 0 <= k < j ==> views(a@).contains(#[trigger] views(b@)[k]),
        decreases b.len() - j,
    {
        if !contains_name(a, b[j].as_str()) {
            proof {
                assert(views(b@).to_set().contains(views(b@)[j as int]));
            }
            return false;
        }
        j = j + 1;
    }
    proof {
        assert(views(a@).to_set() =~= views(b@).to_set()) by {
            assert forall|x: Seq<char>| views(a@).to_set().contains(x) implies views(b@).to_set().contains(x) by {
                let k = choose|k: int| 0 <= k < views(a@).len() && views(a@)[k] == x;
                assert(views(b@).contains(views(a@)[k]));
            }
            assert forall|x: Seq<char>| views(b@).to_set().contains(x) implies views(a@).to_set().contains(x) by {
                let k = choose|k: int| 0 <= k < views(b@).len() && views(b@)[k] == x;
                assert(views(a@).contains(views(b@)[k]));
            }
        }
    }
    true
}

/// The two name lists are equal.
fn same_names(a: &Vec<String>, b: &Vec<String>) -> (r: bool)
    ensures
        r == (views(a@) == views(b@)),
{
    if a.len() != b.len() {
        proof {
            assert(views(a@).len() != views(b@).len());
        }
        return false;
    }
    let mut i: usize = 0;
    while i < a.len()
        invariant
            a.len() == b.len(),
            i <= a.len(),
            forall|k: int| 0 <= k < i ==> views(a@)[k] == views(b@)[k],
        decreases a.len() - i,
    {
        if !str_eq(a[i].as_str(), b[i].as_str()) {
            proof {
                assert(views(a@)[i as int] != views(b@)[i as int]);
            }
            return false;
        }
        i = i + 1;
    }
    proof {
        assert(views(a@) =~= views(b@));
    }
    true
}

fn indexed_path(index: usize, suffix: &str) -> (r: String)
    ensures
        r@ == "context.artifacts["@ + decimal(index as nat) + suffix@,
{
    let digits = decimal_string(index as u64);
    concat3("context.artifacts[", digits.as_str(), suffix)
}

/// Compares two artifact lists: records a reordering of the same
/// identifiers, each removed and each added artifact, and, for each left
/// artifact, the comparison of its content with the last right artifact of
/// the same identifier.
#[verifier::spinoff_prover]
pub fn compare_artifacts(
    left: &Vec<ContextArtifactInput>,
    right: &Vec<ContextArtifactInput>,
    changes: &mut Vec<DiffChange>,
    text: &mut Vec<TextCommonPrefix>,
)
    ensures
        changes_extend(final(changes)@, old(changes)@, artifact_changes(left@, right@)),
        texts_extend(final(text)@, old(text)@, content_texts(left@, right@, left.len() as int)),
{
    let ghost before = changes@;
    let ghost before_text = text@;
    let left_ids = artifact_id_list(left);
    let right_ids = artifact_id_list(right);
    let ghost l = views(artifact_ids(left@));
    let ghost r = views(artifact_ids(right@));
    proof {
        assert(views(left_ids@).len() == left_ids.len());
        assert(views(right_ids@).len() == right_ids.len());
    }
    let ghost order_part: Seq<ExpectedChange> = if l.to_set() == r.to_set() && l != r {
        seq![ExpectedChange::Order {
            path: "context.artifacts"@,
            category: ChangeCategory::ArtifactOrderChanged,
            left: l,
            right: r,
            index: first_difference(l, r),
        }]
    } else {
        Seq::empty()
    };
    proof {
        assert(changes@.take(before.len() as int) =~= before);
        assert(changes_extend(changes@, before, Seq::empty()));
    }
    if same_name_set(&left_ids, &right_ids) && !same_names(&left_ids, &right_ids) {
        let change = DiffChange {
            path: owned("context.artifacts"),
            category: ChangeCategory::ArtifactOrderChanged,
            left: Some(sequence_summary(&left_ids)),
            right: Some(sequence_summary(&right_ids)),
            order_changed: true,
            content_changed: false,
            presence_changed: false,
            whitespace_only: false,
            sequence_index: first_difference_index(&left_ids, &right_ids),
        };
        let ghost cur = changes@;
        proof {
            assert(change_is(change, order_part[0]));
            lemma_extend_push(cur, before, Seq::empty(), change, order_part[0]);
            assert(Seq::<ExpectedChange>::empty().push(order_part[0]) =~= order_part);
        }
        push_change(changes, change);
    } else {
        proof {
            assert(order_part =~= Seq::<ExpectedChange>::empty());
        }
    }
    let mut i: usize = 0;
    while i < left.len()
        invariant
            views(left_ids@) == l,
            views(right_ids@) == r,
            left_ids.len() == left.len(),
            right_ids.len() == right.len(),
            l == views(artifact_ids(left@)),
            r == views(artifact_ids(right@)),
            i <= left.len(),
            text@ == before_text,
            changes_extend(changes@, before,
                order_part + presence_changes(left@, r, i as int, ChangeCategory::ArtifactRemoved, true)),
        decreases left.len() - i,
    {
        let ghost exp = order_part + presence_changes(left@, r, i as int, ChangeCategory::ArtifactRemoved, true);
        let ghost cur = changes@;
        proof {
            assert(views(left_ids@)[i as int] == left@[i as int].artifact_id@);
        }
        if !contains_name(&right_ids, left_ids[i].as_str()) {
            let change = presence_change(
                indexed_path(i, "]"),
                ChangeCategory::ArtifactRemoved,
                Some(summary_text(left[i].content.as_str())),
                None,
                Some(i),
            );
            let ghost e = ExpectedChange::Presence {
                path: artifact_path(i as int),
                category: ChangeCategory::ArtifactRemoved,
                left: Some(left@[i as int].content@),
                right: None,
                index: i as int,
            };
            proof {
                assert(change_is(change, e));
                lemma_extend_push(cur, before, exp, change, e);
                assert(order_part + presence_changes(left@, r, i + 1, ChangeCategory::ArtifactRemoved, true)
                    =~= exp.push(e));
            }
            push_change(changes, change);
        } else {
            proof {
                assert(order_part + presence_changes(left@, r, i + 1, ChangeCategory::ArtifactRemoved, true) =~= exp);
            }
        }
        i = i + 1;
    }
    let ghost removed = presence_changes(left@, r, left.len() as int, ChangeCategory::ArtifactRemoved, true);
    let mut i: usize = 0;
    while i < right.len()
        invariant
            views(left_ids@) == l,
            views(right_ids@) == r,
            left_ids.len() == left.len(),
            right_ids.len() == right.len(),
            l == views(artifact_ids(left@)),
            r == views(artifact_ids(right@)),
            removed == presence_changes(left@, r, left.len() as int, ChangeCategory::ArtifactRemoved, true),
            i <= right.len(),
            text@ == before_text,
            changes_extend(changes@, before,
                order_part + removed + presence_changes(right@, l, i as int, ChangeCategory::ArtifactAdded, false)),
        decreases right.len() - i,
    {
        let ghost exp = order_part + removed + presence_changes(right@, l, i as int, ChangeCategory::ArtifactAdded, false);
        let ghost cur = changes@;
        proof {
            assert(views(right_ids@)[i as int] == right@[i as int].artifact_id@);
        }
        if !contains_name(&left_ids, right_ids[i].as_str()) {
            let change = presence_change(
                indexed_path(i, "]"),
                ChangeCategory::ArtifactAdded,
                None,
                Some(summary_text(right[i].content.as_str())),
                Some(i),
            );
            let ghost e = ExpectedChange::Presence {
                path: artifact_path(i as int),
                category: ChangeCategory::ArtifactAdded,
                left: None,
                right: Some(right@[i as int].content@),
                index: i as int,
            };
            proof {
                assert(change_is(change, e));
                lemma_extend_push(cur, before, exp, change, e);
                assert(order_part + removed + presence_changes(right@, l, i + 1, ChangeCategory::ArtifactAdded, false)
                    =~= exp.push(e));
            }
            push_change(changes, change);
        } else {
            proof {
                assert(order_part + removed + presence_changes(right@, l, i + 1, ChangeCategory::ArtifactAdded, false) =~= exp);
            }
        }
        i = i + 1;
    }
    let ghost added = presence_changes(right@, l, right.len() as int, ChangeCategory::ArtifactAdded, false);
    proof {
        assert(text@.take(before_text.len() as int) =~= before_text);
    }
    let mut i: usize = 0;
    while i < left.len()
        invariant
            views(left_ids@) == l,
            views(right_ids@) == r,
            left_ids.len() == left.len(),
            right_ids.len() == right.len(),
            l == views(artifact_ids(left@)),
            r == views(artifact_ids(right@)),
            i <= left.len(),
            changes_extend(changes@, before, order_part + removed + added + content_changes(left@, right@, i as int)),
            texts_extend(text@, before_text, content_texts(left@, right@, i as int)),
        decreases left.len() - i,
    {
        let ghost exp = order_part + removed + added + content_changes(left@, right@, i as int);
        let ghost cur = changes@;
        let ghost cur_text = text@;
        proof {
            assert(views(left_ids@)[i as int] == left@[i as int].artifact_id@);
        }
        proof {
            lemma_last_position(r, left@[i as int].artifact_id@);
        }
        match name_position(&right_ids, left_ids[i].as_str()) {
            Some(j) => {
                let path = indexed_path(j, "].content");
                compare_text(path, left[i].content.as_str(), right[j].content.as_str(),
                    ChangeCategory::ArtifactContentChanged, Some(j), changes, text);
                proof {
                    let e = ExpectedChange::Text {
                        path: artifact_content_path(j as int),
                        category: ChangeCategory::ArtifactContentChanged,
                        left: left@[i as int].content@,
                        right: right@[j as int].content@,
                        index: j as int,
                    };
                    if left@[i as int].content@ != right@[j as int].content@ {
                        if cur.len() <= MAX_CHANGES {
                            assert(changes@ =~= cur.push(changes@.last()));
                            assert(change_is(changes@.last(), e));
                            lemma_extend_push(cur, before, exp, changes@.last(), e);
                        } else {
                            lemma_extend_full(cur, before, exp, e);
                        }
                        assert(order_part + removed + added + content_changes(left@, right@, i + 1) =~= exp.push(e));
                    } else {
                        assert(order_part + removed + added + content_changes(left@, right@, i + 1) =~= exp);
                    }
                    let t = (artifact_content_path(j as int), left@[i as int].content@, right@[j as int].content@);
                    assert(content_texts(left@, right@, i + 1) =~= content_texts(left@, right@, i as int).push(t));
                    assert(text@ =~= cur_text.push(text@.last()));
                    assert forall|k: int| 0 <= k < content_texts(left@, right@, i + 1).len() implies
                        text_prefix(#[trigger] text@[before_text.len() + k], content_texts(left@, right@, i + 1)[k].0,
                            content_texts(left@, right@, i + 1)[k].1, content_texts(left@, right@, i + 1)[k].2) by {
                        if k < content_texts(left@, right@, i as int).len() {
                            assert(text@[before_text.len() + k] == cur_text[before_text.len() + k]);
                        }
                    }
                    assert(text@.take(before_text.len() as int) =~= before_text) by {
                        assert(cur_text.take(before_text.len() as int) == before_text);
                    }
                }
            },
            None => {
                proof {
                    assert(order_part + removed + added + content_changes(left@, right@, i + 1) =~= exp);
                    assert(content_texts(left@, right@, i + 1) =~= content_texts(left@, right@, i as int));
                }
            },
        }
        i = i + 1;
    }
}

/// `k` is the number of leading artifacts that the two lists share,
/// identifier and content alike.
pub open spec fn common_artifacts_len(a: Seq<ContextArtifactInput>, b: Seq<ContextArtifactInput>, k: int) -> bool {
    &&& 0 <= k <= a.len()
    &&& k <= b.len()
    &&& forall|i: int| 0 <= i < k ==> (#[trigger] a[i]).artifact_id@ == b[i].artifact_id@ && a[i].content@ == b[i].content@
    &&& (k < a.len() && k < b.len() ==> !(a[k].artifact_id@ == b[k].artifact_id@ && a[k].content@ == b[k].content@))
}

/// The number of leading artifacts the two lists share.
pub fn common_artifact_units(left: &Vec<ContextArtifactInput>, right: &Vec<ContextArtifactInput>) -> (r: usize)
    ensures
        common_artifacts_len(left@, right@, r as int),
{
    let mut k: usize = 0;
    while k < left.len() && k < right.len()
        && str_eq(left[k].artifact_id.as_str(), right[k].artifact_id.as_str())
        && str_eq(left[k].content.as_str(), right[k].content.as_str())
        invariant
            k <= left.len(),
            k <= right.len(),
            forall|i: int| 0 <= i < k ==> (#[trigger] left@[i]).artifact_id@ == right@[i].artifact_id@
                && left@[i].content@ == right@[i].content@,
        decreases left.len() - k,
    {
        k = k + 1;
    }
    k
}

// ---------------------------------------------------------------------------
// Summaries and shapes of JSON values.

/// The JSON type name of a value.
pub open spec fn json_type_name(v: JsonValue) -> Seq<char> {
    match v {
        JsonValue::Null => "null"@,
        JsonValue::Bool(_) => "boolean"@,
        JsonValue::Number(_) => "number"@,
        JsonValue::Str(_) => "string"@,
        JsonValue::Array(_) => "array"@,
        JsonValue::Object(_) => "object"@,
    }
}

/// The JSON type name of a value.
pub fn value_type(v: &JsonValue) -> (r: &'static str)
    ensures
        r@ == json_type_name(*v),
{
    match v {
        JsonValue::Null => {
            proof { reveal_strlit("null"); }
            "null"
        },
        JsonValue::Bool(_) => {
            proof { reveal_strlit("boolean"); }
            "boolean"
        },
        JsonValue::Number(_) => {
            proof { reveal_strlit("number"); }
            "number"
        },
        JsonValue::Str(_) => {
            proof { reveal_strlit("string"); }
            "string"
        },
        JsonValue::Array(_) => {
            proof { reveal_strlit("array"); }
            "array"
        },
        JsonValue::Object(_) => {
            proof { reveal_strlit("object"); }
            "object"
        },
    }
}

/// A summary of a JSON value: its type, the fingerprint of its JSON text
/// and that text's size; no preview.
pub open spec fn value_summary_of(s: ValueSummary, v: JsonValue) -> bool {
    &&& s.value_type@ == json_type_name(v)
    &&& s.fingerprint@ == hex_lower(sha256_digest(encode_utf8(value_json(v))))
    &&& s.size_bytes == encode_utf8(value_json(v)).len()
    &&& s.preview is None
}

/// The summary of a JSON value.
pub fn value_summary(v: &JsonValue) -> (r: ValueSummary)
    ensures
        value_summary_of(r, *v),
{
    let text = render_value(v);
    let bytes = text.as_str().as_bytes();
    ValueSummary {
        value_type: owned(value_type(v)),
        fingerprint: sha256_hex(bytes),
        size_bytes: bytes.len(),
        preview: None,
    }
}

/// The JSON text of the shape of a value: objects and arrays keep their
/// structure, each scalar becomes the string of its type name.
pub open spec fn shape_json(v: JsonValue) -> Seq<char>
    decreases v,
{
    match v {
        JsonValue::Array(items) => json_array(shape_items(items@)),
        JsonValue::Object(members) => json_object(shape_members(members@)),
        _ => json_string(json_type_name(v)),
    }
}

/// The shape texts of the items of an array.
pub open spec fn shape_items(items: Seq<JsonValue>) -> Seq<Seq<char>>
    decreases items,
{
    Seq::new(items.len(), |i: int| if 0 <= i < items.len() { shape_json(items[i]) } else { Seq::empty() })
}

/// The member texts of the shape of an object.
pub open spec fn shape_members(members: Seq<(String, JsonValue)>) -> Seq<Seq<char>>
    decreases members,
{
    Seq::new(members.len(), |i: int| if 0 <= i < members.len() {
        member(members[i].0@, shape_json(members[i].1))
    } else {
        Seq::empty()
    })
}

/// The JSON text of the shape of a value (see `shape_json`).
pub fn json_shape(v: &JsonValue) -> (r: String)
    ensures
        r@ == shape_json(*v),
    decreases v,
{
    match v {
        JsonValue::Array(items) => {
            let ghost want = shape_items(items@);
            let mut texts: Vec<String> = Vec::new();
            let mut i: usize = 0;
            while i < items.len()
                invariant
                    *v == JsonValue::Array(*items),
                    want == shape_items(items@),
                    i <= items.len(),
                    views(texts@) == want.take(i as int),
                decreases items.len() - i,
            {
                proof {
                    assert(decreases_to!(*v => (*v)->Array_0));
                    assert(decreases_to!((*v)->Array_0 => (*v)->Array_0@));
                    assert(decreases_to!((*v)->Array_0@ => (*v)->Array_0@[i as int]));
                }
                let t = json_shape(&items[i]);
                let ghost before = texts@;
                texts.push(t);
                proof {
                    assert(want[i as int] == shape_json(items@[i as int]));
                    assert(views(texts@) =~= views(before).push(shape_json(items@[i as int])));
                    assert(views(texts@) =~= want.take(i + 1));
                }
                i = i + 1;
            }
            proof {
                assert(want.take(items.len() as int) =~= want);
            }
            array_value(&texts)
        },
        JsonValue::Object(members) => {
            let ghost want = shape_members(members@);
            let mut texts: Vec<String> = Vec::new();
            let mut i: usize = 0;
            while i < members.len()
                invariant
                    *v == JsonValue::Object(*members),
                    want == shape_members(members@),
                    i <= members.len(),
                    views(texts@) == want.take(i as int),
                decreases members.len() - i,
            {
                proof {
                    assert(decreases_to!(*v => (*v)->Object_0));
                    assert(decreases_to!((*v)->Object_0 => (*v)->Object_0@));
                    assert(decreases_to!((*v)->Object_0@ => (*v)->Object_0@[i as int]));
                    assert(decreases_to!((*v)->Object_0@[i as int] => (*v)->Object_0@[i as int].1));
                }
                let shape = json_shape(&members[i].1);
                push_member(&mut texts, members[i].0.as_str(), shape);
                proof {
                    assert(want[i as int] == member(members@[i as int].0@, shape_json(members@[i as int].1)));
                    assert(views(texts@) =~= want.take(i + 1));
                }
                i = i + 1;
            }
            proof {
                assert(want.take(members.len() as int) =~= want);
            }
            object_value(&texts)
        },
        _ => string_value(value_type(v)),
    }
}

// ---------------------------------------------------------------------------
// Comparing ordered schema fields.

/// The names of the fields, in order.
pub open spec fn field_names(fields: Seq<JsonField>) -> Seq<Seq<char>> {
    fields.map_values(|f: JsonField| f.name@)
}

/// `path[index]` followed by `suffix`.
pub open spec fn indexed(path: Seq<char>, index: int, suffix: Seq<char>) -> Seq<char> {
    path + "["@ + decimal(index as nat) + "]"@ + suffix
}

/// The fields of `side` before `k` whose names `other` lacks, as presence
/// changes of `category`; `removed` tells on which side the value is.
pub open spec fn field_presence_changes(
    path: Seq<char>,
    side: Seq<JsonField>,
    other: Seq<Seq<char>>,
    k: int,
    category: ChangeCategory,
    removed: bool,
) -> Seq<ExpectedChange>
    decreases k,
{
    if k <= 0 {
        Seq::empty()
    } else {
        field_presence_changes(path, side, other, k - 1, category, removed) + if !other.contains(side[k - 1].name@) {
            seq![ExpectedChange::ValuePresence {
                path: indexed(path, k - 1, Seq::empty()),
                category,
                left: if removed { Some(side[k - 1].value) } else { None },
                right: if removed { None } else { Some(side[k - 1].value) },
                index: k - 1,
            }]
        } else {
            Seq::empty()
        }
    }
}

/// The value changes between the fields of `right` before `k` and the last
/// field of `left` with the same name: a change of structure where the
/// shapes differ, else a change of value.
pub open spec fn field_value_changes(path: Seq<char>, left: Seq<JsonField>, right: Seq<JsonField>, k: int) -> Seq<ExpectedChange>
    decreases k,
{
    if k <= 0 {
        Seq::empty()
    } else {
        field_value_changes(path, left, right, k - 1) + match last_position(field_names(left), right[k - 1].name@) {
            Some(j) => if value_json(left[j].value) != value_json(right[k - 1].value) {
                seq![ExpectedChange::Value {
                    path: indexed(path, k - 1, ".value"@),
                    category: if shape_json(left[j].value) != shape_json(right[k - 1].value) {
                        ChangeCategory::JsonStructureChanged
                    } else {
                        ChangeCategory::ValueChanged
                    },
                    left: left[j].value,
                    right: right[k - 1].value,
                    index: k - 1,
                }]
            } else {
                Seq::empty()
            },
            None => Seq::empty(),
        }
    }
}

/// Every change that comparing two ordered field lists at `path` records,
/// in order: the reordering of the same names, the removed fields, the
/// added fields, and the changed values.
pub open spec fn field_changes(path: Seq<char>, left: Seq<JsonField>, right: Seq<JsonField>) -> Seq<ExpectedChange> {
    let l = field_names(left);
    let r = field_names(right);
    (if l.to_set() == r.to_set() && l != r {
        seq![ExpectedChange::Order {
            path,
            category: ChangeCategory::OrderedSchemaFieldChanged,
            left: l,
            right: r,
            index: first_difference(l, r),
        }]
    } else {
        Seq::empty()
    })
        + field_presence_changes(path, left, r, left.len() as int, ChangeCategory::OptionalSchemaFieldRemoved, true)
        + field_presence_changes(path, right, l, right.len() as int, ChangeCategory::OptionalSchemaFieldAdded, false)
        + field_value_changes(path, left, right, right.len() as int)
}

fn field_name_list(fields: &Vec<JsonField>) -> (r: Vec<String>)
    ensures
        views(r@) == field_names(fields@),
{
    let mut r: Vec<String> = Vec::new();
    let mut i: usize = 0;
    while i < fields.len()
        invariant
            i <= fields.len(),
            r.len() == i,
            forall|k: int| 0 <= k < i ==> (#[trigger] r@[k])@ == fields@[k].name@,
        decreases fields.len() - i,
    {
        r.push(fields[i].name.clone());
        i = i + 1;
    }
    proof {
        assert(views(r@) =~= field_names(fields@));
    }
    r
}

fn indexed_text(path: &str, index: usize, suffix: &str) -> (r: String)
    ensures
        r@ == indexed(path@, index as int, suffix@),
{
    let digits = decimal_string(index as u64);
    let mut r = concat3(path, "[", digits.as_str());
    r.append("]");
    r.append(suffix);
    r
}

/// Compares two ordered field lists at `path`: records a reordering of the
/// same names, each removed and each added field, and, for each right
/// field, the change of its value from the last left field of that name.
#[verifier::spinoff_prover]
pub fn compare_ordered_fields(
    path: &str,
    left: &OrderedJsonObject,
    right: &OrderedJsonObject,
    changes: &mut Vec<DiffChange>,
)
    ensures
        changes_extend(final(changes)@, old(changes)@, field_changes(path@, left.fields@, right.fields@)),
{
    let ghost before = changes@;
    let lf = &left.fields;
    let rf = &right.fields;
    let left_names = field_name_list(lf);
    let right_names = field_name_list(rf);
    let ghost l = field_names(lf@);
    let ghost r = field_names(rf@);
    proof {
        assert(views(left_names@).len() == left_names.len());
        assert(views(right_names@).len() == right_names.len());
    }
    let ghost order_part: Seq<ExpectedChange> = if l.to_set() == r.to_set() && l != r {
        seq![ExpectedChange::Order {
            path: path@,
            category: ChangeCategory::OrderedSchemaFieldChanged,
            left: l,
            right: r,
            index: first_difference(l, r),
        }]
    } else {
        Seq::empty()
    };
    proof {
        assert(changes@.take(before.len() as int) =~= before);
        assert(changes_extend(changes@, before, Seq::empty()));
    }
    if same_name_set(&left_names, &right_names) && !same_names(&left_names, &right_names) {
        let change = DiffChange {
            path: owned(path),
            category: ChangeCategory::OrderedSchemaFieldChanged,
            left: Some(sequence_summary(&left_names)),
            right: Some(sequence_summary(&right_names)),
            order_changed: true,
            content_changed: false,
            presence_changed: false,
            whitespace_only: false,
            sequence_index: first_difference_index(&left_names, &right_names),
        };
        let ghost cur = changes@;
        proof {
            assert(change_is(change, order_part[0]));
            lemma_extend_push(cur, before, Seq::empty(), change, order_part[0]);
            assert(Seq::<ExpectedChange>::empty().push(order_part[0]) =~= order_part);
        }
        push_change(changes, change);
    } else {
        proof {
            assert(order_part =~= Seq::<ExpectedChange>::empty());
        }
    }
    let mut i: usize = 0;
    while i < lf.len()
        invariant
            views(left_names@) == l,
            views(right_names@) == r,
            left_names.len() == lf.len(),
            right_names.len() == rf.len(),
            l == field_names(lf@),
            r == field_names(rf@),
            i <= lf.len(),
            changes_extend(changes@, before,
                order_part + field_presence_changes(path@, lf@, r, i as int, ChangeCategory::OptionalSchemaFieldRemoved, true)),
        decreases lf.len() - i,
    {
        let ghost exp = order_part + field_presence_changes(path@, lf@, r, i as int, ChangeCategory::OptionalSchemaFieldRemoved, true);
        let ghost cur = changes@;
        proof {
            assert(views(left_names@)[i as int] == lf@[i as int].name@);
        }
        if !contains_name(&right_names, left_names[i].as_str()) {
            let change = presence_change(
                indexed_text(path, i, ""),
                ChangeCategory::OptionalSchemaFieldRemoved,
                Some(value_summary(&lf[i].value)),
                None,
                Some(i),
            );
            let ghost e = ExpectedChange::ValuePresence {
                path: indexed(path@, i as int, Seq::empty()),
                category: ChangeCategory::OptionalSchemaFieldRemoved,
                left: Some(lf@[i as int].value),
                right: None,
                index: i as int,
            };
            proof {
                reveal_strlit("");
                assert(change_is(change, e));
                lemma_extend_push(cur, before, exp, change, e);
                assert(order_part + field_presence_changes(path@, lf@, r, i + 1, ChangeCategory::OptionalSchemaFieldRemoved, true)
                    =~= exp.push(e));
            }
            push_change(changes, change);
        } else {
            proof {
                assert(order_part + field_presence_changes(path@, lf@, r, i + 1, ChangeCategory::OptionalSchemaFieldRemoved, true) =~= exp);
            }
        }
        i = i + 1;
    }
    let ghost removed = field_presence_changes(path@, lf@, r, lf.len() as int, ChangeCategory::OptionalSchemaFieldRemoved, true);
    let mut i: usize = 0;
    while i < rf.len()
        invariant
            views(left_names@) == l,
            views(right_names@) == r,
            left_names.len() == lf.len(),
            right_names.len() == rf.len(),
            l == field_names(lf@),
            r == field_names(rf@),
            removed == field_presence_changes(path@, lf@, r, lf.len() as int, ChangeCategory::OptionalSchemaFieldRemoved, true),
            i <= rf.len(),
            changes_extend(changes@, before,
                order_part + removed + field_presence_changes(path@, rf@, l, i as int, ChangeCategory::OptionalSchemaFieldAdded, false)),
        decreases rf.len() - i,
    {
        let ghost exp = order_part + removed + field_presence_changes(path@, rf@, l, i as int, ChangeCategory::OptionalSchemaFieldAdded, false);
        let ghost cur = changes@;
        proof {
            assert(views(right_names@)[i as int] == rf@[i as int].name@);
        }
        if !contains_name(&left_names, right_names[i].as_str()) {
            let change = presence_change(
                indexed_text(path, i, ""),
                ChangeCategory::OptionalSchemaFieldAdded,
                None,
                Some(value_summary(&rf[i].value)),
                Some(i),
            );
            let ghost e = ExpectedChange::ValuePresence {
                path: indexed(path@, i as int, Seq::empty()),
                category: ChangeCategory::OptionalSchemaFieldAdded,
                left: None,
                right: Some(rf@[i as int].value),
                index: i as int,
            };
            proof {
                reveal_strlit("");
                assert(change_is(change, e));
                lemma_extend_push(cur, before, exp, change, e);
                assert(order_part + removed + field_presence_changes(path@, rf@, l, i + 1, ChangeCategory::OptionalSchemaFieldAdded, false)
                    =~= exp.push(e));
            }
            push_change(changes, change);
        } else {
            proof {
                assert(order_part + removed + field_presence_changes(path@, rf@, l, i + 1, ChangeCategory::OptionalSchemaFieldAdded, false) =~= exp);
            }
        }
        i = i + 1;
    }
    let ghost added = field_presence_changes(path@, rf@, l, rf.len() as int, ChangeCategory::OptionalSchemaFieldAdded, false);
    let mut i: usize = 0;
    while i < rf.len()
        invariant
            views(left_names@) == l,
            views(right_names@) == r,
            left_names.len() == lf.len(),
            right_names.len() == rf.len(),
            l == field_names(lf@),
            r == field_names(rf@),
            i <= rf.len(),
            changes_extend(changes@, before, order_part + removed + added + field_value_changes(path@, lf@, rf@, i as int)),
        decreases rf.len() - i,
    {
        let ghost exp = order_part + removed + added + field_value_changes(path@, lf@, rf@, i as int);
        let ghost cur = changes@;
        proof {
            assert(views(right_names@)[i as int] == rf@[i as int].name@);
            lemma_last_position(l, rf@[i as int].name@);
        }
        match name_position(&left_names, right_names[i].as_str()) {
            Some(j) => {
                let previous = render_value(&lf[j].value);
                let current = render_value(&rf[i].value);
                if !str_eq(previous.as_str(), current.as_str()) {
                    let structure = !str_eq(json_shape(&lf[j].value).as_str(), json_shape(&rf[i].value).as_str());
                    let category = if structure {
                        ChangeCategory::JsonStructureChanged
                    } else {
                        ChangeCategory::ValueChanged
                    };
                    let change = value_change(
                        indexed_text(path, i, ".value"),
                        category,
                        Some(value_summary(&lf[j].value)),
                        Some(value_summary(&rf[i].value)),
                        Some(i),
                    );
                    let ghost e = ExpectedChange::Value {
                        path: indexed(path@, i as int, ".value"@),
                        category,
                        left: lf@[j as int].value,
                        right: rf@[i as int].value,
                        index: i as int,
                    };
                    proof {
                        assert(change_is(change, e));
                        lemma_extend_push(cur, before, exp, change, e);
                        assert(order_part + removed + added + field_value_changes(path@, lf@, rf@, i + 1) =~= exp.push(e));
                    }
                    push_change(changes, change);
                } else {
                    proof {
                        assert(order_part + removed + added + field_value_changes(path@, lf@, rf@, i + 1) =~= exp);
                    }
                }
            },
            None => {
                proof {
                    assert(order_part + removed + added + field_value_changes(path@, lf@, rf@, i + 1) =~= exp);
                }
            },
        }
        i = i + 1;
    }
}

// ---------------------------------------------------------------------------
// Comparing tool lists.

proof fn lemma_extend_chain(
    a: Seq<DiffChange>,
    b: Seq<DiffChange>,
    c: Seq<DiffChange>,
    e1: Seq<ExpectedChange>,
    e2: Seq<ExpectedChange>,
)
    requires
        changes_extend(b, a, e1),
        changes_extend(c, b, e2),
    ensures
        changes_extend(c, a, e1 + e2),
{
    let n1 = kept(a.len() as int, e1.len() as int);
    let n2 = kept(b.len() as int, e2.len() as int);
    assert(kept(a.len() as int, (e1 + e2).len() as int) == n1 + n2);
    assert(c.take(a.len() as int) =~= a) by {
        assert(c.take(b.len() as int) == b);
        assert(b.take(a.len() as int) == a);
        assert forall|k: int| 0 <= k < a.len() implies c.take(a.len() as int)[k] == a[k] by {
            assert(c[k] == c.take(b.len() as int)[k]);
            assert(b[k] == b.take(a.len() as int)[k]);
        }
    }
    assert forall|k: int| 0 <= k < n1 + n2 implies change_is(#[trigger] c[a.len() + k], (e1 + e2)[k]) by {
        if k < n1 {
            assert(c[a.len() + k] == c.take(b.len() as int)[a.len() + k]);
            assert(change_is(b[a.len() + k], e1[k]));
        } else {
            assert(a.len() + k == b.len() + (k - n1));
            assert(change_is(c[b.len() + (k - n1)], e2[k - n1]));
        }
    }
}

/// The names of the tools, in order.
pub open spec fn tool_names(tools: Seq<ToolDefinition>) -> Seq<Seq<char>> {
    tools.map_values(|t: ToolDefinition| t.name@)
}

/// The path of the tool at `index`, followed by `suffix`.
pub open spec fn tool_path(index: int, suffix: Seq<char>) -> Seq<char> {
    "context.tools["@ + decimal(index as nat) + "]"@ + suffix
}

/// The tools of `side` before `k` whose names `other` lacks, as presence
/// changes of `category`; `removed` tells on which side the description is.
pub open spec fn tool_presence_changes(
    side: Seq<ToolDefinition>,
    other: Seq<Seq<char>>,
    k: int,
    category: ChangeCategory,
    removed: bool,
) -> Seq<ExpectedChange>
    decreases k,
{
    if k <= 0 {
        Seq::empty()
    } else {
        tool_presence_changes(side, other, k - 1, category, removed) + if !other.contains(side[k - 1].name@) {
            seq![ExpectedChange::Presence {
                path: tool_path(k - 1, Seq::empty()),
                category,
                left: if removed { Some(side[k - 1].description@) } else { None },
                right: if removed { None } else { Some(side[k - 1].description@) },
                index: k - 1,
            }]
        } else {
            Seq::empty()
        }
    }
}

/// The changes between the tool `l` and the right tool `r` at `j`: its
/// description, then its parameter fields.
pub open spec fn tool_pair_changes(l: ToolDefinition, r: ToolDefinition, j: int) -> Seq<ExpectedChange> {
    (if l.description@ != r.description@ {
        seq![ExpectedChange::Text {
            path: tool_path(j, ".description"@),
            category: ChangeCategory::ToolDefinitionChanged,
            left: l.description@,
            right: r.description@,
            index: j,
        }]
    } else {
        Seq::empty()
    }) + field_changes(tool_path(j, ".parameters.fields"@), l.parameters.fields@, r.parameters.fields@)
}

/// The definition changes between the tools of `left` before `k` and the
/// last tool of `right` with the same name.
pub open spec fn tool_definition_changes(left: Seq<ToolDefinition>, right: Seq<ToolDefinition>, k: int) -> Seq<ExpectedChange>
    decreases k,
{
    if k <= 0 {
        Seq::empty()
    } else {
        tool_definition_changes(left, right, k - 1) + match last_position(tool_names(right), left[k - 1].name@) {
            Some(j) => tool_pair_changes(left[k - 1], right[j], j),
            None => Seq::empty(),
        }
    }
}

/// The descriptions compared for the tools of `left` before `k`: path,
/// left description and right description.
pub open spec fn description_texts(left: Seq<ToolDefinition>, right: Seq<ToolDefinition>, k: int) -> Seq<(Seq<char>, Seq<char>, Seq<char>)>
    decreases k,
{
    if k <= 0 {
        Seq::empty()
    } else {
        description_texts(left, right, k - 1) + match last_position(tool_names(right), left[k - 1].name@) {
            Some(j) => seq![(tool_path(j, ".description"@), left[k - 1].description@, right[j].description@)],
            None => Seq::empty(),
        }
    }
}

/// Every change that comparing two tool lists records, in order: the
/// reordering of the same names, the removed tools, the added tools, and
/// the changed definitions.
pub open spec fn tool_changes(left: Seq<ToolDefinition>, right: Seq<ToolDefinition>) -> Seq<ExpectedChange> {
    let l = tool_names(left);
    let r = tool_names(right);
    (if l.to_set() == r.to_set() && l != r {
        seq![ExpectedChange::Order {
            path: "context.tools"@,
            category: ChangeCategory::ToolOrderChanged,
            left: l,
            right: r,
            index: first_difference(l, r),
        }]
    } else {
        Seq::empty()
    })
        + tool_presence_changes(left, r, left.len() as int, ChangeCategory::ToolRemoved, true)
        + tool_presence_changes(right, l, right.len() as int, ChangeCategory::ToolAdded, false)
        + tool_definition_changes(left, right, left.len() as int)
}

fn tool_name_list(tools: &Vec<ToolDefinition>) -> (r: Vec<String>)
    ensures
        views(r@) == tool_names(tools@),
{
    let mut r: Vec<String> = Vec::new();
    let mut i: usize = 0;
    while i < tools.len()
        invariant
            i <= tools.len(),
            r.len() == i,
            forall|k: int| 0 <= k < i ==> (#[trigger] r@[k])@ == tools@[k].name@,
        decreases tools.len() - i,
    {
        r.push(tools[i].name.clone());
        i = i + 1;
    }
    proof {
        assert(views(r@) =~= tool_names(tools@));
    }
    r
}

fn tool_path_text(index: usize, suffix: &str) -> (r: String)
    ensures
        r@ == tool_path(index as int, suffix@),
{
    let digits = decimal_string(index as u64);
    concat3("context.tools[", digits.as_str(), concat2("]", suffix).as_str())
}

/// Compares the tool `l` with the right tool `r` at `j`: its description,
/// then its parameter fields.
#[verifier::spinoff_prover]
fn compare_tool_pair(
    l: &ToolDefinition,
    r: &ToolDefinition,
    j: usize,
    changes: &mut Vec<DiffChange>,
    text: &mut Vec<TextCommonPrefix>,
)
    ensures
        changes_extend(final(changes)@, old(changes)@, tool_pair_changes(*l, *r, j as int)),
        final(text)@.len() == old(text)@.len() + 1,
        final(text)@.take(old(text)@.len() as int) == old(text)@,
        text_prefix(final(text)@.last(), tool_path(j as int, ".description"@), l.description@, r.description@),
{
    let ghost before = changes@;
    let ghost e = ExpectedChange::Text {
        path: tool_path(j as int, ".description"@),
        category: ChangeCategory::ToolDefinitionChanged,
        left: l.description@,
        right: r.description@,
        index: j as int,
    };
    let ghost text_part: Seq<ExpectedChange> = if l.description@ != r.description@ { seq![e] } else { Seq::empty() };
    compare_text(tool_path_text(j, ".description"), l.description.as_str(), r.description.as_str(),
        ChangeCategory::ToolDefinitionChanged, Some(j), changes, text);
    proof {
        assert(before.take(before.len() as int) =~= before);
        assert(changes_extend(before, before, Seq::empty()));
        if l.description@ != r.description@ {
            if before.len() <= MAX_CHANGES {
                assert(changes@ =~= before.push(changes@.last()));
                assert(change_is(changes@.last(), e));
                lemma_extend_push(before, before, Seq::empty(), changes@.last(), e);
            } else {
                lemma_extend_full(before, before, Seq::empty(), e);
            }
            assert(Seq::<ExpectedChange>::empty().push(e) =~= text_part);
        }
    }
    let ghost mid = changes@;
    let path = tool_path_text(j, ".parameters.fields");
    compare_ordered_fields(path.as_str(), &l.parameters, &r.parameters, changes);
    proof {
        lemma_extend_chain(before, mid, changes@, text_part,
            field_changes(tool_path(j as int, ".parameters.fields"@), l.parameters.fields@, r.parameters.fields@));
    }
}

/// Compares two tool lists: records a reordering of the same names, each
/// removed and each added tool, and, for each left tool, the comparison of
/// its definition with the last right tool of the same name.
#[verifier::spinoff_prover]
pub fn compare_tools(
    left: &Vec<ToolDefinition>,
    right: &Vec<ToolDefinition>,
    changes: &mut Vec<DiffChange>,
    text: &mut Vec<TextCommonPrefix>,
)
    ensures
        changes_extend(final(changes)@, old(changes)@, tool_changes(left@, right@)),
        texts_extend(final(text)@, old(text)@, description_texts(left@, right@, left.len() as int)),
{
    let ghost before = changes@;
    let ghost before_text = text@;
    let left_names = tool_name_list(left);
    let right_names = tool_name_list(right);
    let ghost l = tool_names(left@);
    let ghost r = tool_names(right@);
    proof {
        assert(views(left_names@).len() == left_names.len());
        assert(views(right_names@).len() == right_names.len());
    }
    let ghost order_part: Seq<ExpectedChange> = if l.to_set() == r.to_set() && l != r {
        seq![ExpectedChange::Order {
            path: "context.tools"@,
            category: ChangeCategory::ToolOrderChanged,
            left: l,
            right: r,
            index: first_difference(l, r),
        }]
    } else {
        Seq::empty()
    };
    proof {
        assert(changes@.take(before.len() as int) =~= before);
        assert(changes_extend(changes@, before, Seq::empty()));
    }
    if same_name_set(&left_names, &right_names) && !same_names(&left_names, &right_names) {
        let change = DiffChange {
            path: owned("context.tools"),
            category: ChangeCategory::ToolOrderChanged,
            left: Some(sequence_summary(&left_names)),
            right: Some(sequence_summary(&right_names)),
            order_changed: true,
            content_changed: false,
            presence_changed: false,
            whitespace_only: false,
            sequence_index: first_difference_index(&left_names, &right_names),
        };
        let ghost cur = changes@;
        proof {
            assert(change_is(change, order_part[0]));
            lemma_extend_push(cur, before, Seq::empty(), change, order_part[0]);
            assert(Seq::<ExpectedChange>::empty().push(order_part[0]) =~= order_part);
        }
        push_change(changes, change);
    } else {
        proof {
            assert(order_part =~= Seq::<ExpectedChange>::empty());
        }
    }
    let mut i: usize = 0;
    while i < left.len()
        invariant
            views(left_names@) == l,
            views(right_names@) == r,
            left_names.len() == left.len(),
            right_names.len() == right.len(),
            l == tool_names(left@),
            r == tool_names(right@),
            i <= left.len(),
            text@ == before_text,
            changes_extend(changes@, before,
                order_part + tool_presence_changes(left@, r, i as int, ChangeCategory::ToolRemoved, true)),
        decreases left.len() - i,
    {
        let ghost exp = order_part + tool_presence_changes(left@, r, i as int, ChangeCategory::ToolRemoved, true);
        let ghost cur = changes@;
        proof {
            assert(views(left_names@)[i as int] == left@[i as int].name@);
        }
        if !contains_name(&right_names, left_names[i].as_str()) {
            let change = presence_change(
                tool_path_text(i, ""),
                ChangeCategory::ToolRemoved,
                Some(summary_text(left[i].description.as_str())),
                None,
                Some(i),
            );
            let ghost e = ExpectedChange::Presence {
                path: tool_path(i as int, Seq::empty()),
                category: ChangeCategory::ToolRemoved,
                left: Some(left@[i as int].description@),
                right: None,
                index: i as int,
            };
            proof {
                reveal_strlit("");
                assert(change_is(change, e));
                lemma_extend_push(cur, before, exp, change, e);
                assert(order_part + tool_presence_changes(left@, r, i + 1, ChangeCategory::ToolRemoved, true)
                    =~= exp.push(e));
            }
            push_change(changes, change);
        } else {
            proof {
                assert(order_part + tool_presence_changes(left@, r, i + 1, ChangeCategory::ToolRemoved, true) =~= exp);
            }
        }
        i = i + 1;
    }
    let ghost removed = tool_presence_changes(left@, r, left.len() as int, ChangeCategory::ToolRemoved, true);
    let mut i: usize = 0;
    while i < right.len()
        invariant
            views(left_names@) == l,
            views(right_names@) == r,
            left_names.len() == left.len(),
            right_names.len() == right.len(),
            l == tool_names(left@),
            r == tool_names(right@),
            removed == tool_presence_changes(left@, r, left.len() as int, ChangeCategory::ToolRemoved, true),
            i <= right.len(),
            text@ == before_text,
            changes_extend(changes@, before,
                order_part + removed + tool_presence_changes(right@, l, i as int, ChangeCategory::ToolAdded, false)),
        decreases right.len() - i,
    {
        let ghost exp = order_part + removed + tool_presence_changes(right@, l, i as int, ChangeCategory::ToolAdded, false);
        let ghost cur = changes@;
        proof {
            assert(views(right_names@)[i as int] == right@[i as int].name@);
        }
        if !contains_name(&left_names, right_names[i].as_str()) {
            let change = presence_change(
                tool_path_text(i, ""),
                ChangeCategory::ToolAdded,
                None,
                Some(summary_text(right[i].description.as_str())),
                Some(i),
            );
            let ghost e = ExpectedChange::Presence {
                path: tool_path(i as int, Seq::empty()),
                category: ChangeCategory::ToolAdded,
                left: None,
                right: Some(right@[i as int].description@),
                index: i as int,
            };
            proof {
                reveal_strlit("");
                assert(change_is(change, e));
                lemma_extend_push(cur, before, exp, change, e);
                assert(order_part + removed + tool_presence_changes(right@, l, i + 1, ChangeCategory::ToolAdded, false)
                    =~= exp.push(e));
            }
            push_change(changes, change);
        } else {
            proof {
                assert(order_part + removed + tool_presence_changes(right@, l, i + 1, ChangeCategory::ToolAdded, false) =~= exp);
            }
        }
        i = i + 1;
    }
    let ghost added = tool_presence_changes(right@, l, right.len() as int, ChangeCategory::ToolAdded, false);
    proof {
        assert(text@.take(before_text.len() as int) =~= before_text);
    }
    let mut i: usize = 0;
    while i < left.len()
        invariant
            views(left_names@) == l,
            views(right_names@) == r,
            left_names.len() == left.len(),
            right_names.len() == right.len(),
            l == tool_names(left@),
            r == tool_names(right@),
            i <= left.len(),
            changes_extend(changes@, before, order_part + removed + added + tool_definition_changes(left@, right@, i as int)),
            texts_extend(text@, before_text, description_texts(left@, right@, i as int)),
        decreases left.len() - i,
    {
        let ghost exp = order_part + removed + added + tool_definition_changes(left@, right@, i as int);
        let ghost cur = changes@;
        let ghost cur_text = text@;
        proof {
            assert(views(left_names@)[i as int] == left@[i as int].name@);
            lemma_last_position(r, left@[i as int].name@);
        }
        match name_position(&right_names, left_names[i].as_str()) {
            Some(j) => {
                compare_tool_pair(&left[i], &right[j], j, changes, text);
                proof {
                    lemma_extend_chain(before, cur, changes@, exp, tool_pair_changes(left@[i as int], right@[j as int], j as int));
                    assert(order_part + removed + added + tool_definition_changes(left@, right@, i + 1)
                        =~= exp + tool_pair_changes(left@[i as int], right@[j as int], j as int));
                    let t = (tool_path(j as int, ".description"@), left@[i as int].description@, right@[j as int].description@);
                    assert(description_texts(left@, right@, i + 1) =~= description_texts(left@, right@, i as int).push(t));
                    assert(text@ =~= cur_text.push(text@.last()));
                    assert forall|k: int| 0 <= k < description_texts(left@, right@, i + 1).len() implies
                        text_prefix(#[trigger] text@[before_text.len() + k], description_texts(left@, right@, i + 1)[k].0,
                            description_texts(left@, right@, i + 1)[k].1, description_texts(left@, right@, i + 1)[k].2) by {
                        if k < description_texts(left@, right@, i as int).len() {
                            assert(text@[before_text.len() + k] == cur_text[before_text.len() + k]);
                        }
                    }
                    assert(text@.take(before_text.len() as int) =~= before_text) by {
                        assert(cur_text.take(before_text.len() as int) == before_text);
                    }
                }
            },
            None => {
                proof {
                    assert(order_part + removed + added + tool_definition_changes(left@, right@, i + 1) =~= exp);
                    assert(description_texts(left@, right@, i + 1) =~= description_texts(left@, right@, i as int));
                }
            },
        }
        i = i + 1;
    }
}

// ---------------------------------------------------------------------------
// The prefix diff of two requests.

proof fn lemma_texts_chain(
    a: Seq<TextCommonPrefix>,
    b: Seq<TextCommonPrefix>,
    c: Seq<TextCommonPrefix>,
    t1: Seq<(Seq<char>, Seq<char>, Seq<char>)>,
    t2: Seq<(Seq<char>, Seq<char>, Seq<char>)>,
)
    requires
        texts_extend(b, a, t1),
        texts_extend(c, b, t2),
    ensures
        texts_extend(c, a, t1 + t2),
{
    assert(c.take(a.len() as int) =~= a) by {
        assert forall|k: int| 0 <= k < a.len() implies c.take(a.len() as int)[k] == a[k] by {
            assert(c[k] == c.take(b.len() as int)[k]);
            assert(b[k] == b.take(a.len() as int)[k]);
        }
    }
    assert forall|k: int| 0 <= k < (t1 + t2).len() implies
        text_prefix(#[trigger] c[a.len() + k], (t1 + t2)[k].0, (t1 + t2)[k].1, (t1 + t2)[k].2) by {
        if k < t1.len() {
            assert(c[a.len() + k] == c.take(b.len() as int)[a.len() + k]);
            assert(text_prefix(b[a.len() + k], t1[k].0, t1[k].1, t1[k].2));
        } else {
            assert(a.len() + k == b.len() + (k - t1.len()));
            assert(text_prefix(c[b.len() + (k - t1.len())], t2[k - t1.len()].0, t2[k - t1.len()].1, t2[k - t1.len()].2));
        }
    }
}

/// The change of a request text at `path`, if it changed.
pub open spec fn plain_text_changes(path: Seq<char>, left: Seq<char>, right: Seq<char>) -> Seq<ExpectedChange> {
    if left != right {
        seq![ExpectedChange::PlainText { path, category: ChangeCategory::TextContentChanged, left, right }]
    } else {
        Seq::empty()
    }
}

/// Compares a request text at `path`.
fn record_text(path: &str, left: &str, right: &str, changes: &mut Vec<DiffChange>, text: &mut Vec<TextCommonPrefix>)
    ensures
        changes_extend(final(changes)@, old(changes)@, plain_text_changes(path@, left@, right@)),
        texts_extend(final(text)@, old(text)@, seq![(path@, left@, right@)]),
{
    let ghost before = changes@;
    let ghost before_text = text@;
    compare_text(owned(path), left, right, ChangeCategory::TextContentChanged, None, changes, text);
    proof {
        let e = ExpectedChange::PlainText { path: path@, category: ChangeCategory::TextContentChanged, left: left@, right: right@ };
        assert(before.take(before.len() as int) =~= before);
        assert(changes_extend(before, before, Seq::empty()));
        if left@ != right@ {
            if before.len() <= MAX_CHANGES {
                assert(changes@ =~= before.push(changes@.last()));
                assert(change_is(changes@.last(), e));
                lemma_extend_push(before, before, Seq::empty(), changes@.last(), e);
            } else {
                lemma_extend_full(before, before, Seq::empty(), e);
            }
            assert(Seq::<ExpectedChange>::empty().push(e) =~= plain_text_changes(path@, left@, right@));
        } else {
            assert(Seq::<ExpectedChange>::empty() =~= plain_text_changes(path@, left@, right@));
        }
        assert(text@[before_text.len() as int] == text@.last());
    }
}

/// The fingerprint of a text: the SHA-256 digest of its UTF-8 bytes.
pub open spec fn fingerprint(text: Seq<char>) -> Seq<char> {
    hex_lower(sha256_digest(encode_utf8(text)))
}

/// The structural units of a context, in order: the system instruction,
/// each artifact, the user content and each tool, each named by its kind,
/// identifier and fingerprint.
pub open spec fn context_unit_texts(c: RequestContext) -> Seq<Seq<char>> {
    seq!["system:"@ + fingerprint(c.system_instruction@)]
        + c.artifacts@.map_values(|a: ContextArtifactInput| "artifact:"@ + a.artifact_id@ + ":"@ + fingerprint(a.content@))
        + seq!["user:"@ + fingerprint(c.user_content@)]
        + c.tools@.map_values(|t: ToolDefinition| "tool:"@ + t.name@ + ":"@ + fingerprint(tool_json(t)))
}

/// The structural units of a request's context.
#[verifier::spinoff_prover]
fn context_units(request: &ConformanceRequest) -> (r: Vec<String>)
    ensures
        views(r@) == context_unit_texts(request.context),
{
    let c = &request.context;
    let mut units: Vec<String> = Vec::new();
    units.push(concat2("system:", hash_text(c.system_instruction.as_str()).as_str()));
    let ghost head = views(units@);
    let mut i: usize = 0;
    while i < c.artifacts.len()
        invariant
            i <= c.artifacts.len(),
            units.len() == 1 + i,
            views(units@).take(1) == head,
            head == seq!["system:"@ + fingerprint(c.system_instruction@)],
            forall|k: int| 0 <= k < i ==> (#[trigger] units@[1 + k])@ == "artifact:"@ + c.artifacts@[k].artifact_id@ + ":"@
                + fingerprint(c.artifacts@[k].content@),
        decreases c.artifacts.len() - i,
    {
        let a = &c.artifacts[i];
        let mut unit = concat3("artifact:", a.artifact_id.as_str(), ":");
        unit.append(hash_text(a.content.as_str()).as_str());
        let ghost prev = units@;
        units.push(unit);
        proof {
            assert(views(units@).take(1) =~= views(prev).take(1));
            assert forall|k: int| 0 <= k < i + 1 implies (#[trigger] units@[1 + k])@ == "artifact:"@ + c.artifacts@[k].artifact_id@
                + ":"@ + fingerprint(c.artifacts@[k].content@) by {
                if k < i {
                    assert(units@[1 + k] == prev[1 + k]);
                }
            }
        }
        i = i + 1;
    }
    let ghost with_artifacts = views(units@);
    proof {
        let want = seq!["system:"@ + fingerprint(c.system_instruction@)]
            + c.artifacts@.map_values(|a: ContextArtifactInput| "artifact:"@ + a.artifact_id@ + ":"@ + fingerprint(a.content@));
        assert(with_artifacts.len() == want.len());
        assert forall|k: int| 0 <= k < want.len() implies with_artifacts[k] == want[k] by {
            if k == 0 {
                assert(views(units@).take(1)[0] == with_artifacts[0]);
            } else {
                let j = k - 1;
                assert(units@[1 + j]@ == "artifact:"@ + c.artifacts@[j].artifact_id@ + ":"@ + fingerprint(c.artifacts@[j].content@));
            }
        }
        assert(with_artifacts =~= want);
    }
    units.push(concat2("user:", hash_text(c.user_content.as_str()).as_str()));
    let ghost with_user = views(units@);
    proof {
        assert(with_user =~= with_artifacts + seq!["user:"@ + fingerprint(c.user_content@)]);
    }
    let base = units.len();
    let mut i: usize = 0;
    while i < c.tools.len()
        invariant
            i <= c.tools.len(),
            base == with_user.len(),
            units.len() == base + i,
            views(units@).take(base as int) == with_user,
            forall|k: int| 0 <= k < i ==> (#[trigger] units@[base + k])@ == "tool:"@ + c.tools@[k].name@ + ":"@
                + fingerprint(tool_json(c.tools@[k])),
        decreases c.tools.len() - i,
    {
        let t = &c.tools[i];
        let json = crate::conformance::tool_text(t);
        let mut unit = concat3("tool:", t.name.as_str(), ":");
        unit.append(sha256_hex(json.as_str().as_bytes()).as_str());
        let ghost prev = units@;
        units.push(unit);
        proof {
            assert(views(units@).take(base as int) =~= views(prev).take(base as int));
            assert forall|k: int| 0 <= k < i + 1 implies (#[trigger] units@[base + k])@ == "tool:"@ + c.tools@[k].name@ + ":"@
                + fingerprint(tool_json(c.tools@[k])) by {
                if k < i {
                    assert(units@[base + k] == prev[base + k]);
                }
            }
        }
        i = i + 1;
    }
    proof {
        let want = context_unit_texts(request.context);
        assert(want =~= with_user
            + c.tools@.map_values(|t: ToolDefinition| "tool:"@ + t.name@ + ":"@ + fingerprint(tool_json(t))));
        assert(views(units@).len() == want.len());
        assert forall|k: int| 0 <= k < want.len() implies views(units@)[k] == want[k] by {
            if k < base {
                assert(views(units@).take(base as int)[k] == views(units@)[k]);
            } else {
                let j = k - base;
                assert(units@[base + j]@ == "tool:"@ + c.tools@[j].name@ + ":"@ + fingerprint(tool_json(c.tools@[j])));
            }
        }
        assert(views(units@) =~= want);
    }
    units
}

/// `k` is the number of leading units that the two lists share.
pub open spec fn common_units_len(a: Seq<Seq<char>>, b: Seq<Seq<char>>, k: int) -> bool {
    &&& 0 <= k <= a.len()
    &&& k <= b.len()
    &&& forall|i: int| 0 <= i < k ==> a[i] == b[i]
    &&& (k < a.len() && k < b.len() ==> a[k] != b[k])
}

/// The number of leading units the two lists share.
fn common_len(left: &Vec<String>, right: &Vec<String>) -> (r: usize)
    ensures
        common_units_len(views(left@), views(right@), r as int),
{
    let mut k: usize = 0;
    while k < left.len() && k < right.len() && str_eq(left[k].as_str(), right[k].as_str())
        invariant
            k <= left.len(),
            k <= right.len(),
            forall|i: int| 0 <= i < k ==> views(left@)[i] == views(right@)[i],
        decreases left.len() - k,
    {
        k = k + 1;
    }
    k
}

/// `k` is the number of leading tools that the two lists share, whole
/// definitions alike.
pub open spec fn common_tools_len(a: Seq<ToolDefinition>, b: Seq<ToolDefinition>, k: int) -> bool {
    &&& 0 <= k <= a.len()
    &&& k <= b.len()
    &&& forall|i: int| 0 <= i < k ==> tool_json(#[trigger] a[i]) == tool_json(b[i])
    &&& (k < a.len() && k < b.len() ==> tool_json(a[k]) != tool_json(b[k]))
}

fn same_tool(a: &ToolDefinition, b: &ToolDefinition) -> (r: bool)
    ensures
        r == (tool_json(*a) == tool_json(*b)),
{
    let x = crate::conformance::tool_text(a);
    let y = crate::conformance::tool_text(b);
    str_eq(x.as_str(), y.as_str())
}

/// The number of leading tools the two lists share.
#[verifier::spinoff_prover]
#[verifier::rlimit(50)]
pub fn common_tool_units(left: &Vec<ToolDefinition>, right: &Vec<ToolDefinition>) -> (r: usize)
    ensures
        common_tools_len(left@, right@, r as int),
{
    let n = if left.len() < right.len() { left.len() } else { right.len() };
    let mut k: usize = 0;
    while k < n
        invariant
            n <= left.len(),
            n <= right.len(),
            n == left.len() || n == right.len(),
            k <= n,
            forall|i: int| 0 <= i < k ==> tool_json(#[trigger] left@[i]) == tool_json(right@[i]),
        decreases n - k,
    {
        if !same_tool(&left[k], &right[k]) {
            return k;
        }
        k = k + 1;
    }
    k
}

/// A value summary, by value.
pub open spec fn summary_view(s: ValueSummary) -> (Seq<char>, Seq<char>, usize, Option<Seq<char>>) {
    (s.value_type@, s.fingerprint@, s.size_bytes, opt_view(s.preview))
}

pub open spec fn opt_summary_view(s: Option<ValueSummary>) -> Option<(Seq<char>, Seq<char>, usize, Option<Seq<char>>)> {
    match s {
        Some(x) => Some(summary_view(x)),
        None => None,
    }
}

/// A recorded change, by value.
pub open spec fn change_view(c: DiffChange) -> (Seq<char>, ChangeCategory, Option<(Seq<char>, Seq<char>, usize, Option<Seq<char>>)>,
    Option<(Seq<char>, Seq<char>, usize, Option<Seq<char>>)>, (bool, bool, bool, bool), Option<usize>) {
    (c.path@, c.category, opt_summary_view(c.left), opt_summary_view(c.right),
        (c.order_changed, c.content_changed, c.presence_changed, c.whitespace_only), c.sequence_index)
}

fn copy_summary(s: &Option<ValueSummary>) -> (r: Option<ValueSummary>)
    ensures
        opt_summary_view(r) == opt_summary_view(*s),
{
    match s {
        Some(x) => Some(ValueSummary {
            value_type: x.value_type.clone(),
            fingerprint: x.fingerprint.clone(),
            size_bytes: x.size_bytes,
            preview: match &x.preview {
                Some(p) => Some(p.clone()),
                None => None,
            },
        }),
        None => None,
    }
}

fn copy_change(c: &DiffChange) -> (r: DiffChange)
    ensures
        change_view(r) == change_view(*c),
{
    DiffChange {
        path: c.path.clone(),
        category: c.category,
        left: copy_summary(&c.left),
        right: copy_summary(&c.right),
        order_changed: c.order_changed,
        content_changed: c.content_changed,
        presence_changed: c.presence_changed,
        whitespace_only: c.whitespace_only,
        sequence_index: c.sequence_index,
    }
}

/// Every change between the contexts of two requests, in order: the
/// system instruction, the artifacts, the user content and the tools.
pub open spec fn prefix_changes(l: ConformanceRequest, r: ConformanceRequest) -> Seq<ExpectedChange> {
    plain_text_changes("context.system_instruction"@, l.context.system_instruction@, r.context.system_instruction@)
        + artifact_changes(l.context.artifacts@, r.context.artifacts@)
        + plain_text_changes("context.current_user"@, l.context.user_content@, r.context.user_content@)
        + tool_changes(l.context.tools@, r.context.tools@)
}

/// Every text whose common prefix the diff of two contexts measures, in
/// order: path, left text and right text.
pub open spec fn prefix_texts(l: ConformanceRequest, r: ConformanceRequest) -> Seq<(Seq<char>, Seq<char>, Seq<char>)> {
    seq![("context.system_instruction"@, l.context.system_instruction@, r.context.system_instruction@)]
        + content_texts(l.context.artifacts@, r.context.artifacts@, l.context.artifacts.len() as int)
        + seq![("context.current_user"@, l.context.user_content@, r.context.user_content@)]
        + description_texts(l.context.tools@, r.context.tools@, l.context.tools.len() as int)
}

/// `d` is the prefix diff of the two valid requests.
pub open spec fn prefix_diff_of(d: PrefixDiff, l: ConformanceRequest, r: ConformanceRequest) -> bool {
    let lf = text_fingerprint(context_json(l.context));
    let rf = text_fingerprint(context_json(r.context));
    let expected = prefix_changes(l, r);
    &&& d.schema_id@ == PREFIX_DIFF_SCHEMA_ID@
    &&& d.schema_version == PREFIX_DIFF_SCHEMA_VERSION
    &&& d.left_context_fingerprint@ == lf
    &&& d.right_context_fingerprint@ == rf
    &&& d.identical == (lf == rf)
    &&& common_units_len(context_unit_texts(l.context), context_unit_texts(r.context), d.common_prefix.structural_units as int)
    &&& common_artifacts_len(l.context.artifacts@, r.context.artifacts@, d.common_prefix.artifact_units as int)
    &&& common_tools_len(l.context.tools@, r.context.tools@, d.common_prefix.tool_units as int)
    &&& texts_extend(d.common_prefix.text@, Seq::empty(), prefix_texts(l, r))
    &&& d.common_prefix.token_units is NotObserved
    &&& d.changes.len() == expected.len()
    &&& forall|k: int| 0 <= k < expected.len() ==> change_is(#[trigger] d.changes@[k], expected[k])
    &&& (if d.changes.len() == 0 {
        d.first_divergence is None
    } else {
        d.first_divergence matches Some(f) && change_view(f) == change_view(d.changes@[0])
    })
    &&& d.provenance@.len() == 2
    &&& d.provenance@[0].0@ == "cache_semantics"@ && d.provenance@[0].1@ == "not_observed"@
    &&& d.provenance@[1].0@ == "source"@ && d.provenance@[1].1@ == "neutral-request-structure"@
    &&& d.cache_impact is Unknown
}

proof fn lemma_extend_exact(c: Seq<DiffChange>, e: Seq<ExpectedChange>)
    requires
        changes_extend(c, Seq::empty(), e),
    ensures
        c.len() <= MAX_CHANGES ==> c.len() == e.len() && forall|k: int| 0 <= k < e.len() ==> change_is(#[trigger] c[k], e[k]),
        c.len() > MAX_CHANGES <==> e.len() > MAX_CHANGES,
{
    assert forall|k: int| 0 <= k < kept(0, e.len() as int) implies change_is(#[trigger] c[k], e[k]) by {
        assert(c[0 + k] == c[k]);
    }
}

/// Compares the contexts of two requests: every change, and every common
/// prefix measured.
#[verifier::spinoff_prover]
fn context_changes(left: &ConformanceRequest, right: &ConformanceRequest) -> (r: (Vec<DiffChange>, Vec<TextCommonPrefix>))
    ensures
        changes_extend(r.0@, Seq::empty(), prefix_changes(*left, *right)),
        texts_extend(r.1@, Seq::empty(), prefix_texts(*left, *right)),
{
    let lc = &left.context;
    let rc = &right.context;
    let mut changes: Vec<DiffChange> = Vec::new();
    let mut text: Vec<TextCommonPrefix> = Vec::new();
    let ghost c0 = changes@;
    let ghost t0 = text@;
    record_text("context.system_instruction", lc.system_instruction.as_str(), rc.system_instruction.as_str(), &mut changes, &mut text);
    let ghost c1 = changes@;
    let ghost t1 = text@;
    compare_artifacts(&lc.artifacts, &rc.artifacts, &mut changes, &mut text);
    proof {
        lemma_extend_chain(c0, c1, changes@,
            plain_text_changes("context.system_instruction"@, lc.system_instruction@, rc.system_instruction@),
            artifact_changes(lc.artifacts@, rc.artifacts@));
        lemma_texts_chain(t0, t1, text@, seq![("context.system_instruction"@, lc.system_instruction@, rc.system_instruction@)],
            content_texts(lc.artifacts@, rc.artifacts@, lc.artifacts.len() as int));
    }
    let ghost c2 = changes@;
    let ghost t2 = text@;
    record_text("context.current_user", lc.user_content.as_str(), rc.user_content.as_str(), &mut changes, &mut text);
    proof {
        lemma_extend_chain(c0, c2, changes@,
            plain_text_changes("context.system_instruction"@, lc.system_instruction@, rc.system_instruction@)
                + artifact_changes(lc.artifacts@, rc.artifacts@),
            plain_text_changes("context.current_user"@, lc.user_content@, rc.user_content@));
        lemma_texts_chain(t0, t2, text@, seq![("context.system_instruction"@, lc.system_instruction@, rc.system_instruction@)]
            + content_texts(lc.artifacts@, rc.artifacts@, lc.artifacts.len() as int),
            seq![("context.current_user"@, lc.user_content@, rc.user_content@)]);
    }
    let ghost c3 = changes@;
    let ghost t3 = text@;
    compare_tools(&lc.tools, &rc.tools, &mut changes, &mut text);
    proof {
        lemma_extend_chain(c0, c3, changes@,
            plain_text_changes("context.system_instruction"@, lc.system_instruction@, rc.system_instruction@)
                + artifact_changes(lc.artifacts@, rc.artifacts@)
                + plain_text_changes("context.current_user"@, lc.user_content@, rc.user_content@),
            tool_changes(lc.tools@, rc.tools@));
        lemma_texts_chain(t0, t3, text@, seq![("context.system_instruction"@, lc.system_instruction@, rc.system_instruction@)]
            + content_texts(lc.artifacts@, rc.artifacts@, lc.artifacts.len() as int)
            + seq![("context.current_user"@, lc.user_content@, rc.user_content@)],
            description_texts(lc.tools@, rc.tools@, lc.tools.len() as int));
        assert(changes_extend(changes@, c0, prefix_changes(*left, *right)));
        assert(texts_extend(text@, t0, prefix_texts(*left, *right)));
        assert(c0 =~= Seq::<DiffChange>::empty());
        assert(t0 =~= Seq::<TextCommonPrefix>::empty());
    }
    (changes, text)
}

/// Compares the model-visible contexts of two requests. Both must be
/// valid, and the changes must stay within `MAX_CHANGES`.
#[verifier::spinoff_prover]
pub fn prefix_diff(left: &ConformanceRequest, right: &ConformanceRequest) -> (r: Result<PrefixDiff, BenchmarkError>)
    ensures
        match r {
            Ok(d) => request_ok(*left) && request_ok(*right) && prefix_changes(*left, *right).len() <= MAX_CHANGES
                && prefix_diff_of(d, *left, *right),
            Err(_) => !request_ok(*left) || !request_ok(*right) || prefix_changes(*left, *right).len() > MAX_CHANGES,
        },
{
    match left.validate() {
        Ok(_) => {},
        Err(e) => return Err(e),
    }
    match right.validate() {
        Ok(_) => {},
        Err(e) => return Err(e),
    }
    let left_fingerprint = match left.context_fingerprint() {
        Ok(f) => f,
        Err(e) => return Err(e),
    };
    let right_fingerprint = match right.context_fingerprint() {
        Ok(f) => f,
        Err(e) => return Err(e),
    };
    let (changes, text) = context_changes(left, right);
    let lc = &left.context;
    let rc = &right.context;
    proof {
        lemma_extend_exact(changes@, prefix_changes(*left, *right));
    }
    match ensure_change_bound(&changes) {
        Ok(_) => {},
        Err(e) => return Err(e),
    }
    let left_units = context_units(left);
    let right_units = context_units(right);
    let structural_units = common_len(&left_units, &right_units);
    let artifact_units = common_artifact_units(&lc.artifacts, &rc.artifacts);
    let tool_units = common_tool_units(&lc.tools, &rc.tools);
    let identical = str_eq(left_fingerprint.as_str(), right_fingerprint.as_str());
    let first_divergence = if changes.len() == 0 { None } else { Some(copy_change(&changes[0])) };
    let mut provenance: Vec<(String, String)> = Vec::new();
    provenance.push((owned("cache_semantics"), owned("not_observed")));
    provenance.push((owned("source"), owned("neutral-request-structure")));
    Ok(PrefixDiff {
        schema_id: owned(PREFIX_DIFF_SCHEMA_ID),
        schema_version: PREFIX_DIFF_SCHEMA_VERSION,
        left_context_fingerprint: left_fingerprint,
        right_context_fingerprint: right_fingerprint,
        identical,
        common_prefix: CommonPrefixMeasurement {
            structural_units,
            artifact_units,
            tool_units,
            text,
            token_units: Observed::NotObserved,
        },
        first_divergence,
        changes,
        provenance,
        cache_impact: CacheImpactAssessment::Unknown,
    })
}

// ---------------------------------------------------------------------------
// The envelope diff and the request diff.

/// A JSON value of the envelope, as its type name and its JSON text.
pub type EnvelopeValue = (Seq<char>, Seq<char>);

/// The reasoning setting as a JSON value.
pub open spec fn reasoning_value(r: Option<ReasoningSetting>) -> Option<EnvelopeValue> {
    match r {
        Some(x) => Some((if x is Level { "object"@ } else { "string"@ }, reasoning_json(x))),
        None => None,
    }
}

/// The response format as a JSON value.
pub open spec fn response_format_value(f: Option<ResponseFormat>) -> Option<EnvelopeValue> {
    match f {
        Some(x) => Some(("object"@, response_format_json(x))),
        None => None,
    }
}

/// A change of one envelope setting: path, field and the values of either side.
pub type ExpectedEnvelopeChange = (Seq<char>, EnvelopeField, Option<EnvelopeValue>, Option<EnvelopeValue>);

/// The change of one setting, if its values differ.
pub open spec fn setting_change(path: Seq<char>, field: EnvelopeField, l: Option<EnvelopeValue>, r: Option<EnvelopeValue>) -> Seq<ExpectedEnvelopeChange> {
    if l != r { seq![(path, field, l, r)] } else { Seq::empty() }
}

/// Every change between the envelopes of two requests, in order: model,
/// reasoning and response format.
pub open spec fn envelope_changes(l: RequestEnvelope, r: RequestEnvelope) -> Seq<ExpectedEnvelopeChange> {
    setting_change("envelope.model"@, EnvelopeField::Model, Some(("string"@, json_string(l.model@))), Some(("string"@, json_string(r.model@))))
        + setting_change("envelope.reasoning"@, EnvelopeField::Reasoning, reasoning_value(l.reasoning), reasoning_value(r.reasoning))
        + setting_change("envelope.response_format"@, EnvelopeField::ResponseFormat, response_format_value(l.response_format),
            response_format_value(r.response_format))
}

/// The summary of an envelope value.
pub open spec fn envelope_summary(s: Option<ValueSummary>, v: Option<EnvelopeValue>) -> bool {
    match (s, v) {
        (Some(x), Some((t, json))) => x.value_type@ == t && x.fingerprint@ == fingerprint(json)
            && x.size_bytes == encode_utf8(json).len() && x.preview is None,
        (None, None) => true,
        _ => false,
    }
}

/// `c` is the change `e` describes.
pub open spec fn envelope_change_is(c: EnvelopeChange, e: ExpectedEnvelopeChange) -> bool {
    &&& c.path@ == e.0
    &&& c.field == e.1
    &&& envelope_summary(c.left, e.2)
    &&& envelope_summary(c.right, e.3)
    &&& c.presence_changed == (e.2 is None != e.3 is None)
}

fn envelope_value_summary(t: &str, json: &String) -> (r: ValueSummary)
    ensures
        envelope_summary(Some(r), Some((t@, json@))),
{
    let bytes = json.as_str().as_bytes();
    ValueSummary { value_type: owned(t), fingerprint: sha256_hex(bytes), size_bytes: bytes.len(), preview: None }
}

/// Records the change of one setting when its values differ.
fn push_setting_change(
    changes: &mut Vec<EnvelopeChange>,
    path: &str,
    field: EnvelopeField,
    l: Option<(&str, String)>,
    r: Option<(&str, String)>,
)
    ensures
        final(changes)@.len() == old(changes)@.len() + setting_change(path@, field, setting_view(l), setting_view(r)).len(),
        final(changes)@.take(old(changes)@.len() as int) == old(changes)@,
        forall|k: int| 0 <= k < setting_change(path@, field, setting_view(l), setting_view(r)).len() ==>
            envelope_change_is(#[trigger] final(changes)@[old(changes)@.len() + k],
                setting_change(path@, field, setting_view(l), setting_view(r))[k]),
{
    let same = match (&l, &r) {
        (Some((lt, lj)), Some((rt, rj))) => str_eq(lt, rt) && str_eq(lj.as_str(), rj.as_str()),
        (None, None) => true,
        _ => false,
    };
    if same {
        proof {
            assert(changes@.take(old(changes)@.len() as int) =~= old(changes)@);
        }
        return;
    }
    let presence_changed = l.is_none() != r.is_none();
    let left = match &l {
        Some((t, j)) => Some(envelope_value_summary(t, j)),
        None => None,
    };
    let right = match &r {
        Some((t, j)) => Some(envelope_value_summary(t, j)),
        None => None,
    };
    let ghost before = changes@;
    changes.push(EnvelopeChange { path: owned(path), field, left, right, presence_changed });
    proof {
        assert(changes@.take(before.len() as int) =~= before);
        assert(changes@[before.len() as int] == changes@.last());
    }
}

/// A setting value as a type name and JSON text.
pub open spec fn setting_view(v: Option<(&str, String)>) -> Option<EnvelopeValue> {
    match v {
        Some((t, j)) => Some((t@, j@)),
        None => None,
    }
}

/// `d` is the envelope diff of the two valid requests.
pub open spec fn envelope_diff_of(d: EnvelopeDiff, l: ConformanceRequest, r: ConformanceRequest) -> bool {
    let expected = envelope_changes(l.envelope, r.envelope);
    &&& d.schema_id@ == ENVELOPE_DIFF_SCHEMA_ID@
    &&& d.schema_version == ENVELOPE_DIFF_SCHEMA_VERSION
    &&& d.left_request_fingerprint@ == text_fingerprint(request_json(l))
    &&& d.right_request_fingerprint@ == text_fingerprint(request_json(r))
    &&& d.changes.len() == expected.len()
    &&& forall|k: int| 0 <= k < expected.len() ==> envelope_change_is(#[trigger] d.changes@[k], expected[k])
    &&& d.identical == (expected.len() == 0)
    &&& d.cache_impact is Unknown
}

fn reasoning_setting(r: &Option<ReasoningSetting>) -> (v: Option<(&'static str, String)>)
    ensures
        setting_view(v) == reasoning_value(*r),
{
    match r {
        Some(x) => {
            let t: &'static str = match x {
                ReasoningSetting::Level(_) => {
                    proof { reveal_strlit("object"); }
                    "object"
                },
                _ => {
                    proof { reveal_strlit("string"); }
                    "string"
                },
            };
            Some((t, reasoning_text(x)))
        },
        None => None,
    }
}

fn format_setting(f: &Option<ResponseFormat>) -> (v: Option<(&'static str, String)>)
    ensures
        setting_view(v) == response_format_value(*f),
{
    match f {
        Some(x) => {
            proof { reveal_strlit("object"); }
            Some(("object", response_format_text(x)))
        },
        None => None,
    }
}

/// The changes between two envelopes (see `envelope_changes`).
#[verifier::rlimit(40)]
fn envelope_change_list(le: &RequestEnvelope, re: &RequestEnvelope) -> (changes: Vec<EnvelopeChange>)
    ensures
        changes.len() == envelope_changes(*le, *re).len(),
        forall|k: int| 0 <= k < envelope_changes(*le, *re).len() ==>
            envelope_change_is(#[trigger] changes@[k], envelope_changes(*le, *re)[k]),
{
    let mut changes: Vec<EnvelopeChange> = Vec::new();
    proof { reveal_strlit("string"); }
    let ghost m = setting_change("envelope.model"@, EnvelopeField::Model, Some(("string"@, json_string(le.model@))),
        Some(("string"@, json_string(re.model@))));
    let ghost rs = setting_change("envelope.reasoning"@, EnvelopeField::Reasoning, reasoning_value(le.reasoning),
        reasoning_value(re.reasoning));
    let ghost fs = setting_change("envelope.response_format"@, EnvelopeField::ResponseFormat,
        response_format_value(le.response_format), response_format_value(re.response_format));
    push_setting_change(&mut changes, "envelope.model", EnvelopeField::Model,
        Some(("string", string_value(le.model.as_str()))), Some(("string", string_value(re.model.as_str()))));
    let ghost c1 = changes@;
    push_setting_change(&mut changes, "envelope.reasoning", EnvelopeField::Reasoning,
        reasoning_setting(&le.reasoning), reasoning_setting(&re.reasoning));
    let ghost c2 = changes@;
    push_setting_change(&mut changes, "envelope.response_format", EnvelopeField::ResponseFormat,
        format_setting(&le.response_format), format_setting(&re.response_format));
    proof {
        let expected = envelope_changes(*le, *re);
        assert(expected =~= m + rs + fs);
        assert forall|k: int| 0 <= k < expected.len() implies envelope_change_is(#[trigger] changes@[k], expected[k]) by {
            if k < m.len() {
                assert(changes@[k] == c2[k]) by {
                    assert(changes@.take(c2.len() as int)[k] == changes@[k]);
                }
                assert(c2[k] == c1[k]) by {
                    assert(c2.take(c1.len() as int)[k] == c2[k]);
                }
                assert(c1[0 + k] == c1[k]);
            } else if k < m.len() + rs.len() {
                assert(changes@[k] == c2[k]) by {
                    assert(changes@.take(c2.len() as int)[k] == changes@[k]);
                }
                assert(c2[c1.len() + (k - m.len())] == c2[k]);
            } else {
                assert(changes@[c2.len() + (k - m.len() - rs.len())] == changes@[k]);
            }
        }
    }
    changes
}

/// Compares the settings of two valid requests outside their contexts.
pub fn envelope_diff(left: &ConformanceRequest, right: &ConformanceRequest) -> (r: Result<EnvelopeDiff, BenchmarkError>)
    ensures
        match r {
            Ok(d) => request_ok(*left) && request_ok(*right) && envelope_diff_of(d, *left, *right),
            Err(_) => !request_ok(*left) || !request_ok(*right),
        },
{
    match left.validate() {
        Ok(_) => {},
        Err(e) => return Err(e),
    }
    match right.validate() {
        Ok(_) => {},
        Err(e) => return Err(e),
    }
    let left_fingerprint = match left.request_fingerprint() {
        Ok(f) => f,
        Err(e) => return Err(e),
    };
    let right_fingerprint = match right.request_fingerprint() {
        Ok(f) => f,
        Err(e) => return Err(e),
    };
    let changes = envelope_change_list(&left.envelope, &right.envelope);
    let identical = changes.len() == 0;
    Ok(EnvelopeDiff {
        schema_id: owned(ENVELOPE_DIFF_SCHEMA_ID),
        schema_version: ENVELOPE_DIFF_SCHEMA_VERSION,
        left_request_fingerprint: left_fingerprint,
        right_request_fingerprint: right_fingerprint,
        identical,
        changes,
        cache_impact: CacheImpactAssessment::Unknown,
    })
}

/// Compares the contexts and the envelopes of two requests independently.
pub fn request_diff(left: &ConformanceRequest, right: &ConformanceRequest) -> (r: Result<RequestDiff, BenchmarkError>)
    ensures
        match r {
            Ok(d) => request_ok(*left) && request_ok(*right) && prefix_changes(*left, *right).len() <= MAX_CHANGES
                && d.schema_id@ == REQUEST_DIFF_SCHEMA_ID@
                && d.schema_version == REQUEST_DIFF_SCHEMA_VERSION
                && d.left_request_fingerprint@ == text_fingerprint(request_json(*left))
                && d.right_request_fingerprint@ == text_fingerprint(request_json(*right))
                && prefix_diff_of(d.prefix_diff, *left, *right)
                && envelope_diff_of(d.envelope_diff, *left, *right)
                && d.interpretation.context == (if d.prefix_diff.identical { DiffState::Identical } else { DiffState::Changed })
                && d.interpretation.envelope == (if d.envelope_diff.identical { DiffState::Identical } else { DiffState::Changed })
                && d.cache_impact is Unknown,
            Err(_) => !request_ok(*left) || !request_ok(*right) || prefix_changes(*left, *right).len() > MAX_CHANGES,
        },
{
    let prefix = match prefix_diff(left, right) {
        Ok(p) => p,
        Err(e) => return Err(e),
    };
    let envelope = match envelope_diff(left, right) {
        Ok(e) => e,
        Err(e) => return Err(e),
    };
    let context = if prefix.identical { DiffState::Identical } else { DiffState::Changed };
    let envelope_state = if envelope.identical { DiffState::Identical } else { DiffState::Changed };
    let left_request_fingerprint = match left.request_fingerprint() {
        Ok(f) => f,
        Err(e) => return Err(e),
    };
    let right_request_fingerprint = match right.request_fingerprint() {
        Ok(f) => f,
        Err(e) => return Err(e),
    };
    Ok(RequestDiff {
        schema_id: owned(REQUEST_DIFF_SCHEMA_ID),
        schema_version: REQUEST_DIFF_SCHEMA_VERSION,
        left_request_fingerprint,
        right_request_fingerprint,
        prefix_diff: prefix,
        envelope_diff: envelope,
        interpretation: RequestDiffInterpretation { context, envelope: envelope_state },
        cache_impact: CacheImpactAssessment::Unknown,
    })
}

// ---------------------------------------------------------------------------
// A request compared with itself.

proof fn lemma_artifact_presence_self(a: Seq<ContextArtifactInput>, k: int, category: ChangeCategory, removed: bool)
    requires
        0 <= k <= a.len(),
    ensures
        presence_changes(a, views(artifact_ids(a)), k, category, removed) =~= Seq::<ExpectedChange>::empty(),
    decreases k,
{
    if k > 0 {
        lemma_artifact_presence_self(a, k - 1, category, removed);
        assert(views(artifact_ids(a))[k - 1] == a[k - 1].artifact_id@);
        assert(views(artifact_ids(a)).contains(a[k - 1].artifact_id@));
    }
}

proof fn lemma_last_distinct(names: Seq<Seq<char>>, m: int)
    requires
        0 <= m < names.len(),
        forall|i: int, j: int| 0 <= i < j < names.len() ==> names[i] != names[j],
    ensures
        last_position(names, names[m]) == Some(m),
{
    lemma_last_position(names, names[m]);
    match last_position(names, names[m]) {
        Some(i) => {
            if i < m {
                assert(names[i] != names[m]);
            } else if i > m {
                assert(names[m] != names[i]);
            }
        },
        None => {
            assert(names[m] != names[m]);
        },
    }
}

proof fn lemma_artifact_content_self(a: Seq<ContextArtifactInput>, k: int)
    requires
        0 <= k <= a.len(),
        forall|i: int, j: int| 0 <= i < j < a.len() ==> a[i].artifact_id@ != a[j].artifact_id@,
    ensures
        content_changes(a, a, k) =~= Seq::<ExpectedChange>::empty(),
    decreases k,
{
    if k > 0 {
        lemma_artifact_content_self(a, k - 1);
        let names = views(artifact_ids(a));
        assert forall|i: int, j: int| 0 <= i < j < names.len() implies names[i] != names[j] by {
            assert(names[i] == a[i].artifact_id@);
            assert(names[j] == a[j].artifact_id@);
        }
        lemma_last_distinct(names, k - 1);
        assert(names[k - 1] == a[k - 1].artifact_id@);
    }
}

proof fn lemma_field_presence_self(path: Seq<char>, f: Seq<JsonField>, k: int, category: ChangeCategory, removed: bool)
    requires
        0 <= k <= f.len(),
    ensures
        field_presence_changes(path, f, field_names(f), k, category, removed) =~= Seq::<ExpectedChange>::empty(),
    decreases k,
{
    if k > 0 {
        lemma_field_presence_self(path, f, k - 1, category, removed);
        assert(field_names(f)[k - 1] == f[k - 1].name@);
        assert(field_names(f).contains(f[k - 1].name@));
    }
}

proof fn lemma_field_values_self(path: Seq<char>, f: Seq<JsonField>, k: int)
    requires
        0 <= k <= f.len(),
        forall|i: int, j: int| 0 <= i < j < f.len() ==> f[i].name@ != f[j].name@,
    ensures
        field_value_changes(path, f, f, k) =~= Seq::<ExpectedChange>::empty(),
    decreases k,
{
    if k > 0 {
        lemma_field_values_self(path, f, k - 1);
        let names = field_names(f);
        assert forall|i: int, j: int| 0 <= i < j < names.len() implies names[i] != names[j] by {
            assert(names[i] == f[i].name@);
            assert(names[j] == f[j].name@);
        }
        lemma_last_distinct(names, k - 1);
        assert(names[k - 1] == f[k - 1].name@);
    }
}

proof fn lemma_fields_self(path: Seq<char>, o: OrderedJsonObject)
    requires
        o.object_ok(),
    ensures
        field_changes(path, o.fields@, o.fields@) =~= Seq::<ExpectedChange>::empty(),
{
    let f = o.fields@;
    lemma_field_presence_self(path, f, f.len() as int, ChangeCategory::OptionalSchemaFieldRemoved, true);
    lemma_field_presence_self(path, f, f.len() as int, ChangeCategory::OptionalSchemaFieldAdded, false);
    lemma_field_values_self(path, f, f.len() as int);
}

proof fn lemma_tool_presence_self(t: Seq<ToolDefinition>, k: int, category: ChangeCategory, removed: bool)
    requires
        0 <= k <= t.len(),
    ensures
        tool_presence_changes(t, tool_names(t), k, category, removed) =~= Seq::<ExpectedChange>::empty(),
    decreases k,
{
    if k > 0 {
        lemma_tool_presence_self(t, k - 1, category, removed);
        assert(tool_names(t)[k - 1] == t[k - 1].name@);
        assert(tool_names(t).contains(t[k - 1].name@));
    }
}

proof fn lemma_tool_definitions_self(t: Seq<ToolDefinition>, k: int)
    requires
        0 <= k <= t.len(),
        forall|i: int, j: int| 0 <= i < j < t.len() ==> t[i].name@ != t[j].name@,
        forall|i: int| 0 <= i < t.len() ==> (#[trigger] t[i]).parameters.object_ok(),
    ensures
        tool_definition_changes(t, t, k) =~= Seq::<ExpectedChange>::empty(),
    decreases k,
{
    if k > 0 {
        lemma_tool_definitions_self(t, k - 1);
        let names = tool_names(t);
        assert forall|i: int, j: int| 0 <= i < j < names.len() implies names[i] != names[j] by {
            assert(names[i] == t[i].name@);
            assert(names[j] == t[j].name@);
        }
        lemma_last_distinct(names, k - 1);
        assert(names[k - 1] == t[k - 1].name@);
        assert(t[k - 1].parameters.object_ok());
        lemma_fields_self(tool_path(k - 1, ".parameters.fields"@), t[k - 1].parameters);
    }
}

/// A valid request compared with itself shows no change, neither in its
/// context nor in its envelope.
pub proof fn law_request_compared_with_itself_has_no_change(r: ConformanceRequest)
    requires
        request_ok(r),
    ensures
        prefix_changes(r, r).len() == 0,
        envelope_changes(r.envelope, r.envelope).len() == 0,
{
    let c = r.context;
    let a = c.artifacts@;
    let t = c.tools@;
    lemma_artifact_presence_self(a, a.len() as int, ChangeCategory::ArtifactRemoved, true);
    lemma_artifact_presence_self(a, a.len() as int, ChangeCategory::ArtifactAdded, false);
    lemma_artifact_content_self(a, a.len() as int);
    lemma_tool_presence_self(t, t.len() as int, ChangeCategory::ToolRemoved, true);
    lemma_tool_presence_self(t, t.len() as int, ChangeCategory::ToolAdded, false);
    assert forall|i: int| 0 <= i < t.len() implies (#[trigger] t[i]).parameters.object_ok() by {
        assert(c.tools@[i].parameters.object_ok());
    }
    lemma_tool_definitions_self(t, t.len() as int);
    assert(artifact_changes(a, a) =~= Seq::<ExpectedChange>::empty());
    assert(tool_changes(t, t) =~= Seq::<ExpectedChange>::empty());
    assert(prefix_changes(r, r) =~= Seq::<ExpectedChange>::empty());
    assert(envelope_changes(r.envelope, r.envelope) =~= Seq::<ExpectedEnvelopeChange>::empty());
}

} // verus!
