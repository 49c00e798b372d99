//! Value comparison of diff records: each record has a view made of plain
//! values, and two records are the same diff when their views are equal.
use vstd::prelude::*;
use crate::context_stability::Observed;
use crate::diff::{
    CacheImpactAssessment, ChangeCategory, CommonPrefixMeasurement, DiffChange, DiffState, EnvelopeChange,
    EnvelopeDiff, EnvelopeField, PrefixDiff, RequestDiff, TextCommonPrefix, ValueSummary,
};
use crate::text::{opt_view, str_eq};

verus! {

pub type SummaryView = (Seq<char>, Seq<char>, usize, Option<Seq<char>>);

pub type ChangeView = (Seq<char>, ChangeCategory, Option<SummaryView>, Option<SummaryView>, (bool, bool, bool, bool), Option<usize>);

pub type EnvelopeChangeView = (Seq<char>, EnvelopeField, Option<SummaryView>, Option<SummaryView>, bool);

pub open spec fn summary_view(s: ValueSummary) -> SummaryView {
    (s.value_type@, s.fingerprint@, s.size_bytes, opt_view(s.preview))
}

pub open spec fn opt_summary_view(s: Option<ValueSummary>) -> Option<SummaryView> {
    match s {
        Some(v) => Some(summary_view(v)),
        None => None,
    }
}

pub open spec fn change_view(c: DiffChange) -> ChangeView {
    (c.path@, c.category, opt_summary_view(c.left), opt_summary_view(c.right),
        (c.order_changed, c.content_changed, c.presence_changed, c.whitespace_only), c.sequence_index)
}

pub open spec fn opt_change_view(c: Option<DiffChange>) -> Option<ChangeView> {
    match c {
        Some(v) => Some(change_view(v)),
        None => None,
    }
}

pub open spec fn change_views(s: Seq<DiffChange>) -> Seq<ChangeView> {
    s.map_values(|c: DiffChange| change_view(c))
}

pub open spec fn text_prefix_view(t: TextCommonPrefix) -> (Seq<char>, usize, usize, usize) {
    (t.path@, t.left_bytes, t.right_bytes, t.common_bytes)
}

pub open spec fn text_prefix_views(s: Seq<TextCommonPrefix>) -> Seq<(Seq<char>, usize, usize, usize)> {
    s.map_values(|t: TextCommonPrefix| text_prefix_view(t))
}

pub open spec fn measurement_view(m: CommonPrefixMeasurement)
    -> (usize, usize, usize, Seq<(Seq<char>, usize, usize, usize)>, Observed<u64>) {
    (m.structural_units, m.artifact_units, m.tool_units,
        text_prefix_views(m.text@), m.token_units)
}

pub open spec fn provenance_views(p: Seq<(String, String)>) -> Seq<(Seq<char>, Seq<char>)> {
    p.map_values(|e: (String, String)| (e.0@, e.1@))
}

/// The plain values of a prefix diff.
pub open spec fn prefix_diff_view(p: PrefixDiff) -> (
    (Seq<char>, u32, Seq<char>, Seq<char>, bool),
    (usize, usize, usize, Seq<(Seq<char>, usize, usize, usize)>, Observed<u64>),
    Option<ChangeView>,
    Seq<ChangeView>,
    Seq<(Seq<char>, Seq<char>)>,
    CacheImpactAssessment,
) {
    ((p.schema_id@, p.schema_version, p.left_context_fingerprint@, p.right_context_fingerprint@, p.identical),
        measurement_view(p.common_prefix), opt_change_view(p.first_divergence), change_views(p.changes@),
        provenance_views(p.provenance@), p.cache_impact)
}

pub open spec fn envelope_change_view(c: EnvelopeChange) -> EnvelopeChangeView {
    (c.path@, c.field, opt_summary_view(c.left), opt_summary_view(c.right), c.presence_changed)
}

pub open spec fn envelope_change_views(s: Seq<EnvelopeChange>) -> Seq<EnvelopeChangeView> {
    s.map_values(|c: EnvelopeChange| envelope_change_view(c))
}

/// The plain values of an envelope diff.
pub open spec fn envelope_diff_view(d: EnvelopeDiff)
    -> (Seq<char>, u32, Seq<char>, Seq<char>, bool, Seq<EnvelopeChangeView>, CacheImpactAssessment) {
    (d.schema_id@, d.schema_version, d.left_request_fingerprint@, d.right_request_fingerprint@, d.identical,
        envelope_change_views(d.changes@), d.cache_impact)
}

/// The plain values of a request diff: two request diffs describe the same
/// change when these are equal.
pub open spec fn request_diff_view(d: RequestDiff) -> (
    (Seq<char>, u32, Seq<char>, Seq<char>),
    (
        (Seq<char>, u32, Seq<char>, Seq<char>, bool),
        (usize, usize, usize, Seq<(Seq<char>, usize, usize, usize)>, Observed<u64>),
        Option<ChangeView>,
        Seq<ChangeView>,
        Seq<(Seq<char>, Seq<char>)>,
        CacheImpactAssessment,
    ),
    (Seq<char>, u32, Seq<char>, Seq<char>, bool, Seq<EnvelopeChangeView>, CacheImpactAssessment),
    (DiffState, DiffState),
    CacheImpactAssessment,
) {
    ((d.schema_id@, d.schema_version, d.left_request_fingerprint@, d.right_request_fingerprint@),
        prefix_diff_view(d.prefix_diff), envelope_diff_view(d.envelope_diff),
        (d.interpretation.context, d.interpretation.envelope), d.cache_impact)
}

fn opt_str_same(a: &Option<String>, b: &Option<String>) -> (r: bool)
    ensures
        r == (opt_view(*a) == opt_view(*b)),
{
    match (a, b) {
        (Some(x), Some(y)) => str_eq(x.as_str(), y.as_str()),
        (None, None) => true,
        _ => false,
    }
}

fn summary_same(a: &ValueSummary, b: &ValueSummary) -> (r: bool)
    ensures
        r == (summary_view(*a) == summary_view(*b)),
{
    str_eq(a.value_type.as_str(), b.value_type.as_str()) && str_eq(a.fingerprint.as_str(), b.fingerprint.as_str())
        && a.size_bytes == b.size_bytes && opt_str_same(&a.preview, &b.preview)
}

fn opt_summary_same(a: &Option<ValueSummary>, b: &Option<ValueSummary>) -> (r: bool)
    ensures
        r == (opt_summary_view(*a) == opt_summary_view(*b)),
{
    match (a, b) {
        (Some(x), Some(y)) => summary_same(x, y),
        (None, None) => true,
        _ => false,
    }
}

fn change_same(a: &DiffChange, b: &DiffChange) -> (r: bool)
    ensures
        r == (change_view(*a) == change_view(*b)),
{
    let index_same = match (a.sequence_index, b.sequence_index) {
        (Some(x), Some(y)) => x == y,
        (None, None) => true,
        _ => false,
    };
    str_eq(a.path.as_str(), b.path.as_str()) && a.category == b.category && opt_summary_same(&a.left, &b.left)
        && opt_summary_same(&a.right, &b.right) && a.order_changed == b.order_changed
        && a.content_changed == b.content_changed && a.presence_changed == b.presence_changed
        && a.whitespace_only == b.whitespace_only && index_same
}

fn changes_same(a: &Vec<DiffChange>, b: &Vec<DiffChange>) -> (r: bool)
    ensures
        r == (change_views(a@) == change_views(b@)),
{
    if a.len() != b.len() {
        assert(change_views(a@).len() != change_views(b@).len());
        return false;
    }
    let mut i: usize = 0;
    while i < a.len()
        invariant
            i <= a.len() == b.len(),
            forall|k: int| 0 <= k < i ==> change_view(#[trigger] a@[k]) == change_view(b@[k]),
        decreases a.len() - i,
    {
        if !change_same(&a[i], &b[i]) {
            assert(change_views(a@)[i as int] != change_views(b@)[i as int]);
            return false;
        }
        i = i + 1;
    }
    assert(change_views(a@) =~= change_views(b@));
    true
}

fn text_prefixes_same(a: &Vec<TextCommonPrefix>, b: &Vec<TextCommonPrefix>) -> (r: bool)
    ensures
        r == (text_prefix_views(a@) == text_prefix_views(b@)),
{
    if a.len() != b.len() {
        assert(text_prefix_views(a@).len() != text_prefix_views(b@).len());
        return false;
    }
    let mut i: usize = 0;
    while i < a.len()
        invariant
            i <= a.len() == b.len(),
            forall|k: int| 0 <= k < i ==> text_prefix_view(#[trigger] a@[k]) == text_prefix_view(b@[k]),
        decreases a.len() - i,
    {
        let same = str_eq(a[i].path.as_str(), b[i].path.as_str()) && a[i].left_bytes == b[i].left_bytes
            && a[i].right_bytes == b[i].right_bytes && a[i].common_bytes == b[i].common_bytes;
        if !same {
            assert(text_prefix_views(a@)[i as int] != text_prefix_views(b@)[i as int]);
            return false;
        }
        i = i + 1;
    }
    assert(text_prefix_views(a@) =~= text_prefix_views(b@));
    true
}

fn observed_count_same(a: &Observed<u64>, b: &Observed<u64>) -> (r: bool)
    ensures
        r == (*a == *b),
{
    match (a, b) {
        (Observed::Known(x), Observed::Known(y)) => *x == *y,
        (Observed::Unknown, Observed::Unknown) => true,
        (Observed::NotObserved, Observed::NotObserved) => true,
        _ => false,
    }
}

fn provenance_same(a: &Vec<(String, String)>, b: &Vec<(String, String)>) -> (r: bool)
    ensures
        r == (provenance_views(a@) == provenance_views(b@)),
{
    if a.len() != b.len() {
        assert(provenance_views(a@).len() != provenance_views(b@).len());
        return false;
    }
    let mut i: usize = 0;
    while i < a.len()
        invariant
            i <= a.len() == b.len(),
            forall|k: int| 0 <= k < i ==> (#[trigger] a@[k]).0@ == b@[k].0@ && a@[k].1@ == b@[k].1@,
        decreases a.len() - i,
    {
        if !(str_eq(a[i].0.as_str(), b[i].0.as_str()) && str_eq(a[i].1.as_str(), b[i].1.as_str())) {
            assert(provenance_views(a@)[i as int] != provenance_views(b@)[i as int]);
            return false;
        }
        i = i + 1;
    }
    assert(provenance_views(a@) =~= provenance_views(b@));
    true
}

fn prefix_diff_same(a: &PrefixDiff, b: &PrefixDiff) -> (r: bool)
    ensures
        r == (prefix_diff_view(*a) == prefix_diff_view(*b)),
{
    let head = str_eq(a.schema_id.as_str(), b.schema_id.as_str()) && a.schema_version == b.schema_version
        && str_eq(a.left_context_fingerprint.as_str(), b.left_context_fingerprint.as_str())
        && str_eq(a.right_context_fingerprint.as_str(), b.right_context_fingerprint.as_str())
        && a.identical == b.identical;
    let m = &a.common_prefix;
    let n = &b.common_prefix;
    let measurement = m.structural_units == n.structural_units && m.artifact_units == n.artifact_units
        && m.tool_units == n.tool_units && text_prefixes_same(&m.text, &n.text)
        && observed_count_same(&m.token_units, &n.token_units);
    let first = match (&a.first_divergence, &b.first_divergence) {
        (Some(x), Some(y)) => change_same(x, y),
        (None, None) => true,
        _ => false,
    };
    head && measurement && first && changes_same(&a.changes, &b.changes)
        && provenance_same(&a.provenance, &b.provenance) && a.cache_impact == b.cache_impact
}

/// Whether two envelope changes lists are the same, element by element.
pub fn envelope_changes_same(a: &Vec<EnvelopeChange>, b: &Vec<EnvelopeChange>) -> (r: bool)
    ensures
        r == (envelope_change_views(a@) == envelope_change_views(b@)),
{
    if a.len() != b.len() {
        assert(envelope_change_views(a@).len() != envelope_change_views(b@).len());
        return false;
    }
    let mut i: usize = 0;
    while i < a.len()
        invariant
            i <= a.len() == b.len(),
            forall|k: int| 0 <= k < i ==> envelope_change_view(#[trigger] a@[k]) == envelope_change_view(b@[k]),
        decreases a.len() - i,
    {
        let same = str_eq(a[i].path.as_str(), b[i].path.as_str()) && a[i].field == b[i].field
            && opt_summary_same(&a[i].left, &b[i].left) && opt_summary_same(&a[i].right, &b[i].right)
            && a[i].presence_changed == b[i].presence_changed;
        if !same {
            assert(envelope_change_views(a@)[i as int] != envelope_change_views(b@)[i as int]);
            return false;
        }
        i = i + 1;
    }
    assert(envelope_change_views(a@) =~= envelope_change_views(b@));
    true
}

fn envelope_diff_same(a: &EnvelopeDiff, b: &EnvelopeDiff) -> (r: bool)
    ensures
        r == (envelope_diff_view(*a) == envelope_diff_view(*b)),
{
    str_eq(a.schema_id.as_str(), b.schema_id.as_str()) && a.schema_version == b.schema_version
        && str_eq(a.left_request_fingerprint.as_str(), b.left_request_fingerprint.as_str())
        && str_eq(a.right_request_fingerprint.as_str(), b.right_request_fingerprint.as_str())
        && a.identical == b.identical && envelope_changes_same(&a.changes, &b.changes)
        && a.cache_impact == b.cache_impact
}

/// Whether two request diffs describe the same change, field by field.
pub fn request_diff_same(a: &RequestDiff, b: &RequestDiff) -> (r: bool)
    ensures
        r == (request_diff_view(*a) == request_diff_view(*b)),
{
    str_eq(a.schema_id.as_str(), b.schema_id.as_str()) && a.schema_version == b.schema_version
        && str_eq(a.left_request_fingerprint.as_str(), b.left_request_fingerprint.as_str())
        && str_eq(a.right_request_fingerprint.as_str(), b.right_request_fingerprint.as_str())
        && prefix_diff_same(&a.prefix_diff, &b.prefix_diff) && envelope_diff_same(&a.envelope_diff, &b.envelope_diff)
        && a.interpretation.context == b.interpretation.context
        && a.interpretation.envelope == b.interpretation.envelope && a.cache_impact == b.cache_impact
}

} // verus!
