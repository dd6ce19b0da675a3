//! The exported counter series, held behind a small trusted boundary.
//!
//! A `CounterSeries` owns one prometheus integer counter vector labeled by
//! `(user, device)`. The library looks a child series up by the pair of
//! label values, but the metrics library keys its children by an FNV-64
//! hash of the label values' bytes written one after the other with no
//! separator. Two pairs whose concatenated bytes are equal — ("ab", "c")
//! and ("a", "bc") — therefore share one child. The abstract contents are
//! accordingly a map keyed by that concatenation; pairs with distinct
//! concatenations are modeled as distinct children, taking hash collisions
//! between distinct byte strings to be absent.

use vstd::prelude::*;

verus! {

/// The key under which prometheus files the child series of a label pair:
/// the UTF-8 bytes of both label values, concatenated without a separator.
pub open spec fn label_key(user: Seq<char>, device: Seq<char>) -> Seq<u8> {
    vstd::utf8::encode_utf8(user) + vstd::utf8::encode_utf8(device)
}

/// One family of exported integer counter series, labeled `user` / `device`.
/// Every value of this type is built by `new_series`, so the underlying
/// vector always has exactly those two variable labels.
#[verifier::external_body]
pub struct CounterSeries {
    inner: prometheus_exporter::prometheus::IntCounterVec,
}

/// The values the series family currently holds: one entry per child
/// series, keyed by the concatenated label-value bytes that prometheus
/// files the child under.
pub uninterp spec fn series_values(s: CounterSeries) -> Map<Seq<u8>, u64>;

/// The metric name the series family was created under.
pub uninterp spec fn series_name(s: CounterSeries) -> Seq<char>;

/// The variable label names the series family was created with.
pub uninterp spec fn series_label_names(s: CounterSeries) -> Seq<Seq<char>>;

/// Whether the series family was accepted by the process-wide default
/// registry, which a pull exporter serves.
pub uninterp spec fn series_registered(s: CounterSeries) -> bool;

/// Relies on prometheus::IntCounterVec::new: the vector is created under
/// the given metric name with the variable labels `user` and `device`, and
/// a freshly created vector has no child series at all. Creation fails only
/// when the library rejects the metric name or the label names.
#[verifier::external_body]
pub(crate) fn new_series(name: &str, help: &str) -> (r: Option<CounterSeries>)
    ensures
        (match r {
            Some(s) => series_values(s) == Map::<Seq<u8>, u64>::empty() && series_name(s) == name@
                && series_label_names(s) == seq!["user"@, "device"@],
            None => true,
        }),
{
    let opts = prometheus_exporter::prometheus::Opts::new(name, help);
    match prometheus_exporter::prometheus::IntCounterVec::new(opts, &["user", "device"]) {
        Ok(v) => Some(CounterSeries { inner: v }),
        Err(_) => None,
    }
}

/// Relies on prometheus::register: adds the series family to the
/// process-wide default registry and reports whether it was accepted (it
/// fails on a name collision with an already registered collector).
#[verifier::external_body]
pub(crate) fn register_series(s: &CounterSeries) -> (r: bool)
    ensures
        r ==> series_registered(*s),
{
    prometheus_exporter::prometheus::register(Box::new(s.inner.clone())).is_ok()
}

/// Relies on prometheus::MetricVec::with_label_values, which returns the
/// child filed under the hash of the concatenated label-value bytes,
/// creating it first when that key has none, and on GenericCounter::reset
/// and inc_by: reset sets the child to zero and inc_by then adds `value`,
/// so the child holds exactly `value` afterwards, whatever it held before.
/// The name, labels and registration of the family are untouched.
#[verifier::external_body]
pub(crate) fn set_series(s: &mut CounterSeries, user: &str, device: &str, value: u64)
    ensures
        series_values(*final(s)) == series_values(*old(s)).insert(
            label_key(user@, device@),
            value,
        ),
        series_name(*final(s)) == series_name(*old(s)),
        series_label_names(*final(s)) == series_label_names(*old(s)),
        series_registered(*final(s)) == series_registered(*old(s)),
{
    let child = s.inner.with_label_values(&[user, device]);
    child.reset();
    child.inc_by(value);
}

/// Relies on prometheus::MetricVec::with_label_values and
/// GenericCounter::get: returns the current value of the child filed under
/// the hash of the concatenated label-value bytes, first creating that
/// child at zero when the key had none. The name, labels and registration
/// of the family are untouched.
#[verifier::external_body]
pub(crate) fn get_series(s: &mut CounterSeries, user: &str, device: &str) -> (r: u64)
    ensures
        r == (if series_values(*old(s)).dom().contains(label_key(user@, device@)) {
            series_values(*old(s))[label_key(user@, device@)]
        } else {
            0u64
        }),
        series_values(*final(s)) == series_values(*old(s)).insert(label_key(user@, device@), r),
        series_name(*final(s)) == series_name(*old(s)),
        series_label_names(*final(s)) == series_label_names(*old(s)),
        series_registered(*final(s)) == series_registered(*old(s)),
{
    s.inner.with_label_values(&[user, device]).get()
}

} // verus!
