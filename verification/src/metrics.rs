//! The usage metrics of one process: counters of events, histograms with
//! fixed boundaries, and gauges, kept in the instruments of the metrics
//! library behind a slot that is filled once.

use vstd::prelude::*;
use vstd::multiset::Multiset;
use prometheus::{IntCounter, IntCounterVec, IntGauge, Registry};

verus! {

/// A counter of the metrics library. Verus does not take the declaration of
/// that generic type, so the counter is held here.
#[verifier::external_body]
pub struct EventCounter {
    inner: IntCounter,
}

/// A gauge of the metrics library. Verus does not take the declaration of
/// that generic type, so the gauge is held here.
#[verifier::external_body]
pub struct LevelGauge {
    inner: IntGauge,
}

/// The histogram of the metrics library.
#[verifier::external_type_specification]
#[verifier::external_body]
pub struct ExHistogram(prometheus::Histogram);

/// The registry of the metrics library.
#[verifier::external_type_specification]
#[verifier::external_body]
pub struct ExRegistry(prometheus::Registry);

/// The error of the metrics library.
#[verifier::external_type_specification]
#[verifier::external_body]
pub struct ExError(prometheus::Error);

/// One family of the readout of the metrics library.
#[verifier::external_type_specification]
#[verifier::external_body]
pub struct ExMetricFamily(prometheus::proto::MetricFamily);

/// A counter of the metrics library that is split by one label. Verus does
/// not take the declaration of that generic type, so the counter is held
/// here.
#[verifier::external_body]
pub struct LabeledCounter {
    inner: IntCounterVec,
}

/// The names of the instruments that a registry holds, in the order in
/// which they were registered.
pub uninterp spec fn registered(registry: Registry) -> Seq<Seq<char>>;

/// Whether every instrument that was offered to a registry so far was taken.
pub uninterp spec fn pristine(registry: Registry) -> bool;

/// Whether a registry that holds instruments under the names `existing`, and
/// was never offered one that it refused, takes one more under `name`.
pub uninterp spec fn register_accepted(existing: Seq<Seq<char>>, name: Seq<char>) -> bool;

/// Whether the metrics library makes a counter under this name and help.
pub uninterp spec fn counter_accepted(name: Seq<char>, help: Seq<char>) -> bool;

/// Whether the metrics library makes a gauge under this name and help.
pub uninterp spec fn gauge_accepted(name: Seq<char>, help: Seq<char>) -> bool;

/// Whether the metrics library makes a histogram under this name and help
/// with these boundaries.
pub uninterp spec fn histogram_accepted(name: Seq<char>, help: Seq<char>, bounds: Seq<u32>) -> bool;

/// Whether the metrics library makes a counter under this name and help
/// that is split by the label `label_name`.
pub uninterp spec fn labeled_accepted(
    name: Seq<char>,
    help: Seq<char>,
    label_name: Seq<char>,
) -> bool;

/// Where a counter stands.
pub uninterp spec fn counter_total(c: EventCounter) -> u64;

/// The name a counter was made under.
pub uninterp spec fn counter_name(c: EventCounter) -> Seq<char>;

/// Where a gauge stands.
pub uninterp spec fn gauge_value(g: LevelGauge) -> i64;

/// The name a gauge was made under.
pub uninterp spec fn gauge_name(g: LevelGauge) -> Seq<char>;

/// What a histogram has observed so far.
pub uninterp spec fn observations(h: prometheus::Histogram) -> Multiset<u32>;

/// The name a histogram was made under.
pub uninterp spec fn histogram_name(h: prometheus::Histogram) -> Seq<char>;

/// The boundaries a histogram was made with.
pub uninterp spec fn histogram_bounds(h: prometheus::Histogram) -> Seq<u32>;

/// Where the count that a labelled counter gives under `label` stands.
pub uninterp spec fn labeled_total(v: LabeledCounter, label: Seq<char>) -> u64;

/// The name a labelled counter was made under.
pub uninterp spec fn labeled_name(v: LabeledCounter) -> Seq<char>;

/// Whether a labelled counter has counted under any label yet.
pub uninterp spec fn labeled_touched(v: LabeledCounter) -> bool;

/// The hash by which a labelled counter finds the count of a label. Labels
/// with one hash share one count.
pub uninterp spec fn label_hash(label: Seq<char>) -> u64;

/// Whether the registry holds a handle of this counter.
pub uninterp spec fn holds_counter(registry: Registry, c: EventCounter) -> bool;

/// Whether the registry holds a handle of this gauge.
pub uninterp spec fn holds_gauge(registry: Registry, g: LevelGauge) -> bool;

/// Whether the registry holds a handle of this histogram.
pub uninterp spec fn holds_histogram(registry: Registry, h: prometheus::Histogram) -> bool;

/// Whether the registry holds a handle of this labelled counter.
pub uninterp spec fn holds_labeled(registry: Registry, v: LabeledCounter) -> bool;

/// The name of a family of a readout.
pub uninterp spec fn family_name(f: prometheus::proto::MetricFamily) -> Seq<char>;

/// The value of the counter in the first sample of a family, as a whole
/// number.
pub uninterp spec fn family_counter(f: prometheus::proto::MetricFamily) -> u64;

/// The value of the gauge in the first sample of a family, as a whole
/// number.
pub uninterp spec fn family_gauge(f: prometheus::proto::MetricFamily) -> i64;

/// The number of observations of the histogram in the first sample of a
/// family.
pub uninterp spec fn family_sample_count(f: prometheus::proto::MetricFamily) -> u64;

/// The boundaries of the histogram in the first sample of a family.
pub uninterp spec fn family_bounds(f: prometheus::proto::MetricFamily) -> Seq<u32>;

/// For each boundary of the histogram in the first sample of a family, the
/// number of observations that are not above it.
pub uninterp spec fn family_bucket_counts(f: prometheus::proto::MetricFamily) -> Seq<u64>;

/// The samples of a family of a counter split by one label: the label value
/// and the count of each.
pub uninterp spec fn family_samples(f: prometheus::proto::MetricFamily) -> Seq<(Seq<char>, u64)>;

/// A count after one more event. Counts are kept in 64 bits and start again
/// at zero after the largest.
pub open spec fn grown(count: u64) -> u64 {
    if count == u64::MAX {
        0
    } else {
        (count + 1) as u64
    }
}

/// What a histogram records of `v`: the value itself, held at the largest
/// that the histogram takes without loss.
pub open spec fn clamped(v: u64) -> u32 {
    if v > u32::MAX {
        u32::MAX
    } else {
        v as u32
    }
}

/// The largest whole number up to which a readout, which holds its values as
/// floating-point numbers, shows every count exactly.
pub open spec fn exact_limit() -> int {
    0x20_0000_0000_0000
}

/// `a` stands before `b` in the order of names: character by character, a
/// name before every longer name that begins with it.
pub open spec fn name_before(a: Seq<char>, b: Seq<char>) -> bool
    decreases a.len(),
{
    if b.len() == 0 {
        false
    } else if a.len() == 0 {
        true
    } else if a[0] != b[0] {
        (a[0] as u32) < (b[0] as u32)
    } else {
        name_before(a.drop_first(), b.drop_first())
    }
}

/// Every instrument that `before` holds, `after` holds too.
pub open spec fn keeps_instruments(before: Registry, after: Registry) -> bool {
    &&& forall|c: EventCounter| #[trigger] holds_counter(before, c) ==> holds_counter(after, c)
    &&& forall|g: LevelGauge| #[trigger] holds_gauge(before, g) ==> holds_gauge(after, g)
    &&& forall|h: prometheus::Histogram| #[trigger]
        holds_histogram(before, h) ==> holds_histogram(after, h)
    &&& forall|v: LabeledCounter| #[trigger] holds_labeled(before, v) ==> holds_labeled(after, v)
}

/// What a registry is after it took one more instrument under `name`: it
/// holds that name after the others, which does not stand among them, and
/// every instrument it held.
pub open spec fn took(before: Registry, after: Registry, name: Seq<char>) -> bool {
    &&& pristine(after)
    &&& !registered(before).contains(name)
    &&& registered(after) == registered(before).push(name)
    &&& keeps_instruments(before, after)
}

/// The number of observations in `obs` that are not above `bound`.
pub open spec fn count_up_to(obs: Multiset<u32>, bound: u32) -> nat {
    obs.filter(|v: u32| v <= bound).len()
}

/// The families `fs` stand in ascending order of name.
pub open spec fn ascending(fs: Seq<prometheus::proto::MetricFamily>) -> bool {
    forall|i: int, j: int|
        0 <= i < j < fs.len() ==> name_before(
            family_name(#[trigger] fs[i]),
            family_name(#[trigger] fs[j]),
        )
}

/// Some family of `fs` is the family of the counter `c`: it has the
/// counter's name and shows where it stands.
pub open spec fn has_counter(fs: Seq<prometheus::proto::MetricFamily>, c: EventCounter) -> bool {
    exists|k: int|
        0 <= k < fs.len() && family_name(#[trigger] fs[k]) == counter_name(c) && (counter_total(c)
            <= exact_limit() ==> family_counter(fs[k]) == counter_total(c))
}

/// Some family of `fs` is the family of the gauge `g`.
pub open spec fn has_gauge(fs: Seq<prometheus::proto::MetricFamily>, g: LevelGauge) -> bool {
    exists|k: int|
        0 <= k < fs.len() && family_name(#[trigger] fs[k]) == gauge_name(g) && (-exact_limit()
            <= gauge_value(g) <= exact_limit() ==> family_gauge(fs[k]) == gauge_value(g))
}

/// Some family of `fs` is the family of the histogram `h`: it has the
/// histogram's name and boundaries, the number of its observations, and for
/// each boundary the number of observations that are not above it.
pub open spec fn has_histogram(
    fs: Seq<prometheus::proto::MetricFamily>,
    h: prometheus::Histogram,
) -> bool {
    exists|k: int|
        0 <= k < fs.len() && family_name(#[trigger] fs[k]) == histogram_name(h) && family_bounds(
            fs[k],
        ) == histogram_bounds(h) && (observations(h).len() < 0x8000_0000_0000_0000 ==> {
            &&& family_sample_count(fs[k]) == observations(h).len()
            &&& family_bucket_counts(fs[k]).len() == histogram_bounds(h).len()
            &&& forall|i: int|
                0 <= i < histogram_bounds(h).len() ==> #[trigger] family_bucket_counts(fs[k])[i]
                    == count_up_to(observations(h), histogram_bounds(h)[i])
        })
}

/// Some family of `fs` is the family of the labelled counter `v`: it has
/// the counter's name and at least one sample, and each of its samples
/// shows where the count under its label stands.
pub open spec fn has_labeled(fs: Seq<prometheus::proto::MetricFamily>, v: LabeledCounter) -> bool {
    exists|k: int|
        0 <= k < fs.len() && family_name(#[trigger] fs[k]) == labeled_name(v) && family_samples(
            fs[k],
        ).len() >= 1 && (forall|j: int|
            0 <= j < family_samples(fs[k]).len() && labeled_total(
                v,
                (#[trigger] family_samples(fs[k])[j]).0,
            ) <= exact_limit() ==> family_samples(fs[k])[j].1 == labeled_total(
                v,
                family_samples(fs[k])[j].0,
            ))
}

/// The number of labelled counters among `vs` that have counted yet.
pub open spec fn touched_count(vs: Seq<&LabeledCounter>) -> nat
    decreases vs.len(),
{
    if vs.len() == 0 {
        0
    } else {
        touched_count(vs.drop_last()) + if labeled_touched(*vs.last()) {
            1nat
        } else {
            0nat
        }
    }
}

/// The names of the given instruments: counters first, then gauges,
/// histograms and labelled counters.
pub open spec fn given_names(
    counters: Seq<&EventCounter>,
    gauges: Seq<&LevelGauge>,
    histograms: Seq<&prometheus::Histogram>,
    labeled: Seq<&LabeledCounter>,
) -> Seq<Seq<char>> {
    Seq::new(counters.len(), |i: int| counter_name(*counters[i])) + Seq::new(
        gauges.len(),
        |i: int| gauge_name(*gauges[i]),
    ) + Seq::new(histograms.len(), |i: int| histogram_name(*histograms[i])) + Seq::new(
        labeled.len(),
        |i: int| labeled_name(*labeled[i]),
    )
}

/// Calls `Registry::new`: a registry that holds nothing and was offered
/// nothing.
#[verifier::external_body]
fn new_registry() -> (r: Registry)
    ensures
        pristine(r),
        registered(r) == Seq::<Seq<char>>::empty(),
{
    Registry::new()
}

/// Calls `IntCounter::new`. Whether a counter is made lies with its name and
/// help alone. A counter that was made stands at zero.
#[verifier::external_body]
fn new_counter(name: &str, help: &str) -> (r: Result<EventCounter, prometheus::Error>)
    ensures
        r is Ok <==> counter_accepted(name@, help@),
        r matches Ok(c) ==> counter_total(c) == 0 && counter_name(c) == name@,
{
    IntCounter::new(name, help).map(|inner| EventCounter { inner })
}

/// Calls `IntGauge::new`. Whether a gauge is made lies with its name and
/// help alone. A gauge that was made stands at zero.
#[verifier::external_body]
fn new_gauge(name: &str, help: &str) -> (r: Result<LevelGauge, prometheus::Error>)
    ensures
        r is Ok <==> gauge_accepted(name@, help@),
        r matches Ok(g) ==> gauge_value(g) == 0 && gauge_name(g) == name@,
{
    IntGauge::new(name, help).map(|inner| LevelGauge { inner })
}

/// Calls `Histogram::with_opts` with the boundaries `bounds`. Whether a
/// histogram is made lies with its name, help and boundaries alone. A
/// histogram that was made has these boundaries and has observed nothing.
/// Without boundaries the metrics library would choose its own, so that is
/// left out.
#[verifier::external_body]
fn new_histogram(name: &str, help: &str, bounds: &Vec<u32>) -> (r: Result<
    prometheus::Histogram,
    prometheus::Error,
>)
    requires
        bounds@.len() > 0,
    ensures
        r is Ok <==> histogram_accepted(name@, help@, bounds@),
        r matches Ok(h) ==> {
            &&& observations(h) == Multiset::<u32>::empty()
            &&& histogram_name(h) == name@
            &&& histogram_bounds(h) == bounds@
        },
{
    prometheus::Histogram::with_opts(
        prometheus::HistogramOpts::new(name, help).buckets(
            bounds.iter().map(|b| (*b).into()).collect(),
        ),
    )
}

/// Calls `IntCounterVec::new` with the one label name `label_name`. Whether
/// the counter is made lies with its name, help and label name alone. One
/// that was made has not counted yet and stands at zero under every label.
#[verifier::external_body]
fn new_labeled(name: &str, help: &str, label_name: &str) -> (r: Result<
    LabeledCounter,
    prometheus::Error,
>)
    ensures
        r is Ok <==> labeled_accepted(name@, help@, label_name@),
        r matches Ok(v) ==> {
            &&& labeled_name(v) == name@
            &&& !labeled_touched(v)
            &&& forall|l: Seq<char>| #[trigger] labeled_total(v, l) == 0
        },
{
    IntCounterVec::new(prometheus::Opts::new(name, help), &[label_name]).map(
        |inner| LabeledCounter { inner },
    )
}

/// Calls `Registry::register` with a handle of the counter. A registry that
/// never refused an instrument decides by the names it holds and the new
/// name alone, and never takes a name twice. A refusal leaves the names it
/// holds as they are.
#[verifier::external_body]
fn register_counter(registry: &mut Registry, c: &EventCounter) -> (r: Result<
    (),
    prometheus::Error,
>)
    requires
        pristine(*old(registry)),
    ensures
        r is Ok <==> register_accepted(registered(*old(registry)), counter_name(*c)),
        r is Ok ==> took(*old(registry), *final(registry), counter_name(*c)) && holds_counter(
            *final(registry),
            *c,
        ),
        r is Err ==> registered(*final(registry)) == registered(*old(registry)),
{
    registry.register(Box::new(c.inner.clone()))
}

/// Calls `Registry::register` with a handle of the gauge; as for a counter.
#[verifier::external_body]
fn register_gauge(registry: &mut Registry, g: &LevelGauge) -> (r: Result<(), prometheus::Error>)
    requires
        pristine(*old(registry)),
    ensures
        r is Ok <==> register_accepted(registered(*old(registry)), gauge_name(*g)),
        r is Ok ==> took(*old(registry), *final(registry), gauge_name(*g)) && holds_gauge(
            *final(registry),
            *g,
        ),
        r is Err ==> registered(*final(registry)) == registered(*old(registry)),
{
    registry.register(Box::new(g.inner.clone()))
}

/// Calls `Registry::register` with a handle of the histogram; as for a
/// counter.
#[verifier::external_body]
fn register_histogram(registry: &mut Registry, h: &prometheus::Histogram) -> (r: Result<
    (),
    prometheus::Error,
>)
    requires
        pristine(*old(registry)),
    ensures
        r is Ok <==> register_accepted(registered(*old(registry)), histogram_name(*h)),
        r is Ok ==> took(*old(registry), *final(registry), histogram_name(*h))
            && holds_histogram(*final(registry), *h),
        r is Err ==> registered(*final(registry)) == registered(*old(registry)),
{
    registry.register(Box::new(h.clone()))
}

/// Calls `Registry::register` with a handle of the labelled counter; as for
/// a counter.
#[verifier::external_body]
fn register_labeled(registry: &mut Registry, v: &LabeledCounter) -> (r: Result<
    (),
    prometheus::Error,
>)
    requires
        pristine(*old(registry)),
    ensures
        r is Ok <==> register_accepted(registered(*old(registry)), labeled_name(*v)),
        r is Ok ==> took(*old(registry), *final(registry), labeled_name(*v)) && holds_labeled(
            *final(registry),
            *v,
        ),
        r is Err ==> registered(*final(registry)) == registered(*old(registry)),
{
    registry.register(Box::new(v.inner.clone()))
}

/// Calls `IntCounter::inc`, which adds one to the 64-bit count without
/// regard to overflow. The counter stays the instrument it was.
#[verifier::external_body]
fn counter_inc(c: &mut EventCounter)
    ensures
        counter_total(*final(c)) == grown(counter_total(*old(c))),
        counter_name(*final(c)) == counter_name(*old(c)),
        forall|registry: Registry| #[trigger]
            holds_counter(registry, *final(c)) == holds_counter(registry, *old(c)),
{
    c.inner.inc();
}

/// Calls `IntGauge::set`, which stores the value. The gauge stays the
/// instrument it was.
#[verifier::external_body]
fn gauge_set(g: &mut LevelGauge, v: i64)
    ensures
        gauge_value(*final(g)) == v,
        gauge_name(*final(g)) == gauge_name(*old(g)),
        forall|registry: Registry| #[trigger]
            holds_gauge(registry, *final(g)) == holds_gauge(registry, *old(g)),
{
    g.inner.set(v);
}

/// Calls `Histogram::observe` with `v` as the number it takes. The histogram
/// stays the instrument it was.
#[verifier::external_body]
fn observe(h: &mut prometheus::Histogram, v: u32)
    ensures
        observations(*final(h)) == observations(*old(h)).insert(v),
        histogram_name(*final(h)) == histogram_name(*old(h)),
        histogram_bounds(*final(h)) == histogram_bounds(*old(h)),
        forall|registry: Registry| #[trigger]
            holds_histogram(registry, *final(h)) == holds_histogram(registry, *old(h)),
{
    h.observe(v.into());
}

/// Calls `IntCounterVec::with_label_values` with the one value `label`, and
/// `IntCounter::inc` on the counter that it gives. The library finds the
/// count of a label by the hash of the label: the count under every label
/// with the hash of `label` grows by one, and every other count stays. The
/// counter stays the instrument it was.
#[verifier::external_body]
fn labeled_inc(v: &mut LabeledCounter, label: &str)
    ensures
        forall|l: Seq<char>| #[trigger]
            labeled_total(*final(v), l) == if label_hash(l) == label_hash(label@) {
                grown(labeled_total(*old(v), l))
            } else {
                labeled_total(*old(v), l)
            },
        labeled_touched(*final(v)),
        labeled_name(*final(v)) == labeled_name(*old(v)),
        forall|registry: Registry| #[trigger]
            holds_labeled(registry, *final(v)) == holds_labeled(registry, *old(v)),
{
    v.inner.with_label_values(&[label]).inc();
}

/// Calls `Registry::gather`. Where the instruments given are all that the
/// registry holds, in the order in which they were registered, the result
/// is their readout as they stand now: one family for each instrument that
/// has a sample, which every instrument has but a labelled counter that has
/// not counted yet, in ascending order of name, and no other family.
#[verifier::external_body]
fn gather(
    registry: &Registry,
    counters: &Vec<&EventCounter>,
    gauges: &Vec<&LevelGauge>,
    histograms: &Vec<&prometheus::Histogram>,
    labeled: &Vec<&LabeledCounter>,
) -> (r: Vec<prometheus::proto::MetricFamily>)
    requires
        forall|i: int|
            0 <= i < counters@.len() ==> holds_counter(*registry, *#[trigger] counters@[i]),
        forall|i: int| 0 <= i < gauges@.len() ==> holds_gauge(*registry, *#[trigger] gauges@[i]),
        forall|i: int|
            0 <= i < histograms@.len() ==> holds_histogram(*registry, *#[trigger] histograms@[i]),
        forall|i: int|
            0 <= i < labeled@.len() ==> holds_labeled(*registry, *#[trigger] labeled@[i]),
        registered(*registry) == given_names(counters@, gauges@, histograms@, labeled@),
        registered(*registry).no_duplicates(),
    ensures
        forall|i: int, j: int|
            0 <= i < j < r@.len() ==> name_before(
                family_name(#[trigger] r@[i]),
                family_name(#[trigger] r@[j]),
            ),
        r@.len() == counters@.len() + gauges@.len() + histograms@.len() + touched_count(labeled@),
        forall|k: int|
            0 <= k < r@.len() ==> registered(*registry).contains(family_name(#[trigger] r@[k])),
        forall|i: int|
            #![trigger labeled@[i]]
            0 <= i < labeled@.len() && !labeled_touched(*labeled@[i]) ==> forall|k: int|
                0 <= k < r@.len() ==> family_name(#[trigger] r@[k]) != labeled_name(*labeled@[i]),
        forall|i: int|
            #![trigger counters@[i]]
            0 <= i < counters@.len() ==> exists|k: int|
                0 <= k < r@.len() && family_name(#[trigger] r@[k]) == counter_name(*counters@[i])
                    && (counter_total(*counters@[i]) <= exact_limit() ==> family_counter(r@[k])
                    == counter_total(*counters@[i])),
        forall|i: int|
            #![trigger gauges@[i]]
            0 <= i < gauges@.len() ==> exists|k: int|
                0 <= k < r@.len() && family_name(#[trigger] r@[k]) == gauge_name(*gauges@[i]) && (
                -exact_limit() <= gauge_value(*gauges@[i]) <= exact_limit() ==> family_gauge(r@[k])
                    == gauge_value(*gauges@[i])),
        forall|i: int|
            #![trigger histograms@[i]]
            0 <= i < histograms@.len() ==> exists|k: int|
                0 <= k < r@.len() && family_name(#[trigger] r@[k]) == histogram_name(
                    *histograms@[i],
                ) && family_bounds(r@[k]) == histogram_bounds(*histograms@[i]) && (observations(
                    *histograms@[i],
                ).len() < 0x8000_0000_0000_0000 ==> {
                    &&& family_sample_count(r@[k]) == observations(*histograms@[i]).len()
                    &&& family_bucket_counts(r@[k]).len() == histogram_bounds(*histograms@[i]).len()
                    &&& forall|b: int|
                        0 <= b < histogram_bounds(*histograms@[i]).len()
                            ==> #[trigger] family_bucket_counts(r@[k])[b] == count_up_to(
                            observations(*histograms@[i]),
                            histogram_bounds(*histograms@[i])[b],
                        )
                }),
        forall|i: int|
            #![trigger labeled@[i]]
            0 <= i < labeled@.len() && labeled_touched(*labeled@[i]) ==> exists|k: int|
                0 <= k < r@.len() && family_name(#[trigger] r@[k]) == labeled_name(*labeled@[i])
                    && family_samples(r@[k]).len() >= 1 && (forall|j: int|
                    0 <= j < family_samples(r@[k]).len() && labeled_total(
                        *labeled@[i],
                        (#[trigger] family_samples(r@[k])[j]).0,
                    ) <= exact_limit() ==> family_samples(r@[k])[j].1 == labeled_total(
                        *labeled@[i],
                        family_samples(r@[k])[j].0,
                    )),
{
    registry.gather()
}

/// The names of the thirteen instruments, in the order in which they are
/// registered: seven counters, two gauges, three histograms and the counter
/// of uses by command.
pub open spec fn instrument_names() -> Seq<Seq<char>> {
    seq![
        "estrange_prompts_generated_total"@,
        "estrange_prompts_manual_total"@,
        "estrange_responses_completed_total"@,
        "estrange_responses_abandoned_total"@,
        "estrange_sessions_completed_total"@,
        "estrange_search_queries_total"@,
        "estrange_archive_exports_total"@,
        "estrange_current_streak_days"@,
        "estrange_total_entries"@,
        "estrange_response_words"@,
        "estrange_response_duration_seconds"@,
        "estrange_session_duration_seconds"@,
        "estrange_command_usage_total"@,
    ]
}

/// The help texts of the thirteen instruments, in the same order.
pub open spec fn instrument_helps() -> Seq<Seq<char>> {
    seq![
        "Total number of AI-generated creative prompts"@,
        "Total number of manually entered prompts"@,
        "Total number of completed creative responses"@,
        "Total number of abandoned creative sessions"@,
        "Total number of completed creative sessions"@,
        "Total number of excavate/search queries"@,
        "Total number of journey exports"@,
        "Current consecutive days of creative disruption"@,
        "Total number of creative entries in database"@,
        "Word count distribution of responses"@,
        "Time spent writing responses"@,
        "Duration of creative sessions"@,
        "Usage count by command"@,
    ]
}

/// The name of the label by which the command counter is split.
pub open spec fn command_label() -> Seq<char> {
    "command"@
}

/// The bucket boundaries of the word-count histogram.
pub open spec fn word_bounds() -> Seq<u32> {
    seq![10u32, 25u32, 50u32, 100u32, 250u32, 500u32, 1000u32]
}

/// The bucket boundaries of the two duration histograms, in seconds: from
/// half a minute to half an hour.
pub open spec fn duration_bounds() -> Seq<u32> {
    seq![30u32, 60u32, 300u32, 600u32, 1200u32, 1800u32]
}

/// Whether the registry takes instrument `k` after the ones before it.
pub open spec fn place_accepted(k: int) -> bool {
    register_accepted(instrument_names().take(k), instrument_names()[k])
}

/// Whether counter `k` is made and registered.
pub open spec fn counter_step(k: int) -> bool {
    counter_accepted(instrument_names()[k], instrument_helps()[k]) && place_accepted(k)
}

/// Whether gauge `k` is made and registered.
pub open spec fn gauge_step(k: int) -> bool {
    gauge_accepted(instrument_names()[k], instrument_helps()[k]) && place_accepted(k)
}

/// Whether histogram `k` is made with `bounds` and registered.
pub open spec fn histogram_step(k: int, bounds: Seq<u32>) -> bool {
    histogram_accepted(instrument_names()[k], instrument_helps()[k], bounds) && place_accepted(k)
}

/// Whether the counter of uses by command is made and registered.
pub open spec fn labeled_step(k: int) -> bool {
    labeled_accepted(instrument_names()[k], instrument_helps()[k], command_label())
        && place_accepted(k)
}

/// Whether the metrics library makes and registers all thirteen instruments,
/// one after the other.
pub open spec fn setup_accepted() -> bool {
    &&& counter_step(0)
    &&& counter_step(1)
    &&& counter_step(2)
    &&& counter_step(3)
    &&& counter_step(4)
    &&& counter_step(5)
    &&& counter_step(6)
    &&& gauge_step(7)
    &&& gauge_step(8)
    &&& histogram_step(9, word_bounds())
    &&& histogram_step(10, duration_bounds())
    &&& histogram_step(11, duration_bounds())
    &&& labeled_step(12)
}

/// What the metrics hold.
pub struct MetricsView {
    /// The names of the registered instruments, in the order of registration.
    pub registered: Seq<Seq<char>>,
    pub prompts_generated: u64,
    pub prompts_manual: u64,
    pub responses_completed: u64,
    pub responses_abandoned: u64,
    pub sessions_completed: u64,
    /// The counter of uses by command; `labeled_total` gives its counts.
    pub command_usage: LabeledCounter,
    pub response_words: Multiset<u32>,
    pub response_seconds: Multiset<u32>,
    pub session_seconds: Multiset<u32>,
    pub word_bounds: Seq<u32>,
    pub response_bounds: Seq<u32>,
    pub session_bounds: Seq<u32>,
    pub search_queries: u64,
    pub archive_exports: u64,
    pub current_streak: i64,
    pub total_entries: i64,
}

/// The metrics of a process in which nothing has happened yet: all
/// thirteen instruments are registered, the histograms have their
/// boundaries, and nothing is counted, observed or set.
pub open spec fn is_fresh(m: MetricsView) -> bool {
    &&& m.registered == instrument_names()
    &&& m.registered.no_duplicates()
    &&& m.prompts_generated == 0
    &&& m.prompts_manual == 0
    &&& m.responses_completed == 0
    &&& m.responses_abandoned == 0
    &&& m.sessions_completed == 0
    &&& !labeled_touched(m.command_usage)
    &&& forall|l: Seq<char>| #[trigger] labeled_total(m.command_usage, l) == 0
    &&& m.response_words == Multiset::<u32>::empty()
    &&& m.response_seconds == Multiset::<u32>::empty()
    &&& m.session_seconds == Multiset::<u32>::empty()
    &&& m.word_bounds == word_bounds()
    &&& m.response_bounds == duration_bounds()
    &&& m.session_bounds == duration_bounds()
    &&& m.search_queries == 0
    &&& m.archive_exports == 0
    &&& m.current_streak == 0
    &&& m.total_entries == 0
}

/// The metrics after a completed response of `words` words that took
/// `seconds` seconds.
pub open spec fn after_response(m: MetricsView, words: u64, seconds: u64) -> MetricsView {
    MetricsView {
        responses_completed: grown(m.responses_completed),
        response_words: m.response_words.insert(clamped(words)),
        response_seconds: m.response_seconds.insert(clamped(seconds)),
        ..m
    }
}

/// The metrics after a session of `seconds` seconds.
pub open spec fn after_session(m: MetricsView, seconds: u64) -> MetricsView {
    MetricsView {
        sessions_completed: grown(m.sessions_completed),
        session_seconds: m.session_seconds.insert(clamped(seconds)),
        ..m
    }
}

/// The metrics after an abandoned response.
pub open spec fn after_abandon(m: MetricsView) -> MetricsView {
    MetricsView { responses_abandoned: grown(m.responses_abandoned), ..m }
}

/// `after` is `before` after one more use of the command `label`: the count
/// under `label`, and under every label that shares its hash, has grown by
/// one; every other count and every other instrument stands as it stood.
pub open spec fn used_once(before: MetricsView, after: MetricsView, label: Seq<char>) -> bool {
    &&& after == (MetricsView { command_usage: after.command_usage, ..before })
    &&& labeled_touched(after.command_usage)
    &&& forall|l: Seq<char>| #[trigger]
        labeled_total(after.command_usage, l) == if label_hash(l) == label_hash(label) {
            grown(labeled_total(before.command_usage, l))
        } else {
            labeled_total(before.command_usage, l)
        }
}

/// Some family of `fs` has the name `name` and shows the count `total`.
pub open spec fn shows_count(
    fs: Seq<prometheus::proto::MetricFamily>,
    name: Seq<char>,
    total: u64,
) -> bool {
    exists|k: int|
        0 <= k < fs.len() && family_name(#[trigger] fs[k]) == name && (total <= exact_limit()
            ==> family_counter(fs[k]) == total)
}

/// Some family of `fs` has the name `name` and shows the level `value`.
pub open spec fn shows_level(
    fs: Seq<prometheus::proto::MetricFamily>,
    name: Seq<char>,
    value: i64,
) -> bool {
    exists|k: int|
        0 <= k < fs.len() && family_name(#[trigger] fs[k]) == name && (-exact_limit() <= value
            <= exact_limit() ==> family_gauge(fs[k]) == value)
}

/// Some family of `fs` has the name `name` and shows a histogram with the
/// boundaries `bounds` that has observed `obs`.
pub open spec fn shows_observations(
    fs: Seq<prometheus::proto::MetricFamily>,
    name: Seq<char>,
    bounds: Seq<u32>,
    obs: Multiset<u32>,
) -> bool {
    exists|k: int|
        0 <= k < fs.len() && family_name(#[trigger] fs[k]) == name && family_bounds(fs[k])
            == bounds && (obs.len() < 0x8000_0000_0000_0000 ==> {
            &&& family_sample_count(fs[k]) == obs.len()
            &&& family_bucket_counts(fs[k]).len() == bounds.len()
            &&& forall|i: int|
                0 <= i < bounds.len() ==> #[trigger] family_bucket_counts(fs[k])[i] == count_up_to(
                    obs,
                    bounds[i],
                )
        })
}

/// Some family of `fs` has the name `name` and at least one sample, and each
/// of its samples shows where the count of `v` under its label stands.
pub open spec fn shows_usage(
    fs: Seq<prometheus::proto::MetricFamily>,
    name: Seq<char>,
    v: LabeledCounter,
) -> bool {
    exists|k: int|
        0 <= k < fs.len() && family_name(#[trigger] fs[k]) == name && family_samples(fs[k]).len()
            >= 1 && (forall|j: int|
            0 <= j < family_samples(fs[k]).len() && labeled_total(
                v,
                (#[trigger] family_samples(fs[k])[j]).0,
            ) <= exact_limit() ==> family_samples(fs[k])[j].1 == labeled_total(
                v,
                family_samples(fs[k])[j].0,
            ))
}

/// `fs` is the readout of the metrics `m`: one family for each of the
/// thirteen instruments, but for the counter of uses by command where no
/// command was used yet, and no other; in ascending order of name, each
/// with the values that `m` holds.
pub open spec fn readout_of(m: MetricsView, fs: Seq<prometheus::proto::MetricFamily>) -> bool {
    let n = instrument_names();
    &&& ascending(fs)
    &&& fs.len() == if labeled_touched(m.command_usage) {
        13nat
    } else {
        12nat
    }
    &&& forall|k: int| 0 <= k < fs.len() ==> n.contains(family_name(#[trigger] fs[k]))
    &&& !labeled_touched(m.command_usage) ==> forall|k: int|
        0 <= k < fs.len() ==> family_name(#[trigger] fs[k]) != n[12]
    &&& shows_count(fs, n[0], m.prompts_generated)
    &&& shows_count(fs, n[1], m.prompts_manual)
    &&& shows_count(fs, n[2], m.responses_completed)
    &&& shows_count(fs, n[3], m.responses_abandoned)
    &&& shows_count(fs, n[4], m.sessions_completed)
    &&& shows_count(fs, n[5], m.search_queries)
    &&& shows_count(fs, n[6], m.archive_exports)
    &&& shows_level(fs, n[7], m.current_streak)
    &&& shows_level(fs, n[8], m.total_entries)
    &&& shows_observations(fs, n[9], m.word_bounds, m.response_words)
    &&& shows_observations(fs, n[10], m.response_bounds, m.response_seconds)
    &&& shows_observations(fs, n[11], m.session_bounds, m.session_seconds)
    &&& labeled_touched(m.command_usage) ==> shows_usage(fs, n[12], m.command_usage)
}

/// One more event moves a count on by one within its 64 bits.
pub proof fn lemma_grown(count: u64, start: int, steps: int)
    requires
        0 <= start,
        0 <= steps,
        count as int == (start + steps) % 0x1_0000_0000_0000_0000,
    ensures
        grown(count) as int == (start + steps + 1) % 0x1_0000_0000_0000_0000,
{
}

/// Counts that each follow from the one before by one more event have grown
/// by their number.
pub proof fn lemma_counts_add_up(totals: Seq<u64>)
    requires
        totals.len() >= 1,
        forall|i: int| 0 <= i < totals.len() - 1 ==> totals[i + 1] == grown(#[trigger] totals[i]),
    ensures
        totals.last() as int == (totals[0] + totals.len() - 1) % 0x1_0000_0000_0000_0000,
    decreases totals.len(),
{
    if totals.len() > 1 {
        let front = totals.drop_last();
        assert forall|i: int| 0 <= i < front.len() - 1 implies front[i + 1] == grown(
            #[trigger] front[i],
        ) by {
            assert(totals[i + 1] == grown(totals[i]));
        }
        lemma_counts_add_up(front);
        let k = totals.len() - 2;
        assert(totals[k + 1] == grown(totals[k]));
        assert(front.last() == totals[k]);
        assert(front[0] == totals[0]);
        lemma_grown(totals[k], totals[0] as int, k);
    }
}

/// After any number of uses of a command in a row, its count has grown by
/// that number: `n` uses of a command that was never used count `n`, as
/// long as `n` fits the 64 bits of the count.
pub proof fn lemma_uses_add_up(states: Seq<MetricsView>, label: Seq<char>)
    requires
        states.len() >= 1,
        forall|i: int|
            0 <= i < states.len() - 1 ==> used_once(#[trigger] states[i], states[i + 1], label),
    ensures
        labeled_total(states.last().command_usage, label) as int == (labeled_total(
            states[0].command_usage,
            label,
        ) + states.len() - 1) % 0x1_0000_0000_0000_0000,
{
    let totals = Seq::new(states.len(), |i: int| labeled_total(states[i].command_usage, label));
    assert forall|i: int| 0 <= i < totals.len() - 1 implies totals[i + 1] == grown(
        #[trigger] totals[i],
    ) by {
        assert(used_once(states[i], states[i + 1], label));
    }
    lemma_counts_add_up(totals);
}

/// Why the metrics could not be set up.
#[derive(Clone, Copy, Debug, PartialEq, Eq, Structural)]
pub enum MetricsError {
    /// The process already has its metrics.
    AlreadyInitialized,
    /// The metrics library refused an instrument.
    Setup,
}

/// The instruments of one process.
pub struct EstrangeMetrics {
    registry: Registry,
    prompts_generated: EventCounter,
    prompts_manual: EventCounter,
    responses_completed: EventCounter,
    responses_abandoned: EventCounter,
    session_completed: EventCounter,
    command_usage: LabeledCounter,
    response_word_count: prometheus::Histogram,
    response_duration_seconds: prometheus::Histogram,
    session_duration_seconds: prometheus::Histogram,
    search_queries: EventCounter,
    archive_exports: EventCounter,
    current_streak: LevelGauge,
    total_entries: LevelGauge,
}

impl View for EstrangeMetrics {
    type V = MetricsView;

    closed spec fn view(&self) -> MetricsView {
        MetricsView {
            registered: registered(self.registry),
            prompts_generated: counter_total(self.prompts_generated),
            prompts_manual: counter_total(self.prompts_manual),
            responses_completed: counter_total(self.responses_completed),
            responses_abandoned: counter_total(self.responses_abandoned),
            sessions_completed: counter_total(self.session_completed),
            command_usage: self.command_usage,
            response_words: observations(self.response_word_count),
            response_seconds: observations(self.response_duration_seconds),
            session_seconds: observations(self.session_duration_seconds),
            word_bounds: histogram_bounds(self.response_word_count),
            response_bounds: histogram_bounds(self.response_duration_seconds),
            session_bounds: histogram_bounds(self.session_duration_seconds),
            search_queries: counter_total(self.search_queries),
            archive_exports: counter_total(self.archive_exports),
            current_streak: gauge_value(self.current_streak),
            total_entries: gauge_value(self.total_entries),
        }
    }
}

/// A sequence without repetitions stays one when something new is added.
pub proof fn lemma_push_new_name(s: Seq<Seq<char>>, name: Seq<char>)
    requires
        s.no_duplicates(),
        !s.contains(name),
    ensures
        s.push(name).no_duplicates(),
{
    let t = s.push(name);
    assert forall|i: int, j: int| 0 <= i < t.len() && 0 <= j < t.len() && i != j implies t[i]
        != t[j] by {
        if i < s.len() && j < s.len() {
            assert(s[i] != s[j]);
        } else if i < s.len() {
            assert(s.contains(s[i]));
        } else {
            assert(s.contains(s[j]));
        }
    }
}

/// Makes a counter and registers it.
fn registered_counter(registry: &mut Registry, name: &str, help: &str) -> (r: Result<
    EventCounter,
    MetricsError,
>)
    requires
        pristine(*old(registry)),
        registered(*old(registry)).no_duplicates(),
    ensures
        r is Ok <==> counter_accepted(name@, help@) && register_accepted(
            registered(*old(registry)),
            name@,
        ),
        r matches Ok(c) ==> {
            &&& took(*old(registry), *final(registry), name@)
            &&& registered(*final(registry)).no_duplicates()
            &&& holds_counter(*final(registry), c)
            &&& counter_name(c) == name@
            &&& counter_total(c) == 0
        },
        r matches Err(e) ==> e == MetricsError::Setup,
{
    let c = match new_counter(name, help) {
        Ok(c) => c,
        Err(_) => {
            return Err(MetricsError::Setup);
        },
    };
    match register_counter(registry, &c) {
        Ok(_) => {
            proof {
                lemma_push_new_name(registered(*old(registry)), name@);
            }
            Ok(c)
        },
        Err(_) => Err(MetricsError::Setup),
    }
}

/// Makes a gauge and registers it.
fn registered_gauge(registry: &mut Registry, name: &str, help: &str) -> (r: Result<
    LevelGauge,
    MetricsError,
>)
    requires
        pristine(*old(registry)),
        registered(*old(registry)).no_duplicates(),
    ensures
        r is Ok <==> gauge_accepted(name@, help@) && register_accepted(
            registered(*old(registry)),
            name@,
        ),
        r matches Ok(g) ==> {
            &&& took(*old(registry), *final(registry), name@)
            &&& registered(*final(registry)).no_duplicates()
            &&& holds_gauge(*final(registry), g)
            &&& gauge_name(g) == name@
            &&& gauge_value(g) == 0
        },
        r matches Err(e) ==> e == MetricsError::Setup,
{
    let g = match new_gauge(name, help) {
        Ok(g) => g,
        Err(_) => {
            return Err(MetricsError::Setup);
        },
    };
    match register_gauge(registry, &g) {
        Ok(_) => {
            proof {
                lemma_push_new_name(registered(*old(registry)), name@);
            }
            Ok(g)
        },
        Err(_) => Err(MetricsError::Setup),
    }
}

/// Makes a histogram over `bounds` and registers it.
fn registered_histogram(registry: &mut Registry, name: &str, help: &str, bounds: &Vec<u32>) -> (r:
    Result<prometheus::Histogram, MetricsError>)
    requires
        pristine(*old(registry)),
        registered(*old(registry)).no_duplicates(),
        bounds@.len() > 0,
    ensures
        r is Ok <==> histogram_accepted(name@, help@, bounds@) && register_accepted(
            registered(*old(registry)),
            name@,
        ),
        r matches Ok(h) ==> {
            &&& took(*old(registry), *final(registry), name@)
            &&& registered(*final(registry)).no_duplicates()
            &&& holds_histogram(*final(registry), h)
            &&& histogram_name(h) == name@
            &&& histogram_bounds(h) == bounds@
            &&& observations(h) == Multiset::<u32>::empty()
        },
        r matches Err(e) ==> e == MetricsError::Setup,
{
    let h = match new_histogram(name, help, bounds) {
        Ok(h) => h,
        Err(_) => {
            return Err(MetricsError::Setup);
        },
    };
    match register_histogram(registry, &h) {
        Ok(_) => {
            proof {
                lemma_push_new_name(registered(*old(registry)), name@);
            }
            Ok(h)
        },
        Err(_) => Err(MetricsError::Setup),
    }
}

/// Makes a counter split by the label `label_name` and registers it.
fn registered_labeled(registry: &mut Registry, name: &str, help: &str, label_name: &str) -> (r:
    Result<LabeledCounter, MetricsError>)
    requires
        pristine(*old(registry)),
        registered(*old(registry)).no_duplicates(),
    ensures
        r is Ok <==> labeled_accepted(name@, help@, label_name@) && register_accepted(
            registered(*old(registry)),
            name@,
        ),
        r matches Ok(v) ==> {
            &&& took(*old(registry), *final(registry), name@)
            &&& registered(*final(registry)).no_duplicates()
            &&& holds_labeled(*final(registry), v)
            &&& labeled_name(v) == name@
            &&& !labeled_touched(v)
            &&& forall|l: Seq<char>| #[trigger] labeled_total(v, l) == 0
        },
        r matches Err(e) ==> e == MetricsError::Setup,
{
    let v = match new_labeled(name, help, label_name) {
        Ok(v) => v,
        Err(_) => {
            return Err(MetricsError::Setup);
        },
    };
    match register_labeled(registry, &v) {
        Ok(_) => {
            proof {
                lemma_push_new_name(registered(*old(registry)), name@);
            }
            Ok(v)
        },
        Err(_) => Err(MetricsError::Setup),
    }
}

/// The boundaries of the word-count histogram.
pub fn word_buckets() -> (v: Vec<u32>)
    ensures
        v@ == word_bounds(),
{
    let mut v: Vec<u32> = Vec::new();
    v.push(10);
    v.push(25);
    v.push(50);
    v.push(100);
    v.push(250);
    v.push(500);
    v.push(1000);
    assert(v@ =~= word_bounds());
    v
}

/// The boundaries of a duration histogram.
pub fn duration_buckets() -> (v: Vec<u32>)
    ensures
        v@ == duration_bounds(),
{
    let mut v: Vec<u32> = Vec::new();
    v.push(30);
    v.push(60);
    v.push(300);
    v.push(600);
    v.push(1200);
    v.push(1800);
    assert(v@ =~= duration_bounds());
    v
}

/// What a histogram records of `v`.
pub fn clamp(v: u64) -> (r: u32)
    ensures
        r == clamped(v),
{
    if v > 0xFFFF_FFFF {
        0xFFFF_FFFF
    } else {
        v as u32
    }
}

impl EstrangeMetrics {
    /// The invariant: the registry holds the thirteen instruments, each
    /// under its name, and nothing else.
    pub closed spec fn wf(&self) -> bool {
        let n = instrument_names();
        &&& registered(self.registry) == n
        &&& registered(self.registry).no_duplicates()
        &&& holds_counter(self.registry, self.prompts_generated)
        &&& counter_name(self.prompts_generated) == n[0]
        &&& holds_counter(self.registry, self.prompts_manual)
        &&& counter_name(self.prompts_manual) == n[1]
        &&& holds_counter(self.registry, self.responses_completed)
        &&& counter_name(self.responses_completed) == n[2]
        &&& holds_counter(self.registry, self.responses_abandoned)
        &&& counter_name(self.responses_abandoned) == n[3]
        &&& holds_counter(self.registry, self.session_completed)
        &&& counter_name(self.session_completed) == n[4]
        &&& holds_counter(self.registry, self.search_queries)
        &&& counter_name(self.search_queries) == n[5]
        &&& holds_counter(self.registry, self.archive_exports)
        &&& counter_name(self.archive_exports) == n[6]
        &&& holds_gauge(self.registry, self.current_streak)
        &&& gauge_name(self.current_streak) == n[7]
        &&& holds_gauge(self.registry, self.total_entries)
        &&& gauge_name(self.total_entries) == n[8]
        &&& holds_histogram(self.registry, self.response_word_count)
        &&& histogram_name(self.response_word_count) == n[9]
        &&& holds_histogram(self.registry, self.response_duration_seconds)
        &&& histogram_name(self.response_duration_seconds) == n[10]
        &&& holds_histogram(self.registry, self.session_duration_seconds)
        &&& histogram_name(self.session_duration_seconds) == n[11]
        &&& holds_labeled(self.registry, self.command_usage)
        &&& labeled_name(self.command_usage) == n[12]
    }

    /// Makes the thirteen instruments and registers each, in the order of
    /// `instrument_names`. This succeeds exactly when the metrics library
    /// accepts every one of them; the metrics are then fresh.
    pub fn new() -> (r: Result<EstrangeMetrics, MetricsError>)
        ensures
            r is Ok <==> setup_accepted(),
            r matches Ok(m) ==> m.wf() && is_fresh(m@),
            r matches Err(e) ==> e == MetricsError::Setup,
    {
        let mut registry = new_registry();
        let words = word_buckets();
        let durations = duration_buckets();
        let ghost n = instrument_names();
        proof {
            assert(registered(registry) =~= n.take(0));
        }
        let prompts_generated = match registered_counter(
            &mut registry,
            "estrange_prompts_generated_total",
            "Total number of AI-generated creative prompts",
        ) {
            Ok(x) => x,
            Err(e) => {
                return Err(e);
            },
        };
        proof {
            assert(registered(registry) =~= n.take(1));
        }
        let prompts_manual = match registered_counter(
            &mut registry,
            "estrange_prompts_manual_total",
            "Total number of manually entered prompts",
        ) {
            Ok(x) => x,
            Err(e) => {
                return Err(e);
            },
        };
        proof {
            assert(registered(registry) =~= n.take(2));
        }
        let responses_completed = match registered_counter(
            &mut registry,
            "estrange_responses_completed_total",
            "Total number of completed creative responses",
        ) {
            Ok(x) => x,
            Err(e) => {
                return Err(e);
            },
        };
        proof {
            assert(registered(registry) =~= n.take(3));
        }
        let responses_abandoned = match registered_counter(
            &mut registry,
            "estrange_responses_abandoned_total",
            "Total number of abandoned creative sessions",
        ) {
            Ok(x) => x,
            Err(e) => {
                return Err(e);
            },
        };
        proof {
            assert(registered(registry) =~= n.take(4));
        }
        let session_completed = match registered_counter(
            &mut registry,
            "estrange_sessions_completed_total",
            "Total number of completed creative sessions",
        ) {
            Ok(x) => x,
            Err(e) => {
                return Err(e);
            },
        };
        proof {
            assert(registered(registry) =~= n.take(5));
        }
        let search_queries = match registered_counter(
            &mut registry,
            "estrange_search_queries_total",
            "Total number of excavate/search queries",
        ) {
            Ok(x) => x,
            Err(e) => {
                return Err(e);
            },
        };
        proof {
            assert(registered(registry) =~= n.take(6));
        }
        let archive_exports = match registered_counter(
            &mut registry,
            "estrange_archive_exports_total",
            "Total number of journey exports",
        ) {
            Ok(x) => x,
            Err(e) => {
                return Err(e);
            },
        };
        proof {
            assert(registered(registry) =~= n.take(7));
        }
        let current_streak = match registered_gauge(
            &mut registry,
            "estrange_current_streak_days",
            "Current consecutive days of creative disruption",
        ) {
            Ok(x) => x,
            Err(e) => {
                return Err(e);
            },
        };
        proof {
            assert(registered(registry) =~= n.take(8));
        }
        let total_entries = match registered_gauge(
            &mut registry,
            "estrange_total_entries",
            "Total number of creative entries in database",
        ) {
            Ok(x) => x,
            Err(e) => {
                return Err(e);
            },
        };
        proof {
            assert(registered(registry) =~= n.take(9));
        }
        let response_word_count = match registered_histogram(
            &mut registry,
            "estrange_response_words",
            "Word count distribution of responses",
            &words,
        ) {
            Ok(x) => x,
            Err(e) => {
                return Err(e);
            },
        };
        proof {
            assert(registered(registry) =~= n.take(10));
        }
        let response_duration_seconds = match registered_histogram(
            &mut registry,
            "estrange_response_duration_seconds",
            "Time spent writing responses",
            &durations,
        ) {
            Ok(x) => x,
            Err(e) => {
                return Err(e);
            },
        };
        proof {
            assert(registered(registry) =~= n.take(11));
        }
        let session_duration_seconds = match registered_histogram(
            &mut registry,
            "estrange_session_duration_seconds",
            "Duration of creative sessions",
            &durations,
        ) {
            Ok(x) => x,
            Err(e) => {
                return Err(e);
            },
        };
        proof {
            assert(registered(registry) =~= n.take(12));
        }
        let command_usage = match registered_labeled(
            &mut registry,
            "estrange_command_usage_total",
            "Usage count by command",
            "command",
        ) {
            Ok(x) => x,
            Err(e) => {
                return Err(e);
            },
        };
        proof {
            assert(registered(registry) =~= n.take(13));
        }
        proof {
            assert(n.take(13) =~= n);
        }
        Ok(
            EstrangeMetrics {
                registry,
                prompts_generated,
                prompts_manual,
                responses_completed,
                responses_abandoned,
                session_completed,
                search_queries,
                archive_exports,
                current_streak,
                total_entries,
                response_word_count,
                response_duration_seconds,
                session_duration_seconds,
                command_usage,
            },
        )
    }

    /// Counts one generated prompt. The counter counts prompts: the length of
    /// the prompt, `length`, adds nothing to it.
    pub fn prompt_generated(&mut self, length: usize)
        requires
            old(self).wf(),
        ensures
            final(self).wf(),
            final(self)@ == (MetricsView {
                prompts_generated: grown(old(self)@.prompts_generated),
                ..old(self)@
            }),
    {
        counter_inc(&mut self.prompts_generated);
    }

    /// Counts one manually entered prompt. The counter counts prompts: the
    /// length of the prompt, `length`, adds nothing to it.
    pub fn prompt_manual(&mut self, length: usize)
        requires
            old(self).wf(),
        ensures
            final(self).wf(),
            final(self)@ == (MetricsView {
                prompts_manual: grown(old(self)@.prompts_manual),
                ..old(self)@
            }),
    {
        counter_inc(&mut self.prompts_manual);
    }

    /// Counts a completed response and records its length in words and the
    /// seconds it took.
    pub fn response_completed(&mut self, word_count: usize, duration_secs: u64)
        requires
            old(self).wf(),
        ensures
            final(self).wf(),
            final(self)@ == after_response(old(self)@, word_count as u64, duration_secs),
    {
        counter_inc(&mut self.responses_completed);
        observe(&mut self.response_word_count, clamp(word_count as u64));
        observe(&mut self.response_duration_seconds, clamp(duration_secs));
    }

    /// Counts a session and records its length in seconds.
    pub fn session_completed(&mut self, total_session_secs: u64)
        requires
            old(self).wf(),
        ensures
            final(self).wf(),
            final(self)@ == after_session(old(self)@, total_session_secs),
    {
        counter_inc(&mut self.session_completed);
        observe(&mut self.session_duration_seconds, clamp(total_session_secs));
    }

    /// Counts an abandoned response.
    pub fn response_abandoned(&mut self)
        requires
            old(self).wf(),
        ensures
            final(self).wf(),
            final(self)@ == after_abandon(old(self)@),
    {
        counter_inc(&mut self.responses_abandoned);
    }

    /// Counts one use of the command `command`.
    pub fn command_used(&mut self, command: &str)
        requires
            old(self).wf(),
        ensures
            final(self).wf(),
            used_once(old(self)@, final(self)@, command@),
    {
        labeled_inc(&mut self.command_usage, command);
    }

    /// Counts a search.
    pub fn search_performed(&mut self)
        requires
            old(self).wf(),
        ensures
            final(self).wf(),
            final(self)@ == (MetricsView {
                search_queries: grown(old(self)@.search_queries),
                ..old(self)@
            }),
    {
        counter_inc(&mut self.search_queries);
    }

    /// Counts an export of the journal.
    pub fn archive_exported(&mut self)
        requires
            old(self).wf(),
        ensures
            final(self).wf(),
            final(self)@ == (MetricsView {
                archive_exports: grown(old(self)@.archive_exports),
                ..old(self)@
            }),
    {
        counter_inc(&mut self.archive_exports);
    }

    /// Sets the streak gauge.
    pub fn update_streak(&mut self, days: i64)
        requires
            old(self).wf(),
        ensures
            final(self).wf(),
            final(self)@ == (MetricsView { current_streak: days, ..old(self)@ }),
    {
        gauge_set(&mut self.current_streak, days);
    }

    /// Sets the gauge of the number of entries.
    pub fn update_total_entries(&mut self, count: i64)
        requires
            old(self).wf(),
        ensures
            final(self).wf(),
            final(self)@ == (MetricsView { total_entries: count, ..old(self)@ }),
    {
        gauge_set(&mut self.total_entries, count);
    }

    /// Reads out every instrument as it stands: one family for each, but for
    /// the counter of uses by command while no command was used, in
    /// ascending order of name. The metrics are left as they are.
    pub fn export_metrics(&self) -> (r: Vec<prometheus::proto::MetricFamily>)
        requires
            self.wf(),
        ensures
            readout_of(self@, r@),
    {
        let mut counters: Vec<&EventCounter> = Vec::new();
        counters.push(&self.prompts_generated);
        counters.push(&self.prompts_manual);
        counters.push(&self.responses_completed);
        counters.push(&self.responses_abandoned);
        counters.push(&self.session_completed);
        counters.push(&self.search_queries);
        counters.push(&self.archive_exports);
        let mut gauges: Vec<&LevelGauge> = Vec::new();
        gauges.push(&self.current_streak);
        gauges.push(&self.total_entries);
        let mut histograms: Vec<&prometheus::Histogram> = Vec::new();
        histograms.push(&self.response_word_count);
        histograms.push(&self.response_duration_seconds);
        histograms.push(&self.session_duration_seconds);
        let mut labeled: Vec<&LabeledCounter> = Vec::new();
        labeled.push(&self.command_usage);
        proof {
            assert(given_names(counters@, gauges@, histograms@, labeled@) =~= instrument_names());
        }
        let r = gather(&self.registry, &counters, &gauges, &histograms, &labeled);
        proof {
            reveal_with_fuel(touched_count, 2);
            assert(labeled@.drop_last() =~= Seq::<&LabeledCounter>::empty());
            assert(has_counter(r@, *counters@[0]));
            assert(has_counter(r@, *counters@[1]));
            assert(has_counter(r@, *counters@[2]));
            assert(has_counter(r@, *counters@[3]));
            assert(has_counter(r@, *counters@[4]));
            assert(has_counter(r@, *counters@[5]));
            assert(has_counter(r@, *counters@[6]));
            assert(has_gauge(r@, *gauges@[0]));
            assert(has_gauge(r@, *gauges@[1]));
            assert(has_histogram(r@, *histograms@[0]));
            assert(has_histogram(r@, *histograms@[1]));
            assert(has_histogram(r@, *histograms@[2]));
            if labeled_touched(self.command_usage) {
                assert(has_labeled(r@, *labeled@[0]));
            }
        }
        r
    }
}

/// The place of the metrics of a process: empty until they are set up, and
/// set up at most once.
pub struct MetricsSlot {
    registry: Option<EstrangeMetrics>,
}

impl MetricsSlot {
    /// The metrics in the slot, if it is filled.
    pub closed spec fn state(&self) -> Option<MetricsView> {
        match self.registry {
            Some(m) => Some(m@),
            None => None,
        }
    }

    /// The invariant: metrics in the slot are valid.
    pub closed spec fn wf(&self) -> bool {
        match self.registry {
            Some(m) => m.wf(),
            None => true,
        }
    }

    /// An empty slot.
    pub fn new() -> (slot: MetricsSlot)
        ensures
            slot.wf(),
            slot.state() is None,
    {
        MetricsSlot { registry: None }
    }

    /// Puts the instruments `made` in an empty slot, where there are any. A
    /// filled slot refuses them and stays as it is; without instruments an
    /// empty slot stays empty and the failure is handed on.
    pub fn install(&mut self, made: Result<EstrangeMetrics, MetricsError>) -> (r: Result<
        (),
        MetricsError,
    >)
        requires
            old(self).wf(),
            made matches Ok(m) ==> m.wf(),
        ensures
            final(self).wf(),
            match (old(self).state(), made) {
                (Some(m), _) => r == Err::<(), MetricsError>(MetricsError::AlreadyInitialized)
                    && final(self).state() == Some(m),
                (None, Ok(m)) => r is Ok && final(self).state() == Some(m@),
                (None, Err(e)) => r == Err::<(), MetricsError>(e) && final(self).state() is None,
            },
    {
        if self.registry.is_some() {
            return Err(MetricsError::AlreadyInitialized);
        }
        match made {
            Ok(m) => {
                self.registry = Some(m);
                Ok(())
            },
            Err(e) => Err(e),
        }
    }
}

/// Sets up the metrics of the process. A second call fails and changes
/// nothing. The first call succeeds exactly when the metrics library accepts
/// every instrument; the slot then holds fresh metrics.
pub fn init_metrics(slot: &mut MetricsSlot) -> (r: Result<(), MetricsError>)
    requires
        old(slot).wf(),
    ensures
        final(slot).wf(),
        old(slot).state() is Some <==> r == Err::<(), MetricsError>(
            MetricsError::AlreadyInitialized,
        ),
        old(slot).state() is None ==> (r is Ok <==> setup_accepted()),
        match r {
            Ok(_) => final(slot).state() matches Some(m) && is_fresh(m),
            Err(e) => final(slot).state() == old(slot).state() && (e == MetricsError::Setup
                || e == MetricsError::AlreadyInitialized),
        },
{
    if slot.registry.is_some() {
        return Err(MetricsError::AlreadyInitialized);
    }
    let made = EstrangeMetrics::new();
    slot.install(made)
}

/// The metrics of the process, or `None` before they are set up.
pub fn metrics(slot: &MetricsSlot) -> (r: Option<&EstrangeMetrics>)
    requires
        slot.wf(),
    ensures
        match r {
            Some(m) => m.wf() && slot.state() == Some(m@),
            None => slot.state() is None,
        },
{
    slot.registry.as_ref()
}

/// The metrics of the process for counting, or `None` before they are set
/// up.
pub fn metrics_mut(slot: &mut MetricsSlot) -> (r: Option<&mut EstrangeMetrics>)
    requires
        old(slot).wf(),
    ensures
        match r {
            Some(m) => {
                &&& m.wf()
                &&& old(slot).state() == Some(m@)
                &&& final(slot).state() == Some(final(m)@)
                &&& final(m).wf() ==> final(slot).wf()
            },
            None => old(slot).state() is None && final(slot).state() is None && final(slot).wf(),
        },
{
    slot.registry.as_mut()
}

} // verus!
