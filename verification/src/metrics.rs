//! Metric counters and gauges, their export as metric families, and the
//! Prometheus text rendering of an export.
use vstd::hash_map::StringHashMap;
use vstd::prelude::*;
use vstd::string::*;

use crate::text::{signed_decimal, signed_text};

verus! {

// ----------------------------------------------------------------------------
// Counter
// ----------------------------------------------------------------------------

/// Counts per label, remembering the order in which labels first appeared.
pub struct Counter {
    values: StringHashMap<u64>,
    labels: Vec<String>,
}

/// The count of `label` in `m`, zero when the label was never counted.
pub open spec fn count_of(m: Map<Seq<char>, u64>, label: Seq<char>) -> u64 {
    if m.contains_key(label) {
        m[label]
    } else {
        0
    }
}

/// The counts after adding `value` to the count of `label`.
pub open spec fn bumped(m: Map<Seq<char>, u64>, label: Seq<char>, value: u64) -> Map<
    Seq<char>,
    u64,
> {
    m.insert(label, (count_of(m, label) + value) as u64)
}

/// The label order after counting `label`: a new label goes last.
pub open spec fn order_after(order: Seq<Seq<char>>, counts: Map<Seq<char>, u64>, label: Seq<char>) -> Seq<
    Seq<char>,
> {
    if counts.contains_key(label) {
        order
    } else {
        order.push(label)
    }
}

impl View for Counter {
    type V = Map<Seq<char>, u64>;

    closed spec fn view(&self) -> Map<Seq<char>, u64> {
        self.values@
    }
}

impl Counter {
    /// The labels in the order in which they were first counted.
    pub closed spec fn order(&self) -> Seq<Seq<char>> {
        self.labels@.map_values(|s: String| s@)
    }

    /// The order lists every counted label exactly once.
    pub closed spec fn wf(&self) -> bool {
        &&& self.order().no_duplicates()
        &&& forall|l: Seq<char>| #[trigger] self@.contains_key(l) <==> self.order().contains(l)
    }

    /// A counter with nothing counted.
    pub fn new() -> (c: Counter)
        ensures
            c.wf(),
            c@ == Map::<Seq<char>, u64>::empty(),
            c.order() == Seq::<Seq<char>>::empty(),
    {
        let c = Counter { values: StringHashMap::new(), labels: Vec::new() };
        assert(c.order() =~= Seq::<Seq<char>>::empty());
        c
    }

    /// Adds `value` to the count of `label`.
    pub fn inc_by(&mut self, label: &str, value: u64)
        requires
            old(self).wf(),
            count_of(old(self)@, label@) + value <= u64::MAX,
        ensures
            final(self).wf(),
            final(self)@ == bumped(old(self)@, label@, value),
            final(self).order() == order_after(old(self).order(), old(self)@, label@),
    {
        match self.values.get(label) {
            Some(current) => {
                let next: u64 = *current + value;
                self.values.insert(label.to_owned(), next);
            },
            None => {
                self.values.insert(label.to_owned(), value);
                let ghost before = self.labels@;
                self.labels.push(label.to_owned());
                proof {
                    assert(self.order() =~= old(self).order().push(label@));
                    assert(!old(self).order().contains(label@));
                    assert forall|l: Seq<char>| #[trigger]
                        self@.contains_key(l) <==> self.order().contains(l) by {
                        if self.order().contains(l) && l != label@ {
                            let j = choose|j: int|
                                0 <= j < self.order().len() && self.order()[j] == l;
                            assert(old(self).order()[j] == l);
                        }
                        if old(self).order().contains(l) {
                            let j = choose|j: int|
                                0 <= j < old(self).order().len() && old(self).order()[j] == l;
                            assert(self.order()[j] == l);
                        }
                        if l == label@ {
                            assert(self.order()[old(self).order().len() as int] == l);
                        }
                    }
                }
            },
        }
    }

    /// Adds one to the count of the empty label.
    pub fn inc(&mut self)
        requires
            old(self).wf(),
            count_of(old(self)@, Seq::<char>::empty()) < u64::MAX,
        ensures
            final(self).wf(),
            final(self)@ == bumped(old(self)@, Seq::<char>::empty(), 1),
            final(self).order() == order_after(old(self).order(), old(self)@, Seq::<char>::empty()),
    {
        let empty = "";
        proof {
            reveal_strlit("");
            assert(empty@ =~= Seq::<char>::empty());
        }
        self.inc_by(empty, 1);
    }

    /// The count of `label`.
    pub fn get(&self, label: &str) -> (n: u64)
        ensures
            n == count_of(self@, label@),
    {
        match self.values.get(label) {
            Some(n) => *n,
            None => 0,
        }
    }

    /// Whether nothing was counted.
    pub fn is_empty(&self) -> (b: bool)
        ensures
            b == (self@.len() == 0),
    {
        self.values.len() == 0
    }
}

// ----------------------------------------------------------------------------
// Gauge
// ----------------------------------------------------------------------------

/// A value that goes up and down.
pub struct Gauge {
    value: i64,
}

impl View for Gauge {
    type V = i64;

    closed spec fn view(&self) -> i64 {
        self.value
    }
}

impl Gauge {
    /// A gauge at zero.
    pub fn new() -> (g: Gauge)
        ensures
            g@ == 0,
    {
        Gauge { value: 0 }
    }

    /// Raises the gauge by one.
    pub fn inc(&mut self)
        requires
            old(self)@ < i64::MAX,
        ensures
            final(self)@ == old(self)@ + 1,
    {
        self.value = self.value + 1;
    }

    /// Lowers the gauge by one.
    pub fn dec(&mut self)
        requires
            old(self)@ > i64::MIN,
        ensures
            final(self)@ == old(self)@ - 1,
    {
        self.value = self.value - 1;
    }

    /// Sets the gauge.
    pub fn set(&mut self, value: i64)
        ensures
            final(self)@ == value,
    {
        self.value = value;
    }

    /// The gauge's value.
    pub fn get(&self) -> (v: i64)
        ensures
            v == self@,
    {
        self.value
    }
}

/// Raising a gauge and lowering it again leaves it as it was: a gauge after `inc` and then
/// `dec` is the gauge it started as.
pub proof fn lemma_gauge_inc_dec(start: Gauge, raised: Gauge, lowered: Gauge)
    requires
        start@ < i64::MAX,
        raised@ == start@ + 1,
        lowered@ == raised@ - 1,
    ensures
        lowered == start,
{
}

// ----------------------------------------------------------------------------
// Laws of the counter
// ----------------------------------------------------------------------------

/// What a well-formed counter's order holds: every counted label exactly once, so there
/// are as many labels in the order as there are counts.
pub proof fn lemma_order_lists_labels(c: &Counter)
    requires
        c.wf(),
    ensures
        c.order().no_duplicates(),
        forall|l: Seq<char>| #[trigger] c@.contains_key(l) <==> c.order().contains(l),
        c@.dom() == c.order().to_set(),
        c@.len() == c.order().len(),
{
    assert(c@.dom() =~= c.order().to_set());
    c.order().unique_seq_to_set();
}

/// The counts after the increments `incs` (label and amount), made in turn from `m`, as
/// `inc_by` makes them.
pub open spec fn counted(m: Map<Seq<char>, u64>, incs: Seq<(Seq<char>, u64)>) -> Map<
    Seq<char>,
    u64,
>
    decreases incs.len(),
{
    if incs.len() == 0 {
        m
    } else {
        bumped(counted(m, incs.drop_last()), incs.last().0, incs.last().1)
    }
}

/// The sum of the amounts of the increments of `label` among `incs`.
pub open spec fn increments_of(incs: Seq<(Seq<char>, u64)>, label: Seq<char>) -> nat
    decreases incs.len(),
{
    if incs.len() == 0 {
        0
    } else {
        increments_of(incs.drop_last(), label) + (if incs.last().0 == label {
            incs.last().1 as nat
        } else {
            0nat
        })
    }
}

/// The count of a label is the sum of its increments, when no label's sum overflows.
pub proof fn lemma_count_is_sum(incs: Seq<(Seq<char>, u64)>)
    requires
        forall|l: Seq<char>| #[trigger] increments_of(incs, l) <= u64::MAX,
    ensures
        forall|l: Seq<char>|
            #[trigger] count_of(counted(Map::empty(), incs), l) == increments_of(incs, l),
    decreases incs.len(),
{
    if incs.len() > 0 {
        let rest = incs.drop_last();
        assert forall|l: Seq<char>| #[trigger] increments_of(rest, l) <= u64::MAX by {
            assert(increments_of(rest, l) <= increments_of(incs, l));
        }
        lemma_count_is_sum(rest);
        let x = incs.last();
        assert(increments_of(incs, x.0) <= u64::MAX);
        assert forall|l: Seq<char>|
            #[trigger] count_of(counted(Map::empty(), incs), l) == increments_of(incs, l) by {
            assert(count_of(counted(Map::empty(), rest), l) == increments_of(rest, l));
            assert(count_of(counted(Map::empty(), rest), x.0) == increments_of(rest, x.0));
        }
    }
}

/// Taking out one increment takes its amount off its label's sum.
proof fn lemma_increments_remove(s: Seq<(Seq<char>, u64)>, j: int, label: Seq<char>)
    requires
        0 <= j < s.len(),
    ensures
        increments_of(s, label) == increments_of(s.remove(j), label) + (if s[j].0 == label {
            s[j].1 as nat
        } else {
            0nat
        }),
    decreases s.len(),
{
    if j == s.len() - 1 {
        assert(s.remove(j) =~= s.drop_last());
    } else {
        let r = s.remove(j);
        assert(r.drop_last() =~= s.drop_last().remove(j));
        assert(r.last() == s.last());
        lemma_increments_remove(s.drop_last(), j, label);
    }
}

/// The sum of a label's increments does not depend on the order of the increments.
pub proof fn lemma_increments_any_order(
    s1: Seq<(Seq<char>, u64)>,
    s2: Seq<(Seq<char>, u64)>,
    label: Seq<char>,
)
    requires
        s1.to_multiset() == s2.to_multiset(),
    ensures
        increments_of(s1, label) == increments_of(s2, label),
    decreases s1.len(),
{
    broadcast use vstd::seq_lib::group_to_multiset_ensures;

    if s1.len() == 0 {
        assert(s2.to_multiset().len() == 0);
        assert(s2.len() == 0);
    } else {
        let n = s1.len() - 1;
        let x = s1[n];
        assert(s1.contains(x));
        assert(s1.to_multiset().count(x) > 0);
        assert(s2.contains(x));
        let j = choose|j: int| 0 <= j < s2.len() && s2[j] == x;
        assert(s1.remove(n) =~= s1.drop_last());
        assert(s1.remove(n).to_multiset() == s1.to_multiset().remove(x));
        assert(s2.remove(j).to_multiset() == s2.to_multiset().remove(x));
        lemma_increments_any_order(s1.drop_last(), s2.remove(j), label);
        lemma_increments_remove(s2, j, label);
    }
}

/// A counter's counts are the sums of its increments, whatever the order in which they
/// were made: two runs of the same increments in any two orders give every label the
/// same count.
pub proof fn lemma_counts_ignore_order(s1: Seq<(Seq<char>, u64)>, s2: Seq<(Seq<char>, u64)>)
    requires
        s1.to_multiset() == s2.to_multiset(),
        forall|l: Seq<char>| #[trigger] increments_of(s1, l) <= u64::MAX,
    ensures
        forall|l: Seq<char>|
            #[trigger] count_of(counted(Map::empty(), s1), l) == increments_of(s1, l)
                && count_of(counted(Map::empty(), s2), l) == count_of(counted(Map::empty(), s1), l),
{
    assert forall|l: Seq<char>| #[trigger] increments_of(s2, l) <= u64::MAX by {
        lemma_increments_any_order(s1, s2, l);
    }
    lemma_count_is_sum(s1);
    lemma_count_is_sum(s2);
    assert forall|l: Seq<char>|
        #[trigger] count_of(counted(Map::empty(), s2), l) == count_of(counted(Map::empty(), s1), l) by {
        lemma_increments_any_order(s1, s2, l);
    }
}

// ----------------------------------------------------------------------------
// Request timer
// ----------------------------------------------------------------------------

#[verifier::external_type_specification]
#[verifier::external_body]
pub struct ExStdInstant(std::time::Instant);

/// Calls `std::time::Instant::now`. Nothing is claimed of the instant.
#[verifier::external_body]
fn instant_now() -> std::time::Instant {
    std::time::Instant::now()
}

/// Calls `Instant::elapsed`. The duration depends on the clock; nothing is claimed.
#[verifier::external_body]
fn instant_elapsed(start: &std::time::Instant) -> std::time::Duration {
    start.elapsed()
}

/// Measures how long a request takes.
pub struct RequestTimer {
    start: std::time::Instant,
}

impl RequestTimer {
    /// Starts timing now.
    pub fn new() -> (t: RequestTimer) {
        RequestTimer { start: instant_now() }
    }

    /// The time since the timer started.
    pub fn elapsed(&self) -> std::time::Duration {
        instant_elapsed(&self.start)
    }
}

// ----------------------------------------------------------------------------
// Labels
// ----------------------------------------------------------------------------

/// The index of the first `c` in `s`, when `s` holds one.
pub open spec fn first_index(s: Seq<char>, c: char) -> int {
    choose|i: int| 0 <= i < s.len() && s[i] == c && forall|j: int| 0 <= j < i ==> s[j] != c
}

/// The label under which a request is counted: its method and path joined by `:`.
pub open spec fn request_label_text(method: Seq<char>, path: Seq<char>) -> Seq<char> {
    method + seq![':'] + path
}

/// The label pairs exported for a counter label: none for the empty label; a `method`
/// and a `path` when the label holds a `:` (split at the first one); a `type` otherwise.
pub open spec fn label_pairs(label: Seq<char>) -> Seq<(Seq<char>, Seq<char>)> {
    if label.len() == 0 {
        seq![]
    } else if label.contains(':') {
        let i = first_index(label, ':');
        seq![("method"@, label.subrange(0, i)), ("path"@, label.subrange(i + 1, label.len() as int))]
    } else {
        seq![("type"@, label)]
    }
}

/// The label pairs exported for a histogram label: a `table`, unless it is empty.
pub open spec fn table_pairs(label: Seq<char>) -> Seq<(Seq<char>, Seq<char>)> {
    if label.len() == 0 {
        seq![]
    } else {
        seq![("table"@, label)]
    }
}

/// The label of a request with the given method and path.
pub fn request_label(method: &str, path: &str) -> (label: String)
    ensures
        label@ == request_label_text(method@, path@),
{
    proof {
        reveal_strlit(":");
    }
    let mut label = method.to_owned();
    label.append(":");
    label.append(path);
    label
}

/// The index of the first `c` in `s`, if any.
fn find_char(s: &str, c: char) -> (r: Option<usize>)
    ensures
        match r {
            Some(i) => i < s@.len() && s@[i as int] == c && forall|j: int|
                0 <= j < i ==> s@[j] != c,
            None => !s@.contains(c),
        },
{
    let n = s.unicode_len();
    let mut i: usize = 0;
    while i < n
        invariant
            n == s@.len(),
            i <= n,
            forall|j: int| 0 <= j < i ==> s@[j] != c,
        decreases n - i,
    {
        if s.get_char(i) == c {
            return Some(i);
        }
        i = i + 1;
    }
    None
}

/// One exported label: its name and value.
pub type LabelPair = (String, String);

/// The view of a list of label pairs.
pub open spec fn pairs_view(v: Seq<LabelPair>) -> Seq<(Seq<char>, Seq<char>)> {
    v.map_values(|p: LabelPair| (p.0@, p.1@))
}

fn pair(name: &str, value: String) -> (p: LabelPair)
    ensures
        p.0@ == name@,
        p.1@ == value@,
{
    (name.to_owned(), value)
}

/// The label pairs exported for a counter label.
pub fn counter_label_pairs(label: &str) -> (r: Vec<LabelPair>)
    ensures
        pairs_view(r@) == label_pairs(label@),
{
    let n = label.unicode_len();
    if n == 0 {
        let r: Vec<LabelPair> = Vec::new();
        assert(pairs_view(r@) =~= label_pairs(label@));
        return r;
    }
    match find_char(label, ':') {
        Some(i) => {
            let first = pair("method", label.substring_char(0, i).to_owned());
            let second = pair("path", label.substring_char(i + 1, n).to_owned());
            let mut r: Vec<LabelPair> = Vec::new();
            r.push(first);
            r.push(second);
            proof {
                assert(label@.contains(':'));
                let k = first_index(label@, ':');
                assert(k == i as int) by {
                    if k < i {
                        assert(label@[k] != ':');
                    }
                    if k > i {
                        assert(label@[i as int] != ':');
                    }
                }
                assert(pairs_view(r@) =~= label_pairs(label@));
            }
            r
        },
        None => {
            let mut r: Vec<LabelPair> = Vec::new();
            r.push(pair("type", label.to_owned()));
            assert(pairs_view(r@) =~= label_pairs(label@));
            r
        },
    }
}

/// The label pairs exported for a histogram label.
pub fn histogram_label_pairs(label: &str) -> (r: Vec<LabelPair>)
    ensures
        pairs_view(r@) == table_pairs(label@),
{
    let mut r: Vec<LabelPair> = Vec::new();
    if label.unicode_len() != 0 {
        r.push(pair("table", label.to_owned()));
    }
    assert(pairs_view(r@) =~= table_pairs(label@));
    r
}

/// A request label splits back into the method and the path it was made of, when the
/// method holds no `:`.
pub proof fn lemma_request_label_splits(method: Seq<char>, path: Seq<char>)
    requires
        !method.contains(':'),
    ensures
        label_pairs(request_label_text(method, path)) == seq![
            ("method"@, method),
            ("path"@, path),
        ],
{
    let l = request_label_text(method, path);
    assert(l[method.len() as int] == ':');
    assert(l.contains(':'));
    let i = first_index(l, ':');
    assert(i == method.len()) by {
        if i < method.len() {
            assert(l[i] == method[i]);
        }
        if i > method.len() {
            assert(l[method.len() as int] != ':');
        }
    }
    assert(l.subrange(0, i) =~= method);
    assert(l.subrange(i + 1, l.len() as int) =~= path);
}

// ----------------------------------------------------------------------------
// Export
// ----------------------------------------------------------------------------

/// One exported sample: its labels and its value.
pub struct Metric {
    pub labels: Vec<LabelPair>,
    pub value: i128,
}

/// The exported samples of one metric, with its name and description.
pub struct MetricFamily {
    pub name: String,
    pub help: String,
    pub metrics: Vec<Metric>,
}

/// The abstract content of a sample.
pub struct MetricView {
    pub labels: Seq<(Seq<char>, Seq<char>)>,
    pub value: int,
}

/// The abstract content of a family.
pub struct MetricFamilyView {
    pub name: Seq<char>,
    pub help: Seq<char>,
    pub metrics: Seq<MetricView>,
}

impl View for Metric {
    type V = MetricView;

    open spec fn view(&self) -> MetricView {
        MetricView { labels: pairs_view(self.labels@), value: self.value as int }
    }
}

impl View for MetricFamily {
    type V = MetricFamilyView;

    open spec fn view(&self) -> MetricFamilyView {
        MetricFamilyView {
            name: self.name@,
            help: self.help@,
            metrics: self.metrics@.map_values(|m: Metric| m@),
        }
    }
}

/// The view of a list of families.
pub open spec fn families_view(v: Seq<MetricFamily>) -> Seq<MetricFamilyView> {
    v.map_values(|f: MetricFamily| f@)
}

/// The samples of a counter, in label order, each labelled as `labels_for` says.
pub open spec fn counter_samples(
    order: Seq<Seq<char>>,
    counts: Map<Seq<char>, u64>,
    histogram: bool,
) -> Seq<MetricView> {
    order.map_values(
        |l: Seq<char>|
            MetricView {
                labels: if histogram {
                    table_pairs(l)
                } else {
                    label_pairs(l)
                },
                value: counts[l] as int,
            },
    )
}

/// The export of a counter: nothing when it is empty, else one family with a sample per
/// label.
pub open spec fn counter_export(
    name: Seq<char>,
    help: Seq<char>,
    order: Seq<Seq<char>>,
    counts: Map<Seq<char>, u64>,
    histogram: bool,
) -> Seq<MetricFamilyView> {
    if counts.len() == 0 {
        seq![]
    } else {
        seq![
            MetricFamilyView {
                name,
                help,
                metrics: counter_samples(order, counts, histogram),
            },
        ]
    }
}

fn export_samples(counter: &Counter, histogram: bool) -> (r: Vec<Metric>)
    requires
        counter.wf(),
    ensures
        r@.map_values(|m: Metric| m@) == counter_samples(counter.order(), counter@, histogram),
{
    let mut r: Vec<Metric> = Vec::new();
    let mut i: usize = 0;
    while i < counter.labels.len()
        invariant
            counter.wf(),
            i <= counter.labels@.len(),
            r@.map_values(|m: Metric| m@) == counter_samples(
                counter.order().subrange(0, i as int),
                counter@,
                histogram,
            ),
        decreases counter.labels@.len() - i,
    {
        let label = counter.labels[i].as_str();
        let value = counter.get(label);
        let labels = if histogram {
            histogram_label_pairs(label)
        } else {
            counter_label_pairs(label)
        };
        let ghost l = counter.order()[i as int];
        proof {
            assert(l == counter.labels@[i as int]@);
            assert(counter.order().contains(l));
        }
        let ghost prev = r@;
        let m = Metric { labels, value: value as i128 };
        assert(m@ == MetricView {
            labels: if histogram {
                table_pairs(l)
            } else {
                label_pairs(l)
            },
            value: counter@[l] as int,
        });
        r.push(m);
        proof {
            assert(counter.order().subrange(0, i + 1) =~= counter.order().subrange(0, i as int).push(l));
            assert(r@.map_values(|m: Metric| m@) =~= prev.map_values(|m: Metric| m@).push(m@));
        }
        i = i + 1;
        assert(r@.map_values(|m: Metric| m@) =~= counter_samples(
            counter.order().subrange(0, i as int),
            counter@,
            histogram,
        ));
    }
    assert(counter.order().subrange(0, i as int) =~= counter.order());
    r
}

fn family(name: &str, help: &str, metrics: Vec<Metric>) -> (f: MetricFamily)
    ensures
        f.name@ == name@,
        f.help@ == help@,
        f.metrics == metrics,
{
    MetricFamily { name: name.to_owned(), help: help.to_owned(), metrics }
}

/// The export of a counter: empty when nothing was counted, else one family with a
/// sample per label (in the order the labels first appeared) whose label pairs come from
/// splitting the label.
pub fn export_counter(counter: &Counter, name: &str, help: &str) -> (r: Vec<MetricFamily>)
    requires
        counter.wf(),
    ensures
        families_view(r@) == counter_export(name@, help@, counter.order(), counter@, false),
{
    let mut r: Vec<MetricFamily> = Vec::new();
    if counter.is_empty() {
        assert(families_view(r@) =~= counter_export(name@, help@, counter.order(), counter@, false));
        return r;
    }
    let samples = export_samples(counter, false);
    r.push(family(name, help, samples));
    assert(families_view(r@) =~= counter_export(name@, help@, counter.order(), counter@, false));
    r
}

/// The export of a histogram, of which only the number of observations per label is
/// reported: empty when nothing was observed, else one family with a sample per label
/// labelled as a table.
pub fn export_histogram(counts: &Counter, name: &str, help: &str) -> (r: Vec<MetricFamily>)
    requires
        counts.wf(),
    ensures
        families_view(r@) == counter_export(name@, help@, counts.order(), counts@, true),
{
    let mut r: Vec<MetricFamily> = Vec::new();
    if counts.is_empty() {
        assert(families_view(r@) =~= counter_export(name@, help@, counts.order(), counts@, true));
        return r;
    }
    let samples = export_samples(counts, true);
    r.push(family(name, help, samples));
    assert(families_view(r@) =~= counter_export(name@, help@, counts.order(), counts@, true));
    r
}

/// The export of a gauge reading `value`: one family with one unlabelled sample.
pub open spec fn gauge_export(name: Seq<char>, help: Seq<char>, value: i64) -> Seq<
    MetricFamilyView,
> {
    seq![
        MetricFamilyView {
            name,
            help,
            metrics: seq![MetricView { labels: seq![], value: value as int }],
        },
    ]
}

/// The export of a gauge: one family with one unlabelled sample.
pub fn export_gauge(gauge: &Gauge, name: &str, help: &str) -> (r: Vec<MetricFamily>)
    ensures
        families_view(r@) == gauge_export(name@, help@, gauge@),
{
    let mut metrics: Vec<Metric> = Vec::new();
    metrics.push(Metric { labels: Vec::new(), value: gauge.get() as i128 });
    let mut r: Vec<MetricFamily> = Vec::new();
    r.push(family(name, help, metrics));
    proof {
        assert(pairs_view(r@[0].metrics@[0].labels@) =~= seq![]);
        assert(r@[0].metrics@.map_values(|m: Metric| m@) =~= seq![
            MetricView { labels: seq![], value: gauge@ as int },
        ]);
    }
    assert(families_view(r@) =~= seq![
        MetricFamilyView {
            name: name@,
            help: help@,
            metrics: seq![MetricView { labels: seq![], value: gauge@ as int }],
        },
    ]);
    r
}

/// An export of a counter has exactly one sample for each label counted, carrying that
/// label's count: nothing at all when nothing was counted, else one family whose samples
/// follow the counter's label order, which lists every counted label once.
pub proof fn lemma_counter_export_complete(
    c: &Counter,
    name: Seq<char>,
    help: Seq<char>,
    histogram: bool,
)
    requires
        c.wf(),
    ensures
        counter_export(name, help, c.order(), c@, histogram).len() == 0 <==> c@.len() == 0,
        c@.len() > 0 ==> {
            let e = counter_export(name, help, c.order(), c@, histogram);
            &&& e.len() == 1
            &&& e[0].name == name
            &&& e[0].help == help
            &&& e[0].metrics.len() == c@.len()
            &&& forall|l: Seq<char>|
                #[trigger] c@.contains_key(l) ==> exists|i: int|
                    0 <= i < c@.len() && c.order()[i] == l && e[0].metrics[i] == MetricView {
                        labels: if histogram {
                            table_pairs(l)
                        } else {
                            label_pairs(l)
                        },
                        value: c@[l] as int,
                    }
            &&& forall|i: int|
                0 <= i < c@.len() ==> #[trigger] c@.contains_key(c.order()[i])
            &&& forall|i: int, j: int|
                0 <= i < c@.len() && 0 <= j < c@.len() && i != j ==> c.order()[i] != c.order()[j]
        },
{
    lemma_order_lists_labels(c);
    if c@.len() > 0 {
        let e = counter_export(name, help, c.order(), c@, histogram);
        assert forall|l: Seq<char>| #[trigger] c@.contains_key(l) implies exists|i: int|
            0 <= i < c@.len() && c.order()[i] == l && e[0].metrics[i] == MetricView {
                labels: if histogram {
                    table_pairs(l)
                } else {
                    label_pairs(l)
                },
                value: c@[l] as int,
            } by {
            assert(c.order().contains(l));
            let i = choose|i: int| 0 <= i < c.order().len() && c.order()[i] == l;
            assert(e[0].metrics[i] == MetricView {
                labels: if histogram {
                    table_pairs(l)
                } else {
                    label_pairs(l)
                },
                value: c@[l] as int,
            });
        }
        assert forall|i: int| 0 <= i < c@.len() implies #[trigger] c@.contains_key(c.order()[i]) by {
            assert(c.order().contains(c.order()[i]));
        }
    }
}

} // verus!
