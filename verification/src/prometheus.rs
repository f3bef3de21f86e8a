//! The Prometheus text rendering of an export of the server's metrics.
use vstd::prelude::*;
use vstd::string::*;

use crate::metrics::{
    counter_export, export_counter, export_gauge, export_histogram, families_view, gauge_export,
    pairs_view, Counter, Gauge, LabelPair, Metric, MetricFamily, MetricFamilyView, MetricView,
};
use crate::text::{signed_decimal, signed_text};

verus! {

/// How the samples of a family are written.
#[derive(Clone, Copy, PartialEq, Eq, Structural)]
pub enum LineStyle {
    /// `name {labels} value`
    Labelled,
    /// `name_sum {labels} value`, the name stripped of trailing `_total`s
    Sum,
    /// `name value`
    Plain,
}

/// The text `_total`.
pub open spec fn total_suffix() -> Seq<char> {
    seq!['_', 't', 'o', 't', 'a', 'l']
}

/// `name` with every trailing `_total` removed.
pub open spec fn trim_total(name: Seq<char>) -> Seq<char>
    decreases name.len(),
{
    if name.len() >= 6 && name.subrange(name.len() - 6, name.len() as int) == total_suffix() {
        trim_total(name.subrange(0, name.len() - 6))
    } else {
        name
    }
}

/// `name="value"`
pub open spec fn pair_text(p: (Seq<char>, Seq<char>)) -> Seq<char> {
    p.0 + seq!['=', '"'] + p.1 + seq!['"']
}

/// The pairs written one after another, separated by commas.
pub open spec fn joined_pairs(ls: Seq<(Seq<char>, Seq<char>)>) -> Seq<char>
    decreases ls.len(),
{
    if ls.len() == 0 {
        seq![]
    } else if ls.len() == 1 {
        pair_text(ls[0])
    } else {
        joined_pairs(ls.drop_last()) + seq![','] + pair_text(ls.last())
    }
}

/// The label block of a sample: nothing without labels, else the pairs in braces.
pub open spec fn labels_text(ls: Seq<(Seq<char>, Seq<char>)>) -> Seq<char> {
    if ls.len() == 0 {
        seq![]
    } else {
        seq!['{'] + joined_pairs(ls) + seq!['}']
    }
}

/// The line written for one sample of the family `name`.
pub open spec fn sample_line(style: LineStyle, name: Seq<char>, m: MetricView) -> Seq<char> {
    match style {
        LineStyle::Labelled => name + seq![' '] + labels_text(m.labels) + seq![' '] + signed_decimal(
            m.value,
        ) + seq!['\n'],
        LineStyle::Sum => trim_total(name) + seq!['_', 's', 'u', 'm', ' '] + labels_text(m.labels)
            + seq![' '] + signed_decimal(m.value) + seq!['\n'],
        LineStyle::Plain => name + seq![' '] + signed_decimal(m.value) + seq!['\n'],
    }
}

/// The lines of some samples of the family `name`.
pub open spec fn samples_text(style: LineStyle, name: Seq<char>, ms: Seq<MetricView>) -> Seq<char>
    decreases ms.len(),
{
    if ms.len() == 0 {
        seq![]
    } else {
        samples_text(style, name, ms.drop_last()) + sample_line(style, name, ms.last())
    }
}

/// The lines of some families.
pub open spec fn families_text(style: LineStyle, fs: Seq<MetricFamilyView>) -> Seq<char>
    decreases fs.len(),
{
    if fs.len() == 0 {
        seq![]
    } else {
        families_text(style, fs.drop_last()) + samples_text(style, fs.last().name, fs.last().metrics)
    }
}

/// The export of every metric the server keeps.
pub struct PrometheusMetrics {
    pub http_requests_total: Vec<MetricFamily>,
    pub http_request_duration_seconds: Vec<MetricFamily>,
    pub http_requests_in_flight: Vec<MetricFamily>,
    pub active_users: Vec<MetricFamily>,
    pub active_devices: Vec<MetricFamily>,
    pub active_sessions: Vec<MetricFamily>,
    pub license_validations_total: Vec<MetricFamily>,
    pub db_query_total: Vec<MetricFamily>,
    pub db_query_duration_seconds: Vec<MetricFamily>,
    pub cache_hits_total: Vec<MetricFamily>,
    pub cache_misses_total: Vec<MetricFamily>,
    pub audit_logs_total: Vec<MetricFamily>,
}

/// The text of an export: each metric in turn, in the style it is written in. The
/// database query durations are not written.
pub open spec fn prometheus_text(m: PrometheusMetrics) -> Seq<char> {
    families_text(LineStyle::Labelled, families_view(m.http_requests_total@)) + families_text(
        LineStyle::Sum,
        families_view(m.http_request_duration_seconds@),
    ) + families_text(LineStyle::Labelled, families_view(m.http_requests_in_flight@))
        + families_text(LineStyle::Plain, families_view(m.active_users@)) + families_text(
        LineStyle::Plain,
        families_view(m.active_devices@),
    ) + families_text(LineStyle::Plain, families_view(m.active_sessions@)) + families_text(
        LineStyle::Plain,
        families_view(m.license_validations_total@),
    ) + families_text(LineStyle::Labelled, families_view(m.db_query_total@)) + families_text(
        LineStyle::Plain,
        families_view(m.cache_hits_total@),
    ) + families_text(LineStyle::Plain, families_view(m.cache_misses_total@)) + families_text(
        LineStyle::Labelled,
        families_view(m.audit_logs_total@),
    )
}

/// `name` with every trailing `_total` removed.
pub fn trim_total_suffix(name: &str) -> (r: String)
    ensures
        r@ == trim_total(name@),
{
    proof {
        reveal_strlit("_total");
    }
    let mut end = name.unicode_len();
    let suffix = "_total".to_owned();
    assert(name@.subrange(0, end as int) =~= name@);
    loop
        invariant
            end <= name@.len(),
            suffix@ == total_suffix(),
            trim_total(name@) == trim_total(name@.subrange(0, end as int)),
        ensures
            end <= name@.len(),
            end < 6 || name@.subrange(end - 6, end as int) != total_suffix(),
            trim_total(name@) == trim_total(name@.subrange(0, end as int)),
        decreases end,
    {
        if end < 6 {
            break;
        }
        let tail = name.substring_char(end - 6, end).to_owned();
        if tail != suffix {
            break;
        }
        proof {
            let s = name@.subrange(0, end as int);
            assert(s.subrange(s.len() - 6, s.len() as int) =~= name@.subrange(end - 6, end as int));
            assert(s.subrange(0, s.len() - 6) =~= name@.subrange(0, end - 6));
        }
        end = end - 6;
    }
    proof {
        let s = name@.subrange(0, end as int);
        if end >= 6 {
            assert(s.subrange(s.len() - 6, s.len() as int) =~= name@.subrange(end - 6, end as int));
        }
    }
    name.substring_char(0, end).to_owned()
}

fn append_pair(out: &mut String, p: &LabelPair)
    ensures
        final(out)@ == old(out)@ + pair_text((p.0@, p.1@)),
{
    proof {
        reveal_strlit("=\"");
        reveal_strlit("\"");
    }
    out.append(p.0.as_str());
    out.append("=\"");
    out.append(p.1.as_str());
    out.append("\"");
}

/// Appends the label block of a sample.
fn append_labels(out: &mut String, labels: &Vec<LabelPair>)
    ensures
        final(out)@ == old(out)@ + labels_text(pairs_view(labels@)),
{
    if labels.len() == 0 {
        assert(old(out)@ + labels_text(pairs_view(labels@)) =~= old(out)@);
        return ;
    }
    proof {
        reveal_strlit("{");
        reveal_strlit(",");
        reveal_strlit("}");
    }
    let ghost start = out@;
    out.append("{");
    let mut i: usize = 0;
    while i < labels.len()
        invariant
            0 < labels@.len(),
            i <= labels@.len(),
            out@ == start + seq!['{'] + joined_pairs(pairs_view(labels@.subrange(0, i as int))),
        decreases labels@.len() - i,
    {
        let ghost before = out@;
        proof {
            reveal_strlit(",");
        }
        if i > 0 {
            out.append(",");
        }
        append_pair(out, &labels[i]);
        proof {
            let ls = pairs_view(labels@.subrange(0, i + 1));
            assert(ls.drop_last() =~= pairs_view(labels@.subrange(0, i as int)));
            assert(ls.last() == (labels@[i as int].0@, labels@[i as int].1@));
            if i == 0 {
                assert(pairs_view(labels@.subrange(0, 0)) =~= seq![]);
                assert(joined_pairs(ls) == pair_text(ls[0]));
                assert(out@ =~= start + seq!['{'] + joined_pairs(ls));
            } else {
                assert(out@ =~= start + seq!['{'] + joined_pairs(ls));
            }
        }
        i = i + 1;
    }
    assert(labels@.subrange(0, i as int) =~= labels@);
    out.append("}");
}

/// Appends the line of one sample.
fn append_sample(out: &mut String, style: LineStyle, name: &str, m: &Metric)
    ensures
        final(out)@ == old(out)@ + sample_line(style, name@, m@),
{
    proof {
        reveal_strlit(" ");
        reveal_strlit("\n");
        reveal_strlit("_sum ");
    }
    let value = signed_text(m.value);
    match style {
        LineStyle::Labelled => {
            out.append(name);
            out.append(" ");
            append_labels(out, &m.labels);
            out.append(" ");
            out.append(value.as_str());
            out.append("\n");
        },
        LineStyle::Sum => {
            let trimmed = trim_total_suffix(name);
            out.append(trimmed.as_str());
            out.append("_sum ");
            append_labels(out, &m.labels);
            out.append(" ");
            out.append(value.as_str());
            out.append("\n");
        },
        LineStyle::Plain => {
            out.append(name);
            out.append(" ");
            out.append(value.as_str());
            out.append("\n");
        },
    }
    assert(final(out)@ =~= old(out)@ + sample_line(style, name@, m@));
}

/// Appends the lines of a list of families.
fn append_families(out: &mut String, style: LineStyle, fams: &Vec<MetricFamily>)
    ensures
        final(out)@ == old(out)@ + families_text(style, families_view(fams@)),
{
    let ghost start = out@;
    let mut i: usize = 0;
    while i < fams.len()
        invariant
            i <= fams@.len(),
            out@ == start + families_text(style, families_view(fams@.subrange(0, i as int))),
        decreases fams@.len() - i,
    {
        let f = &fams[i];
        let ghost mid = out@;
        let mut j: usize = 0;
        while j < f.metrics.len()
            invariant
                j <= f.metrics@.len(),
                out@ == mid + samples_text(
                    style,
                    f.name@,
                    f.metrics@.subrange(0, j as int).map_values(|m: Metric| m@),
                ),
            decreases f.metrics@.len() - j,
        {
            append_sample(out, style, f.name.as_str(), &f.metrics[j]);
            proof {
                let ms = f.metrics@.subrange(0, j + 1).map_values(|m: Metric| m@);
                assert(ms.drop_last() =~= f.metrics@.subrange(0, j as int).map_values(
                    |m: Metric| m@,
                ));
            }
            j = j + 1;
        }
        proof {
            assert(f.metrics@.subrange(0, j as int) =~= f.metrics@);
            let fs = families_view(fams@.subrange(0, i + 1));
            assert(fs.drop_last() =~= families_view(fams@.subrange(0, i as int)));
            assert(fs.last() == f@);
        }
        i = i + 1;
    }
    assert(fams@.subrange(0, i as int) =~= fams@);
}

impl PrometheusMetrics {
    /// The Prometheus text of the export.
    pub fn render(&self) -> (r: String)
        ensures
            r@ == prometheus_text(*self),
    {
        let mut out = String::new();
        append_families(&mut out, LineStyle::Labelled, &self.http_requests_total);
        append_families(&mut out, LineStyle::Sum, &self.http_request_duration_seconds);
        append_families(&mut out, LineStyle::Labelled, &self.http_requests_in_flight);
        append_families(&mut out, LineStyle::Plain, &self.active_users);
        append_families(&mut out, LineStyle::Plain, &self.active_devices);
        append_families(&mut out, LineStyle::Plain, &self.active_sessions);
        append_families(&mut out, LineStyle::Plain, &self.license_validations_total);
        append_families(&mut out, LineStyle::Labelled, &self.db_query_total);
        append_families(&mut out, LineStyle::Plain, &self.cache_hits_total);
        append_families(&mut out, LineStyle::Plain, &self.cache_misses_total);
        append_families(&mut out, LineStyle::Labelled, &self.audit_logs_total);
        assert(out@ =~= prometheus_text(*self));
        out
    }
}

impl PrometheusMetrics {
    /// The export of the server's metrics: every counter, the observation counts of both
    /// duration histograms and every gauge, each under its metric name and description.
    pub fn collect(
        http_requests_total: &Counter,
        http_request_durations: &Counter,
        http_requests_in_flight: &Gauge,
        active_users: &Gauge,
        active_devices: &Gauge,
        active_sessions: &Gauge,
        license_validations_total: &Counter,
        db_query_total: &Counter,
        db_query_durations: &Counter,
        cache_hits_total: &Counter,
        cache_misses_total: &Counter,
        audit_logs_total: &Counter,
    ) -> (m: PrometheusMetrics)
        requires
            http_requests_total.wf(),
            http_request_durations.wf(),
            license_validations_total.wf(),
            db_query_total.wf(),
            db_query_durations.wf(),
            cache_hits_total.wf(),
            cache_misses_total.wf(),
            audit_logs_total.wf(),
        ensures
            families_view(m.http_requests_total@) == counter_export(
                "http_requests_total"@,
                "Total HTTP requests"@,
                http_requests_total.order(),
                http_requests_total@,
                false,
            ),
            families_view(m.http_request_duration_seconds@) == counter_export(
                "http_request_duration_seconds"@,
                "HTTP request duration in seconds"@,
                http_request_durations.order(),
                http_request_durations@,
                true,
            ),
            families_view(m.http_requests_in_flight@) == gauge_export(
                "http_requests_in_flight"@,
                "HTTP requests currently in flight"@,
                http_requests_in_flight@,
            ),
            families_view(m.active_users@) == gauge_export(
                "active_users"@,
                "Number of active users"@,
                active_users@,
            ),
            families_view(m.active_devices@) == gauge_export(
                "active_devices"@,
                "Number of active devices"@,
                active_devices@,
            ),
            families_view(m.active_sessions@) == gauge_export(
                "active_sessions"@,
                "Number of active sessions"@,
                active_sessions@,
            ),
            families_view(m.license_validations_total@) == counter_export(
                "license_validations_total"@,
                "Total license validations"@,
                license_validations_total.order(),
                license_validations_total@,
                false,
            ),
            families_view(m.db_query_total@) == counter_export(
                "db_query_total"@,
                "Total database queries"@,
                db_query_total.order(),
                db_query_total@,
                false,
            ),
            families_view(m.db_query_duration_seconds@) == counter_export(
                "db_query_duration_seconds"@,
                "Database query duration in seconds"@,
                db_query_durations.order(),
                db_query_durations@,
                true,
            ),
            families_view(m.cache_hits_total@) == counter_export(
                "cache_hits_total"@,
                "Total cache hits"@,
                cache_hits_total.order(),
                cache_hits_total@,
                false,
            ),
            families_view(m.cache_misses_total@) == counter_export(
                "cache_misses_total"@,
                "Total cache misses"@,
                cache_misses_total.order(),
                cache_misses_total@,
                false,
            ),
            families_view(m.audit_logs_total@) == counter_export(
                "audit_logs_total"@,
                "Total audit logs"@,
                audit_logs_total.order(),
                audit_logs_total@,
                false,
            ),
    {
        PrometheusMetrics {
            http_requests_total: export_counter(
                http_requests_total,
                "http_requests_total",
                "Total HTTP requests",
            ),
            http_request_duration_seconds: export_histogram(
                http_request_durations,
                "http_request_duration_seconds",
                "HTTP request duration in seconds",
            ),
            http_requests_in_flight: export_gauge(
                http_requests_in_flight,
                "http_requests_in_flight",
                "HTTP requests currently in flight",
            ),
            active_users: export_gauge(active_users, "active_users", "Number of active users"),
            active_devices: export_gauge(
                active_devices,
                "active_devices",
                "Number of active devices",
            ),
            active_sessions: export_gauge(
                active_sessions,
                "active_sessions",
                "Number of active sessions",
            ),
            license_validations_total: export_counter(
                license_validations_total,
                "license_validations_total",
                "Total license validations",
            ),
            db_query_total: export_counter(
                db_query_total,
                "db_query_total",
                "Total database queries",
            ),
            db_query_duration_seconds: export_histogram(
                db_query_durations,
                "db_query_duration_seconds",
                "Database query duration in seconds",
            ),
            cache_hits_total: export_counter(cache_hits_total, "cache_hits_total", "Total cache hits"),
            cache_misses_total: export_counter(
                cache_misses_total,
                "cache_misses_total",
                "Total cache misses",
            ),
            audit_logs_total: export_counter(audit_logs_total, "audit_logs_total", "Total audit logs"),
        }
    }
}

/// A gauge is written as exactly one line: its name and its value, written even when it
/// is zero.
pub proof fn lemma_one_line_per_gauge(style: LineStyle, name: Seq<char>, help: Seq<char>, value: i64)
    ensures
        families_text(style, gauge_export(name, help, value)) == sample_line(
            style,
            name,
            MetricView { labels: seq![], value: value as int },
        ),
{
    let fs = gauge_export(name, help, value);
    assert(fs.drop_last() =~= Seq::<MetricFamilyView>::empty());
    let ms = fs.last().metrics;
    assert(ms.drop_last() =~= Seq::<MetricView>::empty());
    assert(families_text(style, fs.drop_last()) == Seq::<char>::empty());
    assert(samples_text(style, name, ms.drop_last()) == Seq::<char>::empty());
    assert(families_text(style, fs) =~= sample_line(
        style,
        name,
        MetricView { labels: seq![], value: value as int },
    ));
}

/// A counter or histogram that never recorded anything writes no line.
pub proof fn lemma_unrecorded_counter_writes_nothing(
    style: LineStyle,
    name: Seq<char>,
    help: Seq<char>,
    order: Seq<Seq<char>>,
    counts: Map<Seq<char>, u64>,
    histogram: bool,
)
    requires
        counts.len() == 0,
    ensures
        families_text(style, counter_export(name, help, order, counts, histogram))
            == Seq::<char>::empty(),
{
}

/// In the text of an export whose gauges read `g1` to `g4`, the gauges are written as
/// exactly four lines, between the request sections and the licence section: the
/// requests in flight (with an empty label block), then the active users, devices and
/// sessions.
pub proof fn lemma_gauge_lines(
    m: PrometheusMetrics,
    h1: Seq<char>,
    h2: Seq<char>,
    h3: Seq<char>,
    h4: Seq<char>,
    g1: i64,
    g2: i64,
    g3: i64,
    g4: i64,
)
    requires
        families_view(m.http_requests_in_flight@) == gauge_export("http_requests_in_flight"@, h1, g1),
        families_view(m.active_users@) == gauge_export("active_users"@, h2, g2),
        families_view(m.active_devices@) == gauge_export("active_devices"@, h3, g3),
        families_view(m.active_sessions@) == gauge_export("active_sessions"@, h4, g4),
    ensures
        prometheus_text(m) == families_text(LineStyle::Labelled, families_view(m.http_requests_total@))
            + families_text(LineStyle::Sum, families_view(m.http_request_duration_seconds@))
            + sample_line(
            LineStyle::Labelled,
            "http_requests_in_flight"@,
            MetricView { labels: seq![], value: g1 as int },
        ) + sample_line(
            LineStyle::Plain,
            "active_users"@,
            MetricView { labels: seq![], value: g2 as int },
        ) + sample_line(
            LineStyle::Plain,
            "active_devices"@,
            MetricView { labels: seq![], value: g3 as int },
        ) + sample_line(
            LineStyle::Plain,
            "active_sessions"@,
            MetricView { labels: seq![], value: g4 as int },
        ) + families_text(LineStyle::Plain, families_view(m.license_validations_total@))
            + families_text(LineStyle::Labelled, families_view(m.db_query_total@)) + families_text(
            LineStyle::Plain,
            families_view(m.cache_hits_total@),
        ) + families_text(LineStyle::Plain, families_view(m.cache_misses_total@)) + families_text(
            LineStyle::Labelled,
            families_view(m.audit_logs_total@),
        ),
{
    lemma_one_line_per_gauge(LineStyle::Labelled, "http_requests_in_flight"@, h1, g1);
    lemma_one_line_per_gauge(LineStyle::Plain, "active_users"@, h2, g2);
    lemma_one_line_per_gauge(LineStyle::Plain, "active_devices"@, h3, g3);
    lemma_one_line_per_gauge(LineStyle::Plain, "active_sessions"@, h4, g4);
    assert(prometheus_text(m) =~= families_text(
        LineStyle::Labelled,
        families_view(m.http_requests_total@),
    ) + families_text(LineStyle::Sum, families_view(m.http_request_duration_seconds@))
        + sample_line(
        LineStyle::Labelled,
        "http_requests_in_flight"@,
        MetricView { labels: seq![], value: g1 as int },
    ) + sample_line(
        LineStyle::Plain,
        "active_users"@,
        MetricView { labels: seq![], value: g2 as int },
    ) + sample_line(
        LineStyle::Plain,
        "active_devices"@,
        MetricView { labels: seq![], value: g3 as int },
    ) + sample_line(
        LineStyle::Plain,
        "active_sessions"@,
        MetricView { labels: seq![], value: g4 as int },
    ) + families_text(LineStyle::Plain, families_view(m.license_validations_total@))
        + families_text(LineStyle::Labelled, families_view(m.db_query_total@)) + families_text(
        LineStyle::Plain,
        families_view(m.cache_hits_total@),
    ) + families_text(LineStyle::Plain, families_view(m.cache_misses_total@)) + families_text(
        LineStyle::Labelled,
        families_view(m.audit_logs_total@),
    ));
}

/// Every sample is written as one line that ends with a space, the sample's value in
/// decimal and a newline; it starts with the family's name, or for a sum with the name
/// stripped of `_total` followed by `_sum`.
pub proof fn lemma_sample_line_shape(style: LineStyle, name: Seq<char>, m: MetricView)
    ensures
        ({
            let line = sample_line(style, name, m);
            let tail = seq![' '] + signed_decimal(m.value) + seq!['\n'];
            &&& line.len() >= tail.len()
            &&& line.subrange(line.len() - tail.len(), line.len() as int) == tail
            &&& style != LineStyle::Sum ==> line.subrange(0, name.len() as int) == name
            &&& style == LineStyle::Sum ==> line.subrange(0, trim_total(name).len() + 4int) == trim_total(
                name,
            ) + seq!['_', 's', 'u', 'm']
        }),
{
    let line = sample_line(style, name, m);
    let tail = seq![' '] + signed_decimal(m.value) + seq!['\n'];
    match style {
        LineStyle::Labelled => {
            assert(line =~= name + seq![' '] + labels_text(m.labels) + tail);
        },
        LineStyle::Sum => {
            assert(line =~= trim_total(name) + seq!['_', 's', 'u', 'm'] + seq![' '] + labels_text(
                m.labels,
            ) + tail);
        },
        LineStyle::Plain => {
            assert(line =~= name + tail);
        },
    }
    assert(line.subrange(line.len() - tail.len(), line.len() as int) =~= tail);
    if style != LineStyle::Sum {
        assert(line.subrange(0, name.len() as int) =~= name);
    } else {
        assert(line.subrange(0, trim_total(name).len() + 4int) =~= trim_total(name) + seq![
            '_',
            's',
            'u',
            'm',
        ]);
    }
}

/// A family's text is one line per sample, in order: one more sample adds exactly its
/// own line after the lines of the others.
pub proof fn lemma_samples_text_push(style: LineStyle, name: Seq<char>, ms: Seq<MetricView>, m: MetricView)
    ensures
        samples_text(style, name, ms.push(m)) == samples_text(style, name, ms) + sample_line(
            style,
            name,
            m,
        ),
        samples_text(style, name, seq![m]) == sample_line(style, name, m),
{
    assert(ms.push(m).drop_last() =~= ms);
    assert(seq![m].drop_last() =~= Seq::<MetricView>::empty());
    assert(samples_text(style, name, Seq::<MetricView>::empty()) == Seq::<char>::empty());
    assert(samples_text(style, name, seq![m]) =~= Seq::<char>::empty() + sample_line(style, name, m));
}

/// The text of several samples is the text of the first ones followed by the text of the
/// rest: no sample's line is lost or repeated.
pub proof fn lemma_samples_text_concat(
    style: LineStyle,
    name: Seq<char>,
    a: Seq<MetricView>,
    b: Seq<MetricView>,
)
    ensures
        samples_text(style, name, a + b) == samples_text(style, name, a) + samples_text(
            style,
            name,
            b,
        ),
    decreases b.len(),
{
    if b.len() == 0 {
        assert(a + b =~= a);
    } else {
        lemma_samples_text_concat(style, name, a, b.drop_last());
        assert((a + b).drop_last() =~= a + b.drop_last());
        assert((a + b).last() == b.last());
    }
}

/// The text of an export's families is the text of each family in turn: one more family
/// adds exactly the lines of its samples.
pub proof fn lemma_families_text_push(style: LineStyle, fs: Seq<MetricFamilyView>, f: MetricFamilyView)
    ensures
        families_text(style, fs.push(f)) == families_text(style, fs) + samples_text(
            style,
            f.name,
            f.metrics,
        ),
{
    assert(fs.push(f).drop_last() =~= fs);
}

/// An export with no families renders as empty text.
pub proof fn lemma_empty_export_renders_empty(style: LineStyle)
    ensures
        families_text(style, seq![]) == Seq::<char>::empty(),
{
}

} // verus!
