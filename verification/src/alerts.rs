//! The decisions behind alert evaluation: which alert sources could not be
//! observed this cycle (so their alerts keep their last state instead of
//! resolving), reconcile progress and the stall detector, bcachefs error
//! counters, and the alerts raised for filesystems that failed to mount.
use vstd::prelude::*;

use crate::scan::{
    contains_chars, contains_seq, parse_u32, parse_u64, rsplit_once_chars, rsplit_once_seq,
    spec_parse_u32, spec_parse_u64, trim_chars, trim_seq,
};
use crate::text::{chars_are, chars_of, lower_chars, lower_seq, opt_str, push_lit, str_eq, string_of};

verus! {

/// The alert metrics whose coverage is tracked; every other metric is
/// `Other`, which is never marked unavailable.
#[derive(Clone, Copy, Debug, PartialEq, Eq, Hash, Structural)]
pub enum AlertMetric {
    FsUsagePercent,
    DiskTemperature,
    SmartHealth,
    SmartAttribute,
    KernelErrors,
    BcachefsDegraded,
    BcachefsDeviceError,
    BcachefsDeviceState,
    BcachefsIOErrors,
    BcachefsScrubErrors,
    BcachefsReconcileStalled,
    Other,
}

#[derive(Clone, Copy, Debug, PartialEq, Eq, Structural)]
pub enum AlertSeverity {
    Warning,
    Critical,
}

// ── coverage ────────────────────────────────────────────────────

/// What could not be observed in one evaluation cycle: whole metrics,
/// metrics of one source, and for SMART attributes which attribute IDs a
/// drive reported.
pub struct AlertCoverage {
    unavailable_metrics: Vec<AlertMetric>,
    unavailable_sources: Vec<(AlertMetric, String)>,
    observed_smart_attributes: Vec<(String, Vec<u32>)>,
}

/// The attribute IDs last observed for `source`.
pub open spec fn latest_attrs(es: Seq<(String, Vec<u32>)>, source: Seq<char>) -> Option<Seq<u32>>
    decreases es.len(),
{
    if es.len() == 0 {
        None
    } else if es.last().0@ == source {
        Some(es.last().1@)
    } else {
        latest_attrs(es.drop_last(), source)
    }
}

/// The device part of a SMART attribute alert's source (`<device>#<id>`).
pub open spec fn smart_device(source: Seq<char>) -> Seq<char> {
    match rsplit_once_seq(source, '#') {
        Some((dev, _)) => dev,
        None => source,
    }
}

/// The attribute ID of a SMART attribute alert's source, if it has one.
pub open spec fn smart_attr_id(source: Seq<char>) -> Option<u32> {
    match rsplit_once_seq(source, '#') {
        Some((_, id)) => spec_parse_u32(id),
        None => None,
    }
}

/// The source under which an alert of `metric` is marked and observed: a
/// SMART attribute alert's device, any other alert's own source.
pub open spec fn coverage_source(metric: AlertMetric, source: Seq<char>) -> Seq<char> {
    if metric == AlertMetric::SmartAttribute {
        smart_device(source)
    } else {
        source
    }
}

/// Every metric and source marked in `a` is still marked in `b`.
pub open spec fn keeps_marks(a: AlertCoverage, b: AlertCoverage) -> bool {
    &&& forall|m: AlertMetric| #[trigger] a.metric_marked(m) ==> b.metric_marked(m)
    &&& forall|m: AlertMetric, s: Seq<char>| #[trigger] a.source_marked(m, s) ==> b.source_marked(m, s)
}

/// One call that changes a coverage, with its arguments as plain values.
pub enum CoverageCall {
    /// `mark_metric(metric)`
    MarkMetric(AlertMetric),
    /// `mark_source(metric, source)`
    MarkSource(AlertMetric, Seq<char>),
    /// `observe_smart_attributes(source, attribute_ids)`
    ObserveSmart(Seq<char>, Seq<u32>),
}

/// `b` is what `call` makes of `a`: it adds the one mark or the one list of
/// SMART attributes that the call names, and changes nothing else.
pub open spec fn call_effect(a: AlertCoverage, call: CoverageCall, b: AlertCoverage) -> bool {
    match call {
        CoverageCall::MarkMetric(metric) => {
            &&& forall|m: AlertMetric| #[trigger] b.metric_marked(m) == (a.metric_marked(m) || m == metric)
            &&& forall|m: AlertMetric, s: Seq<char>| #[trigger] b.source_marked(m, s) == a.source_marked(m, s)
            &&& forall|s: Seq<char>| #[trigger] b.smart_observed(s) == a.smart_observed(s)
        },
        CoverageCall::MarkSource(metric, source) => {
            &&& forall|m: AlertMetric| #[trigger] b.metric_marked(m) == a.metric_marked(m)
            &&& forall|m: AlertMetric, s: Seq<char>|
                #[trigger] b.source_marked(m, s) == (a.source_marked(m, s) || (m == metric && s == source))
            &&& forall|s: Seq<char>| #[trigger] b.smart_observed(s) == a.smart_observed(s)
        },
        CoverageCall::ObserveSmart(source, ids) => {
            &&& forall|m: AlertMetric| #[trigger] b.metric_marked(m) == a.metric_marked(m)
            &&& forall|m: AlertMetric, s: Seq<char>| #[trigger] b.source_marked(m, s) == a.source_marked(m, s)
            &&& forall|s: Seq<char>|
                #[trigger] b.smart_observed(s) == if s == source {
                    Some(ids)
                } else {
                    a.smart_observed(s)
                }
        },
    }
}

/// Whether some call of `calls` marks metric `m`.
pub open spec fn metric_marked_by(calls: Seq<CoverageCall>, m: AlertMetric) -> bool
    decreases calls.len(),
{
    if calls.len() == 0 {
        false
    } else {
        metric_marked_by(calls.drop_last(), m) || calls.last() == CoverageCall::MarkMetric(m)
    }
}

/// Whether some call of `calls` marks source `s` of metric `m`.
pub open spec fn source_marked_by(calls: Seq<CoverageCall>, m: AlertMetric, s: Seq<char>) -> bool
    decreases calls.len(),
{
    if calls.len() == 0 {
        false
    } else {
        source_marked_by(calls.drop_last(), m, s) || calls.last() == CoverageCall::MarkSource(m, s)
    }
}

/// The SMART attribute IDs that the last call of `calls` about device `s`
/// listed, if any did.
pub open spec fn smart_seen_by(calls: Seq<CoverageCall>, s: Seq<char>) -> Option<Seq<u32>>
    decreases calls.len(),
{
    if calls.len() == 0 {
        None
    } else {
        match calls.last() {
            CoverageCall::ObserveSmart(x, ids) => if x == s {
                Some(ids)
            } else {
                smart_seen_by(calls.drop_last(), s)
            },
            _ => smart_seen_by(calls.drop_last(), s),
        }
    }
}

/// Whether an alert counts as observed after `calls` on a fresh coverage:
/// not where its metric, or its metric's source, was marked; for a SMART
/// attribute whose device had its attributes listed, only where its
/// attribute was listed last; and otherwise always.
pub open spec fn observed_after(calls: Seq<CoverageCall>, metric: AlertMetric, source: Seq<char>) -> bool {
    let src = coverage_source(metric, source);
    if metric_marked_by(calls, metric) {
        false
    } else if source_marked_by(calls, metric, src) {
        false
    } else if metric == AlertMetric::SmartAttribute && smart_seen_by(calls, src) is Some {
        match smart_attr_id(source) {
            Some(id) => smart_seen_by(calls, src).unwrap().contains(id),
            None => false,
        }
    } else {
        true
    }
}

impl AlertCoverage {
    pub closed spec fn metric_marked(&self, m: AlertMetric) -> bool {
        self.unavailable_metrics@.contains(m)
    }

    pub closed spec fn source_marked(&self, m: AlertMetric, source: Seq<char>) -> bool {
        exists|i: int|
            0 <= i < self.unavailable_sources@.len() && (#[trigger] self.unavailable_sources@[i]).0
                == m && self.unavailable_sources@[i].1@ == source
    }

    pub closed spec fn smart_observed(&self, source: Seq<char>) -> Option<Seq<u32>> {
        latest_attrs(self.observed_smart_attributes@, source)
    }

    /// Whether an alert of `metric` from `source` was observed this cycle,
    /// so that its absence means it resolved. A SMART attribute alert
    /// (`<device>#<id>`) counts by its device, and where the device's
    /// attributes were listed, only if its attribute was among them.
    pub open spec fn observes(&self, metric: AlertMetric, source: Seq<char>) -> bool {
        let src = if metric == AlertMetric::SmartAttribute {
            smart_device(source)
        } else {
            source
        };
        if self.metric_marked(metric) {
            false
        } else if self.source_marked(metric, src) {
            false
        } else if metric == AlertMetric::SmartAttribute && self.smart_observed(src) is Some {
            match smart_attr_id(source) {
                Some(id) => self.smart_observed(src).unwrap().contains(id),
                None => false,
            }
        } else {
            true
        }
    }

    pub fn new() -> (r: Self)
        ensures
            forall|m: AlertMetric| !r.metric_marked(m),
            forall|m: AlertMetric, s: Seq<char>| !r.source_marked(m, s),
            forall|s: Seq<char>| r.smart_observed(s) is None,
    {
        AlertCoverage {
            unavailable_metrics: Vec::new(),
            unavailable_sources: Vec::new(),
            observed_smart_attributes: Vec::new(),
        }
    }

    /// No alert of `metric` counts as observed this cycle.
    pub fn mark_metric(&mut self, metric: AlertMetric)
        ensures
            keeps_marks(*old(self), *final(self)),
            call_effect(*old(self), CoverageCall::MarkMetric(metric), *final(self)),
            forall|m: AlertMetric|
                #[trigger] final(self).metric_marked(m) == (old(self).metric_marked(m) || m
                    == metric),
            forall|m: AlertMetric, s: Seq<char>|
                #[trigger] final(self).source_marked(m, s) == old(self).source_marked(m, s),
            forall|s: Seq<char>| #[trigger] final(self).smart_observed(s) == old(self).smart_observed(s),
    {
        let ghost before = self.unavailable_metrics@;
        self.unavailable_metrics.push(metric);
        assert(self.unavailable_sources == old(self).unavailable_sources);
        assert(self.observed_smart_attributes == old(self).observed_smart_attributes);
        assert forall|m: AlertMetric|
            #[trigger] self.unavailable_metrics@.contains(m) == (before.contains(m) || m
                == metric) by {
            if self.unavailable_metrics@.contains(m) {
                let i = choose|i: int|
                    0 <= i < self.unavailable_metrics@.len() && self.unavailable_metrics@[i] == m;
                if i < before.len() {
                    assert(before[i] == m);
                }
            }
            if before.contains(m) {
                let i = choose|i: int| 0 <= i < before.len() && before[i] == m;
                assert(self.unavailable_metrics@[i] == m);
            }
            if m == metric {
                assert(self.unavailable_metrics@[before.len() as int] == m);
            }
        }
    }

    /// Marks every metric of `metrics`.
    pub fn mark_metrics(&mut self, metrics: &Vec<AlertMetric>)
        ensures
            keeps_marks(*old(self), *final(self)),
            forall|m: AlertMetric|
                #[trigger] final(self).metric_marked(m) == (old(self).metric_marked(m)
                    || metrics@.contains(m)),
            forall|m: AlertMetric, s: Seq<char>|
                #[trigger] final(self).source_marked(m, s) == old(self).source_marked(m, s),
            forall|s: Seq<char>| #[trigger] final(self).smart_observed(s) == old(self).smart_observed(s),
    {
        let n = metrics.len();
        for i in 0..n
            invariant
                n == metrics@.len(),
                forall|m: AlertMetric|
                    #[trigger] self.metric_marked(m) == (old(self).metric_marked(m)
                        || metrics@.take(i as int).contains(m)),
                forall|m: AlertMetric, s: Seq<char>|
                    #[trigger] self.source_marked(m, s) == old(self).source_marked(m, s),
                forall|s: Seq<char>| #[trigger] self.smart_observed(s) == old(self).smart_observed(s),
        {
            let ghost mid = *self;
            let mi = metrics[i];
            self.mark_metric(mi);
            proof {
                crate::sorting::lemma_take_contains(metrics@, i as int);
                assert forall|m: AlertMetric|
                    #[trigger] self.metric_marked(m) == (old(self).metric_marked(m)
                        || metrics@.take(i + 1).contains(m)) by {
                    assert(self.metric_marked(m) == (mid.metric_marked(m) || m == mi));
                    assert(mid.metric_marked(m) == (old(self).metric_marked(m)
                        || metrics@.take(i as int).contains(m)));
                    assert(metrics@.take(i + 1).contains(m) == (metrics@.take(i as int).contains(m)
                        || m == metrics@[i as int]));
                }
            }
        }
        assert(metrics@.take(n as int) =~= metrics@);
    }

    /// No alert of `metric` from `source` counts as observed this cycle.
    pub fn mark_source(&mut self, metric: AlertMetric, source: String)
        ensures
            keeps_marks(*old(self), *final(self)),
            call_effect(*old(self), CoverageCall::MarkSource(metric, source@), *final(self)),
            forall|m: AlertMetric, s: Seq<char>|
                #[trigger] final(self).source_marked(m, s) == (old(self).source_marked(m, s) || (m
                    == metric && s == source@)),
            forall|m: AlertMetric| #[trigger] final(self).metric_marked(m) == old(self).metric_marked(m),
            forall|s: Seq<char>| #[trigger] final(self).smart_observed(s) == old(self).smart_observed(s),
    {
        let ghost before = self.unavailable_sources@;
        let ghost sv = source@;
        self.unavailable_sources.push((metric, source));
        assert(self.unavailable_metrics == old(self).unavailable_metrics);
        assert(self.observed_smart_attributes == old(self).observed_smart_attributes);
        assert forall|m: AlertMetric, s: Seq<char>|
            #[trigger] self.source_marked(m, s) == (old(self).source_marked(m, s) || (m == metric
                && s == sv)) by {
            let us = self.unavailable_sources@;
            if self.source_marked(m, s) {
                let i = choose|i: int|
                    0 <= i < us.len() && (#[trigger] us[i]).0 == m && us[i].1@ == s;
                if i < before.len() {
                    assert(before[i] == us[i]);
                }
            }
            if old(self).source_marked(m, s) {
                let i = choose|i: int|
                    0 <= i < before.len() && (#[trigger] before[i]).0 == m && before[i].1@ == s;
                assert(us[i] == before[i]);
            }
            if m == metric && s == sv {
                assert(us[before.len() as int].0 == m);
            }
        }
    }

    /// Records the SMART attribute IDs a drive reported.
    pub fn observe_smart_attributes(&mut self, source: String, attribute_ids: Vec<u32>)
        ensures
            keeps_marks(*old(self), *final(self)),
            call_effect(*old(self), CoverageCall::ObserveSmart(source@, attribute_ids@), *final(self)),
            forall|s: Seq<char>|
                #[trigger] final(self).smart_observed(s) == if s == source@ {
                    Some(attribute_ids@)
                } else {
                    old(self).smart_observed(s)
                },
            forall|m: AlertMetric| #[trigger] final(self).metric_marked(m) == old(self).metric_marked(m),
            forall|m: AlertMetric, s: Seq<char>|
                #[trigger] final(self).source_marked(m, s) == old(self).source_marked(m, s),
    {
        let ghost before = self.observed_smart_attributes@;
        self.observed_smart_attributes.push((source, attribute_ids));
        assert(self.observed_smart_attributes@.drop_last() =~= before);
        assert(self.unavailable_metrics == old(self).unavailable_metrics);
        assert(self.unavailable_sources == old(self).unavailable_sources);
    }

    /// Whether an active alert of `metric` from `source` was observed this
    /// cycle (see `observes`).
    pub fn is_observed(&self, metric: AlertMetric, source: &str) -> (r: bool)
        ensures
            r == self.observes(metric, source@),
    {
        let s = chars_of(source);
        let split = rsplit_once_chars(&s, '#');
        let src: Vec<char> = if metric == AlertMetric::SmartAttribute {
            match &split {
                Some((dev, _id)) => dev.clone(),
                None => s.clone(),
            }
        } else {
            s.clone()
        };
        if self.metric_listed(metric) {
            return false;
        }
        if self.source_listed(metric, &src) {
            return false;
        }
        if metric == AlertMetric::SmartAttribute {
            match self.latest_ids(&src) {
                Some(ids) => {
                    let id = match &split {
                        Some((_dev, id)) => parse_u32(id),
                        None => None,
                    };
                    return match id {
                        Some(n) => contains_u32(&ids, n),
                        None => false,
                    };
                },
                None => {},
            }
        }
        true
    }

    fn metric_listed(&self, metric: AlertMetric) -> (r: bool)
        ensures
            r == self.metric_marked(metric),
    {
        let n = self.unavailable_metrics.len();
        for i in 0..n
            invariant
                n == self.unavailable_metrics@.len(),
                forall|j: int| 0 <= j < i ==> self.unavailable_metrics@[j] != metric,
        {
            if self.unavailable_metrics[i] == metric {
                return true;
            }
        }
        false
    }

    fn source_listed(&self, metric: AlertMetric, source: &Vec<char>) -> (r: bool)
        ensures
            r == self.source_marked(metric, source@),
    {
        let n = self.unavailable_sources.len();
        for i in 0..n
            invariant
                n == self.unavailable_sources@.len(),
                forall|j: int|
                    0 <= j < i ==> !((#[trigger] self.unavailable_sources@[j]).0 == metric
                        && self.unavailable_sources@[j].1@ == source@),
        {
            let e = &self.unavailable_sources[i];
            if e.0 == metric {
                let c = chars_of(e.1.as_str());
                if crate::text::seq_eq(&c, source) {
                    return true;
                }
            }
        }
        false
    }

    fn latest_ids(&self, source: &Vec<char>) -> (r: Option<Vec<u32>>)
        ensures
            match self.smart_observed(source@) {
                Some(ids) => r is Some && r->0@ == ids,
                None => r is None,
            },
    {
        let es = &self.observed_smart_attributes;
        let mut i = es.len();
        assert(es@.take(i as int) =~= es@);
        while i > 0
            invariant
                i <= es@.len(),
                es@ == self.observed_smart_attributes@,
                latest_attrs(es@, source@) == latest_attrs(es@.take(i as int), source@),
            decreases i,
        {
            assert(es@.take(i as int).last() == es@[i - 1]);
            assert(es@.take(i as int).drop_last() =~= es@.take(i - 1));
            let c = chars_of(es[i - 1].0.as_str());
            if crate::text::seq_eq(&c, source) {
                let ids = &es[i - 1].1;
                let mut out: Vec<u32> = Vec::new();
                let m = ids.len();
                for k in 0..m
                    invariant
                        m == ids@.len(),
                        out@ == ids@.take(k as int),
                {
                    out.push(ids[k]);
                    assert(out@ =~= ids@.take(k + 1));
                }
                assert(ids@.take(m as int) =~= ids@);
                return Some(out);
            }
            i = i - 1;
        }
        None
    }
}

fn contains_u32(v: &Vec<u32>, x: u32) -> (r: bool)
    ensures
        r == v@.contains(x),
{
    let n = v.len();
    for i in 0..n
        invariant
            n == v@.len(),
            forall|j: int| 0 <= j < i ==> v@[j] != x,
    {
        if v[i] == x {
            return true;
        }
    }
    false
}

impl Default for AlertCoverage {
    fn default() -> (r: Self)
        ensures
            forall|m: AlertMetric| !r.metric_marked(m),
            forall|m: AlertMetric, s: Seq<char>| !r.source_marked(m, s),
            forall|s: Seq<char>| r.smart_observed(s) is None,
    {
        AlertCoverage::new()
    }
}

} // verus!

verus! {

// ── what one evaluation cycle marks ─────────────────────────────

/// The filesystem-level metrics, unavailable together when filesystems
/// cannot be listed.
pub fn filesystem_metrics() -> (r: Vec<AlertMetric>)
    ensures
        r@ == seq![
            AlertMetric::FsUsagePercent,
            AlertMetric::BcachefsDegraded,
            AlertMetric::BcachefsDeviceError,
            AlertMetric::BcachefsDeviceState,
            AlertMetric::BcachefsIOErrors,
            AlertMetric::BcachefsScrubErrors,
            AlertMetric::BcachefsReconcileStalled,
        ],
{
    let r = vec![
        AlertMetric::FsUsagePercent,
        AlertMetric::BcachefsDegraded,
        AlertMetric::BcachefsDeviceError,
        AlertMetric::BcachefsDeviceState,
        AlertMetric::BcachefsIOErrors,
        AlertMetric::BcachefsScrubErrors,
        AlertMetric::BcachefsReconcileStalled,
    ];
    assert(r@ =~= seq![
        AlertMetric::FsUsagePercent,
        AlertMetric::BcachefsDegraded,
        AlertMetric::BcachefsDeviceError,
        AlertMetric::BcachefsDeviceState,
        AlertMetric::BcachefsIOErrors,
        AlertMetric::BcachefsScrubErrors,
        AlertMetric::BcachefsReconcileStalled,
    ]);
    r
}

/// The disk metrics, unavailable together when disk metrics cannot be read.
pub fn disk_metrics() -> (r: Vec<AlertMetric>)
    ensures
        r@ == seq![AlertMetric::DiskTemperature, AlertMetric::SmartHealth, AlertMetric::SmartAttribute],
{
    let r = vec![AlertMetric::DiskTemperature, AlertMetric::SmartHealth, AlertMetric::SmartAttribute];
    assert(r@ =~= seq![
        AlertMetric::DiskTemperature,
        AlertMetric::SmartHealth,
        AlertMetric::SmartAttribute,
    ]);
    r
}

/// The bcachefs health metrics, unavailable together when a health check
/// task fails.
pub fn bcachefs_health_metrics() -> (r: Vec<AlertMetric>)
    ensures
        r@ == seq![
            AlertMetric::BcachefsDegraded,
            AlertMetric::BcachefsDeviceError,
            AlertMetric::BcachefsDeviceState,
            AlertMetric::BcachefsIOErrors,
            AlertMetric::BcachefsScrubErrors,
            AlertMetric::BcachefsReconcileStalled,
        ],
{
    let r = vec![
        AlertMetric::BcachefsDegraded,
        AlertMetric::BcachefsDeviceError,
        AlertMetric::BcachefsDeviceState,
        AlertMetric::BcachefsIOErrors,
        AlertMetric::BcachefsScrubErrors,
        AlertMetric::BcachefsReconcileStalled,
    ];
    assert(r@ =~= seq![
        AlertMetric::BcachefsDegraded,
        AlertMetric::BcachefsDeviceError,
        AlertMetric::BcachefsDeviceState,
        AlertMetric::BcachefsIOErrors,
        AlertMetric::BcachefsScrubErrors,
        AlertMetric::BcachefsReconcileStalled,
    ]);
    r
}

/// How a disk is named in alerts: its device, with the transport in
/// brackets where one is known.
pub fn disk_label(device: &str, transport: Option<&str>) -> (r: String)
    ensures
        r@ == match transport {
            Some(t) => device@ + seq![' ', '['] + t@ + seq![']'],
            None => device@,
        },
{
    let mut s = String::from_str(device);
    match transport {
        Some(t) => {
            s.push(' ');
            s.push('[');
            s.append(t);
            s.push(']');
        },
        None => {},
    }
    s
}

impl AlertCoverage {
    /// Records what a disk's metrics leave unobserved: its temperature where
    /// none was read; everything SMART where SMART is unavailable; SMART
    /// attributes where it is unknown whether it spins, or a spinning disk
    /// listed none; otherwise a spinning disk's attribute IDs.
    pub fn cover_disk(
        &mut self,
        label: String,
        temperature_known: bool,
        smart_status: &str,
        rotational: Option<bool>,
        attribute_ids: Vec<u32>,
    )
        ensures
            keeps_marks(*old(self), *final(self)),
            forall|m: AlertMetric| #[trigger] final(self).metric_marked(m) == old(self).metric_marked(m),
            forall|m: AlertMetric, s: Seq<char>|
                #[trigger] final(self).source_marked(m, s) == (old(self).source_marked(m, s) || (s
                    == label@ && ((m == AlertMetric::DiskTemperature && !temperature_known) || (
                smart_status@ == "UNAVAILABLE"@ && (m == AlertMetric::SmartHealth || m
                    == AlertMetric::SmartAttribute)) || (smart_status@ != "UNAVAILABLE"@ && m
                    == AlertMetric::SmartAttribute && (rotational is None || (rotational == Some(
                true) && attribute_ids@.len() == 0)))))),
            forall|s: Seq<char>|
                #[trigger] final(self).smart_observed(s) == if s == label@ && smart_status@
                    != "UNAVAILABLE"@ && rotational == Some(true) && attribute_ids@.len() > 0 {
                    Some(attribute_ids@)
                } else {
                    old(self).smart_observed(s)
                },
    {
        let ghost lv = label@;
        if !temperature_known {
            self.mark_source(AlertMetric::DiskTemperature, label.clone());
        }
        if str_eq(smart_status, "UNAVAILABLE") {
            self.mark_source(AlertMetric::SmartHealth, label.clone());
            self.mark_source(AlertMetric::SmartAttribute, label);
        } else if rotational.is_none() || (rotational == Some(true) && attribute_ids.len() == 0) {
            self.mark_source(AlertMetric::SmartAttribute, label);
        } else if rotational == Some(true) {
            self.observe_smart_attributes(label, attribute_ids);
        }
    }

    /// Marks `metric` unavailable for each of `sources`.
    pub fn mark_sources(&mut self, metric: AlertMetric, sources: &Vec<String>)
        ensures
            keeps_marks(*old(self), *final(self)),
            forall|m: AlertMetric, s: Seq<char>|
                #[trigger] final(self).source_marked(m, s) == (old(self).source_marked(m, s) || (m
                    == metric && crate::smb::string_views(sources@).contains(s))),
            forall|m: AlertMetric| #[trigger] final(self).metric_marked(m) == old(self).metric_marked(m),
            forall|s: Seq<char>| #[trigger] final(self).smart_observed(s) == old(self).smart_observed(s),
    {
        let ghost sv = crate::smb::string_views(sources@);
        let n = sources.len();
        for i in 0..n
            invariant
                n == sources@.len(),
                sv == crate::smb::string_views(sources@),
                forall|m: AlertMetric, s: Seq<char>|
                    #[trigger] self.source_marked(m, s) == (old(self).source_marked(m, s) || (m
                        == metric && sv.take(i as int).contains(s))),
                forall|m: AlertMetric| #[trigger] self.metric_marked(m) == old(self).metric_marked(m),
                forall|s: Seq<char>| #[trigger] self.smart_observed(s) == old(self).smart_observed(s),
        {
            let ghost mid = *self;
            let src = sources[i].clone();
            self.mark_source(metric, src);
            proof {
                crate::sorting::lemma_take_contains(sv, i as int);
                assert forall|m: AlertMetric, s: Seq<char>|
                    #[trigger] self.source_marked(m, s) == (old(self).source_marked(m, s) || (m
                        == metric && sv.take(i + 1).contains(s))) by {
                    assert(mid.source_marked(m, s) == (old(self).source_marked(m, s) || (m == metric
                        && sv.take(i as int).contains(s))));
                    assert(sv[i as int] == sources@[i as int]@);
                }
            }
        }
        assert(sv.take(n as int) =~= sv);
    }
}

/// One member device of a bcachefs filesystem, as the health check sees it.
pub struct BcachefsDeviceHealth {
    pub path: String,
    pub state: String,
    pub has_errors: bool,
}

impl BcachefsDeviceHealth {
    /// A device's health: its state (`rw` where unknown) and whether its data
    /// flags mention an error.
    pub fn from_device(path: String, state: Option<String>, has_data: Option<&str>) -> (r: Self)
        ensures
            r.path == path,
            r.state@ == match state {
                Some(s) => s@,
                None => "rw"@,
            },
            r.has_errors == match has_data {
                Some(d) => contains_seq(d@, "error"@),
                None => false,
            },
    {
        let st = match state {
            Some(s) => s,
            None => String::from_str("rw"),
        };
        let has_errors = match has_data {
            Some(d) => {
                let c = chars_of(d);
                let e = chars_of("error");
                contains_chars(&c, &e)
            },
            None => false,
        };
        BcachefsDeviceHealth { path, state: st, has_errors }
    }
}

/// Whether a scrub report mentions errors, in any letter case. (The
/// report is lowercased; no character outside ASCII lowercases to `e`, `r`
/// or `o`, so ASCII lowercasing finds the same.)
pub fn scrub_reports_errors(raw: &str) -> (r: bool)
    ensures
        r == contains_seq(lower_seq(raw@), "error"@),
{
    let c = lower_chars(&chars_of(raw));
    let e = chars_of("error");
    contains_chars(&c, &e)
}

// ── mount failures ──────────────────────────────────────────────

/// The alert raised for a filesystem that failed to mount at boot.
pub struct MountFailureAlert {
    pub rule_name: String,
    pub severity: AlertSeverity,
    pub message: String,
}

/// What is known now of a filesystem that failed to mount at boot.
#[derive(Clone, Copy, Debug, PartialEq, Eq, Structural)]
pub struct MountedFsState {
    pub mounted: bool,
    pub encrypted: Option<bool>,
}

/// The alert for a boot-time mount failure of `name`, given the
/// filesystem's current state (`None` where it is not listed): none once it
/// is mounted; for a locked encrypted filesystem a warning to unlock it;
/// otherwise a critical failure.
pub fn mount_failure_alert(name: &str, fs: Option<MountedFsState>) -> (r: Option<MountFailureAlert>)
    ensures
        match fs {
            Some(f) if f.mounted => r is None,
            Some(f) if f.encrypted == Some(true) => r is Some && r->0.rule_name@
                == "Encrypted filesystem locked"@ && r->0.severity == AlertSeverity::Warning
                && r->0.message@ == "Filesystem \""@ + name@
                + "\" is encrypted and locked — unlock it to mount."@,
            _ => r is Some && r->0.rule_name@ == "Filesystem failed to mount"@ && r->0.severity
                == AlertSeverity::Critical && r->0.message@ == "Filesystem \""@ + name@
                + "\" failed to mount after boot. Check disk connectivity and logs."@,
        },
{
    let locked = match fs {
        Some(f) => {
            if f.mounted {
                return None;
            }
            f.encrypted == Some(true)
        },
        None => false,
    };
    let mut message = String::from_str("Filesystem \"");
    message.append(name);
    if locked {
        message.append("\" is encrypted and locked — unlock it to mount.");
        Some(
            MountFailureAlert {
                rule_name: String::from_str("Encrypted filesystem locked"),
                severity: AlertSeverity::Warning,
                message,
            },
        )
    } else {
        message.append("\" failed to mount after boot. Check disk connectivity and logs.");
        Some(
            MountFailureAlert {
                rule_name: String::from_str("Filesystem failed to mount"),
                severity: AlertSeverity::Critical,
                message,
            },
        )
    }
}

// ── bcachefs error counters ─────────────────────────────────────

/// The sum of the counters that could be read and parsed, and whether all
/// could.
pub open spec fn error_count_state(reads: Seq<Option<String>>) -> (int, bool)
    decreases reads.len(),
{
    if reads.len() == 0 {
        (0, true)
    } else {
        let (total, complete) = error_count_state(reads.drop_last());
        match reads.last() {
            Some(t) => match spec_parse_u64(trim_seq(t@)) {
                Some(v) => (total + v, complete),
                None => (total, false),
            },
            None => (total, false),
        }
    }
}

proof fn lemma_error_count_prefix(reads: Seq<Option<String>>, i: int)
    requires
        0 <= i <= reads.len(),
    ensures
        0 <= error_count_state(reads.take(i)).0 <= error_count_state(reads).0,
    decreases reads.len() - i,
{
    if i < reads.len() {
        assert(reads.take(i + 1).drop_last() =~= reads.take(i));
        lemma_error_count_prefix(reads, i + 1);
        lemma_error_count_nonneg(reads.take(i));
    } else {
        assert(reads.take(i) =~= reads);
        lemma_error_count_nonneg(reads);
    }
}

proof fn lemma_error_count_nonneg(reads: Seq<Option<String>>)
    ensures
        error_count_state(reads).0 >= 0,
    decreases reads.len(),
{
    if reads.len() > 0 {
        lemma_error_count_nonneg(reads.drop_last());
    }
}

/// The total of a filesystem's error counters (read, write, checksum), as
/// read from sysfs (`None` where a file could not be read), and whether
/// every counter was read; the totals of bcachefs counters fit in 64 bits.
pub fn error_count_from(reads: &Vec<Option<String>>) -> (r: (u64, bool))
    requires
        error_count_state(reads@).0 <= u64::MAX,
    ensures
        r.0 == error_count_state(reads@).0,
        r.1 == error_count_state(reads@).1,
{
    let mut total: u64 = 0;
    let mut complete = true;
    let n = reads.len();
    for i in 0..n
        invariant
            n == reads@.len(),
            error_count_state(reads@).0 <= u64::MAX,
            (total as int, complete) == error_count_state(reads@.take(i as int)),
    {
        assert(reads@.take(i + 1).drop_last() =~= reads@.take(i as int));
        assert(reads@.take(i + 1).last() == reads@[i as int]);
        proof {
            lemma_error_count_prefix(reads@, i + 1);
        }
        match &reads[i] {
            Some(t) => {
                let c = chars_of(t.as_str());
                match parse_u64(&trim_chars(&c)) {
                    Some(v) => {
                        total = total + v;
                    },
                    None => {
                        complete = false;
                    },
                }
            },
            None => {
                complete = false;
            },
        }
    }
    assert(reads@.take(n as int) =~= reads@);
    (total, complete)
}

} // verus!

verus! {

// ── reconcile progress ──────────────────────────────────────────

/// One background data-movement context of a bcachefs filesystem, as
/// `internal/moving_ctxts` lists it.
pub struct MoveCtx {
    pub kind: String,
    pub keys_moved: u64,
    pub bytes_seen: u64,
    pub bytes_moved: u64,
}

/// Reconcile's movement counters, summed over its contexts.
#[derive(Clone, Copy, Debug, PartialEq, Eq, Structural)]
pub struct ReconcileProgress {
    pub keys_moved: u64,
    pub bytes_seen: u64,
    pub bytes_moved: u64,
}

/// A reading of reconcile progress: the counters (`None` where the kernel
/// has no `moving_ctxts`), or no answer this time.
#[derive(Clone, Copy, Debug, PartialEq, Eq, Structural)]
pub enum ReconcileProgressSample {
    Available(Option<ReconcileProgress>),
    Unavailable,
}

pub open spec fn sat_add(a: u64, b: u64) -> u64 {
    if a + b > u64::MAX {
        u64::MAX
    } else {
        (a + b) as u64
    }
}

fn saturating(a: u64, b: u64) -> (r: u64)
    ensures
        r == sat_add(a, b),
{
    if a > u64::MAX - b {
        u64::MAX
    } else {
        a + b
    }
}

/// The progress of the `reconcile` contexts: their counters summed (each
/// saturating), none where there is no such context.
pub open spec fn spec_reconcile_progress(cs: Seq<MoveCtx>) -> Option<ReconcileProgress>
    decreases cs.len(),
{
    if cs.len() == 0 {
        None
    } else {
        let rest = spec_reconcile_progress(cs.drop_last());
        let c = cs.last();
        if c.kind@ == "reconcile"@ {
            let base = match rest {
                Some(p) => p,
                None => ReconcileProgress { keys_moved: 0, bytes_seen: 0, bytes_moved: 0 },
            };
            Some(
                ReconcileProgress {
                    keys_moved: sat_add(base.keys_moved, c.keys_moved),
                    bytes_seen: sat_add(base.bytes_seen, c.bytes_seen),
                    bytes_moved: sat_add(base.bytes_moved, c.bytes_moved),
                },
            )
        } else {
            rest
        }
    }
}

pub fn reconcile_progress(contexts: &Vec<MoveCtx>) -> (r: Option<ReconcileProgress>)
    ensures
        r == spec_reconcile_progress(contexts@),
{
    let mut progress: Option<ReconcileProgress> = None;
    let n = contexts.len();
    for i in 0..n
        invariant
            n == contexts@.len(),
            progress == spec_reconcile_progress(contexts@.take(i as int)),
    {
        assert(contexts@.take(i + 1).drop_last() =~= contexts@.take(i as int));
        assert(contexts@.take(i + 1).last() == contexts@[i as int]);
        let c = &contexts[i];
        if str_eq(c.kind.as_str(), "reconcile") {
            let base = match progress {
                Some(p) => p,
                None => ReconcileProgress { keys_moved: 0, bytes_seen: 0, bytes_moved: 0 },
            };
            progress = Some(
                ReconcileProgress {
                    keys_moved: saturating(base.keys_moved, c.keys_moved),
                    bytes_seen: saturating(base.bytes_seen, c.bytes_seen),
                    bytes_moved: saturating(base.bytes_moved, c.bytes_moved),
                },
            );
        }
    }
    assert(contexts@.take(n as int) =~= contexts@);
    progress
}

/// How reading `moving_ctxts` went.
pub enum ProgressRead {
    /// The file was read and its contexts parsed.
    Contexts(Vec<MoveCtx>),
    /// The kernel has no such file.
    Missing,
    /// Another read is in flight, the read failed or it timed out.
    Failed,
}

/// A progress sample from a read: a missing file keeps the pending-only
/// detector (`Available(None)`); any other failure is no answer, not proof
/// that nothing moved.
pub fn progress_sample(read: ProgressRead) -> (r: ReconcileProgressSample)
    ensures
        r == match read {
            ProgressRead::Contexts(cs) => ReconcileProgressSample::Available(
                spec_reconcile_progress(cs@),
            ),
            ProgressRead::Missing => ReconcileProgressSample::Available(None),
            ProgressRead::Failed => ReconcileProgressSample::Unavailable,
        },
{
    match read {
        ProgressRead::Contexts(cs) => ReconcileProgressSample::Available(reconcile_progress(&cs)),
        ProgressRead::Missing => ReconcileProgressSample::Available(None),
        ProgressRead::Failed => ReconcileProgressSample::Unavailable,
    }
}

/// The filesystems whose `moving_ctxts` is being read, so that a slow read
/// is not started twice.
pub struct ReconcileProgressReads {
    reads: Vec<String>,
}

impl ReconcileProgressReads {
    pub closed spec fn in_flight(&self, uuid: Seq<char>) -> bool {
        crate::smb::string_views(self.reads@).contains(uuid)
    }

    pub fn new() -> (r: Self)
        ensures
            forall|u: Seq<char>| !r.in_flight(u),
    {
        ReconcileProgressReads { reads: Vec::new() }
    }

    /// Claims the read of `uuid`; false where one is in flight already.
    pub fn acquire(&mut self, uuid: &str) -> (r: bool)
        ensures
            r == !old(self).in_flight(uuid@),
            forall|u: Seq<char>| #[trigger] final(self).in_flight(u) == (old(self).in_flight(u) || u == uuid@),
    {
        let u = String::from_str(uuid);
        let n = self.reads.len();
        for i in 0..n
            invariant
                n == self.reads@.len(),
                u@ == uuid@,
                forall|j: int| 0 <= j < i ==> (#[trigger] self.reads@[j])@ != uuid@,
        {
            if self.reads[i] == u {
                assert(crate::smb::string_views(self.reads@)[i as int] == uuid@);
                return false;
            }
        }
        assert(!crate::smb::string_views(self.reads@).contains(uuid@)) by {
            if crate::smb::string_views(self.reads@).contains(uuid@) {
                let j = choose|j: int|
                    0 <= j < self.reads@.len() && crate::smb::string_views(self.reads@)[j] == uuid@;
                assert(self.reads@[j]@ == uuid@);
            }
        }
        let ghost before = self.reads@;
        self.reads.push(u);
        proof {
            let nv = crate::smb::string_views(self.reads@);
            let ov = crate::smb::string_views(before);
            assert(nv =~= ov.push(uuid@));
            assert forall|x: Seq<char>| #[trigger] nv.contains(x) == (ov.contains(x) || x == uuid@) by {
                if nv.contains(x) {
                    let j = choose|j: int| 0 <= j < nv.len() && nv[j] == x;
                    if j < ov.len() {
                        assert(ov[j] == x);
                    }
                }
                if ov.contains(x) {
                    let j = choose|j: int| 0 <= j < ov.len() && ov[j] == x;
                    assert(nv[j] == x);
                }
                if x == uuid@ {
                    assert(nv[ov.len() as int] == x);
                }
            }
        }
        true
    }

    /// Releases the read of `uuid`.
    pub fn release(&mut self, uuid: &str)
        ensures
            forall|u: Seq<char>| #[trigger] final(self).in_flight(u) == (old(self).in_flight(u) && u != uuid@),
    {
        let mut kept: Vec<String> = Vec::new();
        let n = self.reads.len();
        for i in 0..n
            invariant
                n == self.reads@.len(),
                forall|x: Seq<char>|
                    #[trigger] crate::smb::string_views(kept@).contains(x) == (crate::smb::string_views(
                        self.reads@.take(i as int),
                    ).contains(x) && x != uuid@),
        {
            let ghost before = kept@;
            let ghost vi = self.reads@[i as int]@;
            proof {
                let pv = crate::smb::string_views(self.reads@.take(i as int));
                let qv = crate::smb::string_views(self.reads@.take(i + 1));
                assert(qv =~= pv.push(vi));
                assert forall|x: Seq<char>| #[trigger] qv.contains(x) == (pv.contains(x) || x == vi) by {
                    if qv.contains(x) {
                        let j = choose|j: int| 0 <= j < qv.len() && qv[j] == x;
                        if j < pv.len() {
                            assert(pv[j] == x);
                        }
                    }
                    if pv.contains(x) {
                        let j = choose|j: int| 0 <= j < pv.len() && pv[j] == x;
                        assert(qv[j] == x);
                    }
                    if x == vi {
                        assert(qv[pv.len() as int] == x);
                    }
                }
            }
            if !str_eq(self.reads[i].as_str(), uuid) {
                kept.push(self.reads[i].clone());
                proof {
                    let kv = crate::smb::string_views(kept@);
                    let bv = crate::smb::string_views(before);
                    assert(kv =~= bv.push(vi));
                    assert forall|x: Seq<char>| #[trigger] kv.contains(x) == (bv.contains(x) || x == vi) by {
                        if kv.contains(x) {
                            let j = choose|j: int| 0 <= j < kv.len() && kv[j] == x;
                            if j < bv.len() {
                                assert(bv[j] == x);
                            }
                        }
                        if bv.contains(x) {
                            let j = choose|j: int| 0 <= j < bv.len() && bv[j] == x;
                            assert(kv[j] == x);
                        }
                        if x == vi {
                            assert(kv[bv.len() as int] == x);
                        }
                    }
                }
            }
        }
        assert(self.reads@.take(n as int) =~= self.reads@);
        self.reads = kept;
    }
}

// ── the stall detector ──────────────────────────────────────────

/// What the reconcile status said: the pending-work fingerprint, if any,
/// and whether the reconcile thread is actively working.
pub struct ReconcileSample {
    pub pending: Option<String>,
    pub active: bool,
}

/// What the detector remembers of one filesystem: the pending fingerprint,
/// the last progress, and since when both are unchanged.
pub struct TrackerEntry {
    pub fs_name: String,
    pub pending: String,
    pub progress: ReconcileProgressSample,
    pub unchanged_since: u64,
}

/// Per-filesystem memory of the stall detector. Time is counted in whole
/// units (seconds) of a monotonic clock.
pub struct ReconcileStallTracker {
    entries: Vec<TrackerEntry>,
}

/// The remembered state of `fs`: the latest entry for it.
pub open spec fn entry_for(es: Seq<TrackerEntry>, fs: Seq<char>) -> Option<
    (Seq<char>, ReconcileProgressSample, u64),
>
    decreases es.len(),
{
    if es.len() == 0 {
        None
    } else if es.last().fs_name@ == fs {
        Some((es.last().pending@, es.last().progress, es.last().unchanged_since))
    } else {
        entry_for(es.drop_last(), fs)
    }
}

pub open spec fn sat_sub(a: u64, b: u64) -> u64 {
    if a >= b {
        (a - b) as u64
    } else {
        0
    }
}

/// One step of the stall detector for a filesystem: its new remembered
/// state and whether it is stalled. No pending work (or an active thread)
/// forgets it; changed pending work restarts the window; no progress
/// answer changes nothing; unchanged progress is a stall once the window
/// has passed; changed progress restarts the window.
pub open spec fn spec_stall_step(
    prev: Option<(Seq<char>, ReconcileProgressSample, u64)>,
    fingerprint: Option<Seq<char>>,
    progress: ReconcileProgressSample,
    now: u64,
    window: u64,
) -> (Option<(Seq<char>, ReconcileProgressSample, u64)>, bool) {
    match fingerprint {
        None => (None, false),
        Some(f) => match prev {
            None => (Some((f, progress, now)), false),
            Some((p, pr, since)) => if p != f {
                (Some((f, progress, now)), false)
            } else if progress == ReconcileProgressSample::Unavailable {
                (prev, false)
            } else if pr == progress {
                (prev, sat_sub(now, since) >= window)
            } else {
                (Some((p, progress, now)), false)
            },
        },
    }
}

/// The fingerprint a sample contributes: its pending work, unless the
/// thread is actively working.
pub open spec fn sample_fingerprint(sample: ReconcileSample) -> Option<Seq<char>> {
    if sample.active {
        None
    } else {
        opt_str(sample.pending)
    }
}

fn copy_entry(e: &TrackerEntry) -> (r: TrackerEntry)
    ensures
        r.fs_name@ == e.fs_name@,
        r.pending@ == e.pending@,
        r.progress == e.progress,
        r.unchanged_since == e.unchanged_since,
{
    TrackerEntry {
        fs_name: e.fs_name.clone(),
        pending: e.pending.clone(),
        progress: e.progress,
        unchanged_since: e.unchanged_since,
    }
}

fn without(es: &Vec<TrackerEntry>, fs: &str) -> (r: Vec<TrackerEntry>)
    ensures
        forall|k: Seq<char>| #[trigger] entry_for(r@, k) == if k == fs@ {
            None
        } else {
            entry_for(es@, k)
        },
{
    let mut kept: Vec<TrackerEntry> = Vec::new();
    let n = es.len();
    for i in 0..n
        invariant
            n == es@.len(),
            forall|k: Seq<char>| #[trigger] entry_for(kept@, k) == if k == fs@ {
                None
            } else {
                entry_for(es@.take(i as int), k)
            },
    {
        assert(es@.take(i + 1).drop_last() =~= es@.take(i as int));
        assert(es@.take(i + 1).last() == es@[i as int]);
        let ghost before = kept@;
        if !str_eq(es[i].fs_name.as_str(), fs) {
            let e = copy_entry(&es[i]);
            kept.push(e);
            assert(kept@.drop_last() =~= before);
        }
        assert forall|k: Seq<char>| #[trigger] entry_for(kept@, k) == if k == fs@ {
            None
        } else {
            entry_for(es@.take(i + 1), k)
        } by {
            assert(entry_for(before, k) == if k == fs@ {
                None
            } else {
                entry_for(es@.take(i as int), k)
            });
        }
    }
    assert(es@.take(n as int) =~= es@);
    kept
}

impl ReconcileStallTracker {
    /// The remembered state of filesystem `fs`.
    pub closed spec fn entry(&self, fs: Seq<char>) -> Option<(Seq<char>, ReconcileProgressSample, u64)> {
        entry_for(self.entries@, fs)
    }

    pub fn new() -> (r: Self)
        ensures
            forall|fs: Seq<char>| r.entry(fs) is None,
    {
        ReconcileStallTracker { entries: Vec::new() }
    }

    fn set_entry(&mut self, fs: &str, pending: String, progress: ReconcileProgressSample, now: u64)
        ensures
            forall|k: Seq<char>| #[trigger] final(self).entry(k) == if k == fs@ {
                Some((pending@, progress, now))
            } else {
                old(self).entry(k)
            },
    {
        let mut es = without(&self.entries, fs);
        let ghost before = es@;
        let ghost pv = pending@;
        es.push(TrackerEntry { fs_name: String::from_str(fs), pending, progress, unchanged_since: now });
        assert(es@.drop_last() =~= before);
        assert forall|k: Seq<char>| #[trigger] entry_for(es@, k) == if k == fs@ {
            Some((pv, progress, now))
        } else {
            entry_for(old(self).entries@, k)
        } by {
            assert(entry_for(before, k) == if k == fs@ {
                None
            } else {
                entry_for(old(self).entries@, k)
            });
        }
        self.entries = es;
    }

    fn find(&self, fs: &str) -> (r: Option<usize>)
        ensures
            match self.entry(fs@) {
                Some(e) => r matches Some(i) && i < self.entries@.len() && self.entries@[i as int].pending@
                    == e.0 && self.entries@[i as int].progress == e.1
                    && self.entries@[i as int].unchanged_since == e.2,
                None => r is None,
            },
    {
        let es = &self.entries;
        let mut i = es.len();
        assert(es@.take(i as int) =~= es@);
        while i > 0
            invariant
                i <= es@.len(),
                es@ == self.entries@,
                entry_for(es@, fs@) == entry_for(es@.take(i as int), fs@),
            decreases i,
        {
            assert(es@.take(i as int).last() == es@[i - 1]);
            assert(es@.take(i as int).drop_last() =~= es@.take(i - 1));
            if str_eq(es[i - 1].fs_name.as_str(), fs) {
                return Some(i - 1);
            }
            i = i - 1;
        }
        None
    }
}

/// One reconcile sample of filesystem `fs_name` at time `now`: whether
/// reconcile has had pending work, without the thread progressing and with
/// neither the pending counters nor the movement counters changing, for
/// the whole `window`.
pub fn reconcile_stall_check_at(
    tracker: &mut ReconcileStallTracker,
    fs_name: &str,
    sample: &ReconcileSample,
    progress: ReconcileProgressSample,
    now: u64,
    window: u64,
) -> (r: bool)
    ensures
        (final(tracker).entry(fs_name@), r) == spec_stall_step(
            old(tracker).entry(fs_name@),
            sample_fingerprint(*sample),
            progress,
            now,
            window,
        ),
        forall|k: Seq<char>| k != fs_name@ ==> #[trigger] final(tracker).entry(k) == old(tracker).entry(k),
{
    let fingerprint = if sample.active {
        None
    } else {
        match &sample.pending {
            Some(p) => Some(p.clone()),
            None => None,
        }
    };
    let f = match fingerprint {
        None => {
            clear_reconcile_tracker(tracker, fs_name);
            return false;
        },
        Some(f) => f,
    };
    match tracker.find(fs_name) {
        None => {
            tracker.set_entry(fs_name, f, progress, now);
            false
        },
        Some(i) => {
            let same_pending = tracker.entries[i].pending == f;
            if !same_pending {
                tracker.set_entry(fs_name, f, progress, now);
                false
            } else if progress == ReconcileProgressSample::Unavailable {
                false
            } else if tracker.entries[i].progress == progress {
                let since = tracker.entries[i].unchanged_since;
                let elapsed = if now >= since {
                    now - since
                } else {
                    0
                };
                elapsed >= window
            } else {
                let p = tracker.entries[i].pending.clone();
                tracker.set_entry(fs_name, p, progress, now);
                false
            }
        },
    }
}

/// Forgets filesystem `fs_name`.
pub fn clear_reconcile_tracker(tracker: &mut ReconcileStallTracker, fs_name: &str)
    ensures
        forall|k: Seq<char>| #[trigger] final(tracker).entry(k) == if k == fs_name@ {
            None
        } else {
            old(tracker).entry(k)
        },
{
    tracker.entries = without(&tracker.entries, fs_name);
}

/// How a filesystem's reconcile status read went.
pub enum ReconcileObservation {
    /// Reconcile is enabled: its sample, and the progress read for it
    /// (`Unavailable` where none was needed or none came).
    Enabled(ReconcileSample, ReconcileProgressSample),
    /// The operator disabled reconcile: pending work is expected.
    Disabled,
    /// The status could not be read.
    Failed,
}

/// The reconcile part of a filesystem's health: whether it is stalled, and
/// whether the stall metric could not be observed for it this cycle.
pub fn reconcile_health(
    tracker: &mut ReconcileStallTracker,
    fs_name: &str,
    observation: &ReconcileObservation,
    now: u64,
    window: u64,
) -> (r: (bool, bool))
    ensures
        match observation {
            ReconcileObservation::Enabled(sample, progress) => {
                &&& (final(tracker).entry(fs_name@), r.0) == spec_stall_step(
                    old(tracker).entry(fs_name@),
                    sample_fingerprint(*sample),
                    *progress,
                    now,
                    window,
                )
                &&& r.1 == (sample.pending is Some && !sample.active && *progress
                    == ReconcileProgressSample::Unavailable)
            },
            _ => {
                &&& !r.0
                &&& r.1 == (*observation is Failed)
                &&& final(tracker).entry(fs_name@) is None
            },
        },
        forall|k: Seq<char>| k != fs_name@ ==> #[trigger] final(tracker).entry(k) == old(tracker).entry(k),
{
    match observation {
        ReconcileObservation::Enabled(sample, progress) => {
            let unavailable = sample.pending.is_some() && !sample.active && *progress
                == ReconcileProgressSample::Unavailable;
            let stalled = reconcile_stall_check_at(tracker, fs_name, sample, *progress, now, window);
            (stalled, unavailable)
        },
        ReconcileObservation::Disabled => {
            clear_reconcile_tracker(tracker, fs_name);
            (false, false)
        },
        ReconcileObservation::Failed => {
            clear_reconcile_tracker(tracker, fs_name);
            (false, true)
        },
    }
}

// ── the start of an evaluation cycle ────────────────────────────

/// The metrics that need the filesystem list.
pub open spec fn is_filesystem_metric(m: AlertMetric) -> bool {
    m == AlertMetric::FsUsagePercent || m == AlertMetric::BcachefsDegraded || m
        == AlertMetric::BcachefsDeviceError || m == AlertMetric::BcachefsDeviceState || m
        == AlertMetric::BcachefsIOErrors || m == AlertMetric::BcachefsScrubErrors || m
        == AlertMetric::BcachefsReconcileStalled
}

/// The metrics that need the disks' SMART data.
pub open spec fn is_disk_metric(m: AlertMetric) -> bool {
    m == AlertMetric::DiskTemperature || m == AlertMetric::SmartHealth || m
        == AlertMetric::SmartAttribute
}

/// The coverage an evaluation cycle starts from, given which of its reads
/// succeeded. Without the system stats the cycle stops (`None`): no alert
/// fires and none counts as observed, so every alert keeps its state.
/// Otherwise the filesystem metrics are unobserved where the filesystem
/// list failed, the disk metrics where SMART monitoring is on and the disk
/// metrics could not be read, and the kernel metric where its counters
/// could not be read.
pub fn cycle_coverage(
    stats_read: bool,
    filesystems_listed: bool,
    smart_enabled: bool,
    disks_read: bool,
    kernel_read: bool,
) -> (r: Option<AlertCoverage>)
    ensures
        !stats_read ==> r is None,
        stats_read ==> r is Some,
        r matches Some(c) ==> {
            &&& forall|m: AlertMetric| #[trigger] c.metric_marked(m) == ((!filesystems_listed
                && is_filesystem_metric(m)) || (smart_enabled && !disks_read && is_disk_metric(m))
                || (!kernel_read && m == AlertMetric::KernelErrors))
            &&& forall|m: AlertMetric, s: Seq<char>| !(#[trigger] c.source_marked(m, s))
            &&& forall|s: Seq<char>| (#[trigger] c.smart_observed(s)) is None
        },
{
    if !stats_read {
        return None;
    }
    let mut c = AlertCoverage::new();
    if !filesystems_listed {
        let fs = filesystem_metrics();
        c.mark_metrics(&fs);
        assert forall|m: AlertMetric| #[trigger] fs@.contains(m) == is_filesystem_metric(m) by {
            if is_filesystem_metric(m) {
                if m == AlertMetric::FsUsagePercent {
                    assert(fs@[0] == m);
                } else if m == AlertMetric::BcachefsDegraded {
                    assert(fs@[1] == m);
                } else if m == AlertMetric::BcachefsDeviceError {
                    assert(fs@[2] == m);
                } else if m == AlertMetric::BcachefsDeviceState {
                    assert(fs@[3] == m);
                } else if m == AlertMetric::BcachefsIOErrors {
                    assert(fs@[4] == m);
                } else if m == AlertMetric::BcachefsScrubErrors {
                    assert(fs@[5] == m);
                } else {
                    assert(fs@[6] == m);
                }
            }
        }
    }
    if smart_enabled && !disks_read {
        let ds = disk_metrics();
        c.mark_metrics(&ds);
        assert forall|m: AlertMetric| #[trigger] ds@.contains(m) == is_disk_metric(m) by {
            if is_disk_metric(m) {
                if m == AlertMetric::DiskTemperature {
                    assert(ds@[0] == m);
                } else if m == AlertMetric::SmartHealth {
                    assert(ds@[1] == m);
                } else {
                    assert(ds@[2] == m);
                }
            }
        }
    }
    if !kernel_read {
        c.mark_metric(AlertMetric::KernelErrors);
    }
    Some(c)
}

// ── acknowledgement ─────────────────────────────────────────────

/// An alert may only be acknowledged while it is active: `active_ids` are
/// the instance ids of the alerts a fresh evaluation found.
pub fn check_still_active(active_ids: &Vec<String>, instance_id: &str) -> (r: Result<(), String>)
    ensures
        r is Ok <==> exists|i: int| 0 <= i < active_ids@.len() && (#[trigger] active_ids@[i])@ == instance_id@,
        r matches Err(m) ==> m@ == "alert is no longer active"@,
{
    let n = active_ids.len();
    for i in 0..n
        invariant
            n == active_ids@.len(),
            forall|j: int| 0 <= j < i ==> (#[trigger] active_ids@[j])@ != instance_id@,
    {
        if str_eq(active_ids[i].as_str(), instance_id) {
            return Ok(());
        }
    }
    Err(String::from_str("alert is no longer active"))
}

// ── laws ────────────────────────────────────────────────────────

/// Pending work seen again, unchanged with the same available progress a
/// full window after it was first seen, is a stall.
pub proof fn law_unchanged_reconcile_stalls_after_window(
    f: Seq<char>,
    progress: ReconcileProgressSample,
    start: u64,
    window: u64,
)
    requires
        progress != ReconcileProgressSample::Unavailable,
        start + window <= u64::MAX,
    ensures
        ({
            let (first, s1) = spec_stall_step(None, Some(f), progress, start, window);
            let (_, s2) = spec_stall_step(first, Some(f), progress, (start + window) as u64, window);
            !s1 && s2
        }),
{
}

/// Movement restarts the window: a sample whose progress changed is no
/// stall, and the window then counts from it.
pub proof fn law_progress_restarts_window(
    prev: (Seq<char>, ReconcileProgressSample, u64),
    progress: ReconcileProgressSample,
    now: u64,
    window: u64,
)
    requires
        progress != ReconcileProgressSample::Unavailable,
        progress != prev.1,
    ensures
        spec_stall_step(Some(prev), Some(prev.0), progress, now, window) == (
            Some((prev.0, progress, now)),
            false,
        ),
{
}

/// Without pending work, or while the thread is working, there is never a
/// stall, and the filesystem is forgotten.
pub proof fn law_no_pending_work_is_no_stall(
    prev: Option<(Seq<char>, ReconcileProgressSample, u64)>,
    progress: ReconcileProgressSample,
    now: u64,
    window: u64,
)
    ensures
        spec_stall_step(prev, None, progress, now, window) == (
            None::<(Seq<char>, ReconcileProgressSample, u64)>,
            false,
        ),
{
}

/// A missing progress answer neither fires nor restarts the window.
pub proof fn law_unavailable_progress_changes_nothing(
    prev: (Seq<char>, ReconcileProgressSample, u64),
    now: u64,
    window: u64,
)
    ensures
        spec_stall_step(Some(prev), Some(prev.0), ReconcileProgressSample::Unavailable, now, window)
            == (Some(prev), false),
{
}

/// A metric marked unavailable leaves every alert of it unobserved, so none
/// resolves this cycle.
pub proof fn law_marked_metric_is_never_observed(c: AlertCoverage, m: AlertMetric, source: Seq<char>)
    requires
        c.metric_marked(m),
    ensures
        !c.observes(m, source),
{
}

/// Once a metric, or a metric's source, is marked unavailable, no alert of it
/// from that source counts as observed again, whatever calls follow: `cs`
/// are the coverage values between the calls, each call keeping the marks
/// (as every mutator of `AlertCoverage` states).
pub proof fn law_marks_outlast_later_calls(
    cs: Seq<AlertCoverage>,
    i: int,
    j: int,
    m: AlertMetric,
    source: Seq<char>,
)
    requires
        0 <= i <= j < cs.len(),
        forall|k: int| i <= k < j ==> keeps_marks(#[trigger] cs[k], cs[k + 1]),
        cs[i].metric_marked(m) || cs[i].source_marked(m, coverage_source(m, source)),
    ensures
        !cs[j].observes(m, source),
    decreases j - i,
{
    if i < j {
        assert(keeps_marks(cs[i], cs[i + 1]));
        law_marks_outlast_later_calls(cs, i + 1, j, m, source);
    }
}

/// A coverage with nothing marked and no SMART attributes recorded, as
/// `new` and `default` make it, observes every alert.
pub proof fn law_fresh_coverage_observes_everything(c: AlertCoverage, m: AlertMetric, source: Seq<char>)
    requires
        forall|x: AlertMetric| !(#[trigger] c.metric_marked(x)),
        forall|x: AlertMetric, s: Seq<char>| !(#[trigger] c.source_marked(x, s)),
        forall|s: Seq<char>| (#[trigger] c.smart_observed(s)) is None,
    ensures
        c.observes(m, source),
{
    assert(!c.metric_marked(m));
    assert(!c.source_marked(m, coverage_source(m, source)));
    assert(c.smart_observed(coverage_source(m, source)) is None);
}

/// After any calls of `mark_metric`, `mark_source` and
/// `observe_smart_attributes` on a fresh coverage, whether an alert counts
/// as observed depends on those calls alone, as `observed_after` says:
/// `cs` are the coverage values before and after each of `calls`.
pub proof fn law_coverage_follows_its_calls(
    cs: Seq<AlertCoverage>,
    calls: Seq<CoverageCall>,
    m: AlertMetric,
    source: Seq<char>,
)
    requires
        cs.len() == calls.len() + 1,
        forall|x: AlertMetric| !(#[trigger] cs[0].metric_marked(x)),
        forall|x: AlertMetric, s: Seq<char>| !(#[trigger] cs[0].source_marked(x, s)),
        forall|s: Seq<char>| (#[trigger] cs[0].smart_observed(s)) is None,
        forall|k: int| 0 <= k < calls.len() ==> call_effect(#[trigger] cs[k], calls[k], cs[k + 1]),
    ensures
        cs.last().observes(m, source) == observed_after(calls, m, source),
{
    lemma_coverage_tracks_calls(cs, calls, calls.len() as int);
    assert(calls.take(calls.len() as int) =~= calls);
    let src = coverage_source(m, source);
    let c = cs[calls.len() as int];
    assert(c.metric_marked(m) == metric_marked_by(calls, m));
    assert(c.source_marked(m, src) == source_marked_by(calls, m, src));
    assert(c.smart_observed(src) == smart_seen_by(calls, src));
}

proof fn lemma_coverage_tracks_calls(cs: Seq<AlertCoverage>, calls: Seq<CoverageCall>, n: int)
    requires
        0 <= n <= calls.len(),
        cs.len() == calls.len() + 1,
        forall|x: AlertMetric| !(#[trigger] cs[0].metric_marked(x)),
        forall|x: AlertMetric, s: Seq<char>| !(#[trigger] cs[0].source_marked(x, s)),
        forall|s: Seq<char>| (#[trigger] cs[0].smart_observed(s)) is None,
        forall|k: int| 0 <= k < calls.len() ==> call_effect(#[trigger] cs[k], calls[k], cs[k + 1]),
    ensures
        forall|x: AlertMetric| #[trigger] cs[n].metric_marked(x) == metric_marked_by(calls.take(n), x),
        forall|x: AlertMetric, s: Seq<char>|
            #[trigger] cs[n].source_marked(x, s) == source_marked_by(calls.take(n), x, s),
        forall|s: Seq<char>| #[trigger] cs[n].smart_observed(s) == smart_seen_by(calls.take(n), s),
    decreases n,
{
    if n > 0 {
        lemma_coverage_tracks_calls(cs, calls, n - 1);
        let pre = calls.take(n);
        assert(pre.drop_last() =~= calls.take(n - 1));
        assert(pre.last() == calls[n - 1]);
        assert(call_effect(cs[n - 1], calls[n - 1], cs[n]));
    } else {
        assert(calls.take(0) =~= Seq::<CoverageCall>::empty());
    }
}

} // verus!
