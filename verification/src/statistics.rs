//! How long the driver takes over each kind of event.

use vstd::prelude::*;

use crate::text::{
    comes_before, lemma_text_before_total, lemma_text_before_transitive, text_before,
};

verus! {

/// After how many measurements the statistics are reported and start anew.
pub const REPORT_INTERVAL: usize = 100;

/// The longest time span that can be summed up, in nanoseconds: 2^64 seconds less one nanosecond.
pub const LONGEST_SPAN: u128 = 18_446_744_073_709_551_615_999_999_999;

/// The sum of some time spans.
pub open spec fn total_time(times: Seq<u128>) -> nat
    decreases times.len(),
{
    if times.len() == 0 {
        0
    } else {
        total_time(times.drop_last()) + times.last() as nat
    }
}

/// The measurements by kind, with one more of the given kind.
pub open spec fn with_measurement(
    m: Map<Seq<char>, Seq<u128>>,
    kind: Seq<char>,
    time: u128,
) -> Map<Seq<char>, Seq<u128>> {
    m.insert(
        kind,
        if m.contains_key(kind) {
            m[kind].push(time)
        } else {
            seq![time]
        },
    )
}

/// Whether the times of each kind can be summed up, if one more measurement makes the report due.
pub open spec fn report_fits(
    m: Map<Seq<char>, Seq<u128>>,
    handled: nat,
    kind: Seq<char>,
    time: u128,
) -> bool {
    kind.len() > 0 && handled + 1 == REPORT_INTERVAL ==> forall|k: Seq<char>|
        with_measurement(m, kind, time).contains_key(k) ==> total_time(
            #[trigger] with_measurement(m, kind, time)[k],
        ) <= LONGEST_SPAN
}

/// The figures of one kind of event.
#[derive(Debug)]
pub struct HandlingStat {
    pub kind: String,
    /// How many were handled.
    pub count: usize,
    /// The average handling time in nanoseconds, rounded down.
    pub average: u128,
}

/// Whether `stat` gives the figures of its kind in `m`.
pub open spec fn is_stat_of(m: Map<Seq<char>, Seq<u128>>, stat: HandlingStat) -> bool {
    &&& m.contains_key(stat.kind@)
    &&& stat.count == m[stat.kind@].len()
    &&& stat.average == total_time(m[stat.kind@]) / m[stat.kind@].len()
}

/// Kinds that were handled more often come first; those handled equally often are in the order
/// of their names.
pub open spec fn ranks_before(a: HandlingStat, b: HandlingStat) -> bool {
    a.count > b.count || a.count == b.count && text_before(a.kind@, b.kind@)
}

/// Whether `report` holds the figures of each kind in `m` once, in the order of the ranks.
pub open spec fn is_report(m: Map<Seq<char>, Seq<u128>>, report: Seq<HandlingStat>) -> bool {
    &&& forall|i: int| 0 <= i < report.len() ==> is_stat_of(m, #[trigger] report[i])
    &&& forall|kind: Seq<char>|
        m.contains_key(kind) ==> exists|i: int| 0 <= i < report.len() && report[i].kind@ == kind
    &&& forall|i: int, j: int|
        0 <= i < j < report.len() ==> ranks_before(#[trigger] report[i], #[trigger] report[j])
}

/// Whether recording a time of some kind reports `report` and leaves the measurements `after`, of
/// which there are `handled_after`.
pub open spec fn logs(
    m: Map<Seq<char>, Seq<u128>>,
    handled: nat,
    kind: Seq<char>,
    time: u128,
    report: Option<Seq<HandlingStat>>,
    after: Map<Seq<char>, Seq<u128>>,
    handled_after: nat,
) -> bool {
    if kind.len() == 0 {
        report is None && after == m && handled_after == handled
    } else if handled + 1 < REPORT_INTERVAL {
        report is None && after == with_measurement(m, kind, time) && handled_after == handled + 1
    } else {
        &&& report matches Some(stats) && is_report(with_measurement(m, kind, time), stats)
        &&& after == Map::<Seq<char>, Seq<u128>>::empty()
        &&& handled_after == 0
    }
}

#[derive(Debug)]
struct KindTimes {
    kind: String,
    times: Vec<u128>,
}

/// The handling times measured since the last report.
#[derive(Debug)]
pub struct HandlingStatistics {
    kinds: Vec<KindTimes>,
    handled_times: usize,
}

spec fn has_kind(kinds: Seq<KindTimes>, kind: Seq<char>, i: int) -> bool {
    0 <= i < kinds.len() && kinds[i].kind@ == kind
}

spec fn times_by_kind(kinds: Seq<KindTimes>) -> Map<Seq<char>, Seq<u128>> {
    Map::new(
        |kind: Seq<char>| exists|i: int| has_kind(kinds, kind, i),
        |kind: Seq<char>| kinds[choose|i: int| has_kind(kinds, kind, i)].times@,
    )
}

spec fn is_ordered(kinds: Seq<KindTimes>) -> bool {
    forall|i: int, j: int|
        0 <= i < j < kinds.len() ==> text_before(
            (#[trigger] kinds[i]).kind@,
            (#[trigger] kinds[j]).kind@,
        )
}

spec fn number_of_times(kinds: Seq<KindTimes>) -> nat
    decreases kinds.len(),
{
    if kinds.len() == 0 {
        0
    } else {
        number_of_times(kinds.drop_last()) + kinds.last().times@.len()
    }
}

proof fn lemma_times_by_kind(kinds: Seq<KindTimes>)
    requires
        is_ordered(kinds),
    ensures
        forall|kind: Seq<char>| #[trigger]
            times_by_kind(kinds).contains_key(kind) <==> exists|i: int| has_kind(kinds, kind, i),
        forall|i: int|
            0 <= i < kinds.len() ==> times_by_kind(kinds).contains_key(kinds[i].kind@)
                && times_by_kind(kinds)[(#[trigger] kinds[i]).kind@] == kinds[i].times@,
{
    assert forall|i: int| 0 <= i < kinds.len() implies times_by_kind(kinds).contains_key(
        kinds[i].kind@,
    ) && times_by_kind(kinds)[(#[trigger] kinds[i]).kind@] == kinds[i].times@ by {
        let kind = kinds[i].kind@;
        assert(has_kind(kinds, kind, i));
        let j = choose|j: int| has_kind(kinds, kind, j);
        if i < j {
            lemma_text_before_total(kinds[i].kind@, kinds[j].kind@);
        } else if j < i {
            lemma_text_before_total(kinds[j].kind@, kinds[i].kind@);
        }
    }
}

proof fn lemma_number_of_times_bounds(kinds: Seq<KindTimes>, i: int)
    requires
        0 <= i < kinds.len(),
    ensures
        kinds[i].times@.len() <= number_of_times(kinds),
    decreases kinds.len(),
{
    if i < kinds.len() - 1 {
        lemma_number_of_times_bounds(kinds.drop_last(), i);
    }
}

proof fn lemma_number_of_times_update(kinds: Seq<KindTimes>, i: int, new: KindTimes)
    requires
        0 <= i < kinds.len(),
        new.times@.len() == kinds[i].times@.len() + 1,
    ensures
        number_of_times(kinds.update(i, new)) == number_of_times(kinds) + 1,
    decreases kinds.len(),
{
    let updated = kinds.update(i, new);
    if i < kinds.len() - 1 {
        lemma_number_of_times_update(kinds.drop_last(), i, new);
        assert(updated.drop_last() =~= kinds.drop_last().update(i, new));
    } else {
        assert(updated.drop_last() =~= kinds.drop_last());
    }
}

proof fn lemma_number_of_times_insert(kinds: Seq<KindTimes>, i: int, new: KindTimes)
    requires
        0 <= i <= kinds.len(),
        new.times@.len() == 1,
    ensures
        number_of_times(kinds.insert(i, new)) == number_of_times(kinds) + 1,
    decreases kinds.len(),
{
    let inserted = kinds.insert(i, new);
    if i < kinds.len() {
        lemma_number_of_times_insert(kinds.drop_last(), i, new);
        assert(inserted.drop_last() =~= kinds.drop_last().insert(i, new));
    } else {
        assert(inserted.drop_last() =~= kinds);
    }
}

proof fn lemma_total_time_bound(times: Seq<u128>)
    requires
        forall|i: int| 0 <= i < times.len() ==> times[i] <= LONGEST_SPAN,
    ensures
        total_time(times) <= times.len() * LONGEST_SPAN,
    decreases times.len(),
{
    if times.len() > 0 {
        lemma_total_time_bound(times.drop_last());
        assert((times.len() - 1) * LONGEST_SPAN + LONGEST_SPAN == times.len() * LONGEST_SPAN)
            by (nonlinear_arith);
    }
}

/// The sum of some time spans.
fn sum_times(times: &Vec<u128>) -> (sum: u128)
    requires
        times@.len() <= REPORT_INTERVAL,
        forall|i: int| 0 <= i < times@.len() ==> times@[i] <= LONGEST_SPAN,
    ensures
        sum == total_time(times@),
        sum <= 100 * LONGEST_SPAN,
{
    let mut sum: u128 = 0;
    let mut i: usize = 0;
    while i < times.len()
        invariant
            i <= times@.len() <= REPORT_INTERVAL,
            forall|j: int| 0 <= j < times@.len() ==> times@[j] <= LONGEST_SPAN,
            sum == total_time(times@.take(i as int)),
            sum <= 100 * LONGEST_SPAN,
        decreases times@.len() - i,
    {
        proof {
            let next = times@.take(i + 1);
            assert(next.drop_last() =~= times@.take(i as int));
            lemma_total_time_bound(next);
            assert(next.len() * LONGEST_SPAN <= 100 * LONGEST_SPAN) by (nonlinear_arith)
                requires
                    next.len() <= 100,
            ;
        }
        sum = sum + times[i];
        i += 1;
    }
    assert(times@.take(i as int) =~= times@);
    sum
}

/// The average of some time spans, rounded down.
fn average_time(times: &Vec<u128>) -> (average: u128)
    requires
        0 < times@.len() <= REPORT_INTERVAL,
        forall|i: int| 0 <= i < times@.len() ==> times@[i] <= LONGEST_SPAN,
    ensures
        average == total_time(times@) / times@.len(),
{
    sum_times(times) / times.len() as u128
}

impl HandlingStatistics {
    /// The handling times by kind, oldest first.
    pub closed spec fn view(&self) -> Map<Seq<char>, Seq<u128>> {
        times_by_kind(self.kinds@)
    }

    /// How many times were measured since the last report.
    pub closed spec fn handled(&self) -> nat {
        self.handled_times as nat
    }

    /// What holds between calls: there are fewer measurements than a report takes, and each
    /// kind that is listed has a name and a measurement.
    pub closed spec fn wf(&self) -> bool {
        &&& is_ordered(self.kinds@)
        &&& number_of_times(self.kinds@) == self.handled_times
        &&& self.handled_times < REPORT_INTERVAL
        &&& forall|i: int|
            0 <= i < self.kinds@.len() ==> (#[trigger] self.kinds@[i]).times@.len() > 0
                && self.kinds@[i].kind@.len() > 0
        &&& forall|i: int, j: int|
            0 <= i < self.kinds@.len() && 0 <= j < self.kinds@[i].times@.len()
                ==> #[trigger] self.kinds@[i].times@[j] <= LONGEST_SPAN
    }

    /// Statistics without measurements.
    pub fn new() -> (stats: HandlingStatistics)
        ensures
            stats.wf(),
            stats@ == Map::<Seq<char>, Seq<u128>>::empty(),
            stats.handled() == 0,
    {
        let kinds: Vec<KindTimes> = Vec::new();
        proof {
            lemma_times_by_kind(kinds@);
            assert(times_by_kind(kinds@) =~= Map::<Seq<char>, Seq<u128>>::empty());
        }
        HandlingStatistics { kinds, handled_times: 0 }
    }

    /// Whether a handling time can be recorded.
    pub fn can_log(&self, kind: &String, time: u128) -> (fits: bool)
        requires
            self.wf(),
            time <= LONGEST_SPAN,
        ensures
            fits == report_fits(self@, self.handled(), kind@, time),
    {
        if kind.as_str().is_empty() || self.handled_times + 1 < REPORT_INTERVAL {
            return true;
        }
        let ghost m = with_measurement(self@, kind@, time);
        proof {
            lemma_times_by_kind(self.kinds@);
        }
        let mut i: usize = 0;
        while i < self.kinds.len()
            invariant
                i <= self.kinds@.len(),
                self.wf(),
                time <= LONGEST_SPAN,
                kind@.len() > 0,
                self.handled() + 1 == REPORT_INTERVAL,
                m == with_measurement(self@, kind@, time),
                forall|j: int|
                    0 <= j < self.kinds@.len() ==> self@.contains_key(self.kinds@[j].kind@)
                        && self@[(#[trigger] self.kinds@[j]).kind@] == self.kinds@[j].times@,
                forall|j: int|
                    0 <= j < i ==> total_time(m[(#[trigger] self.kinds@[j]).kind@])
                        <= LONGEST_SPAN,
            decreases self.kinds@.len() - i,
        {
            let ghost times = self.kinds@[i as int].times@;
            proof {
                lemma_number_of_times_bounds(self.kinds@, i as int);
                assert(times.push(time).drop_last() =~= times);
            }
            let mut total: u128 = sum_times(&self.kinds[i].times);
            if self.kinds[i].kind == *kind {
                total = total + time;
            }
            assert(total == total_time(m[self.kinds@[i as int].kind@]));
            if total > LONGEST_SPAN {
                assert(m.contains_key(self.kinds@[i as int].kind@));
                return false;
            }
            i += 1;
        }
        proof {
            lemma_times_by_kind(self.kinds@);
            assert forall|k: Seq<char>| m.contains_key(k) implies total_time(#[trigger] m[k])
                <= LONGEST_SPAN by {
                if self@.contains_key(k) {
                    let j = choose|j: int| has_kind(self.kinds@, k, j);
                    assert(self.kinds@[j].kind@ == k);
                } else {
                    reveal_with_fuel(total_time, 2);
                    assert(m[k] =~= seq![time]);
                    assert(m[k].drop_last() =~= Seq::<u128>::empty());
                }
            }
        }
        true
    }

    /// Records one handling time, and reports when enough were recorded. Events without a kind
    /// are left out.
    pub fn log_handling(&mut self, kind: String, time: u128) -> (report: Option<Vec<HandlingStat>>)
        requires
            old(self).wf(),
            time <= LONGEST_SPAN,
            report_fits(old(self)@, old(self).handled(), kind@, time),
        ensures
            final(self).wf(),
            kind@.len() == 0 ==> report is None && *final(self) == *old(self),
            kind@.len() > 0 && old(self).handled() + 1 < REPORT_INTERVAL ==> {
                &&& report is None
                &&& final(self)@ == with_measurement(old(self)@, kind@, time)
                &&& final(self).handled() == old(self).handled() + 1
            },
            kind@.len() > 0 && old(self).handled() + 1 == REPORT_INTERVAL ==> {
                &&& report is Some
                &&& is_report(with_measurement(old(self)@, kind@, time), report->0@)
                &&& final(self)@ == Map::<Seq<char>, Seq<u128>>::empty()
                &&& final(self).handled() == 0
            },
            old(self).handled() < REPORT_INTERVAL,
            logs(
                old(self)@,
                old(self).handled(),
                kind@,
                time,
                match report {
                    Some(stats) => Some(stats@),
                    None => None,
                },
                final(self)@,
                final(self).handled(),
            ),
    {
        if kind.as_str().is_empty() {
            return None;
        }
        self.record(kind, time);
        self.handled_times = self.handled_times + 1;
        if self.handled_times < REPORT_INTERVAL {
            return None;
        }
        let report = self.summarize();
        self.kinds = Vec::new();
        self.handled_times = 0;
        proof {
            lemma_times_by_kind(self.kinds@);
            assert(times_by_kind(self.kinds@) =~= Map::<Seq<char>, Seq<u128>>::empty());
        }
        Some(report)
    }

    fn record(&mut self, kind: String, time: u128)
        requires
            old(self).wf(),
            kind@.len() > 0,
            time <= LONGEST_SPAN,
        ensures
            is_ordered(final(self).kinds@),
            number_of_times(final(self).kinds@) == number_of_times(old(self).kinds@) + 1,
            final(self).handled_times == old(self).handled_times,
            forall|i: int|
                0 <= i < final(self).kinds@.len() ==> (#[trigger] final(self).kinds@[i]).times@.len()
                    > 0 && final(self).kinds@[i].kind@.len() > 0,
            forall|i: int, j: int|
                0 <= i < final(self).kinds@.len() && 0 <= j < final(self).kinds@[i].times@.len()
                    ==> #[trigger] final(self).kinds@[i].times@[j] <= LONGEST_SPAN,
            final(self)@ == with_measurement(old(self)@, kind@, time),
    {
        let ghost before = self.kinds@;
        let mut i: usize = 0;
        while i < self.kinds.len() && comes_before(self.kinds[i].kind.as_str(), kind.as_str())
            invariant
                i <= self.kinds@.len(),
                self.kinds@ == before,
                forall|j: int| 0 <= j < i ==> text_before((#[trigger] before[j]).kind@, kind@),
            decreases self.kinds@.len() - i,
        {
            i += 1;
        }
        if i < self.kinds.len() && self.kinds[i].kind == kind {
            let mut entry = self.kinds.remove(i);
            entry.times.push(time);
            self.kinds.insert(i, entry);
            proof {
                assert(self.kinds@ =~= before.update(i as int, entry));
                lemma_number_of_times_update(before, i as int, entry);
                lemma_update_measurement(before, i as int, entry, time);
            }
        } else {
            let mut times: Vec<u128> = Vec::new();
            times.push(time);
            let ghost name = kind@;
            let entry = KindTimes { kind, times };
            self.kinds.insert(i, entry);
            proof {
                assert(self.kinds@ =~= before.insert(i as int, entry));
                if i < before.len() {
                    lemma_text_before_total(before[i as int].kind@, name);
                }
                lemma_number_of_times_insert(before, i as int, entry);
                lemma_insert_measurement(before, i as int, entry, time);
            }
        }
    }

    fn summarize(&self) -> (report: Vec<HandlingStat>)
        requires
            is_ordered(self.kinds@),
            number_of_times(self.kinds@) <= REPORT_INTERVAL,
            forall|i: int|
                0 <= i < self.kinds@.len() ==> (#[trigger] self.kinds@[i]).times@.len() > 0,
            forall|i: int, j: int|
                0 <= i < self.kinds@.len() && 0 <= j < self.kinds@[i].times@.len()
                    ==> #[trigger] self.kinds@[i].times@[j] <= LONGEST_SPAN,
        ensures
            is_report(self@, report@),
    {
        let mut report: Vec<HandlingStat> = Vec::new();
        let mut i: usize = 0;
        assert(reports_first(self.kinds@, 0, report@)) by {
            reveal(reports_first);
        }
        while i < self.kinds.len()
            invariant
                i <= self.kinds@.len(),
                is_ordered(self.kinds@),
                number_of_times(self.kinds@) <= REPORT_INTERVAL,
                forall|i: int|
                    0 <= i < self.kinds@.len() ==> (#[trigger] self.kinds@[i]).times@.len() > 0,
                forall|i: int, j: int|
                    0 <= i < self.kinds@.len() && 0 <= j < self.kinds@[i].times@.len()
                        ==> #[trigger] self.kinds@[i].times@[j] <= LONGEST_SPAN,
                reports_first(self.kinds@, i as int, report@),
            decreases self.kinds@.len() - i,
        {
            let count: usize = self.kinds[i].times.len();
            proof {
                lemma_number_of_times_bounds(self.kinds@, i as int);
            }
            let average: u128 = average_time(&self.kinds[i].times);
            let mut p: usize = 0;
            while p < report.len() && report[p].count >= count
                invariant
                    p <= report@.len(),
                    forall|j: int| 0 <= j < p ==> (#[trigger] report@[j]).count >= count,
                decreases report@.len() - p,
            {
                p += 1;
            }
            let ghost earlier = report@;
            let stat = HandlingStat { kind: self.kinds[i].kind.clone(), count, average };
            report.insert(p, stat);
            proof {
                assert(report@ =~= earlier.insert(p as int, stat));
                lemma_report_next(self.kinds@, i as int, earlier, p as int, stat);
            }
            i += 1;
        }
        proof {
            lemma_report_complete(self.kinds@, report@);
        }
        report
    }
}

spec fn is_stat_of_kind(stat: HandlingStat, entry: KindTimes) -> bool {
    &&& stat.kind@ == entry.kind@
    &&& stat.count == entry.times@.len()
    &&& stat.average == total_time(entry.times@) / entry.times@.len()
}

/// Whether `stat` gives the figures of one of the first `n` kinds.
spec fn is_stat_of_first(stat: HandlingStat, kinds: Seq<KindTimes>, n: int) -> bool {
    exists|k: int| 0 <= k < n && is_stat_of_kind(stat, #[trigger] kinds[k])
}

/// Whether `report` gives the figures of the kind `entry`.
spec fn has_stat_of(report: Seq<HandlingStat>, entry: KindTimes) -> bool {
    exists|j: int| 0 <= j < report.len() && is_stat_of_kind(#[trigger] report[j], entry)
}

spec fn is_ranked(report: Seq<HandlingStat>) -> bool {
    forall|i: int, j: int|
        0 <= i < j < report.len() ==> ranks_before(#[trigger] report[i], #[trigger] report[j])
}

/// Whether `report` ranks the figures of the first `n` kinds.
#[verifier::opaque]
spec fn reports_first(kinds: Seq<KindTimes>, n: int, report: Seq<HandlingStat>) -> bool {
    &&& forall|j: int|
        #![trigger is_stat_of_first(report[j], kinds, n)]
        0 <= j < report.len() ==> is_stat_of_first(report[j], kinds, n)
    &&& forall|k: int|
        #![trigger has_stat_of(report, kinds[k])]
        0 <= k < n ==> has_stat_of(report, kinds[k])
    &&& is_ranked(report)
}

proof fn lemma_report_next(
    kinds: Seq<KindTimes>,
    n: int,
    earlier: Seq<HandlingStat>,
    p: int,
    stat: HandlingStat,
)
    requires
        is_ordered(kinds),
        0 <= n < kinds.len(),
        reports_first(kinds, n, earlier),
        is_stat_of_kind(stat, kinds[n]),
        0 <= p <= earlier.len(),
        forall|j: int| 0 <= j < p ==> (#[trigger] earlier[j]).count >= stat.count,
        p < earlier.len() ==> earlier[p].count < stat.count,
    ensures
        reports_first(kinds, n + 1, earlier.insert(p, stat)),
{
    reveal(reports_first);
    let report = earlier.insert(p, stat);
    assert forall|j: int| 0 <= j < report.len() implies is_stat_of_first(report[j], kinds, n + 1) by {
        if j == p {
            assert(is_stat_of_kind(report[j], kinds[n]));
        } else {
            let e = if j < p { j } else { j - 1 };
            assert(report[j] == earlier[e]);
            assert(is_stat_of_first(earlier[e], kinds, n));
            let k = choose|k: int| 0 <= k < n && is_stat_of_kind(earlier[e], #[trigger] kinds[k]);
            assert(is_stat_of_kind(report[j], kinds[k]));
        }
    }
    assert forall|k: int| 0 <= k < n + 1 implies has_stat_of(report, kinds[k]) by {
        if k == n {
            assert(is_stat_of_kind(report[p], kinds[k]));
        } else {
            assert(has_stat_of(earlier, kinds[k]));
            let j = choose|j: int|
                0 <= j < earlier.len() && is_stat_of_kind(#[trigger] earlier[j], kinds[k]);
            let r = if j < p { j } else { j + 1 };
            assert(report[r] == earlier[j]);
        }
    }
    lemma_ranked_insert(kinds, n, earlier, p, stat);
}

proof fn lemma_ranked_insert(
    kinds: Seq<KindTimes>,
    n: int,
    earlier: Seq<HandlingStat>,
    p: int,
    stat: HandlingStat,
)
    requires
        is_ordered(kinds),
        0 <= n < kinds.len(),
        reports_first(kinds, n, earlier),
        is_stat_of_kind(stat, kinds[n]),
        0 <= p <= earlier.len(),
        forall|j: int| 0 <= j < p ==> (#[trigger] earlier[j]).count >= stat.count,
        p < earlier.len() ==> earlier[p].count < stat.count,
    ensures
        is_ranked(earlier.insert(p, stat)),
{
    reveal(reports_first);
    let report = earlier.insert(p, stat);
    assert forall|j: int| 0 <= j < earlier.len() implies text_before(
        (#[trigger] earlier[j]).kind@,
        stat.kind@,
    ) by {
        assert(is_stat_of_first(earlier[j], kinds, n));
        let k = choose|k: int| 0 <= k < n && is_stat_of_kind(earlier[j], #[trigger] kinds[k]);
        assert(text_before(kinds[k].kind@, kinds[n].kind@));
    }
    assert forall|i: int, j: int| 0 <= i < j < report.len() implies ranks_before(
        #[trigger] report[i],
        #[trigger] report[j],
    ) by {
        let a = if i < p { i } else { i - 1 };
        let b = if j < p { j } else { j - 1 };
        if i == p {
            assert(report[j] == earlier[b]);
            if p < b {
                assert(ranks_before(earlier[p], earlier[b]));
            }
        } else if j == p {
            assert(report[i] == earlier[a]);
        } else {
            assert(ranks_before(earlier[a], earlier[b]));
        }
    }
}

proof fn lemma_report_complete(kinds: Seq<KindTimes>, report: Seq<HandlingStat>)
    requires
        is_ordered(kinds),
        reports_first(kinds, kinds.len() as int, report),
    ensures
        is_report(times_by_kind(kinds), report),
{
    reveal(reports_first);
    let m = times_by_kind(kinds);
    lemma_times_by_kind(kinds);
    assert forall|j: int| 0 <= j < report.len() implies is_stat_of(m, #[trigger] report[j]) by {
        assert(is_stat_of_first(report[j], kinds, kinds.len() as int));
        let k = choose|k: int|
            0 <= k < kinds.len() && is_stat_of_kind(report[j], #[trigger] kinds[k]);
        assert(m[kinds[k].kind@] == kinds[k].times@);
    }
    assert forall|kind: Seq<char>| m.contains_key(kind) implies exists|j: int|
        0 <= j < report.len() && report[j].kind@ == kind by {
        let k = choose|k: int| has_kind(kinds, kind, k);
        assert(has_stat_of(report, kinds[k]));
        let j = choose|j: int|
            0 <= j < report.len() && is_stat_of_kind(#[trigger] report[j], kinds[k]);
        assert(report[j].kind@ == kind);
    }
}

proof fn lemma_update_measurement(kinds: Seq<KindTimes>, i: int, new: KindTimes, time: u128)
    requires
        is_ordered(kinds),
        0 <= i < kinds.len(),
        new.kind@ == kinds[i].kind@,
        new.times@ == kinds[i].times@.push(time),
    ensures
        is_ordered(kinds.update(i, new)),
        times_by_kind(kinds.update(i, new)) == with_measurement(
            times_by_kind(kinds),
            new.kind@,
            time,
        ),
{
    let updated = kinds.update(i, new);
    lemma_times_by_kind(kinds);
    assert(is_ordered(updated));
    lemma_times_by_kind(updated);
    let expected = with_measurement(times_by_kind(kinds), new.kind@, time);
    assert forall|kind: Seq<char>| times_by_kind(updated).contains_key(kind)
        == expected.contains_key(kind) by {
        if exists|j: int| has_kind(updated, kind, j) {
            let j = choose|j: int| has_kind(updated, kind, j);
            assert(has_kind(kinds, kind, j));
        }
        if exists|j: int| has_kind(kinds, kind, j) {
            let j = choose|j: int| has_kind(kinds, kind, j);
            assert(has_kind(updated, kind, j));
        }
        assert(has_kind(kinds, new.kind@, i));
    }
    assert forall|kind: Seq<char>| times_by_kind(updated).contains_key(kind) implies times_by_kind(
        updated,
    )[kind] == expected[kind] by {
        let j = choose|j: int| has_kind(updated, kind, j);
        assert(updated[j].kind@ == kind);
        assert(kinds[i].kind@ == new.kind@);
        if j != i {
            assert(kinds[j] == updated[j]);
            if j < i {
                lemma_text_before_total(kinds[j].kind@, kinds[i].kind@);
            } else {
                lemma_text_before_total(kinds[i].kind@, kinds[j].kind@);
            }
        }
    }
    assert(times_by_kind(updated) =~= expected);
}

proof fn lemma_insert_measurement(kinds: Seq<KindTimes>, i: int, new: KindTimes, time: u128)
    requires
        is_ordered(kinds),
        0 <= i <= kinds.len(),
        forall|j: int| 0 <= j < i ==> text_before((#[trigger] kinds[j]).kind@, new.kind@),
        i < kinds.len() ==> text_before(new.kind@, kinds[i].kind@),
        new.times@ == seq![time],
    ensures
        is_ordered(kinds.insert(i, new)),
        times_by_kind(kinds.insert(i, new)) == with_measurement(
            times_by_kind(kinds),
            new.kind@,
            time,
        ),
{
    let inserted = kinds.insert(i, new);
    assert forall|j: int| i <= j < kinds.len() implies text_before(
        new.kind@,
        (#[trigger] kinds[j]).kind@,
    ) by {
        if i < j {
            assert(text_before(kinds[i].kind@, kinds[j].kind@));
            lemma_text_before_transitive(new.kind@, kinds[i].kind@, kinds[j].kind@);
        }
    }
    assert forall|j: int, k: int| 0 <= j < k < inserted.len() implies text_before(
        (#[trigger] inserted[j]).kind@,
        (#[trigger] inserted[k]).kind@,
    ) by {
        let a = if j < i { j } else { j - 1 };
        let b = if k < i { k } else { k - 1 };
        if j != i && k != i {
            assert(text_before(kinds[a].kind@, kinds[b].kind@));
        } else if j == i {
            assert(inserted[k] == kinds[b]);
        } else {
            assert(inserted[j] == kinds[a]);
        }
    }
    lemma_times_by_kind(kinds);
    lemma_times_by_kind(inserted);
    let expected = with_measurement(times_by_kind(kinds), new.kind@, time);
    assert(!times_by_kind(kinds).contains_key(new.kind@)) by {
        if exists|j: int| has_kind(kinds, new.kind@, j) {
            let j = choose|j: int| has_kind(kinds, new.kind@, j);
            lemma_text_before_total(kinds[j].kind@, new.kind@);
        }
    }
    assert forall|kind: Seq<char>| times_by_kind(inserted).contains_key(kind)
        == expected.contains_key(kind) by {
        if exists|j: int| has_kind(inserted, kind, j) {
            let j = choose|j: int| has_kind(inserted, kind, j);
            if j != i {
                assert(has_kind(kinds, kind, if j < i { j } else { j - 1 }));
            }
        }
        if exists|j: int| has_kind(kinds, kind, j) {
            let j = choose|j: int| has_kind(kinds, kind, j);
            assert(has_kind(inserted, kind, if j < i { j } else { j + 1 }));
        }
        assert(has_kind(inserted, new.kind@, i));
    }
    assert forall|kind: Seq<char>| times_by_kind(inserted).contains_key(kind) implies times_by_kind(
        inserted,
    )[kind] == expected[kind] by {
        let j = choose|j: int| has_kind(inserted, kind, j);
        assert(inserted[j].kind@ == kind);
        if j != i {
            let k = if j < i { j } else { j - 1 };
            assert(kinds[k] == inserted[j]);
            lemma_text_before_total(kinds[k].kind@, new.kind@);
        }
    }
    assert(times_by_kind(inserted) =~= expected);
}

proof fn lemma_ranks_before_asymmetric(a: HandlingStat, b: HandlingStat)
    ensures
        !(ranks_before(a, b) && ranks_before(b, a)),
        a.kind@ == b.kind@ && a.count == b.count ==> !ranks_before(a, b),
{
    lemma_text_before_total(a.kind@, b.kind@);
}

proof fn lemma_report_position(
    m: Map<Seq<char>, Seq<u128>>,
    a: Seq<HandlingStat>,
    b: Seq<HandlingStat>,
    i: int,
)
    requires
        is_report(m, a),
        is_report(m, b),
        0 <= i < a.len(),
    ensures
        i < b.len(),
        a[i].kind@ == b[i].kind@,
        a[i].count == b[i].count,
        a[i].average == b[i].average,
    decreases i,
{
    assert forall|k: int| 0 <= k < i implies k < b.len() && (#[trigger] a[k]).kind@ == b[k].kind@ by {
        lemma_report_position(m, a, b, k);
    }
    assert(is_stat_of(m, a[i]));
    let j = choose|j: int| 0 <= j < b.len() && b[j].kind@ == a[i].kind@;
    assert(is_stat_of(m, b[j]));
    if j < i {
        assert(a[j].kind@ == b[j].kind@);
        assert(is_stat_of(m, a[j]));
        assert(ranks_before(a[j], a[i]));
        lemma_ranks_before_asymmetric(a[j], a[i]);
    } else if i < j {
        assert(is_stat_of(m, b[i]));
        let k = choose|k: int| 0 <= k < a.len() && a[k].kind@ == b[i].kind@;
        assert(is_stat_of(m, a[k]));
        assert(ranks_before(b[i], b[j]));
        lemma_ranks_before_asymmetric(b[i], b[j]);
        if k < i {
            assert(a[k].kind@ == b[k].kind@);
            assert(is_stat_of(m, b[k]));
            assert(ranks_before(b[k], b[i]));
            lemma_ranks_before_asymmetric(b[k], b[i]);
        } else if i < k {
            assert(ranks_before(a[i], a[k]));
            lemma_ranks_before_asymmetric(a[i], a[k]);
        }
    }
}

/// There is only one report on given measurements.
pub proof fn law_report_is_unique(
    m: Map<Seq<char>, Seq<u128>>,
    a: Seq<HandlingStat>,
    b: Seq<HandlingStat>,
)
    requires
        is_report(m, a),
        is_report(m, b),
    ensures
        a.len() == b.len(),
        forall|i: int|
            0 <= i < a.len() ==> (#[trigger] a[i]).kind@ == b[i].kind@ && a[i].count == b[i].count
                && a[i].average == b[i].average,
{
    assert forall|i: int| 0 <= i < a.len() implies (#[trigger] a[i]).kind@ == b[i].kind@
        && a[i].count == b[i].count && a[i].average == b[i].average by {
        lemma_report_position(m, a, b, i);
    }
    if a.len() > 0 {
        lemma_report_position(m, a, b, a.len() - 1);
    }
    if b.len() > 0 {
        lemma_report_position(m, b, a, b.len() - 1);
    }
}

/// How many measurements there are, of all kinds together.
pub open spec fn number_of_measurements(m: Map<Seq<char>, Seq<u128>>) -> nat
    decreases m.dom().len(),
    when m.dom().finite()
{
    if m.dom().len() == 0 {
        0
    } else {
        let kind = m.dom().choose();
        m[kind].len() + number_of_measurements(m.remove(kind))
    }
}

proof fn lemma_number_of_measurements_remove(m: Map<Seq<char>, Seq<u128>>, kind: Seq<char>)
    requires
        m.dom().finite(),
        m.contains_key(kind),
    ensures
        number_of_measurements(m) == m[kind].len() + number_of_measurements(m.remove(kind)),
    decreases m.dom().len(),
{
    let first = m.dom().choose();
    assert(m.dom().contains(kind));
    if m.dom().len() == 0 {
        assert(m.dom() =~= Set::<Seq<char>>::empty());
    }
    assert(m.dom().contains(first));
    if first != kind {
        lemma_number_of_measurements_remove(m.remove(first), kind);
        lemma_number_of_measurements_remove(m.remove(kind), first);
        assert(m.remove(first).remove(kind) =~= m.remove(kind).remove(first));
    }
}

proof fn lemma_measurements_are_counted(kinds: Seq<KindTimes>)
    requires
        is_ordered(kinds),
    ensures
        times_by_kind(kinds).dom().finite(),
        number_of_measurements(times_by_kind(kinds)) == number_of_times(kinds),
    decreases kinds.len(),
{
    let m = times_by_kind(kinds);
    lemma_times_by_kind(kinds);
    if kinds.len() == 0 {
        assert(m =~= Map::<Seq<char>, Seq<u128>>::empty());
    } else {
        let earlier = kinds.drop_last();
        let last = kinds.last();
        let before = times_by_kind(earlier);
        lemma_measurements_are_counted(earlier);
        lemma_times_by_kind(earlier);
        assert(has_kind(kinds, last.kind@, kinds.len() - 1));
        assert forall|kind: Seq<char>| m.remove(last.kind@).contains_key(kind)
            == before.contains_key(kind) by {
            if before.contains_key(kind) {
                let i = choose|i: int| has_kind(earlier, kind, i);
                assert(has_kind(kinds, kind, i));
                lemma_text_before_total(kinds[i].kind@, last.kind@);
                assert(text_before(kinds[i].kind@, kinds[kinds.len() - 1].kind@));
            }
            if m.remove(last.kind@).contains_key(kind) {
                let i = choose|i: int| has_kind(kinds, kind, i);
                assert(has_kind(earlier, kind, i));
            }
        }
        assert forall|kind: Seq<char>| before.contains_key(kind) implies m.remove(last.kind@)[kind]
            == before[kind] by {
            let i = choose|i: int| has_kind(earlier, kind, i);
            assert(earlier[i] == kinds[i]);
            assert(m.remove(last.kind@).contains_key(kind));
        }
        assert(m.remove(last.kind@) =~= before);
        assert(m.dom() =~= before.dom().insert(last.kind@));
        lemma_number_of_measurements_remove(m, last.kind@);
        assert(m[last.kind@] == kinds[kinds.len() - 1].times@);
    }
}

/// Between calls the counter tells how many measurements there are, fewer than a report takes;
/// every kind that is listed has a measurement; and no kind is without a name.
pub proof fn law_measurements_are_counted(stats: HandlingStatistics)
    requires
        stats.wf(),
    ensures
        stats@.dom().finite(),
        stats.handled() == number_of_measurements(stats@),
        stats.handled() < REPORT_INTERVAL,
        forall|kind: Seq<char>| #[trigger]
            stats@.contains_key(kind) ==> stats@[kind].len() > 0 && kind.len() > 0,
{
    lemma_measurements_are_counted(stats.kinds@);
    lemma_times_by_kind(stats.kinds@);
    assert forall|kind: Seq<char>| #[trigger] stats@.contains_key(kind) implies stats@[kind].len()
        > 0 && kind.len() > 0 by {
        let i = choose|i: int| has_kind(stats.kinds@, kind, i);
        assert(stats@[stats.kinds@[i].kind@] == stats.kinds@[i].times@);
    }
}

/// Sums of time spans add up.
pub proof fn law_total_time_adds_up(a: Seq<u128>, b: Seq<u128>, time: u128)
    ensures
        total_time(a + b) == total_time(a) + total_time(b),
        total_time(seq![time]) == time,
        total_time(Seq::empty()) == 0,
    decreases b.len(),
{
    reveal_with_fuel(total_time, 2);
    assert(seq![time].drop_last() =~= Seq::<u128>::empty());
    if b.len() == 0 {
        assert(a + b =~= a);
    } else {
        law_total_time_adds_up(a, b.drop_last(), time);
        assert((a + b).drop_last() =~= a + b.drop_last());
    }
}

/// Recording a time puts it behind the earlier ones of its kind, and leaves every other kind as it
/// was.
pub proof fn law_one_measurement_is_added(
    m: Map<Seq<char>, Seq<u128>>,
    kind: Seq<char>,
    time: u128,
    other: Seq<char>,
)
    requires
        other != kind,
    ensures
        with_measurement(m, kind, time).contains_key(kind),
        with_measurement(m, kind, time)[kind].last() == time,
        m.contains_key(kind) ==> with_measurement(m, kind, time)[kind].drop_last() == m[kind],
        !m.contains_key(kind) ==> with_measurement(m, kind, time)[kind].len() == 1,
        with_measurement(m, kind, time)[kind].len() > 0,
        with_measurement(m, kind, time).contains_key(other) <==> m.contains_key(other),
        m.contains_key(other) ==> with_measurement(m, kind, time)[other] == m[other],
{
    if m.contains_key(kind) {
        assert(with_measurement(m, kind, time)[kind].drop_last() =~= m[kind]);
    }
}

/// Every hundredth time is reported together with the ninety-nine before it, and then all starts
/// anew; the others are only counted. What has no kind changes nothing.
pub proof fn law_every_hundredth_time_reports(
    m: Map<Seq<char>, Seq<u128>>,
    handled: nat,
    kind: Seq<char>,
    time: u128,
    report: Option<Seq<HandlingStat>>,
    after: Map<Seq<char>, Seq<u128>>,
    handled_after: nat,
)
    requires
        handled < 100,
        logs(m, handled, kind, time, report, after, handled_after),
    ensures
        report is Some <==> kind.len() > 0 && handled == 99,
        kind.len() == 0 ==> after == m && handled_after == handled,
        kind.len() > 0 && handled < 99 ==> handled_after == handled + 1 && after.contains_key(kind)
            && after[kind].last() == time,
        report is Some ==> handled_after == 0 && forall|k: Seq<char>| !after.contains_key(k),
        report matches Some(stats) ==> exists|i: int|
            0 <= i < stats.len() && (#[trigger] stats[i]).kind@ == kind && stats[i].count
                == with_measurement(m, kind, time)[kind].len(),
{
    if let Some(stats) = report {
        let all = with_measurement(m, kind, time);
        assert(all.contains_key(kind));
        let i = choose|i: int| 0 <= i < stats.len() && stats[i].kind@ == kind;
        assert(is_stat_of(all, stats[i]));
    }
}

/// A report tells of each kind once: how many times were measured, and their average, which is the
/// largest number that, taken so often, does not exceed their sum. The kinds with more
/// measurements come first, and equal ones by their names.
pub proof fn law_report_tells_count_and_average(
    m: Map<Seq<char>, Seq<u128>>,
    report: Seq<HandlingStat>,
    kind: Seq<char>,
    i: int,
    j: int,
)
    requires
        is_report(m, report),
        forall|k: Seq<char>| #[trigger] m.contains_key(k) ==> m[k].len() > 0,
        0 <= i < report.len(),
    ensures
        m.contains_key(report[i].kind@),
        report[i].count == m[report[i].kind@].len(),
        report[i].average * report[i].count <= total_time(m[report[i].kind@]) < (report[i].average
            + 1) * report[i].count,
        m.contains_key(kind) <==> exists|k: int|
            0 <= k < report.len() && (#[trigger] report[k]).kind@ == kind,
        i < j < report.len() ==> {
            &&& report[i].count >= report[j].count
            &&& report[i].kind@ != report[j].kind@
            &&& report[i].count == report[j].count ==> text_before(report[i].kind@, report[j].kind@)
        },
{
    assert(is_stat_of(m, report[i]));
    let total = total_time(m[report[i].kind@]) as int;
    let count = report[i].count as int;
    let average = report[i].average as int;
    assert(m.contains_key(report[i].kind@));
    assert(average * count <= total && total < (average + 1) * count) by (nonlinear_arith)
        requires
            average == total / count,
            count > 0,
    ;
    if exists|k: int| 0 <= k < report.len() && (#[trigger] report[k]).kind@ == kind {
        let k = choose|k: int| 0 <= k < report.len() && (#[trigger] report[k]).kind@ == kind;
        assert(is_stat_of(m, report[k]));
    }
    if m.contains_key(kind) {
        let k = choose|k: int| 0 <= k < report.len() && report[k].kind@ == kind;
        assert(report[k].kind@ == kind);
    }
    if i < j < report.len() {
        assert(is_stat_of(m, report[j]));
        assert(ranks_before(report[i], report[j]));
        lemma_text_before_total(report[i].kind@, report[j].kind@);
    }
}

/// A time span is at most 2^64 seconds less one nanosecond.
pub proof fn law_longest_span()
    ensures
        LONGEST_SPAN + 1 == 0x1_0000_0000_0000_0000int * 1_000_000_000,
        REPORT_INTERVAL == 100,
{
}

/// A time can always be recorded unless it is the hundredth; and that one exactly where the times
/// of its own kind, with it, and those of every other kind sum up to less than 2^64 seconds.
pub proof fn law_times_can_be_recorded(
    m: Map<Seq<char>, Seq<u128>>,
    handled: nat,
    kind: Seq<char>,
    time: u128,
)
    ensures
        kind.len() == 0 || handled != 99 ==> report_fits(m, handled, kind, time),
        kind.len() > 0 && handled == 99 ==> (report_fits(m, handled, kind, time) <==> {
            &&& time + (if m.contains_key(kind) {
                total_time(m[kind])
            } else {
                0
            }) < 0x1_0000_0000_0000_0000int * 1_000_000_000
            &&& forall|other: Seq<char>|
                other != kind && #[trigger] m.contains_key(other) ==> total_time(m[other])
                    < 0x1_0000_0000_0000_0000int * 1_000_000_000
        }),
{
    let all = with_measurement(m, kind, time);
    law_total_time_adds_up(Seq::empty(), Seq::empty(), time);
    if m.contains_key(kind) {
        assert(all[kind].drop_last() =~= m[kind]);
    }
    assert(all.contains_key(kind));
    if kind.len() > 0 && handled == 99 {
        if report_fits(m, handled, kind, time) {
            assert(total_time(all[kind]) <= LONGEST_SPAN);
            assert forall|other: Seq<char>| other != kind && #[trigger] m.contains_key(
                other,
            ) implies total_time(m[other]) < 0x1_0000_0000_0000_0000int * 1_000_000_000 by {
                assert(all.contains_key(other) && all[other] == m[other]);
            }
        }
        if forall|other: Seq<char>|
            other != kind && #[trigger] m.contains_key(other) ==> total_time(m[other])
                < 0x1_0000_0000_0000_0000int * 1_000_000_000 {
            assert forall|k: Seq<char>|
                all.contains_key(k) && total_time(all[kind]) <= LONGEST_SPAN implies total_time(
                #[trigger] all[k],
            ) <= LONGEST_SPAN by {
                if k != kind {
                    assert(m.contains_key(k));
                }
            }
        }
    }
}

} // verus!
