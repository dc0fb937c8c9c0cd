//! The daily report: the timeline of one day's events and the time spent in
//! each application, estimated from the number of samples.

use crate::database::{is_day_selection, views, CaptureRecord, Database, RecordView};
use crate::error::ReportError;
use crate::text::{decimal, find_char, first_index, push_decimal};
use vstd::prelude::*;
use vstd::string::*;

verus! {

/// One line of the timeline, as mathematical values.
pub struct EntryView {
    pub time: Seq<char>,
    pub active_app: Seq<char>,
    pub window_title: Seq<char>,
}

/// One line of the timeline: what was in the foreground at a time of day.
#[derive(Debug)]
pub struct TimelineEntry {
    pub time: String,
    pub active_app: String,
    pub window_title: String,
}

impl View for TimelineEntry {
    type V = EntryView;

    open spec fn view(&self) -> EntryView {
        EntryView {
            time: self.time@,
            active_app: self.active_app@,
            window_title: self.window_title@,
        }
    }
}

/// The time spent in one application, as mathematical values.
pub struct SummaryView {
    pub app_name: Seq<char>,
    pub duration_seconds: u64,
    pub capture_count: u64,
}

/// The time spent in one application on one day.
#[derive(Debug)]
pub struct AppSummary {
    pub app_name: String,
    pub duration_seconds: u64,
    pub capture_count: u64,
}

impl View for AppSummary {
    type V = SummaryView;

    open spec fn view(&self) -> SummaryView {
        SummaryView {
            app_name: self.app_name@,
            duration_seconds: self.duration_seconds,
            capture_count: self.capture_count,
        }
    }
}

/// The time of day in a stamp: what stands between its first `T` and its
/// next `T` or its end. A stamp without `T` is taken whole.
pub open spec fn time_part(stamp: Seq<char>) -> Seq<char> {
    let start = first_index(stamp, 'T', 0);
    if start >= stamp.len() {
        stamp
    } else {
        stamp.subrange(start + 1, first_index(stamp, 'T', start + 1))
    }
}

/// A duration in whole hours and whole minutes of the rest, the hours left
/// out where there are none. Seconds beyond the last whole minute are
/// dropped.
pub open spec fn duration_text(seconds: u64) -> Seq<char> {
    let hours = (seconds / 3600) as nat;
    let minutes = ((seconds % 3600) / 60) as nat;
    if hours > 0 {
        decimal(hours) + "時間"@ + decimal(minutes) + "分"@
    } else {
        decimal(minutes) + "分"@
    }
}

/// The time of day in a stamp.
pub fn extract_time(timestamp: &str) -> (time: String)
    ensures
        time@ == time_part(timestamp@),
{
    let n = timestamp.unicode_len();
    let start = find_char(timestamp, 'T', 0);
    if start >= n {
        String::from_str(timestamp)
    } else {
        let end = find_char(timestamp, 'T', start + 1);
        String::from_str(timestamp.substring_char(start + 1, end))
    }
}

/// A duration for the reader, in hours and minutes.
pub fn format_duration(seconds: u64) -> (text: String)
    ensures
        text@ == duration_text(seconds),
{
    let hours = seconds / 3600;
    let minutes = (seconds % 3600) / 60;
    let mut text = String::new();
    if hours > 0 {
        push_decimal(&mut text, hours);
        text.append("時間");
    }
    push_decimal(&mut text, minutes);
    text.append("分");
    assert(text@ =~= duration_text(seconds));
    text
}

/// The views of a timeline.
pub open spec fn entry_views(entries: Seq<TimelineEntry>) -> Seq<EntryView> {
    entries.map_values(|e: TimelineEntry| e@)
}

/// The views of a list of summaries.
pub open spec fn summary_views(groups: Seq<AppSummary>) -> Seq<SummaryView> {
    groups.map_values(|g: AppSummary| g@)
}

/// The timeline line of an event.
pub open spec fn entry_of(row: RecordView) -> EntryView {
    EntryView {
        time: time_part(row.captured_at),
        active_app: row.active_app,
        window_title: row.window_title,
    }
}

/// The timeline of a day's events: one line for each event, in the same
/// order, with nothing merged.
pub open spec fn timeline_of(day: Seq<RecordView>) -> Seq<EntryView> {
    day.map_values(|row: RecordView| entry_of(row))
}

/// The applications of a day's events, in the same order.
pub open spec fn apps_of(day: Seq<RecordView>) -> Seq<Seq<char>> {
    day.map_values(|row: RecordView| row.active_app)
}

/// The daily report over one event table.
pub struct Report {
    db: Database,
    interval_seconds: u64,
}

impl Report {
    /// The rows of the table that the report reads.
    pub closed spec fn events(&self) -> Seq<RecordView> {
        self.db@
    }

    /// The sampling interval by which durations are estimated.
    pub closed spec fn interval(&self) -> u64 {
        self.interval_seconds
    }

    /// The report over `db`, for events sampled every `interval_seconds`.
    pub fn new(db: Database, interval_seconds: u64) -> (report: Report)
        ensures
            report.events() == db@,
            report.interval() == interval_seconds,
    {
        Report { db, interval_seconds }
    }

    /// The timeline of `date`: one line for each event of that day, in the
    /// order of capture.
    pub fn timeline(&self, date: &str) -> (result: Result<Vec<TimelineEntry>, ReportError>)
        ensures
            result matches Ok(entries) && exists|day: Seq<RecordView>|
                is_day_selection(self.events(), date@, day) && entry_views(entries@)
                    == timeline_of(day),
    {
        let captures = match self.db.get_captures_by_date(date) {
            Ok(captures) => captures,
            Err(e) => {
                return Err(ReportError::from(e));
            },
        };
        let entries = timeline_entries(&captures);
        assert(is_day_selection(self.events(), date@, views(captures@)));
        Ok(entries)
    }
}

/// The timeline of the given events.
fn timeline_entries(captures: &Vec<CaptureRecord>) -> (entries: Vec<TimelineEntry>)
    ensures
        entry_views(entries@) == timeline_of(views(captures@)),
{
    let mut entries: Vec<TimelineEntry> = Vec::new();
    let mut k: usize = 0;
    while k < captures.len()
        invariant
            k <= captures@.len(),
            entries@.len() == k,
            forall|m: int|
                0 <= m < k ==> (#[trigger] entries@[m])@ == entry_of(captures@[m]@),
        decreases captures@.len() - k,
    {
        let capture = &captures[k];
        entries.push(
            TimelineEntry {
                time: extract_time(capture.captured_at.as_str()),
                active_app: capture.active_app.clone(),
                window_title: capture.window_title.clone(),
            },
        );
        k += 1;
    }
    assert(entry_views(entries@) =~= timeline_of(views(captures@)));
    entries
}

/// The number of times `name` occurs in `apps`.
pub open spec fn occurrences(apps: Seq<Seq<char>>, name: Seq<char>) -> nat
    decreases apps.len(),
{
    if apps.len() == 0 {
        0
    } else {
        let last: nat = if apps.last() == name {
            1
        } else {
            0
        };
        occurrences(apps.drop_last(), name) + last
    }
}

/// `a` occurs in `apps`, and earlier than `b` does, if `b` occurs at all.
pub open spec fn seen_before(apps: Seq<Seq<char>>, a: Seq<char>, b: Seq<char>) -> bool {
    exists|i: int|
        0 <= i < apps.len() && #[trigger] apps[i] == a && forall|j: int|
            0 <= j <= i ==> #[trigger] apps[j] != b
}

/// `a` stands before `b` in a summary: by the longer duration, and among
/// equal durations by the earlier first appearance.
pub open spec fn ranks_before(apps: Seq<Seq<char>>, a: SummaryView, b: SummaryView) -> bool {
    a.duration_seconds > b.duration_seconds || (a.duration_seconds == b.duration_seconds
        && seen_before(apps, a.app_name, b.app_name))
}

/// One of `groups` is for the application `name`.
pub open spec fn has_group(groups: Seq<SummaryView>, name: Seq<char>) -> bool {
    exists|g: int| 0 <= g < groups.len() && (#[trigger] groups[g]).app_name == name
}

/// `groups` is the summary of the events whose applications are `apps`,
/// sampled every `interval` seconds: one group for each application that
/// occurs, with the number of its events and that number times the interval
/// as its duration, the longest first.
pub open spec fn is_summary(apps: Seq<Seq<char>>, interval: u64, groups: Seq<SummaryView>) -> bool {
    &&& forall|g: int|
        0 <= g < groups.len() ==> {
            let group = #[trigger] groups[g];
            &&& group.capture_count > 0
            &&& group.capture_count == occurrences(apps, group.app_name)
            &&& group.duration_seconds == group.capture_count * interval
        }
    &&& forall|i: int| 0 <= i < apps.len() ==> has_group(groups, #[trigger] apps[i])
    &&& forall|g: int, h: int|
        0 <= g < h < groups.len() ==> ranks_before(apps, #[trigger] groups[g], #[trigger] groups[h])
}

/// Whether the estimate of every application among `apps` fits in 64 bits:
/// the number of its events times `interval`.
pub open spec fn estimates_fit(apps: Seq<Seq<char>>, interval: u64) -> bool {
    forall|i: int|
        0 <= i < apps.len() ==> occurrences(apps, #[trigger] apps[i]) * interval <= u64::MAX
}

/// Whether `result` is what summarising the events with the applications
/// `apps` gives: their summary where every estimate fits in 64 bits, a
/// failure where one does not.
pub open spec fn is_summary_outcome(
    apps: Seq<Seq<char>>,
    interval: u64,
    result: Result<Vec<AppSummary>, ReportError>,
) -> bool {
    match result {
        Ok(groups) => estimates_fit(apps, interval) && is_summary(
            apps,
            interval,
            summary_views(groups@),
        ),
        Err(e) => e is DurationOverflow && !estimates_fit(apps, interval),
    }
}

/// No name occurs more often than there are events.
proof fn lemma_occurrences_bound(apps: Seq<Seq<char>>, name: Seq<char>)
    ensures
        occurrences(apps, name) <= apps.len(),
        !apps.contains(name) ==> occurrences(apps, name) == 0,
    decreases apps.len(),
{
    if apps.len() > 0 {
        lemma_occurrences_bound(apps.drop_last(), name);
        if !apps.contains(name) {
            assert(apps[apps.len() - 1] != name);
            assert forall|i: int| 0 <= i < apps.drop_last().len() implies apps.drop_last()[i]
                != name by {
                assert(apps[i] != name);
            }
        }
    }
}

/// The applications seen so far, in the order of first appearance, each
/// with the number of its events.
spec fn is_tally(apps: Seq<Seq<char>>, names: Seq<String>, counts: Seq<u64>) -> bool {
    &&& names.len() == counts.len()
    &&& forall|g: int|
        0 <= g < names.len() ==> (#[trigger] counts[g]) > 0 && counts[g] == occurrences(
            apps,
            names[g]@,
        ) && apps.contains(names[g]@)
    &&& forall|i: int|
        0 <= i < apps.len() ==> exists|g: int|
            0 <= g < names.len() && (#[trigger] names[g])@ == #[trigger] apps[i]
    &&& forall|g: int, h: int|
        0 <= g < h < names.len() ==> seen_before(apps, (#[trigger] names[g])@, (#[trigger] names[h])@)
}

/// Counts the events of each application, in the order of first appearance.
fn tally(captures: &Vec<CaptureRecord>) -> (out: (Vec<String>, Vec<u64>))
    ensures
        is_tally(apps_of(views(captures@)), out.0@, out.1@),
{
    let ghost apps = apps_of(views(captures@));
    let mut names: Vec<String> = Vec::new();
    let mut counts: Vec<u64> = Vec::new();
    let mut i: usize = 0;
    while i < captures.len()
        invariant
            i <= captures@.len(),
            apps == apps_of(views(captures@)),
            apps.len() == captures@.len(),
            is_tally(apps.take(i as int), names@, counts@),
        decreases captures@.len() - i,
    {
        let name = &captures[i].active_app;
        let ghost seen = apps.take(i as int);
        let ghost now = apps.take(i + 1);
        let ghost old_names = names@;
        let ghost old_counts = counts@;
        proof {
            assert(now.drop_last() =~= seen);
            assert(now.last() == name@);
        }
        let mut g: usize = 0;
        while g < names.len() && !(names[g] == *name)
            invariant
                g <= names@.len(),
                forall|h: int| 0 <= h < g ==> (#[trigger] names@[h])@ != name@,
            decreases names@.len() - g,
        {
            g += 1;
        }
        if g < names.len() {
            proof {
                lemma_occurrences_bound(seen, name@);
            }
            counts[g] = counts[g] + 1;
            proof {
                assert forall|h: int| 0 <= h < names@.len() implies (#[trigger] counts@[h]) > 0
                    && counts@[h] == occurrences(now, names@[h]@) && now.contains(names@[h]@) by {
                    assert(old_counts[h] > 0);
                    assert(seen.contains(names@[h]@));
                    let w = choose|w: int| 0 <= w < seen.len() && seen[w] == names@[h]@;
                    assert(now[w] == names@[h]@);
                    if h != g {
                        if h < g {
                            assert(seen_before(seen, names@[h]@, names@[g as int]@));
                        } else {
                            assert(seen_before(seen, names@[g as int]@, names@[h]@));
                        }
                    }
                }
                assert forall|j: int| 0 <= j < now.len() implies exists|h: int|
                    0 <= h < names@.len() && (#[trigger] names@[h])@ == #[trigger] now[j] by {
                    if j < i {
                        assert(seen[j] == now[j]);
                    } else {
                        assert(names@[g as int]@ == now[j]);
                    }
                }
                assert forall|a: int, b: int| 0 <= a < b < names@.len() implies seen_before(
                    now,
                    (#[trigger] names@[a])@,
                    (#[trigger] names@[b])@,
                ) by {
                    lemma_seen_before_grows(seen, name@, names@[a]@, names@[b]@);
                }
            }
        } else {
            proof {
                assert(!seen.contains(name@)) by {
                    if seen.contains(name@) {
                        let w = choose|w: int| 0 <= w < seen.len() && seen[w] == name@;
                        let h = choose|h: int| 0 <= h < names@.len() && (#[trigger] names@[h])@ == seen[w];
                    }
                }
                lemma_occurrences_bound(seen, name@);
            }
            names.push(name.clone());
            counts.push(1);
            proof {
                assert forall|h: int| 0 <= h < names@.len() implies (#[trigger] counts@[h]) > 0
                    && counts@[h] == occurrences(now, names@[h]@) && now.contains(names@[h]@) by {
                    if h < old_names.len() {
                        assert(old_counts[h] > 0);
                        assert(names@[h] == old_names[h]);
                        assert(seen.contains(names@[h]@));
                        let w = choose|w: int| 0 <= w < seen.len() && seen[w] == names@[h]@;
                        assert(now[w] == names@[h]@);
                    } else {
                        assert(now[i as int] == name@);
                    }
                }
                assert forall|j: int| 0 <= j < now.len() implies exists|h: int|
                    0 <= h < names@.len() && (#[trigger] names@[h])@ == #[trigger] now[j] by {
                    if j < i {
                        assert(seen[j] == now[j]);
                        let h = choose|h: int|
                            0 <= h < old_names.len() && (#[trigger] old_names[h])@ == seen[j];
                        assert(names@[h]@ == now[j]);
                    } else {
                        assert(names@[old_names.len() as int]@ == now[j]);
                    }
                }
                assert forall|a: int, b: int| 0 <= a < b < names@.len() implies seen_before(
                    now,
                    (#[trigger] names@[a])@,
                    (#[trigger] names@[b])@,
                ) by {
                    assert(names@[a] == old_names[a]);
                    if b < old_names.len() {
                        assert(names@[b] == old_names[b]);
                        lemma_seen_before_grows(seen, name@, names@[a]@, names@[b]@);
                    } else {
                        assert(old_counts[a] > 0);
                        assert(seen.contains(names@[a]@));
                        let w = choose|w: int| 0 <= w < seen.len() && seen[w] == names@[a]@;
                        assert(now[w] == names@[a]@);
                        assert forall|j: int| 0 <= j <= w implies #[trigger] now[j] != name@ by {
                            assert(seen[j] == now[j]);
                        }
                    }
                }
            }
        }
        i += 1;
    }
    assert(apps.take(captures@.len() as int) =~= apps);
    (names, counts)
}

/// What was seen before stays seen before when another event follows.
proof fn lemma_seen_before_grows(apps: Seq<Seq<char>>, next: Seq<char>, a: Seq<char>, b: Seq<char>)
    requires
        seen_before(apps, a, b),
    ensures
        seen_before(apps.push(next), a, b),
{
    let w = choose|i: int|
        0 <= i < apps.len() && #[trigger] apps[i] == a && forall|j: int|
            0 <= j <= i ==> #[trigger] apps[j] != b;
    let longer = apps.push(next);
    assert(longer[w] == a);
    assert forall|j: int| 0 <= j <= w implies #[trigger] longer[j] != b by {
        assert(apps[j] != b);
    }
}

/// `order` holds the positions below `upto`, each once, by the longer
/// duration first and by the lower position among equal durations.
spec fn is_rank_order(durations: Seq<u64>, upto: int, order: Seq<usize>) -> bool {
    &&& order.len() == upto
    &&& forall|k: int| 0 <= k < order.len() ==> (#[trigger] order[k]) < upto
    &&& forall|p: int| 0 <= p < upto ==> #[trigger] order.contains(p as usize)
    &&& forall|a: int, b: int|
        0 <= a < b < order.len() ==> durations[(#[trigger] order[a]) as int] > durations[(
        #[trigger] order[b]) as int] || (durations[order[a] as int] == durations[order[b] as int]
            && order[a] < order[b])
}

/// Ranks the positions of `durations` by duration, the longest first, equal
/// ones in their given order.
fn rank_by_duration(durations: &Vec<u64>) -> (order: Vec<usize>)
    ensures
        is_rank_order(durations@, durations@.len() as int, order@),
{
    let mut order: Vec<usize> = Vec::new();
    let mut g: usize = 0;
    while g < durations.len()
        invariant
            g <= durations@.len(),
            is_rank_order(durations@, g as int, order@),
        decreases durations@.len() - g,
    {
        let mut pos: usize = order.len();
        while pos > 0 && durations[order[pos - 1]] < durations[g]
            invariant
                pos <= order@.len(),
                g < durations@.len(),
                forall|k: int| 0 <= k < order@.len() ==> (#[trigger] order@[k]) < g,
                forall|k: int|
                    pos <= k < order@.len() ==> durations@[(#[trigger] order@[k]) as int]
                        < durations@[g as int],
            decreases pos,
        {
            pos -= 1;
        }
        let ghost before = order@;
        order.insert(pos, g);
        proof {
            let after = order@;
            assert forall|k: int| 0 <= k < after.len() implies (#[trigger] after[k]) < g + 1 by {
                if k < pos {
                    assert(after[k] == before[k]);
                } else if k > pos {
                    assert(after[k] == before[k - 1]);
                }
            }
            assert forall|p: int| 0 <= p < g + 1 implies #[trigger] after.contains(p as usize) by {
                if p == g {
                    assert(after[pos as int] == g);
                } else {
                    assert(before.contains(p as usize));
                    let w = choose|w: int| 0 <= w < before.len() && before[w] == p as usize;
                    if w < pos {
                        assert(after[w] == p as usize);
                    } else {
                        assert(after[w + 1] == p as usize);
                    }
                }
            }
            assert forall|a: int, b: int| 0 <= a < b < after.len() implies durations@[(
            #[trigger] after[a]) as int] > durations@[(#[trigger] after[b]) as int] || (
            durations@[after[a] as int] == durations@[after[b] as int] && after[a] < after[b]) by {
                let ba = if a < pos {
                    a
                } else {
                    a - 1
                };
                let bb = if b < pos {
                    b
                } else {
                    b - 1
                };
                if a != pos && b != pos {
                    assert(before[ba] == after[a] && before[bb] == after[b]);
                } else if a == pos {
                    assert(before[bb] == after[b]);
                } else {
                    assert(before[ba] == after[a]);
                    if pos > 0 {
                        assert(durations@[before[pos - 1] as int] >= durations@[g as int]);
                        if ba < pos - 1 {
                            assert(durations@[before[ba] as int] > durations@[before[pos
                                - 1] as int] || (durations@[before[ba] as int]
                                == durations@[before[pos - 1] as int]));
                        }
                    }
                }
            }
        }
        g += 1;
    }
    order
}

/// The summary of the given events, sampled every `interval` seconds.
fn summarize(captures: &Vec<CaptureRecord>, interval: u64) -> (result: Result<
    Vec<AppSummary>,
    ReportError,
>)
    ensures
        is_summary_outcome(apps_of(views(captures@)), interval, result),
{
    let ghost apps = apps_of(views(captures@));
    let (names, counts) = tally(captures);
    let mut durations: Vec<u64> = Vec::new();
    let mut g: usize = 0;
    while g < counts.len()
        invariant
            g <= counts@.len(),
            durations@.len() == g,
            apps == apps_of(views(captures@)),
            is_tally(apps, names@, counts@),
            forall|h: int| 0 <= h < g ==> (#[trigger] durations@[h]) == counts@[h] * interval,
        decreases counts@.len() - g,
    {
        match counts[g].checked_mul(interval) {
            Some(duration) => durations.push(duration),
            None => {
                proof {
                    assert(counts@[g as int] > 0);
                    assert(apps.contains(names@[g as int]@));
                    let i = choose|i: int| 0 <= i < apps.len() && apps[i] == names@[g as int]@;
                    assert(occurrences(apps, apps[i]) * interval > u64::MAX);
                }
                return Err(ReportError::DurationOverflow);
            },
        }
        g += 1;
    }
    proof {
        assert forall|i: int| 0 <= i < apps.len() implies occurrences(apps, #[trigger] apps[i])
            * interval <= u64::MAX by {
            let h = choose|h: int| 0 <= h < names@.len() && (#[trigger] names@[h])@ == apps[i];
            assert(counts@[h] > 0);
            assert(durations@[h] == counts@[h] * interval);
        }
    }
    let order = rank_by_duration(&durations);
    let mut groups: Vec<AppSummary> = Vec::new();
    let mut k: usize = 0;
    while k < order.len()
        invariant
            k <= order@.len(),
            groups@.len() == k,
            names@.len() == counts@.len(),
            durations@.len() == counts@.len(),
            is_rank_order(durations@, durations@.len() as int, order@),
            forall|m: int|
                0 <= m < k ==> {
                    let at = order@[m] as int;
                    (#[trigger] groups@[m])@ == (SummaryView {
                        app_name: names@[at]@,
                        duration_seconds: durations@[at],
                        capture_count: counts@[at],
                    })
                },
        decreases order@.len() - k,
    {
        let at = order[k];
        groups.push(
            AppSummary {
                app_name: names[at].clone(),
                duration_seconds: durations[at],
                capture_count: counts[at],
            },
        );
        k += 1;
    }
    proof {
        let shown = summary_views(groups@);
        assert forall|m: int| 0 <= m < shown.len() implies {
            let group = #[trigger] shown[m];
            &&& group.capture_count > 0
            &&& group.capture_count == occurrences(apps, group.app_name)
            &&& group.duration_seconds == group.capture_count * interval
        } by {
            let at = order@[m] as int;
            assert(shown[m] == groups@[m]@);
            assert(counts@[at] > 0);
        }
        assert forall|i: int| 0 <= i < apps.len() implies has_group(shown, #[trigger] apps[i]) by {
            let h = choose|h: int| 0 <= h < names@.len() && (#[trigger] names@[h])@ == apps[i];
            assert(order@.contains(h as usize));
            let m = choose|m: int| 0 <= m < order@.len() && order@[m] == h as usize;
            assert(shown[m] == groups@[m]@);
            assert(shown[m].app_name == apps[i]);
        }
        assert forall|a: int, b: int| 0 <= a < b < shown.len() implies ranks_before(
            apps,
            #[trigger] shown[a],
            #[trigger] shown[b],
        ) by {
            assert(shown[a] == groups@[a]@);
            assert(shown[b] == groups@[b]@);
            let pa = order@[a] as int;
            let pb = order@[b] as int;
            if durations@[pa] == durations@[pb] {
                assert(seen_before(apps, names@[pa]@, names@[pb]@));
            }
        }
        assert(is_summary(apps, interval, shown));
    }
    Ok(groups)
}

impl Report {
    /// The time spent in each application on `date`, estimated as the
    /// number of the day's events in it times the sampling interval. The
    /// longest comes first; among equal durations, the application that
    /// appears first on that day. Fails only where the estimate of an
    /// application of that day does not fit in 64 bits.
    pub fn time_by_app(&self, date: &str) -> (result: Result<Vec<AppSummary>, ReportError>)
        ensures
            exists|day: Seq<RecordView>|
                is_day_selection(self.events(), date@, day) && is_summary_outcome(
                    apps_of(day),
                    self.interval(),
                    result,
                ),
    {
        let captures = match self.db.get_captures_by_date(date) {
            Ok(captures) => captures,
            Err(e) => {
                return Err(ReportError::from(e));
            },
        };
        let result = summarize(&captures, self.interval_seconds);
        assert(is_day_selection(self.events(), date@, views(captures@)));
        result
    }
}

/// One line of the printed timeline: time, application and, where there is
/// one, the window title.
pub open spec fn entry_line(entry: EntryView) -> Seq<char> {
    let title = if entry.window_title.len() == 0 {
        Seq::empty()
    } else {
        " - "@ + entry.window_title
    };
    entry.time + " | "@ + entry.active_app + title + "\n"@
}

/// One line of the printed summary: application, duration and number of
/// events.
pub open spec fn summary_line(group: SummaryView) -> Seq<char> {
    group.app_name + ": "@ + duration_text(group.duration_seconds) + " ("@ + decimal(
        group.capture_count as nat,
    ) + " キャプチャ)\n"@
}

/// The lines of a timeline, one after the other.
pub open spec fn timeline_text(entries: Seq<EntryView>) -> Seq<char>
    decreases entries.len(),
{
    if entries.len() == 0 {
        Seq::empty()
    } else {
        timeline_text(entries.drop_last()) + entry_line(entries.last())
    }
}

/// The lines of a summary, one after the other.
pub open spec fn summary_text(groups: Seq<SummaryView>) -> Seq<char>
    decreases groups.len(),
{
    if groups.len() == 0 {
        Seq::empty()
    } else {
        summary_text(groups.drop_last()) + summary_line(groups.last())
    }
}

/// The printed report of a day. A day without events is reported as such,
/// in one line; any other day gets a heading, its timeline and its summary.
pub open spec fn report_text(date: Seq<char>, entries: Seq<EntryView>, groups: Seq<SummaryView>) -> Seq<
    char,
> {
    if entries.len() == 0 {
        date + "にキャプチャはありませんでした。\n"@
    } else {
        "=== "@ + date + " の活動レポート ===\n\n"@ + "--- タイムライン ---\n"@ + timeline_text(entries)
            + "\n"@ + "--- アプリ別時間 ---\n"@ + summary_text(groups)
    }
}

/// Whether `result` is what rendering the events `day` of `date` gives:
/// the printed report with their timeline and their summary where every
/// estimate fits in 64 bits, a failure where one does not.
pub open spec fn is_rendering(
    date: Seq<char>,
    day: Seq<RecordView>,
    interval: u64,
    result: Result<String, ReportError>,
) -> bool {
    match result {
        Ok(text) => estimates_fit(apps_of(day), interval) && exists|groups: Seq<SummaryView>|
            is_summary(apps_of(day), interval, groups) && text@ == report_text(
                date,
                timeline_of(day),
                groups,
            ),
        Err(e) => e is DurationOverflow && !estimates_fit(apps_of(day), interval),
    }
}

/// The printed report of `date` with the given timeline and summary.
pub fn render_report(date: &str, timeline: &Vec<TimelineEntry>, summaries: &Vec<AppSummary>) -> (text:
    String)
    ensures
        text@ == report_text(date@, entry_views(timeline@), summary_views(summaries@)),
{
    let mut text = String::new();
    if timeline.len() == 0 {
        text.append(date);
        text.append("にキャプチャはありませんでした。\n");
        assert(text@ =~= date@ + "にキャプチャはありませんでした。\n"@);
        return text;
    }
    text.append("=== ");
    text.append(date);
    text.append(" の活動レポート ===\n\n");
    text.append("--- タイムライン ---\n");
    let ghost head = text@;
    assert(head =~= "=== "@ + date@ + " の活動レポート ===\n\n"@ + "--- タイムライン ---\n"@);
    let ghost entries = entry_views(timeline@);
    let mut k: usize = 0;
    while k < timeline.len()
        invariant
            k <= timeline@.len(),
            entries == entry_views(timeline@),
            text@ == head + timeline_text(entries.take(k as int)),
        decreases timeline@.len() - k,
    {
        let entry = &timeline[k];
        let ghost before = text@;
        text.append(entry.time.as_str());
        text.append(" | ");
        text.append(entry.active_app.as_str());
        if entry.window_title.as_str().unicode_len() != 0 {
            text.append(" - ");
            text.append(entry.window_title.as_str());
        }
        text.append("\n");
        proof {
            assert(entries.take(k + 1).drop_last() =~= entries.take(k as int));
            assert(entries.take(k + 1).last() == entry@);
            assert(text@ =~= before + entry_line(entry@));
            assert(text@ =~= head + timeline_text(entries.take(k + 1)));
        }
        k += 1;
    }
    assert(entries.take(timeline@.len() as int) =~= entries);
    text.append("\n");
    text.append("--- アプリ別時間 ---\n");
    let ghost middle = text@;
    let ghost groups = summary_views(summaries@);
    let mut g: usize = 0;
    while g < summaries.len()
        invariant
            g <= summaries@.len(),
            groups == summary_views(summaries@),
            text@ == middle + summary_text(groups.take(g as int)),
        decreases summaries@.len() - g,
    {
        let summary = &summaries[g];
        let ghost before = text@;
        text.append(summary.app_name.as_str());
        text.append(": ");
        text.append(format_duration(summary.duration_seconds).as_str());
        text.append(" (");
        push_decimal(&mut text, summary.capture_count);
        text.append(" キャプチャ)\n");
        proof {
            assert(groups.take(g + 1).drop_last() =~= groups.take(g as int));
            assert(groups.take(g + 1).last() == summary@);
            assert(text@ =~= before + summary_line(summary@));
            assert(text@ =~= middle + summary_text(groups.take(g + 1)));
        }
        g += 1;
    }
    assert(groups.take(summaries@.len() as int) =~= groups);
    assert(text@ =~= report_text(date@, entries, groups));
    text
}

impl Report {
    /// The printed report of `date`: its timeline and its summary, laid out
    /// for the reader; for a day without events, the one line that says so.
    /// Fails only where the estimate of an application of that day does not
    /// fit in 64 bits.
    pub fn render(&self, date: &str) -> (result: Result<String, ReportError>)
        ensures
            exists|day: Seq<RecordView>|
                is_day_selection(self.events(), date@, day) && is_rendering(
                    date@,
                    day,
                    self.interval(),
                    result,
                ),
    {
        let captures = match self.db.get_captures_by_date(date) {
            Ok(captures) => captures,
            Err(e) => {
                return Err(ReportError::from(e));
            },
        };
        let ghost day = views(captures@);
        assert(is_day_selection(self.events(), date@, day));
        let timeline = timeline_entries(&captures);
        let summaries = match summarize(&captures, self.interval_seconds) {
            Ok(summaries) => summaries,
            Err(e) => {
                return Err(e);
            },
        };
        let text = render_report(date, &timeline, &summaries);
        assert(is_summary(apps_of(day), self.interval(), summary_views(summaries@)) && text@
            == report_text(date@, timeline_of(day), summary_views(summaries@)));
        Ok(text)
    }
}

} // verus!
