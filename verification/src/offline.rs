//! Watching for machines that stop reporting.
//!
//! A sweep looks at every machine once. A machine that went silent is announced once, and
//! once more when it reports again.
use crate::clock;
use crate::clock::Moment;
use crate::notify::{AlertPayload, AlertView, NotifySettings};
use crate::quantity;
use crate::quantity::Quantity;
use crate::text;
use vstd::hash_set::StringHashSet;
use vstd::prelude::*;
use vstd::string::*;

verus! {

/// The machines that are offline and were announced so.
pub struct OfflineWatch {
    alerted: StringHashSet,
}

impl View for OfflineWatch {
    type V = Set<Seq<char>>;

    closed spec fn view(&self) -> Set<Seq<char>> {
        self.alerted@
    }
}

impl OfflineWatch {
    /// No machine is known to be offline.
    pub fn new() -> (res: OfflineWatch)
        ensures
            res@ == Set::<Seq<char>>::empty(),
    {
        OfflineWatch { alerted: StringHashSet::new() }
    }
}

/// A machine as a sweep sees it.
#[derive(Debug)]
pub struct SeenRow {
    pub id: String,
    pub name: String,
    /// The time of the last report, as it was stored.
    pub last_seen: String,
    /// The time at which the sweep looks at the row.
    pub checked_at: Moment,
}

/// A sweep under way.
#[derive(Debug)]
pub struct OfflineSweep {
    threshold: (i64, u32),
    minutes: u64,
    minutes_value: Quantity,
    still_offline: Vec<String>,
}

/// The contents of an [`OfflineSweep`].
#[verifier::ext_equal]
pub struct SweepView {
    /// A last report before this point in time is too old.
    pub threshold: (i64, u32),
    /// The minutes that a machine may be silent.
    pub minutes: nat,
    /// The same as a quantity.
    pub minutes_value: Quantity,
    /// The machines that the sweep found offline.
    pub still_offline: Set<Seq<char>>,
}

impl View for OfflineSweep {
    type V = SweepView;

    closed spec fn view(&self) -> SweepView {
        SweepView {
            threshold: self.threshold,
            minutes: self.minutes as nat,
            minutes_value: self.minutes_value,
            still_offline: text::texts(self.still_offline@).to_set(),
        }
    }
}

/// How a sweep starts.
#[derive(Debug)]
pub enum SweepStart {
    /// Machines are not watched.
    Disabled,
    /// The time that a machine may be silent reaches back beyond the calendar.
    OutOfRange,
    Ready(OfflineSweep),
}

/// The oldest last report that is still recent enough.
pub open spec fn offline_threshold(minutes: i64, now: Moment) -> Option<(i64, u32)> {
    clock::minutes_earlier(now.spec_secs(), now.spec_nanos(), minutes)
}

/// Starts a sweep: a machine is offline when its last report is older than the minutes of the
/// settings, counted back from now. Zero or less switches the watch off.
pub fn begin_sweep(settings: &NotifySettings, now: Moment) -> (res: SweepStart)
    ensures
        match res {
            SweepStart::Disabled => settings.offline_minutes <= 0,
            SweepStart::OutOfRange => settings.offline_minutes > 0 && offline_threshold(
                settings.offline_minutes,
                now,
            ) is None,
            SweepStart::Ready(sweep) => {
                &&& settings.offline_minutes > 0
                &&& offline_threshold(settings.offline_minutes, now) == Some(sweep@.threshold)
                &&& sweep@.minutes == settings.offline_minutes
                &&& sweep@.minutes_value == quantity::whole(settings.offline_minutes as nat)
                &&& sweep@.still_offline == Set::<Seq<char>>::empty()
            },
        },
{
    if settings.offline_minutes <= 0 {
        return SweepStart::Disabled;
    }
    match now.minus_minutes(settings.offline_minutes) {
        None => SweepStart::OutOfRange,
        Some(threshold) => {
            let minutes: u64 = settings.offline_minutes as u64;
            let sweep = OfflineSweep {
                threshold,
                minutes,
                minutes_value: Quantity::from_count(minutes),
                still_offline: Vec::new(),
            };
            assert(text::texts(sweep.still_offline@) =~= Seq::<Seq<char>>::empty());
            assert(sweep@.still_offline =~= Set::<Seq<char>>::empty());
            SweepStart::Ready(sweep)
        },
    }
}

// One machine

/// A machine is offline when its last report lies before the threshold. A time that cannot be
/// read does not count against it.
pub open spec fn silent_since(seen: Option<(i64, u32)>, threshold: (i64, u32)) -> bool {
    match seen {
        Some(t) => clock::earlier(t, threshold),
        None => false,
    }
}

/// The row of a machine is that of one offline.
pub open spec fn offline(row: SeenRow, threshold: (i64, u32)) -> bool {
    silent_since(clock::rfc3339_instant(row.last_seen@), threshold)
}

/// The alert about a machine that went offline.
pub open spec fn offline_alert(sweep: SweepView, row: SeenRow, timestamp: Seq<char>) -> AlertView {
    AlertView {
        title: "離線告警"@,
        message: row.name@ + " 已超過 "@ + text::decimal(sweep.minutes)
            + " 分鐘沒有上報（最後："@ + row.last_seen@ + "）"@,
        server_id: row.id@,
        server_name: row.name@,
        alert_type: "offline"@,
        level: "critical"@,
        value: sweep.minutes_value,
        limit: Quantity::spec_zero(),
        timestamp,
    }
}

/// The alert about a machine that reports again. It is of the type of the alert that it takes
/// back, and told apart from it by its title and its level.
pub open spec fn recovered_alert(row: SeenRow, timestamp: Seq<char>) -> AlertView {
    AlertView {
        title: "恢復通知"@,
        message: row.name@ + " 已恢復上報"@,
        server_id: row.id@,
        server_name: row.name@,
        alert_type: "offline"@,
        level: "info"@,
        value: Quantity::spec_zero(),
        limit: Quantity::spec_zero(),
        timestamp,
    }
}

/// The announced machines after a look at one.
pub open spec fn alerted_after(alerted: Set<Seq<char>>, id: Seq<char>, is_offline: bool) -> Set<
    Seq<char>,
> {
    if is_offline {
        alerted.insert(id)
    } else {
        alerted.remove(id)
    }
}

/// The machines found offline after a look at one.
pub open spec fn found_after(found: Set<Seq<char>>, id: Seq<char>, is_offline: bool) -> Set<
    Seq<char>,
> {
    if is_offline {
        found.insert(id)
    } else {
        found
    }
}

/// The alert that a look at a machine gives rise to: one when it went offline unannounced, one
/// when it was announced and is back.
pub open spec fn alert_on_visit(
    alerted: Set<Seq<char>>,
    sweep: SweepView,
    row: SeenRow,
    is_offline: bool,
    timestamp: Seq<char>,
) -> Option<AlertView> {
    if is_offline && !alerted.contains(row.id@) {
        Some(offline_alert(sweep, row, timestamp))
    } else if !is_offline && alerted.contains(row.id@) {
        Some(recovered_alert(row, timestamp))
    } else {
        None
    }
}

/// Tells whether a last report at `seen` is too old.
pub fn is_silent_since(seen: Option<(i64, u32)>, threshold: (i64, u32)) -> (res: bool)
    ensures
        res == silent_since(seen, threshold),
{
    match seen {
        Some(t) => clock::is_earlier(t, threshold),
        None => false,
    }
}

proof fn lemma_push_to_set(list: Seq<Seq<char>>, item: Seq<char>)
    ensures
        list.push(item).to_set() == list.to_set().insert(item),
{
    let grown = list.push(item);
    assert forall|x: Seq<char>| grown.to_set().contains(x) == list.to_set().insert(item).contains(
        x,
    ) by {
        if list.contains(x) {
            let i = choose|i: int| 0 <= i < list.len() && list[i] == x;
            assert(grown[i] == x);
        }
        assert(grown[list.len() as int] == item);
    }
    assert(grown.to_set() =~= list.to_set().insert(item));
}

impl OfflineSweep {
    /// Looks at one machine, of which it is known whether it is offline.
    pub fn settle(
        &mut self,
        watch: &mut OfflineWatch,
        row: &SeenRow,
        is_offline: bool,
        timestamp: &str,
    ) -> (res: Option<AlertPayload>)
        ensures
            crate::notify::opt_alert(res) == alert_on_visit(
                old(watch)@,
                old(self)@,
                *row,
                is_offline,
                timestamp@,
            ),
            final(watch)@ == alerted_after(old(watch)@, row.id@, is_offline),
            final(self)@ == (SweepView {
                still_offline: found_after(old(self)@.still_offline, row.id@, is_offline),
                ..old(self)@
            }),
    {
        if is_offline {
            let ghost before = text::texts(self.still_offline@);
            self.still_offline.push(row.id.clone());
            proof {
                assert(text::texts(self.still_offline@) =~= before.push(row.id@));
                lemma_push_to_set(before, row.id@);
            }
            if watch.alerted.contains(row.id.as_str()) {
                assert(watch.alerted@.insert(row.id@) =~= watch.alerted@);
                return None;
            }
            watch.alerted.insert(row.id.clone());
            let mut message = row.name.clone();
            message.append(" 已超過 ");
            message.append(text::decimal_text(self.minutes).as_str());
            message.append(" 分鐘沒有上報（最後：");
            message.append(row.last_seen.as_str());
            message.append("）");
            Some(
                AlertPayload {
                    title: "離線告警".to_owned(),
                    message,
                    server_id: row.id.clone(),
                    server_name: row.name.clone(),
                    alert_type: "offline".to_owned(),
                    level: "critical".to_owned(),
                    value: self.minutes_value,
                    limit: Quantity::zero(),
                    timestamp: timestamp.to_owned(),
                },
            )
        } else {
            if !watch.alerted.remove(row.id.as_str()) {
                return None;
            }
            let mut message = row.name.clone();
            message.append(" 已恢復上報");
            Some(
                AlertPayload {
                    title: "恢復通知".to_owned(),
                    message,
                    server_id: row.id.clone(),
                    server_name: row.name.clone(),
                    alert_type: "offline".to_owned(),
                    level: "info".to_owned(),
                    value: Quantity::zero(),
                    limit: Quantity::zero(),
                    timestamp: timestamp.to_owned(),
                },
            )
        }
    }

    /// Looks at one machine; the alert it gives rise to is to be sent before the next look.
    pub fn visit(&mut self, watch: &mut OfflineWatch, row: &SeenRow) -> (res: Option<AlertPayload>)
        ensures
            crate::notify::opt_alert(res) == alert_on_visit(
                old(watch)@,
                old(self)@,
                *row,
                offline(*row, old(self)@.threshold),
                row.checked_at.text(),
            ),
            final(watch)@ == alerted_after(
                old(watch)@,
                row.id@,
                offline(*row, old(self)@.threshold),
            ),
            final(self)@ == (SweepView {
                still_offline: found_after(
                    old(self)@.still_offline,
                    row.id@,
                    offline(*row, old(self)@.threshold),
                ),
                ..old(self)@
            }),
    {
        let seen = clock::parse_rfc3339(row.last_seen.as_str());
        let is_offline = is_silent_since(seen, self.threshold);
        let timestamp = row.checked_at.to_rfc3339();
        self.settle(watch, row, is_offline, timestamp.as_str())
    }

    /// Ends a sweep: machines that it did not find offline, such as those that are gone, are
    /// forgotten.
    pub fn finish(self, watch: &mut OfflineWatch)
        ensures
            final(watch)@ == old(watch)@.intersect(self@.still_offline),
    {
        let mut kept = StringHashSet::new();
        let mut i: usize = 0;
        let ghost found = text::texts(self.still_offline@);
        while i < self.still_offline.len()
            invariant
                i <= self.still_offline.len(),
                found == text::texts(self.still_offline@),
                forall|x: Seq<char>| #[trigger]
                    kept@.contains(x) <==> watch.alerted@.contains(x) && found.take(
                        i as int,
                    ).contains(x),
            decreases self.still_offline.len() - i,
        {
            let id = &self.still_offline[i];
            let ghost next = found.take(i as int + 1);
            proof {
                assert(next =~= found.take(i as int).push(id@));
                lemma_push_to_set(found.take(i as int), id@);
                assert forall|x: Seq<char>| #[trigger] next.contains(x) <==> found.take(
                    i as int,
                ).contains(x) || x == id@ by {
                    assert(next.to_set().contains(x) == found.take(i as int).to_set().insert(
                        id@,
                    ).contains(x));
                }
            }
            if watch.alerted.contains(id.as_str()) {
                kept.insert(id.clone());
            }
            i = i + 1;
        }
        assert(found.take(found.len() as int) =~= found);
        assert(kept@ =~= watch.alerted@.intersect(found.to_set()));
        watch.alerted = kept;
    }
}

// A whole sweep

/// What a sweep has come to after looking at the first rows: the announced machines, those
/// found offline, and the alerts.
#[verifier::ext_equal]
pub struct Progress {
    pub alerted: Set<Seq<char>>,
    pub found: Set<Seq<char>>,
    pub alerts: Seq<AlertView>,
}

/// What a sweep comes to, row by row.
pub open spec fn progress(alerted: Set<Seq<char>>, start: SweepView, rows: Seq<SeenRow>) -> Progress
    decreases rows.len(),
{
    if rows.len() == 0 {
        Progress { alerted, found: Set::empty(), alerts: Seq::empty() }
    } else {
        let before = progress(alerted, start, rows.drop_last());
        let row = rows.last();
        let is_offline = offline(row, start.threshold);
        Progress {
            alerted: alerted_after(before.alerted, row.id@, is_offline),
            found: found_after(before.found, row.id@, is_offline),
            alerts: match alert_on_visit(
                before.alerted,
                start,
                row,
                is_offline,
                row.checked_at.text(),
            ) {
                Some(alert) => before.alerts.push(alert),
                None => before.alerts,
            },
        }
    }
}

/// The sweep that the settings ask for.
pub open spec fn sweep_of(minutes: i64, now: Moment) -> SweepView {
    SweepView {
        threshold: offline_threshold(minutes, now).unwrap(),
        minutes: minutes as nat,
        minutes_value: quantity::whole(minutes as nat),
        still_offline: Set::empty(),
    }
}

/// The contents of a list of alerts.
pub open spec fn alert_list(alerts: Seq<AlertPayload>) -> Seq<AlertView> {
    alerts.map_values(|a: AlertPayload| a@)
}

/// Makes a whole sweep and returns its alerts in order.
pub fn check_offline(
    watch: &mut OfflineWatch,
    settings: &NotifySettings,
    now: Moment,
    rows: &Vec<SeenRow>,
) -> (res: Vec<AlertPayload>)
    requires
        settings.offline_minutes > 0 ==> offline_threshold(settings.offline_minutes, now) is Some,
    ensures
        settings.offline_minutes <= 0 ==> res@.len() == 0 && final(watch)@ == old(watch)@,
        settings.offline_minutes > 0 ==> ({
            let p = progress(old(watch)@, sweep_of(settings.offline_minutes, now), rows@);
            alert_list(res@) == p.alerts && final(watch)@ == p.alerted.intersect(p.found)
        }),
{
    let mut alerts: Vec<AlertPayload> = Vec::new();
    let mut sweep = match begin_sweep(settings, now) {
        SweepStart::Disabled => return alerts,
        SweepStart::OutOfRange => return alerts,
        SweepStart::Ready(sweep) => sweep,
    };
    let ghost start = sweep_of(settings.offline_minutes, now);
    let ghost initial = watch@;
    let mut i: usize = 0;
    assert(rows@.take(0) =~= Seq::<SeenRow>::empty());
    assert(alert_list(alerts@) =~= Seq::<AlertView>::empty());
    assert(sweep@ =~= start);
    while i < rows.len()
        invariant
            i <= rows.len(),
            watch@ == progress(initial, start, rows@.take(i as int)).alerted,
            alert_list(alerts@) == progress(initial, start, rows@.take(i as int)).alerts,
            sweep@ == (SweepView {
                still_offline: progress(initial, start, rows@.take(i as int)).found,
                ..start
            }),
        decreases rows.len() - i,
    {
        let ghost before = alerts@;
        proof {
            assert(rows@.take(i as int + 1).drop_last() =~= rows@.take(i as int));
            assert(rows@.take(i as int + 1).last() == rows@[i as int]);
        }
        match sweep.visit(watch, &rows[i]) {
            Some(alert) => {
                alerts.push(alert);
                assert(alert_list(alerts@) =~= alert_list(before).push(alert@));
            },
            None => {},
        }
        i = i + 1;
    }
    assert(rows@.take(rows.len() as int) =~= rows@);
    sweep.finish(watch);
    alerts
}

// Laws

/// No two rows are of one machine.
pub open spec fn distinct_ids(rows: Seq<SeenRow>) -> bool {
    forall|i: int, j: int|
        0 <= i < j < rows.len() ==> (#[trigger] rows[i]).id@ != (#[trigger] rows[j]).id@
}

/// The machine of some row is offline.
pub open spec fn offline_in(rows: Seq<SeenRow>, threshold: (i64, u32), id: Seq<char>) -> bool {
    exists|i: int|
        0 <= i < rows.len() && (#[trigger] rows[i]).id@ == id && offline(rows[i], threshold)
}

/// The machine of some row.
pub open spec fn listed(rows: Seq<SeenRow>, id: Seq<char>) -> bool {
    exists|i: int| 0 <= i < rows.len() && (#[trigger] rows[i]).id@ == id
}

/// The alerts of a sweep over distinct machines: each machine that is offline and was not
/// announced, and each that was announced and is back, in the order of the rows.
pub open spec fn news(alerted: Set<Seq<char>>, start: SweepView, rows: Seq<SeenRow>) -> Seq<
    AlertView,
>
    decreases rows.len(),
{
    if rows.len() == 0 {
        Seq::empty()
    } else {
        let before = news(alerted, start, rows.drop_last());
        let row = rows.last();
        match alert_on_visit(
            alerted,
            start,
            row,
            offline(row, start.threshold),
            row.checked_at.text(),
        ) {
            Some(alert) => before.push(alert),
            None => before,
        }
    }
}

proof fn lemma_progress(alerted: Set<Seq<char>>, start: SweepView, rows: Seq<SeenRow>)
    requires
        distinct_ids(rows),
    ensures
        forall|id: Seq<char>| #[trigger]
            progress(alerted, start, rows).found.contains(id) <==> offline_in(
                rows,
                start.threshold,
                id,
            ),
        forall|id: Seq<char>| #[trigger]
            progress(alerted, start, rows).alerted.contains(id) <==> if listed(rows, id) {
                offline_in(rows, start.threshold, id)
            } else {
                alerted.contains(id)
            },
        progress(alerted, start, rows).alerts == news(alerted, start, rows),
    decreases rows.len(),
{
    if rows.len() > 0 {
        let before = rows.drop_last();
        let row = rows.last();
        let n = before.len() as int;
        assert(rows[n] == row);
        assert forall|i: int, j: int| 0 <= i < j < before.len() implies (
        #[trigger] before[i]).id@ != (#[trigger] before[j]).id@ by {
            assert(rows[i].id@ != rows[j].id@);
        }
        lemma_progress(alerted, start, before);
        assert forall|id: Seq<char>| #[trigger] listed(rows, id) <==> listed(before, id) || id
            == row.id@ by {
            if listed(before, id) {
                let i = choose|i: int| 0 <= i < before.len() && (#[trigger] before[i]).id@ == id;
                assert(rows[i].id@ == id);
            }
            if listed(rows, id) {
                let i = choose|i: int| 0 <= i < rows.len() && (#[trigger] rows[i]).id@ == id;
                if i < n {
                    assert(before[i].id@ == id);
                }
            }
        }
        assert(!listed(before, row.id@)) by {
            if listed(before, row.id@) {
                let i = choose|i: int|
                    0 <= i < before.len() && (#[trigger] before[i]).id@ == row.id@;
                assert(rows[i].id@ != rows[n].id@);
            }
        }
        assert forall|id: Seq<char>| #[trigger]
            offline_in(rows, start.threshold, id) <==> offline_in(before, start.threshold, id) || (
        id == row.id@ && offline(row, start.threshold)) by {
            if offline_in(before, start.threshold, id) {
                let i = choose|i: int|
                    0 <= i < before.len() && (#[trigger] before[i]).id@ == id && offline(
                        before[i],
                        start.threshold,
                    );
                assert(rows[i].id@ == id);
            }
            if offline_in(rows, start.threshold, id) {
                let i = choose|i: int|
                    0 <= i < rows.len() && (#[trigger] rows[i]).id@ == id && offline(
                        rows[i],
                        start.threshold,
                    );
                if i < n {
                    assert(before[i].id@ == id);
                }
            }
        }
        assert forall|id: Seq<char>| #[trigger] offline_in(before, start.threshold, id) implies listed(
            before,
            id,
        ) by {
            let i = choose|i: int|
                0 <= i < before.len() && (#[trigger] before[i]).id@ == id && offline(
                    before[i],
                    start.threshold,
                );
            assert(before[i].id@ == id);
        }
        assert(progress(alerted, start, before).alerted.contains(row.id@) == alerted.contains(
            row.id@,
        ));
    }
}

/// After a sweep the announced machines are exactly those that it found offline, whatever was
/// announced before.
pub proof fn law_sweep_knows_the_offline(
    alerted: Set<Seq<char>>,
    start: SweepView,
    rows: Seq<SeenRow>,
    id: Seq<char>,
)
    requires
        distinct_ids(rows),
    ensures
        ({
            let p = progress(alerted, start, rows);
            p.alerted.intersect(p.found).contains(id) <==> offline_in(rows, start.threshold, id)
        }),
{
    lemma_progress(alerted, start, rows);
    let p = progress(alerted, start, rows);
    assert(p.found.contains(id) <==> offline_in(rows, start.threshold, id));
    assert(p.alerted.contains(id) <==> if listed(rows, id) {
        offline_in(rows, start.threshold, id)
    } else {
        alerted.contains(id)
    });
    if offline_in(rows, start.threshold, id) {
        let i = choose|i: int|
            0 <= i < rows.len() && (#[trigger] rows[i]).id@ == id && offline(
                rows[i],
                start.threshold,
            );
        assert(rows[i].id@ == id);
        assert(listed(rows, id));
    }
}

/// A sweep announces a machine when it went offline and when it came back, and at no other
/// time.
pub proof fn law_sweep_announces_changes(
    alerted: Set<Seq<char>>,
    start: SweepView,
    rows: Seq<SeenRow>,
)
    requires
        distinct_ids(rows),
    ensures
        progress(alerted, start, rows).alerts == news(alerted, start, rows),
{
    lemma_progress(alerted, start, rows);
}

/// The alerts about one machine.
pub open spec fn about(alerts: Seq<AlertView>, id: Seq<char>) -> Seq<AlertView>
    decreases alerts.len(),
{
    if alerts.len() == 0 {
        Seq::empty()
    } else {
        let before = about(alerts.drop_last(), id);
        if alerts.last().server_id == id {
            before.push(alerts.last())
        } else {
            before
        }
    }
}

proof fn lemma_about_push(alerts: Seq<AlertView>, alert: AlertView, id: Seq<char>)
    ensures
        about(alerts.push(alert), id) == if alert.server_id == id {
            about(alerts, id).push(alert)
        } else {
            about(alerts, id)
        },
{
    assert(alerts.push(alert).drop_last() =~= alerts);
}

proof fn lemma_about_concat(a: Seq<AlertView>, b: Seq<AlertView>, id: Seq<char>)
    ensures
        about(a + b, id) == about(a, id) + about(b, id),
    decreases b.len(),
{
    if b.len() == 0 {
        assert(a + b =~= a);
        assert(about(a, id) + about(b, id) =~= about(a, id));
    } else {
        assert((a + b).drop_last() =~= a + b.drop_last());
        lemma_about_concat(a, b.drop_last(), id);
        if b.last().server_id == id {
            assert(about(a, id) + about(b, id) =~= (about(a, id) + about(b.drop_last(), id)).push(
                b.last(),
            ));
        }
    }
}

/// What a sweep says about the machine of a row: nothing, or one alert.
pub open spec fn word_on(alerted: Set<Seq<char>>, start: SweepView, row: SeenRow) -> Seq<AlertView> {
    match alert_on_visit(
        alerted,
        start,
        row,
        offline(row, start.threshold),
        row.checked_at.text(),
    ) {
        Some(alert) => seq![alert],
        None => Seq::empty(),
    }
}

proof fn lemma_news_about(
    alerted: Set<Seq<char>>,
    start: SweepView,
    rows: Seq<SeenRow>,
    id: Seq<char>,
)
    requires
        distinct_ids(rows),
    ensures
        !listed(rows, id) ==> about(news(alerted, start, rows), id) == Seq::<AlertView>::empty(),
        forall|i: int|
            0 <= i < rows.len() && (#[trigger] rows[i]).id@ == id ==> about(
                news(alerted, start, rows),
                id,
            ) == word_on(alerted, start, rows[i]),
    decreases rows.len(),
{
    if rows.len() > 0 {
        let before = rows.drop_last();
        let row = rows.last();
        let n = before.len() as int;
        assert(rows[n] == row);
        assert forall|i: int, j: int| 0 <= i < j < before.len() implies (
        #[trigger] before[i]).id@ != (#[trigger] before[j]).id@ by {
            assert(rows[i].id@ != rows[j].id@);
        }
        lemma_news_about(alerted, start, before, id);
        if listed(before, id) {
            let i = choose|i: int| 0 <= i < before.len() && (#[trigger] before[i]).id@ == id;
            assert(rows[i].id@ == id);
            assert(rows[i].id@ != rows[n].id@);
        }
        match alert_on_visit(
            alerted,
            start,
            row,
            offline(row, start.threshold),
            row.checked_at.text(),
        ) {
            Some(alert) => {
                lemma_about_push(news(alerted, start, before), alert, id);
            },
            None => {},
        }
        assert forall|i: int| 0 <= i < rows.len() && (#[trigger] rows[i]).id@ == id implies about(
            news(alerted, start, rows),
            id,
        ) == word_on(alerted, start, rows[i]) by {
            if i < n {
                assert(before[i].id@ == id);
                assert(rows[i].id@ != rows[n].id@);
            } else {
                assert(!listed(before, id));
                assert(about(news(alerted, start, rows), id) =~= word_on(alerted, start, row));
            }
        }
    }
}

/// What a sweep says about a machine depends on the row of that machine alone: one alert when it
/// is offline and was not announced, one when it was announced and is back, else nothing.
pub proof fn law_one_word_per_machine(
    alerted: Set<Seq<char>>,
    start: SweepView,
    rows: Seq<SeenRow>,
    i: int,
)
    requires
        distinct_ids(rows),
        0 <= i < rows.len(),
    ensures
        about(progress(alerted, start, rows).alerts, rows[i].id@) == word_on(
            alerted,
            start,
            rows[i],
        ),
{
    lemma_progress(alerted, start, rows);
    lemma_news_about(alerted, start, rows, rows[i].id@);
}

/// One of a number of sweeps.
pub struct Sweep {
    pub start: SweepView,
    pub rows: Seq<SeenRow>,
}

/// The announced machines after a number of sweeps.
pub open spec fn watch_after(alerted: Set<Seq<char>>, sweeps: Seq<Sweep>) -> Set<Seq<char>>
    decreases sweeps.len(),
{
    if sweeps.len() == 0 {
        alerted
    } else {
        let last = sweeps.last();
        let p = progress(watch_after(alerted, sweeps.drop_last()), last.start, last.rows);
        p.alerted.intersect(p.found)
    }
}

/// The alerts of a number of sweeps.
pub open spec fn alerts_over(alerted: Set<Seq<char>>, sweeps: Seq<Sweep>) -> Seq<AlertView>
    decreases sweeps.len(),
{
    if sweeps.len() == 0 {
        Seq::empty()
    } else {
        let last = sweeps.last();
        let before = sweeps.drop_last();
        alerts_over(alerted, before) + progress(
            watch_after(alerted, before),
            last.start,
            last.rows,
        ).alerts
    }
}

/// A sweep over distinct machines in which the given machine is offline.
pub open spec fn finds_offline(sweep: Sweep, id: Seq<char>) -> bool {
    distinct_ids(sweep.rows) && offline_in(sweep.rows, sweep.start.threshold, id)
}

/// A sweep over distinct machines in which the given machine is there and not offline.
pub open spec fn finds_back(sweep: Sweep, id: Seq<char>) -> bool {
    &&& distinct_ids(sweep.rows)
    &&& listed(sweep.rows, id)
    &&& !offline_in(sweep.rows, sweep.start.threshold, id)
}

/// The alert is one about a machine that went offline.
pub open spec fn tells_offline(alert: AlertView, id: Seq<char>) -> bool {
    &&& alert.server_id == id
    &&& alert.alert_type == "offline"@
    &&& alert.title == "離線告警"@
    &&& alert.level == "critical"@
}

/// The alert is one about a machine that reports again.
pub open spec fn tells_recovery(alert: AlertView, id: Seq<char>) -> bool {
    &&& alert.server_id == id
    &&& alert.alert_type == "offline"@
    &&& alert.title == "恢復通知"@
    &&& alert.level == "info"@
}

/// However many sweeps in a row find a machine offline, and whatever other machines do
/// meanwhile, it is announced once.
pub proof fn law_announced_once(alerted: Set<Seq<char>>, sweeps: Seq<Sweep>, id: Seq<char>)
    requires
        !alerted.contains(id),
        sweeps.len() > 0,
        forall|i: int| 0 <= i < sweeps.len() ==> finds_offline(#[trigger] sweeps[i], id),
    ensures
        about(alerts_over(alerted, sweeps), id).len() == 1,
        tells_offline(about(alerts_over(alerted, sweeps), id)[0], id),
        watch_after(alerted, sweeps).contains(id),
    decreases sweeps.len(),
{
    let before = sweeps.drop_last();
    let last = sweeps[sweeps.len() - 1];
    assert(finds_offline(last, id));
    let i = choose|i: int|
        0 <= i < last.rows.len() && (#[trigger] last.rows[i]).id@ == id && offline(
            last.rows[i],
            last.start.threshold,
        );
    let known = watch_after(alerted, before);
    law_sweep_knows_the_offline(known, last.start, last.rows, id);
    law_one_word_per_machine(known, last.start, last.rows, i);
    lemma_about_concat(
        alerts_over(alerted, before),
        progress(known, last.start, last.rows).alerts,
        id,
    );
    if before.len() > 0 {
        assert forall|j: int| 0 <= j < before.len() implies finds_offline(
            #[trigger] before[j],
            id,
        ) by {
            assert(before[j] == sweeps[j]);
        }
        law_announced_once(alerted, before, id);
    } else {
        assert(about(alerts_over(alerted, before), id).len() == 0);
    }
}

proof fn lemma_runs_of_sweeps(alerted: Set<Seq<char>>, a: Seq<Sweep>, b: Seq<Sweep>)
    ensures
        watch_after(alerted, a + b) == watch_after(watch_after(alerted, a), b),
        alerts_over(alerted, a + b) == alerts_over(alerted, a) + alerts_over(
            watch_after(alerted, a),
            b,
        ),
    decreases b.len(),
{
    if b.len() == 0 {
        assert(a + b =~= a);
        assert(alerts_over(alerted, a) + Seq::<AlertView>::empty() =~= alerts_over(alerted, a));
    } else {
        assert((a + b).drop_last() =~= a + b.drop_last());
        assert((a + b).last() == b.last());
        lemma_runs_of_sweeps(alerted, a, b.drop_last());
        let last = progress(
            watch_after(watch_after(alerted, a), b.drop_last()),
            b.last().start,
            b.last().rows,
        ).alerts;
        assert((alerts_over(alerted, a) + alerts_over(watch_after(alerted, a), b.drop_last()))
            + last =~= alerts_over(alerted, a) + (alerts_over(
            watch_after(alerted, a),
            b.drop_last(),
        ) + last));
    }
}

/// Once a machine is back, sweeps say one thing more about it if it was announced, and nothing
/// otherwise.
pub proof fn law_recovered_once(alerted: Set<Seq<char>>, sweeps: Seq<Sweep>, id: Seq<char>)
    requires
        sweeps.len() > 0,
        forall|i: int| 0 <= i < sweeps.len() ==> finds_back(#[trigger] sweeps[i], id),
    ensures
        alerted.contains(id) ==> about(alerts_over(alerted, sweeps), id).len() == 1
            && tells_recovery(about(alerts_over(alerted, sweeps), id)[0], id),
        !alerted.contains(id) ==> about(alerts_over(alerted, sweeps), id).len() == 0,
        !watch_after(alerted, sweeps).contains(id),
    decreases sweeps.len(),
{
    let before = sweeps.drop_last();
    let last = sweeps[sweeps.len() - 1];
    assert(finds_back(last, id));
    let i = choose|i: int| 0 <= i < last.rows.len() && (#[trigger] last.rows[i]).id@ == id;
    assert(!offline(last.rows[i], last.start.threshold));
    let known = watch_after(alerted, before);
    law_sweep_knows_the_offline(known, last.start, last.rows, id);
    law_one_word_per_machine(known, last.start, last.rows, i);
    lemma_about_concat(
        alerts_over(alerted, before),
        progress(known, last.start, last.rows).alerts,
        id,
    );
    if before.len() > 0 {
        assert forall|j: int| 0 <= j < before.len() implies finds_back(
            #[trigger] before[j],
            id,
        ) by {
            assert(before[j] == sweeps[j]);
        }
        law_recovered_once(alerted, before, id);
    } else {
        assert(about(alerts_over(alerted, before), id).len() == 0);
    }
}

/// A machine that goes offline and comes back is spoken of twice, however many sweeps look at it
/// meanwhile: once as offline, then once as recovered.
pub proof fn law_offline_and_back(
    alerted: Set<Seq<char>>,
    down: Seq<Sweep>,
    up: Seq<Sweep>,
    id: Seq<char>,
)
    requires
        !alerted.contains(id),
        down.len() > 0,
        up.len() > 0,
        forall|i: int| 0 <= i < down.len() ==> finds_offline(#[trigger] down[i], id),
        forall|i: int| 0 <= i < up.len() ==> finds_back(#[trigger] up[i], id),
    ensures
        ({
            let words = about(alerts_over(alerted, down + up), id);
            words.len() == 2 && tells_offline(words[0], id) && tells_recovery(words[1], id)
        }),
        !watch_after(alerted, down + up).contains(id),
{
    let known = watch_after(alerted, down);
    law_announced_once(alerted, down, id);
    law_recovered_once(known, up, id);
    lemma_runs_of_sweeps(alerted, down, up);
    lemma_about_concat(alerts_over(alerted, down), alerts_over(known, up), id);
}

/// Every alert of a sweep is of the type `offline`.
pub proof fn law_sweep_alert_type(
    alerted: Set<Seq<char>>,
    start: SweepView,
    rows: Seq<SeenRow>,
    i: int,
)
    requires
        0 <= i < progress(alerted, start, rows).alerts.len(),
    ensures
        progress(alerted, start, rows).alerts[i].alert_type == "offline"@,
    decreases rows.len(),
{
    if rows.len() > 0 {
        let before = progress(alerted, start, rows.drop_last()).alerts;
        if i < before.len() {
            law_sweep_alert_type(alerted, start, rows.drop_last(), i);
        }
    }
}

/// A machine that was announced and is back is announced as recovered, once: the next sweep
/// says so, and after it the machine is no longer among the announced.
pub proof fn law_recovery_is_announced(
    alerted: Set<Seq<char>>,
    start: SweepView,
    rows: Seq<SeenRow>,
    i: int,
)
    requires
        distinct_ids(rows),
        0 <= i < rows.len(),
        alerted.contains(rows[i].id@),
        !offline(rows[i], start.threshold),
    ensures
        ({
            let p = progress(alerted, start, rows);
            &&& about(p.alerts, rows[i].id@) == seq![
                recovered_alert(rows[i], rows[i].checked_at.text()),
            ]
            &&& !p.alerted.intersect(p.found).contains(rows[i].id@)
        }),
{
    let id = rows[i].id@;
    law_one_word_per_machine(alerted, start, rows, i);
    law_sweep_knows_the_offline(alerted, start, rows, id);
    if offline_in(rows, start.threshold, id) {
        let j = choose|j: int|
            0 <= j < rows.len() && (#[trigger] rows[j]).id@ == id && offline(
                rows[j],
                start.threshold,
            );
        if i < j {
            assert(rows[i].id@ != rows[j].id@);
        } else if j < i {
            assert(rows[j].id@ != rows[i].id@);
        }
    }
}

/// The nanoseconds from one point in time to another, outside of leap seconds.
pub open spec fn nanos_between(seen: (i64, u32), now: Moment) -> int {
    (now.spec_secs() - seen.0) * 1_000_000_000 + now.spec_nanos() - seen.1
}

/// A machine is offline exactly when its last report is more than the allowed minutes old, to
/// the nanosecond. The clock and the report are taken outside of leap seconds.
pub proof fn law_offline_by_age(seen: (i64, u32), now: Moment, minutes: i64)
    requires
        minutes > 0,
        now.spec_nanos() < 1_000_000_000,
        seen.1 < 1_000_000_000,
        offline_threshold(minutes, now) is Some,
    ensures
        silent_since(Some(seen), offline_threshold(minutes, now).unwrap()) <==> nanos_between(
            seen,
            now,
        ) > minutes * 60_000_000_000,
{
}

/// A machine whose row says when it last reported is offline exactly when the allowed minutes
/// have passed since. [`Moment::to_rfc3339`] writes such rows for the years that RFC 3339 can
/// write.
pub proof fn law_reporting_keeps_online(row: SeenRow, reported: Moment, now: Moment, minutes: i64)
    requires
        minutes > 0,
        now.spec_nanos() < 1_000_000_000,
        reported.spec_nanos() < 1_000_000_000,
        offline_threshold(minutes, now) is Some,
        clock::rfc3339_instant(row.last_seen@) == Some(
            (reported.spec_secs(), reported.spec_nanos()),
        ),
    ensures
        offline(row, offline_threshold(minutes, now).unwrap()) <==> nanos_between(
            (reported.spec_secs(), reported.spec_nanos()),
            now,
        ) > minutes * 60_000_000_000,
{
    law_offline_by_age((reported.spec_secs(), reported.spec_nanos()), now, minutes);
}

/// A time of the last report that cannot be read does not make a machine offline; one that can be
/// read does so exactly when it is earlier than the threshold.
pub proof fn law_unreadable_time(row: SeenRow, threshold: (i64, u32))
    ensures
        clock::rfc3339_instant(row.last_seen@) is None ==> !offline(row, threshold),
        clock::rfc3339_instant(row.last_seen@) matches Some(seen) ==> (offline(row, threshold)
            <==> seen.0 < threshold.0 || (seen.0 == threshold.0 && seen.1 < threshold.1)),
{
}

/// A look at a machine gives an alert exactly when what is found differs from what was announced:
/// one that it is offline, or one that it is back. After it, the machine is among the announced
/// exactly when it is offline, and so for those found; no other machine is touched.
pub proof fn law_visit(
    alerted: Set<Seq<char>>,
    found: Set<Seq<char>>,
    sweep: SweepView,
    row: SeenRow,
    is_offline: bool,
    timestamp: Seq<char>,
    other: Seq<char>,
)
    requires
        other != row.id@,
    ensures
        alert_on_visit(alerted, sweep, row, is_offline, timestamp) is Some <==> is_offline
            != alerted.contains(row.id@),
        alert_on_visit(alerted, sweep, row, is_offline, timestamp) matches Some(alert) ==> alert
            == if is_offline {
            offline_alert(sweep, row, timestamp)
        } else {
            recovered_alert(row, timestamp)
        },
        alerted_after(alerted, row.id@, is_offline).contains(row.id@) == is_offline,
        alerted_after(alerted, row.id@, is_offline).contains(other) == alerted.contains(other),
        found_after(found, row.id@, is_offline).contains(row.id@) == (is_offline || found.contains(
            row.id@,
        )),
        found_after(found, row.id@, is_offline).contains(other) == found.contains(other),
{
}

/// The alert about a machine that went offline names the machine, the minutes and the last
/// report.
pub proof fn law_offline_alert(sweep: SweepView, row: SeenRow, timestamp: Seq<char>)
    ensures
        ({
            let alert = offline_alert(sweep, row, timestamp);
            &&& alert.title == "離線告警"@
            &&& alert.message == row.name@ + (" 已超過 "@ + (text::decimal(sweep.minutes) + (
            " 分鐘沒有上報（最後："@ + (row.last_seen@ + "）"@))))
            &&& alert.server_id == row.id@ && alert.server_name == row.name@
            &&& alert.alert_type == "offline"@ && alert.level == "critical"@
            &&& alert.value == sweep.minutes_value
            &&& !alert.limit.nan() && alert.limit.units() == 0
            &&& alert.timestamp == timestamp
        }),
{
    assert(Quantity::spec_zero().units() == 0);
    assert(offline_alert(sweep, row, timestamp).message =~= row.name@ + (" 已超過 "@ + (
    text::decimal(sweep.minutes) + (" 分鐘沒有上報（最後："@ + (row.last_seen@ + "）"@)))));
}

/// The alert about a machine that is back names the machine and carries no figures.
pub proof fn law_recovered_alert(row: SeenRow, timestamp: Seq<char>)
    ensures
        ({
            let alert = recovered_alert(row, timestamp);
            &&& alert.title == "恢復通知"@
            &&& alert.message == row.name@ + " 已恢復上報"@
            &&& alert.server_id == row.id@ && alert.server_name == row.name@
            &&& alert.alert_type == "offline"@ && alert.level == "info"@
            &&& !alert.value.nan() && alert.value.units() == 0
            &&& !alert.limit.nan() && alert.limit.units() == 0
            &&& alert.timestamp == timestamp
        }),
{
    assert(Quantity::spec_zero().units() == 0);
}

/// A sweep over two lists of rows is a sweep over the one and then, from what it came to, over
/// the other: machines are looked at, and alerts come, in the order of the rows.
pub proof fn law_sweep_goes_row_by_row(
    alerted: Set<Seq<char>>,
    start: SweepView,
    a: Seq<SeenRow>,
    b: Seq<SeenRow>,
)
    ensures
        progress(alerted, start, Seq::empty()) == (Progress {
            alerted,
            found: Set::empty(),
            alerts: Seq::empty(),
        }),
        ({
            let first = progress(alerted, start, a);
            let second = progress(first.alerted, start, b);
            let both = progress(alerted, start, a + b);
            &&& both.alerted == second.alerted
            &&& both.found == first.found.union(second.found)
            &&& both.alerts == first.alerts + second.alerts
        }),
    decreases b.len(),
{
    let first = progress(alerted, start, a);
    if b.len() == 0 {
        assert(a + b =~= a);
        assert(first.found.union(Set::empty()) =~= first.found);
        assert(first.alerts + Seq::<AlertView>::empty() =~= first.alerts);
    } else {
        assert((a + b).drop_last() =~= a + b.drop_last());
        assert((a + b).last() == b.last());
        law_sweep_goes_row_by_row(alerted, start, a, b.drop_last());
        let second = progress(first.alerted, start, b);
        let both = progress(alerted, start, a + b);
        assert(both.found =~= first.found.union(second.found));
        assert(both.alerts =~= first.alerts + second.alerts);
    }
}

/// A sweep looks back by the minutes of the settings from now, outside of a leap second, and
/// speaks of those minutes.
pub proof fn law_sweep_of_settings(minutes: i64, now: Moment)
    requires
        0 < minutes < 0x20_0000_0000_0000,
        clock::in_calendar(now.spec_secs(), now.spec_nanos()),
        now.spec_nanos() < 1_000_000_000,
        offline_threshold(minutes, now) is Some,
    ensures
        sweep_of(minutes, now).threshold.0 + 60 * minutes == now.spec_secs(),
        sweep_of(minutes, now).threshold.1 == now.spec_nanos(),
        sweep_of(minutes, now).minutes == minutes,
        sweep_of(minutes, now).minutes_value.units() == minutes * quantity::one(),
        sweep_of(minutes, now).still_offline == Set::<Seq<char>>::empty(),
{
    quantity::lemma_whole_exists(minutes as nat);
}

/// The contents of a list of alerts are those of its alerts, in order.
pub proof fn law_alert_list(alerts: Seq<AlertPayload>)
    ensures
        alert_list(alerts).len() == alerts.len(),
        forall|i: int| 0 <= i < alerts.len() ==> #[trigger] alert_list(alerts)[i] == alerts[i]@,
{
}

} // verus!
