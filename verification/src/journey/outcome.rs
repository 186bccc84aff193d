//! Closing a simulated day: log keys become events, each key once per day,
//! and the log cursor moves past what was reported.
use crate::journey::event::EventId;
use crate::state::Stats;
use crate::text::str_eq;
use vstd::prelude::*;

verus! {

/// A transitional event carrying a log key.
pub struct LegacyLogEvent {
    pub id: EventId,
    pub day: u32,
    pub ui_key: String,
}

/// Events made from the day's log keys, with the next event sequence number
/// and the new log cursor.
pub struct LogEventBatch {
    pub events: Vec<LegacyLogEvent>,
    pub next_seq: u16,
    pub log_cursor: u32,
}

/// The keys held by a list of strings.
pub open spec fn key_set(v: Seq<String>) -> Set<Seq<char>> {
    Set::new(|x: Seq<char>| exists|i: int| 0 <= i < v.len() && (#[trigger] v[i])@ == x)
}

/// Keys taken from `logs` in order, each one skipped when already seen; every
/// taken key gets the next sequence number. Returns the taken (sequence, key)
/// pairs, the seen keys and the next sequence number.
pub open spec fn fold_logs(
    taken: Seq<(u16, Seq<char>)>,
    seen: Set<Seq<char>>,
    seq: u16,
    logs: Seq<Seq<char>>,
) -> (Seq<(u16, Seq<char>)>, Set<Seq<char>>, u16)
    decreases logs.len(),
{
    if logs.len() == 0 {
        (taken, seen, seq)
    } else {
        let prev = fold_logs(taken, seen, seq, logs.drop_last());
        let log = logs.last();
        if prev.1.contains(log) {
            prev
        } else {
            (prev.0.push((prev.2, log)), prev.1.insert(log), prev.2.saturating_add(1))
        }
    }
}

/// Position where unreported logs start: the cursor, at most the log count.
pub open spec fn log_start(cursor: u32, len: nat) -> int {
    if cursor as int <= len { cursor as int } else { len as int }
}

/// The events of a day's close: the resolved key first unless an event already
/// carries it, then each unreported log key not seen yet, in order.
pub open spec fn day_log_events(
    existing: Seq<String>,
    resolved: Seq<char>,
    logs: Seq<String>,
    cursor: u32,
    seq: u16,
) -> (Seq<(u16, Seq<char>)>, Set<Seq<char>>, u16) {
    let unreported = logs.subrange(log_start(cursor, logs.len()), logs.len() as int).map_values(|s: String| s@);
    fold_logs(Seq::empty(), key_set(existing), seq, seq![resolved] + unreported)
}

fn has_key(v: &Vec<String>, key: &str) -> (r: bool)
    ensures
        r == key_set(v@).contains(key@),
{
    let mut i: usize = 0;
    while i < v.len()
        invariant
            i <= v@.len(),
            forall|k: int| 0 <= k < i ==> (#[trigger] v@[k])@ != key@,
        decreases v@.len() - i,
    {
        if str_eq(v[i].as_str(), key) {
            assert(v@[i as int]@ == key@);
            return true;
        }
        i = i + 1;
    }
    false
}

proof fn lemma_key_set_push(v: Seq<String>, s: String)
    ensures
        key_set(v.push(s)) == key_set(v).insert(s@),
{
    assert forall|x: Seq<char>| #[trigger] key_set(v.push(s)).contains(x) == key_set(v).insert(s@).contains(x) by {
        if key_set(v).contains(x) {
            let i = choose|i: int| 0 <= i < v.len() && (#[trigger] v[i])@ == x;
            assert(v.push(s)[i] == v[i]);
        }
        if key_set(v.push(s)).contains(x) && x != s@ {
            let i = choose|i: int| 0 <= i < v.push(s).len() && (#[trigger] v.push(s)[i])@ == x;
            assert(i < v.len());
            assert(v[i] == v.push(s)[i]);
        }
        if x == s@ {
            assert(v.push(s)[v.len() as int] == s);
        }
    }
    assert(key_set(v.push(s)) =~= key_set(v).insert(s@));
}

/// `r` holds the events of a day's close, each on `event_day` with its
/// sequence number, the next sequence number, and the cursor moved past every log.
pub open spec fn log_batch_is(
    r: LogEventBatch,
    existing: Seq<String>,
    resolved: Seq<char>,
    logs: Seq<String>,
    cursor: u32,
    event_day: u32,
    seq: u16,
) -> bool {
    let expected = day_log_events(existing, resolved, logs, cursor, seq);
    &&& r.events@.len() == expected.0.len()
    &&& forall|k: int|
        0 <= k < r.events@.len() ==> {
            &&& (#[trigger] r.events@[k]).id == EventId { day: event_day, seq: expected.0[k].0 }
            &&& r.events@[k].day == event_day
            &&& r.events@[k].ui_key@ == expected.0[k].1
        }
    &&& r.next_seq == expected.2
    &&& r.log_cursor == if logs.len() <= u32::MAX { logs.len() as u32 } else { u32::MAX }
}

/// Turns the day's log keys into events: the resolved key unless an existing
/// event carries it, then every log from the cursor on whose key was not seen.
pub fn legacy_log_events(
    existing_keys: &Vec<String>,
    resolved_log_key: &str,
    logs: &Vec<String>,
    log_cursor: u32,
    event_day: u32,
    seq: u16,
) -> (r: LogEventBatch)
    ensures
        log_batch_is(r, existing_keys@, resolved_log_key@, logs@, log_cursor, event_day, seq),
{
    let mut seen: Vec<String> = Vec::new();
    let mut i: usize = 0;
    while i < existing_keys.len()
        invariant
            i <= existing_keys@.len(),
            seen@ == existing_keys@.take(i as int),
        decreases existing_keys@.len() - i,
    {
        seen.push(existing_keys[i].clone());
        i = i + 1;
        assert(seen@ =~= existing_keys@.take(i as int));
    }
    assert(existing_keys@.take(existing_keys@.len() as int) =~= existing_keys@);
    let len = logs.len();
    let start: usize = if (log_cursor as usize) <= len { log_cursor as usize } else { len };
    let ghost unreported = logs@.subrange(start as int, len as int).map_values(|s: String| s@);
    let ghost all = seq![resolved_log_key@] + unreported;
    let mut events: Vec<LegacyLogEvent> = Vec::new();
    let mut next = seq;
    let ghost mut taken: Seq<(u16, Seq<char>)> = Seq::empty();
    // the resolved key first
    proof {
        assert(all.take(0) =~= Seq::<Seq<char>>::empty());
        assert(fold_logs(Seq::empty(), key_set(existing_keys@), seq, all.take(0)) == (
        Seq::<(u16, Seq<char>)>::empty(), key_set(existing_keys@), seq));
        assert(all.take(1).drop_last() =~= all.take(0));
        assert(all.take(1).last() == resolved_log_key@);
    }
    let ghost seen0 = seen@;
    assert(seen0 == existing_keys@);
    if !has_key(&seen, resolved_log_key) {
        events.push(LegacyLogEvent { id: EventId::new(event_day, next), day: event_day, ui_key: String::from_str(resolved_log_key) });
        let ghost before = seen@;
        seen.push(String::from_str(resolved_log_key));
        proof {
            lemma_key_set_push(before, seen@.last());
            taken = taken.push((next, resolved_log_key@));
        }
        next = next.saturating_add(1);
    }
    assert(fold_logs(Seq::empty(), key_set(existing_keys@), seq, all.take(1)) == (taken, key_set(seen@), next));
    let mut j: usize = start;
    while j < len
        invariant
            start <= j <= len,
            len == logs@.len(),
            all == seq![resolved_log_key@] + unreported,
            unreported == logs@.subrange(start as int, len as int).map_values(|s: String| s@),
            fold_logs(Seq::empty(), key_set(existing_keys@), seq, all.take(1 + j - start)) == (taken, key_set(seen@), next),
            events@.len() == taken.len(),
            forall|k: int|
                0 <= k < events@.len() ==> {
                    &&& (#[trigger] events@[k]).id == EventId { day: event_day, seq: taken[k].0 }
                    &&& events@[k].day == event_day
                    &&& events@[k].ui_key@ == taken[k].1
                },
        decreases len - j,
    {
        let ghost n = 1 + j - start;
        proof {
            assert(all.take(n + 1).drop_last() =~= all.take(n as int));
            assert(all.take(n + 1).last() == logs@[j as int]@);
        }
        if !has_key(&seen, logs[j].as_str()) {
            events.push(LegacyLogEvent { id: EventId::new(event_day, next), day: event_day, ui_key: logs[j].clone() });
            let ghost before = seen@;
            seen.push(logs[j].clone());
            proof {
                lemma_key_set_push(before, seen@.last());
                taken = taken.push((next, logs@[j as int]@));
            }
            next = next.saturating_add(1);
        }
        j = j + 1;
    }
    proof {
        assert(all.take(1 + len - start) =~= all);
    }
    let cursor: u32 = if len <= u32::MAX as usize { len as u32 } else { u32::MAX };
    LogEventBatch { events, next_seq: next, log_cursor: cursor }
}

/// Change of each stat between two snapshots.
#[derive(Debug, Clone, Copy, PartialEq, Eq, Structural)]
pub struct StatsDelta {
    pub supplies: i32,
    pub hp: i32,
    pub sanity: i32,
    pub credibility: i32,
    pub morale: i32,
    pub allies: i32,
    pub pants: i32,
}

/// Every stat fits its type after subtraction.
pub open spec fn delta_fits(before: Stats, after: Stats) -> bool {
    &&& i32::MIN <= after.supplies - before.supplies <= i32::MAX
    &&& i32::MIN <= after.hp - before.hp <= i32::MAX
    &&& i32::MIN <= after.sanity - before.sanity <= i32::MAX
    &&& i32::MIN <= after.credibility - before.credibility <= i32::MAX
    &&& i32::MIN <= after.morale - before.morale <= i32::MAX
    &&& i32::MIN <= after.allies - before.allies <= i32::MAX
    &&& i32::MIN <= after.pants - before.pants <= i32::MAX
}

/// The change of every stat from `before` to `after`.
pub fn stats_delta(before: &Stats, after: &Stats) -> (d: StatsDelta)
    requires
        delta_fits(*before, *after),
    ensures
        d.supplies == after.supplies - before.supplies,
        d.hp == after.hp - before.hp,
        d.sanity == after.sanity - before.sanity,
        d.credibility == after.credibility - before.credibility,
        d.morale == after.morale - before.morale,
        d.allies == after.allies - before.allies,
        d.pants == after.pants - before.pants,
{
    StatsDelta {
        supplies: after.supplies - before.supplies,
        hp: after.hp - before.hp,
        sanity: after.sanity - before.sanity,
        credibility: after.credibility - before.credibility,
        morale: after.morale - before.morale,
        allies: after.allies - before.allies,
        pants: after.pants - before.pants,
    }
}

/// Day on which the day's events are recorded: the day just closed when the
/// day was consumed, else the current day.
pub fn event_day(day: u32, day_consumed: bool) -> (r: u32)
    ensures
        r == if day_consumed { day.saturating_sub(1) } else { day },
{
    if day_consumed { day.saturating_sub(1) } else { day }
}

/// Keys taken by the fold are distinct and none was seen before it.
pub open spec fn fold_unique(taken: Seq<(u16, Seq<char>)>, seen: Set<Seq<char>>) -> bool {
    &&& forall|i: int, j: int| 0 <= i < j < taken.len() ==> (#[trigger] taken[i]).1 != (#[trigger] taken[j]).1
    &&& forall|i: int| 0 <= i < taken.len() ==> seen.contains((#[trigger] taken[i]).1)
}

proof fn lemma_fold_unique(
    taken: Seq<(u16, Seq<char>)>,
    seen: Set<Seq<char>>,
    seq: u16,
    logs: Seq<Seq<char>>,
    initial: Set<Seq<char>>,
)
    requires
        fold_unique(taken, seen),
        initial.subset_of(seen),
        forall|i: int| 0 <= i < taken.len() ==> !initial.contains((#[trigger] taken[i]).1),
    ensures
        fold_unique(fold_logs(taken, seen, seq, logs).0, fold_logs(taken, seen, seq, logs).1),
        initial.subset_of(fold_logs(taken, seen, seq, logs).1),
        forall|i: int|
            0 <= i < fold_logs(taken, seen, seq, logs).0.len() ==> !initial.contains(
                (#[trigger] fold_logs(taken, seen, seq, logs).0[i]).1,
            ),
    decreases logs.len(),
{
    if logs.len() > 0 {
        lemma_fold_unique(taken, seen, seq, logs.drop_last(), initial);
        let prev = fold_logs(taken, seen, seq, logs.drop_last());
        let log = logs.last();
        if !prev.1.contains(log) {
            let t = prev.0.push((prev.2, log));
            assert forall|i: int, j: int| 0 <= i < j < t.len() implies (#[trigger] t[i]).1 != (#[trigger] t[j]).1 by {
                if j == t.len() - 1 {
                    assert(prev.1.contains(prev.0[i].1));
                } else {
                    assert(t[i] == prev.0[i] && t[j] == prev.0[j]);
                }
            }
            assert forall|i: int| 0 <= i < t.len() implies !initial.contains((#[trigger] t[i]).1) by {
                if i < prev.0.len() {
                    assert(t[i] == prev.0[i]);
                }
            }
        }
    }
}

/// A day's close reports each log key at most once, and never a key that an
/// event of the day already carries.
pub proof fn lemma_day_log_events_unique(existing: Seq<String>, resolved: Seq<char>, logs: Seq<String>, cursor: u32, seq: u16)
    ensures
        ({
            let out = day_log_events(existing, resolved, logs, cursor, seq).0;
            &&& forall|i: int, j: int| 0 <= i < j < out.len() ==> (#[trigger] out[i]).1 != (#[trigger] out[j]).1
            &&& forall|i: int| 0 <= i < out.len() ==> !key_set(existing).contains((#[trigger] out[i]).1)
        }),
{
    let unreported = logs.subrange(log_start(cursor, logs.len()), logs.len() as int).map_values(|s: String| s@);
    lemma_fold_unique(Seq::empty(), key_set(existing), seq, seq![resolved] + unreported, key_set(existing));
}

/// How a day closes: the terminal log key, when one was set, wins over the
/// phase's key, and the day has ended when the phase said so or the run has
/// an ending. The terminal key is taken.
pub fn resolve_day_close(
    terminal_log_key: &mut Option<String>,
    log_key: String,
    ended: bool,
    has_ending: bool,
) -> (r: (String, bool))
    ensures
        *final(terminal_log_key) is None,
        r.0 == match *old(terminal_log_key) {
            Some(k) => k,
            None => log_key,
        },
        r.1 == (ended || has_ending),
{
    let key = match terminal_log_key.take() {
        Some(k) => k,
        None => log_key,
    };
    (key, ended || has_ending)
}

/// A closed day: whether the run ended, the resolved log key, the day its
/// events belong to, and the event batch with the next sequence number and
/// log cursor to store.
pub struct DayClose {
    pub ended: bool,
    pub log_key: String,
    pub event_day: u32,
    pub batch: LogEventBatch,
}

/// Closes a day: resolves the log key (the terminal key wins and is taken)
/// and whether the run ended, dates the events to the consumed day (the day
/// before the current one when the day was consumed), and turns the resolved
/// key and the unreported logs into events after those already emitted.
pub fn close_day(
    existing_keys: &Vec<String>,
    terminal_log_key: &mut Option<String>,
    log_key: String,
    ended: bool,
    has_ending: bool,
    logs: &Vec<String>,
    log_cursor: u32,
    day: u32,
    day_consumed: bool,
    seq: u16,
) -> (r: DayClose)
    ensures
        *final(terminal_log_key) is None,
        r.log_key == match *old(terminal_log_key) {
            Some(k) => k,
            None => log_key,
        },
        r.ended == (ended || has_ending),
        r.event_day == if day_consumed { day.saturating_sub(1) } else { day },
        log_batch_is(r.batch, existing_keys@, r.log_key@, logs@, log_cursor, r.event_day, seq),
{
    let (key, closed) = resolve_day_close(terminal_log_key, log_key, ended, has_ending);
    let on_day = event_day(day, day_consumed);
    let batch = legacy_log_events(existing_keys, key.as_str(), logs, log_cursor, on_day, seq);
    DayClose { ended: closed, log_key: key, event_day: on_day, batch }
}

} // verus!
