//! A registry of timers, each under a tag of its own.

use crate::bench::measure;
use crate::bench::summarize;
use crate::bench::RunThroughReport;
use crate::error::TimerError;
use crate::simple::SimpleTimer;
use crate::simple::TimerState;
use crate::text::decimal;
use crate::text::decimal_text;
use crate::units::NANOS_PER_MICRO;
use crate::units::NANOS_PER_MILLI;
use crate::units::NANOS_PER_SEC;
use vstd::prelude::*;
use vstd::string::StringExecFns;

verus! {

/// `str::eq`, the `==` of string slices, holds exactly when the two slices
/// are the same sequence of characters.
pub assume_specification[ <str as PartialEq>::eq ](left: &str, right: &str) -> (same: bool)
    ensures
        same == (left@ == right@),
;

/// What a registry holds: the state of each timer, by tag.
pub type Timers = Map<Seq<char>, TimerState>;

/// What creating a timer under `tag` reports: refused where the tag is taken.
pub open spec fn create_verdict(timers: Timers, tag: Seq<char>) -> Result<(), TimerError> {
    if timers.contains_key(tag) {
        Err(TimerError::DuplicateTag)
    } else {
        Ok(())
    }
}

/// The registry after an attempt to create a timer under `tag`: a new empty
/// timer where the tag was free, no change where it was taken.
pub open spec fn after_create(timers: Timers, tag: Seq<char>) -> Timers {
    if timers.contains_key(tag) {
        timers
    } else {
        timers.insert(tag, TimerState::Empty)
    }
}

/// What starting the timer under `tag` reports: the timer's own verdict, or
/// `UnknownTag` where there is no such timer.
pub open spec fn start_verdict(timers: Timers, tag: Seq<char>) -> Result<(), TimerError> {
    if timers.contains_key(tag) {
        timers[tag].start_verdict()
    } else {
        Err(TimerError::UnknownTag)
    }
}

/// The registry after an attempt to start the timer under `tag` with `mark`:
/// only that timer can have changed.
pub open spec fn after_start(timers: Timers, tag: Seq<char>, mark: u128) -> Timers {
    if timers.contains_key(tag) {
        timers.insert(tag, timers[tag].started(mark))
    } else {
        timers
    }
}

/// What stopping the timer under `tag` reports: the timer's own verdict, or
/// `UnknownTag` where there is no such timer.
pub open spec fn stop_verdict(timers: Timers, tag: Seq<char>) -> Result<(), TimerError> {
    if timers.contains_key(tag) {
        timers[tag].stop_verdict()
    } else {
        Err(TimerError::UnknownTag)
    }
}

/// The registry after an attempt to stop the timer under `tag` with `mark`:
/// only that timer can have changed.
pub open spec fn after_stop(timers: Timers, tag: Seq<char>, mark: u128) -> Timers {
    if timers.contains_key(tag) {
        timers.insert(tag, timers[tag].stopped(mark))
    } else {
        timers
    }
}

/// What deleting the timer under `tag` reports: `UnknownTag` where there is
/// no such timer.
pub open spec fn delete_verdict(timers: Timers, tag: Seq<char>) -> Result<(), TimerError> {
    if timers.contains_key(tag) {
        Ok(())
    } else {
        Err(TimerError::UnknownTag)
    }
}

/// The registry after an attempt to delete the timer under `tag`: that timer
/// is gone, the others stay.
pub open spec fn after_delete(timers: Timers, tag: Seq<char>) -> Timers {
    timers.remove(tag)
}

/// The measured time of the timer under `tag` in whole units of `unit`
/// nanoseconds: `None` where there is no such timer or a mark is missing.
pub open spec fn elapsed_of(timers: Timers, tag: Seq<char>, unit: u128) -> Option<u128> {
    if timers.contains_key(tag) {
        timers[tag].elapsed_in(unit)
    } else {
        None
    }
}

/// Whether `tags` lists the tags of the registry: each of them, once.
pub open spec fn lists(tags: Seq<Seq<char>>, timers: Timers) -> bool {
    &&& forall|i: int| 0 <= i < tags.len() ==> timers.contains_key(#[trigger] tags[i])
    &&& forall|i: int, j: int| 0 <= i < j < tags.len() ==> tags[i] != tags[j]
    &&& forall|tag: Seq<char>| #[trigger] timers.contains_key(tag) ==> tags.contains(tag)
}

/// The line that reports the timer under `tag`: the tag and the measured
/// nanoseconds. A timer that is not stopped has no line: it is reported as
/// `Unavailable`.
pub open spec fn result_line(tag: Seq<char>, state: TimerState) -> Result<Seq<char>, TimerError> {
    match state.elapsed() {
        Some(nanos) => Ok(tag + " - "@ + decimal(nanos as nat) + " ns"@),
        None => Err(TimerError::Unavailable),
    }
}

/// Whether `line` is the text or the error that `expected` asks for.
pub open spec fn line_is(
    line: Result<String, TimerError>,
    expected: Result<Seq<char>, TimerError>,
) -> bool {
    match line {
        Ok(text) => expected == Ok::<Seq<char>, TimerError>(text@),
        Err(e) => expected == Err::<Seq<char>, TimerError>(e),
    }
}

/// Whether a benchmark through the timer under `tag` that took `samples`
/// gives `report` and turns the registry `before` into `after`: the report
/// is the one on the samples, and the timer is left stopped on the last of
/// them.
pub open spec fn ran_through(
    before: Timers,
    tag: Seq<char>,
    samples: Seq<u128>,
    last: TimerState,
    report: RunThroughReport,
    after: Timers,
) -> bool {
    &&& report.summarizes(samples)
    &&& last is Stopped
    &&& last.elapsed() == Some(samples.last())
    &&& after == before.insert(tag, last)
}

/// Writes the line that reports `timer` under `tag`, or `Unavailable` where
/// the timer is not stopped.
pub fn write_result_line(tag: &str, timer: &SimpleTimer) -> (line: Result<String, TimerError>)
    ensures
        line_is(line, result_line(tag@, timer@)),
{
    match timer.time_in_nanos() {
        Some(nanos) => {
            let mut text = String::from_str(tag);
            text.append(" - ");
            text.append(decimal_text(nanos).as_str());
            text.append(" ns");
            Ok(text)
        },
        None => Err(TimerError::Unavailable),
    }
}

/// One timer of a registry, with its tag.
#[derive(Debug)]
struct Entry {
    tag: String,
    timer: SimpleTimer,
}

/// Whether no two of the entries share a tag.
spec fn distinct(entries: Seq<Entry>) -> bool {
    forall|i: int, j: int|
        0 <= i < j < entries.len() ==> #[trigger] entries[i].tag@ != #[trigger] entries[j].tag@
}

/// Whether some entry stands under `tag`.
spec fn holds(entries: Seq<Entry>, tag: Seq<char>) -> bool {
    exists|i: int| 0 <= i < entries.len() && #[trigger] entries[i].tag@ == tag
}

/// The place of an entry that stands under `tag`.
spec fn index_of(entries: Seq<Entry>, tag: Seq<char>) -> int {
    choose|i: int| 0 <= i < entries.len() && #[trigger] entries[i].tag@ == tag
}

/// The timers that the entries hold, by tag.
spec fn model(entries: Seq<Entry>) -> Timers {
    Map::new(
        |tag: Seq<char>| holds(entries, tag),
        |tag: Seq<char>| entries[index_of(entries, tag)].timer@,
    )
}

/// Among entries with distinct tags, the entry at place `i` is what the model
/// holds under that entry's tag.
proof fn entry_is_held(entries: Seq<Entry>, i: int)
    requires
        distinct(entries),
        0 <= i < entries.len(),
    ensures
        model(entries).contains_key(entries[i].tag@),
        model(entries)[entries[i].tag@] == entries[i].timer@,
        index_of(entries, entries[i].tag@) == i,
{
    let tag = entries[i].tag@;
    assert(holds(entries, tag));
    let k = index_of(entries, tag);
    if k < i {
        assert(entries[k].tag@ != entries[i].tag@);
    } else if i < k {
        assert(entries[i].tag@ != entries[k].tag@);
    }
}

/// A tag that the model holds is the tag of some entry.
proof fn held_is_entry(entries: Seq<Entry>, tag: Seq<char>) -> (i: int)
    requires
        model(entries).contains_key(tag),
    ensures
        0 <= i < entries.len(),
        entries[i].tag@ == tag,
        i == index_of(entries, tag),
{
    index_of(entries, tag)
}

/// Adding an entry under a tag that no entry has yet adds that tag to the
/// model and keeps the tags distinct.
proof fn model_after_push(before: Seq<Entry>, entry: Entry)
    requires
        distinct(before),
        !model(before).contains_key(entry.tag@),
    ensures
        distinct(before.push(entry)),
        model(before.push(entry)) == model(before).insert(entry.tag@, entry.timer@),
{
    let after = before.push(entry);
    let n = before.len() as int;
    assert forall|i: int, j: int| 0 <= i < j < after.len() implies #[trigger] after[i].tag@
        != #[trigger] after[j].tag@ by {
        if j < n {
            assert(before[i].tag@ != before[j].tag@);
        } else {
            entry_is_held(before, i);
        }
    }
    let target = model(before).insert(entry.tag@, entry.timer@);
    assert forall|tag: Seq<char>| #[trigger]
        model(after).contains_key(tag) == target.contains_key(tag) by {
        if model(after).contains_key(tag) {
            let k = held_is_entry(after, tag);
            if k < n {
                entry_is_held(before, k);
            }
        }
        if model(before).contains_key(tag) {
            let k = held_is_entry(before, tag);
            assert(after[k].tag@ == tag);
        }
        if tag == entry.tag@ {
            assert(after[n].tag@ == tag);
        }
    }
    assert forall|tag: Seq<char>| #[trigger] model(after).contains_key(tag) implies model(
        after,
    )[tag] == target[tag] by {
        let k = held_is_entry(after, tag);
        entry_is_held(after, k);
        if k < n {
            entry_is_held(before, k);
        }
    }
    assert(model(after) =~= target);
}

/// Changing the timer of the entry at place `i`, and nothing else, changes
/// the model under that entry's tag alone.
proof fn model_after_update(before: Seq<Entry>, after: Seq<Entry>, i: int)
    requires
        distinct(before),
        0 <= i < before.len(),
        after.len() == before.len(),
        after[i].tag@ == before[i].tag@,
        forall|j: int| 0 <= j < before.len() && j != i ==> after[j] == before[j],
    ensures
        distinct(after),
        model(after) == model(before).insert(before[i].tag@, after[i].timer@),
{
    assert forall|j: int| 0 <= j < before.len() implies #[trigger] after[j].tag@
        == before[j].tag@ by {}
    assert forall|j: int, k: int| 0 <= j < k < after.len() implies #[trigger] after[j].tag@
        != #[trigger] after[k].tag@ by {
        assert(before[j].tag@ != before[k].tag@);
    }
    let target = model(before).insert(before[i].tag@, after[i].timer@);
    assert forall|tag: Seq<char>| #[trigger]
        model(after).contains_key(tag) == target.contains_key(tag) by {
        if model(after).contains_key(tag) {
            let k = held_is_entry(after, tag);
            entry_is_held(before, k);
        }
        if model(before).contains_key(tag) {
            let k = held_is_entry(before, tag);
            assert(after[k].tag@ == tag);
        }
        if tag == before[i].tag@ {
            assert(after[i].tag@ == tag);
        }
    }
    assert forall|tag: Seq<char>| #[trigger] model(after).contains_key(tag) implies model(
        after,
    )[tag] == target[tag] by {
        let k = held_is_entry(after, tag);
        entry_is_held(after, k);
        entry_is_held(before, k);
    }
    assert(model(after) =~= target);
}

/// Taking out the entry at place `i` takes its tag out of the model and
/// leaves the rest.
proof fn model_after_remove(before: Seq<Entry>, i: int)
    requires
        distinct(before),
        0 <= i < before.len(),
    ensures
        distinct(before.remove(i)),
        model(before.remove(i)) == model(before).remove(before[i].tag@),
{
    let after = before.remove(i);
    assert forall|j: int, k: int| 0 <= j < k < after.len() implies #[trigger] after[j].tag@
        != #[trigger] after[k].tag@ by {
        let bj = if j < i { j } else { j + 1 };
        let bk = if k < i { k } else { k + 1 };
        assert(before[bj].tag@ != before[bk].tag@);
    }
    let target = model(before).remove(before[i].tag@);
    assert forall|tag: Seq<char>| #[trigger]
        model(after).contains_key(tag) == target.contains_key(tag) by {
        if model(after).contains_key(tag) {
            let k = held_is_entry(after, tag);
            let bk = if k < i { k } else { k + 1 };
            entry_is_held(before, bk);
            if bk < i {
                assert(before[bk].tag@ != before[i].tag@);
            } else {
                assert(before[i].tag@ != before[bk].tag@);
            }
        }
        if target.contains_key(tag) {
            let k = held_is_entry(before, tag);
            let ak = if k < i { k } else { k - 1 };
            assert(after[ak].tag@ == tag);
        }
    }
    assert forall|tag: Seq<char>| #[trigger] model(after).contains_key(tag) implies model(
        after,
    )[tag] == target[tag] by {
        let k = held_is_entry(after, tag);
        entry_is_held(after, k);
        let bk = if k < i { k } else { k + 1 };
        entry_is_held(before, bk);
    }
    assert(model(after) =~= target);
}

/// A registry of timers. Each timer stands under a tag, and no two timers
/// share one.
#[derive(Debug)]
pub struct ComplexTimer {
    timers: Vec<Entry>,
}

impl View for ComplexTimer {
    type V = Timers;

    closed spec fn view(&self) -> Timers {
        model(self.timers@)
    }
}

impl ComplexTimer {
    /// The registry's invariant: no two entries share a tag.
    pub closed spec fn wf(&self) -> bool {
        distinct(self.timers@)
    }

    /// Makes a registry that holds no timer.
    pub fn new() -> (registry: ComplexTimer)
        ensures
            registry.wf(),
            registry@ == Timers::empty(),
    {
        let registry = ComplexTimer { timers: Vec::new() };
        assert(registry@ =~= Timers::empty());
        registry
    }

    /// The place of the entry under `tag`, if there is one.
    fn position(&self, tag: &str) -> (found: Option<usize>)
        requires
            self.wf(),
        ensures
            found.is_some() == self@.contains_key(tag@),
            found matches Some(i) ==> i < self.timers@.len() && self.timers@[i as int].tag@
                == tag@ && self@[tag@] == self.timers@[i as int].timer@,
    {
        let mut i: usize = 0;
        while i < self.timers.len()
            invariant
                self.wf(),
                i <= self.timers@.len(),
                forall|j: int| 0 <= j < i ==> self.timers@[j].tag@ != tag@,
            decreases self.timers@.len() - i,
        {
            if self.timers[i].tag.as_str().eq(tag) {
                proof {
                    entry_is_held(self.timers@, i as int);
                }
                return Some(i);
            }
            i += 1;
        }
        None
    }

    /// Creates an empty timer under `tag`. Refused with `DuplicateTag` where
    /// the tag is taken; a refused call changes nothing.
    pub fn create_timer(&mut self, tag: &str) -> (outcome: Result<(), TimerError>)
        requires
            old(self).wf(),
        ensures
            final(self).wf(),
            outcome == create_verdict(old(self)@, tag@),
            final(self)@ == after_create(old(self)@, tag@),
    {
        match self.position(tag) {
            Some(_) => Err(TimerError::DuplicateTag),
            None => {
                let entry = Entry {
                    tag: tag.to_owned(),
                    timer: SimpleTimer::new_named(tag.to_owned()),
                };
                proof {
                    model_after_push(self.timers@, entry);
                }
                self.timers.push(entry);
                Ok(())
            },
        }
    }

    /// Records `mark` as the start mark of the timer under `tag`. Refused
    /// with `UnknownTag` where there is no such timer, and else as the timer
    /// itself refuses; a refused call changes nothing.
    pub fn start_timer_at(&mut self, tag: &str, mark: u128) -> (outcome: Result<(), TimerError>)
        requires
            old(self).wf(),
        ensures
            final(self).wf(),
            outcome == start_verdict(old(self)@, tag@),
            final(self)@ == after_start(old(self)@, tag@, mark),
    {
        match self.position(tag) {
            None => Err(TimerError::UnknownTag),
            Some(i) => {
                let outcome = self.timers[i].timer.start_at(mark);
                proof {
                    model_after_update(old(self).timers@, self.timers@, i as int);
                }
                outcome
            },
        }
    }

    /// Records `mark` as the stop mark of the timer under `tag`. Refused with
    /// `UnknownTag` where there is no such timer, and else as the timer
    /// itself refuses; a refused call changes nothing.
    pub fn stop_timer_at(&mut self, tag: &str, mark: u128) -> (outcome: Result<(), TimerError>)
        requires
            old(self).wf(),
        ensures
            final(self).wf(),
            outcome == stop_verdict(old(self)@, tag@),
            final(self)@ == after_stop(old(self)@, tag@, mark),
    {
        match self.position(tag) {
            None => Err(TimerError::UnknownTag),
            Some(i) => {
                let outcome = self.timers[i].timer.stop_at(mark);
                proof {
                    model_after_update(old(self).timers@, self.timers@, i as int);
                }
                outcome
            },
        }
    }

    /// Reads the clock and records the reading as the start mark of the timer
    /// under `tag`. Refused with `UnknownTag` where there is no such timer,
    /// and else as the timer itself refuses; a refused call changes nothing.
    pub fn start_timer(&mut self, tag: &str) -> (outcome: Result<(), TimerError>)
        requires
            old(self).wf(),
        ensures
            final(self).wf(),
            outcome == start_verdict(old(self)@, tag@),
            exists|mark: u128| final(self)@ == #[trigger] after_start(old(self)@, tag@, mark),
    {
        match self.position(tag) {
            None => {
                assert(self@ == after_start(old(self)@, tag@, 0));
                Err(TimerError::UnknownTag)
            },
            Some(i) => {
                let outcome = self.timers[i].timer.start();
                proof {
                    let before = old(self).timers@[i as int].timer@;
                    let mark = choose|mark: u128|
                        self.timers@[i as int].timer@ == #[trigger] before.started(mark);
                    model_after_update(old(self).timers@, self.timers@, i as int);
                    assert(self@ == after_start(old(self)@, tag@, mark));
                }
                outcome
            },
        }
    }

    /// Reads the clock and records the reading as the stop mark of the timer
    /// under `tag`. Refused with `UnknownTag` where there is no such timer,
    /// and else as the timer itself refuses; a refused call changes nothing.
    pub fn stop_timer(&mut self, tag: &str) -> (outcome: Result<(), TimerError>)
        requires
            old(self).wf(),
        ensures
            final(self).wf(),
            outcome == stop_verdict(old(self)@, tag@),
            exists|mark: u128| final(self)@ == #[trigger] after_stop(old(self)@, tag@, mark),
    {
        match self.position(tag) {
            None => {
                assert(self@ == after_stop(old(self)@, tag@, 0));
                Err(TimerError::UnknownTag)
            },
            Some(i) => {
                let outcome = self.timers[i].timer.stop();
                proof {
                    let before = old(self).timers@[i as int].timer@;
                    let mark = choose|mark: u128|
                        self.timers@[i as int].timer@ == #[trigger] before.stopped(mark);
                    model_after_update(old(self).timers@, self.timers@, i as int);
                    assert(self@ == after_stop(old(self)@, tag@, mark));
                }
                outcome
            },
        }
    }

    /// The measured time of the timer under `tag` in nanoseconds: `None`
    /// where there is no such timer or it is not stopped.
    pub fn time_in_nanos(&self, tag: &str) -> (time: Option<u128>)
        requires
            self.wf(),
        ensures
            time == elapsed_of(self@, tag@, 1),
    {
        match self.position(tag) {
            Some(i) => self.timers[i].timer.time_in_nanos(),
            None => None,
        }
    }

    /// The measured time of the timer under `tag` in whole microseconds:
    /// `None` where there is no such timer or it is not stopped.
    pub fn time_in_micros(&self, tag: &str) -> (time: Option<u128>)
        requires
            self.wf(),
        ensures
            time == elapsed_of(self@, tag@, NANOS_PER_MICRO),
    {
        match self.position(tag) {
            Some(i) => self.timers[i].timer.time_in_micros(),
            None => None,
        }
    }

    /// The measured time of the timer under `tag` in whole milliseconds:
    /// `None` where there is no such timer or it is not stopped.
    pub fn time_in_millis(&self, tag: &str) -> (time: Option<u128>)
        requires
            self.wf(),
        ensures
            time == elapsed_of(self@, tag@, NANOS_PER_MILLI),
    {
        match self.position(tag) {
            Some(i) => self.timers[i].timer.time_in_millis(),
            None => None,
        }
    }

    /// The measured time of the timer under `tag` in whole seconds: `None`
    /// where there is no such timer or it is not stopped.
    pub fn time_in_secs(&self, tag: &str) -> (time: Option<u128>)
        requires
            self.wf(),
        ensures
            time == elapsed_of(self@, tag@, NANOS_PER_SEC),
    {
        match self.position(tag) {
            Some(i) => self.timers[i].timer.time_in_secs(),
            None => None,
        }
    }

    /// Deletes the timer under `tag`. Refused with `UnknownTag` where there
    /// is no such timer; a refused call changes nothing.
    pub fn delete_timer(&mut self, tag: &str) -> (outcome: Result<(), TimerError>)
        requires
            old(self).wf(),
        ensures
            final(self).wf(),
            outcome == delete_verdict(old(self)@, tag@),
            final(self)@ == after_delete(old(self)@, tag@),
    {
        match self.position(tag) {
            None => {
                assert(self@ =~= after_delete(old(self)@, tag@));
                Err(TimerError::UnknownTag)
            },
            Some(i) => {
                proof {
                    model_after_remove(self.timers@, i as int);
                }
                let _ = self.timers.remove(i);
                Ok(())
            },
        }
    }

    /// Deletes every timer.
    pub fn clear_timers(&mut self)
        ensures
            final(self).wf(),
            final(self)@ == Timers::empty(),
    {
        self.timers.clear();
        assert(self@ =~= Timers::empty());
    }

    /// The timers with their tags, each once, in no particular order.
    pub fn iter(&self) -> (pairs: Vec<(&str, &SimpleTimer)>)
        requires
            self.wf(),
        ensures
            lists(Seq::new(pairs@.len(), |i: int| pairs@[i].0@), self@),
            forall|i: int|
                0 <= i < pairs@.len() ==> self@[pairs@[i].0@] == (#[trigger] pairs@[i]).1@,
    {
        let mut pairs: Vec<(&str, &SimpleTimer)> = Vec::new();
        let mut i: usize = 0;
        while i < self.timers.len()
            invariant
                i <= self.timers@.len(),
                pairs@.len() == i,
                forall|j: int|
                    0 <= j < i ==> (#[trigger] pairs@[j]).0@ == self.timers@[j].tag@ && pairs@[j].1@
                        == self.timers@[j].timer@,
            decreases self.timers@.len() - i,
        {
            pairs.push((self.timers[i].tag.as_str(), &self.timers[i].timer));
            i += 1;
        }
        proof {
            let tags = Seq::new(pairs@.len(), |i: int| pairs@[i].0@);
            assert forall|j: int| 0 <= j < tags.len() implies #[trigger] tags[j]
                == self.timers@[j].tag@ by {
                assert(pairs@[j].0@ == self.timers@[j].tag@);
            }
            self.tags_are_listed(tags);
            assert forall|j: int| 0 <= j < pairs@.len() implies self@[pairs@[j].0@]
                == (#[trigger] pairs@[j]).1@ by {
                entry_is_held(self.timers@, j);
            }
        }
        pairs
    }

    /// The tags of the entries, in the entries' order, list the registry's
    /// tags.
    proof fn tags_are_listed(&self, tags: Seq<Seq<char>>)
        requires
            self.wf(),
            tags.len() == self.timers@.len(),
            forall|j: int| 0 <= j < tags.len() ==> #[trigger] tags[j] == self.timers@[j].tag@,
        ensures
            lists(tags, self@),
    {
        assert forall|j: int| 0 <= j < tags.len() implies self@.contains_key(
            #[trigger] tags[j],
        ) by {
            entry_is_held(self.timers@, j);
        }
        assert forall|j: int, k: int| 0 <= j < k < tags.len() implies tags[j] != tags[k] by {
            assert(self.timers@[j].tag@ != self.timers@[k].tag@);
        }
        assert forall|tag: Seq<char>| #[trigger] self@.contains_key(tag) implies tags.contains(
            tag,
        ) by {
            let k = held_is_entry(self.timers@, tag);
            assert(tags[k] == tag);
        }
    }

    /// For each timer its tag and the line that reports it, or `Unavailable`
    /// in the line's place where the timer is not stopped: each timer once,
    /// in no particular order.
    pub fn result_lines(&self) -> (lines: Vec<(&str, Result<String, TimerError>)>)
        requires
            self.wf(),
        ensures
            lists(Seq::new(lines@.len(), |i: int| lines@[i].0@), self@),
            forall|i: int|
                0 <= i < lines@.len() ==> line_is(
                    (#[trigger] lines@[i]).1,
                    result_line(lines@[i].0@, self@[lines@[i].0@]),
                ),
    {
        let mut lines: Vec<(&str, Result<String, TimerError>)> = Vec::new();
        let mut i: usize = 0;
        while i < self.timers.len()
            invariant
                i <= self.timers@.len(),
                lines@.len() == i,
                forall|j: int|
                    0 <= j < i ==> (#[trigger] lines@[j]).0@ == self.timers@[j].tag@ && line_is(
                        lines@[j].1,
                        result_line(self.timers@[j].tag@, self.timers@[j].timer@),
                    ),
            decreases self.timers@.len() - i,
        {
            let tag = self.timers[i].tag.as_str();
            let line = write_result_line(tag, &self.timers[i].timer);
            lines.push((tag, line));
            i += 1;
        }
        proof {
            let tags = Seq::new(lines@.len(), |i: int| lines@[i].0@);
            assert forall|j: int| 0 <= j < tags.len() implies #[trigger] tags[j]
                == self.timers@[j].tag@ by {
                assert(lines@[j].0@ == self.timers@[j].tag@);
            }
            self.tags_are_listed(tags);
            assert forall|j: int| 0 <= j < lines@.len() implies line_is(
                (#[trigger] lines@[j]).1,
                result_line(lines@[j].0@, self@[lines@[j].0@]),
            ) by {
                entry_is_held(self.timers@, j);
            }
        }
        lines
    }

    /// Runs `operation` once for each index below `iterations`, in order,
    /// times each call with the timer under `tag` and reports the fastest,
    /// the slowest and the average of the samples. The timer is left stopped
    /// on the last sample. Refused with `UnknownTag` where there is no such
    /// timer, and else with `InvalidIterationCount` where `iterations` is
    /// zero; a refused call changes nothing and makes no call of `operation`.
    /// Where the benchmark ran, what `operation` ensures holds of every
    /// index.
    pub fn run_through<F: Fn(usize)>(
        &mut self,
        tag: &str,
        iterations: usize,
        operation: F,
    ) -> (outcome: Result<RunThroughReport, TimerError>)
        requires
            old(self).wf(),
            forall|i: usize| i < iterations ==> call_requires(operation, (i,)),
        ensures
            final(self).wf(),
            !old(self)@.contains_key(tag@) ==> outcome == Err::<RunThroughReport, TimerError>(
                TimerError::UnknownTag,
            ),
            old(self)@.contains_key(tag@) && iterations == 0 ==> outcome == Err::<
                RunThroughReport,
                TimerError,
            >(TimerError::InvalidIterationCount),
            old(self)@.contains_key(tag@) && iterations > 0 ==> outcome is Ok,
            outcome is Err ==> final(self)@ == old(self)@,
            outcome is Ok ==> forall|i: usize|
                i < iterations ==> call_ensures(operation, (i,), ()),
            outcome matches Ok(report) ==> exists|samples: Seq<u128>, last: TimerState|
                samples.len() == iterations && #[trigger] ran_through(
                    old(self)@,
                    tag@,
                    samples,
                    last,
                    report,
                    final(self)@,
                ),
    {
        match self.position(tag) {
            None => Err(TimerError::UnknownTag),
            Some(i) => {
                if iterations == 0 {
                    return Err(TimerError::InvalidIterationCount);
                }
                let samples = measure(&mut self.timers[i].timer, iterations, operation);
                proof {
                    model_after_update(old(self).timers@, self.timers@, i as int);
                }
                let outcome = summarize(&samples);
                proof {
                    assert(ran_through(
                        old(self)@,
                        tag@,
                        samples@,
                        self.timers@[i as int].timer@,
                        outcome.unwrap(),
                        self@,
                    ));
                }
                outcome
            },
        }
    }
}

/// Once a timer was created under a tag, creating one under that tag again is
/// refused with `DuplicateTag` and changes nothing.
pub proof fn second_create_is_refused(timers: Timers, tag: Seq<char>)
    ensures
        create_verdict(after_create(timers, tag), tag) == Err::<(), TimerError>(
            TimerError::DuplicateTag,
        ),
        after_create(after_create(timers, tag), tag) == after_create(timers, tag),
{
}

/// Once the timer under a tag was deleted, starting, stopping or deleting
/// under that tag is refused with `UnknownTag` and changes nothing, and no
/// time is available under it.
pub proof fn deleted_tag_is_unknown(timers: Timers, tag: Seq<char>, mark: u128, unit: u128)
    ensures
        start_verdict(after_delete(timers, tag), tag) == Err::<(), TimerError>(
            TimerError::UnknownTag,
        ),
        after_start(after_delete(timers, tag), tag, mark) == after_delete(timers, tag),
        stop_verdict(after_delete(timers, tag), tag) == Err::<(), TimerError>(
            TimerError::UnknownTag,
        ),
        after_stop(after_delete(timers, tag), tag, mark) == after_delete(timers, tag),
        delete_verdict(after_delete(timers, tag), tag) == Err::<(), TimerError>(
            TimerError::UnknownTag,
        ),
        after_delete(after_delete(timers, tag), tag) == after_delete(timers, tag),
        elapsed_of(after_delete(timers, tag), tag, unit).is_none(),
{
    assert(after_delete(after_delete(timers, tag), tag) =~= after_delete(timers, tag));
}

/// What happens to the timer under one tag leaves the timers under every
/// other tag as they were.
pub proof fn other_tags_are_untouched(timers: Timers, tag: Seq<char>, other: Seq<char>, mark: u128)
    requires
        tag != other,
    ensures
        after_create(timers, tag).contains_key(other) == timers.contains_key(other),
        after_start(timers, tag, mark).contains_key(other) == timers.contains_key(other),
        after_stop(timers, tag, mark).contains_key(other) == timers.contains_key(other),
        after_delete(timers, tag).contains_key(other) == timers.contains_key(other),
        timers.contains_key(other) ==> {
            &&& after_create(timers, tag)[other] == timers[other]
            &&& after_start(timers, tag, mark)[other] == timers[other]
            &&& after_stop(timers, tag, mark)[other] == timers[other]
            &&& after_delete(timers, tag)[other] == timers[other]
        },
{
}

} // verus!
