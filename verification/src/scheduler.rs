//! The cursor scheduler: the owner of the running sample-position counters
//! and the pending event. For every requested audio buffer it decides, at
//! sample accuracy, how the buffer splits into synthesizer render spans and
//! where each due event is applied between them.

use crate::convert::{samples, spec_samples, ConfigError};
use crate::event::{Payload, TimedEvent};
use crate::source::EventSource;
use vstd::prelude::*;

verus! {

/// One span of a buffer-fill plan: render `frames` samples with the current
/// voice state, then apply `event`, if any, at the exact sample boundary.
#[derive(Clone, Debug, PartialEq, Eq)]
pub struct Segment {
    /// How many samples to render before anything changes.
    pub frames: u64,
    /// The event to apply once they are rendered; `None` only in the spans
    /// that pad the buffer after the last due event.
    pub event: Option<TimedEvent>,
}

/// The total number of samples a plan renders.
pub open spec fn total_frames(plan: Seq<Segment>) -> int
    decreases plan.len(),
{
    if plan.len() == 0 {
        0
    } else {
        total_frames(plan.drop_last()) + plan.last().frames
    }
}

/// The events a plan applies, in application order.
pub open spec fn applied_events(plan: Seq<Segment>) -> Seq<TimedEvent>
    decreases plan.len(),
{
    if plan.len() == 0 {
        Seq::empty()
    } else {
        applied_events(plan.drop_last()) + match plan.last().event {
            Some(event) => seq![event],
            None => Seq::<TimedEvent>::empty(),
        }
    }
}

/// The events one buffer fill must apply when `pending` was waiting for its
/// due position and `fetched` arrived from the stream during the fill: the
/// pending event, then every fetched event but the last, which remains
/// pending in turn. Nothing is applied while nothing arrives.
pub open spec fn due_events(pending: TimedEvent, fetched: Seq<TimedEvent>) -> Seq<TimedEvent> {
    if fetched.len() == 0 {
        Seq::empty()
    } else {
        seq![pending] + fetched.drop_last()
    }
}

/// The events a later scheduler state has taken from the stream beyond an
/// earlier one.
pub open spec fn fetched_between(pre: Scheduler, post: Scheduler) -> Seq<TimedEvent> {
    post.source.received().skip(pre.source.received().len() as int)
}

/// Sample-position addition, capped at the largest representable position.
pub open spec fn sat_add_i64(a: int, b: int) -> int {
    if a + b <= i64::MAX {
        a + b
    } else {
        i64::MAX as int
    }
}

/// The no-op event a scheduler holds before the first real one arrives.
pub open spec fn is_sentinel(event: TimedEvent, channel: u8) -> bool {
    event.delay == 0 && event.channel == channel && (event.payload matches Payload::Meta {
        typ,
        data,
    } && typ == 0 && data@.len() == 0)
}

fn sat_add(a: i64, b: i64) -> (r: i64)
    requires
        0 <= a,
        0 <= b,
    ensures
        r == sat_add_i64(a as int, b as int),
{
    if a <= i64::MAX - b {
        a + b
    } else {
        i64::MAX
    }
}

proof fn lemma_total_frames_push(plan: Seq<Segment>, seg: Segment)
    ensures
        total_frames(plan.push(seg)) == total_frames(plan) + seg.frames,
{
    assert(plan.push(seg).drop_last() =~= plan);
}

proof fn lemma_applied_events_push(plan: Seq<Segment>, seg: Segment)
    ensures
        applied_events(plan.push(seg)) == applied_events(plan) + (match seg.event {
            Some(event) => seq![event],
            None => Seq::<TimedEvent>::empty(),
        }),
{
    assert(plan.push(seg).drop_last() =~= plan);
}

proof fn lemma_push_take<A>(s: Seq<A>, e: A, n: int)
    requires
        0 <= n <= s.len(),
    ensures
        s.push(e).take(n) == s.take(n),
{
    assert(s.push(e).take(n) =~= s.take(n));
}

proof fn lemma_push_skip<A>(s: Seq<A>, e: A, n: int)
    requires
        0 <= n <= s.len(),
    ensures
        s.push(e).skip(n) == s.skip(n).push(e),
{
    assert(s.push(e).skip(n) =~= s.skip(n).push(e));
}

/// Law: rendered sample counts add up across consecutive buffer fills.
/// Every fill renders its whole buffer, so over any run of fills the total
/// rendered equals the total requested: no samples are dropped and none are
/// rendered twice.
pub proof fn lemma_total_frames_concat(plan1: Seq<Segment>, plan2: Seq<Segment>)
    ensures
        total_frames(plan1 + plan2) == total_frames(plan1) + total_frames(plan2),
    decreases plan2.len(),
{
    if plan2.len() == 0 {
        assert(plan1 + plan2 =~= plan1);
    } else {
        lemma_total_frames_concat(plan1, plan2.drop_last());
        assert((plan1 + plan2).drop_last() =~= plan1 + plan2.drop_last());
        assert((plan1 + plan2).last() == plan2.last());
    }
}

/// Law: the events applied over consecutive buffer fills are the fills'
/// applied events laid end to end, in order.
pub proof fn lemma_applied_events_concat(plan1: Seq<Segment>, plan2: Seq<Segment>)
    ensures
        applied_events(plan1 + plan2) == applied_events(plan1) + applied_events(plan2),
    decreases plan2.len(),
{
    if plan2.len() == 0 {
        assert(plan1 + plan2 =~= plan1);
        assert(applied_events(plan1) + applied_events(plan2) =~= applied_events(plan1));
    } else {
        lemma_applied_events_concat(plan1, plan2.drop_last());
        assert((plan1 + plan2).drop_last() =~= plan1 + plan2.drop_last());
        assert((plan1 + plan2).last() == plan2.last());
        assert(applied_events(plan1 + plan2) =~= applied_events(plan1) + applied_events(plan2));
    }
}

/// Law: events are applied in exactly the order they were produced, each at
/// most once. Across two consecutive buffer fills, applying the first fill's
/// due events and then the second's (whose pending event is the last event
/// the first fill fetched) is the same as one fill that fetched both
/// sequences: no event is dropped, duplicated or reordered at the seam.
pub proof fn lemma_events_in_order(
    pending: TimedEvent,
    fetched1: Seq<TimedEvent>,
    fetched2: Seq<TimedEvent>,
)
    requires
        fetched1.len() > 0,
    ensures
        due_events(pending, fetched1) + due_events(fetched1.last(), fetched2) == due_events(
            pending,
            fetched1 + fetched2,
        ),
{
    if fetched2.len() == 0 {
        assert(fetched1 + fetched2 =~= fetched1);
        assert(due_events(pending, fetched1) + due_events(fetched1.last(), fetched2) =~= due_events(
            pending,
            fetched1,
        ));
    } else {
        assert((fetched1 + fetched2).len() > 0);
        assert(due_events(pending, fetched1) + due_events(fetched1.last(), fetched2) =~= due_events(
            pending,
            fetched1 + fetched2,
        ));
    }
}

/// The scheduling state owned by the real-time audio thread: two running
/// sample-position counters, the pending event, the fixed tempo
/// configuration, and the consuming end of the event channel.
pub struct Scheduler {
    /// Absolute sample index already rendered and settled.
    pub cursor: i64,
    /// Absolute sample index at which the pending event becomes due.
    pub next_cursor: i64,
    /// The event most recently taken from the stream and not yet applied: it
    /// is applied exactly when playback reaches `next_cursor`, at which
    /// moment its successor is fetched. A no-op sentinel before playback.
    pub current_event: TimedEvent,
    /// Whether the stream's end has been observed; once set, the channel is
    /// never consulted again and every buffer is padded in full.
    pub finished: bool,
    /// Beats per minute, fixed for the whole run.
    pub bpm: u32,
    /// Pulses per quarter note, a file-level constant.
    pub ppqn: u32,
    /// The audio backend's sample rate.
    pub sample_rate: u32,
    /// The receiving end of the producer's event channel.
    pub source: EventSource,
}

impl Scheduler {
    /// Well-formedness: the settled position never passes the pending due
    /// position, positions are non-negative, the configuration is positive,
    /// and a finished scheduler has nothing pending ahead of it.
    pub open spec fn wf(self) -> bool {
        &&& 0 <= self.cursor <= self.next_cursor
        &&& self.bpm > 0
        &&& self.ppqn > 0
        &&& self.sample_rate > 0
        &&& (self.finished ==> self.cursor == self.next_cursor)
        &&& (self.source.ended() ==> self.finished)
    }

    /// A fresh scheduler at sample position zero, holding a sentinel no-op
    /// event on the played channel. Each configuration value is validated
    /// positive; a zero is the fatal configuration error named for it, and
    /// playback never starts.
    pub fn new(bpm: u32, ppqn: u32, sample_rate: u32, channel: u8, source: EventSource) -> (r:
        Result<Scheduler, ConfigError>)
        requires
            !source.ended(),
        ensures
            bpm == 0 ==> r == Err::<Scheduler, ConfigError>(ConfigError::InvalidBpm),
            bpm > 0 && ppqn == 0 ==> r == Err::<Scheduler, ConfigError>(ConfigError::InvalidPpqn),
            bpm > 0 && ppqn > 0 && sample_rate == 0 ==> r == Err::<Scheduler, ConfigError>(
                ConfigError::InvalidSampleRate,
            ),
            bpm > 0 && ppqn > 0 && sample_rate > 0 ==> (r matches Ok(s) && s.wf() && s.cursor == 0
                && s.next_cursor == 0 && !s.finished && s.bpm == bpm && s.ppqn == ppqn
                && s.sample_rate == sample_rate && is_sentinel(s.current_event, channel)
                && s.source == source),
    {
        if bpm == 0 {
            Err(ConfigError::InvalidBpm)
        } else if ppqn == 0 {
            Err(ConfigError::InvalidPpqn)
        } else if sample_rate == 0 {
            Err(ConfigError::InvalidSampleRate)
        } else {
            Ok(
                Scheduler {
                    cursor: 0,
                    next_cursor: 0,
                    current_event: TimedEvent {
                        delay: 0,
                        channel,
                        payload: Payload::Meta { typ: 0, data: Vec::new() },
                    },
                    finished: false,
                    bpm,
                    ppqn,
                    sample_rate,
                    source,
                },
            )
        }
    }

    /// Fills one requested buffer of `len` samples, deciding every render
    /// span and event application inside it.
    ///
    /// The returned plan renders exactly `len` samples. The pending event is
    /// applied once the remaining gap to its due position is rendered; every
    /// event fetched after it is applied after a span equal to its own tick
    /// delay in samples, so each event lands at its exact due sample. The
    /// stream is consulted only while the next due position falls inside
    /// this buffer, never speculatively; when the stream ends, the rest of
    /// the buffer is still rendered in full with the last voice state, and
    /// later fills pad whole buffers without touching the channel again.
    ///
    /// `max_fetch` bounds how many times one fill may wait on the channel,
    /// keeping each callback's work finite even against a runaway stream of
    /// zero-delay events. A fill that uses its whole budget while the
    /// pending due position is still inside the buffer defers that position
    /// to the buffer's end, so the pending event fires at the start of the
    /// next fill; with any larger budget the schedule is exact.
    #[verifier::loop_isolation(false)]
    pub fn fill_buffer(&mut self, len: usize, max_fetch: usize) -> (plan: Vec<Segment>)
        requires
            old(self).wf(),
            old(self).cursor + len as int <= i64::MAX as int,
        ensures
            final(self).wf(),
            final(self).bpm == old(self).bpm,
            final(self).ppqn == old(self).ppqn,
            final(self).sample_rate == old(self).sample_rate,
            final(self).cursor == old(self).cursor + len as int,
            old(self).source.received().is_prefix_of(final(self).source.received()),
            total_frames(plan@) == len as int,
            ({
                let fetched = fetched_between(*old(self), *final(self));
                let k = fetched.len() as int;
                let due = due_events(old(self).current_event, fetched);
                let due_next = if k == 0 {
                    old(self).next_cursor as int
                } else {
                    sat_add_i64(
                        old(self).cursor + total_frames(plan@.take(k)),
                        spec_samples(
                            fetched.last().delay as int,
                            old(self).bpm as int,
                            old(self).ppqn as int,
                            old(self).sample_rate as int,
                        ),
                    )
                };
                &&& k <= plan@.len()
                &&& k <= max_fetch
                &&& applied_events(plan@) == due
                &&& (forall|i: int| 0 <= i < k ==> (#[trigger] plan@[i]).event == Some(due[i]))
                &&& (forall|i: int| k <= i < plan@.len() ==> (#[trigger] plan@[i]).event is None)
                &&& (k > 0 ==> plan@[0].frames == old(self).next_cursor - old(self).cursor)
                &&& (forall|i: int|
                    1 <= i < k ==> (#[trigger] plan@[i]).frames == spec_samples(
                        fetched[i - 1].delay as int,
                        old(self).bpm as int,
                        old(self).ppqn as int,
                        old(self).sample_rate as int,
                    ))
                &&& (k > 0 ==> total_frames(plan@.take(k)) < len as int)
                &&& final(self).current_event == (if k == 0 {
                    old(self).current_event
                } else {
                    fetched.last()
                })
                &&& (!final(self).finished ==> final(self).next_cursor == (if due_next >= old(self).cursor
                    + len as int {
                    due_next
                } else {
                    old(self).cursor + len as int
                }))
                &&& (!final(self).finished && due_next < old(self).cursor + len as int ==> k
                    == max_fetch)
            }),
            final(self).finished == (old(self).finished || final(self).source.ended()),
            !final(self).finished ==> final(self).next_cursor >= old(self).cursor + len as int,
            final(self).finished ==> final(self).next_cursor == final(self).cursor,
            old(self).finished ==> final(self).source.received() == old(self).source.received()
                && plan@.len() == (if len == 0 {
                0int
            } else {
                1int
            }),
            !old(self).finished && old(self).next_cursor >= old(self).cursor + len as int ==> final(self).source.received()
                == old(self).source.received() && final(self).next_cursor == old(self).next_cursor
                && final(self).current_event == old(self).current_event && !final(self).finished,
    {
        let len_i: i64 = len as i64;
        let start: i64 = self.cursor;
        let end: i64 = start + len_i;
        let mut inner: i64 = 0;
        let mut fetches: usize = 0;
        let mut plan: Vec<Segment> = Vec::new();
        while !self.finished && self.next_cursor < end && fetches < max_fetch
            invariant
                self.wf(),
                self.bpm == old(self).bpm,
                self.ppqn == old(self).ppqn,
                self.sample_rate == old(self).sample_rate,
                self.cursor == start + inner,
                0 <= inner <= len_i,
                fetches <= max_fetch,
                fetches as int == plan@.len(),
                old(self).source.received().is_prefix_of(self.source.received()),
                self.finished == (old(self).finished || self.source.ended()),
                ({
                    let fetched = fetched_between(*old(self), *self);
                    let k = fetched.len() as int;
                    let due = due_events(old(self).current_event, fetched);
                    &&& plan@.len() == k + (if self.finished && !old(self).finished {
                        1int
                    } else {
                        0int
                    })
                    &&& total_frames(plan@) == inner
                    &&& applied_events(plan@) == due
                    &&& (forall|i: int| 0 <= i < k ==> (#[trigger] plan@[i]).event == Some(due[i]))
                    &&& (forall|i: int|
                        k <= i < plan@.len() ==> (#[trigger] plan@[i]).event is None)
                    &&& (k > 0 ==> plan@[0].frames == old(self).next_cursor - old(self).cursor)
                    &&& (forall|i: int|
                        1 <= i < k ==> (#[trigger] plan@[i]).frames == spec_samples(
                            fetched[i - 1].delay as int,
                            old(self).bpm as int,
                            old(self).ppqn as int,
                            old(self).sample_rate as int,
                        ))
                    &&& (k > 0 ==> total_frames(plan@.take(k)) < len_i)
                    &&& self.current_event == (if k == 0 {
                        old(self).current_event
                    } else {
                        fetched.last()
                    })
                    &&& (!self.finished && k > 0 ==> self.next_cursor == sat_add_i64(
                        start + total_frames(plan@.take(k)),
                        spec_samples(
                            fetched.last().delay as int,
                            old(self).bpm as int,
                            old(self).ppqn as int,
                            old(self).sample_rate as int,
                        ),
                    ))
                    &&& (!self.finished && k == 0 ==> self.next_cursor == old(self).next_cursor
                        && inner == 0)
                }),
                old(self).finished ==> self.source.received() == old(self).source.received()
                    && plan@.len() == 0 && inner == 0,
                !old(self).finished && old(self).next_cursor >= end ==> self.source.received()
                    == old(self).source.received() && self.next_cursor == old(self).next_cursor
                    && self.current_event == old(self).current_event && !self.finished,
            decreases max_fetch - fetches,
        {
            let ghost prev = *self;
            let ghost prev_plan = plan@;
            let ghost h0 = old(self).source.received();
            let frames: i64 = self.next_cursor - self.cursor;
            let seg_frames: u64 = frames as u64;
            inner = inner + frames;
            self.cursor = self.next_cursor;
            fetches = fetches + 1;
            match self.source.recv() {
                Some(event) => {
                    let delay: u32 = event.delay;
                    let skip: i64 = samples(delay, self.bpm, self.ppqn, self.sample_rate);
                    let mut taken = event;
                    core::mem::swap(&mut self.current_event, &mut taken);
                    plan.push(Segment { frames: seg_frames, event: Some(taken) });
                    self.next_cursor = sat_add(self.cursor, skip);
                    proof {
                        let fetched_prev = fetched_between(*old(self), prev);
                        let fetched = fetched_between(*old(self), *self);
                        let k_prev = fetched_prev.len() as int;
                        lemma_push_skip(prev.source.received(), fetched.last(), h0.len() as int);
                        assert(fetched =~= fetched_prev.push(fetched.last()));
                        assert(fetched.drop_last() =~= fetched_prev);
                        lemma_push_take(prev.source.received(), fetched.last(), h0.len() as int);
                        assert(h0.is_prefix_of(self.source.received()));
                        lemma_total_frames_push(prev_plan, plan@.last());
                        lemma_applied_events_push(prev_plan, plan@.last());
                        let due = due_events(old(self).current_event, fetched);
                        assert(due_events(old(self).current_event, fetched_prev).push(taken)
                            =~= due);
                        lemma_push_take(prev_plan, plan@.last(), k_prev);
                        assert(plan@.take(k_prev + 1) =~= plan@);
                    }
                },
                None => {
                    self.finished = true;
                    self.next_cursor = self.cursor;
                    plan.push(Segment { frames: seg_frames, event: None });
                    proof {
                        let fetched = fetched_between(*old(self), *self);
                        let k = fetched.len() as int;
                        lemma_total_frames_push(prev_plan, plan@.last());
                        lemma_applied_events_push(prev_plan, plan@.last());
                        assert(applied_events(plan@) =~= applied_events(prev_plan));
                        if k > 0 {
                            lemma_push_take(prev_plan, plan@.last(), k);
                        }
                    }
                },
            }
        }
        if inner < len_i {
            let ghost prev_plan = plan@;
            plan.push(Segment { frames: (len_i - inner) as u64, event: None });
            proof {
                let fetched = fetched_between(*old(self), *self);
                let k = fetched.len() as int;
                lemma_total_frames_push(prev_plan, plan@.last());
                lemma_applied_events_push(prev_plan, plan@.last());
                assert(applied_events(plan@) =~= applied_events(prev_plan));
                if k > 0 {
                    lemma_push_take(prev_plan, plan@.last(), k);
                }
            }
        }
        self.cursor = end;
        if self.next_cursor < end {
            self.next_cursor = end;
        }
        plan
    }
}

} // verus!
