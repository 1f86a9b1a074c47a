use vstd::prelude::*;

verus! {

/// Number of raw angular-rate samples that make up one calibration attempt.
pub const CALIBRATION_COUNT: usize = 16;

/// Settle delay, in milliseconds, between a calibration trigger and the first
/// sample that is collected.
pub const CALIBRATION_START_DELAY_MS: u64 = 2000;

/// The online zero-rate calibration of one device.
///
/// `S` is a raw angular-rate sample, `C` a resolved calibration reference.
/// Times are milliseconds elapsed since the device's read loop started.
/// While `collecting`, samples that arrive after `start_offset` are buffered;
/// once `CALIBRATION_COUNT` of them are there, they are handed out for one
/// calibration attempt and the buffer starts over empty.
pub struct CalibrationData<S, C> {
    pub collecting: bool,
    pub start_offset: u64,
    pub data: Vec<S>,
    pub calibration: Option<C>,
}

/// The settle deadline that a trigger at `elapsed` sets.
pub open spec fn deadline_after(elapsed: u64) -> u64 {
    if elapsed as int + CALIBRATION_START_DELAY_MS <= u64::MAX {
        (elapsed + CALIBRATION_START_DELAY_MS) as u64
    } else {
        u64::MAX
    }
}

impl<S, C> CalibrationData<S, C> {
    /// The buffer never holds a full window: a full one is handed out at once.
    pub open spec fn wf(&self) -> bool {
        self.data@.len() < CALIBRATION_COUNT
    }

    /// Starts idle, with the factory or prior calibration if there is one.
    pub fn new(calibration: Option<C>) -> (r: Self)
        ensures
            r.wf(),
            !r.collecting,
            r.data@.len() == 0,
            r.calibration == calibration,
    {
        CalibrationData {
            collecting: false,
            start_offset: CALIBRATION_START_DELAY_MS,
            data: Vec::new(),
            calibration,
        }
    }

    /// Arms a new calibration that starts collecting once the settle delay
    /// after `elapsed` has passed. The reference in use is kept until a new
    /// one is installed.
    pub fn start_calibration_delayed(&mut self, elapsed: u64)
        requires
            old(self).wf(),
        ensures
            final(self).wf(),
            final(self).collecting,
            final(self).start_offset == deadline_after(elapsed),
            final(self).data == old(self).data,
            final(self).calibration == old(self).calibration,
    {
        self.collecting = true;
        self.start_offset = elapsed.saturating_add(CALIBRATION_START_DELAY_MS);
    }

    /// Offers one raw sample taken at `elapsed`. It is kept only while
    /// collecting and after the settle delay. When it completes the window,
    /// the whole window is returned for a calibration attempt, the buffer is
    /// emptied and collecting stops until the next trigger.
    pub fn push_data(&mut self, elapsed: u64, sample: S) -> (r: Option<Vec<S>>)
        requires
            old(self).wf(),
        ensures
            final(self).wf(),
            push_step(*old(self), *final(self), elapsed, sample, r),
    {
        if self.collecting && elapsed > self.start_offset {
            self.data.push(sample);
            if self.data.len() == CALIBRATION_COUNT {
                let mut window: Vec<S> = Vec::new();
                std::mem::swap(&mut self.data, &mut window);
                self.collecting = false;
                return Some(window);
            }
        }
        None
    }

    /// Records the outcome of a calibration attempt: a derived reference is
    /// installed, a failed attempt leaves the reference in use as it was.
    pub fn finish_calibration(&mut self, result: Option<C>)
        requires
            old(self).wf(),
        ensures
            final(self).wf(),
            final(self).collecting == old(self).collecting,
            final(self).start_offset == old(self).start_offset,
            final(self).data == old(self).data,
            result is Some ==> final(self).calibration == result,
            result is None ==> final(self).calibration == old(self).calibration,
    {
        if let Some(c) = result {
            self.calibration = Some(c);
        }
    }

    /// The reference that decoding uses now, if any.
    pub fn reference(&self) -> (r: Option<&C>)
        ensures
            r is Some <==> self.calibration is Some,
            r is Some ==> *r->Some_0 == self.calibration->Some_0,
    {
        match &self.calibration {
            Some(c) => Some(c),
            None => None,
        }
    }
}

/// One offered sample: it is kept only while collecting and after the
/// settle deadline; the sample that fills the window hands the whole window
/// out, empties the buffer and stops collecting. The reference is untouched.
pub open spec fn push_step<S, C>(
    before: CalibrationData<S, C>,
    after: CalibrationData<S, C>,
    elapsed: u64,
    sample: S,
    out: Option<Vec<S>>,
) -> bool {
    let keeps = before.collecting && elapsed > before.start_offset;
    &&& after.calibration == before.calibration
    &&& after.start_offset == before.start_offset
    &&& !keeps ==> out is None && after == before
    &&& keeps && before.data@.len() + 1 < CALIBRATION_COUNT ==> out is None && after.collecting
        && after.data@ == before.data@.push(sample)
    &&& keeps && before.data@.len() + 1 == CALIBRATION_COUNT ==> out is Some && out->Some_0@
        == before.data@.push(sample) && !after.collecting && after.data@.len() == 0
}

/// `ws[k + 1]` follows from `ws[k]` by offering `samples[k]` at `times[k]`.
pub open spec fn push_run<S, C>(
    ws: Seq<CalibrationData<S, C>>,
    times: Seq<u64>,
    samples: Seq<S>,
    outs: Seq<Option<Vec<S>>>,
) -> bool {
    &&& ws.len() == times.len() + 1
    &&& samples.len() == times.len()
    &&& outs.len() == times.len()
    &&& forall|k: int|
        0 <= k < times.len() ==> #[trigger] push_step(ws[k], ws[k + 1], times[k], samples[k], outs[k])
}

/// A sample offered before the settle deadline is not counted: the window
/// stays as it was and no attempt is made.
pub proof fn law_early_sample_ignored<S, C>(
    before: CalibrationData<S, C>,
    after: CalibrationData<S, C>,
    elapsed: u64,
    sample: S,
    out: Option<Vec<S>>,
)
    requires
        push_step(before, after, elapsed, sample, out),
        elapsed <= before.start_offset,
    ensures
        after == before,
        out is None,
{
}

proof fn lemma_run_state<S, C>(
    ws: Seq<CalibrationData<S, C>>,
    times: Seq<u64>,
    samples: Seq<S>,
    outs: Seq<Option<Vec<S>>>,
    k: int,
)
    requires
        push_run(ws, times, samples, outs),
        ws[0].collecting,
        ws[0].data@.len() == 0,
        forall|m: int| 0 <= m < times.len() ==> times[m] > ws[0].start_offset,
        0 <= k <= times.len(),
    ensures
        ws[k].calibration == ws[0].calibration,
        ws[k].start_offset == ws[0].start_offset,
        k < CALIBRATION_COUNT ==> ws[k].collecting && ws[k].data@ == samples.subrange(0, k),
        k >= CALIBRATION_COUNT ==> !ws[k].collecting && ws[k].data@.len() == 0,
        forall|m: int| 0 <= m < k && m != CALIBRATION_COUNT - 1 ==> outs[m] is None,
        k >= CALIBRATION_COUNT ==> outs[CALIBRATION_COUNT - 1] is Some
            && outs[CALIBRATION_COUNT - 1]->Some_0@ == samples.subrange(0, CALIBRATION_COUNT as int),
    decreases k,
{
    if k > 0 {
        lemma_run_state(ws, times, samples, outs, k - 1);
        let j = k - 1;
        assert(push_step(ws[j], ws[j + 1], times[j], samples[j], outs[j]));
        if j < CALIBRATION_COUNT {
            assert(samples.subrange(0, j).push(samples[j]) == samples.subrange(0, k));
        }
    } else {
        assert(ws[0].data@ == samples.subrange(0, 0));
    }
}

/// Offering samples after the settle deadline of a freshly armed, empty
/// window: fewer than `CALIBRATION_COUNT` of them make no attempt; the one
/// that completes the window makes exactly one attempt, with exactly those
/// samples, and empties the buffer; none after it makes another until the
/// window is armed again. No offered sample changes the reference in use.
pub proof fn law_one_attempt_per_window<S, C>(
    ws: Seq<CalibrationData<S, C>>,
    times: Seq<u64>,
    samples: Seq<S>,
    outs: Seq<Option<Vec<S>>>,
)
    requires
        push_run(ws, times, samples, outs),
        ws[0].collecting,
        ws[0].data@.len() == 0,
        forall|m: int| 0 <= m < times.len() ==> times[m] > ws[0].start_offset,
    ensures
        forall|k: int| 0 <= k < ws.len() ==> (#[trigger] ws[k]).calibration == ws[0].calibration,
        times.len() < CALIBRATION_COUNT ==> forall|k: int| 0 <= k < outs.len() ==> outs[k] is None,
        times.len() >= CALIBRATION_COUNT ==> {
            &&& outs[CALIBRATION_COUNT - 1] is Some
            &&& outs[CALIBRATION_COUNT - 1]->Some_0@ == samples.subrange(0, CALIBRATION_COUNT as int)
            &&& forall|k: int| 0 <= k < outs.len() && k != CALIBRATION_COUNT - 1 ==> outs[k] is None
            &&& ws[CALIBRATION_COUNT as int].data@.len() == 0
        },
{
    assert forall|k: int| 0 <= k < ws.len() implies (#[trigger] ws[k]).calibration == ws[0].calibration by {
        lemma_run_state(ws, times, samples, outs, k);
    }
    lemma_run_state(ws, times, samples, outs, times.len() as int);
    if times.len() >= CALIBRATION_COUNT {
        lemma_run_state(ws, times, samples, outs, CALIBRATION_COUNT as int);
    }
}

} // verus!
