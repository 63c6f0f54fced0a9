use vstd::prelude::*;

verus! {

/// One change of the engine inputs, stamped with the tick at which it was seen.
#[derive(Debug, Clone)]
pub struct InputRecord {
    pub tick: u64,
    pub left: bool,
    pub right: bool,
}

/// A finished recording: the changes of the inputs, in the order they were seen.
#[derive(Debug, Clone)]
pub struct Recording {
    pub inputs: Vec<InputRecord>,
}

/// The engine inputs in force after the given changes: those of the last
/// change, or both engines off when there was none.
pub open spec fn last_state(rs: Seq<InputRecord>) -> (bool, bool) {
    if rs.len() == 0 {
        (false, false)
    } else {
        (rs.last().left, rs.last().right)
    }
}

/// The changes after one more sample is offered to a recorder that holds
/// `rs`: the sample is kept only when its inputs differ from those in force.
pub open spec fn record_onto(rs: Seq<InputRecord>, tick: u64, left: bool, right: bool) -> Seq<InputRecord> {
    if (left, right) != last_state(rs) {
        rs.push(InputRecord { tick, left, right })
    } else {
        rs
    }
}

/// What a fresh recorder holds after being offered `samples` in order.
pub open spec fn recorded(samples: Seq<InputRecord>) -> Seq<InputRecord>
    decreases samples.len(),
{
    if samples.len() == 0 {
        Seq::empty()
    } else {
        let s = samples.last();
        record_onto(recorded(samples.drop_last()), s.tick, s.left, s.right)
    }
}

/// Where a replay that stands at `cursor` stands after catching up with
/// `tick`: it passes every following change stamped at or before `tick`.
pub open spec fn advance(inputs: Seq<InputRecord>, cursor: int, tick: u64) -> int
    decreases inputs.len() - cursor,
{
    if 0 <= cursor < inputs.len() && inputs[cursor].tick <= tick {
        advance(inputs, cursor + 1, tick)
    } else {
        cursor
    }
}

/// The samples are stamped with strictly increasing ticks.
pub open spec fn strictly_increasing(samples: Seq<InputRecord>) -> bool {
    forall|i: int, j: int| 0 <= i < j < samples.len() ==> samples[i].tick < samples[j].tick
}

/// Catching up never moves a replay backwards, and never past the end of
/// the recording.
pub proof fn lemma_advance_bounds(inputs: Seq<InputRecord>, cursor: int, tick: u64)
    requires
        0 <= cursor <= inputs.len(),
    ensures
        cursor <= advance(inputs, cursor, tick) <= inputs.len(),
    decreases inputs.len() - cursor,
{
    if cursor < inputs.len() && inputs[cursor].tick <= tick {
        lemma_advance_bounds(inputs, cursor + 1, tick);
    }
}

/// Catching up with `t1` and then with a later `t2` ends where catching up
/// with `t2` at once ends: a replay that is updated at nondecreasing ticks
/// stands where a single update at the last tick would put it.
pub proof fn lemma_update_composes(inputs: Seq<InputRecord>, cursor: int, t1: u64, t2: u64)
    requires
        t1 <= t2,
    ensures
        advance(inputs, advance(inputs, cursor, t1), t2) == advance(inputs, cursor, t2),
    decreases inputs.len() - cursor,
{
    if 0 <= cursor < inputs.len() && inputs[cursor].tick <= t1 {
        lemma_update_composes(inputs, cursor + 1, t1, t2);
    }
}

/// Offering the same inputs twice in a row records them at most once: the
/// second offer changes nothing.
pub proof fn lemma_record_repeat_is_noop(rs: Seq<InputRecord>, t1: u64, t2: u64, left: bool, right: bool)
    ensures
        record_onto(record_onto(rs, t1, left, right), t2, left, right) == record_onto(rs, t1, left, right),
{
}

/// Every change that a recording keeps changes the inputs in force.
proof fn lemma_recorded_changes_in_force(samples: Seq<InputRecord>)
    ensures
        forall|j: int|
            0 <= j < recorded(samples).len() ==> (recorded(samples)[j].left, recorded(samples)[j].right)
                != last_state(#[trigger] recorded(samples).take(j)),
    decreases samples.len(),
{
    if samples.len() > 0 {
        let prev = recorded(samples.drop_last());
        lemma_recorded_changes_in_force(samples.drop_last());
        let rec = recorded(samples);
        assert forall|j: int| 0 <= j < rec.len() implies (rec[j].left, rec[j].right) != last_state(
            #[trigger] rec.take(j),
        ) by {
            if j < prev.len() {
                assert(rec.take(j) =~= prev.take(j));
                assert(rec[j] == prev[j]);
            } else {
                assert(rec.take(j) =~= prev);
            }
        }
    }
}

/// A recording holds only changes: its first change turns some engine on,
/// and no change repeats the inputs of the one before it.
pub proof fn lemma_recorded_changes_only(samples: Seq<InputRecord>)
    ensures
        recorded(samples).len() > 0 ==> input_of(recorded(samples)[0]) != (false, false),
        forall|i: int|
            0 <= i < recorded(samples).len() - 1 ==> input_of(#[trigger] recorded(samples)[i]) != input_of(
                recorded(samples)[i + 1],
            ),
{
    lemma_recorded_changes_in_force(samples);
    let rec = recorded(samples);
    if rec.len() > 0 {
        assert(rec.take(0) =~= Seq::<InputRecord>::empty());
        assert((rec[0].left, rec[0].right) != last_state(rec.take(0)));
    }
    assert forall|i: int| 0 <= i < rec.len() - 1 implies input_of(#[trigger] rec[i]) != input_of(rec[i + 1]) by {
        assert((rec[i + 1].left, rec[i + 1].right) != last_state(rec.take(i + 1)));
        assert(rec.take(i + 1).last() == rec[i]);
    }
}

proof fn lemma_advance_past_pushed(rs: Seq<InputRecord>, e: InputRecord, cursor: int, tick: u64)
    requires
        0 <= cursor <= rs.len(),
        e.tick > tick,
    ensures
        advance(rs.push(e), cursor, tick) == advance(rs, cursor, tick),
    decreases rs.len() - cursor,
{
    if cursor < rs.len() {
        assert(rs.push(e)[cursor] == rs[cursor]);
        if rs[cursor].tick <= tick {
            lemma_advance_past_pushed(rs, e, cursor + 1, tick);
        }
    } else {
        assert(rs.push(e)[cursor] == e);
    }
}

proof fn lemma_advance_all_due(rs: Seq<InputRecord>, cursor: int, tick: u64)
    requires
        0 <= cursor <= rs.len(),
        forall|j: int| cursor <= j < rs.len() ==> #[trigger] rs[j].tick <= tick,
    ensures
        advance(rs, cursor, tick) == rs.len(),
    decreases rs.len() - cursor,
{
    if cursor < rs.len() {
        lemma_advance_all_due(rs, cursor + 1, tick);
    }
}

proof fn lemma_recorded_ticks_bounded(samples: Seq<InputRecord>, bound: u64)
    requires
        forall|i: int| 0 <= i < samples.len() ==> #[trigger] samples[i].tick <= bound,
    ensures
        forall|j: int| 0 <= j < recorded(samples).len() ==> #[trigger] recorded(samples)[j].tick <= bound,
    decreases samples.len(),
{
    if samples.len() > 0 {
        let prefix = samples.drop_last();
        assert forall|i: int| 0 <= i < prefix.len() implies #[trigger] prefix[i].tick <= bound by {
            assert(prefix[i] == samples[i]);
        }
        lemma_recorded_ticks_bounded(prefix, bound);
        assert(samples[samples.len() - 1].tick <= bound);
        let prev = recorded(prefix);
        let rec = recorded(samples);
        assert forall|j: int| 0 <= j < rec.len() implies #[trigger] rec[j].tick <= bound by {
            if j < prev.len() {
                assert(rec[j] == prev[j]);
            }
        }
    }
}

/// A replay gives back what was recorded: when a recorder is offered samples
/// at strictly increasing ticks, a replay of its recording that has caught up
/// with the tick of any sample shows exactly that sample's inputs.
pub proof fn lemma_replay_returns_recorded(samples: Seq<InputRecord>, k: int)
    requires
        strictly_increasing(samples),
        0 <= k < samples.len(),
    ensures
        last_state(recorded(samples).take(advance(recorded(samples), 0, samples[k].tick))) == (
            samples[k].left,
            samples[k].right,
        ),
    decreases samples.len(),
{
    let n: int = samples.len() as int;
    let prefix = samples.drop_last();
    let s = samples[n - 1];
    let prev = recorded(prefix);
    let rec = recorded(samples);
    assert(strictly_increasing(prefix)) by {
        assert forall|i: int, j: int| 0 <= i < j < prefix.len() implies prefix[i].tick
            < prefix[j].tick by {
            assert(prefix[i] == samples[i] && prefix[j] == samples[j]);
        }
    }
    if k < n - 1 {
        lemma_replay_returns_recorded(prefix, k);
        assert(prefix[k] == samples[k]);
        let t: u64 = samples[k].tick;
        lemma_advance_bounds(prev, 0, t);
        let c: int = advance(prev, 0, t);
        if rec != prev {
            lemma_advance_past_pushed(prev, s, 0, t);
        }
        assert(rec.take(c) =~= prev.take(c));
    } else {
        let t: u64 = s.tick;
        if n > 1 {
            assert forall|i: int| 0 <= i < prefix.len() implies #[trigger] prefix[i].tick <= t by {
                assert(prefix[i] == samples[i]);
            }
        }
        lemma_recorded_ticks_bounded(prefix, t);
        assert forall|j: int| 0 <= j < rec.len() implies #[trigger] rec[j].tick <= t by {
            if j < prev.len() {
                assert(rec[j] == prev[j]);
            }
        }
        lemma_advance_all_due(rec, 0, t);
        assert(rec.take(rec.len() as int) =~= rec);
    }
}

/// The engine inputs that a change sets.
pub open spec fn input_of(r: InputRecord) -> (bool, bool) {
    (r.left, r.right)
}

/// The ticks never go down along `rs`.
pub open spec fn nondecreasing(rs: Seq<InputRecord>) -> bool {
    forall|i: int, j: int| 0 <= i <= j < rs.len() ==> rs[i].tick <= rs[j].tick
}

/// The samples whose inputs differ from those of the sample before them
/// (the first sample is compared with both engines off), in order.
pub open spec fn changes(samples: Seq<InputRecord>) -> Seq<InputRecord>
    decreases samples.len(),
{
    if samples.len() == 0 {
        Seq::empty()
    } else {
        let prev = last_state(samples.drop_last());
        let s = samples.last();
        changes(samples.drop_last()) + (if input_of(s) != prev {
            seq![s]
        } else {
            Seq::empty()
        })
    }
}

/// The positions, among the samples, of the changes that a recorder keeps.
pub open spec fn kept_indices(samples: Seq<InputRecord>) -> Seq<int>
    decreases samples.len(),
{
    if samples.len() == 0 {
        Seq::empty()
    } else {
        let s = samples.last();
        kept_indices(samples.drop_last()) + (if input_of(s) != last_state(recorded(samples.drop_last())) {
            seq![samples.len() - 1]
        } else {
            Seq::empty()
        })
    }
}

/// The inputs of the last entry of `rs` stamped at or before `tick`, or both
/// engines off when there is none.
pub open spec fn due_state(rs: Seq<InputRecord>, tick: u64) -> (bool, bool)
    decreases rs.len(),
{
    if rs.len() == 0 {
        (false, false)
    } else if rs.last().tick <= tick {
        input_of(rs.last())
    } else {
        due_state(rs.drop_last(), tick)
    }
}

/// The largest of the given ticks.
pub open spec fn max_tick(ts: Seq<u64>) -> u64
    recommends
        ts.len() > 0,
    decreases ts.len(),
{
    if ts.len() <= 1 {
        ts[0]
    } else if max_tick(ts.drop_last()) < ts.last() {
        ts.last()
    } else {
        max_tick(ts.drop_last())
    }
}

/// Where a fresh replay stands after updates at the given ticks, in order.
pub open spec fn replay_cursor(inputs: Seq<InputRecord>, ts: Seq<u64>) -> int
    decreases ts.len(),
{
    if ts.len() == 0 {
        0
    } else {
        advance(inputs, replay_cursor(inputs, ts.drop_last()), ts.last())
    }
}

/// The inputs in force after a recorder was offered some samples are those
/// of the last sample.
pub proof fn lemma_recorded_ends_with_last_sample(samples: Seq<InputRecord>)
    ensures
        last_state(recorded(samples)) == last_state(samples),
{
}

/// A recorder keeps exactly the samples whose inputs differ from those of
/// the sample before them (the first compared with both engines off), in
/// the order they were offered.
pub proof fn lemma_recorded_is_changes(samples: Seq<InputRecord>)
    ensures
        recorded(samples) == changes(samples),
    decreases samples.len(),
{
    if samples.len() > 0 {
        lemma_recorded_is_changes(samples.drop_last());
        lemma_recorded_ends_with_last_sample(samples.drop_last());
        let prev = recorded(samples.drop_last());
        let s = samples.last();
        if input_of(s) != last_state(prev) {
            assert(prev.push(s) =~= prev + seq![s]);
        } else {
            assert(prev =~= prev + Seq::<InputRecord>::empty());
        }
    }
}

/// What a recorder keeps is a subsequence of the samples it was offered:
/// each kept change is the sample at a position, and the positions rise.
pub proof fn lemma_recorded_subsequence(samples: Seq<InputRecord>)
    ensures
        kept_indices(samples).len() == recorded(samples).len(),
        forall|j: int|
            0 <= j < recorded(samples).len() ==> 0 <= #[trigger] kept_indices(samples)[j] < samples.len()
                && recorded(samples)[j] == samples[kept_indices(samples)[j]],
        forall|i: int, j: int|
            0 <= i < j < kept_indices(samples).len() ==> kept_indices(samples)[i] < kept_indices(samples)[j],
    decreases samples.len(),
{
    if samples.len() > 0 {
        let prefix = samples.drop_last();
        lemma_recorded_subsequence(prefix);
        let ks = kept_indices(samples);
        let kp = kept_indices(prefix);
        let rec = recorded(samples);
        let prev = recorded(prefix);
        assert forall|j: int| 0 <= j < rec.len() implies 0 <= #[trigger] ks[j] < samples.len()
            && rec[j] == samples[ks[j]] by {
            if j < prev.len() {
                assert(ks[j] == kp[j]);
                assert(rec[j] == prev[j]);
                assert(prefix[kp[j]] == samples[kp[j]]);
            }
        }
        assert forall|i: int, j: int| 0 <= i < j < ks.len() implies ks[i] < ks[j] by {
            if j < kp.len() {
                assert(ks[i] == kp[i] && ks[j] == kp[j]);
            } else {
                assert(ks[i] == kp[i]);
            }
        }
    }
}

/// Samples offered at nondecreasing (strictly increasing) ticks give a
/// recording at nondecreasing (strictly increasing) ticks.
pub proof fn lemma_recorded_sorted(samples: Seq<InputRecord>)
    ensures
        nondecreasing(samples) ==> nondecreasing(recorded(samples)),
        strictly_increasing(samples) ==> strictly_increasing(recorded(samples)),
{
    lemma_recorded_subsequence(samples);
    let rec = recorded(samples);
    let ks = kept_indices(samples);
    if nondecreasing(samples) {
        assert forall|i: int, j: int| 0 <= i <= j < rec.len() implies rec[i].tick <= rec[j].tick by {
            assert(ks[i] <= ks[j]);
            assert(rec[i] == samples[ks[i]] && rec[j] == samples[ks[j]]);
        }
    }
    if strictly_increasing(samples) {
        assert forall|i: int, j: int| 0 <= i < j < rec.len() implies rec[i].tick < rec[j].tick by {
            assert(ks[i] < ks[j]);
            assert(rec[i] == samples[ks[i]] && rec[j] == samples[ks[j]]);
        }
    }
}

proof fn lemma_advance_sorted(rs: Seq<InputRecord>, cursor: int, tick: u64)
    requires
        nondecreasing(rs),
        0 <= cursor <= rs.len(),
        forall|j: int| 0 <= j < cursor ==> #[trigger] rs[j].tick <= tick,
    ensures
        cursor <= advance(rs, cursor, tick) <= rs.len(),
        forall|j: int| 0 <= j < advance(rs, cursor, tick) ==> #[trigger] rs[j].tick <= tick,
        forall|j: int| advance(rs, cursor, tick) <= j < rs.len() ==> #[trigger] rs[j].tick > tick,
    decreases rs.len() - cursor,
{
    if cursor < rs.len() {
        if rs[cursor].tick <= tick {
            lemma_advance_sorted(rs, cursor + 1, tick);
        } else {
            assert forall|j: int| cursor <= j < rs.len() implies #[trigger] rs[j].tick > tick by {
                assert(rs[cursor].tick <= rs[j].tick);
            }
        }
    }
}

/// On a recording sorted by tick, a replay that has caught up with `tick`
/// shows the inputs of the last change due at `tick`.
pub proof fn lemma_sorted_replay_shows_due(rs: Seq<InputRecord>, tick: u64)
    requires
        nondecreasing(rs),
    ensures
        last_state(rs.take(advance(rs, 0, tick))) == due_state(rs, tick),
    decreases rs.len(),
{
    if rs.len() > 0 {
        let prefix = rs.drop_last();
        let e = rs.last();
        assert(prefix.push(e) =~= rs);
        if e.tick <= tick {
            assert forall|j: int| 0 <= j < rs.len() implies #[trigger] rs[j].tick <= tick by {
                assert(rs[j].tick <= rs[rs.len() - 1].tick);
            }
            lemma_advance_all_due(rs, 0, tick);
            assert(rs.take(rs.len() as int) =~= rs);
        } else {
            assert(nondecreasing(prefix)) by {
                assert forall|i: int, j: int| 0 <= i <= j < prefix.len() implies prefix[i].tick
                    <= prefix[j].tick by {
                    assert(prefix[i] == rs[i] && prefix[j] == rs[j]);
                }
            }
            lemma_sorted_replay_shows_due(prefix, tick);
            lemma_advance_past_pushed(prefix, e, 0, tick);
            lemma_advance_bounds(prefix, 0, tick);
            let c = advance(prefix, 0, tick);
            assert(rs.take(c) =~= prefix.take(c));
        }
    }
}

/// On a recording sorted by tick, updates at any ticks, in any order, leave
/// a fresh replay where one update at the largest of them would.
pub proof fn lemma_sorted_updates_reach_max(rs: Seq<InputRecord>, ts: Seq<u64>)
    requires
        nondecreasing(rs),
        ts.len() > 0,
    ensures
        replay_cursor(rs, ts) == advance(rs, 0, max_tick(ts)),
    decreases ts.len(),
{
    if ts.len() == 1 {
        assert(ts.drop_last() =~= Seq::<u64>::empty());
        assert(replay_cursor(rs, Seq::<u64>::empty()) == 0);
        assert(ts.last() == ts[0]);
    } else {
        let prev_ts = ts.drop_last();
        lemma_sorted_updates_reach_max(rs, prev_ts);
        let m = max_tick(prev_ts);
        let t = ts.last();
        if m <= t {
            lemma_update_composes(rs, 0, m, t);
        } else {
            lemma_advance_sorted(rs, 0, m);
            let d = advance(rs, 0, m);
            if d < rs.len() {
                assert(rs[d].tick > m);
            }
        }
    }
}

/// Samples offered at nondecreasing ticks and replayed: after catching up
/// with any `tick`, the replay shows the inputs of the last sample stamped
/// at or before `tick`, or both engines off when there is none.
pub proof fn lemma_replay_returns_due(samples: Seq<InputRecord>, tick: u64)
    requires
        nondecreasing(samples),
    ensures
        last_state(recorded(samples).take(advance(recorded(samples), 0, tick))) == due_state(samples, tick),
{
    lemma_recorded_sorted(samples);
    lemma_sorted_replay_shows_due(recorded(samples), tick);
    lemma_recorded_due(samples, tick);
}

proof fn lemma_recorded_due(samples: Seq<InputRecord>, tick: u64)
    requires
        nondecreasing(samples),
    ensures
        due_state(recorded(samples), tick) == due_state(samples, tick),
    decreases samples.len(),
{
    if samples.len() > 0 {
        let prefix = samples.drop_last();
        let s = samples.last();
        let prev = recorded(prefix);
        let rec = recorded(samples);
        assert(nondecreasing(prefix)) by {
            assert forall|i: int, j: int| 0 <= i <= j < prefix.len() implies prefix[i].tick
                <= prefix[j].tick by {
                assert(prefix[i] == samples[i] && prefix[j] == samples[j]);
            }
        }
        lemma_recorded_due(prefix, tick);
        if input_of(s) != last_state(prev) {
            assert(rec.drop_last() =~= prev);
        }
        if s.tick <= tick && rec == prev && prev.len() > 0 {
            assert forall|i: int| 0 <= i < prefix.len() implies #[trigger] prefix[i].tick <= tick by {
                assert(prefix[i] == samples[i]);
                assert(samples[i].tick <= samples[samples.len() - 1].tick);
            }
            lemma_recorded_ticks_bounded(prefix, tick);
            assert(prev[prev.len() - 1].tick <= tick);
        }
    }
}

/// On a recording sorted by tick, a replay that has caught up with `tick`
/// and shows the inputs of its last replayed change is over exactly when
/// the recording is empty, or its last change is due and turns both
/// engines off.
pub proof fn lemma_done_after_replay(rs: Seq<InputRecord>, tick: u64)
    requires
        nondecreasing(rs),
    ensures
        (advance(rs, 0, tick) >= rs.len() && last_state(rs.take(advance(rs, 0, tick))) == (false, false))
            == (rs.len() == 0 || (rs.last().tick <= tick && !rs.last().left && !rs.last().right)),
{
    lemma_advance_sorted(rs, 0, tick);
    let c = advance(rs, 0, tick);
    if c >= rs.len() {
        assert(rs.take(c) =~= rs);
    }
    if rs.len() > 0 && rs.last().tick <= tick && c < rs.len() {
        assert(rs[rs.len() - 1].tick > tick);
    }
}

/// Records the engine inputs of a player, keeping only the ticks at which
/// they change.
pub struct Recorder {
    inputs: Vec<InputRecord>,
    last_left: bool,
    last_right: bool,
    /// Every sample offered so far, in order.
    calls: Ghost<Seq<InputRecord>>,
}

/// A recorder as contracts speak of it: the changes it kept, and every
/// sample that it was offered.
pub struct RecorderView {
    pub inputs: Seq<InputRecord>,
    pub calls: Seq<InputRecord>,
}

impl View for Recorder {
    type V = RecorderView;

    closed spec fn view(&self) -> RecorderView {
        RecorderView { inputs: self.inputs@, calls: self.calls@ }
    }
}

impl Recorder {
    /// The remembered inputs are those of the last recorded change, and the
    /// kept changes are what the offered samples give.
    pub closed spec fn wf(&self) -> bool {
        &&& (self.last_left, self.last_right) == last_state(self.inputs@)
        &&& self.inputs@ == recorded(self.calls@)
    }

    /// An empty recorder; the inputs are taken to start with both engines off.
    pub fn new() -> (r: Recorder)
        ensures
            r.wf(),
            r@.inputs == Seq::<InputRecord>::empty(),
            r@.calls == Seq::<InputRecord>::empty(),
    {
        Recorder {
            inputs: Vec::new(),
            last_left: false,
            last_right: false,
            calls: Ghost(Seq::empty()),
        }
    }

    /// Offers the inputs seen at `tick`; they are kept when they differ from
    /// the inputs in force.
    pub fn record(&mut self, tick: u64, left: bool, right: bool)
        requires
            old(self).wf(),
        ensures
            final(self).wf(),
            final(self)@.inputs == record_onto(old(self)@.inputs, tick, left, right),
            final(self)@.calls == old(self)@.calls.push(InputRecord { tick, left, right }),
            final(self)@.inputs == recorded(final(self)@.calls),
    {
        let ghost sample = InputRecord { tick, left, right };
        proof {
            assert(self.calls@.push(sample).drop_last() =~= self.calls@);
        }
        if left != self.last_left || right != self.last_right {
            self.inputs.push(InputRecord { tick, left, right });
            self.last_left = left;
            self.last_right = right;
        }
        self.calls = Ghost(self.calls@.push(sample));
    }

    /// Ends the recording and hands out what was kept.
    pub fn finish(self) -> (rec: Recording)
        requires
            self.wf(),
        ensures
            rec.inputs@ == self@.inputs,
            rec.inputs@ == recorded(self@.calls),
    {
        Recording { inputs: self.inputs }
    }
}

/// Replays a recording: at each tick it shows the inputs of the last change
/// that is due.
pub struct GhostPlayer {
    recording: Recording,
    cursor: usize,
    pub left: bool,
    pub right: bool,
}

/// The state of a replay as contracts speak of it.
pub struct GhostView {
    pub inputs: Seq<InputRecord>,
    /// How many changes have been replayed.
    pub cursor: int,
    pub left: bool,
    pub right: bool,
}

impl View for GhostPlayer {
    type V = GhostView;

    closed spec fn view(&self) -> GhostView {
        GhostView {
            inputs: self.recording.inputs@,
            cursor: self.cursor as int,
            left: self.left,
            right: self.right,
        }
    }
}

impl GhostView {
    /// The shown inputs are those of the last replayed change.
    pub open spec fn in_step(self) -> bool {
        &&& 0 <= self.cursor <= self.inputs.len()
        &&& (self.left, self.right) == last_state(self.inputs.take(self.cursor))
    }
}

impl GhostPlayer {
    /// A replay of `recording` that has replayed nothing and shows both
    /// engines off.
    pub fn new(recording: Recording) -> (g: GhostPlayer)
        ensures
            g@.inputs == recording.inputs@,
            g@.cursor == 0,
            !g@.left,
            !g@.right,
            g@.in_step(),
    {
        GhostPlayer { recording, cursor: 0, left: false, right: false }
    }

    /// Replays every change due at or before `tick`; the shown inputs become
    /// those of the last change replayed, and stay as they were when none is due.
    pub fn update(&mut self, tick: u64)
        ensures
            final(self)@.inputs == old(self)@.inputs,
            final(self)@.cursor == advance(old(self)@.inputs, old(self)@.cursor, tick),
            final(self)@.cursor == old(self)@.cursor ==> {
                &&& final(self)@.left == old(self)@.left
                &&& final(self)@.right == old(self)@.right
            },
            final(self)@.cursor != old(self)@.cursor ==> (final(self)@.left, final(self)@.right)
                == last_state(old(self)@.inputs.take(final(self)@.cursor)),
            old(self)@.in_step() ==> final(self)@.in_step(),
    {
        let ghost start: int = self.cursor as int;
        let ghost inputs = self.recording.inputs@;
        let ghost old_left = self.left;
        let ghost old_right = self.right;
        while self.cursor < self.recording.inputs.len() && self.recording.inputs[self.cursor].tick
            <= tick
            invariant
                self.recording.inputs@ == inputs,
                start <= self.cursor,
                advance(inputs, self.cursor as int, tick) == advance(inputs, start, tick),
                self.cursor as int == start ==> self.left == old_left && self.right == old_right,
                self.cursor as int != start ==> 0 < self.cursor <= inputs.len() && (self.left, self.right)
                    == last_state(inputs.take(self.cursor as int)),
            decreases inputs.len() - self.cursor,
        {
            let rec = &self.recording.inputs[self.cursor];
            self.left = rec.left;
            self.right = rec.right;
            self.cursor = self.cursor + 1;
            assert(inputs.take(self.cursor as int).last() == inputs[self.cursor - 1]);
        }
        proof {
            if start <= inputs.len() && self.cursor as int == start {
                assert(inputs.take(start).len() == start);
            }
        }
    }

    /// The inputs the replay shows.
    pub fn shown_inputs(&self) -> (shown: (bool, bool))
        ensures
            shown == (self@.left, self@.right),
    {
        (self.left, self.right)
    }

    /// The replay is over: every change has been replayed and both engines
    /// are off.
    pub fn is_done(&self) -> (done: bool)
        ensures
            done == (self@.cursor >= self@.inputs.len() && !self@.left && !self@.right),
    {
        self.cursor >= self.recording.inputs.len() && !self.left && !self.right
    }
}

} // verus!
