//! Data model of the trackpad: calibration limits, per-finger touch
//! records, the slot-keyed touch table, and the aggregate state that a
//! frame dispatcher mutates and a pointer mapper consumes.

use vstd::prelude::*;

verus! {

/// Device-reported minimum and maximum raw values for the position and
/// pressure axes, obtained once at startup and immutable afterwards.
#[derive(Clone, Copy, Debug, PartialEq, Eq, Structural)]
pub struct TouchLimits {
    pub min_x: i32,
    pub max_x: i32,
    pub min_y: i32,
    pub max_y: i32,
    pub min_p: i32,
    pub max_p: i32,
}

impl TouchLimits {
    pub fn new(min_x: i32, max_x: i32, min_y: i32, max_y: i32, min_p: i32, max_p: i32) -> (r: Self)
        ensures
            r == (TouchLimits { min_x, max_x, min_y, max_y, min_p, max_p }),
    {
        TouchLimits { min_x, max_x, min_y, max_y, min_p, max_p }
    }
}

impl Default for TouchLimits {
    fn default() -> (r: Self)
        ensures
            r == (TouchLimits { min_x: 0, max_x: 0, min_y: 0, max_y: 0, min_p: 0, max_p: 0 }),
    {
        TouchLimits { min_x: 0, max_x: 0, min_y: 0, max_y: 0, min_p: 0, max_p: 0 }
    }
}

/// One finger's last-known raw position and pressure, in device units.
#[derive(Clone, Copy, Debug, PartialEq, Eq, Structural)]
pub struct TrackedTouchState {
    pub x: i32,
    pub y: i32,
    pub p: i32,
}

impl TrackedTouchState {
    pub fn new(x: i32, y: i32, p: i32) -> (r: Self)
        ensures
            r == (TrackedTouchState { x, y, p }),
    {
        TrackedTouchState { x, y, p }
    }
}

impl Default for TrackedTouchState {
    fn default() -> (r: Self)
        ensures
            r == (TrackedTouchState { x: 0, y: 0, p: 0 }),
    {
        TrackedTouchState { x: 0, y: 0, p: 0 }
    }
}

/// A touch record lies within the calibrated range on all three axes.
pub open spec fn in_range(limits: TouchLimits, t: TrackedTouchState) -> bool {
    &&& limits.min_x <= t.x <= limits.max_x
    &&& limits.min_y <= t.y <= limits.max_y
    &&& limits.min_p <= t.p <= limits.max_p
}

/// Selection preference between two slot/record pairs: strictly higher
/// pressure wins, and the lower slot id wins a pressure tie.
pub open spec fn beats(a_slot: i32, a: TrackedTouchState, b_slot: i32, b: TrackedTouchState) -> bool {
    a.p > b.p || (a.p == b.p && a_slot <= b_slot)
}

/// The slot holds the dominant touch: its record is within the
/// calibrated range and it is preferred over every other in-range record.
pub open spec fn is_selected(m: Map<i32, TrackedTouchState>, limits: TouchLimits, slot: i32) -> bool {
    &&& m.contains_key(slot)
    &&& in_range(limits, m[slot])
    &&& forall|k: i32|
        #[trigger] m.contains_key(k) && in_range(limits, m[k]) ==> beats(slot, m[slot], k, m[k])
}

/// At most one slot can be the dominant touch: the preference order is
/// total, so two mutually preferred slots coincide.
pub proof fn lemma_selected_unique(
    m: Map<i32, TrackedTouchState>,
    limits: TouchLimits,
    s1: i32,
    s2: i32,
)
    requires
        is_selected(m, limits, s1),
        is_selected(m, limits, s2),
    ensures
        s1 == s2,
{
    assert(m.contains_key(s1));
    assert(m.contains_key(s2));
    assert(beats(s1, m[s1], s2, m[s2]));
    assert(beats(s2, m[s2], s1, m[s1]));
}

/// Map denoted by a sequence of slot/record entries; later entries win.
pub open spec fn table_map_of(s: Seq<(i32, TrackedTouchState)>) -> Map<i32, TrackedTouchState>
    decreases s.len(),
{
    if s.len() == 0 {
        Map::empty()
    } else {
        table_map_of(s.drop_last()).insert(s.last().0, s.last().1)
    }
}

/// No two entries carry the same slot id.
pub open spec fn distinct_slot_keys(s: Seq<(i32, TrackedTouchState)>) -> bool {
    forall|i: int, j: int| 0 <= i < j < s.len() ==> (#[trigger] s[i]).0 != (#[trigger] s[j]).0
}

proof fn lemma_table_map_contains(s: Seq<(i32, TrackedTouchState)>, k: i32)
    ensures
        table_map_of(s).contains_key(k) <==> exists|i: int|
            0 <= i < s.len() && (#[trigger] s[i]).0 == k,
    decreases s.len(),
{
    if s.len() > 0 {
        lemma_table_map_contains(s.drop_last(), k);
        if s.last().0 == k {
            assert((s[s.len() - 1]).0 == k);
        } else {
            if exists|i: int| 0 <= i < s.len() && (#[trigger] s[i]).0 == k {
                let i = choose|i: int| 0 <= i < s.len() && (#[trigger] s[i]).0 == k;
                assert(i < s.len() - 1);
                assert((s.drop_last()[i]).0 == k);
            }
            if exists|i: int| 0 <= i < s.drop_last().len() && (#[trigger] s.drop_last()[i]).0 == k {
                let i = choose|i: int|
                    0 <= i < s.drop_last().len() && (#[trigger] s.drop_last()[i]).0 == k;
                assert((s[i]).0 == k);
            }
        }
    }
}

proof fn lemma_table_map_index(s: Seq<(i32, TrackedTouchState)>, i: int)
    requires
        distinct_slot_keys(s),
        0 <= i < s.len(),
    ensures
        table_map_of(s).contains_key(s[i].0),
        table_map_of(s)[s[i].0] == s[i].1,
    decreases s.len(),
{
    if i == s.len() - 1 {
    } else {
        assert(distinct_slot_keys(s.drop_last())) by {
            assert forall|a: int, b: int| 0 <= a < b < s.drop_last().len() implies (#[trigger] s
                .drop_last()[a]).0 != (#[trigger] s.drop_last()[b]).0 by {
                assert(s.drop_last()[a] == s[a]);
                assert(s.drop_last()[b] == s[b]);
            }
        }
        lemma_table_map_index(s.drop_last(), i);
        assert(s.drop_last()[i] == s[i]);
        assert((s[i]).0 != (s[s.len() - 1]).0);
    }
}

proof fn lemma_table_map_remove_at(s: Seq<(i32, TrackedTouchState)>, i: int)
    requires
        distinct_slot_keys(s),
        0 <= i < s.len(),
    ensures
        distinct_slot_keys(s.remove(i)),
        table_map_of(s.remove(i)) == table_map_of(s).remove(s[i].0),
    decreases s.len(),
{
    let t = s.remove(i);
    let x = s[i].0;
    assert forall|a: int, b: int| 0 <= a < b < t.len() implies (#[trigger] t[a]).0 != (
    #[trigger] t[b]).0 by {
        let a0: int = if a < i { a } else { a + 1 };
        let b0: int = if b < i { b } else { b + 1 };
        assert(t[a] == s[a0]);
        assert(t[b] == s[b0]);
    }
    assert forall|k: i32| #[trigger] table_map_of(t).contains_key(k) implies table_map_of(
        s,
    ).remove(x).contains_key(k) && table_map_of(t)[k] == table_map_of(s).remove(x)[k] by {
        lemma_table_map_contains(t, k);
        let j = choose|j: int| 0 <= j < t.len() && (#[trigger] t[j]).0 == k;
        let j0: int = if j < i { j } else { j + 1 };
        assert(t[j] == s[j0]);
        if j0 < i {
            assert(s[j0].0 != s[i].0);
        } else {
            assert(s[i].0 != s[j0].0);
        }
        assert(k != x);
        lemma_table_map_index(t, j);
        lemma_table_map_index(s, j0);
        lemma_table_map_contains(s, k);
        assert(table_map_of(s).contains_key(k));
    }
    assert forall|k: i32| #[trigger] table_map_of(s).remove(x).contains_key(k) implies table_map_of(
        t,
    ).contains_key(k) by {
        lemma_table_map_contains(s, k);
        lemma_table_map_contains(t, k);
        let j0 = choose|j0: int| 0 <= j0 < s.len() && (#[trigger] s[j0]).0 == k;
        assert(j0 != i);
        let j: int = if j0 < i { j0 } else { j0 - 1 };
        assert(t[j] == s[j0]);
    }
    assert(table_map_of(t) =~= table_map_of(s).remove(x));
}

/// Slot-keyed table of in-progress touch records, one per finger
/// currently on the pad. Abstractly a map from slot id to record.
#[derive(Debug)]
pub struct TouchTable {
    entries: Vec<(i32, TrackedTouchState)>,
}

impl View for TouchTable {
    type V = Map<i32, TrackedTouchState>;

    closed spec fn view(&self) -> Map<i32, TrackedTouchState> {
        table_map_of(self.entries@)
    }
}

impl TouchTable {
    #[verifier::type_invariant]
    spec fn wf(self) -> bool {
        distinct_slot_keys(self.entries@)
    }

    pub fn new() -> (t: Self)
        ensures
            t@ == Map::<i32, TrackedTouchState>::empty(),
    {
        let t = TouchTable { entries: Vec::new() };
        proof {
            assert(t.entries@.len() == 0);
        }
        t
    }

    /// The record currently tracked in the given slot, if any.
    pub fn get(&self, slot: i32) -> (r: Option<TrackedTouchState>)
        ensures
            self@.contains_key(slot) ==> r == Some(self@[slot]),
            !self@.contains_key(slot) ==> r is None,
    {
        proof {
            use_type_invariant(&*self);
        }
        let n = self.entries.len();
        let mut idx: usize = 0;
        while idx < n
            invariant
                idx <= n,
                n == self.entries.len(),
                distinct_slot_keys(self.entries@),
                forall|j: int| 0 <= j < idx ==> (#[trigger] self.entries@[j]).0 != slot,
            decreases n - idx,
        {
            let e = self.entries[idx];
            if e.0 == slot {
                proof {
                    lemma_table_map_index(self.entries@, idx as int);
                }
                return Some(e.1);
            }
            idx += 1;
        }
        proof {
            lemma_table_map_contains(self.entries@, slot);
        }
        None
    }

    /// Remove the given slot's record; a slot that is not tracked is left
    /// as it is.
    pub fn remove(&mut self, slot: i32)
        ensures
            final(self)@ == old(self)@.remove(slot),
    {
        proof {
            use_type_invariant(&*self);
        }
        let ghost orig = self.entries@;
        let mut entries: Vec<(i32, TrackedTouchState)> = Vec::new();
        std::mem::swap(&mut entries, &mut self.entries);
        let n = entries.len();
        let mut idx: usize = 0;
        while idx < n
            invariant
                idx <= n,
                n == entries.len(),
                entries@ == orig,
                old(self)@ == table_map_of(orig),
                distinct_slot_keys(orig),
                forall|j: int| 0 <= j < idx ==> (#[trigger] orig[j]).0 != slot,
            decreases n - idx,
        {
            if entries[idx].0 == slot {
                proof {
                    lemma_table_map_remove_at(orig, idx as int);
                }
                entries.remove(idx);
                self.entries = entries;
                return ;
            }
            idx += 1;
        }
        proof {
            lemma_table_map_contains(orig, slot);
            assert(!table_map_of(orig).contains_key(slot));
            assert(table_map_of(orig) =~= table_map_of(orig).remove(slot));
        }
        self.entries = entries;
    }

    /// Insert or replace the given slot's record.
    pub fn insert(&mut self, slot: i32, record: TrackedTouchState)
        ensures
            final(self)@ == old(self)@.insert(slot, record),
    {
        self.remove(slot);
        proof {
            use_type_invariant(&*self);
            lemma_table_map_contains(self.entries@, slot);
        }
        let ghost mid = self.entries@;
        let mut entries: Vec<(i32, TrackedTouchState)> = Vec::new();
        std::mem::swap(&mut entries, &mut self.entries);
        entries.push((slot, record));
        proof {
            assert(!table_map_of(mid).contains_key(slot));
            assert forall|j: int| 0 <= j < mid.len() implies (#[trigger] mid[j]).0 != slot by {
                lemma_table_map_index(mid, j);
            }
            assert(entries@.drop_last() =~= mid);
            assert(entries@.drop_last() == mid);
            assert(table_map_of(entries@) == table_map_of(mid).insert(slot, record));
            assert(old(self)@.remove(slot).insert(slot, record) =~= old(self)@.insert(
                slot,
                record,
            ));
        }
        self.entries = entries;
    }

    /// Select the dominant touch: among the records within the calibrated
    /// range, the one with the greatest pressure, the lower slot id
    /// breaking ties.
    pub fn select_best(&self, limits: TouchLimits) -> (r: Option<(i32, TrackedTouchState)>)
        ensures
            match r {
                Some(sel) => is_selected(self@, limits, sel.0) && self@[sel.0] == sel.1,
                None => forall|k: i32| #[trigger]
                    self@.contains_key(k) ==> !in_range(limits, self@[k]),
            },
    {
        proof {
            use_type_invariant(&*self);
        }
        let n = self.entries.len();
        let mut best: Option<(i32, TrackedTouchState)> = None;
        let mut idx: usize = 0;
        while idx < n
            invariant
                idx <= n,
                n == self.entries.len(),
                distinct_slot_keys(self.entries@),
                match best {
                    Some(b) => {
                        &&& exists|j: int| 0 <= j < idx && (#[trigger] self.entries@[j]) == b
                        &&& in_range(limits, b.1)
                        &&& forall|j: int|
                            0 <= j < idx && in_range(limits, (#[trigger] self.entries@[j]).1)
                                ==> beats(b.0, b.1, self.entries@[j].0, self.entries@[j].1)
                    },
                    None => forall|j: int|
                        0 <= j < idx ==> !in_range(limits, (#[trigger] self.entries@[j]).1),
                },
            decreases n - idx,
        {
            let e = self.entries[idx];
            let fits = e.1.x >= limits.min_x && e.1.x <= limits.max_x && e.1.y >= limits.min_y
                && e.1.y <= limits.max_y && e.1.p >= limits.min_p && e.1.p <= limits.max_p;
            if fits {
                match best {
                    None => {
                        best = Some(e);
                    },
                    Some(b) => {
                        if e.1.p > b.1.p || (e.1.p == b.1.p && e.0 < b.0) {
                            best = Some(e);
                        }
                    },
                }
            }
            idx += 1;
        }
        proof {
            match best {
                Some(b) => {
                    let j = choose|j: int| 0 <= j < n && (#[trigger] self.entries@[j]) == b;
                    lemma_table_map_index(self.entries@, j);
                    assert(self@.contains_key(b.0) && self@[b.0] == b.1);
                    assert forall|k: i32|
                        #[trigger] self@.contains_key(k) && in_range(limits, self@[k]) implies beats(
                        b.0,
                        b.1,
                        k,
                        self@[k],
                    ) by {
                        lemma_table_map_contains(self.entries@, k);
                        let jk = choose|jk: int|
                            0 <= jk < self.entries@.len() && (#[trigger] self.entries@[jk]).0 == k;
                        lemma_table_map_index(self.entries@, jk);
                        assert(self.entries@[jk].1 == self@[k]);
                    }
                },
                None => {
                    assert forall|k: i32| #[trigger] self@.contains_key(k) implies !in_range(
                        limits,
                        self@[k],
                    ) by {
                        lemma_table_map_contains(self.entries@, k);
                        let jk = choose|jk: int|
                            0 <= jk < self.entries@.len() && (#[trigger] self.entries@[jk]).0 == k;
                        lemma_table_map_index(self.entries@, jk);
                    }
                },
            }
        }
        best
    }
}

/// Aggregate per-frame snapshot: button states, the current slot cursor,
/// the tracked touches, and the calibration limits.
#[derive(Debug)]
pub struct TrackpadState {
    pub left: bool,
    pub right: bool,
    pub middle: bool,
    pub touching: bool,
    pub slot: i32,
    pub touches: TouchTable,
    pub touch_limits: TouchLimits,
}

impl TrackpadState {
    pub fn new(
        left: bool,
        right: bool,
        middle: bool,
        touching: bool,
        slot: i32,
        touches: TouchTable,
        touch_limits: TouchLimits,
    ) -> (r: Self)
        ensures
            r.left == left,
            r.right == right,
            r.middle == middle,
            r.touching == touching,
            r.slot == slot,
            r.touches == touches,
            r.touch_limits == touch_limits,
    {
        TrackpadState { left, right, middle, touching, slot, touches, touch_limits }
    }
}

impl Default for TrackpadState {
    fn default() -> (r: Self)
        ensures
            r.left == false,
            r.right == false,
            r.middle == false,
            r.touching == false,
            r.slot == 0,
            r.touches@ == Map::<i32, TrackedTouchState>::empty(),
            r.touch_limits == (TouchLimits { min_x: 0, max_x: 0, min_y: 0, max_y: 0, min_p: 0, max_p: 0 }),
    {
        TrackpadState {
            left: false,
            right: false,
            middle: false,
            touching: false,
            slot: 0,
            touches: TouchTable::new(),
            touch_limits: TouchLimits::default(),
        }
    }
}

/// Static description of the device plus its mutable state.
#[derive(Debug)]
pub struct TrackpadDefinition {
    pub name: String,
    pub log_path: String,
    pub phy_path: String,
    pub slotable: bool,
    pub touchable: bool,
    pub pressurable: bool,
    pub state: TrackpadState,
}

impl TrackpadDefinition {
    pub fn new(
        name: String,
        log_path: String,
        phy_path: String,
        slotable: bool,
        touchable: bool,
        pressurable: bool,
        state: TrackpadState,
    ) -> (r: Self)
        ensures
            r.name == name,
            r.log_path == log_path,
            r.phy_path == phy_path,
            r.slotable == slotable,
            r.touchable == touchable,
            r.pressurable == pressurable,
            r.state == state,
    {
        TrackpadDefinition { name, log_path, phy_path, slotable, touchable, pressurable, state }
    }
}

impl Default for TrackpadDefinition {
    fn default() -> (r: Self)
        ensures
            r.name@ == Seq::<char>::empty(),
            r.log_path@ == Seq::<char>::empty(),
            r.phy_path@ == Seq::<char>::empty(),
            r.slotable == false,
            r.touchable == false,
            r.pressurable == false,
            r.state.left == false,
            r.state.right == false,
            r.state.middle == false,
            r.state.touching == false,
            r.state.slot == 0,
            r.state.touches@ == Map::<i32, TrackedTouchState>::empty(),
    {
        TrackpadDefinition {
            name: String::new(),
            log_path: String::new(),
            phy_path: String::new(),
            slotable: false,
            touchable: false,
            pressurable: false,
            state: TrackpadState::default(),
        }
    }
}

/// What happens once a frame is complete: the injected strategy receives
/// the finished snapshot. Implementations live outside the decoder, so
/// nothing is promised of them.
pub trait TrackpadAction {
    fn act(&mut self, definition: &TrackpadDefinition);
}

/// A strategy that does nothing; the initial action of a fresh actor.
#[derive(Debug, Clone, Copy, PartialEq, Eq, Structural)]
pub struct TrackpadNullAction {}

impl TrackpadAction for TrackpadNullAction {
    fn act(&mut self, _definition: &TrackpadDefinition) {
    }
}

/// The trackpad definition paired with the frame-completion strategy.
pub struct TrackpadActor<A: TrackpadAction> {
    pub definition: TrackpadDefinition,
    pub action: A,
}

impl<A: TrackpadAction> TrackpadActor<A> {
    pub fn new(definition: TrackpadDefinition, action: A) -> (r: Self)
        ensures
            r.definition == definition,
            r.action == action,
    {
        TrackpadActor { definition, action }
    }
}

impl Default for TrackpadActor<TrackpadNullAction> {
    fn default() -> (r: Self)
        ensures
            r.definition.state.slot == 0,
            r.definition.state.touches@ == Map::<i32, TrackedTouchState>::empty(),
            r.action == (TrackpadNullAction {  }),
    {
        TrackpadActor::new(TrackpadDefinition::default(), TrackpadNullAction {  })
    }
}

} // verus!
