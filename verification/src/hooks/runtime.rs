//! A positional hooks arena: each render walks the state, effect and memo
//! slots in call order, creating a slot the first time a position is
//! reached and reading it on every later render.
//!
//! All slots of one arena hold values of one type `V` (an enum of the
//! kinds a component keeps); dependencies are compared with `V`'s `==`.

use vstd::prelude::*;
use vstd::std_specs::cmp::PartialEqSpec;
use vstd::laws_eq::obeys_concrete_eq;

verus! {

/// The abstract state of a [`Hooks`] arena.
pub struct HooksModel<V> {
    pub states: Seq<V>,
    pub state_cursor: int,
    pub effects: Seq<Option<V>>,
    pub effect_cursor: int,
    pub memos: Seq<(Option<V>, V)>,
    pub memo_cursor: int,
}

/// Whether new dependencies differ from the stored ones: missing
/// dependencies on either side always count as a change.
pub open spec fn deps_changed<V: PartialEq>(stored: Option<V>, deps: Option<V>) -> bool {
    match (stored, deps) {
        (Some(old), Some(new)) => !old.eq_spec(&new),
        _ => true,
    }
}

impl<V> HooksModel<V> {
    /// Each cursor points at an existing slot or just past the last one.
    pub open spec fn wf(self) -> bool {
        &&& 0 <= self.state_cursor <= self.states.len()
        &&& 0 <= self.effect_cursor <= self.effects.len()
        &&& 0 <= self.memo_cursor <= self.memos.len()
    }

    /// Start of a render: all cursors rewind, slots are kept.
    pub open spec fn rewound(self) -> HooksModel<V> {
        HooksModel { state_cursor: 0, effect_cursor: 0, memo_cursor: 0, ..self }
    }

    /// `use_state` at the cursor, where `fresh` is what a new slot stores.
    pub open spec fn state_step(self, fresh: V) -> HooksModel<V> {
        HooksModel {
            states: if self.state_cursor == self.states.len() {
                self.states.push(fresh)
            } else {
                self.states
            },
            state_cursor: self.state_cursor + 1,
            ..self
        }
    }

    /// The value of the state slot at the cursor after `state_step(fresh)`.
    pub open spec fn state_value(self, fresh: V) -> V {
        self.state_step(fresh).states[self.state_cursor]
    }

    /// The arena after an effect check at the cursor that reported `changed`.
    pub open spec fn effect_after(self, deps: Option<V>, changed: bool) -> HooksModel<V> {
        HooksModel {
            effects: if self.effect_cursor == self.effects.len() {
                self.effects.push(deps)
            } else if changed {
                self.effects.update(self.effect_cursor, deps)
            } else {
                self.effects
            },
            effect_cursor: self.effect_cursor + 1,
            ..self
        }
    }

    /// A memo check at the cursor ran `calc`, returned its result `r`, and
    /// stored a clone of `r` with `deps`; nothing else changed.
    pub open spec fn memo_fresh<F: FnOnce() -> V>(self, after: HooksModel<V>, deps: Option<V>, calc: F, r: V) -> bool
        where V: Clone
    {
        let i = self.memo_cursor;
        &&& call_ensures(calc, (), r)
        &&& after.memos.len() == if i == self.memos.len() { self.memos.len() + 1 } else { self.memos.len() }
        &&& after.memos[i].0 == deps
        &&& cloned(r, after.memos[i].1)
        &&& forall|j: int| 0 <= j < self.memos.len() && j != i ==> after.memos[j] == self.memos[j]
        &&& after == (HooksModel { memos: after.memos, memo_cursor: i + 1, ..self })
    }

    /// A memo check at an existing slot returned a clone of its stored value
    /// and left the slots as they were.
    pub open spec fn memo_reused(self, after: HooksModel<V>, r: V) -> bool
        where V: Clone
    {
        &&& self.memo_cursor < self.memos.len()
        &&& cloned(self.memos[self.memo_cursor].1, r)
        &&& after == (HooksModel { memo_cursor: self.memo_cursor + 1, ..self })
    }

    /// `set_state(idx, value)`.
    pub open spec fn state_set(self, idx: int, value: V) -> HooksModel<V> {
        HooksModel { states: self.states.update(idx, value), ..self }
    }
}

impl<V: PartialEq> HooksModel<V> {
    /// Whether `check_effect(deps)` reports a change (new slots always do).
    pub open spec fn effect_changes(self, deps: Option<V>) -> bool {
        self.effect_cursor == self.effects.len()
            || deps_changed(self.effects[self.effect_cursor], deps)
    }

    /// The arena after `check_effect(deps)`: a changed slot takes the new deps.
    pub open spec fn effect_step(self, deps: Option<V>) -> HooksModel<V> {
        self.effect_after(deps, self.effect_changes(deps))
    }

    /// Whether `check_memo(deps, ..)` recomputes (new slots always do).
    pub open spec fn memo_recomputes(self, deps: Option<V>) -> bool {
        self.memo_cursor == self.memos.len()
            || deps_changed(self.memos[self.memo_cursor].0, deps)
    }
}

/// The arena after a render's state hooks ran with initial values `inits`,
/// in order.
pub open spec fn run_state_hooks<V>(h: HooksModel<V>, inits: Seq<V>) -> HooksModel<V>
    decreases inits.len(),
{
    if inits.len() == 0 {
        h
    } else {
        run_state_hooks(h, inits.drop_last()).state_step(inits.last())
    }
}

proof fn lemma_run_state_hooks_fresh<V>(h: HooksModel<V>, inits: Seq<V>)
    requires
        h.wf(),
        h.state_cursor == h.states.len(),
    ensures
        run_state_hooks(h, inits).states == h.states + inits,
        run_state_hooks(h, inits).state_cursor == h.state_cursor + inits.len(),
        run_state_hooks(h, inits).wf(),
    decreases inits.len(),
{
    if inits.len() > 0 {
        lemma_run_state_hooks_fresh(h, inits.drop_last());
        assert(h.states + inits.drop_last() + seq![inits.last()] =~= h.states + inits);
    }
}

proof fn lemma_run_state_hooks_existing<V>(h: HooksModel<V>, inits: Seq<V>)
    requires
        h.wf(),
        h.state_cursor + inits.len() <= h.states.len(),
    ensures
        run_state_hooks(h, inits).states == h.states,
        run_state_hooks(h, inits).state_cursor == h.state_cursor + inits.len(),
        forall|k: int| 0 <= k < inits.len() ==>
            #[trigger] run_state_hooks(h, inits.take(k)).state_value(inits[k]) == h.states[h.state_cursor + k],
    decreases inits.len(),
{
    if inits.len() > 0 {
        let prev = inits.drop_last();
        lemma_run_state_hooks_existing(h, prev);
        assert forall|k: int| 0 <= k < inits.len() implies
            #[trigger] run_state_hooks(h, inits.take(k)).state_value(inits[k]) == h.states[h.state_cursor + k]
        by {
            if k < prev.len() {
                assert(inits.take(k) =~= prev.take(k));
                assert(inits[k] == prev[k]);
            } else {
                assert(inits.take(k) =~= prev);
            }
        }
    }
}

/// State persists across renders: a first render creates one slot per
/// `use_state` call holding its initial value; on the next render the same
/// calls read those values back, whatever initial values they pass, and
/// the slots are unchanged.
pub proof fn lemma_state_persists_across_renders<V>(first: Seq<V>, second: Seq<V>)
    requires
        second.len() <= first.len(),
    ensures
        ({
            let fresh = HooksModel::<V> {
                states: Seq::empty(),
                state_cursor: 0,
                effects: Seq::empty(),
                effect_cursor: 0,
                memos: Seq::empty(),
                memo_cursor: 0,
            };
            let after_first = run_state_hooks(fresh, first);
            let next = after_first.rewound();
            &&& after_first.states == first
            &&& run_state_hooks(next, second).states == first
            &&& forall|k: int| 0 <= k < second.len() ==>
                #[trigger] run_state_hooks(next, second.take(k)).state_value(second[k]) == first[k]
        }),
{
    let fresh = HooksModel::<V> {
        states: Seq::empty(),
        state_cursor: 0,
        effects: Seq::empty(),
        effect_cursor: 0,
        memos: Seq::empty(),
        memo_cursor: 0,
    };
    lemma_run_state_hooks_fresh(fresh, first);
    assert(Seq::<V>::empty() + first =~= first);
    let next = run_state_hooks(fresh, first).rewound();
    lemma_run_state_hooks_existing(next, second);
}

/// A write is read back on the next render: after `set_state(i, v)` and a
/// reset, once the render's first `i` `use_state` calls have read slots
/// `0..i`, the next `use_state` call is at position `i` and returns `v`,
/// whatever initial value it passes; the slots are the old ones with `v`
/// at `i`.
pub proof fn lemma_set_then_use_state<V>(h: HooksModel<V>, i: int, v: V, earlier: Seq<V>, init: V)
    requires
        h.wf(),
        0 <= i < h.states.len(),
        earlier.len() == i,
    ensures
        ({
            let next = run_state_hooks(h.state_set(i, v).rewound(), earlier);
            &&& next.state_cursor == i
            &&& next.state_value(init) == v
            &&& next.state_step(init).states == h.states.update(i, v)
        }),
{
    let start = h.state_set(i, v).rewound();
    lemma_run_state_hooks_existing(start, earlier);
}

/// An effect whose dependencies did not change does not run again: after
/// `check_effect(Some(d))` at a position, the next render's check at that
/// position with equal dependencies reports no change, while a first check,
/// or a check without dependencies, always does.
pub proof fn lemma_effect_runs_once_per_change<V: PartialEq>(h: HooksModel<V>, d: V, next: HooksModel<V>)
    requires
        obeys_concrete_eq::<V>(),
        h.wf(),
        next.effects == h.effect_step(Some(d)).effects,
        next.effect_cursor == h.effect_cursor,
    ensures
        h.effect_cursor == h.effects.len() ==> h.effect_changes(Some(d)),
        h.effect_changes(None),
        !next.effect_changes(Some(d)),
        next.effect_step(Some(d)).effects == next.effects,
{
    reveal(obeys_concrete_eq);
}

/// A memo whose dependencies did not change is not recomputed: once a memo
/// slot stores dependencies `Some(d)`, a check with equal dependencies reuses
/// the stored value.
pub proof fn lemma_memo_reused_when_deps_equal<V: PartialEq>(h: HooksModel<V>, d: V)
    requires
        obeys_concrete_eq::<V>(),
        h.wf(),
        h.memo_cursor < h.memos.len(),
        h.memos[h.memo_cursor].0 == Some(d),
    ensures
        !h.memo_recomputes(Some(d)),
        h.memo_recomputes(None),
{
    reveal(obeys_concrete_eq);
}

/// The hooks arena of one component.
pub struct Hooks<V> {
    states: Vec<V>,
    current_idx: usize,
    effect_deps: Vec<Option<V>>,
    effect_idx: usize,
    memos: Vec<(Option<V>, V)>,
    memo_idx: usize,
}

impl<V> View for Hooks<V> {
    type V = HooksModel<V>;

    closed spec fn view(&self) -> HooksModel<V> {
        HooksModel {
            states: self.states@,
            state_cursor: self.current_idx as int,
            effects: self.effect_deps@,
            effect_cursor: self.effect_idx as int,
            memos: self.memos@,
            memo_cursor: self.memo_idx as int,
        }
    }
}

impl<V> Hooks<V> {
    /// An empty arena.
    pub fn new() -> (h: Self)
        ensures
            h@ == (HooksModel::<V> {
                states: Seq::empty(),
                state_cursor: 0,
                effects: Seq::empty(),
                effect_cursor: 0,
                memos: Seq::empty(),
                memo_cursor: 0,
            }),
            h@.wf(),
    {
        Hooks {
            states: Vec::new(),
            current_idx: 0,
            effect_deps: Vec::new(),
            effect_idx: 0,
            memos: Vec::new(),
            memo_idx: 0,
        }
    }

    /// Start a render: rewind all cursors, keep all slots.
    pub fn reset(&mut self)
        ensures
            final(self)@ == old(self)@.rewound(),
    {
        self.current_idx = 0;
        self.effect_idx = 0;
        self.memo_idx = 0;
    }

    /// Overwrite state slot `idx` (as returned by `use_state`).
    pub fn set_state(&mut self, idx: usize, new_val: V)
        requires
            idx < old(self)@.states.len(),
        ensures
            final(self)@ == old(self)@.state_set(idx as int, new_val),
    {
        self.states.set(idx, new_val);
    }
}

impl<V> Default for Hooks<V> {
    /// An empty arena.
    fn default() -> (h: Self)
        ensures
            h@ == (HooksModel::<V> {
                states: Seq::empty(),
                state_cursor: 0,
                effects: Seq::empty(),
                effect_cursor: 0,
                memos: Seq::empty(),
                memo_cursor: 0,
            }),
    {
        Self::new()
    }
}

impl<V: Clone> Hooks<V> {
    /// The state hook: on the first render at this position a slot holding a
    /// clone of `init` is created; the slot's value (cloned) and its index
    /// are returned, and the cursor moves on.
    pub fn use_state(&mut self, init: V) -> (r: (V, usize))
        requires
            old(self)@.wf(),
        ensures
            final(self)@.wf(),
            final(self)@.state_cursor == old(self)@.state_cursor + 1,
            r.1 == old(self)@.state_cursor,
            old(self)@.state_cursor < old(self)@.states.len() ==> final(self)@ == old(self)@.state_step(init),
            old(self)@.state_cursor == old(self)@.states.len() ==> {
                &&& final(self)@ == old(self)@.state_step(final(self)@.states[r.1 as int])
                &&& cloned(init, final(self)@.states[r.1 as int])
            },
            cloned(final(self)@.states[r.1 as int], r.0),
    {
        if self.current_idx >= self.states.len() {
            self.states.push(init.clone());
        }
        let idx = self.current_idx;
        let n = self.states.len();
        assert(idx < n);
        let val = self.states[idx].clone();
        self.current_idx = idx + 1;
        proof {
            assert(self@.states =~= old(self)@.state_step(self@.states[idx as int]).states);
        }
        (val, idx)
    }
}

impl<V: PartialEq> Hooks<V> {
    /// The effect hook: reports whether the effect must run, i.e. on the
    /// first render at this position, or when the dependencies are missing
    /// or differ from the stored ones; a change stores the new dependencies.
    pub fn check_effect(&mut self, deps: Option<V>) -> (changed: bool)
        requires
            old(self)@.wf(),
        ensures
            final(self)@.wf(),
            V::obeys_eq_spec() ==> changed == old(self)@.effect_changes(deps),
            final(self)@ == old(self)@.effect_after(deps, changed),
            old(self)@.effect_cursor == old(self)@.effects.len() ==> changed,
            deps is None ==> changed,
            old(self)@.effect_cursor < old(self)@.effects.len()
                && old(self)@.effects[old(self)@.effect_cursor] is None ==> changed,
    {
        let idx = self.effect_idx;
        if idx >= self.effect_deps.len() {
            self.effect_deps.push(deps);
            let n = self.effect_deps.len();
            assert(idx < n);
            self.effect_idx = idx + 1;
            return true;
        }
        self.effect_idx = idx + 1;
        let changed = match (&self.effect_deps[idx], &deps) {
            (Some(old_deps), Some(new_deps)) => !old_deps.eq(new_deps),
            _ => true,
        };
        if changed {
            self.effect_deps.set(idx, deps);
        }
        changed
    }
}

impl<V: PartialEq + Clone> Hooks<V> {
    /// The memo hook: on the first render at this position, or when the
    /// dependencies are missing or differ from the stored ones, `calc` runs,
    /// its result is returned and a clone of it is stored with the new
    /// dependencies; otherwise a clone of the stored value is returned.
    pub fn check_memo<F: FnOnce() -> V>(&mut self, deps: Option<V>, calc: F) -> (r: V)
        requires
            old(self)@.wf(),
            call_requires(calc, ()),
        ensures
            final(self)@.wf(),
            V::obeys_eq_spec() && old(self)@.memo_recomputes(deps)
                ==> old(self)@.memo_fresh(final(self)@, deps, calc, r),
            V::obeys_eq_spec() && !old(self)@.memo_recomputes(deps)
                ==> old(self)@.memo_reused(final(self)@, r),
            old(self)@.memo_fresh(final(self)@, deps, calc, r) || old(self)@.memo_reused(final(self)@, r),
            old(self)@.memo_cursor == old(self)@.memos.len() || deps is None
                ==> old(self)@.memo_fresh(final(self)@, deps, calc, r),
            old(self)@.memo_cursor < old(self)@.memos.len()
                && old(self)@.memos[old(self)@.memo_cursor].0 is None
                ==> old(self)@.memo_fresh(final(self)@, deps, calc, r),
    {
        let idx = self.memo_idx;
        if idx >= self.memos.len() {
            let val = calc();
            self.memos.push((deps, val.clone()));
            let n = self.memos.len();
            assert(idx < n);
            self.memo_idx = idx + 1;
            return val;
        }
        self.memo_idx = idx + 1;
        let changed = match (&self.memos[idx].0, &deps) {
            (Some(old_deps), Some(new_deps)) => !old_deps.eq(new_deps),
            _ => true,
        };
        if changed {
            let val = calc();
            self.memos.set(idx, (deps, val.clone()));
            val
        } else {
            self.memos[idx].1.clone()
        }
    }
}

} // verus!
