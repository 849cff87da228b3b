//! The derived signal and the transform pipeline over it.
//!
//! The signal is an ordered mapping from timestamp to a position value (a
//! binary64 bit pattern) and an optional type tag: keys strictly ascending
//! and unique. It is built once from a raw action list by the differential
//! extractor, mutated in place by the operations of the chain, and consumed
//! by the materializer.

use vstd::prelude::*;

use crate::args::Command;
use crate::fbits::{
    f64_abs, f64_abs_of, f64_add, f64_add_of, f64_cmp, f64_cmp_of, f64_div, f64_div_of,
    f64_from_i64, f64_ge, f64_ge_of, f64_mul, f64_mul_of, f64_of_i64, f64_round, f64_round_of,
    f64_sqrt, f64_sqrt_of, f64_sub, f64_sub_of, FloatCmp, F64_HUNDRED_BITS, F64_ZERO_BITS,
};
use crate::types::{Action, Funscript};
use vstd::pervasive::VecAdditionalExecFns;

verus! {

/// The value stored under one signal key: a position as a binary64 bit
/// pattern and an optional type tag.
#[derive(Clone, Debug)]
pub struct ActionData {
    pub pos: u64,
    pub ty: Option<String>,
}

/// One signal entry: a timestamp key with its stored data.
#[derive(Clone, Debug)]
pub struct SigEntry {
    pub at: i64,
    pub pos: u64,
    pub ty: Option<String>,
}

/// The signal's invariant: timestamps strictly ascending, hence unique.
pub open spec fn sig_sorted(s: Seq<SigEntry>) -> bool {
    forall|i: int, j: int| 0 <= i < j < s.len() ==> s[i].at < s[j].at
}

/// Insertion into an ascending sequence of entries: before the first entry
/// with a key not below `e.at`, replacing it when the keys are equal.
pub open spec fn sig_insert(s: Seq<SigEntry>, e: SigEntry) -> Seq<SigEntry>
    decreases s.len(),
{
    if s.len() == 0 {
        seq![e]
    } else if e.at < s[0].at {
        seq![e] + s
    } else if e.at == s[0].at {
        seq![e] + s.skip(1)
    } else {
        seq![s[0]] + sig_insert(s.skip(1), e)
    }
}

/// The signal entry that stores `data` under the key `at`.
pub open spec fn entry_of(at: i64, data: ActionData) -> SigEntry {
    SigEntry { at, pos: data.pos, ty: data.ty }
}

/// The ordered timestamp-to-data mapping: entries kept sorted by strictly
/// ascending timestamp, uniqueness by overwrite.
pub struct Actions {
    entries: Vec<SigEntry>,
}

impl View for Actions {
    type V = Seq<SigEntry>;

    closed spec fn view(&self) -> Seq<SigEntry> {
        self.entries@
    }
}

impl Actions {
    /// The empty mapping.
    pub fn new() -> (r: Self)
        ensures
            r@ == Seq::<SigEntry>::empty(),
    {
        let r = Actions { entries: Vec::new() };
        proof {
            assert(r@ =~= Seq::<SigEntry>::empty());
        }
        r
    }

    /// How many entries the mapping holds.
    pub fn len(&self) -> (n: usize)
        ensures
            n == self@.len(),
    {
        self.entries.len()
    }

    /// Inserts `data` under the timestamp `at`, overwriting an entry with the
    /// same timestamp, and keeps the entries ascending.
    pub fn insert(&mut self, at: i64, data: ActionData)
        requires
            sig_sorted(old(self)@),
        ensures
            final(self)@ == sig_insert(old(self)@, entry_of(at, data)),
            sig_sorted(final(self)@),
    {
        let e = SigEntry { at, pos: data.pos, ty: data.ty };
        let ghost s = self@;
        let mut j: usize = 0;
        proof {
            assert(s.skip(0) =~= s);
            assert(s.take(0) + sig_insert(s, e) =~= sig_insert(s, e));
        }
        while j < self.entries.len() && self.entries[j].at < e.at
            invariant
                self@ == s,
                j <= s.len(),
                sig_sorted(s),
                forall|k: int| 0 <= k < j ==> s[k].at < e.at,
                sig_insert(s, e) == s.take(j as int) + sig_insert(s.skip(j as int), e),
            decreases s.len() - j,
        {
            proof {
                assert(s.skip(j as int)[0] == s[j as int]);
                assert(s.skip(j as int).skip(1) =~= s.skip(j as int + 1));
                assert(sig_insert(s.skip(j as int), e) == seq![s[j as int]] + sig_insert(
                    s.skip(j as int + 1),
                    e,
                ));
                assert(s.take(j as int) + (seq![s[j as int]] + sig_insert(s.skip(j as int + 1), e))
                    =~= s.take(j as int + 1) + sig_insert(s.skip(j as int + 1), e));
            }
            j += 1;
        }
        if j == self.entries.len() {
            self.entries.push(e);
            proof {
                assert(s.skip(j as int) =~= Seq::<SigEntry>::empty());
                assert(sig_insert(s.skip(j as int), e) == seq![e]);
                assert(self@ =~= s.take(j as int) + seq![e]);
                assert(forall|k: int| 0 <= k < s.len() ==> self@[k] == s[k]);
            }
        } else if self.entries[j].at == e.at {
            self.entries.set(j, e);
            proof {
                assert(s.skip(j as int)[0] == s[j as int]);
                assert(s.skip(j as int).skip(1) =~= s.skip(j as int + 1));
                assert(sig_insert(s.skip(j as int), e) == seq![e] + s.skip(j as int + 1));
                assert(self@ =~= s.take(j as int) + (seq![e] + s.skip(j as int + 1)));
                assert(forall|i: int, k: int| 0 <= i < k < self@.len() ==> self@[i].at
                    < self@[k].at) by {
                    assert(forall|i: int| 0 <= i < self@.len() && i != j ==> self@[i] == s[i]);
                    assert(self@[j as int] == e);
                }
            }
        } else {
            self.entries.insert(j, e);
            proof {
                assert(s.skip(j as int)[0] == s[j as int]);
                assert(e.at < s[j as int].at);
                assert(sig_insert(s.skip(j as int), e) == seq![e] + s.skip(j as int));
                assert(self@ =~= s.take(j as int) + (seq![e] + s.skip(j as int)));
                assert(forall|i: int, k: int| 0 <= i < k < self@.len() ==> self@[i].at
                    < self@[k].at) by {
                    assert(forall|i: int| 0 <= i < j ==> self@[i] == s[i]);
                    assert(self@[j as int] == e);
                    assert(forall|i: int| j < i < self@.len() ==> self@[i] == s[i - 1]);
                    assert(forall|i: int| j <= i < s.len() ==> s[i].at >= s[j as int].at);
                }
            }
        }
    }
}

/// Clones an optional type tag.
fn clone_tag(t: &Option<String>) -> (r: Option<String>)
    ensures
        r == *t,
{
    match t {
        Some(s) => Some(s.clone()),
        None => None,
    }
}

/// The derived value the extractor stores when the cursor advances from the
/// point `(prev_at, prev_pos)` to the point `(cur_at, cur_pos)`: the absolute
/// value of `cur_pos - prev_pos / (cur_at - prev_at)`, all in binary64
/// arithmetic. The division binds to `prev_pos` alone; this exact shape is
/// kept for compatibility with existing output.
pub open spec fn diff_value(cur_pos: u64, cur_at: i64, prev_pos: u64, prev_at: i64) -> u64 {
    f64_abs_of(
        f64_sub_of(cur_pos, f64_div_of(prev_pos, f64_sub_of(f64_of_i64(cur_at), f64_of_i64(prev_at)))),
    )
}

/// One pass of the differential extractor from a given cursor state:
/// each action whose timestamp differs from the first action's timestamp
/// emits an entry under the previous cursor's timestamp, with the later
/// point's tag; the cursor advances on every action.
pub open spec fn spec_extract_loop(
    acts: Seq<Action>,
    first_at: i64,
    prev_at: i64,
    prev_pos: u64,
    acc: Seq<SigEntry>,
) -> Seq<SigEntry>
    decreases acts.len(),
{
    if acts.len() == 0 {
        acc
    } else {
        let it = acts[0];
        let acc2 = if it.at != first_at {
            sig_insert(
                acc,
                SigEntry { at: prev_at, pos: diff_value(it.pos, it.at, prev_pos, prev_at), ty: it.ty },
            )
        } else {
            acc
        };
        spec_extract_loop(acts.skip(1), first_at, it.at, it.pos, acc2)
    }
}

/// The signal derived from a non-empty action list, starting from the
/// sentinel cursor (timestamp 0, position 0.0, no tag).
pub open spec fn spec_extract(acts: Seq<Action>) -> Seq<SigEntry>
    recommends
        acts.len() > 0,
{
    spec_extract_loop(acts, acts[0].at, 0, F64_ZERO_BITS, Seq::empty())
}

/// The differential extractor: derives the rate signal from a raw action
/// list.
fn discrete_differential(input: &Funscript) -> (r: Actions)
    requires
        input.actions@.len() > 0,
    ensures
        r@ == spec_extract(input.actions@),
        sig_sorted(r@),
{
    let ghost acts = input.actions@;
    let mut result = Actions::new();
    let n = input.actions.len();
    let first_at = input.actions[0].at;
    let mut prev_at: i64 = 0;
    let mut prev_pos: u64 = F64_ZERO_BITS;
    let mut i: usize = 0;
    proof {
        assert(acts.skip(0) =~= acts);
    }
    while i < n
        invariant
            n == acts.len(),
            acts == input.actions@,
            i <= n,
            n > 0,
            first_at == acts[0].at,
            sig_sorted(result@),
            spec_extract_loop(acts.skip(i as int), first_at, prev_at, prev_pos, result@)
                == spec_extract(acts),
        decreases n - i,
    {
        proof {
            assert(acts.skip(i as int)[0] == acts[i as int]);
            assert(acts.skip(i as int).skip(1) =~= acts.skip(i as int + 1));
        }
        let it = &input.actions[i];
        if it.at != first_at {
            let dt = f64_sub(f64_from_i64(it.at), f64_from_i64(prev_at));
            let value = f64_abs(f64_sub(it.pos, f64_div(prev_pos, dt)));
            let ty = clone_tag(&it.ty);
            result.insert(prev_at, ActionData { pos: value, ty });
        }
        prev_at = it.at;
        prev_pos = it.pos;
        i += 1;
    }
    result
}

/// The transform pipeline: holds the derived signal and applies the
/// operations of the chain to it in place.
pub struct Transformer {
    data: Actions,
}

impl View for Transformer {
    type V = Seq<SigEntry>;

    closed spec fn view(&self) -> Seq<SigEntry> {
        self.data@
    }
}

/// The running maximum of the `max_by` reduction over the signal's values:
/// the accumulator is kept only when it compares strictly greater than the
/// next value, so a NaN accumulator (unordered) is always replaced.
pub open spec fn spec_max_loop(s: Seq<SigEntry>, acc: u64) -> u64
    decreases s.len(),
{
    if s.len() == 0 {
        acc
    } else {
        spec_max_loop(
            s.skip(1),
            if f64_cmp_of(acc, s[0].pos) == FloatCmp::Greater {
                acc
            } else {
                s[0].pos
            },
        )
    }
}

/// The maximum value in the signal under the reduction above; `0.0` for an
/// empty signal.
pub open spec fn spec_max(s: Seq<SigEntry>) -> u64 {
    if s.len() == 0 {
        F64_ZERO_BITS
    } else {
        spec_max_loop(s.skip(1), s[0].pos)
    }
}

/// One entry after normalization against the maximum `m`:
/// `(max_b * pos / m) + min_b` in binary64 arithmetic, key and tag kept.
pub open spec fn norm_entry(e: SigEntry, m: u64, min_b: u64, max_b: u64) -> SigEntry {
    SigEntry { at: e.at, pos: f64_add_of(f64_div_of(f64_mul_of(max_b, e.pos), m), min_b), ty: e.ty }
}

/// Normalization of the whole signal: the identity when the measured maximum
/// equals `0.0` (so also when the signal is empty), otherwise every value is
/// rewritten against that maximum.
pub open spec fn spec_normalize(s: Seq<SigEntry>, min_b: u64, max_b: u64) -> Seq<SigEntry> {
    let m = spec_max(s);
    if f64_cmp_of(m, F64_ZERO_BITS) == FloatCmp::Equal {
        s
    } else {
        s.map_values(|e: SigEntry| norm_entry(e, m, min_b, max_b))
    }
}

/// Linear scaling: every value multiplied by `scale`, keys and tags kept.
pub open spec fn spec_scale_linear(s: Seq<SigEntry>, scale: u64) -> Seq<SigEntry> {
    s.map_values(|e: SigEntry| SigEntry { at: e.at, pos: f64_mul_of(e.pos, scale), ty: e.ty })
}

/// Square-root scaling: every value replaced by its binary64 square root
/// (NaN for negative values), keys and tags kept.
pub open spec fn spec_scale_sqrt(s: Seq<SigEntry>) -> Seq<SigEntry> {
    s.map_values(|e: SigEntry| SigEntry { at: e.at, pos: f64_sqrt_of(e.pos), ty: e.ty })
}

/// The shorten pass from a given reference value: an entry is retained only
/// if `|reference - value| >= diff`; the reference advances to the entry's
/// value after the comparison whether or not the entry was retained.
pub open spec fn spec_shorten_loop(s: Seq<SigEntry>, diff: u64, refv: u64) -> Seq<SigEntry>
    decreases s.len(),
{
    if s.len() == 0 {
        s
    } else {
        let keep = f64_ge_of(f64_abs_of(f64_sub_of(refv, s[0].pos)), diff);
        let rest = spec_shorten_loop(s.skip(1), diff, s[0].pos);
        if keep {
            seq![s[0]] + rest
        } else {
            rest
        }
    }
}

/// The shorten operation: the pass above with the reference starting at `0.0`.
pub open spec fn spec_shorten(s: Seq<SigEntry>, diff: u64) -> Seq<SigEntry> {
    spec_shorten_loop(s, diff, F64_ZERO_BITS)
}

/// Materialization of one entry: the key as the timestamp, the value rounded
/// to the nearest integer (halfway away from zero), the tag kept.
pub open spec fn spec_materialize(s: Seq<SigEntry>) -> Seq<Action> {
    s.map_values(|e: SigEntry| Action { at: e.at, pos: f64_round_of(e.pos), ty: e.ty })
}

/// What one command of the chain does to the signal.
pub open spec fn spec_transform(s: Seq<SigEntry>, c: Command) -> Seq<SigEntry> {
    match c {
        Command::Normalize => spec_normalize(s, F64_ZERO_BITS, F64_HUNDRED_BITS),
        Command::ScaleLinear { scale } => spec_scale_linear(s, scale),
        Command::ScaleSqrt => spec_scale_sqrt(s),
        Command::Shorten { diff } => spec_shorten(s, diff),
    }
}

impl Transformer {
    /// The signal's invariant: strictly ascending timestamps.
    pub open spec fn wf(&self) -> bool {
        sig_sorted(self@)
    }

    /// Derives the signal from a non-empty action list.
    pub fn new(input: &Funscript) -> (t: Self)
        requires
            input.actions@.len() > 0,
        ensures
            t@ == spec_extract(input.actions@),
            t.wf(),
    {
        Transformer { data: discrete_differential(input) }
    }

    /// Applies one command of the chain to the signal, in place.
    pub fn transform(&mut self, command: Command)
        requires
            old(self).wf(),
        ensures
            final(self)@ == spec_transform(old(self)@, command),
            final(self).wf(),
    {
        match command {
            Command::Normalize => self.normalize(F64_ZERO_BITS, F64_HUNDRED_BITS),
            Command::ScaleLinear { scale } => self.scale_linear(scale),
            Command::ScaleSqrt => self.scale_sqrt(),
            Command::Shorten { diff } => self.shorten(diff),
        }
    }

    /// Rewrites every value against the signal's measured maximum; a maximum
    /// equal to `0.0` leaves the signal unchanged.
    fn normalize(&mut self, min_bits: u64, max_bits: u64)
        requires
            old(self).wf(),
        ensures
            final(self)@ == spec_normalize(old(self)@, min_bits, max_bits),
            final(self).wf(),
    {
        let ghost s = self@;
        let n = self.data.entries.len();
        let mut max: u64 = F64_ZERO_BITS;
        if n > 0 {
            max = self.data.entries[0].pos;
            let mut i: usize = 1;
            while i < n
                invariant
                    1 <= i <= n,
                    n == s.len(),
                    self@ == s,
                    spec_max_loop(s.skip(i as int), max) == spec_max(s),
                decreases n - i,
            {
                proof {
                    assert(s.skip(i as int)[0] == s[i as int]);
                    assert(s.skip(i as int).skip(1) =~= s.skip(i as int + 1));
                }
                let c = f64_cmp(max, self.data.entries[i].pos);
                if !(c == FloatCmp::Greater) {
                    max = self.data.entries[i].pos;
                }
                i += 1;
            }
            proof {
                assert(s.skip(n as int) =~= Seq::<SigEntry>::empty());
            }
        }
        assert(max == spec_max(s));
        let c = f64_cmp(max, F64_ZERO_BITS);
        if !(c == FloatCmp::Equal) {
            let mut j: usize = 0;
            while j < n
                invariant
                    j <= n,
                    n == s.len(),
                    self@.len() == s.len(),
                    sig_sorted(s),
                    forall|k: int| 0 <= k < j ==> self@[k] == norm_entry(s[k], max, min_bits, max_bits),
                    forall|k: int| j <= k < n ==> self@[k] == s[k],
                decreases n - j,
            {
                let at = self.data.entries[j].at;
                let pos = self.data.entries[j].pos;
                let ty = clone_tag(&self.data.entries[j].ty);
                let new_pos = f64_add(f64_div(f64_mul(max_bits, pos), max), min_bits);
                self.data.entries.set(j, SigEntry { at, pos: new_pos, ty });
                j += 1;
            }
            proof {
                assert(self@ =~= s.map_values(
                    |e: SigEntry| norm_entry(e, spec_max(s), min_bits, max_bits),
                ));
                assert(forall|i: int, k: int| 0 <= i < k < self@.len() ==> self@[i].at
                    < self@[k].at);
            }
        }
    }

    /// Multiplies every value by `scale`; no validation of `scale`.
    fn scale_linear(&mut self, scale: u64)
        requires
            old(self).wf(),
        ensures
            final(self)@ == spec_scale_linear(old(self)@, scale),
            final(self).wf(),
    {
        let ghost s = self@;
        let n = self.data.entries.len();
        let mut j: usize = 0;
        while j < n
            invariant
                j <= n,
                n == s.len(),
                self@.len() == s.len(),
                sig_sorted(s),
                forall|k: int| 0 <= k < j ==> self@[k] == (SigEntry {
                    at: s[k].at,
                    pos: f64_mul_of(s[k].pos, scale),
                    ty: s[k].ty,
                }),
                forall|k: int| j <= k < n ==> self@[k] == s[k],
            decreases n - j,
        {
            let at = self.data.entries[j].at;
            let pos = self.data.entries[j].pos;
            let ty = clone_tag(&self.data.entries[j].ty);
            let new_pos = f64_mul(pos, scale);
            self.data.entries.set(j, SigEntry { at, pos: new_pos, ty });
            j += 1;
        }
        proof {
            assert(self@ =~= spec_scale_linear(s, scale));
            assert(forall|i: int, k: int| 0 <= i < k < self@.len() ==> self@[i].at < self@[k].at);
        }
    }

    /// Replaces every value with its square root; negative values become NaN.
    fn scale_sqrt(&mut self)
        requires
            old(self).wf(),
        ensures
            final(self)@ == spec_scale_sqrt(old(self)@),
            final(self).wf(),
    {
        let ghost s = self@;
        let n = self.data.entries.len();
        let mut j: usize = 0;
        while j < n
            invariant
                j <= n,
                n == s.len(),
                self@.len() == s.len(),
                sig_sorted(s),
                forall|k: int| 0 <= k < j ==> self@[k] == (SigEntry {
                    at: s[k].at,
                    pos: f64_sqrt_of(s[k].pos),
                    ty: s[k].ty,
                }),
                forall|k: int| j <= k < n ==> self@[k] == s[k],
            decreases n - j,
        {
            let at = self.data.entries[j].at;
            let pos = self.data.entries[j].pos;
            let ty = clone_tag(&self.data.entries[j].ty);
            let new_pos = f64_sqrt(pos);
            self.data.entries.set(j, SigEntry { at, pos: new_pos, ty });
            j += 1;
        }
        proof {
            assert(self@ =~= spec_scale_sqrt(s));
            assert(forall|i: int, k: int| 0 <= i < k < self@.len() ==> self@[i].at < self@[k].at);
        }
    }

    /// The monotonic de-duplication pass: walks the signal in ascending key
    /// order, retains an entry only if its value differs from the running
    /// reference by at least `diff`, and advances the reference to the
    /// entry's value after every comparison, also for dropped entries.
    fn shorten(&mut self, diff: u64)
        requires
            old(self).wf(),
        ensures
            final(self)@ == spec_shorten(old(self)@, diff),
            final(self).wf(),
    {
        let ghost s = self@;
        let n = self.data.entries.len();
        let mut kept: Vec<SigEntry> = Vec::new();
        let mut refv: u64 = F64_ZERO_BITS;
        let mut i: usize = 0;
        proof {
            assert(s.skip(0) =~= s);
            assert(kept@ + spec_shorten_loop(s, diff, refv) =~= spec_shorten_loop(s, diff, refv));
        }
        while i < n
            invariant
                i <= n,
                n == s.len(),
                self@ == s,
                sig_sorted(s),
                kept@ + spec_shorten_loop(s.skip(i as int), diff, refv) == spec_shorten(s, diff),
                sig_sorted(kept@),
                forall|k: int, l: int| 0 <= k < kept@.len() && i <= l < n ==> kept@[k].at
                    < s[l].at,
            decreases n - i,
        {
            proof {
                assert(s.skip(i as int)[0] == s[i as int]);
                assert(s.skip(i as int).skip(1) =~= s.skip(i as int + 1));
            }
            let at = self.data.entries[i].at;
            let pos = self.data.entries[i].pos;
            let keep = f64_ge(f64_abs(f64_sub(refv, pos)), diff);
            if keep {
                let ty = clone_tag(&self.data.entries[i].ty);
                kept.push(SigEntry { at, pos, ty });
                proof {
                    assert(kept@ + spec_shorten_loop(s.skip(i as int + 1), diff, pos)
                        =~= kept@.drop_last() + (seq![s[i as int]] + spec_shorten_loop(
                        s.skip(i as int + 1),
                        diff,
                        pos,
                    )));
                }
            }
            refv = pos;
            i += 1;
        }
        proof {
            assert(s.skip(n as int) =~= Seq::<SigEntry>::empty());
            assert(kept@ + spec_shorten_loop(s.skip(n as int), diff, refv) =~= kept@);
        }
        self.data.entries = kept;
    }

    /// Consumes the signal and materializes the output action list: one
    /// action per entry in ascending key order, its position rounded to the
    /// nearest integer, halfway cases away from zero. The output never holds
    /// more actions than the signal held entries.
    pub fn into_list(self) -> (r: Vec<Action>)
        requires
            self.wf(),
        ensures
            r@ == spec_materialize(self@),
            r@.len() == self@.len(),
    {
        let ghost s = self@;
        let n = self.data.entries.len();
        let mut r: Vec<Action> = Vec::new();
        let mut i: usize = 0;
        while i < n
            invariant
                i <= n,
                n == s.len(),
                self@ == s,
                r@.len() == i,
                forall|k: int| 0 <= k < i ==> r@[k] == (Action {
                    at: s[k].at,
                    pos: f64_round_of(s[k].pos),
                    ty: s[k].ty,
                }),
            decreases n - i,
        {
            let at = self.data.entries[i].at;
            let pos = f64_round(self.data.entries[i].pos);
            let ty = clone_tag(&self.data.entries[i].ty);
            r.push(Action { at, pos, ty });
            i += 1;
        }
        proof {
            assert(r@ =~= spec_materialize(s));
        }
        r
    }
}

/// Inserting a key above every key already present appends the entry.
proof fn lemma_sig_insert_append(s: Seq<SigEntry>, e: SigEntry)
    requires
        forall|k: int| 0 <= k < s.len() ==> s[k].at < e.at,
    ensures
        sig_insert(s, e) == s + seq![e],
    decreases s.len(),
{
    if s.len() == 0 {
        assert(sig_insert(s, e) =~= s + seq![e]);
    } else {
        lemma_sig_insert_append(s.skip(1), e);
        assert(seq![s[0]] + (s.skip(1) + seq![e]) =~= s + seq![e]);
    }
}

/// The extractor's pass over actions that all differ from the first
/// timestamp and ascend strictly: every action emits, under the previous
/// cursor's key, and the emissions land in order after what is already
/// there.
proof fn lemma_extract_loop_ascending(
    acts: Seq<Action>,
    first_at: i64,
    prev_at: i64,
    prev_pos: u64,
    acc: Seq<SigEntry>,
)
    requires
        forall|i: int| 0 <= i < acts.len() ==> acts[i].at != first_at,
        forall|i: int, j: int| 0 <= i < j < acts.len() ==> acts[i].at < acts[j].at,
        forall|i: int| 0 <= i < acts.len() ==> prev_at < acts[i].at,
        forall|k: int| 0 <= k < acc.len() ==> acc[k].at < prev_at,
    ensures
        spec_extract_loop(acts, first_at, prev_at, prev_pos, acc).len() == acc.len() + acts.len(),
        forall|k: int| 0 <= k < acc.len() ==> spec_extract_loop(
            acts,
            first_at,
            prev_at,
            prev_pos,
            acc,
        )[k] == acc[k],
        acts.len() > 0 ==> spec_extract_loop(acts, first_at, prev_at, prev_pos, acc)[acc.len() as int].at
            == prev_at,
        forall|k: int| 0 <= k < acts.len() - 1 ==> spec_extract_loop(
            acts,
            first_at,
            prev_at,
            prev_pos,
            acc,
        )[acc.len() + 1 + k].at == (#[trigger] acts[k]).at,
    decreases acts.len(),
{
    if acts.len() > 0 {
        let e = SigEntry {
            at: prev_at,
            pos: diff_value(acts[0].pos, acts[0].at, prev_pos, prev_at),
            ty: acts[0].ty,
        };
        lemma_sig_insert_append(acc, e);
        let acc2 = acc + seq![e];
        lemma_extract_loop_ascending(acts.skip(1), first_at, acts[0].at, acts[0].pos, acc2);
        let r = spec_extract_loop(acts, first_at, prev_at, prev_pos, acc);
        assert(r == spec_extract_loop(acts.skip(1), first_at, acts[0].at, acts[0].pos, acc2));
        assert forall|k: int| 0 <= k < acc.len() implies r[k] == acc[k] by {
            assert(r[k] == acc2[k]);
            assert(acc2[k] == acc[k]);
        }
        assert(r[acc.len() as int] == acc2[acc.len() as int]);
        assert(acc2[acc.len() as int] == e);
        assert forall|k: int| 0 <= k < acts.len() - 1 implies r[acc.len() + 1 + k].at == (
        #[trigger] acts[k]).at by {
            if k == 0 {
                assert(r[acc2.len() as int].at == acts[0].at);
            } else {
                assert(acts.skip(1)[k - 1] == acts[k]);
                assert(r[acc2.len() + 1 + (k - 1)].at == acts.skip(1)[k - 1].at);
            }
        }
    }
}

/// Law: on a non-empty action list with strictly ascending (hence unique)
/// timestamps, the extractor's signal has exactly one entry per action but
/// the last, keyed by every timestamp except the last one.
pub proof fn lemma_extract_ascending_unique(acts: Seq<Action>)
    requires
        acts.len() > 0,
        forall|i: int, j: int| 0 <= i < j < acts.len() ==> acts[i].at < acts[j].at,
    ensures
        spec_extract(acts).len() == acts.len() - 1,
        forall|k: int| 0 <= k < acts.len() - 1 ==> spec_extract(acts)[k].at == acts[k].at,
{
    lemma_extract_loop_ascending(
        acts.skip(1),
        acts[0].at,
        acts[0].at,
        acts[0].pos,
        Seq::empty(),
    );
    let r = spec_extract(acts);
    assert(r == spec_extract_loop(acts.skip(1), acts[0].at, acts[0].at, acts[0].pos, Seq::empty()));
    assert forall|k: int| 0 <= k < acts.len() - 1 implies r[k].at == (#[trigger] acts[k]).at by {
        if k > 0 {
            assert(acts.skip(1)[k - 1] == acts[k]);
            assert(r[0 + 1 + (k - 1)].at == acts.skip(1)[k - 1].at);
        }
    }
}

/// Law: when the leading `m` actions all share the first action's timestamp,
/// they are skipped without emission: extraction equals resuming the pass at
/// the remaining actions, with the cursor on action `m - 1` and the signal
/// still empty.
pub proof fn lemma_extract_skips_leading_duplicates(acts: Seq<Action>, m: int)
    requires
        1 <= m <= acts.len(),
        forall|i: int| 0 <= i < m ==> (#[trigger] acts[i]).at == acts[0].at,
    ensures
        spec_extract(acts) == spec_extract_loop(
            acts.skip(m),
            acts[0].at,
            acts[m - 1].at,
            acts[m - 1].pos,
            Seq::empty(),
        ),
    decreases m,
{
    if m == 1 {
        assert(spec_extract(acts) == spec_extract_loop(
            acts.skip(1),
            acts[0].at,
            acts[0].at,
            acts[0].pos,
            Seq::empty(),
        ));
    } else {
        lemma_extract_skips_leading_duplicates(acts, m - 1);
        assert(acts.skip(m - 1)[0] == acts[m - 1]);
        assert(acts.skip(m - 1).skip(1) =~= acts.skip(m));
    }
}

/// Whether the shorten pass retains entry `i`: its value differs from the
/// previous entry's value (the reference `0.0` before the first entry) by at
/// least `diff`.
pub open spec fn spec_shorten_keeps(s: Seq<SigEntry>, diff: u64, i: int) -> bool {
    f64_ge_of(
        f64_abs_of(
            f64_sub_of(
                if i == 0 {
                    F64_ZERO_BITS
                } else {
                    s[i - 1].pos
                },
                s[i].pos,
            ),
        ),
        diff,
    )
}

/// The entries of `s` from index `i` on whose index the shorten pass keeps.
pub open spec fn spec_shorten_by_index(s: Seq<SigEntry>, diff: u64, i: int) -> Seq<SigEntry>
    decreases s.len() - i,
{
    if i < 0 || i >= s.len() {
        Seq::empty()
    } else if spec_shorten_keeps(s, diff, i) {
        seq![s[i]] + spec_shorten_by_index(s, diff, i + 1)
    } else {
        spec_shorten_by_index(s, diff, i + 1)
    }
}

proof fn lemma_shorten_loop_by_index(s: Seq<SigEntry>, diff: u64, i: int, refv: u64)
    requires
        0 <= i <= s.len(),
        refv == if i == 0 {
            F64_ZERO_BITS
        } else {
            s[i - 1].pos
        },
    ensures
        spec_shorten_loop(s.skip(i), diff, refv) == spec_shorten_by_index(s, diff, i),
    decreases s.len() - i,
{
    if i == s.len() {
        assert(s.skip(i) =~= Seq::<SigEntry>::empty());
    } else {
        assert(s.skip(i)[0] == s[i]);
        assert(s.skip(i).skip(1) =~= s.skip(i + 1));
        lemma_shorten_loop_by_index(s, diff, i + 1, s[i].pos);
    }
}

/// Law: materialization keeps the signal's ascending key order and its
/// entry count: the emitted action list is ordered by strictly ascending
/// timestamp, one action per entry.
pub proof fn lemma_materialize_ordered(s: Seq<SigEntry>)
    requires
        sig_sorted(s),
    ensures
        spec_materialize(s).len() == s.len(),
        forall|i: int, j: int| 0 <= i < j < s.len() ==> spec_materialize(s)[i].at
            < spec_materialize(s)[j].at,
{
    assert forall|i: int, j: int| 0 <= i < j < s.len() implies spec_materialize(s)[i].at
        < spec_materialize(s)[j].at by {
        assert(spec_materialize(s)[i].at == s[i].at);
        assert(spec_materialize(s)[j].at == s[j].at);
    }
}

/// Law: the shorten pass compares each entry against the previous entry's
/// value whether or not that entry was retained, never against the previous
/// retained value: the result is exactly the entries whose value differs
/// from their immediate predecessor's value by at least `diff` (with `0.0`
/// in place of a predecessor for the first entry).
pub proof fn lemma_shorten_vs_previous_processed(s: Seq<SigEntry>, diff: u64)
    ensures
        spec_shorten(s, diff) == spec_shorten_by_index(s, diff, 0),
{
    assert(s.skip(0) =~= s);
    lemma_shorten_loop_by_index(s, diff, 0, F64_ZERO_BITS);
}

} // verus!
