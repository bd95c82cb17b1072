//! The keyed registry of timed effects and the error-popup effect.

use vstd::prelude::*;

use crate::buffer::FrameBuffer;
use crate::style::Cell;

verus! {

/// The application-chosen identifier of a registered effect.  At most one
/// effect is registered per kind at a time.
#[derive(Clone, Copy, Debug, PartialOrd, PartialEq, Ord, Eq, Structural, Default)]
pub enum EffectKind {
    /// The reserved key of the transient compile-error popup.
    DslErrorPopup,
    /// The key of the main compiled effect.
    #[default]
    Editor,
}

/// A structured effect-script compile error: the message, the offending
/// source line, and the error's one-based line and column position.
#[derive(Debug)]
pub struct CompileError {
    /// The compiler's message.
    pub message: String,
    /// The offending source line.
    pub offending_line: String,
    /// One-based line of the error.
    pub line: u32,
    /// One-based column of the error.
    pub column: u32,
}

/// The data of the transient compile-error popup: what it shows and where
/// the error sits in the script.
#[derive(Debug)]
pub struct ErrorPopup {
    /// The compiler's message.
    pub message: String,
    /// The offending source line.
    pub code: String,
    /// One-based line of the error.
    pub line: u32,
    /// One-based column of the error.
    pub column: u32,
}

/// What a registered effect does each frame.
pub enum EffectBehavior {
    /// The library-drawn error popup.
    Popup(ErrorPopup),
    /// Inert: mutates nothing and completes on its first advance; registered
    /// under a key to clear whatever was there.
    ClearTick,
    /// A compiled effect of the outside effect library; its mutation and its
    /// completion are internal to that library.
    Compiled(tachyonfx::Effect),
}

impl EffectBehavior {
    /// Whether the behavior's completion is decided by the model rather than
    /// by the outside effect library.
    pub open spec fn is_model(self) -> bool {
        !(self is Compiled)
    }
}

/// One registered timed effect: its behavior, its total duration — `None`
/// when indefinite or internal to a compiled effect — and the time it has
/// been running.
pub struct TimedEffect {
    /// What the effect does.
    pub behavior: EffectBehavior,
    /// Total duration in milliseconds, when the model tracks it.
    pub total_ms: Option<u32>,
    /// Milliseconds the effect has been running.
    pub elapsed_ms: u32,
}

impl TimedEffect {
    /// The same effect with its clock advanced by `d` milliseconds.
    pub open spec fn spec_advanced(self, d: u32) -> TimedEffect {
        TimedEffect {
            behavior: self.behavior,
            total_ms: self.total_ms,
            elapsed_ms: sat_add_ms(self.elapsed_ms, d),
        }
    }

    /// Whether the effect has run its full duration: only meaningful for
    /// effects whose duration the model tracks.
    pub open spec fn spec_expired(self) -> bool {
        match self.total_ms {
            Some(t) => self.elapsed_ms >= t,
            None => false,
        }
    }

    /// A fresh error-popup effect with the given total duration.
    pub fn popup(data: ErrorPopup, total_ms: u32) -> (e: TimedEffect)
        ensures
            e.behavior == EffectBehavior::Popup(data),
            e.total_ms == Some(total_ms),
            e.elapsed_ms == 0,
    {
        TimedEffect { behavior: EffectBehavior::Popup(data), total_ms: Some(total_ms), elapsed_ms: 0 }
    }

    /// A fresh inert effect that completes on its first advance.
    pub fn clear_tick() -> (e: TimedEffect)
        ensures
            e.behavior == EffectBehavior::ClearTick,
            e.total_ms == Some(0u32),
            e.elapsed_ms == 0,
    {
        TimedEffect { behavior: EffectBehavior::ClearTick, total_ms: Some(0), elapsed_ms: 0 }
    }

    /// A fresh effect wrapping a compiled effect of the outside library.
    pub fn compiled(fx: tachyonfx::Effect) -> (e: TimedEffect)
        ensures
            e.behavior == EffectBehavior::Compiled(fx),
            e.total_ms == Option::<u32>::None,
            e.elapsed_ms == 0,
    {
        TimedEffect { behavior: EffectBehavior::Compiled(fx), total_ms: None, elapsed_ms: 0 }
    }
}

/// Millisecond addition that sticks at the largest representable value.
pub open spec fn sat_add_ms(a: u32, d: u32) -> u32 {
    if a + d > u32::MAX {
        u32::MAX
    } else {
        (a + d) as u32
    }
}

/// No key occurs twice in a registry sequence.
pub open spec fn keys_unique(s: Seq<(EffectKind, TimedEffect)>) -> bool {
    forall|i: int, j: int| 0 <= i < j < s.len() ==> (#[trigger] s[i]).0 != (#[trigger] s[j]).0
}

/// The effect registered under `k`, if any.
pub open spec fn lookup_seq(s: Seq<(EffectKind, TimedEffect)>, k: EffectKind) -> Option<
    TimedEffect,
>
    decreases s.len(),
{
    if s.len() == 0 {
        None
    } else if s[0].0 == k {
        Some(s[0].1)
    } else {
        lookup_seq(s.skip(1), k)
    }
}

/// How many entries carry key `k`.
pub open spec fn count_key(s: Seq<(EffectKind, TimedEffect)>, k: EffectKind) -> int
    decreases s.len(),
{
    if s.len() == 0 {
        0
    } else {
        (if s[0].0 == k {
            1int
        } else {
            0int
        }) + count_key(s.skip(1), k)
    }
}

/// The registry after registering `e` under `k`: the entry under `k` is
/// replaced in place when present, appended at the back otherwise.
pub open spec fn upsert_seq(
    s: Seq<(EffectKind, TimedEffect)>,
    k: EffectKind,
    e: TimedEffect,
) -> Seq<(EffectKind, TimedEffect)>
    decreases s.len(),
{
    if s.len() == 0 {
        seq![(k, e)]
    } else if s[0].0 == k {
        seq![(k, e)] + s.skip(1)
    } else {
        seq![s[0]] + upsert_seq(s.skip(1), k, e)
    }
}

/// The registry with every entry under `k` removed.
pub open spec fn remove_seq(s: Seq<(EffectKind, TimedEffect)>, k: EffectKind) -> Seq<
    (EffectKind, TimedEffect),
>
    decreases s.len(),
{
    if s.len() == 0 {
        Seq::empty()
    } else if s[0].0 == k {
        remove_seq(s.skip(1), k)
    } else {
        seq![s[0]] + remove_seq(s.skip(1), k)
    }
}

/// Law: the effect registered under a key is the one most recently upserted
/// under it.
pub proof fn lemma_lookup_upsert(s: Seq<(EffectKind, TimedEffect)>, k: EffectKind, e: TimedEffect)
    ensures
        lookup_seq(upsert_seq(s, k, e), k) == Some(e),
    decreases s.len(),
{
    if s.len() == 0 {
        assert(upsert_seq(s, k, e) == seq![(k, e)]);
    } else if s[0].0 == k {
    } else {
        lemma_lookup_upsert(s.skip(1), k, e);
        assert((seq![s[0]] + upsert_seq(s.skip(1), k, e)).skip(1) =~= upsert_seq(s.skip(1), k, e));
    }
}

/// Law: upserting under one key leaves every other key's entry unchanged.
pub proof fn lemma_lookup_upsert_other(
    s: Seq<(EffectKind, TimedEffect)>,
    k: EffectKind,
    e: TimedEffect,
    k2: EffectKind,
)
    requires
        k2 != k,
    ensures
        lookup_seq(upsert_seq(s, k, e), k2) == lookup_seq(s, k2),
    decreases s.len(),
{
    if s.len() == 0 {
        let u = upsert_seq(s, k, e);
        assert(u == seq![(k, e)]);
        assert(u[0] == (k, e));
        assert(u.skip(1) =~= Seq::<(EffectKind, TimedEffect)>::empty());
        assert(lookup_seq(u, k2) == lookup_seq(u.skip(1), k2));
        assert(lookup_seq(u.skip(1), k2) == None::<TimedEffect>);
        assert(lookup_seq(s, k2) == None::<TimedEffect>);
    } else if s[0].0 == k {
        let u = seq![(k, e)] + s.skip(1);
        assert(upsert_seq(s, k, e) == u);
        assert(u[0] == (k, e));
        assert(u.skip(1) =~= s.skip(1));
        assert(lookup_seq(u, k2) == lookup_seq(s.skip(1), k2));
        assert(lookup_seq(s, k2) == lookup_seq(s.skip(1), k2));
    } else {
        lemma_lookup_upsert_other(s.skip(1), k, e, k2);
        let u = seq![s[0]] + upsert_seq(s.skip(1), k, e);
        assert(upsert_seq(s, k, e) == u);
        assert(u[0] == s[0]);
        assert(u.skip(1) =~= upsert_seq(s.skip(1), k, e));
        if s[0].0 == k2 {
            assert(lookup_seq(u, k2) == Some(s[0].1));
            assert(lookup_seq(s, k2) == Some(s[0].1));
        } else {
            assert(lookup_seq(u, k2) == lookup_seq(upsert_seq(s.skip(1), k, e), k2));
            assert(lookup_seq(s, k2) == lookup_seq(s.skip(1), k2));
        }
    }
}

/// Law: upserting preserves key uniqueness and leaves exactly one entry
/// under the upserted key.
pub proof fn lemma_upsert_unique(s: Seq<(EffectKind, TimedEffect)>, k: EffectKind, e: TimedEffect)
    requires
        keys_unique(s),
        count_key(s, k) <= 1,
    ensures
        keys_unique(upsert_seq(s, k, e)),
        count_key(upsert_seq(s, k, e), k) == 1,
    decreases s.len(),
{
    if s.len() == 0 {
        let u = upsert_seq(s, k, e);
        assert(u == seq![(k, e)]);
        assert(u[0] == (k, e));
        assert(u.skip(1) =~= Seq::<(EffectKind, TimedEffect)>::empty());
        assert(count_key(u, k) == 1 + count_key(u.skip(1), k));
    } else if s[0].0 == k {
        let u = seq![(k, e)] + s.skip(1);
        assert(u[0] == (k, e));
        assert(u.skip(1) =~= s.skip(1));
        assert(keys_unique(s.skip(1)));
        lemma_count_zero_of_unique(s, k);
        lemma_count_none(s.skip(1), k);
        assert forall|i: int, j: int| 0 <= i < j < u.len() implies (#[trigger] u[i]).0 != (
        #[trigger] u[j]).0 by {
            if i == 0 {
                assert(u[j] == s[j]);
                assert(s[0].0 != s[j].0);
            } else {
                assert(u[i] == s[i] && u[j] == s[j]);
            }
        }
        assert(count_key(u, k) == 1 + count_key(s.skip(1), k));
    } else {
        assert(keys_unique(s.skip(1))) by {
            assert forall|i: int, j: int|
                0 <= i < j < s.skip(1).len() implies (#[trigger] s.skip(1)[i]).0 != (#[trigger] s.skip(
                1,
            )[j]).0 by {
                assert(s.skip(1)[i] == s[i + 1] && s.skip(1)[j] == s[j + 1]);
            }
        }
        lemma_upsert_unique(s.skip(1), k, e);
        let u = seq![s[0]] + upsert_seq(s.skip(1), k, e);
        assert(u[0] == s[0]);
        assert(u.skip(1) =~= upsert_seq(s.skip(1), k, e));
        lemma_upsert_keys(s.skip(1), k, e);
        assert forall|i: int, j: int| 0 <= i < j < u.len() implies (#[trigger] u[i]).0 != (
        #[trigger] u[j]).0 by {
            if i == 0 {
                let t = upsert_seq(s.skip(1), k, e);
                assert(u[j] == t[j - 1]);
                if t[j - 1].0 == k {
                } else {
                    let m = choose|m: int| 0 <= m < s.skip(1).len() && s.skip(1)[m] == t[j - 1];
                    assert(s[m + 1] == t[j - 1]);
                }
            }
        }
        assert(count_key(u, k) == count_key(upsert_seq(s.skip(1), k, e), k));
    }
}

/// Every entry of an upserted registry either carries the upserted key or
/// already stood in the registry.
proof fn lemma_upsert_keys(s: Seq<(EffectKind, TimedEffect)>, k: EffectKind, e: TimedEffect)
    ensures
        forall|j: int|
            0 <= j < upsert_seq(s, k, e).len() ==> (#[trigger] upsert_seq(s, k, e)[j]).0 == k
                || exists|m: int| 0 <= m < s.len() && s[m] == upsert_seq(s, k, e)[j],
    decreases s.len(),
{
    let u = upsert_seq(s, k, e);
    if s.len() == 0 {
    } else if s[0].0 == k {
        assert forall|j: int| 0 <= j < u.len() && (#[trigger] u[j]).0 != k implies exists|m: int|
            0 <= m < s.len() && s[m] == u[j] by {
            assert(u[j] == s.skip(1)[j - 1]);
            assert(s[j] == u[j]);
        }
    } else {
        lemma_upsert_keys(s.skip(1), k, e);
        assert forall|j: int| 0 <= j < u.len() && (#[trigger] u[j]).0 != k implies exists|m: int|
            0 <= m < s.len() && s[m] == u[j] by {
            if j == 0 {
                assert(s[0] == u[0]);
            } else {
                let t = upsert_seq(s.skip(1), k, e);
                assert(u[j] == t[j - 1]);
                let m = choose|m: int| 0 <= m < s.skip(1).len() && s.skip(1)[m] == t[j - 1];
                assert(s[m + 1] == u[j]);
            }
        }
    }
}

/// In a registry without duplicate keys, a key that is not at the front is
/// counted at most once in the tail.
proof fn lemma_count_zero_of_unique(s: Seq<(EffectKind, TimedEffect)>, k: EffectKind)
    requires
        keys_unique(s),
        s.len() > 0,
        s[0].0 == k,
    ensures
        count_key(s.skip(1), k) == 0,
{
    assert forall|i: int| 0 <= i < s.skip(1).len() implies (#[trigger] s.skip(1)[i]).0 != k by {
        assert(s.skip(1)[i] == s[i + 1]);
    }
    lemma_count_none(s.skip(1), k);
}

/// A registry none of whose entries carries `k` counts `k` zero times.
proof fn lemma_count_none(s: Seq<(EffectKind, TimedEffect)>, k: EffectKind)
    requires
        forall|i: int| 0 <= i < s.len() ==> (#[trigger] s[i]).0 != k,
    ensures
        count_key(s, k) == 0,
    decreases s.len(),
{
    if s.len() > 0 {
        assert forall|i: int| 0 <= i < s.skip(1).len() implies (#[trigger] s.skip(1)[i]).0
            != k by {
            assert(s.skip(1)[i] == s[i + 1]);
        }
        lemma_count_none(s.skip(1), k);
    }
}

/// In a registry without duplicate keys no key is counted twice.
pub proof fn lemma_count_le_of_unique(s: Seq<(EffectKind, TimedEffect)>, k: EffectKind)
    requires
        keys_unique(s),
    ensures
        count_key(s, k) <= 1,
    decreases s.len(),
{
    if s.len() == 0 {
    } else if s[0].0 == k {
        lemma_count_zero_of_unique(s, k);
    } else {
        assert forall|i: int, j: int|
            0 <= i < j < s.skip(1).len() implies (#[trigger] s.skip(1)[i]).0 != (#[trigger] s.skip(
            1,
        )[j]).0 by {
            assert(s.skip(1)[i] == s[i + 1] && s.skip(1)[j] == s[j + 1]);
        }
        lemma_count_le_of_unique(s.skip(1), k);
    }
}

/// Upserting a key that sits at position `i`, with no earlier entry under
/// it, replaces that entry in place.
proof fn lemma_upsert_at(s: Seq<(EffectKind, TimedEffect)>, k: EffectKind, e: TimedEffect, i: int)
    requires
        0 <= i < s.len(),
        s[i].0 == k,
        forall|j: int| 0 <= j < i ==> (#[trigger] s[j]).0 != k,
    ensures
        upsert_seq(s, k, e) =~= s.update(i, (k, e)),
    decreases i,
{
    if i == 0 {
        assert(upsert_seq(s, k, e) == seq![(k, e)] + s.skip(1));
    } else {
        assert(s[0].0 != k);
        assert(s.skip(1)[i - 1].0 == k);
        assert forall|j: int| 0 <= j < i - 1 implies (#[trigger] s.skip(1)[j]).0 != k by {
            assert(s.skip(1)[j] == s[j + 1]);
        }
        lemma_upsert_at(s.skip(1), k, e, i - 1);
        assert(upsert_seq(s, k, e) == seq![s[0]] + upsert_seq(s.skip(1), k, e));
    }
}

/// Upserting a key that no entry carries appends the new entry at the back.
proof fn lemma_upsert_absent(s: Seq<(EffectKind, TimedEffect)>, k: EffectKind, e: TimedEffect)
    requires
        forall|j: int| 0 <= j < s.len() ==> (#[trigger] s[j]).0 != k,
    ensures
        upsert_seq(s, k, e) =~= s.push((k, e)),
    decreases s.len(),
{
    if s.len() == 0 {
    } else {
        assert forall|j: int| 0 <= j < s.skip(1).len() implies (#[trigger] s.skip(1)[j]).0
            != k by {
            assert(s.skip(1)[j] == s[j + 1]);
        }
        lemma_upsert_absent(s.skip(1), k, e);
        assert(upsert_seq(s, k, e) == seq![s[0]] + upsert_seq(s.skip(1), k, e));
    }
}

/// Removing a key that sits at position `i`, with no other entry under it,
/// cuts exactly that entry out.
proof fn lemma_remove_at(s: Seq<(EffectKind, TimedEffect)>, k: EffectKind, i: int)
    requires
        0 <= i < s.len(),
        s[i].0 == k,
        forall|j: int| 0 <= j < s.len() && j != i ==> (#[trigger] s[j]).0 != k,
    ensures
        remove_seq(s, k) =~= s.take(i) + s.skip(i + 1),
    decreases i,
{
    if i == 0 {
        assert(remove_seq(s, k) == remove_seq(s.skip(1), k));
        assert forall|j: int| 0 <= j < s.skip(1).len() implies (#[trigger] s.skip(1)[j]).0
            != k by {
            assert(s.skip(1)[j] == s[j + 1]);
        }
        lemma_remove_absent(s.skip(1), k);
        assert(s.take(0) + s.skip(1) =~= s.skip(1));
    } else {
        assert(s[0].0 != k);
        assert(s.skip(1)[i - 1].0 == k);
        assert forall|j: int|
            0 <= j < s.skip(1).len() && j != i - 1 implies (#[trigger] s.skip(1)[j]).0 != k by {
            assert(s.skip(1)[j] == s[j + 1]);
        }
        lemma_remove_at(s.skip(1), k, i - 1);
        assert(remove_seq(s, k) == seq![s[0]] + remove_seq(s.skip(1), k));
        assert(seq![s[0]] + (s.skip(1).take(i - 1) + s.skip(1).skip(i)) =~= s.take(i) + s.skip(
            i + 1,
        ));
    }
}

/// Removing a key that no entry carries changes nothing.
proof fn lemma_remove_absent(s: Seq<(EffectKind, TimedEffect)>, k: EffectKind)
    requires
        forall|j: int| 0 <= j < s.len() ==> (#[trigger] s[j]).0 != k,
    ensures
        remove_seq(s, k) =~= s,
    decreases s.len(),
{
    if s.len() == 0 {
    } else {
        assert forall|j: int| 0 <= j < s.skip(1).len() implies (#[trigger] s.skip(1)[j]).0
            != k by {
            assert(s.skip(1)[j] == s[j + 1]);
        }
        lemma_remove_absent(s.skip(1), k);
        assert(remove_seq(s, k) == seq![s[0]] + remove_seq(s.skip(1), k));
        assert(seq![s[0]] + s.skip(1) =~= s);
    }
}

/// Law: after removing a key nothing is registered under it.
pub proof fn lemma_lookup_remove(s: Seq<(EffectKind, TimedEffect)>, k: EffectKind)
    ensures
        lookup_seq(remove_seq(s, k), k) == None::<TimedEffect>,
    decreases s.len(),
{
    if s.len() == 0 {
    } else if s[0].0 == k {
        lemma_lookup_remove(s.skip(1), k);
    } else {
        lemma_lookup_remove(s.skip(1), k);
        let u = seq![s[0]] + remove_seq(s.skip(1), k);
        assert(remove_seq(s, k) == u);
        assert(u[0] == s[0]);
        assert(u.skip(1) =~= remove_seq(s.skip(1), k));
        assert(lookup_seq(u, k) == lookup_seq(remove_seq(s.skip(1), k), k));
    }
}

/// Law: removing one key leaves every other key's entry unchanged.
pub proof fn lemma_lookup_remove_other(
    s: Seq<(EffectKind, TimedEffect)>,
    k: EffectKind,
    k2: EffectKind,
)
    requires
        k2 != k,
    ensures
        lookup_seq(remove_seq(s, k), k2) == lookup_seq(s, k2),
    decreases s.len(),
{
    if s.len() == 0 {
    } else if s[0].0 == k {
        lemma_lookup_remove_other(s.skip(1), k, k2);
        assert(lookup_seq(s, k2) == lookup_seq(s.skip(1), k2));
    } else {
        lemma_lookup_remove_other(s.skip(1), k, k2);
        let u = seq![s[0]] + remove_seq(s.skip(1), k);
        assert(remove_seq(s, k) == u);
        assert(u[0] == s[0]);
        assert(u.skip(1) =~= remove_seq(s.skip(1), k));
        if s[0].0 == k2 {
            assert(lookup_seq(u, k2) == Some(s[0].1));
            assert(lookup_seq(s, k2) == Some(s[0].1));
        } else {
            assert(lookup_seq(u, k2) == lookup_seq(remove_seq(s.skip(1), k), k2));
            assert(lookup_seq(s, k2) == lookup_seq(s.skip(1), k2));
        }
    }
}

/// Law: registering an effect under a key, then another effect under the
/// same key, leaves exactly one effect registered under that key — the
/// second one, never a blend — and every other key untouched.
pub proof fn lemma_upsert_replaces(
    s: Seq<(EffectKind, TimedEffect)>,
    k: EffectKind,
    e1: TimedEffect,
    e2: TimedEffect,
)
    requires
        keys_unique(s),
        count_key(s, k) <= 1,
    ensures
        ({
            let s2 = upsert_seq(upsert_seq(s, k, e1), k, e2);
            &&& lookup_seq(s2, k) == Some(e2)
            &&& count_key(s2, k) == 1
            &&& keys_unique(s2)
            &&& forall|k2: EffectKind|
                k2 != k ==> #[trigger] lookup_seq(s2, k2) == lookup_seq(s, k2)
        }),
{
    let s1 = upsert_seq(s, k, e1);
    lemma_upsert_unique(s, k, e1);
    lemma_upsert_unique(s1, k, e2);
    lemma_lookup_upsert(s1, k, e2);
    let s2 = upsert_seq(s1, k, e2);
    assert forall|k2: EffectKind| k2 != k implies #[trigger] lookup_seq(s2, k2) == lookup_seq(
        s,
        k2,
    ) by {
        lemma_lookup_upsert_other(s1, k, e2, k2);
        lemma_lookup_upsert_other(s, k, e1, k2);
    }
}

/// The first entry under a key, with nothing under it earlier, is what
/// lookup yields.
proof fn lemma_lookup_at(s: Seq<(EffectKind, TimedEffect)>, k: EffectKind, i: int)
    requires
        0 <= i < s.len(),
        s[i].0 == k,
        forall|j: int| 0 <= j < i ==> (#[trigger] s[j]).0 != k,
    ensures
        lookup_seq(s, k) == Some(s[i].1),
    decreases i,
{
    if i == 0 {
    } else {
        assert(s.skip(1)[i - 1].0 == k);
        assert forall|j: int| 0 <= j < i - 1 implies (#[trigger] s.skip(1)[j]).0 != k by {
            assert(s.skip(1)[j] == s[j + 1]);
        }
        lemma_lookup_at(s.skip(1), k, i - 1);
    }
}

/// A key no entry carries looks up to nothing.
proof fn lemma_lookup_absent(s: Seq<(EffectKind, TimedEffect)>, k: EffectKind)
    requires
        forall|j: int| 0 <= j < s.len() ==> (#[trigger] s[j]).0 != k,
    ensures
        lookup_seq(s, k) == None::<TimedEffect>,
    decreases s.len(),
{
    if s.len() > 0 {
        assert forall|j: int| 0 <= j < s.skip(1).len() implies (#[trigger] s.skip(1)[j]).0
            != k by {
            assert(s.skip(1)[j] == s[j + 1]);
        }
        lemma_lookup_absent(s.skip(1), k);
    }
}

/// Appending an entry changes a lookup only for its key, and only when the
/// key was absent.
proof fn lemma_lookup_push(s: Seq<(EffectKind, TimedEffect)>, x: (EffectKind, TimedEffect), k: EffectKind)
    ensures
        lookup_seq(s.push(x), k) == (if lookup_seq(s, k) is Some {
            lookup_seq(s, k)
        } else if x.0 == k {
            Some(x.1)
        } else {
            None
        }),
    decreases s.len(),
{
    if s.len() == 0 {
        let u = s.push(x);
        assert(u[0] == x);
        assert(u.skip(1) =~= Seq::<(EffectKind, TimedEffect)>::empty());
        assert(lookup_seq(u.skip(1), k) == None::<TimedEffect>);
    } else {
        let u = s.push(x);
        assert(u[0] == s[0]);
        assert(u.skip(1) =~= s.skip(1).push(x));
        if s[0].0 == k {
        } else {
            lemma_lookup_push(s.skip(1), x, k);
            assert(lookup_seq(u, k) == lookup_seq(s.skip(1).push(x), k));
        }
    }
}

/// Builds the host mirror of a frame buffer, cell by cell.
fn to_host_buffer(buf: &FrameBuffer) -> (b: ratatui::buffer::Buffer)
    requires
        buf.wf(),
    ensures
        crate::host::rt_origin_zero(b),
        crate::host::rt_cells(b).len() == buf.spec_height() as int,
        forall|y: int|
            0 <= y < buf.spec_height() as int ==> (#[trigger] crate::host::rt_cells(b)[y]).len()
                == buf.spec_width() as int,
        forall|y: int, x: int|
            0 <= y < buf.spec_height() as int && 0 <= x < buf.spec_width() as int
                ==> #[trigger] crate::host::rt_cells(b)[y][x] == buf.grid()[y][x],
{
    let w = buf.width();
    let h = buf.height();
    let mut b = crate::host::rt_empty(w, h);
    proof {
        assert forall|y: int| 0 <= y < h as int implies (#[trigger] crate::host::rt_cells(
            b,
        )[y]).len() == w as int by {
            assert(crate::host::rt_cells(b)[y] == crate::buffer::empty_grid(w as int, h as int)[y]);
        }
    }
    let mut y: u16 = 0;
    while y < h
        invariant
            buf.wf(),
            w == buf.spec_width(),
            h == buf.spec_height(),
            y <= h,
            crate::host::rt_origin_zero(b),
            crate::host::rt_cells(b).len() == h as int,
            forall|yy: int|
                0 <= yy < h as int ==> (#[trigger] crate::host::rt_cells(b)[yy]).len() == w as int,
            forall|yy: int, xx: int|
                0 <= yy < y as int && 0 <= xx < w as int ==> #[trigger] crate::host::rt_cells(
                    b,
                )[yy][xx] == buf.grid()[yy][xx],
        decreases h - y,
    {
        let mut x: u16 = 0;
        while x < w
            invariant
                buf.wf(),
                w == buf.spec_width(),
                h == buf.spec_height(),
                y < h,
                x <= w,
                crate::host::rt_origin_zero(b),
                crate::host::rt_cells(b).len() == h as int,
                forall|yy: int|
                    0 <= yy < h as int ==> (#[trigger] crate::host::rt_cells(b)[yy]).len()
                        == w as int,
                forall|yy: int, xx: int|
                    0 <= yy < y as int && 0 <= xx < w as int ==> #[trigger] crate::host::rt_cells(
                        b,
                    )[yy][xx] == buf.grid()[yy][xx],
                forall|xx: int|
                    0 <= xx < x as int ==> #[trigger] crate::host::rt_cells(b)[y as int][xx]
                        == buf.grid()[y as int][xx],
            decreases w - x,
        {
            let c = buf.get(x, y);
            crate::host::rt_set_cell(&mut b, x, y, c);
            x = x + 1;
        }
        y = y + 1;
    }
    b
}

/// Copies the host mirror's cells back into the frame buffer.
fn from_host_buffer(buf: &mut FrameBuffer, b: &ratatui::buffer::Buffer)
    requires
        old(buf).wf(),
        crate::host::rt_origin_zero(*b),
        crate::host::rt_cells(*b).len() == old(buf).spec_height() as int,
        forall|y: int|
            0 <= y < old(buf).spec_height() as int ==> (#[trigger] crate::host::rt_cells(
                *b,
            )[y]).len() == old(buf).spec_width() as int,
    ensures
        final(buf).wf(),
        final(buf).spec_width() == old(buf).spec_width(),
        final(buf).spec_height() == old(buf).spec_height(),
        forall|y: int, x: int|
            0 <= y < old(buf).spec_height() as int && 0 <= x < old(buf).spec_width() as int
                ==> #[trigger] final(buf).grid()[y][x] == crate::host::rt_cells(*b)[y][x],
{
    let w = buf.width();
    let h = buf.height();
    let mut y: u16 = 0;
    while y < h
        invariant
            buf.wf(),
            w == buf.spec_width(),
            h == buf.spec_height(),
            y <= h,
            crate::host::rt_origin_zero(*b),
            crate::host::rt_cells(*b).len() == h as int,
            forall|yy: int|
                0 <= yy < h as int ==> (#[trigger] crate::host::rt_cells(*b)[yy]).len()
                    == w as int,
            forall|yy: int, xx: int|
                0 <= yy < y as int && 0 <= xx < w as int ==> #[trigger] buf.grid()[yy][xx]
                    == crate::host::rt_cells(*b)[yy][xx],
        decreases h - y,
    {
        let mut x: u16 = 0;
        while x < w
            invariant
                buf.wf(),
                w == buf.spec_width(),
                h == buf.spec_height(),
                y < h,
                x <= w,
                crate::host::rt_origin_zero(*b),
                crate::host::rt_cells(*b).len() == h as int,
                forall|yy: int|
                    0 <= yy < h as int ==> (#[trigger] crate::host::rt_cells(*b)[yy]).len()
                        == w as int,
                forall|yy: int, xx: int|
                    0 <= yy < y as int && 0 <= xx < w as int ==> #[trigger] buf.grid()[yy][xx]
                        == crate::host::rt_cells(*b)[yy][xx],
                forall|xx: int|
                    0 <= xx < x as int ==> #[trigger] buf.grid()[y as int][xx]
                        == crate::host::rt_cells(*b)[y as int][xx],
            decreases w - x,
        {
            let c = crate::host::rt_get_cell(b, x, y);
            buf.set(x, y, c);
            x = x + 1;
        }
        y = y + 1;
    }
}

/// Relates what was registered under a key before one `advance` by `d`
/// milliseconds to what is registered under it afterwards: absent keys stay
/// absent; an effect whose duration the model tracks is advanced and
/// removed exactly when its total duration is spent; of a compiled effect —
/// whose completion the outside library decides — either outcome may stand,
/// but its clock and duration are tracked.
pub open spec fn advanced_lookup(pre: Option<TimedEffect>, post: Option<TimedEffect>, d: u32) -> bool {
    match pre {
        None => post is None,
        Some(e) => match e.behavior {
            EffectBehavior::Compiled(_) => post is None || (match post {
                Some(e2) => e2.behavior is Compiled && e2.total_ms == e.total_ms && e2.elapsed_ms
                    == sat_add_ms(e.elapsed_ms, d),
                None => false,
            }),
            _ => if e.spec_advanced(d).spec_expired() {
                post is None
            } else {
                post == Some(e.spec_advanced(d))
            },
        },
    }
}

/// What one `advance` by `d` leaves of an effect whose duration the model
/// tracks: the effect with its clock moved forward, or nothing once the
/// total duration is spent.
pub open spec fn model_after(e: TimedEffect, d: u32) -> Option<TimedEffect> {
    if e.spec_advanced(d).spec_expired() {
        None
    } else {
        Some(e.spec_advanced(d))
    }
}

/// What a sequence of advances leaves of such an effect.
pub open spec fn model_after_all(e: TimedEffect, ds: Seq<u32>) -> Option<TimedEffect>
    decreases ds.len(),
{
    if ds.len() == 0 {
        Some(e)
    } else {
        match model_after(e, ds[0]) {
            None => None,
            Some(e2) => model_after_all(e2, ds.skip(1)),
        }
    }
}

/// The sum of a sequence of millisecond increments.
pub open spec fn sum_ms(ds: Seq<u32>) -> int
    decreases ds.len(),
{
    if ds.len() == 0 {
        0
    } else {
        ds[0] + sum_ms(ds.skip(1))
    }
}

/// One `advance` moves an effect whose duration the model tracks exactly as
/// `model_after` says.
pub proof fn lemma_advanced_lookup_model(
    pre: Option<TimedEffect>,
    post: Option<TimedEffect>,
    d: u32,
)
    requires
        advanced_lookup(pre, post, d),
        pre matches Some(e) && e.behavior.is_model(),
    ensures
        post == model_after(pre->Some_0, d),
{
}

/// Law: an effect with a tracked total duration, advanced with elapsed
/// increments summing to at least what remains of it, is removed from the
/// registry — and, being absent, never mutates a later frame.
pub proof fn lemma_effect_expires(e: TimedEffect, ds: Seq<u32>)
    requires
        ds.len() > 0,
        e.total_ms matches Some(t) && e.elapsed_ms + sum_ms(ds) >= t,
    ensures
        model_after_all(e, ds) is None,
    decreases ds.len(),
{
    let t = e.total_ms->Some_0;
    let d0 = ds[0];
    let e1 = e.spec_advanced(d0);
    if e1.spec_expired() {
    } else {
        assert(e1.elapsed_ms < t);
        assert(e1.elapsed_ms == e.elapsed_ms + d0);
        if ds.len() == 1 {
            assert(ds.skip(1) =~= Seq::<u32>::empty());
            assert(sum_ms(ds.skip(1)) == 0);
            assert(sum_ms(ds) == d0);
            assert(false);
        } else {
            lemma_effect_expires(e1, ds.skip(1));
        }
    }
}

/// Whether any registered effect draws on the work buffer.
pub open spec fn has_visible(s: Seq<(EffectKind, TimedEffect)>) -> bool {
    exists|i: int|
        0 <= i < s.len() && ((#[trigger] s[i]).1.behavior is Popup || s[i].1.behavior is Compiled)
}

/// Whether any compiled effect — whose mutation the outside effect library
/// owns — is registered.
pub open spec fn has_compiled(s: Seq<(EffectKind, TimedEffect)>) -> bool {
    exists|i: int| 0 <= i < s.len() && (#[trigger] s[i]).1.behavior is Compiled
}

/// The work buffer's grid after the registry's own drawings of one pass,
/// in registry order: each popup draws over the grid the effects before it
/// left — so effects compose left to right — and inert effects draw
/// nothing.  Compiled effects are not covered here: their mutation belongs
/// to the outside library.
pub open spec fn drawn_grid(s: Seq<(EffectKind, TimedEffect)>, g: Seq<Seq<Cell>>) -> Seq<
    Seq<Cell>,
>
    decreases s.len(),
{
    if s.len() == 0 {
        g
    } else {
        let g2 = match s[0].1.behavior {
            EffectBehavior::Popup(p) => crate::popup::popup_applied(p, g),
            _ => g,
        };
        drawn_grid(s.skip(1), g2)
    }
}

/// Drawing one more entry folds its drawing over the registry's result.
proof fn lemma_drawn_snoc(s: Seq<(EffectKind, TimedEffect)>, e: (EffectKind, TimedEffect), g: Seq<Seq<Cell>>)
    ensures
        drawn_grid(s.push(e), g) == (match e.1.behavior {
            EffectBehavior::Popup(p) => crate::popup::popup_applied(p, drawn_grid(s, g)),
            _ => drawn_grid(s, g),
        }),
    decreases s.len(),
{
    let gstep = match e.1.behavior {
        EffectBehavior::Popup(p) => crate::popup::popup_applied(p, drawn_grid(s, g)),
        _ => drawn_grid(s, g),
    };
    if s.len() == 0 {
        assert(s.push(e)[0] == e);
        assert(s.push(e).skip(1) =~= Seq::<(EffectKind, TimedEffect)>::empty());
        assert(drawn_grid(s, g) == g);
        let g1 = match e.1.behavior {
            EffectBehavior::Popup(p) => crate::popup::popup_applied(p, g),
            _ => g,
        };
        assert(drawn_grid(s.push(e), g) == drawn_grid(s.push(e).skip(1), g1));
        assert(drawn_grid(Seq::<(EffectKind, TimedEffect)>::empty(), g1) == g1);
    } else {
        assert(s.push(e)[0] == s[0]);
        assert(s.push(e).skip(1) =~= s.skip(1).push(e));
        let g2 = match s[0].1.behavior {
            EffectBehavior::Popup(p) => crate::popup::popup_applied(p, g),
            _ => g,
        };
        assert(drawn_grid(s, g) == drawn_grid(s.skip(1), g2));
        assert(drawn_grid(s.push(e), g) == drawn_grid(s.skip(1).push(e), g2));
        lemma_drawn_snoc(s.skip(1), e, g2);
    }
}

/// The keyed registry of active timed effects.  At most one effect is
/// registered per key; registering under an existing key replaces the old
/// effect wholesale.  Each frame `advance` moves every effect's clock
/// forward, lets it mutate the work buffer in registry order, and removes
/// the effects that have completed.
pub struct EffectManager {
    items: Vec<(EffectKind, TimedEffect)>,
}

impl EffectManager {
    /// The registered entries, in registry order.
    pub closed spec fn entries(self) -> Seq<(EffectKind, TimedEffect)> {
        self.items@
    }

    /// Well-formedness: no key registered twice.
    pub open spec fn wf(self) -> bool {
        keys_unique(self.entries())
    }

    /// The effect registered under `k`, if any.
    pub open spec fn lookup(self, k: EffectKind) -> Option<TimedEffect> {
        lookup_seq(self.entries(), k)
    }

    /// Creates an empty registry.
    pub fn new() -> (m: EffectManager)
        ensures
            m.wf(),
            m.entries() == Seq::<(EffectKind, TimedEffect)>::empty(),
    {
        EffectManager { items: Vec::new() }
    }

    /// The number of registered effects.
    pub fn len(&self) -> (n: usize)
        ensures
            n == self.entries().len(),
    {
        self.items.len()
    }

    /// Looks up the effect registered under `key`.
    pub fn get(&self, key: EffectKind) -> (r: Option<&TimedEffect>)
        ensures
            match r {
                Some(e) => self.lookup(key) == Some(*e),
                None => self.lookup(key) is None,
            },
    {
        let mut i: usize = 0;
        while i < self.items.len()
            invariant
                i <= self.items@.len(),
                forall|j: int| 0 <= j < i ==> (#[trigger] self.items@[j]).0 != key,
            decreases self.items@.len() - i,
        {
            if self.items[i].0 == key {
                proof {
                    lemma_lookup_at(self.entries(), key, i as int);
                }
                return Some(&self.items[i].1);
            }
            i = i + 1;
        }
        proof {
            lemma_lookup_absent(self.entries(), key);
        }
        None
    }

    /// Inserts or replaces the effect under `key`; replacing drops the
    /// previous effect's remaining state unconditionally.
    #[verifier::loop_isolation(false)]
    pub fn upsert(&mut self, key: EffectKind, effect: TimedEffect)
        requires
            old(self).wf(),
        ensures
            final(self).wf(),
            final(self).entries() == upsert_seq(old(self).entries(), key, effect),
            final(self).lookup(key) == Some(effect),
            count_key(final(self).entries(), key) == 1,
            forall|k2: EffectKind|
                k2 != key ==> #[trigger] final(self).lookup(k2) == old(self).lookup(k2),
    {
        proof {
            lemma_lookup_upsert(old(self).entries(), key, effect);
            lemma_count_le_of_unique(old(self).entries(), key);
            lemma_upsert_unique(old(self).entries(), key, effect);
            assert forall|k2: EffectKind| k2 != key implies #[trigger] lookup_seq(
                upsert_seq(old(self).entries(), key, effect),
                k2,
            ) == lookup_seq(old(self).entries(), k2) by {
                lemma_lookup_upsert_other(old(self).entries(), key, effect, k2);
            }
        }
        let mut i: usize = 0;
        let n = self.items.len();
        while i < n
            invariant
                n == self.items@.len(),
                i <= n,
                self == old(self),
                keys_unique(self.items@),
                forall|j: int| 0 <= j < i ==> (#[trigger] self.items@[j]).0 != key,
            decreases n - i,
        {
            if self.items[i].0 == key {
                proof {
                    lemma_upsert_at(old(self).entries(), key, effect, i as int);
                }
                self.items.set(i, (key, effect));
                return;
            }
            i = i + 1;
        }
        proof {
            lemma_upsert_absent(old(self).entries(), key, effect);
        }
        self.items.push((key, effect));
    }

    /// Removes whatever is registered under `key`, if anything.
    #[verifier::loop_isolation(false)]
    pub fn clear(&mut self, key: EffectKind)
        requires
            old(self).wf(),
        ensures
            final(self).wf(),
            final(self).entries() == remove_seq(old(self).entries(), key),
            final(self).lookup(key) is None,
            forall|k2: EffectKind|
                k2 != key ==> #[trigger] final(self).lookup(k2) == old(self).lookup(k2),
    {
        proof {
            lemma_lookup_remove(old(self).entries(), key);
            assert forall|k2: EffectKind| k2 != key implies #[trigger] lookup_seq(
                remove_seq(old(self).entries(), key),
                k2,
            ) == lookup_seq(old(self).entries(), k2) by {
                lemma_lookup_remove_other(old(self).entries(), key, k2);
            }
        }
        let mut i: usize = 0;
        let n = self.items.len();
        while i < n
            invariant
                n == self.items@.len(),
                i <= n,
                self == old(self),
                keys_unique(self.items@),
                forall|j: int| 0 <= j < i ==> (#[trigger] self.items@[j]).0 != key,
            decreases n - i,
        {
            if self.items[i].0 == key {
                proof {
                    assert forall|j: int|
                        0 <= j < self.items@.len() && j != i as int implies (#[trigger] self.items@[j]).0
                        != key by {
                        if j > i as int {
                            assert(self.items@[i as int].0 == key);
                        }
                    }
                    lemma_remove_at(old(self).entries(), key, i as int);
                }
                self.items.remove(i);
                proof {
                    assert(self.items@ =~= old(self).entries().take(i as int) + old(
                        self,
                    ).entries().skip(i as int + 1));
                }
                return;
            }
            i = i + 1;
        }
        proof {
            lemma_remove_absent(old(self).entries(), key);
        }
    }

    /// Advances every registered effect by `d` milliseconds, in registry
    /// order, letting each mutate the work buffer in turn — so effects
    /// compose left to right within one pass, each seeing the mutations of
    /// the effects before it — and removes every effect that has completed.
    /// A pass over a registry with nothing to draw leaves the work buffer
    /// untouched.
    #[verifier::loop_isolation(false)]
    pub fn advance(&mut self, d: u32, work: &mut FrameBuffer)
        requires
            old(self).wf(),
            old(work).wf(),
        ensures
            final(self).wf(),
            final(work).wf(),
            final(work).spec_width() == old(work).spec_width(),
            final(work).spec_height() == old(work).spec_height(),
            forall|k: EffectKind|
                #[trigger] advanced_lookup(old(self).lookup(k), final(self).lookup(k), d),
            !has_visible(old(self).entries()) ==> final(work).grid() == old(work).grid(),
            !has_compiled(old(self).entries()) ==> final(work).grid() == drawn_grid(
                old(self).entries(),
                old(work).grid(),
            ),
    {
        let ghost orig = old(self).entries();
        let mut out: Vec<(EffectKind, TimedEffect)> = Vec::new();
        proof {
            assert(orig.skip(0) =~= orig);
            assert(orig.take(0) =~= Seq::<(EffectKind, TimedEffect)>::empty());
            assert(drawn_grid(Seq::<(EffectKind, TimedEffect)>::empty(), old(work).grid())
                == old(work).grid());
            assert forall|k: EffectKind| #[trigger] advanced_lookup(
                lookup_seq(orig.take(0), k),
                lookup_seq(out@, k),
                d,
            ) by {
                assert(lookup_seq(orig.take(0), k) == None::<TimedEffect>);
                assert(lookup_seq(out@, k) == None::<TimedEffect>);
            }
        }
        while self.items.len() > 0
            invariant
                self.items@.len() <= orig.len(),
                self.items@ == orig.skip(orig.len() - self.items@.len()),
                keys_unique(out@),
                work.wf(),
                work.spec_width() == old(work).spec_width(),
                work.spec_height() == old(work).spec_height(),
                forall|k: EffectKind|
                    #[trigger] advanced_lookup(
                        lookup_seq(orig.take(orig.len() - self.items@.len()), k),
                        lookup_seq(out@, k),
                        d,
                    ),
                forall|j: int|
                    0 <= j < out@.len() ==> exists|m: int|
                        0 <= m < orig.len() - self.items@.len() && (#[trigger] out@[j]).0
                            == orig[m].0,
                !has_visible(orig) ==> work.grid() == old(work).grid(),
                !has_compiled(orig) ==> work.grid() == drawn_grid(
                    orig.take(orig.len() - self.items@.len()),
                    old(work).grid(),
                ),
            decreases self.items@.len(),
        {
            let ghost p = orig.len() - self.items@.len();
            proof {
                assert(self.items@[0] == orig.skip(p)[0]);
                assert(orig.skip(p)[0] == orig[p]);
            }
            let (key, eff) = self.items.remove(0);
            proof {
                assert(self.items@ =~= orig.skip(p + 1));
                assert((key, eff) == orig[p]);
            }
            let new_elapsed: u32 = if eff.elapsed_ms > u32::MAX - d {
                u32::MAX
            } else {
                eff.elapsed_ms + d
            };
            proof {
                assert(new_elapsed == sat_add_ms(eff.elapsed_ms, d));
                // the processed entry's key is new to `out`
                assert forall|j: int| 0 <= j < out@.len() implies (#[trigger] out@[j]).0
                    != key by {
                    let m = choose|m: int| 0 <= m < p && out@[j].0 == orig[m].0;
                    assert(orig[m].0 != orig[p].0);
                }
                lemma_lookup_absent(out@, key);
                assert(orig.take(p + 1) =~= orig.take(p).push(orig[p]));
            }
            let ghost out_pre = out@;
            let expired: bool = match eff.total_ms {
                Some(t) => new_elapsed >= t,
                None => false,
            };
            match eff.behavior {
                EffectBehavior::ClearTick => {
                    if !expired {
                        out.push(
                            (
                                key,
                                TimedEffect {
                                    behavior: EffectBehavior::ClearTick,
                                    total_ms: eff.total_ms,
                                    elapsed_ms: new_elapsed,
                                },
                            ),
                        );
                    }
                },
                EffectBehavior::Popup(pp) => {
                    pp.render_into(work);
                    if !expired {
                        out.push(
                            (
                                key,
                                TimedEffect {
                                    behavior: EffectBehavior::Popup(pp),
                                    total_ms: eff.total_ms,
                                    elapsed_ms: new_elapsed,
                                },
                            ),
                        );
                    }
                },
                EffectBehavior::Compiled(fx) => {
                    let mut fx = fx;
                    let mut hb = to_host_buffer(work);
                    let w = work.width();
                    let h = work.height();
                    crate::host::fx_process(&mut fx, d, &mut hb, w, h);
                    from_host_buffer(work, &hb);
                    if !crate::host::fx_done(&fx) {
                        out.push(
                            (
                                key,
                                TimedEffect {
                                    behavior: EffectBehavior::Compiled(fx),
                                    total_ms: eff.total_ms,
                                    elapsed_ms: new_elapsed,
                                },
                            ),
                        );
                    }
                },
            }
            proof {
                // visibility: an inert pass leaves the buffer untouched
                if !has_visible(orig) {
                    assert(!(orig[p].1.behavior is Popup) && !(orig[p].1.behavior is Compiled));
                }
                // the drawn-grid account of the library's own drawings
                if !has_compiled(orig) {
                    assert(!(orig[p].1.behavior is Compiled));
                    lemma_drawn_snoc(orig.take(p), orig[p], old(work).grid());
                    assert(work.grid() == drawn_grid(orig.take(p + 1), old(work).grid()));
                }
                // uniqueness of the rebuilt registry
                if out@.len() > out_pre.len() {
                    assert(out@ == out_pre.push((key, out@[out_pre.len() as int].1)));
                    assert forall|i: int, j: int|
                        0 <= i < j < out@.len() implies (#[trigger] out@[i]).0 != (
                    #[trigger] out@[j]).0 by {
                        if j < out_pre.len() {
                            assert(out@[i] == out_pre[i] && out@[j] == out_pre[j]);
                        } else {
                            assert(out@[j].0 == key);
                            if i < out_pre.len() {
                                assert(out@[i] == out_pre[i]);
                            }
                        }
                    }
                }
                // the processed key is absent from the processed prefix
                assert forall|j: int| 0 <= j < orig.take(p).len() implies (#[trigger] orig.take(
                    p,
                )[j]).0 != key by {
                    assert(orig.take(p)[j] == orig[j]);
                    assert(orig[j].0 != orig[p].0);
                }
                lemma_lookup_absent(orig.take(p), key);
                // the per-key relation, one entry further
                assert forall|k: EffectKind| #[trigger] advanced_lookup(
                    lookup_seq(orig.take(p + 1), k),
                    lookup_seq(out@, k),
                    d,
                ) by {
                    lemma_lookup_push(orig.take(p), orig[p], k);
                    if out@.len() > out_pre.len() {
                        lemma_lookup_push(out_pre, out@[out_pre.len() as int], k);
                    }
                    assert(advanced_lookup(
                        lookup_seq(orig.take(p), k),
                        lookup_seq(out_pre, k),
                        d,
                    ));
                }
                // keys of `out` still come from the processed prefix
                assert forall|j: int| 0 <= j < out@.len() implies exists|m: int|
                    0 <= m < p + 1 && (#[trigger] out@[j]).0 == orig[m].0 by {
                    if j < out_pre.len() {
                        let m = choose|m: int| 0 <= m < p && out_pre[j].0 == orig[m].0;
                        assert(out@[j] == out_pre[j]);
                        assert(0 <= m < p + 1 && out@[j].0 == orig[m].0);
                    } else {
                        assert(out@[j].0 == key);
                        assert(out@[j].0 == orig[p].0);
                    }
                }
            }
        }
        proof {
            assert(orig.take(orig.len() - self.items@.len()) =~= orig);
        }
        self.items = out;
    }
}

} // verus!
