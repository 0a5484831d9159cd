//! The effect tracker: a compact association list of active buff entries,
//! keyed by the action that produced them. At most a handful of entries are
//! ever live, and keys are unique.
use vstd::prelude::*;

use crate::actions::Action;

verus! {

/// Entries of an effect store, first match wins (keys are kept unique).
pub open spec fn seq_get(s: Seq<(Action, i8)>, a: Action) -> Option<i8>
    decreases s.len(),
{
    if s.len() == 0 {
        None
    } else if s[0].0 == a {
        Some(s[0].1)
    } else {
        seq_get(s.drop_first(), a)
    }
}

/// No key occurs twice.
pub open spec fn keys_unique(s: Seq<(Action, i8)>) -> bool {
    forall|i: int, j: int| 0 <= i < j < s.len() ==> (#[trigger] s[i]).0 != (#[trigger] s[j]).0
}

/// Store `v` under `a`: overwrite the first entry keyed `a`, or append one.
pub open spec fn spec_insert(s: Seq<(Action, i8)>, a: Action, v: i8) -> Seq<(Action, i8)>
    decreases s.len(),
{
    if s.len() == 0 {
        seq![(a, v)]
    } else if s[0].0 == a {
        seq![(a, v)] + s.drop_first()
    } else {
        seq![s[0]] + spec_insert(s.drop_first(), a, v)
    }
}

/// Drop the first entry keyed `a`, if any.
pub open spec fn spec_remove(s: Seq<(Action, i8)>, a: Action) -> Seq<(Action, i8)>
    decreases s.len(),
{
    if s.len() == 0 {
        s
    } else if s[0].0 == a {
        s.drop_first()
    } else {
        seq![s[0]] + spec_remove(s.drop_first(), a)
    }
}

/// Decrement every entry by one and drop the entries that reach zero.
pub open spec fn spec_tick(s: Seq<(Action, i8)>) -> Seq<(Action, i8)>
    decreases s.len(),
{
    if s.len() == 0 {
        s
    } else if s[0].1 - 1 > 0 {
        seq![(s[0].0, (s[0].1 - 1) as i8)] + spec_tick(s.drop_first())
    } else {
        spec_tick(s.drop_first())
    }
}

/// All values lie in `lo ..= hi`.
pub open spec fn values_within(s: Seq<(Action, i8)>, lo: int, hi: int) -> bool {
    forall|i: int| 0 <= i < s.len() ==> lo <= (#[trigger] s[i]).1 <= hi
}

pub proof fn lemma_get_insert(s: Seq<(Action, i8)>, a: Action, v: i8, b: Action)
    ensures
        seq_get(spec_insert(s, a, v), b) == if b == a {
            Some(v)
        } else {
            seq_get(s, b)
        },
    decreases s.len(),
{
    if s.len() == 0 {
        assert(spec_insert(s, a, v) == seq![(a, v)]);
        assert(seq![(a, v)][0] == (a, v));
        assert(seq![(a, v)].drop_first() =~= Seq::<(Action, i8)>::empty());
    } else if s[0].0 == a {
        let t = seq![(a, v)] + s.drop_first();
        assert(t[0] == (a, v));
        assert(t.drop_first() =~= s.drop_first());
        if b != a {
            lemma_get_skip_head(s, b);
        }
    } else {
        let t = seq![s[0]] + spec_insert(s.drop_first(), a, v);
        assert(t[0] == s[0]);
        assert(t.drop_first() =~= spec_insert(s.drop_first(), a, v));
        lemma_get_insert(s.drop_first(), a, v, b);
    }
}

proof fn lemma_get_skip_head(s: Seq<(Action, i8)>, b: Action)
    requires
        s.len() > 0,
        s[0].0 != b,
    ensures
        seq_get(s, b) == seq_get(s.drop_first(), b),
{
}

pub proof fn lemma_get_remove(s: Seq<(Action, i8)>, a: Action, b: Action)
    requires
        keys_unique(s),
    ensures
        seq_get(spec_remove(s, a), b) == if b == a {
            None::<i8>
        } else {
            seq_get(s, b)
        },
    decreases s.len(),
{
    if s.len() == 0 {
    } else if s[0].0 == a {
        if b == a {
            lemma_unique_tail_free(s, a);
        }
    } else {
        let t = seq![s[0]] + spec_remove(s.drop_first(), a);
        assert(t.drop_first() =~= spec_remove(s.drop_first(), a));
        assert(keys_unique(s.drop_first())) by {
            lemma_unique_drop_first(s);
        }
        lemma_get_remove(s.drop_first(), a, b);
    }
}

/// In a unique-keyed store whose head is keyed `a`, the tail has no `a`.
proof fn lemma_unique_tail_free(s: Seq<(Action, i8)>, a: Action)
    requires
        keys_unique(s),
        s.len() > 0,
        s[0].0 == a,
    ensures
        seq_get(s.drop_first(), a) == None::<i8>,
    decreases s.len(),
{
    lemma_no_key_get_none(s.drop_first(), a);
}

proof fn lemma_no_key_get_none(s: Seq<(Action, i8)>, a: Action)
    requires
        forall|i: int| 0 <= i < s.len() ==> (#[trigger] s[i]).0 != a,
    ensures
        seq_get(s, a) == None::<i8>,
    decreases s.len(),
{
    if s.len() > 0 {
        lemma_no_key_get_none(s.drop_first(), a);
    }
}

pub proof fn lemma_unique_drop_first(s: Seq<(Action, i8)>)
    requires
        keys_unique(s),
        s.len() > 0,
    ensures
        keys_unique(s.drop_first()),
{
    assert forall|i: int, j: int| 0 <= i < j < s.drop_first().len() implies (#[trigger] s.drop_first()[i]).0
        != (#[trigger] s.drop_first()[j]).0 by {
        assert(s.drop_first()[i] == s[i + 1]);
        assert(s.drop_first()[j] == s[j + 1]);
    }
}

pub proof fn lemma_unique_insert(s: Seq<(Action, i8)>, a: Action, v: i8)
    requires
        keys_unique(s),
    ensures
        keys_unique(spec_insert(s, a, v)),
    decreases s.len(),
{
    let t = spec_insert(s, a, v);
    if s.len() == 0 {
    } else if s[0].0 == a {
        assert forall|i: int, j: int| 0 <= i < j < t.len() implies (#[trigger] t[i]).0 != (
        #[trigger] t[j]).0 by {
            assert(t[j] == s[j]);
            if i > 0 {
                assert(t[i] == s[i]);
            }
        }
    } else {
        lemma_unique_drop_first(s);
        lemma_unique_insert(s.drop_first(), a, v);
        lemma_insert_keys(s.drop_first(), a, v);
        assert forall|i: int, j: int| 0 <= i < j < t.len() implies (#[trigger] t[i]).0 != (
        #[trigger] t[j]).0 by {
            let tt = spec_insert(s.drop_first(), a, v);
            if i == 0 {
                assert(t[j] == tt[j - 1]);
            } else {
                assert(t[i] == tt[i - 1]);
                assert(t[j] == tt[j - 1]);
            }
        }
    }
}

/// Every key of the inserted store is a key of the original or `a` itself.
proof fn lemma_insert_keys(s: Seq<(Action, i8)>, a: Action, v: i8)
    ensures
        forall|i: int| 0 <= i < spec_insert(s, a, v).len() ==> ((#[trigger] spec_insert(s, a, v)[i]).0
            == a || exists|j: int| 0 <= j < s.len() && (#[trigger] s[j]).0 == spec_insert(
            s,
            a,
            v,
        )[i].0),
    decreases s.len(),
{
    let t = spec_insert(s, a, v);
    if s.len() == 0 {
    } else if s[0].0 == a {
        assert forall|i: int| 0 <= i < t.len() implies ((#[trigger] t[i]).0 == a || exists|j: int|
            0 <= j < s.len() && (#[trigger] s[j]).0 == t[i].0) by {
            if i > 0 {
                assert(t[i] == s[i]);
                assert(s[i].0 == t[i].0);
            }
        }
    } else {
        lemma_insert_keys(s.drop_first(), a, v);
        let tt = spec_insert(s.drop_first(), a, v);
        assert forall|i: int| 0 <= i < t.len() implies ((#[trigger] t[i]).0 == a || exists|j: int|
            0 <= j < s.len() && (#[trigger] s[j]).0 == t[i].0) by {
            if i == 0 {
                assert(s[0].0 == t[0].0);
            } else {
                assert(t[i] == tt[i - 1]);
                if tt[i - 1].0 != a {
                    let j = choose|j: int| 0 <= j < s.drop_first().len() && (#[trigger] s.drop_first()[j]).0
                        == tt[i - 1].0;
                    assert(s[j + 1].0 == t[i].0);
                }
            }
        }
    }
}

pub proof fn lemma_unique_remove(s: Seq<(Action, i8)>, a: Action)
    requires
        keys_unique(s),
    ensures
        keys_unique(spec_remove(s, a)),
        forall|i: int| 0 <= i < spec_remove(s, a).len() ==> exists|j: int| 0 <= j < s.len() && (
        #[trigger] s[j]) == (#[trigger] spec_remove(s, a)[i]),
    decreases s.len(),
{
    let t = spec_remove(s, a);
    if s.len() == 0 {
    } else if s[0].0 == a {
        lemma_unique_drop_first(s);
        assert forall|i: int| 0 <= i < t.len() implies exists|j: int| 0 <= j < s.len() && (
        #[trigger] s[j]) == (#[trigger] t[i]) by {
            assert(s[i + 1] == t[i]);
        }
    } else {
        lemma_unique_drop_first(s);
        lemma_unique_remove(s.drop_first(), a);
        let tt = spec_remove(s.drop_first(), a);
        assert forall|i: int, j: int| 0 <= i < j < t.len() implies (#[trigger] t[i]).0 != (
        #[trigger] t[j]).0 by {
            if i == 0 {
                assert(t[j] == tt[j - 1]);
                let k = choose|k: int| 0 <= k < s.drop_first().len() && (#[trigger] s.drop_first()[k])
                    == tt[j - 1];
                assert(s[k + 1] == t[j]);
            } else {
                assert(t[i] == tt[i - 1]);
                assert(t[j] == tt[j - 1]);
            }
        }
        assert forall|i: int| 0 <= i < t.len() implies exists|j: int| 0 <= j < s.len() && (
        #[trigger] s[j]) == (#[trigger] t[i]) by {
            if i == 0 {
                assert(s[0] == t[0]);
            } else {
                assert(t[i] == tt[i - 1]);
                let k = choose|k: int| 0 <= k < s.drop_first().len() && (#[trigger] s.drop_first()[k])
                    == tt[i - 1];
                assert(s[k + 1] == t[i]);
            }
        }
    }
}

pub proof fn lemma_unique_tick(s: Seq<(Action, i8)>)
    requires
        keys_unique(s),
    ensures
        keys_unique(spec_tick(s)),
        forall|i: int| 0 <= i < spec_tick(s).len() ==> exists|j: int| 0 <= j < s.len() && (
        #[trigger] s[j]).0 == (#[trigger] spec_tick(s)[i]).0 && s[j].1 - 1 == spec_tick(s)[i].1,
    decreases s.len(),
{
    let t = spec_tick(s);
    if s.len() == 0 {
    } else {
        lemma_unique_drop_first(s);
        lemma_unique_tick(s.drop_first());
        let tt = spec_tick(s.drop_first());
        if s[0].1 - 1 > 0 {
            assert forall|i: int, j: int| 0 <= i < j < t.len() implies (#[trigger] t[i]).0 != (
            #[trigger] t[j]).0 by {
                if i == 0 {
                    assert(t[j] == tt[j - 1]);
                    let k = choose|k: int| 0 <= k < s.drop_first().len() && (#[trigger] s.drop_first()[k]).0
                        == tt[j - 1].0 && s.drop_first()[k].1 - 1 == tt[j - 1].1;
                    assert(s[k + 1].0 == t[j].0);
                } else {
                    assert(t[i] == tt[i - 1]);
                    assert(t[j] == tt[j - 1]);
                }
            }
            assert forall|i: int| 0 <= i < t.len() implies exists|j: int| 0 <= j < s.len() && (
            #[trigger] s[j]).0 == (#[trigger] t[i]).0 && s[j].1 - 1 == t[i].1 by {
                if i == 0 {
                    assert(s[0].0 == t[0].0 && s[0].1 - 1 == t[0].1);
                } else {
                    assert(t[i] == tt[i - 1]);
                    let k = choose|k: int| 0 <= k < s.drop_first().len() && (#[trigger] s.drop_first()[k]).0
                        == tt[i - 1].0 && s.drop_first()[k].1 - 1 == tt[i - 1].1;
                    assert(s[k + 1].0 == t[i].0 && s[k + 1].1 - 1 == t[i].1);
                }
            }
        } else {
            assert forall|i: int| 0 <= i < t.len() implies exists|j: int| 0 <= j < s.len() && (
            #[trigger] s[j]).0 == (#[trigger] t[i]).0 && s[j].1 - 1 == t[i].1 by {
                let k = choose|k: int| 0 <= k < s.drop_first().len() && (#[trigger] s.drop_first()[k]).0
                    == tt[i].0 && s.drop_first()[k].1 - 1 == tt[i].1;
                assert(s[k + 1].0 == t[i].0 && s[k + 1].1 - 1 == t[i].1);
            }
        }
    }
}

/// After a tick every surviving countdown is strictly positive.
pub proof fn lemma_tick_values(s: Seq<(Action, i8)>, hi: int)
    requires
        values_within(s, 1, hi),
    ensures
        values_within(spec_tick(s), 1, hi - 1),
    decreases s.len(),
{
    if s.len() > 0 {
        lemma_tick_values(s.drop_first(), hi);
        let t = spec_tick(s);
        let tt = spec_tick(s.drop_first());
        if s[0].1 - 1 > 0 {
            assert forall|i: int| 0 <= i < t.len() implies 1 <= (#[trigger] t[i]).1 <= hi - 1 by {
                if i > 0 {
                    assert(t[i] == tt[i - 1]);
                }
            }
        }
    }
}

/// One store of active effects: an association list with unique keys.
#[derive(Clone, Debug)]
pub struct EffectData {
    pub entries: Vec<(Action, i8)>,
}

impl View for EffectData {
    type V = Seq<(Action, i8)>;

    open spec fn view(&self) -> Seq<(Action, i8)> {
        self.entries@
    }
}

impl EffectData {
    pub open spec fn wf(&self) -> bool {
        keys_unique(self@)
    }

    pub fn empty() -> (r: Self)
        ensures
            r@ == Seq::<(Action, i8)>::empty(),
            r.wf(),
    {
        let r = EffectData { entries: Vec::new() };
        proof {
            assert(r@ =~= Seq::<(Action, i8)>::empty());
        }
        r
    }

    /// An identical copy of this store.
    pub fn duplicate(&self) -> (r: Self)
        ensures
            r@ == self@,
    {
        let mut entries: Vec<(Action, i8)> = Vec::new();
        let mut i: usize = 0;
        while i < self.entries.len()
            invariant
                i <= self.entries.len(),
                entries@ == self.entries@.take(i as int),
            decreases self.entries.len() - i,
        {
            entries.push(self.entries[i]);
            proof {
                assert(entries@ =~= self.entries@.take(i + 1 as int));
            }
            i += 1;
        }
        proof {
            assert(self.entries@.take(self.entries@.len() as int) =~= self.entries@);
        }
        EffectData { entries }
    }

    /// The value stored under `a`, if present.
    pub fn get(&self, a: Action) -> (r: Option<i8>)
        ensures
            r == seq_get(self@, a),
    {
        let mut i: usize = 0;
        proof {
            assert(self@.skip(0) =~= self@);
        }
        while i < self.entries.len()
            invariant
                i <= self.entries.len(),
                seq_get(self@, a) == seq_get(self@.skip(i as int), a),
            decreases self.entries.len() - i,
        {
            if self.entries[i].0 == a {
                proof {
                    assert(self@.skip(i as int)[0] == self@[i as int]);
                }
                return Some(self.entries[i].1);
            }
            proof {
                assert(self@.skip(i as int).drop_first() =~= self@.skip(i + 1 as int));
            }
            i += 1;
        }
        proof {
            assert(self@.skip(i as int).len() == 0);
        }
        None
    }

    /// Store `v` under `a`, overwriting any existing entry.
    pub fn insert(&mut self, a: Action, v: i8)
        ensures
            final(self)@ == spec_insert(old(self)@, a, v),
    {
        let ghost s = self@;
        let mut i: usize = 0;
        while i < self.entries.len()
            invariant
                i <= self.entries.len(),
                self@ == s,
                s == old(self)@,
                forall|j: int| 0 <= j < i ==> (#[trigger] s[j]).0 != a,
            decreases self.entries.len() - i,
        {
            if self.entries[i].0 == a {
                self.entries.set(i, (a, v));
                proof {
                    lemma_insert_is_update(s, a, v, i as int);
                }
                return ;
            }
            i += 1;
        }
        self.entries.push((a, v));
        proof {
            lemma_insert_is_push(s, a, v);
        }
    }

    /// Drop the entry keyed `a`, if any.
    pub fn remove(&mut self, a: Action)
        ensures
            final(self)@ == spec_remove(old(self)@, a),
    {
        let ghost s = self@;
        let mut i: usize = 0;
        while i < self.entries.len()
            invariant
                i <= self.entries.len(),
                self@ == s,
                s == old(self)@,
                forall|j: int| 0 <= j < i ==> (#[trigger] s[j]).0 != a,
            decreases self.entries.len() - i,
        {
            if self.entries[i].0 == a {
                self.entries.remove(i);
                proof {
                    lemma_remove_is_splice(s, a, i as int);
                }
                return ;
            }
            i += 1;
        }
        proof {
            lemma_remove_absent(s, a);
        }
    }

    /// Decrement every entry and drop those that reach zero.
    pub fn tick_down(&mut self)
        requires
            values_within(old(self)@, i8::MIN + 1, i8::MAX as int),
        ensures
            final(self)@ == spec_tick(old(self)@),
    {
        let ghost s = self@;
        let mut out: Vec<(Action, i8)> = Vec::new();
        let mut i: usize = 0;
        proof {
            assert(s.skip(0) =~= s);
            assert(Seq::<(Action, i8)>::empty() + spec_tick(s) =~= spec_tick(s));
        }
        while i < self.entries.len()
            invariant
                i <= self.entries.len(),
                self@ == s,
                s == old(self)@,
                values_within(s, i8::MIN + 1, i8::MAX as int),
                out@ + spec_tick(s.skip(i as int)) == spec_tick(s),
            decreases self.entries.len() - i,
        {
            let (key, value) = self.entries[i];
            proof {
                assert(s.skip(i as int)[0] == s[i as int]);
                assert(s.skip(i as int).drop_first() =~= s.skip(i + 1 as int));
            }
            if value - 1 > 0 {
                out.push((key, value - 1));
                proof {
                    assert(out@ + spec_tick(s.skip(i + 1 as int)) =~= spec_tick(s));
                }
            }
            i += 1;
        }
        proof {
            assert(s.skip(i as int).len() == 0);
            assert(out@ + spec_tick(s.skip(i as int)) =~= out@);
        }
        self.entries = out;
    }
}

proof fn lemma_insert_is_update(s: Seq<(Action, i8)>, a: Action, v: i8, i: int)
    requires
        0 <= i < s.len(),
        s[i].0 == a,
        forall|j: int| 0 <= j < i ==> (#[trigger] s[j]).0 != a,
    ensures
        spec_insert(s, a, v) == s.update(i, (a, v)),
    decreases i,
{
    if i == 0 {
        assert(spec_insert(s, a, v) =~= s.update(0, (a, v)));
    } else {
        assert(s.drop_first()[i - 1].0 == a);
        assert forall|j: int| 0 <= j < i - 1 implies (#[trigger] s.drop_first()[j]).0 != a by {
            assert(s.drop_first()[j] == s[j + 1]);
        }
        lemma_insert_is_update(s.drop_first(), a, v, i - 1);
        assert(seq![s[0]] + s.drop_first().update(i - 1, (a, v)) =~= s.update(i, (a, v)));
    }
}

proof fn lemma_insert_is_push(s: Seq<(Action, i8)>, a: Action, v: i8)
    requires
        forall|j: int| 0 <= j < s.len() ==> (#[trigger] s[j]).0 != a,
    ensures
        spec_insert(s, a, v) == s.push((a, v)),
    decreases s.len(),
{
    if s.len() == 0 {
        assert(spec_insert(s, a, v) =~= s.push((a, v)));
    } else {
        assert forall|j: int| 0 <= j < s.drop_first().len() implies (#[trigger] s.drop_first()[j]).0
            != a by {
            assert(s.drop_first()[j] == s[j + 1]);
        }
        lemma_insert_is_push(s.drop_first(), a, v);
        assert(seq![s[0]] + s.drop_first().push((a, v)) =~= s.push((a, v)));
    }
}

proof fn lemma_remove_is_splice(s: Seq<(Action, i8)>, a: Action, i: int)
    requires
        0 <= i < s.len(),
        s[i].0 == a,
        forall|j: int| 0 <= j < i ==> (#[trigger] s[j]).0 != a,
    ensures
        spec_remove(s, a) == s.remove(i),
    decreases i,
{
    if i == 0 {
        assert(spec_remove(s, a) =~= s.remove(0));
    } else {
        assert(s.drop_first()[i - 1].0 == a);
        assert forall|j: int| 0 <= j < i - 1 implies (#[trigger] s.drop_first()[j]).0 != a by {
            assert(s.drop_first()[j] == s[j + 1]);
        }
        lemma_remove_is_splice(s.drop_first(), a, i - 1);
        assert(seq![s[0]] + s.drop_first().remove(i - 1) =~= s.remove(i));
    }
}

proof fn lemma_remove_absent(s: Seq<(Action, i8)>, a: Action)
    requires
        forall|j: int| 0 <= j < s.len() ==> (#[trigger] s[j]).0 != a,
    ensures
        spec_remove(s, a) == s,
    decreases s.len(),
{
    if s.len() > 0 {
        assert forall|j: int| 0 <= j < s.drop_first().len() implies (#[trigger] s.drop_first()[j]).0
            != a by {
            assert(s.drop_first()[j] == s[j + 1]);
        }
        lemma_remove_absent(s.drop_first(), a);
        assert(seq![s[0]] + s.drop_first() =~= s);
    }
}

/// The two effect stores of a craft state.
#[derive(Clone, Debug)]
pub struct Effects {
    pub count_downs: EffectData,
    pub count_ups: EffectData,
}

impl Effects {
    pub open spec fn wf(&self) -> bool {
        self.count_downs.wf() && self.count_ups.wf()
    }

    pub fn empty() -> (r: Self)
        ensures
            r.count_downs@ == Seq::<(Action, i8)>::empty(),
            r.count_ups@ == Seq::<(Action, i8)>::empty(),
            r.wf(),
    {
        Effects { count_downs: EffectData::empty(), count_ups: EffectData::empty() }
    }

    pub fn duplicate(&self) -> (r: Self)
        ensures
            r.count_downs@ == self.count_downs@,
            r.count_ups@ == self.count_ups@,
    {
        Effects {
            count_downs: self.count_downs.duplicate(),
            count_ups: self.count_ups.duplicate(),
        }
    }
}

} // verus!

verus! {

/// A looked-up value respects the store's value bounds.
pub proof fn lemma_get_within(s: Seq<(Action, i8)>, a: Action, lo: int, hi: int)
    requires
        values_within(s, lo, hi),
    ensures
        match seq_get(s, a) {
            Some(v) => lo <= v <= hi,
            None => true,
        },
    decreases s.len(),
{
    if s.len() > 0 {
        assert(s[0].1 == s.index(0).1);
        assert forall|i: int| 0 <= i < s.drop_first().len() implies lo <= (
        #[trigger] s.drop_first()[i]).1 <= hi by {
            assert(s.drop_first()[i] == s[i + 1]);
        }
        lemma_get_within(s.drop_first(), a, lo, hi);
    }
}

} // verus!

verus! {

/// Under unique keys, every entry is what lookup finds for its key.
pub proof fn lemma_unique_get_entry(s: Seq<(Action, i8)>, i: int)
    requires
        keys_unique(s),
        0 <= i < s.len(),
    ensures
        seq_get(s, s[i].0) == Some(s[i].1),
    decreases i,
{
    if i == 0 {
    } else {
        assert(s[0].0 != s[i].0);
        lemma_unique_drop_first(s);
        assert(s.drop_first()[i - 1] == s[i]);
        lemma_unique_get_entry(s.drop_first(), i - 1);
    }
}

/// Inserting a value inside the bounds keeps the store inside the bounds.
pub proof fn lemma_insert_values(s: Seq<(Action, i8)>, a: Action, v: i8, lo: int, hi: int)
    requires
        values_within(s, lo, hi),
        lo <= v <= hi,
    ensures
        values_within(spec_insert(s, a, v), lo, hi),
    decreases s.len(),
{
    let t = spec_insert(s, a, v);
    if s.len() == 0 {
        assert(t[0].1 == v);
    } else if s[0].0 == a {
        assert forall|i: int| 0 <= i < t.len() implies lo <= (#[trigger] t[i]).1 <= hi by {
            if i > 0 {
                assert(t[i] == s[i]);
            } else {
                assert(t[0].1 == v);
            }
        }
    } else {
        assert forall|i: int| 0 <= i < s.drop_first().len() implies lo <= (
        #[trigger] s.drop_first()[i]).1 <= hi by {
            assert(s.drop_first()[i] == s[i + 1]);
        }
        lemma_insert_values(s.drop_first(), a, v, lo, hi);
        let tt = spec_insert(s.drop_first(), a, v);
        assert forall|i: int| 0 <= i < t.len() implies lo <= (#[trigger] t[i]).1 <= hi by {
            if i == 0 {
                assert(t[0] == s[0]);
            } else {
                assert(t[i] == tt[i - 1]);
            }
        }
    }
}

/// Removing an entry keeps the store inside the bounds.
pub proof fn lemma_remove_values(s: Seq<(Action, i8)>, a: Action, lo: int, hi: int)
    requires
        values_within(s, lo, hi),
    ensures
        values_within(spec_remove(s, a), lo, hi),
    decreases s.len(),
{
    let t = spec_remove(s, a);
    if s.len() == 0 {
    } else if s[0].0 == a {
        assert forall|i: int| 0 <= i < t.len() implies lo <= (#[trigger] t[i]).1 <= hi by {
            assert(t[i] == s[i + 1]);
        }
    } else {
        assert forall|i: int| 0 <= i < s.drop_first().len() implies lo <= (
        #[trigger] s.drop_first()[i]).1 <= hi by {
            assert(s.drop_first()[i] == s[i + 1]);
        }
        lemma_remove_values(s.drop_first(), a, lo, hi);
        let tt = spec_remove(s.drop_first(), a);
        assert forall|i: int| 0 <= i < t.len() implies lo <= (#[trigger] t[i]).1 <= hi by {
            if i == 0 {
                assert(t[0] == s[0]);
            } else {
                assert(t[i] == tt[i - 1]);
            }
        }
    }
}

/// Under unique keys, bounds on every lookup give bounds on every entry.
pub proof fn lemma_values_from_get(s: Seq<(Action, i8)>, lo: int, hi: int)
    requires
        keys_unique(s),
        forall|b: Action| match #[trigger] seq_get(s, b) {
            Some(v) => lo <= v <= hi,
            None => true,
        },
    ensures
        values_within(s, lo, hi),
{
    assert forall|i: int| 0 <= i < s.len() implies lo <= (#[trigger] s[i]).1 <= hi by {
        lemma_unique_get_entry(s, i);
        assert(seq_get(s, s[i].0) == Some(s[i].1));
    }
}

} // verus!

verus! {

/// A store none of whose entries carry `a` misses `a` on lookup.
pub proof fn lemma_no_key_absent(s: Seq<(Action, i8)>, a: Action)
    requires
        forall|i: int| 0 <= i < s.len() ==> (#[trigger] s[i]).0 != a,
    ensures
        seq_get(s, a) == None::<i8>,
    decreases s.len(),
{
    if s.len() > 0 {
        assert forall|i: int| 0 <= i < s.drop_first().len() implies (#[trigger] s.drop_first()[i]).0
            != a by {
            assert(s.drop_first()[i] == s[i + 1]);
        }
        lemma_no_key_absent(s.drop_first(), a);
    }
}

/// A key that lookup misses occurs in no entry.
pub proof fn lemma_get_none_no_key(s: Seq<(Action, i8)>, a: Action)
    requires
        keys_unique(s),
        seq_get(s, a) == None::<i8>,
    ensures
        forall|i: int| 0 <= i < s.len() ==> (#[trigger] s[i]).0 != a,
{
    assert forall|i: int| 0 <= i < s.len() implies (#[trigger] s[i]).0 != a by {
        lemma_unique_get_entry(s, i);
    }
}

} // verus!
