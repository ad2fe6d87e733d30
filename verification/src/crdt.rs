//! The replicated store's building block: a last-writer-wins register whose
//! operations carry causal context (a clock and an actor), composed into a
//! keyed map.  Applying an operation is commutative, associative and
//! idempotent, so replicas that see the same set of operations in any order,
//! with any duplicates, converge — proved below.
use vstd::prelude::*;

verus! {

/// One accepted write: its causal clock, the writing actor, and the value.
/// An actor never issues two different operations with the same clock; a
/// removed entity is written back as a tombstone value by its owner type.
pub struct RegEntry<V> {
    pub clock: u64,
    pub actor: u64,
    pub value: V,
}

/// A last-writer-wins register: the winning entry so far, if any write has
/// been seen.
pub struct LwwReg<V> {
    pub entry: Option<RegEntry<V>>,
}

/// `e` dominates `x`: the register keeps `e` when it holds `e` and sees `x`.
pub open spec fn dominates<V>(e: RegEntry<V>, x: RegEntry<V>) -> bool {
    x.clock < e.clock || (x.clock == e.clock && x.actor <= e.actor)
}

/// The register's merge: a new operation replaces the current entry exactly
/// when the current entry does not dominate it.
pub open spec fn spec_apply_entry<V>(cur: Option<RegEntry<V>>, op: RegEntry<V>) -> Option<
    RegEntry<V>,
> {
    match cur {
        None => Some(op),
        Some(c) => if dominates(c, op) {
            Some(c)
        } else {
            Some(op)
        },
    }
}

/// Folding a sequence of operations into a register, in order.
pub open spec fn spec_apply_entry_ops<V>(
    cur: Option<RegEntry<V>>,
    ops: Seq<RegEntry<V>>,
) -> Option<RegEntry<V>>
    decreases ops.len(),
{
    if ops.len() == 0 {
        cur
    } else {
        spec_apply_entry_ops(spec_apply_entry(cur, ops[0]), ops.drop_first())
    }
}

/// No two distinct operations of the set share (clock, actor): what the
/// causal context and signature of a BFT-aware register guarantee.
pub open spec fn entries_coherent<V>(s: Set<RegEntry<V>>) -> bool {
    forall|a: RegEntry<V>, b: RegEntry<V>|
        s.contains(a) && s.contains(b) && a.clock == b.clock && a.actor == b.actor ==> a == b
}

/// The entries a register fold can end on: the initial entry and the
/// operations.
pub open spec fn reg_candidates<V>(init: Option<RegEntry<V>>, s: Set<RegEntry<V>>) -> Set<
    RegEntry<V>,
> {
    match init {
        None => s,
        Some(e) => s.insert(e),
    }
}

proof fn lemma_dominates_trans<V>(a: RegEntry<V>, b: RegEntry<V>, c: RegEntry<V>)
    requires
        dominates(a, b),
        dominates(b, c),
    ensures
        dominates(a, c),
{
}

proof fn lemma_apply_ops_props<V>(init: Option<RegEntry<V>>, ops: Seq<RegEntry<V>>)
    ensures
        match spec_apply_entry_ops(init, ops) {
            None => init is None && ops.len() == 0,
            Some(e) => (init == Some(e) || ops.contains(e)) && (init matches Some(e0)
                ==> dominates(e, e0)) && forall|i: int|
                0 <= i < ops.len() ==> dominates(e, #[trigger] ops[i]),
        },
    decreases ops.len(),
{
    if ops.len() == 0 {
    } else {
        let first = ops[0];
        let mid = spec_apply_entry(init, first);
        lemma_apply_ops_props(mid, ops.drop_first());
        let res = spec_apply_entry_ops(init, ops);
        assert(res == spec_apply_entry_ops(mid, ops.drop_first()));
        match res {
            None => {
                assert(false);
            },
            Some(e) => {
                // membership
                if mid == Some(e) {
                    match init {
                        None => {
                            assert(e == first);
                            assert(ops.contains(e));
                        },
                        Some(c) => {
                            if dominates(c, first) {
                                assert(init == Some(e));
                            } else {
                                assert(e == first);
                                assert(ops.contains(e));
                            }
                        },
                    }
                } else {
                    assert(ops.drop_first().contains(e));
                    let j = choose|j: int|
                        0 <= j < ops.drop_first().len() && ops.drop_first()[j] == e;
                    assert(ops[j + 1] == e);
                    assert(ops.contains(e));
                }
                // dominance over mid's entry
                let m = mid->0;
                assert(dominates(e, m));
                match init {
                    None => {},
                    Some(c) => {
                        if dominates(c, first) {
                            assert(m == c);
                        } else {
                            assert(m == first);
                            assert(dominates(m, c));
                            lemma_dominates_trans(e, m, c);
                        }
                        assert(dominates(e, c));
                    },
                }
                assert(dominates(e, first)) by {
                    match init {
                        None => {
                            assert(m == first);
                        },
                        Some(c) => {
                            if dominates(c, first) {
                                lemma_dominates_trans(e, c, first);
                            } else {
                                assert(m == first);
                            }
                        },
                    }
                }
                assert forall|i: int| 0 <= i < ops.len() implies dominates(
                    e,
                    #[trigger] ops[i],
                ) by {
                    if i == 0 {
                    } else {
                        assert(ops.drop_first()[i - 1] == ops[i]);
                    }
                }
            },
        }
    }
}

/// Convergence of the register: two replicas that fold the same set of
/// operations, in any order and with any duplicates, end in the same state.
pub proof fn lemma_register_convergence<V>(
    init: Option<RegEntry<V>>,
    ops1: Seq<RegEntry<V>>,
    ops2: Seq<RegEntry<V>>,
)
    requires
        ops1.to_set() == ops2.to_set(),
        entries_coherent(reg_candidates(init, ops1.to_set())),
    ensures
        spec_apply_entry_ops(init, ops1) == spec_apply_entry_ops(init, ops2),
{
    lemma_apply_ops_props(init, ops1);
    lemma_apply_ops_props(init, ops2);
    let r1 = spec_apply_entry_ops(init, ops1);
    let r2 = spec_apply_entry_ops(init, ops2);
    if ops1.len() == 0 {
        if ops2.len() > 0 {
            assert(ops2.contains(ops2[0]));
            assert(ops2.to_set().contains(ops2[0]));
            assert(ops1.to_set().contains(ops2[0]));
            assert(ops1.contains(ops2[0]));
            assert(false);
        }
    } else if ops2.len() == 0 {
        assert(ops1.contains(ops1[0]));
        assert(ops1.to_set().contains(ops1[0]));
        assert(ops2.to_set().contains(ops1[0]));
        assert(ops2.contains(ops1[0]));
        assert(false);
    } else {
        let e1 = r1->0;
        let e2 = r2->0;
        let cands = reg_candidates(init, ops1.to_set());
        // both results are candidates
        assert(cands.contains(e1)) by {
            if init == Some(e1) {
            } else {
                assert(ops1.contains(e1));
                assert(ops1.to_set().contains(e1));
            }
        }
        assert(cands.contains(e2)) by {
            if init == Some(e2) {
            } else {
                assert(ops2.contains(e2));
                assert(ops2.to_set().contains(e2));
                assert(ops1.to_set().contains(e2));
            }
        }
        // each dominates the other
        assert(dominates(e1, e2)) by {
            if init == Some(e2) {
            } else {
                assert(ops2.contains(e2));
                assert(ops1.to_set().contains(e2));
                assert(ops1.contains(e2));
                let i = choose|i: int| 0 <= i < ops1.len() && ops1[i] == e2;
                assert(dominates(e1, ops1[i]));
            }
        }
        assert(dominates(e2, e1)) by {
            if init == Some(e1) {
            } else {
                assert(ops1.contains(e1));
                assert(ops2.to_set().contains(e1));
                assert(ops2.contains(e1));
                let i = choose|i: int| 0 <= i < ops2.len() && ops2[i] == e1;
                assert(dominates(e2, ops2[i]));
            }
        }
        assert(e1.clock == e2.clock && e1.actor == e2.actor);
        assert(e1 == e2);
    }
}

impl<V> LwwReg<V> {
    /// A register that has seen no write.
    pub fn new() -> (r: LwwReg<V>)
        ensures
            r.entry is None,
    {
        LwwReg { entry: None }
    }

    /// Applies one operation: the register's merge.
    pub fn apply(&mut self, op: RegEntry<V>)
        ensures
            final (self).entry == spec_apply_entry(old(self).entry, op),
    {
        let take_it = match &self.entry {
            None => true,
            Some(c) => c.clock < op.clock || (c.clock == op.clock && c.actor < op.actor),
        };
        if take_it {
            self.entry = Some(op);
        }
    }
}

/// One operation against a keyed map: which register it addresses, and the
/// register operation itself.
pub struct MapOp<V> {
    pub key: String,
    pub op: RegEntry<V>,
}

/// A keyed collection of registers; each key appears at most once.
pub struct StateMap<V> {
    pub entries: Vec<(String, LwwReg<V>)>,
}

/// The index of a key among the map's entries, or -1 when absent.
pub open spec fn spec_key_index<V>(entries: Seq<(String, LwwReg<V>)>, key: Seq<char>) -> int
    decreases entries.len(),
{
    if entries.len() == 0 {
        -1
    } else if entries[0].0@ == key {
        0
    } else {
        let rest = spec_key_index(entries.drop_first(), key);
        if rest < 0 {
            -1
        } else {
            rest + 1
        }
    }
}

/// The register entry a map holds at a key; None when the key has never been
/// written.
pub open spec fn spec_map_reg<V>(m: StateMap<V>, key: Seq<char>) -> Option<RegEntry<V>> {
    let i = spec_key_index(m.entries@, key);
    if i < 0 {
        None
    } else {
        m.entries@[i].1.entry
    }
}

/// Every key appears at most once.
pub open spec fn map_well_formed<V>(m: StateMap<V>) -> bool {
    forall|i: int, j: int|
        0 <= i < j < m.entries@.len() ==> (#[trigger] m.entries@[i].0)@ != (
        #[trigger] m.entries@[j].0)@
}

/// The operations of a sequence that address one key, in order.
pub open spec fn ops_for_key<V>(ops: Seq<(Seq<char>, RegEntry<V>)>, k: Seq<char>) -> Seq<
    RegEntry<V>,
>
    decreases ops.len(),
{
    if ops.len() == 0 {
        Seq::empty()
    } else {
        let rest = ops_for_key(ops.drop_first(), k);
        if ops[0].0 == k {
            seq![ops[0].1] + rest
        } else {
            rest
        }
    }
}

/// A sequence of map operations, seen as (key, entry) pairs.
pub open spec fn map_ops_view<V>(ops: Seq<MapOp<V>>) -> Seq<(Seq<char>, RegEntry<V>)> {
    ops.map(|i: int, o: MapOp<V>| (o.key@, o.op))
}

proof fn lemma_ops_for_key_contains<V>(
    ops: Seq<(Seq<char>, RegEntry<V>)>,
    k: Seq<char>,
    e: RegEntry<V>,
)
    ensures
        ops_for_key(ops, k).contains(e) <==> ops.contains((k, e)),
    decreases ops.len(),
{
    if ops.len() == 0 {
    } else {
        lemma_ops_for_key_contains(ops.drop_first(), k, e);
        let rest = ops_for_key(ops.drop_first(), k);
        if ops[0].0 == k {
            let whole = seq![ops[0].1] + rest;
            assert(ops_for_key(ops, k) == whole);
            if whole.contains(e) {
                let i = choose|i: int| 0 <= i < whole.len() && whole[i] == e;
                if i == 0 {
                    assert(ops[0] == (k, e));
                    assert(ops.contains((k, e)));
                } else {
                    assert(rest[i - 1] == e);
                    assert(rest.contains(e));
                    assert(ops.drop_first().contains((k, e)));
                    let j = choose|j: int|
                        0 <= j < ops.drop_first().len() && ops.drop_first()[j] == (k, e);
                    assert(ops[j + 1] == (k, e));
                    assert(ops.contains((k, e)));
                }
            }
            if ops.contains((k, e)) {
                let i = choose|i: int| 0 <= i < ops.len() && ops[i] == (k, e);
                if i == 0 {
                    assert(whole[0] == e);
                    assert(whole.contains(e));
                } else {
                    assert(ops.drop_first()[i - 1] == (k, e));
                    assert(ops.drop_first().contains((k, e)));
                    assert(rest.contains(e));
                    let j = choose|j: int| 0 <= j < rest.len() && rest[j] == e;
                    assert(whole[j + 1] == e);
                    assert(whole.contains(e));
                }
            }
        } else {
            if rest.contains(e) {
                assert(ops.drop_first().contains((k, e)));
                let j = choose|j: int|
                    0 <= j < ops.drop_first().len() && ops.drop_first()[j] == (k, e);
                assert(ops[j + 1] == (k, e));
                assert(ops.contains((k, e)));
            }
            if ops.contains((k, e)) {
                let i = choose|i: int| 0 <= i < ops.len() && ops[i] == (k, e);
                assert(i != 0);
                assert(ops.drop_first()[i - 1] == (k, e));
                assert(ops.drop_first().contains((k, e)));
            }
        }
    }
}

/// Convergence of the keyed map, stated at one key: replicas that see the
/// same set of (key, operation) pairs, in any order with any duplicates,
/// hold the same register at every key.
pub proof fn lemma_map_convergence<V>(
    init: Option<RegEntry<V>>,
    ops1: Seq<(Seq<char>, RegEntry<V>)>,
    ops2: Seq<(Seq<char>, RegEntry<V>)>,
    k: Seq<char>,
)
    requires
        ops1.to_set() == ops2.to_set(),
        entries_coherent(reg_candidates(init, ops_for_key(ops1, k).to_set())),
    ensures
        spec_apply_entry_ops(init, ops_for_key(ops1, k)) == spec_apply_entry_ops(
            init,
            ops_for_key(ops2, k),
        ),
{
    assert forall|e: RegEntry<V>| true implies (ops_for_key(ops1, k).to_set().contains(e)
        <==> ops_for_key(ops2, k).to_set().contains(e)) by {
        lemma_ops_for_key_contains(ops1, k, e);
        lemma_ops_for_key_contains(ops2, k, e);
        assert(ops1.contains((k, e)) <==> ops1.to_set().contains((k, e)));
        assert(ops2.contains((k, e)) <==> ops2.to_set().contains((k, e)));
    }
    assert(ops_for_key(ops1, k).to_set() =~= ops_for_key(ops2, k).to_set());
    lemma_register_convergence(init, ops_for_key(ops1, k), ops_for_key(ops2, k));
}

pub proof fn lemma_key_index_bounds<V>(entries: Seq<(String, LwwReg<V>)>, key: Seq<char>)
    ensures
        -1 <= spec_key_index(entries, key) < entries.len(),
        spec_key_index(entries, key) >= 0 ==> entries[spec_key_index(entries, key)].0@ == key,
    decreases entries.len(),
{
    if entries.len() > 0 && entries[0].0@ != key {
        lemma_key_index_bounds(entries.drop_first(), key);
    }
}

proof fn lemma_key_index_of_match<V>(entries: Seq<(String, LwwReg<V>)>, key: Seq<char>, i: int)
    requires
        0 <= i < entries.len(),
        entries[i].0@ == key,
        forall|k: int| 0 <= k < i ==> (#[trigger] entries[k].0)@ != key,
    ensures
        spec_key_index(entries, key) == i,
    decreases i,
{
    if i == 0 {
    } else {
        assert(entries.drop_first()[i - 1] == entries[i]);
        assert(forall|k: int|
            0 <= k < i - 1 ==> (#[trigger] entries.drop_first()[k].0)@ == entries[k + 1].0@);
        lemma_key_index_of_match(entries.drop_first(), key, i - 1);
    }
}

proof fn lemma_key_index_of_none<V>(entries: Seq<(String, LwwReg<V>)>, key: Seq<char>)
    requires
        forall|k: int| 0 <= k < entries.len() ==> (#[trigger] entries[k].0)@ != key,
    ensures
        spec_key_index(entries, key) == -1,
    decreases entries.len(),
{
    if entries.len() > 0 {
        assert(forall|k: int|
            0 <= k < entries.len() - 1 ==> (#[trigger] entries.drop_first()[k].0)@ == entries[k
                + 1].0@);
        lemma_key_index_of_none(entries.drop_first(), key);
    }
}

proof fn lemma_key_index_stable<V>(
    pre: Seq<(String, LwwReg<V>)>,
    post: Seq<(String, LwwReg<V>)>,
    key: Seq<char>,
)
    requires
        pre.len() == post.len(),
        forall|k: int| 0 <= k < pre.len() ==> (#[trigger] post[k].0)@ == pre[k].0@,
    ensures
        spec_key_index(post, key) == spec_key_index(pre, key),
    decreases pre.len(),
{
    if pre.len() > 0 {
        assert(forall|k: int|
            0 <= k < pre.len() - 1 ==> (#[trigger] post.drop_first()[k].0)@ == post[k + 1].0@ && (
            #[trigger] pre.drop_first()[k].0)@ == pre[k + 1].0@);
        lemma_key_index_stable(pre.drop_first(), post.drop_first(), key);
    }
}

proof fn lemma_key_index_push_other<V>(
    pre: Seq<(String, LwwReg<V>)>,
    t: (String, LwwReg<V>),
    key: Seq<char>,
)
    requires
        t.0@ != key,
    ensures
        spec_key_index(pre.push(t), key) == spec_key_index(pre, key),
    decreases pre.len(),
{
    if pre.len() == 0 {
        assert(pre.push(t)[0] == t);
        assert(pre.push(t).drop_first() =~= Seq::<(String, LwwReg<V>)>::empty());
        assert(spec_key_index(Seq::<(String, LwwReg<V>)>::empty(), key) == -1);
        assert(spec_key_index(pre.push(t), key) == -1);
    } else {
        assert(pre.push(t)[0] == pre[0]);
        assert(pre.push(t).drop_first() =~= pre.drop_first().push(t));
        lemma_key_index_push_other(pre.drop_first(), t, key);
        assert(spec_key_index(pre.push(t).drop_first(), key) == spec_key_index(
            pre.drop_first(),
            key,
        ));
    }
}

impl<V> StateMap<V> {
    /// An empty map.
    pub fn new() -> (r: StateMap<V>)
        ensures
            map_well_formed(r),
            r.entries@.len() == 0,
    {
        StateMap { entries: Vec::new() }
    }

    /// The index of a key, if present.
    pub fn find_key(&self, key: &str) -> (r: Option<usize>)
        ensures
            r matches Some(i) ==> (i as int) < self.entries@.len() && self.entries@[i as int].0@
                == key@ && spec_key_index(self.entries@, key@) == i as int,
            r is None ==> spec_key_index(self.entries@, key@) == -1 && forall|k: int|
                0 <= k < self.entries@.len() ==> (#[trigger] self.entries@[k].0)@ != key@,
    {
        let mut i: usize = 0;
        while i < self.entries.len()
            invariant
                i <= self.entries@.len(),
                forall|k: int| 0 <= k < i ==> (#[trigger] self.entries@[k].0)@ != key@,
            decreases self.entries@.len() - i,
        {
            if crate::strutil::str_eq(self.entries[i].0.as_str(), key) {
                proof {
                    lemma_key_index_of_match(self.entries@, key@, i as int);
                }
                return Some(i);
            }
            i = i + 1;
        }
        proof {
            lemma_key_index_of_none(self.entries@, key@);
        }
        None
    }

    /// The register entry at a key, if any write has reached it.
    pub fn get_entry(&self, key: &str) -> (r: Option<&RegEntry<V>>)
        ensures
            match r {
                Some(e) => spec_map_reg(*self, key@) == Some(*e),
                None => spec_map_reg(*self, key@) is None,
            },
    {
        match self.find_key(key) {
            Some(i) => {
                match &self.entries[i].1.entry {
                    Some(e) => Some(e),
                    None => None,
                }
            },
            None => None,
        }
    }

    /// Applies one operation to the register at its key, creating the
    /// register on first contact.  No other key changes.
    pub fn apply(&mut self, op: MapOp<V>)
        requires
            map_well_formed(*old(self)),
        ensures
            map_well_formed(*final(self)),
            spec_map_reg(*final(self), op.key@) == spec_apply_entry(
                spec_map_reg(*old(self), op.key@),
                op.op,
            ),
            forall|h: Seq<char>|
                h != op.key@ ==> #[trigger] spec_map_reg(*final(self), h) == spec_map_reg(
                    *old(self),
                    h,
                ),
    {
        let ghost pre = *self;
        let MapOp { key, op } = op;
        match self.find_key(key.as_str()) {
            Some(i) => {
                let reg = &mut self.entries[i].1;
                reg.apply(op);
                proof {
                    assert(self.entries@.len() == pre.entries@.len());
                    assert(forall|k: int|
                        0 <= k < self.entries@.len() && k != i ==> self.entries@[k]
                            == pre.entries@[k]);
                    assert(forall|k: int|
                        0 <= k < self.entries@.len() ==> (#[trigger] self.entries@[k].0)@
                            == pre.entries@[k].0@);
                    assert forall|h: Seq<char>| true implies #[trigger] spec_key_index(
                        self.entries@,
                        h,
                    ) == spec_key_index(pre.entries@, h) by {
                        lemma_key_index_stable(pre.entries@, self.entries@, h);
                    }
                    assert forall|h: Seq<char>| h != key@ implies #[trigger] spec_map_reg(
                        *self,
                        h,
                    ) == spec_map_reg(pre, h) by {
                        lemma_key_index_bounds(pre.entries@, h);
                        let j = spec_key_index(pre.entries@, h);
                        if j >= 0 {
                            assert(j != i as int);
                        }
                    }
                }
            },
            None => {
                let mut reg: LwwReg<V> = LwwReg::new();
                reg.apply(op);
                let ghost new_key = key@;
                self.entries.push((key, reg));
                proof {
                    let n = pre.entries@.len() as int;
                    assert(self.entries@ =~= pre.entries@.push(self.entries@[n]));
                    assert(self.entries@[n].0@ == new_key);
                    assert(forall|k: int| 0 <= k < n ==> self.entries@[k] == pre.entries@[k]);
                    lemma_key_index_of_match(self.entries@, new_key, n);
                    assert(spec_map_reg(pre, new_key) is None);
                    assert forall|h: Seq<char>| h != new_key implies #[trigger] spec_map_reg(
                        *self,
                        h,
                    ) == spec_map_reg(pre, h) by {
                        lemma_key_index_push_other(pre.entries@, self.entries@[n], h);
                        lemma_key_index_bounds(pre.entries@, h);
                    }
                }
            },
        }
    }

    /// Applies a batch in order.  The register at every key ends as the fold
    /// of the batch's operations for that key.
    pub fn apply_ops(&mut self, ops: Vec<MapOp<V>>)
        requires
            map_well_formed(*old(self)),
        ensures
            map_well_formed(*final(self)),
            forall|h: Seq<char>|
                #[trigger] spec_map_reg(*final(self), h) == spec_apply_entry_ops(
                    spec_map_reg(*old(self), h),
                    ops_for_key(map_ops_view(ops@), h),
                ),
    {
        let ghost all = map_ops_view(ops@);
        let ghost pre = *self;
        let mut rest = ops;
        while rest.len() > 0
            invariant
                map_well_formed(*self),
                forall|h: Seq<char>|
                    #[trigger] spec_apply_entry_ops(
                        spec_map_reg(*self, h),
                        ops_for_key(map_ops_view(rest@), h),
                    ) == spec_apply_entry_ops(spec_map_reg(pre, h), ops_for_key(all, h)),
            decreases rest@.len(),
        {
            let ghost rest_pre = rest@;
            let ghost state_pre = *self;
            let op = rest.remove(0);
            self.apply(op);
            proof {
                assert forall|h: Seq<char>| true implies #[trigger] spec_apply_entry_ops(
                    spec_map_reg(*self, h),
                    ops_for_key(map_ops_view(rest@), h),
                ) == spec_apply_entry_ops(spec_map_reg(pre, h), ops_for_key(all, h)) by {
                    let prev_view = map_ops_view(rest_pre);
                    assert(map_ops_view(rest@) =~= prev_view.drop_first());
                    assert(prev_view[0] == (op.key@, op.op));
                    if h == op.key@ {
                        let folded = ops_for_key(prev_view, h);
                        assert(folded == seq![op.op] + ops_for_key(prev_view.drop_first(), h));
                        assert(folded[0] == op.op);
                        assert(folded.drop_first() =~= ops_for_key(prev_view.drop_first(), h));
                        assert(spec_apply_entry_ops(spec_map_reg(state_pre, h), folded)
                            == spec_apply_entry_ops(
                            spec_apply_entry(spec_map_reg(state_pre, h), op.op),
                            ops_for_key(prev_view.drop_first(), h),
                        ));
                        assert(spec_map_reg(*self, h) == spec_apply_entry(
                            spec_map_reg(state_pre, h),
                            op.op,
                        ));
                    } else {
                        assert(ops_for_key(prev_view, h) == ops_for_key(
                            prev_view.drop_first(),
                            h,
                        ));
                        assert(spec_map_reg(*self, h) == spec_map_reg(state_pre, h));
                    }
                }
            }
        }
        proof {
            assert forall|h: Seq<char>| true implies #[trigger] spec_map_reg(*self, h)
                == spec_apply_entry_ops(spec_map_reg(pre, h), ops_for_key(all, h)) by {
                assert(map_ops_view(rest@) =~= Seq::<(Seq<char>, RegEntry<V>)>::empty());
                assert(ops_for_key(map_ops_view(rest@), h) =~= Seq::<RegEntry<V>>::empty());
                assert(spec_apply_entry_ops(
                    spec_map_reg(*self, h),
                    ops_for_key(map_ops_view(rest@), h),
                ) == spec_map_reg(*self, h));
            }
        }
    }
}

} // verus!
