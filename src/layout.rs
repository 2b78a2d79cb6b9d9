use vstd::prelude::*;
use crate::assoc::{index_of, lemma_index_of_scan, lemma_put_absent, put};
use vstd::string::StringExecFns;
use crate::rarity::Rarity;

verus! {

/// A rarity with a count: copies of it in a raw slot, or cards of it in a
/// finished layout.
#[derive(Clone, Copy, Debug, PartialEq, Eq, Hash, Structural)]
pub struct SlotValue {
    pub rarity: Rarity,
    pub count: i32,
}

/// A pack position filled by one of its values.
#[derive(Clone, Debug)]
pub struct Slot {
    pub values: Vec<SlotValue>,
}

/// A finished pack recipe: a selection weight and the cards of each rarity.
#[derive(Clone, Debug)]
pub struct Layout {
    pub weight: i32,
    pub slots: Vec<SlotValue>,
}

impl View for Layout {
    type V = (i32, Seq<SlotValue>);

    open spec fn view(&self) -> (i32, Seq<SlotValue>) {
        (self.weight, self.slots@)
    }
}

/// A slot that always yields one rarity.
pub fn s(rarity: Rarity) -> (r: Slot)
    ensures
        r.values@ == seq![SlotValue { rarity, count: 1 }],
{
    Slot { values: vec![SlotValue { rarity, count: 1 }] }
}

/// The rare-or-mythic slot: seven rares printed for each mythic.
pub fn rare() -> (r: Slot)
    ensures
        r.values@ == seq![
            SlotValue { rarity: Rarity::Rare, count: 7 },
            SlotValue { rarity: Rarity::Mythic, count: 1 },
        ],
{
    Slot {
        values: vec![
            SlotValue { rarity: Rarity::Rare, count: 7 },
            SlotValue { rarity: Rarity::Mythic, count: 1 },
        ],
    }
}

/// Whether two slots hold the same values in the same order.
fn same_values(a: &Vec<SlotValue>, b: &Vec<SlotValue>) -> (r: bool)
    ensures
        r == (a@ == b@),
{
    if a.len() != b.len() {
        return false;
    }
    let mut i: usize = 0;
    while i < a.len()
        invariant
            a@.len() == b@.len(),
            i <= a@.len(),
            forall|j: int| 0 <= j < i ==> a@[j] == b@[j],
        decreases a@.len() - i,
    {
        if a[i] != b[i] {
            return false;
        }
        i = i + 1;
    }
    assert(a@ =~= b@);
    true
}

/// Slots and how many instances of each a pack holds; each slot shape once.
pub struct RawLayout {
    entries: Vec<(Slot, i32)>,
}

impl View for RawLayout {
    type V = Seq<(Seq<SlotValue>, i32)>;

    closed spec fn view(&self) -> Seq<(Seq<SlotValue>, i32)> {
        Seq::new(self.entries@.len(), |i: int| (self.entries@[i].0.values@, self.entries@[i].1))
    }
}

impl RawLayout {
    /// A raw layout with no slots.
    pub fn new() -> (r: RawLayout)
        ensures
            r@ == Seq::<(Seq<SlotValue>, i32)>::empty(),
    {
        let r = RawLayout { entries: Vec::new() };
        assert(r@ =~= Seq::<(Seq<SlotValue>, i32)>::empty());
        r
    }

    /// Binds `slot` to `count`; a slot of the same shape already present keeps
    /// its place and takes the new count.
    pub fn insert(&mut self, slot: Slot, count: i32)
        ensures
            final(self)@ == put(old(self)@, slot.values@, count),
    {
        let ghost k = slot.values@;
        let mut i: usize = 0;
        while i < self.entries.len()
            invariant
                self == old(self),
                slot.values@ == k,
                i <= self@.len(),
                self@.len() == self.entries@.len(),
                forall|j: int| 0 <= j < i ==> self@[j].0 != k,
            decreases self.entries@.len() - i,
        {
            assert(self@[i as int].0 == self.entries@[i as int].0.values@);
            if same_values(&self.entries[i].0.values, &slot.values) {
                proof {
                    lemma_index_of_scan(self@, k, i as int);
                }
                let ghost before = self@;
                let ghost old_entries = self.entries@;
                self.entries.set(i, (slot, count));
                assert(self.entries@ == old_entries.update(i as int, (slot, count)));
                assert(self.entries@[i as int].0.values@ == k);
                assert(self@.len() == before.len());
                assert forall|j: int| 0 <= j < before.len() implies self@[j] == before.update(i as int, (k, count))[j] by {
                    if j != i {
                        assert(self.entries@[j] == old_entries[j]);
                    }
                }
                assert(self@ =~= before.update(i as int, (k, count)));
                return;
            }
            i = i + 1;
        }
        proof {
            lemma_index_of_scan(self@, k, i as int);
        }
        self.entries.push((slot, count));
        assert(self@ =~= put(old(self)@, k, count));
    }

    /// Number of slots.
    pub fn len(&self) -> (r: usize)
        ensures
            r == self@.len(),
    {
        self.entries.len()
    }
}

/// Layouts keyed by the rarity whose name they carry, in insertion order.
pub struct Layouts {
    value: Vec<(Rarity, Layout)>,
}

impl View for Layouts {
    type V = Seq<(Rarity, (i32, Seq<SlotValue>))>;

    closed spec fn view(&self) -> Seq<(Rarity, (i32, Seq<SlotValue>))> {
        Seq::new(self.value@.len(), |i: int| (self.value@[i].0, self.value@[i].1@))
    }
}

/// The only failure of expansion: more than one slot offers a choice.
#[derive(Clone, Copy, Debug, PartialEq, Eq, Structural)]
pub enum ConfigurationError {
    MultipleVariableSlots,
}

/// Rarity to instance count of every single-valued slot of `raw`, in order of
/// first appearance; a later slot of the same rarity sets the count.
pub open spec fn singleton_table(raw: Seq<(Seq<SlotValue>, i32)>) -> Seq<(Rarity, i32)>
    decreases raw.len(),
{
    if raw.len() == 0 {
        Seq::empty()
    } else {
        let t = singleton_table(raw.drop_last());
        let e = raw.last();
        if e.0.len() == 1 {
            put(t, e.0[0].rarity, e.1)
        } else {
            t
        }
    }
}

/// Number of slots of `raw` that offer more than one value.
pub open spec fn variable_count(raw: Seq<(Seq<SlotValue>, i32)>) -> nat
    decreases raw.len(),
{
    if raw.len() == 0 {
        0
    } else {
        variable_count(raw.drop_last()) + if raw.last().0.len() > 1 {
            1nat
        } else {
            0nat
        }
    }
}

/// Number of single-valued slots of `raw`.
pub open spec fn singleton_count(raw: Seq<(Seq<SlotValue>, i32)>) -> nat
    decreases raw.len(),
{
    if raw.len() == 0 {
        0
    } else {
        singleton_count(raw.drop_last()) + if raw.last().0.len() == 1 {
            1nat
        } else {
            0nat
        }
    }
}

/// Position of the first slot of `raw` that offers more than one value.
pub open spec fn variable_index(raw: Seq<(Seq<SlotValue>, i32)>) -> int
    decreases raw.len(),
{
    if raw.len() == 0 {
        0
    } else if variable_count(raw.drop_last()) > 0 {
        variable_index(raw.drop_last())
    } else {
        raw.len() - 1
    }
}

/// The singleton table as slot values.
pub open spec fn table_slots(t: Seq<(Rarity, i32)>) -> Seq<SlotValue> {
    t.map_values(|e: (Rarity, i32)| SlotValue { rarity: e.0, count: e.1 })
}

/// The layout for choosing `v` in a variable slot of `n` instances.
pub open spec fn layout_for(v: SlotValue, n: i32, t: Seq<(Rarity, i32)>) -> (i32, Seq<SlotValue>) {
    (v.count, seq![SlotValue { rarity: v.rarity, count: n }] + table_slots(t))
}

/// One layout per value of the variable slot, keyed by its rarity.
pub open spec fn expand_values(vals: Seq<SlotValue>, n: i32, t: Seq<(Rarity, i32)>) -> Seq<
    (Rarity, (i32, Seq<SlotValue>)),
>
    decreases vals.len(),
{
    if vals.len() == 0 {
        Seq::empty()
    } else {
        put(expand_values(vals.drop_last(), n, t), vals.last().rarity, layout_for(vals.last(), n, t))
    }
}

/// What expanding `raw` gives: `None` where two or more slots offer a choice,
/// no layouts where none does.
pub open spec fn expand(raw: Seq<(Seq<SlotValue>, i32)>) -> Option<
    Seq<(Rarity, (i32, Seq<SlotValue>))>,
> {
    if variable_count(raw) > 1 {
        None
    } else if variable_count(raw) == 0 {
        Some(Seq::empty())
    } else {
        let e = raw[variable_index(raw)];
        Some(expand_values(e.0, e.1, singleton_table(raw)))
    }
}

/// Binds `k` to `v` in an association vector.
fn put_count(s: &mut Vec<(Rarity, i32)>, k: Rarity, v: i32)
    ensures
        final(s)@ == put(old(s)@, k, v),
{
    let mut i: usize = 0;
    while i < s.len()
        invariant
            s == old(s),
            i <= s@.len(),
            forall|j: int| 0 <= j < i ==> s@[j].0 != k,
        decreases s@.len() - i,
    {
        if s[i].0 == k {
            proof {
                lemma_index_of_scan(s@, k, i as int);
            }
            s.set(i, (k, v));
            return;
        }
        i = i + 1;
    }
    proof {
        lemma_index_of_scan(s@, k, i as int);
    }
    s.push((k, v));
}

impl Layouts {
    /// No layouts.
    pub fn new() -> (r: Layouts)
        ensures
            r@ == Seq::<(Rarity, (i32, Seq<SlotValue>))>::empty(),
    {
        let r = Layouts { value: Vec::new() };
        assert(r@ =~= Seq::<(Rarity, (i32, Seq<SlotValue>))>::empty());
        r
    }

    /// Binds the layout named after `k`; an existing one of that name is replaced in place.
    pub fn insert(&mut self, k: Rarity, layout: Layout)
        ensures
            final(self)@ == put(old(self)@, k, layout@),
    {
        let ghost lv = layout@;
        let mut i: usize = 0;
        while i < self.value.len()
            invariant
                self == old(self),
                layout@ == lv,
                i <= self@.len(),
                self@.len() == self.value@.len(),
                forall|j: int| 0 <= j < i ==> self@[j].0 != k,
            decreases self.value@.len() - i,
        {
            assert(self@[i as int].0 == self.value@[i as int].0);
            if self.value[i].0 == k {
                proof {
                    lemma_index_of_scan(self@, k, i as int);
                }
                let ghost before = self@;
                let ghost old_value = self.value@;
                self.value.set(i, (k, layout));
                assert forall|j: int| 0 <= j < before.len() implies self@[j] == before.update(
                    i as int,
                    (k, lv),
                )[j] by {
                    if j != i {
                        assert(self.value@[j] == old_value[j]);
                    }
                }
                assert(self@ =~= before.update(i as int, (k, lv)));
                return;
            }
            i = i + 1;
        }
        proof {
            lemma_index_of_scan(self@, k, i as int);
        }
        let ghost before = self@;
        self.value.push((k, layout));
        assert(self@ =~= before.push((k, lv)));
    }

    /// Number of layouts.
    pub fn len(&self) -> (r: usize)
        ensures
            r == self@.len(),
    {
        self.value.len()
    }

    /// The rarity naming the layout at position `i`, and that layout.
    pub fn entry(&self, i: usize) -> (r: (Rarity, &Layout))
        requires
            i < self@.len(),
        ensures
            r.0 == self@[i as int].0,
            r.1@ == self@[i as int].1,
    {
        (self.value[i].0, &self.value[i].1)
    }

    /// The layout named after `k`, if any.
    pub fn get(&self, k: Rarity) -> (r: Option<&Layout>)
        ensures
            index_of(self@, k) < 0 ==> r is None,
            index_of(self@, k) >= 0 ==> (r matches Some(l) && l@ == self@[index_of(self@, k)].1),
    {
        let mut i: usize = 0;
        while i < self.value.len()
            invariant
                i <= self@.len(),
                self@.len() == self.value@.len(),
                forall|j: int| 0 <= j < i ==> self@[j].0 != k,
            decreases self.value@.len() - i,
        {
            assert(self@[i as int].0 == self.value@[i as int].0);
            if self.value[i].0 == k {
                proof {
                    lemma_index_of_scan(self@, k, i as int);
                }
                return Some(&self.value[i].1);
            }
            i = i + 1;
        }
        proof {
            lemma_index_of_scan(self@, k, i as int);
        }
        None
    }
}

/// Expands a raw layout into one named layout per value of its variable slot;
/// each carries that value's count as weight, then the value's rarity at the
/// slot's instance count, then every single-valued slot's rarity and count.
pub fn unfurl_layout(raw_layout: RawLayout) -> (r: Result<Layouts, ConfigurationError>)
    ensures
        expand(raw_layout@) is None ==> r == Err::<Layouts, ConfigurationError>(
            ConfigurationError::MultipleVariableSlots,
        ),
        expand(raw_layout@) matches Some(ls) ==> (r matches Ok(l) && l@ == ls),
{
    let ghost raw = raw_layout@;
    let mut singles: Vec<(Rarity, i32)> = Vec::new();
    let mut nvar: usize = 0;
    let mut vi: usize = 0;
    let mut i: usize = 0;
    while i < raw_layout.entries.len()
        invariant
            raw == raw_layout@,
            raw.len() == raw_layout.entries@.len(),
            i <= raw.len(),
            singles@ == singleton_table(raw.take(i as int)),
            nvar == variable_count(raw.take(i as int)),
            nvar <= i,
            nvar > 0 ==> vi == variable_index(raw.take(i as int)) && vi < i,
        decreases raw.len() - i,
    {
        assert(raw.take(i + 1) =~= raw.take(i as int).push(raw[i as int]));
        assert(raw.take(i + 1).drop_last() =~= raw.take(i as int));
        assert(raw[i as int].0 == raw_layout.entries@[i as int].0.values@);
        let n = raw_layout.entries[i].0.values.len();
        if n == 1 {
            put_count(&mut singles, raw_layout.entries[i].0.values[0].rarity, raw_layout.entries[i].1);
        }
        if n > 1 {
            if nvar == 0 {
                vi = i;
            }
            nvar = nvar + 1;
        }
        i = i + 1;
    }
    assert(raw.take(i as int) =~= raw);
    if nvar > 1 {
        return Err(ConfigurationError::MultipleVariableSlots);
    }
    let mut layouts = Layouts::new();
    if nvar == 0 {
        return Ok(layouts);
    }
    let vals = &raw_layout.entries[vi].0.values;
    let n = raw_layout.entries[vi].1;
    assert(raw[vi as int].0 == vals@);
    let ghost t = singles@;
    let mut j: usize = 0;
    while j < vals.len()
        invariant
            singles@ == t,
            j <= vals@.len(),
            layouts@ == expand_values(vals@.take(j as int), n, t),
        decreases vals@.len() - j,
    {
        let v = vals[j];
        let mut slots: Vec<SlotValue> = Vec::new();
        slots.push(SlotValue { rarity: v.rarity, count: n });
        let mut k: usize = 0;
        while k < singles.len()
            invariant
                singles@ == t,
                k <= t.len(),
                slots@ == seq![SlotValue { rarity: v.rarity, count: n }] + table_slots(t.take(k as int)),
            decreases t.len() - k,
        {
            slots.push(SlotValue { rarity: singles[k].0, count: singles[k].1 });
            k = k + 1;
            assert(table_slots(t.take(k as int)) =~= table_slots(t.take(k - 1)).push(
                SlotValue { rarity: t[k - 1].0, count: t[k - 1].1 },
            ));
        }
        assert(t.take(k as int) =~= t);
        layouts.insert(v.rarity, Layout { weight: v.count, slots });
        j = j + 1;
        assert(vals@.take(j as int).drop_last() =~= vals@.take(j - 1));
    }
    assert(vals@.take(j as int) =~= vals@);
    Ok(layouts)
}

/// The raw layout of a pack with `commons`, `uncommons` and `specials`
/// single-valued slots (no special slot where that is 0) and one rare-or-mythic slot.
pub open spec fn pack_layout(commons: i32, uncommons: i32, specials: i32) -> Seq<(Seq<SlotValue>, i32)> {
    let base = seq![
        (seq![SlotValue { rarity: Rarity::Common, count: 1 }], commons),
        (seq![SlotValue { rarity: Rarity::Uncommon, count: 1 }], uncommons),
        (
            seq![
                SlotValue { rarity: Rarity::Rare, count: 7 },
                SlotValue { rarity: Rarity::Mythic, count: 1 },
            ],
            1i32,
        ),
    ];
    if specials == 0 {
        base
    } else {
        base.push((seq![SlotValue { rarity: Rarity::Special, count: 1 }], specials))
    }
}

/// The raw layout used for a cube: `garbagemasters` has eleven commons, four
/// uncommons, a rare-or-mythic slot and two specials; every other cube has
/// eleven commons, three uncommons and a rare-or-mythic slot.
pub open spec fn cube_layout(cube_id: Seq<char>) -> Seq<(Seq<SlotValue>, i32)> {
    if cube_id == "garbagemasters"@ {
        pack_layout(11, 4, 2)
    } else {
        pack_layout(11, 3, 0)
    }
}

/// The raw layout for a cube identifier.
pub fn get_layout(cube_id: &str) -> (r: RawLayout)
    ensures
        r@ == cube_layout(cube_id@),
{
    let mut res = RawLayout::new();
    let c = s(Rarity::Common);
    let u = s(Rarity::Uncommon);
    let rm = rare();
    let ghost s0 = res@;
    res.insert(c, 11);
    proof {
        lemma_put_absent(s0, c.values@, 11i32);
    }
    let ghost s1 = res@;
    let special = cube_id.to_owned() == String::from_str("garbagemasters");
    if special {
        res.insert(u, 4);
    } else {
        res.insert(u, 3);
    }
    proof {
        assert(s1[0].0[0] != u.values@[0]);
        lemma_put_absent(s1, u.values@, if special { 4i32 } else { 3i32 });
    }
    let ghost s2 = res@;
    res.insert(rm, 1);
    proof {
        assert(s2[0].0.len() != rm.values@.len());
        assert(s2[1].0.len() != rm.values@.len());
        lemma_put_absent(s2, rm.values@, 1i32);
    }
    if special {
        let sp = s(Rarity::Special);
        let ghost s3 = res@;
        res.insert(sp, 2);
        proof {
            assert(s3[0].0[0] != sp.values@[0]);
            assert(s3[1].0[0] != sp.values@[0]);
            assert(s3[2].0.len() != sp.values@.len());
            lemma_put_absent(s3, sp.values@, 2i32);
        }
    }
    assert(res@ =~= cube_layout(cube_id@));
    res
}

/// Whether the values of a slot name pairwise different rarities.
pub open spec fn distinct_rarities(vals: Seq<SlotValue>) -> bool {
    forall|i: int, j: int| 0 <= i < j < vals.len() ==> vals[i].rarity != vals[j].rarity
}

/// Whether the single-valued slots of `raw` name pairwise different rarities.
pub open spec fn distinct_singletons(raw: Seq<(Seq<SlotValue>, i32)>) -> bool {
    forall|i: int, j: int|
        0 <= i < j < raw.len() && raw[i].0.len() == 1 && raw[j].0.len() == 1 ==> raw[i].0[0].rarity
            != raw[j].0[0].rarity
}

proof fn lemma_expand_values_distinct(vals: Seq<SlotValue>, n: i32, t: Seq<(Rarity, i32)>)
    requires
        distinct_rarities(vals),
    ensures
        expand_values(vals, n, t).len() == vals.len(),
        forall|j: int|
            0 <= j < vals.len() ==> #[trigger] expand_values(vals, n, t)[j] == (
                vals[j].rarity,
                layout_for(vals[j], n, t),
            ),
    decreases vals.len(),
{
    if vals.len() > 0 {
        let p = vals.drop_last();
        assert(distinct_rarities(p));
        lemma_expand_values_distinct(p, n, t);
        let prev = expand_values(p, n, t);
        assert forall|j: int| 0 <= j < prev.len() implies prev[j].0 != vals.last().rarity by {
            assert(prev[j] == (p[j].rarity, layout_for(p[j], n, t)));
        }
        lemma_put_absent(prev, vals.last().rarity, layout_for(vals.last(), n, t));
    }
}

proof fn lemma_singleton_table_distinct(raw: Seq<(Seq<SlotValue>, i32)>)
    requires
        distinct_singletons(raw),
    ensures
        singleton_table(raw).len() == singleton_count(raw),
        forall|x: int|
            0 <= x < singleton_table(raw).len() ==> exists|i: int|
                0 <= i < raw.len() && raw[i].0.len() == 1 && raw[i].0[0].rarity == (
                #[trigger] singleton_table(raw)[x]).0,
    decreases raw.len(),
{
    if raw.len() > 0 {
        let p = raw.drop_last();
        assert(distinct_singletons(p));
        lemma_singleton_table_distinct(p);
        let t = singleton_table(p);
        let e = raw.last();
        if e.0.len() == 1 {
            assert forall|x: int| 0 <= x < t.len() implies t[x].0 != e.0[0].rarity by {
                let i = choose|i: int| 0 <= i < p.len() && p[i].0.len() == 1 && p[i].0[0].rarity == t[x].0;
                assert(raw[i] == p[i]);
            }
            lemma_put_absent(t, e.0[0].rarity, e.1);
            let t2 = singleton_table(raw);
            assert forall|x: int| 0 <= x < t2.len() implies exists|i: int|
                0 <= i < raw.len() && raw[i].0.len() == 1 && raw[i].0[0].rarity == (
                #[trigger] t2[x]).0 by {
                if x < t.len() {
                    let i = choose|i: int| 0 <= i < p.len() && p[i].0.len() == 1 && p[i].0[0].rarity == t[x].0;
                    assert(raw[i] == p[i]);
                } else {
                    assert(raw[raw.len() - 1] == e);
                }
            }
        } else {
            assert forall|x: int| 0 <= x < t.len() implies exists|i: int|
                0 <= i < raw.len() && raw[i].0.len() == 1 && raw[i].0[0].rarity == (
                #[trigger] t[x]).0 by {
                let i = choose|i: int| 0 <= i < p.len() && p[i].0.len() == 1 && p[i].0[0].rarity == t[x].0;
                assert(raw[i] == p[i]);
            }
        }
    }
}

/// With exactly one slot offering a choice among values of different
/// rarities, and single-valued slots of different rarities, expansion gives
/// one layout per value, in the slot's order: named after the value's rarity,
/// weighted by its count, holding one slot entry more than there are
/// single-valued slots.
pub proof fn lemma_one_layout_per_value(raw: Seq<(Seq<SlotValue>, i32)>)
    requires
        variable_count(raw) == 1,
        distinct_rarities(raw[variable_index(raw)].0),
        distinct_singletons(raw),
    ensures
        expand(raw) matches Some(ls) && ls.len() == raw[variable_index(raw)].0.len() && forall|
            j: int,
        |
            0 <= j < ls.len() ==> {
                let v = raw[variable_index(raw)].0[j];
                &&& (#[trigger] ls[j]).0 == v.rarity
                &&& ls[j].1.0 == v.count
                &&& ls[j].1.1.len() == 1 + singleton_count(raw)
            },
{
    let e = raw[variable_index(raw)];
    lemma_expand_values_distinct(e.0, e.1, singleton_table(raw));
    lemma_singleton_table_distinct(raw);
}

/// Two or more slots offering a choice make expansion fail.
pub proof fn lemma_several_variable_slots_fail(raw: Seq<(Seq<SlotValue>, i32)>)
    requires
        variable_count(raw) >= 2,
    ensures
        expand(raw) is None,
{
}

/// With no slot offering a choice, expansion succeeds with no layouts.
pub proof fn lemma_no_variable_slot_empty(raw: Seq<(Seq<SlotValue>, i32)>)
    requires
        variable_count(raw) == 0,
    ensures
        expand(raw) == Some(Seq::<(Rarity, (i32, Seq<SlotValue>))>::empty()),
{
}

/// Expanding equal raw layouts gives equal outcomes: the same layouts, names,
/// weights and slot entries, or the same failure.
pub proof fn lemma_expand_deterministic(a: Seq<(Seq<SlotValue>, i32)>, b: Seq<(Seq<SlotValue>, i32)>)
    requires
        a == b,
    ensures
        expand(a) == expand(b),
{
}

} // verus!
