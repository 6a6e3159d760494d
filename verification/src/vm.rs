//! The runtime state the engines operate on: an object heap and a class
//! table, with the well-formedness invariant, name lookup through instance
//! storage and method resolution order, and hook-slot resolution.

use vstd::prelude::*;

use crate::data::{
    CheckHook, ClassData, ClassId, CmpHook, DescrGetHook, DescrSetHook, HashHook, ObjId,
    ObjectData, Slots, TruthHook,
};

verus! {

/// First value stored under `name`, searching the pairs in order.
pub open spec fn sp_dict_get(d: Seq<(String, ObjId)>, name: Seq<char>) -> Option<ObjId>
    decreases d.len(),
{
    if d.len() == 0 {
        None
    } else if d[0].0@ == name {
        Some(d[0].1)
    } else {
        sp_dict_get(d.drop_first(), name)
    }
}

/// No two pairs carry the same name.
pub open spec fn keys_unique(d: Seq<(String, ObjId)>) -> bool {
    forall|i: int, j: int|
        0 <= i < j < d.len() ==> (#[trigger] d[i]).0@ != (#[trigger] d[j]).0@
}

/// First value stored under the integer key, searching the pairs in order.
pub open spec fn sp_entries_get(d: Seq<(i64, ObjId)>, key: i64) -> Option<ObjId>
    decreases d.len(),
{
    if d.len() == 0 {
        None
    } else if d[0].0 == key {
        Some(d[0].1)
    } else {
        sp_entries_get(d.drop_first(), key)
    }
}

/// No two pairs carry the same integer key.
pub open spec fn entry_keys_unique(d: Seq<(i64, ObjId)>) -> bool {
    forall|i: int, j: int|
        0 <= i < j < d.len() ==> (#[trigger] d[i]).0 != (#[trigger] d[j]).0
}

/// With unique names, the pair at any position is exactly what lookup of its
/// name returns.
pub proof fn lemma_dict_get_index(d: Seq<(String, ObjId)>, k: int)
    requires
        keys_unique(d),
        0 <= k < d.len(),
    ensures
        sp_dict_get(d, d[k].0@) == Some(d[k].1),
    decreases d.len(),
{
    if k == 0 {
    } else {
        assert(d.drop_first()[k - 1] == d[k]);
        lemma_dict_get_index(d.drop_first(), k - 1);
    }
}

/// With unique keys, the pair at any position is exactly what lookup of its
/// key returns.
pub proof fn lemma_entries_get_index(d: Seq<(i64, ObjId)>, k: int)
    requires
        entry_keys_unique(d),
        0 <= k < d.len(),
    ensures
        sp_entries_get(d, d[k].0) == Some(d[k].1),
    decreases d.len(),
{
    if k == 0 {
    } else {
        assert(d.drop_first()[k - 1] == d[k]);
        lemma_entries_get_index(d.drop_first(), k - 1);
    }
}

/// A successful lookup returns a value stored in some pair.
pub proof fn lemma_dict_get_some(d: Seq<(String, ObjId)>, name: Seq<char>)
    requires
        sp_dict_get(d, name) is Some,
    ensures
        exists|k: int|
            0 <= k < d.len() && (#[trigger] d[k]).0@ == name && d[k].1 == sp_dict_get(
                d,
                name,
            )->0,
    decreases d.len(),
{
    if d.len() == 0 {
    } else if d[0].0@ == name {
        assert(d[0].0@ == name && d[0].1 == sp_dict_get(d, name)->0);
    } else {
        lemma_dict_get_some(d.drop_first(), name);
        let k0 = choose|k: int|
            0 <= k < d.drop_first().len() && (#[trigger] d.drop_first()[k]).0@ == name
                && d.drop_first()[k].1 == sp_dict_get(d.drop_first(), name)->0;
        assert(d[k0 + 1] == d.drop_first()[k0]);
    }
}

/// A successful integer-keyed lookup returns a value stored in some pair.
pub proof fn lemma_entries_get_some(d: Seq<(i64, ObjId)>, key: i64)
    requires
        sp_entries_get(d, key) is Some,
    ensures
        exists|k: int|
            0 <= k < d.len() && (#[trigger] d[k]).0 == key && d[k].1 == sp_entries_get(
                d,
                key,
            )->0,
    decreases d.len(),
{
    if d.len() == 0 {
    } else if d[0].0 == key {
        assert(d[0].0 == key && d[0].1 == sp_entries_get(d, key)->0);
    } else {
        lemma_entries_get_some(d.drop_first(), key);
        let k0 = choose|k: int|
            0 <= k < d.drop_first().len() && (#[trigger] d.drop_first()[k]).0 == key
                && d.drop_first()[k].1 == sp_entries_get(d.drop_first(), key)->0;
        assert(d[k0 + 1] == d.drop_first()[k0]);
    }
}

/// First pair whose name equals `name`, as executable code.
pub fn dict_get(d: &Vec<(String, ObjId)>, name: &String) -> (r: Option<ObjId>)
    ensures
        r == sp_dict_get(d@, name@),
{
    let n = d.len();
    let mut i: usize = 0;
    proof {
        assert(d@.skip(0) =~= d@);
    }
    while i < n
        invariant
            i <= n,
            n == d@.len(),
            sp_dict_get(d@, name@) == sp_dict_get(d@.skip(i as int), name@),
        decreases n - i,
    {
        proof {
            assert(d@.skip(i as int)[0] == d@[i as int]);
            assert(d@.skip(i as int).drop_first() =~= d@.skip(i as int + 1));
        }
        if d[i].0 == *name {
            return Some(d[i].1);
        }
        proof {
            assert(sp_dict_get(d@.skip(i as int), name@) == sp_dict_get(
                d@.skip(i as int + 1),
                name@,
            ));
        }
        i += 1;
    }
    proof {
        assert(d@.skip(n as int) =~= Seq::<(String, ObjId)>::empty());
    }
    None
}

/// First pair whose key equals `key`, as executable code.
pub fn entries_get(d: &Vec<(i64, ObjId)>, key: i64) -> (r: Option<ObjId>)
    ensures
        r == sp_entries_get(d@, key),
{
    let n = d.len();
    let mut i: usize = 0;
    proof {
        assert(d@.skip(0) =~= d@);
    }
    while i < n
        invariant
            i <= n,
            n == d@.len(),
            sp_entries_get(d@, key) == sp_entries_get(d@.skip(i as int), key),
        decreases n - i,
    {
        proof {
            assert(d@.skip(i as int)[0] == d@[i as int]);
            assert(d@.skip(i as int).drop_first() =~= d@.skip(i as int + 1));
        }
        if d[i].0 == key {
            return Some(d[i].1);
        }
        proof {
            assert(sp_entries_get(d@.skip(i as int), key) == sp_entries_get(
                d@.skip(i as int + 1),
                key,
            ));
        }
        i += 1;
    }
    proof {
        assert(d@.skip(n as int) =~= Seq::<(i64, ObjId)>::empty());
    }
    None
}

/// The runtime: the object heap, the class table, and the identities of the
/// foundational classes and singleton objects every engine consults.
pub struct Vm {
    pub heap: Vec<ObjectData>,
    pub classes: Vec<ClassData>,
    /// The root class every ordinary ancestor order ends in.
    pub object_class: ClassId,
    /// The metaclass of ordinary classes.
    pub type_class: ClassId,
    pub tuple_class: ClassId,
    pub str_class: ClassId,
    pub int_class: ClassId,
    pub dict_class: ClassId,
    pub bytes_class: ClassId,
    pub none_class: ClassId,
    pub bool_class: ClassId,
    pub async_gen_class: ClassId,
    /// Class of the objects built by class subscription.
    pub alias_class: ClassId,
    /// The `None` singleton.
    pub none_obj: ObjId,
    pub true_obj: ObjId,
    pub false_obj: ObjId,
}

impl Vm {
    /// Allocation class of an object.
    pub open spec fn class_of(self, o: ObjId) -> ClassId {
        self.heap[o as int].class
    }

    /// The canonical object a class is.
    pub open spec fn class_obj(self, c: ClassId) -> ObjId {
        self.classes[c as int].obj
    }

    /// Name of a class, as embedded in error messages.
    pub open spec fn class_name(self, c: ClassId) -> Seq<char> {
        self.classes[c as int].name@
    }

    /// The object is a class object.
    pub open spec fn is_type_obj(self, o: ObjId) -> bool {
        self.heap[o as int].type_of is Some
    }

    /// The class a class object is.
    pub open spec fn as_type(self, o: ObjId) -> ClassId {
        self.heap[o as int].type_of->0
    }

    /// The ancestor order of `c` contains `t`: the direct subclass relation
    /// of the class table.
    pub open spec fn mro_contains(self, c: ClassId, t: ClassId) -> bool {
        self.classes[c as int].mro@.contains(t)
    }

    /// The object is tuple-like: of a tuple class, with element storage.
    pub open spec fn is_tuple_like(self, o: ObjId) -> bool {
        &&& self.mro_contains(self.class_of(o), self.tuple_class)
        &&& self.heap[o as int].elems is Some
    }

    /// Every object reference a hook table holds is a live object.
    pub open spec fn wf_slots(self, s: Slots) -> bool {
        &&& (s.richcompare matches Some(CmpHook::Object(i)) ==> i < self.heap.len())
        &&& (s.instancecheck matches Some(CheckHook::TruthOf(i)) ==> i < self.heap.len())
        &&& (s.subclasscheck matches Some(CheckHook::TruthOf(i)) ==> i < self.heap.len())
        &&& (s.str_obj matches Some(i) ==> i < self.heap.len())
    }

    /// Every reference an object holds is live, and its keyed storages hold
    /// unique keys.
    pub open spec fn wf_obj(self, od: ObjectData) -> bool {
        &&& od.class < self.classes.len()
        &&& (od.dict matches Some(d) ==> keys_unique(d@) && forall|k: int|
            0 <= k < d@.len() ==> (#[trigger] d@[k]).1 < self.heap.len())
        &&& (od.elems matches Some(e) ==> forall|k: int|
            0 <= k < e@.len() ==> #[trigger] e@[k] < self.heap.len())
        &&& (od.entries matches Some(e) ==> entry_keys_unique(e@) && forall|k: int|
            0 <= k < e@.len() ==> (#[trigger] e@[k]).1 < self.heap.len())
        &&& (od.cell matches Some(v) ==> v < self.heap.len())
        &&& (od.type_of matches Some(c) ==> c < self.classes.len())
    }

    /// The class's ancestor order starts with the class itself and names only
    /// live classes; its attribute table and hook table reference only live
    /// objects; its canonical object points back at it.
    pub open spec fn wf_class(self, c: int) -> bool {
        let cd = self.classes[c];
        &&& cd.mro@.len() >= 1
        &&& cd.mro@[0] == c
        &&& (forall|k: int| 0 <= k < cd.mro@.len() ==> #[trigger] cd.mro@[k] < self.classes.len())
        &&& keys_unique(cd.attrs@)
        &&& (forall|k: int| 0 <= k < cd.attrs@.len() ==> (#[trigger] cd.attrs@[k]).1 < self.heap.len())
        &&& cd.obj < self.heap.len()
        &&& self.heap[cd.obj as int].type_of == Some(c as ClassId)
        &&& self.wf_slots(cd.slots)
    }

    /// Well-formedness of the whole runtime: every object and class is
    /// internally consistent, class objects and table entries agree, and the
    /// foundational identities are live.
    pub open spec fn wf(self) -> bool {
        &&& (forall|i: int| 0 <= i < self.heap.len() ==> self.wf_obj(#[trigger] self.heap[i]))
        &&& (forall|c: int| 0 <= c < self.classes.len() ==> self.wf_class(c))
        &&& (forall|i: int|
            0 <= i < self.heap.len() ==> ((#[trigger] self.heap[i]).type_of matches Some(c)
                ==> self.classes[c as int].obj == i))
        &&& self.object_class < self.classes.len()
        &&& self.type_class < self.classes.len()
        &&& self.tuple_class < self.classes.len()
        &&& self.str_class < self.classes.len()
        &&& self.int_class < self.classes.len()
        &&& self.dict_class < self.classes.len()
        &&& self.bytes_class < self.classes.len()
        &&& self.none_class < self.classes.len()
        &&& self.bool_class < self.classes.len()
        &&& self.async_gen_class < self.classes.len()
        &&& self.alias_class < self.classes.len()
        &&& self.none_obj < self.heap.len()
        &&& self.true_obj < self.heap.len()
        &&& self.false_obj < self.heap.len()
        &&& self.heap.len() < 0x7fff_ffff_ffff_ffff
    }

    /// First class in the suffix of `mro` starting at `i` whose own attribute
    /// table defines `name`; the value it stores.
    pub open spec fn sp_mro_attr_from(self, mro: Seq<ClassId>, i: int, name: Seq<char>) -> Option<
        ObjId,
    >
        decreases mro.len() - i,
    {
        if i < 0 || i >= mro.len() {
            None
        } else {
            let c = mro[i];
            if c < self.classes.len() {
                match sp_dict_get(self.classes[c as int].attrs@, name) {
                    Some(v) => Some(v),
                    None => self.sp_mro_attr_from(mro, i + 1, name),
                }
            } else {
                self.sp_mro_attr_from(mro, i + 1, name)
            }
        }
    }

    /// Class-level attribute lookup: the first ancestor in method resolution
    /// order that defines `name` wins.
    pub open spec fn sp_class_attr(self, c: ClassId, name: Seq<char>) -> Option<ObjId> {
        self.sp_mro_attr_from(self.classes[c as int].mro@, 0, name)
    }

    /// Class-level attribute lookup, as executable code.
    pub fn class_get_attr(&self, c: ClassId, name: &String) -> (r: Option<ObjId>)
        requires
            self.wf(),
            c < self.classes.len(),
        ensures
            r == self.sp_class_attr(c, name@),
    {
        let mro = &self.classes[c].mro;
        let n = mro.len();
        let mut i: usize = 0;
        while i < n
            invariant
                self.wf(),
                c < self.classes.len(),
                mro == &self.classes@[c as int].mro,
                i <= n,
                n == mro@.len(),
                self.sp_mro_attr_from(mro@, 0, name@) == self.sp_mro_attr_from(
                    mro@,
                    i as int,
                    name@,
                ),
            decreases n - i,
        {
            let a = mro[i];
            assert(self.wf_class(c as int));
            if let Some(v) = dict_get(&self.classes[a].attrs, name) {
                return Some(v);
            }
            i += 1;
        }
        None
    }

    /// Pointwise merge of two hook tables: for each optional entry the first
    /// table wins when it defines the entry; a flagged protocol is published
    /// when either table publishes it.
    pub open spec fn sp_merge_slots(a: Slots, b: Slots) -> Slots {
        Slots {
            getattro: a.getattro || b.getattro,
            setattro: a.setattro || b.setattro,
            descr_get: if a.descr_get is Some { a.descr_get } else { b.descr_get },
            descr_set: if a.descr_set is Some { a.descr_set } else { b.descr_set },
            richcompare: if a.richcompare is Some { a.richcompare } else { b.richcompare },
            hash: if a.hash is Some { a.hash } else { b.hash },
            instancecheck: if a.instancecheck is Some { a.instancecheck } else { b.instancecheck },
            subclasscheck: if a.subclasscheck is Some { a.subclasscheck } else { b.subclasscheck },
            truth: if a.truth is Some { a.truth } else { b.truth },
            iter: a.iter || b.iter,
            str_obj: if a.str_obj is Some { a.str_obj } else { b.str_obj },
            repr_text: if a.repr_text is Some { a.repr_text } else { b.repr_text },
            map_subscript: a.map_subscript || b.map_subscript,
            map_ass: a.map_ass || b.map_ass,
            seq_item: a.seq_item || b.seq_item,
            seq_ass: a.seq_ass || b.seq_ass,
            seq_len: a.seq_len || b.seq_len,
            map_len: a.map_len || b.map_len,
            class_getitem: a.class_getitem || b.class_getitem,
        }
    }

    /// The hook tables of the suffix of `mro` starting at `i`, merged in
    /// order: the resolution of every slot at once.
    pub open spec fn sp_slots_from(self, mro: Seq<ClassId>, i: int) -> Slots
        decreases mro.len() - i,
    {
        if i < 0 || i >= mro.len() {
            Slots::spec_empty()
        } else {
            let c = mro[i];
            if c < self.classes.len() {
                Self::sp_merge_slots(
                    self.classes[c as int].slots,
                    self.sp_slots_from(mro, i + 1),
                )
            } else {
                self.sp_slots_from(mro, i + 1)
            }
        }
    }

    /// The fully resolved hook table of a class: for each slot, the entry of
    /// the first ancestor in method resolution order that defines it.
    pub open spec fn sp_resolved(self, c: ClassId) -> Slots {
        self.sp_slots_from(self.classes[c as int].mro@, 0)
    }

    pub open spec fn sp_descr_get(self, c: ClassId) -> Option<DescrGetHook> {
        self.sp_resolved(c).descr_get
    }

    pub open spec fn sp_descr_set(self, c: ClassId) -> Option<DescrSetHook> {
        self.sp_resolved(c).descr_set
    }

    pub open spec fn sp_richcompare(self, c: ClassId) -> Option<CmpHook> {
        self.sp_resolved(c).richcompare
    }

    pub open spec fn sp_hash_slot(self, c: ClassId) -> Option<HashHook> {
        self.sp_resolved(c).hash
    }

    pub open spec fn sp_instancecheck(self, c: ClassId) -> Option<CheckHook> {
        self.sp_resolved(c).instancecheck
    }

    pub open spec fn sp_subclasscheck(self, c: ClassId) -> Option<CheckHook> {
        self.sp_resolved(c).subclasscheck
    }

    pub open spec fn sp_truth(self, c: ClassId) -> Option<TruthHook> {
        self.sp_resolved(c).truth
    }

    pub open spec fn sp_str_obj(self, c: ClassId) -> Option<ObjId> {
        self.sp_resolved(c).str_obj
    }

    /// Merging hook tables is associative.
    pub proof fn lemma_merge_slots_assoc(a: Slots, b: Slots, c: Slots)
        ensures
            Self::sp_merge_slots(Self::sp_merge_slots(a, b), c) == Self::sp_merge_slots(
                a,
                Self::sp_merge_slots(b, c),
            ),
    {
    }

    /// Pointwise merge, as executable code.
    fn merge_slots(a: Slots, b: &Slots) -> (r: Slots)
        ensures
            r == Self::sp_merge_slots(a, *b),
    {
        Slots {
            getattro: a.getattro || b.getattro,
            setattro: a.setattro || b.setattro,
            descr_get: if a.descr_get.is_some() {
                a.descr_get
            } else {
                b.descr_get
            },
            descr_set: if a.descr_set.is_some() {
                a.descr_set
            } else {
                b.descr_set
            },
            richcompare: if a.richcompare.is_some() {
                a.richcompare
            } else {
                b.richcompare
            },
            hash: if a.hash.is_some() {
                a.hash
            } else {
                b.hash
            },
            instancecheck: if a.instancecheck.is_some() {
                a.instancecheck
            } else {
                b.instancecheck
            },
            subclasscheck: if a.subclasscheck.is_some() {
                a.subclasscheck
            } else {
                b.subclasscheck
            },
            truth: if a.truth.is_some() {
                a.truth
            } else {
                b.truth
            },
            iter: a.iter || b.iter,
            str_obj: if a.str_obj.is_some() {
                a.str_obj
            } else {
                b.str_obj
            },
            repr_text: if a.repr_text.is_some() {
                a.repr_text
            } else {
                b.repr_text.clone()
            },
            map_subscript: a.map_subscript || b.map_subscript,
            map_ass: a.map_ass || b.map_ass,
            seq_item: a.seq_item || b.seq_item,
            seq_ass: a.seq_ass || b.seq_ass,
            seq_len: a.seq_len || b.seq_len,
            map_len: a.map_len || b.map_len,
            class_getitem: a.class_getitem || b.class_getitem,
        }
    }

    /// Resolves every hook slot of `c` at once.
    #[verifier::rlimit(100)]
    pub fn resolve_slots(&self, c: ClassId) -> (r: Slots)
        requires
            self.wf(),
            c < self.classes.len(),
        ensures
            r == self.sp_resolved(c),
    {
        let ghost mro_g = self.classes@[c as int].mro@;
        let mro = &self.classes[c].mro;
        let n = mro.len();
        let mut i: usize = 0;
        let mut acc = Slots::empty();
        while i < n
            invariant
                self.wf(),
                c < self.classes.len(),
                mro == &self.classes@[c as int].mro,
                mro_g == mro@,
                i <= n,
                n == mro_g.len(),
                self.sp_resolved(c) == Self::sp_merge_slots(
                    acc,
                    self.sp_slots_from(mro_g, i as int),
                ),
            decreases n - i,
        {
            let a = mro[i];
            assert(self.wf_class(c as int));
            let cur = &self.classes[a].slots;
            let ghost acc0 = acc;
            acc = Self::merge_slots(acc, cur);
            proof {
                assert(self.sp_slots_from(mro_g, i as int) == Self::sp_merge_slots(
                    self.classes@[a as int].slots,
                    self.sp_slots_from(mro_g, i as int + 1),
                ));
                Self::lemma_merge_slots_assoc(
                    acc0,
                    self.classes@[a as int].slots,
                    self.sp_slots_from(mro_g, i as int + 1),
                );
            }
            i += 1;
        }
        proof {
            assert(Self::sp_merge_slots(acc, Slots::spec_empty()) == acc);
        }
        acc
    }
}

/// Lookup of a name none of the pairs carries fails.
pub proof fn lemma_dict_get_absent(d: Seq<(String, ObjId)>, name: Seq<char>)
    requires
        forall|i: int| 0 <= i < d.len() ==> (#[trigger] d[i]).0@ != name,
    ensures
        sp_dict_get(d, name) is None,
    decreases d.len(),
{
    if d.len() > 0 {
        assert(d[0].0@ != name);
        assert(forall|i: int|
            0 <= i < d.drop_first().len() ==> (#[trigger] d.drop_first()[i]).0@ != name);
        lemma_dict_get_absent(d.drop_first(), name);
    }
}

/// Replacing the value of the pair at `k` (keeping its name) changes lookup
/// of that name alone.
pub proof fn lemma_dict_get_update(d: Seq<(String, ObjId)>, k: int, p: (String, ObjId), n: Seq<char>)
    requires
        keys_unique(d),
        0 <= k < d.len(),
        p.0@ == d[k].0@,
    ensures
        sp_dict_get(d.update(k, p), n) == (if n == p.0@ {
            Some(p.1)
        } else {
            sp_dict_get(d, n)
        }),
        keys_unique(d.update(k, p)),
    decreases d.len(),
{
    let u = d.update(k, p);
    assert(forall|i: int| 0 <= i < d.len() ==> (#[trigger] u[i]).0@ == d[i].0@);
    if k == 0 {
        assert(u[0] == p);
        assert(u.drop_first() =~= d.drop_first());
    } else {
        assert(u[0] == d[0]);
        assert(u.drop_first() =~= d.drop_first().update(k - 1, p));
        lemma_dict_get_update(d.drop_first(), k - 1, p, n);
        if n == p.0@ {
            assert(d[0].0@ != d[k].0@);
        }
    }
}

/// Appending a pair whose name is absent changes lookup of that name alone.
pub proof fn lemma_dict_get_push(d: Seq<(String, ObjId)>, p: (String, ObjId), n: Seq<char>)
    requires
        keys_unique(d),
        sp_dict_get(d, p.0@) is None,
    ensures
        sp_dict_get(d.push(p), n) == (if n == p.0@ {
            Some(p.1)
        } else {
            sp_dict_get(d, n)
        }),
        keys_unique(d.push(p)),
    decreases d.len(),
{
    let u = d.push(p);
    assert forall|i: int| 0 <= i < d.len() implies (#[trigger] d[i]).0@ != p.0@ by {
        if d[i].0@ == p.0@ {
            lemma_dict_get_index(d, i);
        }
    }
    assert(u.len() == d.len() + 1);
    if d.len() == 0 {
        assert(u[0] == p);
        assert(u.drop_first() =~= Seq::<(String, ObjId)>::empty());
        assert(sp_dict_get(Seq::<(String, ObjId)>::empty(), n) is None);
        if n == p.0@ {
            assert(sp_dict_get(u, n) == Some(p.1));
        } else {
            assert(sp_dict_get(u, n) == sp_dict_get(u.drop_first(), n));
        }
    } else {
        assert(u[0] == d[0]);
        assert(u.drop_first() =~= d.drop_first().push(p));
        assert(forall|i: int|
            0 <= i < d.drop_first().len() ==> #[trigger] d.drop_first()[i] == d[i + 1]);
        assert(d[0].0@ != p.0@);
        lemma_dict_get_push(d.drop_first(), p, n);
        if n == d[0].0@ {
            assert(sp_dict_get(u, n) == Some(d[0].1));
            assert(sp_dict_get(d, n) == Some(d[0].1));
        } else {
            assert(sp_dict_get(u, n) == sp_dict_get(u.drop_first(), n));
            assert(sp_dict_get(d, n) == sp_dict_get(d.drop_first(), n));
        }
    }
}

/// Removing the pair at `k` changes lookup of its name alone.
pub proof fn lemma_dict_get_remove(d: Seq<(String, ObjId)>, k: int, n: Seq<char>)
    requires
        keys_unique(d),
        0 <= k < d.len(),
    ensures
        sp_dict_get(d.remove(k), n) == (if n == d[k].0@ {
            None
        } else {
            sp_dict_get(d, n)
        }),
        keys_unique(d.remove(k)),
    decreases d.len(),
{
    let u = d.remove(k);
    assert(forall|i: int|
        0 <= i < u.len() ==> #[trigger] u[i] == (if i < k {
            d[i]
        } else {
            d[i + 1]
        }));
    if k == 0 {
        assert(u =~= d.drop_first());
        if n == d[0].0@ {
            assert forall|i: int| 0 <= i < u.len() implies (#[trigger] u[i]).0@ != n by {
                assert(u[i] == d[i + 1]);
            }
            lemma_dict_get_absent(u, n);
        }
    } else {
        assert(u[0] == d[0]);
        assert(u.drop_first() =~= d.drop_first().remove(k - 1));
        assert(d.drop_first()[k - 1] == d[k]);
        lemma_dict_get_remove(d.drop_first(), k - 1, n);
        if n == d[k].0@ {
            assert(d[0].0@ != d[k].0@);
        }
    }
}

/// Integer-keyed lookup of an absent key fails.
pub proof fn lemma_entries_get_absent(d: Seq<(i64, ObjId)>, key: i64)
    requires
        forall|i: int| 0 <= i < d.len() ==> (#[trigger] d[i]).0 != key,
    ensures
        sp_entries_get(d, key) is None,
    decreases d.len(),
{
    if d.len() > 0 {
        assert(forall|i: int|
            0 <= i < d.drop_first().len() ==> (#[trigger] d.drop_first()[i]).0 != key);
        lemma_entries_get_absent(d.drop_first(), key);
    }
}

/// Replacing the value of the pair at `k` (keeping its key) changes lookup of
/// that key alone.
pub proof fn lemma_entries_get_update(d: Seq<(i64, ObjId)>, k: int, p: (i64, ObjId), n: i64)
    requires
        entry_keys_unique(d),
        0 <= k < d.len(),
        p.0 == d[k].0,
    ensures
        sp_entries_get(d.update(k, p), n) == (if n == p.0 {
            Some(p.1)
        } else {
            sp_entries_get(d, n)
        }),
        entry_keys_unique(d.update(k, p)),
    decreases d.len(),
{
    let u = d.update(k, p);
    assert(forall|i: int| 0 <= i < d.len() ==> (#[trigger] u[i]).0 == d[i].0);
    if k == 0 {
        assert(u[0] == p);
        assert(u.drop_first() =~= d.drop_first());
    } else {
        assert(u[0] == d[0]);
        assert(u.drop_first() =~= d.drop_first().update(k - 1, p));
        lemma_entries_get_update(d.drop_first(), k - 1, p, n);
        if n == p.0 {
            assert(d[0].0 != d[k].0);
        }
    }
}

/// Appending a pair whose key is absent changes lookup of that key alone.
pub proof fn lemma_entries_get_push(d: Seq<(i64, ObjId)>, p: (i64, ObjId), n: i64)
    requires
        entry_keys_unique(d),
        sp_entries_get(d, p.0) is None,
    ensures
        sp_entries_get(d.push(p), n) == (if n == p.0 {
            Some(p.1)
        } else {
            sp_entries_get(d, n)
        }),
        entry_keys_unique(d.push(p)),
    decreases d.len(),
{
    let u = d.push(p);
    assert forall|i: int| 0 <= i < d.len() implies (#[trigger] d[i]).0 != p.0 by {
        if d[i].0 == p.0 {
            lemma_entries_get_index(d, i);
        }
    }
    assert(u.len() == d.len() + 1);
    if d.len() == 0 {
        assert(u[0] == p);
        assert(u.drop_first() =~= Seq::<(i64, ObjId)>::empty());
        assert(sp_entries_get(Seq::<(i64, ObjId)>::empty(), n) is None);
        if n == p.0 {
            assert(sp_entries_get(u, n) == Some(p.1));
        } else {
            assert(sp_entries_get(u, n) == sp_entries_get(u.drop_first(), n));
        }
    } else {
        assert(u[0] == d[0]);
        assert(u.drop_first() =~= d.drop_first().push(p));
        assert(forall|i: int|
            0 <= i < d.drop_first().len() ==> #[trigger] d.drop_first()[i] == d[i + 1]);
        assert(d[0].0 != p.0);
        lemma_entries_get_push(d.drop_first(), p, n);
        if n == d[0].0 {
            assert(sp_entries_get(u, n) == Some(d[0].1));
            assert(sp_entries_get(d, n) == Some(d[0].1));
        } else {
            assert(sp_entries_get(u, n) == sp_entries_get(u.drop_first(), n));
            assert(sp_entries_get(d, n) == sp_entries_get(d.drop_first(), n));
        }
    }
}

/// Removing the pair at `k` changes lookup of its key alone.
pub proof fn lemma_entries_get_remove(d: Seq<(i64, ObjId)>, k: int, n: i64)
    requires
        entry_keys_unique(d),
        0 <= k < d.len(),
    ensures
        sp_entries_get(d.remove(k), n) == (if n == d[k].0 {
            None
        } else {
            sp_entries_get(d, n)
        }),
        entry_keys_unique(d.remove(k)),
    decreases d.len(),
{
    let u = d.remove(k);
    assert(forall|i: int|
        0 <= i < u.len() ==> #[trigger] u[i] == (if i < k {
            d[i]
        } else {
            d[i + 1]
        }));
    if k == 0 {
        assert(u =~= d.drop_first());
        if n == d[0].0 {
            assert forall|i: int| 0 <= i < u.len() implies (#[trigger] u[i]).0 != n by {
                assert(u[i] == d[i + 1]);
            }
            lemma_entries_get_absent(u, n);
        }
    } else {
        assert(u[0] == d[0]);
        assert(u.drop_first() =~= d.drop_first().remove(k - 1));
        assert(d.drop_first()[k - 1] == d[k]);
        lemma_entries_get_remove(d.drop_first(), k - 1, n);
        if n == d[k].0 {
            assert(d[0].0 != d[k].0);
        }
    }
}

/// Index of the first pair whose name equals `name`, as executable code.
pub fn dict_find(d: &Vec<(String, ObjId)>, name: &String) -> (r: Option<usize>)
    ensures
        match r {
            Some(k) => k < d@.len() && d@[k as int].0@ == name@ && sp_dict_get(d@, name@) == Some(
                d@[k as int].1,
            ),
            None => sp_dict_get(d@, name@) is None,
        },
{
    let n = d.len();
    let mut i: usize = 0;
    proof {
        assert(d@.skip(0) =~= d@);
    }
    while i < n
        invariant
            i <= n,
            n == d@.len(),
            sp_dict_get(d@, name@) == sp_dict_get(d@.skip(i as int), name@),
        decreases n - i,
    {
        proof {
            assert(d@.skip(i as int)[0] == d@[i as int]);
            assert(d@.skip(i as int).drop_first() =~= d@.skip(i as int + 1));
        }
        if d[i].0 == *name {
            return Some(i);
        }
        i += 1;
    }
    proof {
        assert(d@.skip(n as int) =~= Seq::<(String, ObjId)>::empty());
    }
    None
}

/// Index of the first pair whose key equals `key`, as executable code.
pub fn entries_find(d: &Vec<(i64, ObjId)>, key: i64) -> (r: Option<usize>)
    ensures
        match r {
            Some(k) => k < d@.len() && d@[k as int].0 == key && sp_entries_get(d@, key) == Some(
                d@[k as int].1,
            ),
            None => sp_entries_get(d@, key) is None,
        },
{
    let n = d.len();
    let mut i: usize = 0;
    proof {
        assert(d@.skip(0) =~= d@);
    }
    while i < n
        invariant
            i <= n,
            n == d@.len(),
            sp_entries_get(d@, key) == sp_entries_get(d@.skip(i as int), key),
        decreases n - i,
    {
        proof {
            assert(d@.skip(i as int)[0] == d@[i as int]);
            assert(d@.skip(i as int).drop_first() =~= d@.skip(i as int + 1));
        }
        if d[i].0 == key {
            return Some(i);
        }
        i += 1;
    }
    proof {
        assert(d@.skip(n as int) =~= Seq::<(i64, ObjId)>::empty());
    }
    None
}

impl Vm {
    /// The fixed identities of the runtime are the same in both states.
    pub open spec fn same_config(a: Vm, b: Vm) -> bool {
        &&& a.object_class == b.object_class
        &&& a.type_class == b.type_class
        &&& a.tuple_class == b.tuple_class
        &&& a.str_class == b.str_class
        &&& a.int_class == b.int_class
        &&& a.dict_class == b.dict_class
        &&& a.bytes_class == b.bytes_class
        &&& a.none_class == b.none_class
        &&& a.bool_class == b.bool_class
        &&& a.async_gen_class == b.async_gen_class
        &&& a.alias_class == b.alias_class
        &&& a.none_obj == b.none_obj
        &&& a.true_obj == b.true_obj
        &&& a.false_obj == b.false_obj
    }

    /// A class-level attribute is a live object.
    pub proof fn lemma_mro_attr_range(self, mro: Seq<ClassId>, i: int, name: Seq<char>)
        requires
            self.wf(),
        ensures
            self.sp_mro_attr_from(mro, i, name) matches Some(v) ==> v < self.heap.len(),
        decreases mro.len() - i,
    {
        if i >= 0 && i < mro.len() {
            let c = mro[i];
            if c < self.classes.len() {
                assert(self.wf_class(c as int));
                if sp_dict_get(self.classes[c as int].attrs@, name) is Some {
                    lemma_dict_get_some(self.classes[c as int].attrs@, name);
                } else {
                    self.lemma_mro_attr_range(mro, i + 1, name);
                }
            } else {
                self.lemma_mro_attr_range(mro, i + 1, name);
            }
        }
    }

    /// A class-level attribute lookup that succeeds names a live object.
    pub proof fn lemma_class_attr_range(self, c: ClassId, name: Seq<char>)
        requires
            self.wf(),
            c < self.classes.len(),
        ensures
            self.sp_class_attr(c, name) matches Some(v) ==> v < self.heap.len(),
    {
        self.lemma_mro_attr_range(self.classes[c as int].mro@, 0, name);
    }

    /// Replacing one object in the heap, without touching its class-object
    /// role, keeps the runtime well formed.
    pub proof fn lemma_wf_update(pre: Vm, post: Vm, o: ObjId)
        requires
            pre.wf(),
            o < pre.heap.len(),
            post.heap@.len() == pre.heap@.len(),
            forall|i: int| 0 <= i < pre.heap@.len() && i != o ==> post.heap@[i] == pre.heap@[i],
            post.heap@[o as int].type_of == pre.heap@[o as int].type_of,
            post.wf_obj(post.heap@[o as int]),
            post.classes == pre.classes,
            Vm::same_config(pre, post),
        ensures
            post.wf(),
    {
        assert forall|i: int| 0 <= i < post.heap.len() implies post.wf_obj(
            #[trigger] post.heap[i],
        ) by {
            if i != o {
                assert(post.heap[i] == pre.heap[i]);
                assert(pre.wf_obj(pre.heap[i]));
            }
        }
        assert forall|c: int| 0 <= c < post.classes.len() implies post.wf_class(c) by {
            assert(pre.wf_class(c));
            let cd = post.classes[c];
            if cd.obj == o {
                assert(post.heap[cd.obj as int].type_of == pre.heap[cd.obj as int].type_of);
            }
        }
        assert forall|i: int| 0 <= i < post.heap.len() implies ((#[trigger] post.heap[i]).type_of
            matches Some(c) ==> post.classes[c as int].obj == i) by {
            if i != o {
                assert(post.heap[i] == pre.heap[i]);
            }
        }
    }

    /// Appending a fresh non-class object keeps the runtime well formed.
    pub proof fn lemma_wf_push(pre: Vm, post: Vm, od: ObjectData)
        requires
            pre.wf(),
            pre.heap@.len() + 1 < 0x7fff_ffff_ffff_ffff,
            post.heap@ == pre.heap@.push(od),
            od.type_of is None,
            post.wf_obj(od),
            post.classes == pre.classes,
            Vm::same_config(pre, post),
        ensures
            post.wf(),
    {
        assert forall|i: int| 0 <= i < post.heap.len() implies post.wf_obj(
            #[trigger] post.heap[i],
        ) by {
            if i < pre.heap.len() {
                assert(post.heap[i] == pre.heap[i]);
                assert(pre.wf_obj(pre.heap[i]));
            } else {
                assert(post.heap[i] == od);
            }
        }
        assert forall|c: int| 0 <= c < post.classes.len() implies post.wf_class(c) by {
            assert(pre.wf_class(c));
            let cd = post.classes[c];
            assert(post.heap[cd.obj as int] == pre.heap[cd.obj as int]);
        }
        assert forall|i: int| 0 <= i < post.heap.len() implies ((#[trigger] post.heap[i]).type_of
            matches Some(c) ==> post.classes[c as int].obj == i) by {
            if i < pre.heap.len() {
                assert(post.heap[i] == pre.heap[i]);
            }
        }
    }

    /// Appending a class together with its canonical object keeps the runtime
    /// well formed.
    pub proof fn lemma_wf_add_class(pre: Vm, post: Vm, od: ObjectData, cd: ClassData)
        requires
            pre.wf(),
            pre.heap@.len() + 1 < 0x7fff_ffff_ffff_ffff,
            post.heap@ == pre.heap@.push(od),
            post.classes@ == pre.classes@.push(cd),
            od.type_of == Some(pre.classes@.len() as ClassId),
            od.class < pre.classes@.len(),
            (od.dict matches Some(d) ==> keys_unique(d@) && forall|k: int|
                0 <= k < d@.len() ==> (#[trigger] d@[k]).1 < post.heap@.len()),
            od.elems is None,
            od.entries is None,
            od.cell is None,
            cd.obj == pre.heap@.len(),
            cd.mro@.len() >= 1,
            cd.mro@[0] == pre.classes@.len(),
            forall|k: int| 0 <= k < cd.mro@.len() ==> #[trigger] cd.mro@[k] < post.classes@.len(),
            keys_unique(cd.attrs@),
            forall|k: int| 0 <= k < cd.attrs@.len() ==> (#[trigger] cd.attrs@[k]).1 < pre.heap@.len(),
            post.wf_slots(cd.slots),
            Vm::same_config(pre, post),
        ensures
            post.wf(),
    {
        assert forall|i: int| 0 <= i < post.heap.len() implies post.wf_obj(
            #[trigger] post.heap[i],
        ) by {
            if i < pre.heap.len() {
                assert(post.heap[i] == pre.heap[i]);
                assert(pre.wf_obj(pre.heap[i]));
            } else {
                assert(post.heap[i] == od);
            }
        }
        assert forall|c: int| 0 <= c < post.classes.len() implies post.wf_class(c) by {
            if c < pre.classes.len() {
                assert(pre.wf_class(c));
                assert(post.classes[c] == pre.classes[c]);
                let cc = pre.classes[c];
                assert(post.heap[cc.obj as int] == pre.heap[cc.obj as int]);
            } else {
                assert(post.classes[c] == cd);
                assert(post.heap[cd.obj as int] == od);
            }
        }
        assert forall|i: int| 0 <= i < post.heap.len() implies ((#[trigger] post.heap[i]).type_of
            matches Some(c) ==> post.classes[c as int].obj == i) by {
            if i < pre.heap.len() {
                assert(post.heap[i] == pre.heap[i]);
                if pre.heap[i].type_of is Some {
                    let c = pre.heap[i].type_of->0;
                    assert(pre.classes[c as int].obj == i);
                    assert(post.classes[c as int] == pre.classes[c as int]);
                }
            } else {
                assert(post.heap[i] == od);
            }
        }
    }

    /// The constraints a caller-built object must meet before it can join the
    /// heap: it references only live objects and classes, its keyed storages
    /// are unique, and it does not claim to be a class.
    pub open spec fn ok_object_data(self, od: ObjectData) -> bool {
        &&& od.class < self.classes.len()
        &&& (od.dict matches Some(d) ==> keys_unique(d@) && forall|k: int|
            0 <= k < d@.len() ==> (#[trigger] d@[k]).1 < self.heap.len())
        &&& (od.elems matches Some(e) ==> forall|k: int|
            0 <= k < e@.len() ==> #[trigger] e@[k] < self.heap.len())
        &&& (od.entries matches Some(e) ==> entry_keys_unique(e@) && forall|k: int|
            0 <= k < e@.len() ==> (#[trigger] e@[k]).1 < self.heap.len())
        &&& (od.cell matches Some(v) ==> v < self.heap.len())
        &&& od.type_of is None
    }

    /// Allocates an object. The identity of the new object is the heap length
    /// before the call.
    pub fn new_object(&mut self, data: ObjectData) -> (r: ObjId)
        requires
            old(self).wf(),
            old(self).ok_object_data(data),
            old(self).heap.len() + 1 < 0x7fff_ffff_ffff_ffff,
        ensures
            final(self).wf(),
            r == old(self).heap@.len(),
            final(self).heap@ == old(self).heap@.push(data),
            final(self).classes == old(self).classes,
            Vm::same_config(*old(self), *final(self)),
    {
        let r = self.heap.len();
        let ghost pre = *self;
        self.heap.push(data);
        proof {
            Vm::lemma_wf_push(pre, *self, data);
        }
        r
    }

    /// Allocates an integer object carrying `v`.
    pub fn new_int(&mut self, v: i64) -> (r: ObjId)
        requires
            old(self).wf(),
            old(self).heap.len() + 1 < 0x7fff_ffff_ffff_ffff,
        ensures
            final(self).wf(),
            r == old(self).heap@.len(),
            final(self).heap@.len() == old(self).heap@.len() + 1,
            final(self).heap@[r as int].class == old(self).int_class,
            final(self).heap@[r as int].payload matches Some(p) && p@ =~= seq![v],
            forall|i: int|
                0 <= i < old(self).heap@.len() ==> final(self).heap@[i] == old(self).heap@[i],
            final(self).classes == old(self).classes,
            Vm::same_config(*old(self), *final(self)),
    {
        let mut p: Vec<i64> = Vec::new();
        p.push(v);
        let data = ObjectData {
            class: self.int_class,
            dict: None,
            payload: Some(p),
            elems: None,
            entries: None,
            text: None,
            cell: None,
            type_of: None,
        };
        self.new_object(data)
    }

    /// Allocates a string object carrying `s`.
    pub fn new_str(&mut self, s: String) -> (r: ObjId)
        requires
            old(self).wf(),
            old(self).heap.len() + 1 < 0x7fff_ffff_ffff_ffff,
        ensures
            final(self).wf(),
            r == old(self).heap@.len(),
            final(self).heap@.len() == old(self).heap@.len() + 1,
            final(self).heap@[r as int].class == old(self).str_class,
            final(self).heap@[r as int].text matches Some(t) && t@ == s@,
            forall|i: int|
                0 <= i < old(self).heap@.len() ==> final(self).heap@[i] == old(self).heap@[i],
            final(self).classes == old(self).classes,
            Vm::same_config(*old(self), *final(self)),
    {
        let data = ObjectData {
            class: self.str_class,
            dict: None,
            payload: None,
            elems: None,
            entries: None,
            text: Some(s),
            cell: None,
            type_of: None,
        };
        self.new_object(data)
    }

    /// Allocates a tuple object over the given elements.
    pub fn new_tuple(&mut self, elems: Vec<ObjId>) -> (r: ObjId)
        requires
            old(self).wf(),
            forall|k: int| 0 <= k < elems@.len() ==> #[trigger] elems@[k] < old(self).heap.len(),
            old(self).heap.len() + 1 < 0x7fff_ffff_ffff_ffff,
        ensures
            final(self).wf(),
            r == old(self).heap@.len(),
            final(self).heap@.len() == old(self).heap@.len() + 1,
            final(self).heap@[r as int].class == old(self).tuple_class,
            final(self).heap@[r as int].elems matches Some(e) && e@ == elems@,
            forall|i: int|
                0 <= i < old(self).heap@.len() ==> final(self).heap@[i] == old(self).heap@[i],
            final(self).classes == old(self).classes,
            Vm::same_config(*old(self), *final(self)),
    {
        let data = ObjectData {
            class: self.tuple_class,
            dict: None,
            payload: None,
            elems: Some(elems),
            entries: None,
            text: None,
            cell: None,
            type_of: None,
        };
        self.new_object(data)
    }

    /// Whether the ancestor order of `c` contains `t`, as executable code.
    pub fn mro_has(&self, c: ClassId, t: ClassId) -> (r: bool)
        requires
            self.wf(),
            c < self.classes.len(),
        ensures
            r == self.mro_contains(c, t),
    {
        let mro = &self.classes[c].mro;
        let n = mro.len();
        let mut i: usize = 0;
        while i < n
            invariant
                mro == &self.classes@[c as int].mro,
                i <= n,
                n == mro@.len(),
                forall|j: int| 0 <= j < i ==> mro@[j] != t,
            decreases n - i,
        {
            if mro[i] == t {
                proof {
                    assert(mro@[i as int] == t);
                }
                return true;
            }
            i += 1;
        }
        proof {
            if mro@.contains(t) {
                let j = choose|j: int| 0 <= j < mro@.len() && mro@[j] == t;
                assert(false);
            }
        }
        false
    }

    /// The length the published length protocols give `o`: the sequence
    /// protocol first, then the mapping protocol, else nothing.
    pub open spec fn sp_length_opt(self, o: ObjId) -> Option<int> {
        let rs = self.sp_resolved(self.class_of(o));
        if rs.seq_len && self.heap[o as int].elems is Some {
            Some(self.heap[o as int].elems->0@.len() as int)
        } else if rs.map_len && self.heap[o as int].entries is Some {
            Some(self.heap[o as int].entries->0@.len() as int)
        } else {
            None
        }
    }

    /// The resolved hook table references only live objects.
    pub proof fn lemma_slots_from_wf(self, mro: Seq<ClassId>, i: int)
        requires
            self.wf(),
        ensures
            self.wf_slots(self.sp_slots_from(mro, i)),
        decreases mro.len() - i,
    {
        if i < 0 || i >= mro.len() {
        } else {
            self.lemma_slots_from_wf(mro, i + 1);
            let c = mro[i];
            if c < self.classes.len() {
                assert(self.wf_class(c as int));
            }
        }
    }

    /// The resolved hook table of a live class references only live objects.
    pub proof fn lemma_resolved_wf(self, c: ClassId)
        requires
            self.wf(),
            c < self.classes.len(),
        ensures
            self.wf_slots(self.sp_resolved(c)),
    {
        self.lemma_slots_from_wf(self.classes[c as int].mro@, 0);
    }

    /// Changing only the fixed identities of the runtime, to live values,
    /// keeps it well formed.
    pub proof fn lemma_wf_set_ids(pre: Vm, post: Vm)
        requires
            pre.wf(),
            post.heap == pre.heap,
            post.classes == pre.classes,
            post.object_class < post.classes.len(),
            post.type_class < post.classes.len(),
            post.tuple_class < post.classes.len(),
            post.str_class < post.classes.len(),
            post.int_class < post.classes.len(),
            post.dict_class < post.classes.len(),
            post.bytes_class < post.classes.len(),
            post.none_class < post.classes.len(),
            post.bool_class < post.classes.len(),
            post.async_gen_class < post.classes.len(),
            post.alias_class < post.classes.len(),
            post.none_obj < post.heap.len(),
            post.true_obj < post.heap.len(),
            post.false_obj < post.heap.len(),
        ensures
            post.wf(),
    {
        assert forall|i: int| 0 <= i < post.heap.len() implies post.wf_obj(
            #[trigger] post.heap[i],
        ) by {
            assert(pre.wf_obj(pre.heap[i]));
        }
        assert forall|c: int| 0 <= c < post.classes.len() implies post.wf_class(c) by {
            assert(pre.wf_class(c));
        }
    }

    /// Builds a fresh runtime holding the foundational classes (the root
    /// `object` class, the `type` metaclass, tuples, strings, integers,
    /// mappings, byte strings, `NoneType`, booleans, asynchronous generators,
    /// class-subscription aliases) and the `None`, `True` and `False`
    /// singletons.
    pub fn new() -> (r: Vm)
        ensures
            r.wf(),
            r.classes@.len() == 11,
            r.heap@.len() == 22,
    {
        let mut heap: Vec<ObjectData> = Vec::new();
        let mut d0: Vec<(String, ObjId)> = Vec::new();
        heap.push(
            ObjectData {
                class: 1,
                dict: Some(d0),
                payload: None,
                elems: None,
                entries: None,
                text: None,
                cell: None,
                type_of: Some(0),
            },
        );
        let mut d1: Vec<(String, ObjId)> = Vec::new();
        heap.push(
            ObjectData {
                class: 1,
                dict: Some(d1),
                payload: None,
                elems: None,
                entries: None,
                text: None,
                cell: None,
                type_of: Some(1),
            },
        );
        let mut d2: Vec<(String, ObjId)> = Vec::new();
        heap.push(
            ObjectData {
                class: 1,
                dict: Some(d2),
                payload: None,
                elems: None,
                entries: None,
                text: None,
                cell: None,
                type_of: Some(2),
            },
        );
        let mut classes: Vec<ClassData> = Vec::new();
        let mut oslots = Slots::empty();
        oslots.getattro = true;
        oslots.setattro = true;
        let mut omro: Vec<ClassId> = Vec::new();
        omro.push(0);
        classes.push(
            ClassData {
                name: "object".to_owned(),
                mro: omro,
                attrs: Vec::new(),
                obj: 0,
                slots: oslots,
            },
        );
        let mut tmro: Vec<ClassId> = Vec::new();
        tmro.push(1);
        tmro.push(0);
        classes.push(
            ClassData {
                name: "type".to_owned(),
                mro: tmro,
                attrs: Vec::new(),
                obj: 1,
                slots: Slots::empty(),
            },
        );
        let mut tuslots = Slots::empty();
        tuslots.seq_item = true;
        tuslots.seq_len = true;
        tuslots.truth = Some(TruthHook::NonEmpty);
        let mut tumro: Vec<ClassId> = Vec::new();
        tumro.push(2);
        tumro.push(0);
        classes.push(
            ClassData {
                name: "tuple".to_owned(),
                mro: tumro,
                attrs: Vec::new(),
                obj: 2,
                slots: tuslots,
            },
        );
        let mut vm = Vm {
            heap,
            classes,
            object_class: 0,
            type_class: 1,
            tuple_class: 2,
            str_class: 0,
            int_class: 0,
            dict_class: 0,
            bytes_class: 0,
            none_class: 0,
            bool_class: 0,
            async_gen_class: 0,
            alias_class: 0,
            none_obj: 0,
            true_obj: 0,
            false_obj: 0,
        };
        proof {
            assert forall|i: int| 0 <= i < vm.heap@.len() implies vm.wf_obj(
                #[trigger] vm.heap@[i],
            ) by {
                assert(vm.heap@.len() == 3);
                if i == 0 {
                    assert(vm.wf_obj(vm.heap@[0]));
                } else if i == 1 {
                    assert(vm.wf_obj(vm.heap@[1]));
                } else {
                    assert(vm.wf_obj(vm.heap@[2]));
                }
            }
            assert forall|c: int| 0 <= c < vm.classes@.len() implies vm.wf_class(c) by {
                assert(vm.classes@.len() == 3);
                if c == 0 {
                    assert(vm.wf_class(0));
                } else if c == 1 {
                    assert(vm.wf_class(1));
                } else {
                    assert(vm.wf_class(2));
                }
            }
            assert(vm.wf());
        }
        let mut anc: Vec<ClassId> = Vec::new();
        anc.push(0);
        let sc = vm.add_class("str".to_owned(), anc, Slots::empty(), Vec::new());
        let mut islots = Slots::empty();
        islots.richcompare = Some(CmpHook::ByPayload);
        islots.hash = Some(HashHook::ByPayload);
        islots.truth = Some(TruthHook::PayloadNonzero);
        let mut anc2: Vec<ClassId> = Vec::new();
        anc2.push(0);
        let ic = vm.add_class("int".to_owned(), anc2, islots, Vec::new());
        let mut dslots = Slots::empty();
        dslots.map_subscript = true;
        dslots.map_ass = true;
        dslots.map_len = true;
        dslots.truth = Some(TruthHook::NonEmpty);
        let mut anc3: Vec<ClassId> = Vec::new();
        anc3.push(0);
        let dc = vm.add_class("dict".to_owned(), anc3, dslots, Vec::new());
        let mut byslots = Slots::empty();
        byslots.richcompare = Some(CmpHook::ByPayload);
        byslots.hash = Some(HashHook::ByPayload);
        let mut anc4: Vec<ClassId> = Vec::new();
        anc4.push(0);
        let byc = vm.add_class("bytes".to_owned(), anc4, byslots, Vec::new());
        let mut nslots = Slots::empty();
        nslots.truth = Some(TruthHook::Always(false));
        let mut anc5: Vec<ClassId> = Vec::new();
        anc5.push(0);
        let nc = vm.add_class("NoneType".to_owned(), anc5, nslots, Vec::new());
        let mut anc6: Vec<ClassId> = Vec::new();
        anc6.push(ic);
        anc6.push(0);
        let bc = vm.add_class("bool".to_owned(), anc6, Slots::empty(), Vec::new());
        let mut anc7: Vec<ClassId> = Vec::new();
        anc7.push(0);
        let agc = vm.add_class("async_generator".to_owned(), anc7, Slots::empty(), Vec::new());
        let mut anc8: Vec<ClassId> = Vec::new();
        anc8.push(0);
        let alc = vm.add_class("generic_alias".to_owned(), anc8, Slots::empty(), Vec::new());
        let no = vm.new_object(
            ObjectData {
                class: nc,
                dict: None,
                payload: None,
                elems: None,
                entries: None,
                text: None,
                cell: None,
                type_of: None,
            },
        );
        let mut tp: Vec<i64> = Vec::new();
        tp.push(1);
        let to = vm.new_object(
            ObjectData {
                class: bc,
                dict: None,
                payload: Some(tp),
                elems: None,
                entries: None,
                text: None,
                cell: None,
                type_of: None,
            },
        );
        let mut fp: Vec<i64> = Vec::new();
        fp.push(0);
        let fo = vm.new_object(
            ObjectData {
                class: bc,
                dict: None,
                payload: Some(fp),
                elems: None,
                entries: None,
                text: None,
                cell: None,
                type_of: None,
            },
        );
        let ghost pre = vm;
        vm.str_class = sc;
        vm.int_class = ic;
        vm.dict_class = dc;
        vm.bytes_class = byc;
        vm.none_class = nc;
        vm.bool_class = bc;
        vm.async_gen_class = agc;
        vm.alias_class = alc;
        vm.none_obj = no;
        vm.true_obj = to;
        vm.false_obj = fo;
        proof {
            Vm::lemma_wf_set_ids(pre, vm);
        }
        vm
    }

    /// Registers a class from consumed metadata: a name, the ordered ancestor
    /// sequence (the new class itself is prepended), a hook table and a
    /// class-level attribute table. Also materializes the class's canonical
    /// object, whose instance storage exposes the bases as a tuple under
    /// `__bases__`.
    pub fn add_class(
        &mut self,
        name: String,
        ancestors: Vec<ClassId>,
        slots: Slots,
        attrs: Vec<(String, ObjId)>,
    ) -> (r: ClassId)
        requires
            old(self).wf(),
            forall|k: int|
                0 <= k < ancestors@.len() ==> #[trigger] ancestors@[k] < old(self).classes.len(),
            keys_unique(attrs@),
            forall|k: int|
                0 <= k < attrs@.len() ==> (#[trigger] attrs@[k]).1 < old(self).heap.len(),
            old(self).wf_slots(slots),
            old(self).heap.len() + 2 < 0x7fff_ffff_ffff_ffff,
        ensures
            final(self).wf(),
            Vm::same_config(*old(self), *final(self)),
            r == old(self).classes@.len(),
            final(self).classes@.len() == old(self).classes@.len() + 1,
            forall|c: int|
                0 <= c < old(self).classes@.len() ==> final(self).classes@[c] == old(
                    self,
                ).classes@[c],
            final(self).classes@[r as int].name@ == name@,
            final(self).classes@[r as int].mro@ == seq![r as ClassId] + ancestors@,
            final(self).classes@[r as int].attrs == attrs,
            final(self).classes@[r as int].obj == old(self).heap@.len() + 1,
            final(self).classes@[r as int].slots == slots,
            final(self).heap@.len() == old(self).heap@.len() + 2,
            forall|i: int|
                0 <= i < old(self).heap@.len() ==> final(self).heap@[i] == old(self).heap@[i],
            final(self).heap@[old(self).heap@.len() as int].class == old(self).tuple_class,
            final(self).heap@[old(self).heap@.len() as int].elems matches Some(e)
                && e@.len() == ancestors@.len() && forall|k: int|
                0 <= k < ancestors@.len() ==> e@[k] == old(self).classes@[ancestors@[k] as int].obj,
            final(self).heap@[old(self).heap@.len() as int + 1].type_of == Some(r),
            final(self).heap@[old(self).heap@.len() as int + 1].class == old(self).type_class,
            final(self).heap@[old(self).heap@.len() as int + 1].dict matches Some(d) && d@.len() == 1
                && d@[0].0@ == "__bases__"@ && d@[0].1 == old(self).heap@.len(),
    {
        let r = self.classes.len();
        let na = ancestors.len();
        let mut bobjs: Vec<ObjId> = Vec::new();
        let mut k: usize = 0;
        while k < na
            invariant
                self.wf(),
                *self == *old(self),
                na == ancestors@.len(),
                forall|j: int|
                    0 <= j < ancestors@.len() ==> #[trigger] ancestors@[j] < self.classes.len(),
                k <= na,
                bobjs@.len() == k,
                forall|j: int|
                    0 <= j < k ==> #[trigger] bobjs@[j] == self.classes@[ancestors@[j] as int].obj,
            decreases na - k,
        {
            let a = ancestors[k];
            assert(self.wf_class(a as int));
            bobjs.push(self.classes[a].obj);
            k += 1;
        }
        assert forall|j: int| 0 <= j < bobjs@.len() implies #[trigger] bobjs@[j]
            < self.heap.len() by {
            assert(self.wf_class(ancestors@[j] as int));
        }
        let tid = self.new_tuple(bobjs);
        let mut cdict: Vec<(String, ObjId)> = Vec::new();
        cdict.push(("__bases__".to_owned(), tid));
        let cobj_data = ObjectData {
            class: self.type_class,
            dict: Some(cdict),
            payload: None,
            elems: None,
            entries: None,
            text: None,
            cell: None,
            type_of: Some(r),
        };
        let mut mro: Vec<ClassId> = Vec::new();
        mro.push(r);
        let mut k2: usize = 0;
        while k2 < na
            invariant
                na == ancestors@.len(),
                k2 <= na,
                mro@.len() == k2 + 1,
                mro@[0] == r,
                forall|j: int| 1 <= j <= k2 ==> #[trigger] mro@[j] == ancestors@[j - 1],
            decreases na - k2,
        {
            mro.push(ancestors[k2]);
            k2 += 1;
        }
        proof {
            assert(mro@ =~= seq![r as ClassId] + ancestors@);
        }
        let obj_id = self.heap.len();
        let cd = ClassData { name, mro, attrs, obj: obj_id, slots };
        let ghost pre = *self;
        let ghost cobj_g = cobj_data;
        let ghost cd_g = cd;
        self.heap.push(cobj_data);
        self.classes.push(cd);
        proof {
            assert(pre.wf_slots(cd_g.slots));
            assert(self.wf_slots(cd_g.slots));
            Vm::lemma_wf_add_class(pre, *self, cobj_g, cd_g);
        }
        r
    }

    /// Allocates a foundational mapping object over the given entries.
    pub fn new_dict(&mut self, entries: Vec<(i64, ObjId)>) -> (r: ObjId)
        requires
            old(self).wf(),
            entry_keys_unique(entries@),
            forall|k: int|
                0 <= k < entries@.len() ==> (#[trigger] entries@[k]).1 < old(self).heap.len(),
            old(self).heap.len() + 1 < 0x7fff_ffff_ffff_ffff,
        ensures
            final(self).wf(),
            r == old(self).heap@.len(),
            final(self).heap@.len() == old(self).heap@.len() + 1,
            final(self).heap@[r as int].class == old(self).dict_class,
            final(self).heap@[r as int].entries matches Some(e) && e@ == entries@,
            forall|i: int|
                0 <= i < old(self).heap@.len() ==> final(self).heap@[i] == old(self).heap@[i],
            final(self).classes == old(self).classes,
            Vm::same_config(*old(self), *final(self)),
    {
        let data = ObjectData {
            class: self.dict_class,
            dict: None,
            payload: None,
            elems: None,
            entries: Some(entries),
            text: None,
            cell: None,
            type_of: None,
        };
        self.new_object(data)
    }
}

} // verus!
