//! Item Access Engine: subscript get, set and delete with
//! mapping-protocol-then-sequence-protocol precedence, class subscription,
//! and the length protocol.
//!
//! A foundational mapping uses its direct path; otherwise the mapping
//! protocol (subscript by key) precedes the sequence protocol (key coerced to
//! an integer index). Reading a subscript of a class that publishes a
//! class-subscription hook builds a parameterization object; assignment and
//! deletion have no such special case.

use vstd::prelude::*;

use crate::data::{ErrView, ObjId, ObjectData, PyErr, res_view};
use crate::vm::{
    Vm, entries_find, entry_keys_unique, lemma_entries_get_push, lemma_entries_get_remove,
    lemma_entries_get_update, sp_entries_get,
};

verus! {

/// The outcome of a subscript read, before any allocation: a finished result,
/// or the instruction to build a class parameterization with the given
/// origin.
pub enum ItemGot {
    Done(Result<ObjId, ErrView>),
    Alias(ObjId),
}

impl Vm {
    /// The integer a subscript key coerces to: the value of a single-element
    /// numeric payload.
    pub open spec fn sp_key_int(self, needle: ObjId) -> Option<i64> {
        match self.heap[needle as int].payload {
            Some(p) => if p@.len() == 1 {
                Some(p@[0])
            } else {
                None
            },
            None => None,
        }
    }

    /// The entry storage of an object, empty when it has none.
    pub open spec fn sp_entries_of(self, o: ObjId) -> Seq<(i64, ObjId)> {
        match self.heap[o as int].entries {
            Some(e) => e@,
            None => Seq::empty(),
        }
    }

    /// The element storage of an object, empty when it has none.
    pub open spec fn sp_elems_of(self, o: ObjId) -> Seq<ObjId> {
        match self.heap[o as int].elems {
            Some(e) => e@,
            None => Seq::empty(),
        }
    }

    /// The outcome of a mapping lookup: the key must be integer-convertible
    /// and present.
    pub open spec fn sp_map_lookup(self, o: ObjId, needle: ObjId) -> Result<ObjId, ErrView> {
        match self.sp_key_int(needle) {
            None => Err(
                ErrView::KeyNotInt { class_name: self.class_name(self.class_of(needle)) },
            ),
            Some(k) => match sp_entries_get(self.sp_entries_of(o), k) {
                Some(v) => Ok(v),
                None => Err(ErrView::KeyMissing { key: k }),
            },
        }
    }

    /// The position a subscript key selects in the element storage: the key
    /// must be integer-convertible, with negative keys counting from the end.
    pub open spec fn sp_seq_index(self, o: ObjId, needle: ObjId) -> Result<int, ErrView> {
        match self.sp_key_int(needle) {
            None => Err(
                ErrView::KeyNotInt { class_name: self.class_name(self.class_of(needle)) },
            ),
            Some(k) => {
                let len = self.sp_elems_of(o).len() as int;
                if 0 <= k < len {
                    Ok(k as int)
                } else if 0 <= k + len < len {
                    Ok(k + len)
                } else {
                    Err(ErrView::IndexOutOfRange { index: k })
                }
            },
        }
    }

    /// The outcome of a subscript read: the foundational mapping's direct
    /// path, then the mapping protocol, then the sequence protocol, then
    /// class subscription for class objects, else not subscriptable.
    pub open spec fn sp_get_item(self, o: ObjId, needle: ObjId) -> ItemGot {
        let oc = self.class_of(o);
        let rs = self.sp_resolved(oc);
        if oc == self.dict_class {
            ItemGot::Done(self.sp_map_lookup(o, needle))
        } else if rs.map_subscript {
            ItemGot::Done(self.sp_map_lookup(o, needle))
        } else if rs.seq_item {
            ItemGot::Done(
                match self.sp_seq_index(o, needle) {
                    Err(e) => Err(e),
                    Ok(i) => Ok(self.sp_elems_of(o)[i]),
                },
            )
        } else if self.mro_contains(oc, self.type_class) {
            if o == self.class_obj(self.type_class) {
                ItemGot::Alias(self.class_obj(oc))
            } else if self.is_type_obj(o) && self.sp_resolved(self.as_type(o)).class_getitem {
                ItemGot::Alias(o)
            } else {
                ItemGot::Done(Err(ErrView::NotSubscriptable { class_name: self.class_name(oc) }))
            }
        } else {
            ItemGot::Done(Err(ErrView::NotSubscriptable { class_name: self.class_name(oc) }))
        }
    }

    /// Reads `o[needle]`. A class-subscription read allocates the
    /// parameterization object, leaving the rest of the heap untouched;
    /// every other path leaves the runtime unchanged.
    pub fn get_item(&mut self, o: ObjId, needle: ObjId) -> (r: Result<ObjId, PyErr>)
        requires
            old(self).wf(),
            o < old(self).heap.len(),
            needle < old(self).heap.len(),
            old(self).heap.len() + 1 < 0x7fff_ffff_ffff_ffff,
        ensures
            final(self).wf(),
            match Vm::sp_get_item(*old(self), o, needle) {
                ItemGot::Done(res) => *final(self) == *old(self) && res_view(r) == res,
                ItemGot::Alias(origin) => {
                    &&& final(self).heap@.len() == old(self).heap@.len() + 1
                    &&& (forall|i: int|
                        0 <= i < old(self).heap@.len() ==> final(self).heap@[i] == old(
                            self,
                        ).heap@[i])
                    &&& final(self).classes == old(self).classes
                    &&& Vm::same_config(*old(self), *final(self))
                    &&& r == Ok::<ObjId, PyErr>(old(self).heap@.len() as ObjId)
                    &&& final(self).heap@[old(self).heap@.len() as int].class == old(
                        self,
                    ).alias_class
                    &&& final(self).heap@[old(self).heap@.len() as int].elems matches Some(e)
                        && e@ =~= seq![origin, needle]
                },
            },
    {
        let oc = self.heap[o].class;
        proof {
            assert(self.wf_obj(self.heap@[o as int]));
            assert(self.wf_obj(self.heap@[needle as int]));
        }
        let rs = self.resolve_slots(oc);
        if oc == self.dict_class || rs.map_subscript {
            return self.map_lookup(o, needle);
        }
        if rs.seq_item {
            let i = match self.seq_index(o, needle) {
                Ok(i) => i,
                Err(e) => {
                    return Err(e);
                },
            };
            match &self.heap[o].elems {
                Some(es) => {
                    return Ok(es[i]);
                },
                None => {
                    // A valid index exists only when element storage does.
                    proof {
                        assert(false);
                    }
                    return Err(PyErr::IndexOutOfRange { index: 0 });
                },
            }
        }
        if self.mro_has(oc, self.type_class) {
            proof {
                assert(self.wf_class(oc as int));
                assert(self.wf_class(self.type_class as int));
            }
            if o == self.classes[self.type_class].obj {
                let origin = self.classes[oc].obj;
                return Ok(self.push_alias(origin, needle));
            }
            let is_cgi = match self.heap[o].type_of {
                Some(t) => self.resolve_slots(t).class_getitem,
                None => false,
            };
            if is_cgi {
                return Ok(self.push_alias(o, needle));
            }
        }
        let cn = self.classes[oc].name.clone();
        Err(PyErr::NotSubscriptable { class_name: cn })
    }

    /// Allocates a class-parameterization object pairing the origin with the
    /// subscript key.
    fn push_alias(&mut self, origin: ObjId, needle: ObjId) -> (r: ObjId)
        requires
            old(self).wf(),
            origin < old(self).heap.len(),
            needle < old(self).heap.len(),
            old(self).heap.len() + 1 < 0x7fff_ffff_ffff_ffff,
        ensures
            final(self).wf(),
            final(self).heap@.len() == old(self).heap@.len() + 1,
            forall|i: int|
                0 <= i < old(self).heap@.len() ==> final(self).heap@[i] == old(self).heap@[i],
            final(self).classes == old(self).classes,
            Vm::same_config(*old(self), *final(self)),
            r == old(self).heap@.len(),
            final(self).heap@[r as int].class == old(self).alias_class,
            final(self).heap@[r as int].elems matches Some(e) && e@ =~= seq![origin, needle],
    {
        let mut es: Vec<ObjId> = Vec::new();
        es.push(origin);
        es.push(needle);
        let data = ObjectData {
            class: self.alias_class,
            dict: None,
            payload: None,
            elems: Some(es),
            entries: None,
            text: None,
            cell: None,
            type_of: None,
        };
        self.new_object(data)
    }

    /// Mapping lookup, as executable code.
    fn map_lookup(&self, o: ObjId, needle: ObjId) -> (r: Result<ObjId, PyErr>)
        requires
            self.wf(),
            o < self.heap.len(),
            needle < self.heap.len(),
        ensures
            res_view(r) == self.sp_map_lookup(o, needle),
    {
        proof {
            assert(self.wf_obj(self.heap@[needle as int]));
            assert(self.wf_obj(self.heap@[o as int]));
        }
        let k = match self.key_int(needle) {
            Some(k) => k,
            None => {
                let cn = self.classes[self.heap[needle].class].name.clone();
                return Err(PyErr::KeyNotInt { class_name: cn });
            },
        };
        let v = match &self.heap[o].entries {
            Some(es) => crate::vm::entries_get(es, k),
            None => None,
        };
        match v {
            Some(v) => Ok(v),
            None => Err(PyErr::KeyMissing { key: k }),
        }
    }

    /// Integer coercion of a subscript key, as executable code.
    pub(crate) fn key_int(&self, needle: ObjId) -> (r: Option<i64>)
        requires
            self.wf(),
            needle < self.heap.len(),
        ensures
            r == self.sp_key_int(needle),
    {
        match &self.heap[needle].payload {
            Some(p) => if p.len() == 1 {
                Some(p[0])
            } else {
                None
            },
            None => None,
        }
    }

    /// Index normalization of a subscript key, as executable code.
    fn seq_index(&self, o: ObjId, needle: ObjId) -> (r: Result<usize, PyErr>)
        requires
            self.wf(),
            o < self.heap.len(),
            needle < self.heap.len(),
        ensures
            match self.sp_seq_index(o, needle) {
                Ok(i) => r matches Ok(x) && x as int == i && i < self.sp_elems_of(o).len(),
                Err(e) => r matches Err(e2) && e2@ == e,
            },
    {
        proof {
            assert(self.wf_obj(self.heap@[needle as int]));
            assert(self.wf_obj(self.heap@[o as int]));
        }
        let k = match self.key_int(needle) {
            Some(k) => k,
            None => {
                let cn = self.classes[self.heap[needle].class].name.clone();
                return Err(PyErr::KeyNotInt { class_name: cn });
            },
        };
        let len: usize = match &self.heap[o].elems {
            Some(es) => es.len(),
            None => 0,
        };
        if k >= 0 && (k as u64) < (len as u64) {
            Ok(k as usize)
        } else if k < 0 {
            let neg: i64 = -(k + 1);
            if (neg as u64) < (len as u64) {
                Ok(len - 1 - (neg as usize))
            } else {
                Err(PyErr::IndexOutOfRange { index: k })
            }
        } else {
            Err(PyErr::IndexOutOfRange { index: k })
        }
    }
}

impl Vm {
    /// The two objects agree on everything but entry storage.
    pub open spec fn sp_obj_same_but_entries(a: ObjectData, b: ObjectData) -> bool {
        &&& b.class == a.class
        &&& b.dict == a.dict
        &&& b.payload == a.payload
        &&& b.elems == a.elems
        &&& b.text == a.text
        &&& b.cell == a.cell
        &&& b.type_of == a.type_of
    }

    /// The two objects agree on everything but element storage.
    pub open spec fn sp_obj_same_but_elems(a: ObjectData, b: ObjectData) -> bool {
        &&& b.class == a.class
        &&& b.dict == a.dict
        &&& b.payload == a.payload
        &&& b.entries == a.entries
        &&& b.text == a.text
        &&& b.cell == a.cell
        &&& b.type_of == a.type_of
    }

    /// How a subscript assignment relates the new state and result to the old
    /// one: the mapping assignment hook first (an upsert of the entry
    /// storage), the sequence assignment hook second (an update at the
    /// normalized index), else the not-assignable failure.
    pub open spec fn sp_set_item_post(
        pre: Vm,
        post: Vm,
        o: ObjId,
        needle: ObjId,
        v: ObjId,
        r: Result<(), ErrView>,
    ) -> bool {
        let oc = pre.class_of(o);
        let rs = pre.sp_resolved(oc);
        if oc == pre.dict_class || rs.map_ass {
            match pre.sp_key_int(needle) {
                None => post == pre && r == Err::<(), ErrView>(
                    ErrView::KeyNotInt { class_name: pre.class_name(pre.class_of(needle)) },
                ),
                Some(k) => {
                    &&& r == Ok::<(), ErrView>(())
                    &&& Vm::sp_same_but_heap(pre, post)
                    &&& Vm::sp_heap_same_except(pre, post, o)
                    &&& Vm::sp_obj_same_but_entries(pre.heap@[o as int], post.heap@[o as int])
                    &&& post.heap@[o as int].entries is Some
                    &&& entry_keys_unique(post.heap@[o as int].entries->0@)
                    &&& forall|q: i64|
                        #[trigger] sp_entries_get(post.heap@[o as int].entries->0@, q) == (if q
                            == k {
                            Some(v)
                        } else {
                            sp_entries_get(pre.sp_entries_of(o), q)
                        })
                },
            }
        } else if rs.seq_ass {
            match pre.sp_seq_index(o, needle) {
                Err(e) => post == pre && r == Err::<(), ErrView>(e),
                Ok(i) => {
                    &&& r == Ok::<(), ErrView>(())
                    &&& Vm::sp_same_but_heap(pre, post)
                    &&& Vm::sp_heap_same_except(pre, post, o)
                    &&& Vm::sp_obj_same_but_elems(pre.heap@[o as int], post.heap@[o as int])
                    &&& post.heap@[o as int].elems matches Some(e) && e@ =~= pre.sp_elems_of(
                        o,
                    ).update(i, v)
                },
            }
        } else {
            &&& post == pre
            &&& r == Err::<(), ErrView>(
                ErrView::NotAssignable { class_name: pre.class_name(oc) },
            )
        }
    }

    /// Assigns `o[needle] = value`.
    pub fn set_item(&mut self, o: ObjId, needle: ObjId, value: ObjId) -> (r: Result<(), PyErr>)
        requires
            old(self).wf(),
            o < old(self).heap.len(),
            needle < old(self).heap.len(),
            value < old(self).heap.len(),
        ensures
            final(self).wf(),
            Vm::sp_set_item_post(*old(self), *final(self), o, needle, value, res_view(r)),
    {
        let oc = self.heap[o].class;
        proof {
            assert(self.wf_obj(self.heap@[o as int]));
            assert(self.wf_obj(self.heap@[needle as int]));
        }
        let rs = self.resolve_slots(oc);
        if oc == self.dict_class || rs.map_ass {
            let k = match self.key_int(needle) {
                Some(k) => k,
                None => {
                    let cn = self.classes[self.heap[needle].class].name.clone();
                    return Err(PyErr::KeyNotInt { class_name: cn });
                },
            };
            let idx = match &self.heap[o].entries {
                Some(es) => entries_find(es, k),
                None => None,
            };
            let ghost pre = *self;
            let ghost olde = pre.sp_entries_of(o);
            {
                let od = &mut self.heap[o];
                match &mut od.entries {
                    Some(es) => {
                        match idx {
                            Some(k2) => {
                                let e = &mut es[k2];
                                e.1 = value;
                            },
                            None => {
                                es.push((k, value));
                            },
                        }
                    },
                    None => {
                        let mut es: Vec<(i64, ObjId)> = Vec::new();
                        es.push((k, value));
                        od.entries = Some(es);
                    },
                }
            }
            proof {
                let newe = self.heap@[o as int].entries->0@;
                if pre.heap@[o as int].entries is Some {
                    match idx {
                        Some(k2) => {
                            assert(newe == olde.update(k2 as int, (olde[k2 as int].0, value)));
                            assert forall|q: i64|
                                #[trigger] sp_entries_get(newe, q) == (if q == k {
                                    Some(value)
                                } else {
                                    sp_entries_get(olde, q)
                                }) by {
                                lemma_entries_get_update(
                                    olde,
                                    k2 as int,
                                    (olde[k2 as int].0, value),
                                    q,
                                );
                            }
                            lemma_entries_get_update(
                                olde,
                                k2 as int,
                                (olde[k2 as int].0, value),
                                k,
                            );
                        },
                        None => {
                            assert(newe == olde.push((k, value)));
                            assert forall|q: i64|
                                #[trigger] sp_entries_get(newe, q) == (if q == k {
                                    Some(value)
                                } else {
                                    sp_entries_get(olde, q)
                                }) by {
                                lemma_entries_get_push(olde, (k, value), q);
                            }
                            lemma_entries_get_push(olde, (k, value), k);
                        },
                    }
                } else {
                    assert(olde =~= Seq::<(i64, ObjId)>::empty());
                    assert(newe =~= Seq::<(i64, ObjId)>::empty().push((k, value)));
                    assert forall|q: i64|
                        #[trigger] sp_entries_get(newe, q) == (if q == k {
                            Some(value)
                        } else {
                            sp_entries_get(olde, q)
                        }) by {
                        lemma_entries_get_push(olde, (k, value), q);
                    }
                }
                assert(self.wf_obj(self.heap@[o as int]));
                Vm::lemma_wf_update(pre, *self, o);
            }
            return Ok(());
        }
        if rs.seq_ass {
            let i = match self.seq_index(o, needle) {
                Ok(i) => i,
                Err(e) => {
                    return Err(e);
                },
            };
            let ghost pre = *self;
            {
                let od = &mut self.heap[o];
                if let Some(es) = &mut od.elems {
                    let e = &mut es[i];
                    *e = value;
                }
            }
            proof {
                assert(self.wf_obj(self.heap@[o as int]));
                Vm::lemma_wf_update(pre, *self, o);
            }
            return Ok(());
        }
        let cn = self.classes[oc].name.clone();
        Err(PyErr::NotAssignable { class_name: cn })
    }

    /// How a subscript deletion relates the new state and result to the old
    /// one: the mapping hook removes the entry (a missing key fails), the
    /// sequence hook removes the element at the normalized index, else the
    /// not-deletable failure.
    pub open spec fn sp_del_item_post(
        pre: Vm,
        post: Vm,
        o: ObjId,
        needle: ObjId,
        r: Result<(), ErrView>,
    ) -> bool {
        let oc = pre.class_of(o);
        let rs = pre.sp_resolved(oc);
        if oc == pre.dict_class || rs.map_ass {
            match pre.sp_key_int(needle) {
                None => post == pre && r == Err::<(), ErrView>(
                    ErrView::KeyNotInt { class_name: pre.class_name(pre.class_of(needle)) },
                ),
                Some(k) => {
                    if sp_entries_get(pre.sp_entries_of(o), k) is Some {
                        &&& r == Ok::<(), ErrView>(())
                        &&& Vm::sp_same_but_heap(pre, post)
                        &&& Vm::sp_heap_same_except(pre, post, o)
                        &&& Vm::sp_obj_same_but_entries(pre.heap@[o as int], post.heap@[o as int])
                        &&& post.heap@[o as int].entries is Some
                        &&& entry_keys_unique(post.heap@[o as int].entries->0@)
                        &&& forall|q: i64|
                            #[trigger] sp_entries_get(post.heap@[o as int].entries->0@, q) == (if q
                                == k {
                                None
                            } else {
                                sp_entries_get(pre.sp_entries_of(o), q)
                            })
                    } else {
                        &&& post == pre
                        &&& r == Err::<(), ErrView>(ErrView::KeyMissing { key: k })
                    }
                },
            }
        } else if rs.seq_ass {
            match pre.sp_seq_index(o, needle) {
                Err(e) => post == pre && r == Err::<(), ErrView>(e),
                Ok(i) => {
                    &&& r == Ok::<(), ErrView>(())
                    &&& Vm::sp_same_but_heap(pre, post)
                    &&& Vm::sp_heap_same_except(pre, post, o)
                    &&& Vm::sp_obj_same_but_elems(pre.heap@[o as int], post.heap@[o as int])
                    &&& post.heap@[o as int].elems matches Some(e) && e@ =~= pre.sp_elems_of(
                        o,
                    ).remove(i)
                },
            }
        } else {
            &&& post == pre
            &&& r == Err::<(), ErrView>(
                ErrView::NotDeletable { class_name: pre.class_name(oc) },
            )
        }
    }

    /// Deletes `o[needle]`.
    pub fn del_item(&mut self, o: ObjId, needle: ObjId) -> (r: Result<(), PyErr>)
        requires
            old(self).wf(),
            o < old(self).heap.len(),
            needle < old(self).heap.len(),
        ensures
            final(self).wf(),
            Vm::sp_del_item_post(*old(self), *final(self), o, needle, res_view(r)),
    {
        let oc = self.heap[o].class;
        proof {
            assert(self.wf_obj(self.heap@[o as int]));
            assert(self.wf_obj(self.heap@[needle as int]));
        }
        let rs = self.resolve_slots(oc);
        if oc == self.dict_class || rs.map_ass {
            let k = match self.key_int(needle) {
                Some(k) => k,
                None => {
                    let cn = self.classes[self.heap[needle].class].name.clone();
                    return Err(PyErr::KeyNotInt { class_name: cn });
                },
            };
            let idx = match &self.heap[o].entries {
                Some(es) => entries_find(es, k),
                None => None,
            };
            match idx {
                Some(k2) => {
                    let ghost pre = *self;
                    let ghost olde = pre.sp_entries_of(o);
                    {
                        let od = &mut self.heap[o];
                        if let Some(es) = &mut od.entries {
                            es.remove(k2);
                        }
                    }
                    proof {
                        let newe = self.heap@[o as int].entries->0@;
                        assert(newe == olde.remove(k2 as int));
                        assert forall|q: i64|
                            #[trigger] sp_entries_get(newe, q) == (if q == k {
                                None
                            } else {
                                sp_entries_get(olde, q)
                            }) by {
                            lemma_entries_get_remove(olde, k2 as int, q);
                        }
                        lemma_entries_get_remove(olde, k2 as int, k);
                        assert(self.wf_obj(self.heap@[o as int]));
                        Vm::lemma_wf_update(pre, *self, o);
                    }
                    return Ok(());
                },
                None => {
                    return Err(PyErr::KeyMissing { key: k });
                },
            }
        }
        if rs.seq_ass {
            let i = match self.seq_index(o, needle) {
                Ok(i) => i,
                Err(e) => {
                    return Err(e);
                },
            };
            let ghost pre = *self;
            {
                let od = &mut self.heap[o];
                if let Some(es) = &mut od.elems {
                    es.remove(i);
                }
            }
            proof {
                assert(self.wf_obj(self.heap@[o as int]));
                Vm::lemma_wf_update(pre, *self, o);
            }
            return Ok(());
        }
        let cn = self.classes[oc].name.clone();
        Err(PyErr::NotDeletable { class_name: cn })
    }

    /// The published length of `o`, when some length protocol resolves:
    /// the sequence protocol takes precedence over the mapping protocol.
    pub fn length_opt(&self, o: ObjId) -> (r: Option<usize>)
        requires
            self.wf(),
            o < self.heap.len(),
        ensures
            match self.sp_length_opt(o) {
                Some(l) => r matches Some(x) && x as int == l,
                None => r is None,
            },
    {
        let oc = self.heap[o].class;
        proof {
            assert(self.wf_obj(self.heap@[o as int]));
        }
        let rs = self.resolve_slots(oc);
        if rs.seq_len && self.heap[o].elems.is_some() {
            match &self.heap[o].elems {
                Some(es) => Some(es.len()),
                None => None,
            }
        } else if rs.map_len && self.heap[o].entries.is_some() {
            match &self.heap[o].entries {
                Some(es) => Some(es.len()),
                None => None,
            }
        } else {
            None
        }
    }

    /// The outcome of a length query: an object with no length protocol has
    /// no length.
    pub open spec fn sp_length(self, o: ObjId) -> Result<int, ErrView> {
        match self.sp_length_opt(o) {
            Some(l) => Ok(l),
            None => Err(ErrView::NoLen { class_name: self.class_name(self.class_of(o)) }),
        }
    }

    /// The length of `o`.
    pub fn length(&self, o: ObjId) -> (r: Result<usize, PyErr>)
        requires
            self.wf(),
            o < self.heap.len(),
        ensures
            match self.sp_length(o) {
                Ok(l) => r matches Ok(x) && x as int == l,
                Err(e) => r matches Err(e2) && e2@ == e,
            },
    {
        match self.length_opt(o) {
            Some(l) => Ok(l),
            None => {
                proof {
                    assert(self.wf_obj(self.heap@[o as int]));
                }
                let cn = self.classes[self.heap[o].class].name.clone();
                Err(PyErr::NoLen { class_name: cn })
            },
        }
    }

    /// The published length of `o`, or the given default when no length
    /// protocol resolves.
    pub fn length_hint(&self, o: ObjId, defaultvalue: usize) -> (r: Result<usize, PyErr>)
        requires
            self.wf(),
            o < self.heap.len(),
        ensures
            r matches Ok(x) && x as int == (match self.sp_length_opt(o) {
                Some(l) => l,
                None => defaultvalue as int,
            }),
    {
        match self.length_opt(o) {
            Some(l) => Ok(l),
            None => Ok(defaultvalue),
        }
    }
}

} // verus!
