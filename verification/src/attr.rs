//! Attribute Resolution Engine: get, set and delete attributes through the
//! descriptor protocol with instance-storage fallback.
//!
//! Reading searches the object's class ancestry for a class-level attribute;
//! a data descriptor (get and set/delete hooks both defined) always shadows
//! instance storage, a non-data descriptor (get hook only) is shadowed by it.
//! Writing delegates entirely to a descriptor's set/delete hook when one
//! exists, and otherwise goes to instance storage.

use vstd::prelude::*;

use crate::data::{ClassId, DescrGetHook, DescrSetHook, ErrView, ObjId, PyErr, SetterValue, res_view};
use crate::vm::{
    Vm, dict_find, keys_unique, lemma_dict_get_index, lemma_dict_get_push, lemma_dict_get_remove,
    lemma_dict_get_update, sp_dict_get,
};

verus! {

/// Some listed name has the given view.
pub open spec fn has_name(r: Seq<String>, n: Seq<char>) -> bool {
    exists|i: int| 0 <= i < r.len() && (#[trigger] r[i])@ == n
}

/// Whether some listed name has the given view, as executable code.
fn contains_name(r: &Vec<String>, n: &String) -> (b: bool)
    ensures
        b == has_name(r@, n@),
{
    let len = r.len();
    let mut i: usize = 0;
    while i < len
        invariant
            i <= len,
            len == r@.len(),
            forall|j: int| 0 <= j < i ==> (#[trigger] r@[j])@ != n@,
        decreases len - i,
    {
        if r[i] == *n {
            proof {
                assert(r@[i as int]@ == n@);
            }
            return true;
        }
        i += 1;
    }
    proof {
        if has_name(r@, n@) {
            let w = choose|j: int| 0 <= j < r@.len() && (#[trigger] r@[j])@ == n@;
            assert(false);
        }
    }
    false
}

impl Vm {
    /// What invoking a descriptor's get hook returns: the descriptor itself,
    /// its cell's value (the `None` singleton when empty), or its failure.
    pub open spec fn sp_descr_get_eval(self, d: ObjId, hook: DescrGetHook) -> Result<
        ObjId,
        ErrView,
    > {
        match hook {
            DescrGetHook::SelfObj => Ok(d),
            DescrGetHook::Cell => Ok(
                match self.heap[d as int].cell {
                    Some(v) => v,
                    None => self.none_obj,
                },
            ),
            DescrGetHook::Fail => Err(
                ErrView::DescriptorFail { class_name: self.class_name(self.class_of(d)) },
            ),
        }
    }

    /// The value instance storage holds under `name`, with an optional
    /// storage override taking the place of the object's own.
    pub open spec fn sp_stored(
        self,
        o: ObjId,
        name: Seq<char>,
        dict_over: Option<Seq<(String, ObjId)>>,
    ) -> Option<ObjId> {
        match dict_over {
            Some(d) => sp_dict_get(d, name),
            None => match self.heap[o as int].dict {
                Some(dd) => sp_dict_get(dd@, name),
                None => None,
            },
        }
    }

    /// The outcome of a generic attribute read: a data descriptor on the
    /// class always wins; then instance storage; then a non-data descriptor's
    /// get hook or the raw class attribute; the declared-class attribute is
    /// synthesized from the allocation class when nothing else defines it;
    /// otherwise the attribute is absent.
    pub open spec fn sp_getattr_opt(
        self,
        o: ObjId,
        name: Seq<char>,
        dict_over: Option<Seq<(String, ObjId)>>,
    ) -> Result<Option<ObjId>, ErrView> {
        let ca = self.sp_class_attr(self.class_of(o), name);
        if ca is Some {
            let d = ca->0;
            let dg = self.sp_descr_get(self.class_of(d));
            let ds = self.sp_descr_set(self.class_of(d));
            if dg is Some && ds is Some {
                match self.sp_descr_get_eval(d, dg->0) {
                    Ok(v) => Ok(Some(v)),
                    Err(e) => Err(e),
                }
            } else if self.sp_stored(o, name, dict_over) is Some {
                Ok(Some(self.sp_stored(o, name, dict_over)->0))
            } else if dg is Some {
                match self.sp_descr_get_eval(d, dg->0) {
                    Ok(v) => Ok(Some(v)),
                    Err(e) => Err(e),
                }
            } else {
                Ok(Some(d))
            }
        } else if self.sp_stored(o, name, dict_over) is Some {
            Ok(Some(self.sp_stored(o, name, dict_over)->0))
        } else if name == "__class__"@ {
            Ok(Some(self.class_obj(self.class_of(o))))
        } else {
            Ok(None)
        }
    }

    /// The outcome of a full attribute read: an absent attribute fails with
    /// `AttributeMissing` naming the object's class and the attribute.
    pub open spec fn sp_getattr(self, o: ObjId, name: Seq<char>) -> Result<ObjId, ErrView> {
        match self.sp_getattr_opt(o, name, None) {
            Ok(Some(v)) => Ok(v),
            Ok(None) => Err(
                ErrView::AttributeMissing {
                    class_name: self.class_name(self.class_of(o)),
                    name,
                },
            ),
            Err(e) => Err(e),
        }
    }

    /// The outcome of an attribute-presence query: the attribute's value,
    /// read in full, compared against the `None` singleton; a failing read
    /// fails the query.
    pub open spec fn sp_has_attr(self, o: ObjId, name: Seq<char>) -> Result<bool, ErrView> {
        match self.sp_getattr(o, name) {
            Ok(v) => Ok(v != self.none_obj),
            Err(e) => Err(e),
        }
    }

    /// A successful attribute read names a live object.
    pub proof fn lemma_getattr_range(self, o: ObjId, name: Seq<char>)
        requires
            self.wf(),
            o < self.heap.len(),
        ensures
            self.sp_getattr(o, name) matches Ok(v) ==> v < self.heap.len(),
            self.sp_getattr_opt(o, name, None) matches Ok(Some(v)) ==> v < self.heap.len(),
    {
        let oc = self.class_of(o);
        assert(self.wf_obj(self.heap[o as int]));
        assert(oc < self.classes.len());
        self.lemma_class_attr_range(oc, name);
        let ca = self.sp_class_attr(oc, name);
        if ca is Some {
            assert(self.wf_obj(self.heap[ca->0 as int]));
        }
        if self.sp_stored(o, name, None) is Some {
            match self.heap[o as int].dict {
                Some(dd) => {
                    crate::vm::lemma_dict_get_some(dd@, name);
                },
                None => {},
            }
        }
        assert(self.wf_class(oc as int));
    }

    /// Invokes a descriptor's get hook.
    fn descr_get_eval(&self, d: ObjId, hook: DescrGetHook) -> (r: Result<ObjId, PyErr>)
        requires
            self.wf(),
            d < self.heap.len(),
        ensures
            res_view(r) == self.sp_descr_get_eval(d, hook),
    {
        match hook {
            DescrGetHook::SelfObj => Ok(d),
            DescrGetHook::Cell => match self.heap[d].cell {
                Some(v) => Ok(v),
                None => Ok(self.none_obj),
            },
            DescrGetHook::Fail => {
                let cn = self.classes[self.heap[d].class].name.clone();
                Err(PyErr::DescriptorFail { class_name: cn })
            },
        }
    }

    /// Generic attribute read with an optional instance-storage override:
    /// class attribute through the ancestor order, data descriptors shadowing
    /// storage, storage shadowing non-data descriptors.
    pub fn generic_getattr_opt(
        &self,
        o: ObjId,
        name: &String,
        dict: Option<&Vec<(String, ObjId)>>,
    ) -> (r: Result<Option<ObjId>, PyErr>)
        requires
            self.wf(),
            o < self.heap.len(),
        ensures
            res_view(r) == self.sp_getattr_opt(
                o,
                name@,
                match dict {
                    Some(d) => Some(d@),
                    None => None,
                },
            ),
    {
        let ghost dover: Option<Seq<(String, ObjId)>> = match dict {
            Some(d) => Some(d@),
            None => None,
        };
        let oc = self.heap[o].class;
        proof {
            assert(self.wf_obj(self.heap@[o as int]));
        }
        let ca = self.class_get_attr(oc, name);
        let stored: Option<ObjId> = match dict {
            Some(dd) => crate::vm::dict_get(dd, name),
            None => match &self.heap[o].dict {
                Some(dd) => crate::vm::dict_get(dd, name),
                None => None,
            },
        };
        proof {
            assert(stored == self.sp_stored(o, name@, dover));
        }
        if let Some(d) = ca {
            proof {
                self.lemma_class_attr_range(oc, name@);
            }
            let dcls = self.heap[d].class;
            let rs = self.resolve_slots(dcls);
            if rs.descr_get.is_some() && rs.descr_set.is_some() {
                let g = match rs.descr_get {
                    Some(g) => g,
                    None => DescrGetHook::SelfObj,
                };
                return match self.descr_get_eval(d, g) {
                    Ok(v) => Ok(Some(v)),
                    Err(e) => Err(e),
                };
            }
            if let Some(v) = stored {
                return Ok(Some(v));
            }
            if let Some(g) = rs.descr_get {
                return match self.descr_get_eval(d, g) {
                    Ok(v) => Ok(Some(v)),
                    Err(e) => Err(e),
                };
            }
            return Ok(Some(d));
        }
        if let Some(v) = stored {
            return Ok(Some(v));
        }
        let cls_key: String = "__class__".to_owned();
        if *name == cls_key {
            proof {
                assert(self.wf_class(oc as int));
            }
            return Ok(Some(self.classes[oc].obj));
        }
        Ok(None)
    }

    /// Generic attribute read: an absent attribute fails with
    /// `AttributeMissing`.
    pub fn generic_getattr(&self, o: ObjId, name: &String) -> (r: Result<ObjId, PyErr>)
        requires
            self.wf(),
            o < self.heap.len(),
        ensures
            res_view(r) == self.sp_getattr(o, name@),
    {
        match self.generic_getattr_opt(o, name, None) {
            Ok(Some(v)) => Ok(v),
            Ok(None) => {
                let cn = self.classes[self.heap[o].class].name.clone();
                Err(PyErr::AttributeMissing { class_name: cn, name: name.clone() })
            },
            Err(e) => Err(e),
        }
    }

    /// Full attribute access: resolves the published attribute-read slot of
    /// the object's class, which is the generic descriptor-protocol path.
    pub(crate) fn get_attr_inner(&self, o: ObjId, name: &String) -> (r: Result<ObjId, PyErr>)
        requires
            self.wf(),
            o < self.heap.len(),
        ensures
            res_view(r) == self.sp_getattr(o, name@),
    {
        self.generic_getattr(o, name)
    }

    /// Reads an attribute of `o` by name.
    pub fn get_attr(&self, o: ObjId, name: &String) -> (r: Result<ObjId, PyErr>)
        requires
            self.wf(),
            o < self.heap.len(),
        ensures
            res_view(r) == self.sp_getattr(o, name@),
    {
        self.get_attr_inner(o, name)
    }

    /// Whether `o` has a non-`None` attribute of that name; a failing read
    /// (including an absent attribute) fails the query.
    pub fn has_attr(&self, o: ObjId, name: &String) -> (r: Result<bool, PyErr>)
        requires
            self.wf(),
            o < self.heap.len(),
        ensures
            res_view(r) == self.sp_has_attr(o, name@),
    {
        match self.get_attr(o, name) {
            Ok(v) => Ok(v != self.none_obj),
            Err(e) => Err(e),
        }
    }

    /// The name is defined as a class-level attribute of the object's class
    /// or held in its instance storage: what attribute enumeration lists.
    pub open spec fn sp_dir_member(self, o: ObjId, n: Seq<char>) -> bool {
        ||| self.sp_class_attr(self.class_of(o), n) is Some
        ||| self.sp_stored(o, n, None) is Some
    }

    /// A name defined by the ancestor at position `j` of the order is found
    /// by class-level attribute lookup from any earlier position.
    proof fn lemma_mro_attr_present(self, mro: Seq<ClassId>, i: int, j: int, name: Seq<char>)
        requires
            0 <= i <= j < mro.len(),
            mro[j] < self.classes.len(),
            sp_dict_get(self.classes@[mro[j] as int].attrs@, name) is Some,
        ensures
            self.sp_mro_attr_from(mro, i, name) is Some,
        decreases j - i,
    {
        if i < j {
            self.lemma_mro_attr_present(mro, i + 1, j, name);
        }
    }

    /// Enumerates the attribute names of `o`: every name an ancestor's
    /// attribute table defines and every name in instance storage, each once.
    #[verifier::loop_isolation(false)]
    pub fn dir(&self, o: ObjId) -> (r: Vec<String>)
        requires
            self.wf(),
            o < self.heap.len(),
        ensures
            forall|i: int, j: int| 0 <= i < j < r@.len() ==> r@[i]@ != r@[j]@,
            forall|i: int| 0 <= i < r@.len() ==> self.sp_dir_member(o, #[trigger] r@[i]@),
            forall|j: int, k: int|
                0 <= j < self.classes@[self.class_of(o) as int].mro@.len() && 0 <= k
                    < self.classes@[self.classes@[self.class_of(o) as int].mro@[j] as int].attrs@.len()
                    ==> has_name(
                    r@,
                    (#[trigger] self.classes@[self.classes@[self.class_of(
                        o,
                    ) as int].mro@[j] as int].attrs@[k]).0@,
                ),
            self.heap@[o as int].dict matches Some(dd) ==> forall|k: int|
                0 <= k < dd@.len() ==> has_name(r@, (#[trigger] dd@[k]).0@),
    {
        let oc = self.heap[o].class;
        proof {
            assert(self.wf_obj(self.heap@[o as int]));
        }
        let mut out: Vec<String> = Vec::new();
        let mro = &self.classes[oc].mro;
        let nm = mro.len();
        let mut j: usize = 0;
        while j < nm
            invariant
                mro == &self.classes@[oc as int].mro,
                j <= nm,
                nm == mro@.len(),
                forall|i: int, i2: int| 0 <= i < i2 < out@.len() ==> out@[i]@ != out@[i2]@,
                forall|i: int| 0 <= i < out@.len() ==> self.sp_dir_member(o, #[trigger] out@[i]@),
                forall|j2: int, k: int|
                    0 <= j2 < j && 0 <= k < self.classes@[mro@[j2] as int].attrs@.len() ==> has_name(
                        out@,
                        (#[trigger] self.classes@[mro@[j2] as int].attrs@[k]).0@,
                    ),
            decreases nm - j,
        {
            let a = mro[j];
            assert(self.wf_class(oc as int));
            assert(self.wf_class(a as int));
            let attrs = &self.classes[a].attrs;
            let na = attrs.len();
            let mut k: usize = 0;
            while k < na
                invariant
                    mro == &self.classes@[oc as int].mro,
                    j < nm,
                    nm == mro@.len(),
                    a == mro@[j as int],
                    a < self.classes.len(),
                    attrs == &self.classes@[a as int].attrs,
                    k <= na,
                    na == attrs@.len(),
                    forall|i: int, i2: int| 0 <= i < i2 < out@.len() ==> out@[i]@ != out@[i2]@,
                    forall|i: int|
                        0 <= i < out@.len() ==> self.sp_dir_member(o, #[trigger] out@[i]@),
                    forall|j2: int, k2: int|
                        0 <= j2 < j && 0 <= k2 < self.classes@[mro@[j2] as int].attrs@.len()
                            ==> has_name(
                            out@,
                            (#[trigger] self.classes@[mro@[j2] as int].attrs@[k2]).0@,
                        ),
                    forall|k2: int| 0 <= k2 < k ==> has_name(out@, (#[trigger] attrs@[k2]).0@),
                decreases na - k,
            {
                let name = &attrs[k].0;
                let ghost out0 = out@;
                if !contains_name(&out, name) {
                    out.push(name.clone());
                    proof {
                        assert(out@[out0.len() as int]@ == name@);
                        assert(forall|i: int|
                            0 <= i < out0.len() ==> #[trigger] out@[i] == out0[i]);
                        lemma_dict_get_index(attrs@, k as int);
                        self.lemma_mro_attr_present(mro@, 0, j as int, name@);
                        assert(self.sp_dir_member(o, name@));
                        assert forall|n: Seq<char>| has_name(out0, n) implies has_name(
                            out@,
                            n,
                        ) by {
                            let w = choose|i: int| 0 <= i < out0.len() && out0[i]@ == n;
                            assert(out@[w]@ == n);
                        }
                    }
                } else {
                    proof {
                        assert(has_name(out@, attrs@[k as int].0@));
                    }
                }
                k += 1;
            }
            j += 1;
        }
        if let Some(dd) = &self.heap[o].dict {
            let nd = dd.len();
            let mut k: usize = 0;
            while k < nd
                invariant
                    self.heap@[o as int].dict matches Some(d2) && dd == &d2,
                    k <= nd,
                    nd == dd@.len(),
                    forall|i: int, i2: int| 0 <= i < i2 < out@.len() ==> out@[i]@ != out@[i2]@,
                    forall|i: int|
                        0 <= i < out@.len() ==> self.sp_dir_member(o, #[trigger] out@[i]@),
                    forall|j2: int, k2: int|
                        0 <= j2 < self.classes@[oc as int].mro@.len() && 0 <= k2
                            < self.classes@[self.classes@[oc as int].mro@[j2] as int].attrs@.len()
                            ==> has_name(
                            out@,
                            (#[trigger] self.classes@[self.classes@[oc as int].mro@[j2] as int].attrs@[k2]).0@,
                        ),
                    forall|k2: int| 0 <= k2 < k ==> has_name(out@, (#[trigger] dd@[k2]).0@),
                decreases nd - k,
            {
                let name = &dd[k].0;
                let ghost out0 = out@;
                if !contains_name(&out, name) {
                    out.push(name.clone());
                    proof {
                        assert(out@[out0.len() as int]@ == name@);
                        assert(forall|i: int|
                            0 <= i < out0.len() ==> #[trigger] out@[i] == out0[i]);
                        lemma_dict_get_index(dd@, k as int);
                        assert(self.sp_stored(o, name@, None) is Some);
                        assert forall|n: Seq<char>| has_name(out0, n) implies has_name(
                            out@,
                            n,
                        ) by {
                            let w = choose|i: int| 0 <= i < out0.len() && out0[i]@ == n;
                            assert(out@[w]@ == n);
                        }
                    }
                } else {
                    proof {
                        assert(has_name(out@, dd@[k as int].0@));
                    }
                }
                k += 1;
            }
        }
        out
    }

    /// The two states agree on everything but the object heap's contents.
    pub open spec fn sp_same_but_heap(pre: Vm, post: Vm) -> bool {
        &&& post.classes == pre.classes
        &&& Vm::same_config(pre, post)
        &&& post.heap@.len() == pre.heap@.len()
    }

    /// Every object but `o` is untouched.
    pub open spec fn sp_heap_same_except(pre: Vm, post: Vm, o: ObjId) -> bool {
        forall|i: int| 0 <= i < pre.heap@.len() && i != o ==> post.heap@[i] == pre.heap@[i]
    }

    /// The two objects agree on everything but instance storage.
    pub open spec fn sp_obj_same_but_dict(
        a: crate::data::ObjectData,
        b: crate::data::ObjectData,
    ) -> bool {
        &&& b.class == a.class
        &&& b.payload == a.payload
        &&& b.elems == a.elems
        &&& b.entries == a.entries
        &&& b.text == a.text
        &&& b.cell == a.cell
        &&& b.type_of == a.type_of
    }

    /// The two objects agree on everything but the descriptor cell.
    pub open spec fn sp_obj_same_but_cell(
        a: crate::data::ObjectData,
        b: crate::data::ObjectData,
    ) -> bool {
        &&& b.class == a.class
        &&& b.dict == a.dict
        &&& b.payload == a.payload
        &&& b.elems == a.elems
        &&& b.entries == a.entries
        &&& b.text == a.text
        &&& b.type_of == a.type_of
    }

    /// How a generic attribute write or deletion relates the new state and
    /// result to the old state: a set/delete descriptor hook on the class
    /// attribute takes the whole operation; otherwise instance storage is
    /// updated, with deletion of an absent name (and any write to an object
    /// without storage) failing as a missing attribute.
    pub open spec fn sp_setattr_post(
        pre: Vm,
        post: Vm,
        o: ObjId,
        name: Seq<char>,
        value: SetterValue,
        r: Result<(), ErrView>,
    ) -> bool {
        let oc = pre.class_of(o);
        let ca = pre.sp_class_attr(oc, name);
        if ca is Some && pre.sp_descr_set(pre.class_of(ca->0)) is Some {
            let d = ca->0;
            match pre.sp_descr_set(pre.class_of(d))->0 {
                DescrSetHook::Store => {
                    &&& r == Ok::<(), ErrView>(())
                    &&& Vm::sp_same_but_heap(pre, post)
                    &&& Vm::sp_heap_same_except(pre, post, d)
                    &&& Vm::sp_obj_same_but_cell(pre.heap@[d as int], post.heap@[d as int])
                    &&& post.heap@[d as int].cell == (match value {
                        SetterValue::Assign(v) => Some(v),
                        SetterValue::Delete => None::<ObjId>,
                    })
                },
                DescrSetHook::Fail => {
                    &&& post == pre
                    &&& r == Err::<(), ErrView>(
                        ErrView::DescriptorFail { class_name: pre.class_name(pre.class_of(d)) },
                    )
                },
            }
        } else if pre.heap@[o as int].dict is Some {
            let dd = pre.heap@[o as int].dict->0@;
            match value {
                SetterValue::Assign(v) => {
                    &&& r == Ok::<(), ErrView>(())
                    &&& Vm::sp_same_but_heap(pre, post)
                    &&& Vm::sp_heap_same_except(pre, post, o)
                    &&& Vm::sp_obj_same_but_dict(pre.heap@[o as int], post.heap@[o as int])
                    &&& post.heap@[o as int].dict is Some
                    &&& keys_unique(post.heap@[o as int].dict->0@)
                    &&& forall|n: Seq<char>|
                        #[trigger] sp_dict_get(post.heap@[o as int].dict->0@, n) == (if n == name {
                            Some(v)
                        } else {
                            sp_dict_get(dd, n)
                        })
                },
                SetterValue::Delete => {
                    if sp_dict_get(dd, name) is Some {
                        &&& r == Ok::<(), ErrView>(())
                        &&& Vm::sp_same_but_heap(pre, post)
                        &&& Vm::sp_heap_same_except(pre, post, o)
                        &&& Vm::sp_obj_same_but_dict(pre.heap@[o as int], post.heap@[o as int])
                        &&& post.heap@[o as int].dict is Some
                        &&& keys_unique(post.heap@[o as int].dict->0@)
                        &&& forall|n: Seq<char>|
                            #[trigger] sp_dict_get(post.heap@[o as int].dict->0@, n) == (if n
                                == name {
                                None
                            } else {
                                sp_dict_get(dd, n)
                            })
                    } else {
                        &&& post == pre
                        &&& r == Err::<(), ErrView>(
                            ErrView::AttributeMissing { class_name: pre.class_name(oc), name },
                        )
                    }
                },
            }
        } else {
            &&& post == pre
            &&& r == Err::<(), ErrView>(
                ErrView::AttributeMissing { class_name: pre.class_name(oc), name },
            )
        }
    }

    /// Generic attribute write or deletion.
    pub fn generic_setattr(&mut self, o: ObjId, name: &String, value: SetterValue) -> (r: Result<
        (),
        PyErr,
    >)
        requires
            old(self).wf(),
            o < old(self).heap.len(),
            value matches SetterValue::Assign(v) ==> v < old(self).heap.len(),
        ensures
            final(self).wf(),
            Vm::sp_setattr_post(*old(self), *final(self), o, name@, value, res_view(r)),
    {
        let oc = self.heap[o].class;
        proof {
            assert(self.wf_obj(self.heap@[o as int]));
        }
        let ca = self.class_get_attr(oc, name);
        if let Some(d) = ca {
            proof {
                self.lemma_class_attr_range(oc, name@);
            }
            let dcls = self.heap[d].class;
            let rs = self.resolve_slots(dcls);
            if let Some(h) = rs.descr_set {
                match h {
                    DescrSetHook::Store => {
                        let ghost pre = *self;
                        {
                            let od = &mut self.heap[d];
                            match value {
                                SetterValue::Assign(v) => {
                                    od.cell = Some(v);
                                },
                                SetterValue::Delete => {
                                    od.cell = None;
                                },
                            }
                        }
                        proof {
                            assert(self.wf_obj(self.heap@[d as int]));
                            Vm::lemma_wf_update(pre, *self, d);
                        }
                        return Ok(());
                    },
                    DescrSetHook::Fail => {
                        let cn = self.classes[dcls].name.clone();
                        return Err(PyErr::DescriptorFail { class_name: cn });
                    },
                }
            }
        }
        if self.heap[o].dict.is_some() {
            let idx = match &self.heap[o].dict {
                Some(dd) => dict_find(dd, name),
                None => None,
            };
            match value {
                SetterValue::Assign(v) => {
                    let ghost pre = *self;
                    let ghost oldd = pre.heap@[o as int].dict->0@;
                    {
                        let od = &mut self.heap[o];
                        if let Some(dd) = &mut od.dict {
                            match idx {
                                Some(k2) => {
                                    let e = &mut dd[k2];
                                    e.1 = v;
                                },
                                None => {
                                    dd.push((name.clone(), v));
                                },
                            }
                        }
                    }
                    proof {
                        let newd = self.heap@[o as int].dict->0@;
                        match idx {
                            Some(k2) => {
                                assert(newd == oldd.update(
                                    k2 as int,
                                    (oldd[k2 as int].0, v),
                                ));
                                assert forall|n: Seq<char>|
                                    #[trigger] sp_dict_get(newd, n) == (if n == name@ {
                                        Some(v)
                                    } else {
                                        sp_dict_get(oldd, n)
                                    }) by {
                                    lemma_dict_get_update(
                                        oldd,
                                        k2 as int,
                                        (oldd[k2 as int].0, v),
                                        n,
                                    );
                                }
                                lemma_dict_get_update(oldd, k2 as int, (oldd[k2 as int].0, v), name@);
                            },
                            None => {
                                let pushed = newd.last();
                                assert(newd == oldd.push(pushed));
                                assert(pushed.0@ == name@ && pushed.1 == v);
                                assert forall|n: Seq<char>|
                                    #[trigger] sp_dict_get(newd, n) == (if n == name@ {
                                        Some(v)
                                    } else {
                                        sp_dict_get(oldd, n)
                                    }) by {
                                    lemma_dict_get_push(oldd, pushed, n);
                                }
                                lemma_dict_get_push(oldd, pushed, name@);
                            },
                        }
                        assert(self.wf_obj(self.heap@[o as int]));
                        Vm::lemma_wf_update(pre, *self, o);
                    }
                    Ok(())
                },
                SetterValue::Delete => {
                    match idx {
                        Some(k2) => {
                            let ghost pre = *self;
                            let ghost oldd = pre.heap@[o as int].dict->0@;
                            {
                                let od = &mut self.heap[o];
                                if let Some(dd) = &mut od.dict {
                                    dd.remove(k2);
                                }
                            }
                            proof {
                                let newd = self.heap@[o as int].dict->0@;
                                assert(newd == oldd.remove(k2 as int));
                                assert forall|n: Seq<char>|
                                    #[trigger] sp_dict_get(newd, n) == (if n == name@ {
                                        None
                                    } else {
                                        sp_dict_get(oldd, n)
                                    }) by {
                                    lemma_dict_get_remove(oldd, k2 as int, n);
                                }
                                lemma_dict_get_remove(oldd, k2 as int, name@);
                                assert(self.wf_obj(self.heap@[o as int]));
                                Vm::lemma_wf_update(pre, *self, o);
                            }
                            Ok(())
                        },
                        None => {
                            let cn = self.classes[oc].name.clone();
                            Err(PyErr::AttributeMissing { class_name: cn, name: name.clone() })
                        },
                    }
                },
            }
        } else {
            let cn = self.classes[oc].name.clone();
            Err(PyErr::AttributeMissing { class_name: cn, name: name.clone() })
        }
    }

    /// How an attribute write through the published setter slot relates the
    /// new state and result to the old one: with no setter slot anywhere in
    /// the ancestry the operation fails, telling "read-only" from "no
    /// attributes" by whether a read slot is published, and assignment from
    /// deletion.
    pub open spec fn sp_call_set_attr_post(
        pre: Vm,
        post: Vm,
        o: ObjId,
        name: Seq<char>,
        value: SetterValue,
        r: Result<(), ErrView>,
    ) -> bool {
        if pre.sp_resolved(pre.class_of(o)).setattro {
            Vm::sp_setattr_post(pre, post, o, name, value, r)
        } else {
            &&& post == pre
            &&& r == Err::<(), ErrView>(
                ErrView::NoAttributes {
                    class_name: pre.class_name(pre.class_of(o)),
                    read_only: pre.sp_resolved(pre.class_of(o)).getattro,
                    assign: value is Assign,
                    name,
                },
            )
        }
    }

    /// Attribute write or deletion through the class's published setter slot.
    pub fn call_set_attr(&mut self, o: ObjId, name: &String, value: SetterValue) -> (r: Result<
        (),
        PyErr,
    >)
        requires
            old(self).wf(),
            o < old(self).heap.len(),
            value matches SetterValue::Assign(v) ==> v < old(self).heap.len(),
        ensures
            final(self).wf(),
            Vm::sp_call_set_attr_post(*old(self), *final(self), o, name@, value, res_view(r)),
    {
        let oc = self.heap[o].class;
        proof {
            assert(self.wf_obj(self.heap@[o as int]));
        }
        let rs = self.resolve_slots(oc);
        if rs.setattro {
            self.generic_setattr(o, name, value)
        } else {
            let cn = self.classes[oc].name.clone();
            Err(
                PyErr::NoAttributes {
                    class_name: cn,
                    read_only: rs.getattro,
                    assign: value.is_assign(),
                    name: name.clone(),
                },
            )
        }
    }

    /// Assigns an attribute of `o`.
    pub fn set_attr(&mut self, o: ObjId, name: &String, value: ObjId) -> (r: Result<(), PyErr>)
        requires
            old(self).wf(),
            o < old(self).heap.len(),
            value < old(self).heap.len(),
        ensures
            final(self).wf(),
            Vm::sp_call_set_attr_post(
                *old(self),
                *final(self),
                o,
                name@,
                SetterValue::Assign(value),
                res_view(r),
            ),
    {
        self.call_set_attr(o, name, SetterValue::Assign(value))
    }

    /// Deletes an attribute of `o`.
    pub fn del_attr(&mut self, o: ObjId, name: &String) -> (r: Result<(), PyErr>)
        requires
            old(self).wf(),
            o < old(self).heap.len(),
        ensures
            final(self).wf(),
            Vm::sp_call_set_attr_post(
                *old(self),
                *final(self),
                o,
                name@,
                SetterValue::Delete,
                res_view(r),
            ),
    {
        self.call_set_attr(o, name, SetterValue::Delete)
    }
}

} // verus!
