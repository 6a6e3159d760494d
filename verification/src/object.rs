//! The sanctioned protocol surface: object references with the five call
//! groups other subsystems use — attribute access, comparison,
//! type-relationship queries, item access and hashing — each dispatching
//! through the runtime the reference lives in.
//!
//! `PyObjectRef` is an owned reference, `PyObject` a borrowed one; both
//! designate an object by its heap identity.

use vstd::prelude::*;

use crate::data::{CmpOp, Guard, ObjId, PyErr, SetterValue, res_view};
use crate::vm::Vm;

verus! {

/// An owned reference to an object of a runtime.
#[derive(Clone, Copy, Debug, PartialEq, Eq, Structural)]
pub struct PyObjectRef {
    pub id: ObjId,
}

/// A borrowed reference to an object of a runtime.
#[derive(Clone, Copy, Debug, PartialEq, Eq, Structural)]
pub struct PyObject {
    pub id: ObjId,
}

impl PyObjectRef {
    /// A reference to the object with the given heap identity.
    pub fn new(id: ObjId) -> (r: PyObjectRef)
        ensures
            r.id == id,
    {
        PyObjectRef { id }
    }

    /// Rich comparison returning an object: a primitive boolean answer
    /// becomes the `True` or `False` singleton.
    pub fn rich_compare(self, other: Self, op_id: CmpOp, vm: &Vm, guard: &mut Guard) -> (r: Result<
        ObjId,
        PyErr,
    >)
        requires
            vm.wf(),
            self.id < vm.heap.len(),
            other.id < vm.heap.len(),
        ensures
            *final(guard) == *old(guard),
            res_view(r) == vm.sp_rich_compare(self.id, other.id, op_id, old(guard).fuel()),
    {
        vm.rich_compare(self.id, other.id, op_id, guard)
    }

    /// Builds a byte string from this object; an exact integer is rejected.
    pub fn bytes(self, vm: &mut Vm) -> (r: Result<ObjId, PyErr>)
        requires
            old(vm).wf(),
            self.id < old(vm).heap.len(),
            old(vm).heap.len() + 1 < 0x7fff_ffff_ffff_ffff,
        ensures
            final(vm).wf(),
            (Vm::sp_bytes(*old(vm), self.id) matches Err(e) ==> *final(vm) == *old(vm) && (
            r matches Err(e2) && e2@ == e)),
            (Vm::sp_bytes(*old(vm), self.id) matches Ok(vals) ==> r == Ok::<ObjId, PyErr>(
                old(vm).heap@.len() as ObjId,
            ) && (final(vm).heap@[old(vm).heap@.len() as int].payload matches Some(p) && p@
                == vals)),
    {
        vm.bytes(self.id)
    }

    /// Boolean coercion of this object.
    pub fn is_true(self, vm: &Vm) -> (r: Result<bool, PyErr>)
        requires
            vm.wf(),
            self.id < vm.heap.len(),
        ensures
            r == Ok::<bool, PyErr>(vm.sp_is_true(self.id)),
    {
        vm.is_true(self.id)
    }

    /// The negated truth of this object.
    pub fn not(self, vm: &Vm) -> (r: Result<bool, PyErr>)
        requires
            vm.wf(),
            self.id < vm.heap.len(),
        ensures
            r == Ok::<bool, PyErr>(!vm.sp_is_true(self.id)),
    {
        vm.not(self.id)
    }

    /// The published length of this object, or the default.
    pub fn length_hint(self, defaultvalue: usize, vm: &Vm) -> (r: Result<usize, PyErr>)
        requires
            vm.wf(),
            self.id < vm.heap.len(),
        ensures
            r matches Ok(x) && x as int == (match vm.sp_length_opt(self.id) {
                Some(l) => l,
                None => defaultvalue as int,
            }),
    {
        vm.length_hint(self.id, defaultvalue)
    }

    /// Enumerates this object's attribute names: class-level attributes and
    /// instance storage, each once.
    pub fn dir(self, vm: &Vm) -> (r: Vec<String>)
        requires
            vm.wf(),
            self.id < vm.heap.len(),
        ensures
            forall|i: int, j: int| 0 <= i < j < r@.len() ==> r@[i]@ != r@[j]@,
            forall|i: int| 0 <= i < r@.len() ==> vm.sp_dir_member(self.id, #[trigger] r@[i]@),
    {
        vm.dir(self.id)
    }
}

impl PyObject {
    /// A reference to the object with the given heap identity.
    pub fn new(id: ObjId) -> (r: PyObject)
        ensures
            r.id == id,
    {
        PyObject { id }
    }

    /// Takes this object and returns an iterator for it: an iterator returns
    /// itself.
    pub fn get_iter(&self, vm: &Vm) -> (r: Result<ObjId, PyErr>)
        requires
            vm.wf(),
            self.id < vm.heap.len(),
        ensures
            res_view(r) == vm.sp_get_iter(self.id),
    {
        vm.get_iter(self.id)
    }

    /// Takes an asynchronous generator and returns its asynchronous iterator.
    pub fn get_aiter(&self, vm: &Vm) -> (r: Result<ObjId, PyErr>)
        requires
            vm.wf(),
            self.id < vm.heap.len(),
        ensures
            res_view(r) == vm.sp_get_aiter(self.id),
    {
        vm.get_aiter(self.id)
    }

    /// Whether this object has a non-`None` attribute of that name.
    pub fn has_attr(&self, attr_name: &String, vm: &Vm) -> (r: Result<bool, PyErr>)
        requires
            vm.wf(),
            self.id < vm.heap.len(),
        ensures
            res_view(r) == vm.sp_has_attr(self.id, attr_name@),
    {
        vm.has_attr(self.id, attr_name)
    }

    /// Reads an attribute of this object by name.
    pub fn get_attr(&self, attr_name: &String, vm: &Vm) -> (r: Result<ObjId, PyErr>)
        requires
            vm.wf(),
            self.id < vm.heap.len(),
        ensures
            res_view(r) == vm.sp_getattr(self.id, attr_name@),
    {
        vm.get_attr(self.id, attr_name)
    }

    /// Attribute write or deletion through the class's published setter slot.
    pub fn call_set_attr(&self, vm: &mut Vm, attr_name: &String, attr_value: SetterValue) -> (r:
        Result<(), PyErr>)
        requires
            old(vm).wf(),
            self.id < old(vm).heap.len(),
            attr_value matches SetterValue::Assign(v) ==> v < old(vm).heap.len(),
        ensures
            final(vm).wf(),
            Vm::sp_call_set_attr_post(
                *old(vm),
                *final(vm),
                self.id,
                attr_name@,
                attr_value,
                res_view(r),
            ),
    {
        vm.call_set_attr(self.id, attr_name, attr_value)
    }

    /// Assigns an attribute of this object.
    pub fn set_attr(&self, attr_name: &String, attr_value: ObjId, vm: &mut Vm) -> (r: Result<
        (),
        PyErr,
    >)
        requires
            old(vm).wf(),
            self.id < old(vm).heap.len(),
            attr_value < old(vm).heap.len(),
        ensures
            final(vm).wf(),
            Vm::sp_call_set_attr_post(
                *old(vm),
                *final(vm),
                self.id,
                attr_name@,
                SetterValue::Assign(attr_value),
                res_view(r),
            ),
    {
        vm.set_attr(self.id, attr_name, attr_value)
    }

    /// Generic attribute write or deletion: descriptor set/delete hooks
    /// first, then instance storage.
    pub fn generic_setattr(&self, attr_name: &String, value: SetterValue, vm: &mut Vm) -> (r:
        Result<(), PyErr>)
        requires
            old(vm).wf(),
            self.id < old(vm).heap.len(),
            value matches SetterValue::Assign(v) ==> v < old(vm).heap.len(),
        ensures
            final(vm).wf(),
            Vm::sp_setattr_post(*old(vm), *final(vm), self.id, attr_name@, value, res_view(r)),
    {
        vm.generic_setattr(self.id, attr_name, value)
    }

    /// Generic attribute read: an absent attribute fails.
    pub fn generic_getattr(&self, name: &String, vm: &Vm) -> (r: Result<ObjId, PyErr>)
        requires
            vm.wf(),
            self.id < vm.heap.len(),
        ensures
            res_view(r) == vm.sp_getattr(self.id, name@),
    {
        vm.generic_getattr(self.id, name)
    }

    /// Generic attribute read with an optional instance-storage override.
    pub fn generic_getattr_opt(
        &self,
        name_str: &String,
        dict: Option<&Vec<(String, ObjId)>>,
        vm: &Vm,
    ) -> (r: Result<Option<ObjId>, PyErr>)
        requires
            vm.wf(),
            self.id < vm.heap.len(),
        ensures
            res_view(r) == vm.sp_getattr_opt(
                self.id,
                name_str@,
                match dict {
                    Some(d) => Some(d@),
                    None => None,
                },
            ),
    {
        vm.generic_getattr_opt(self.id, name_str, dict)
    }

    /// Deletes an attribute of this object.
    pub fn del_attr(&self, attr_name: &String, vm: &mut Vm) -> (r: Result<(), PyErr>)
        requires
            old(vm).wf(),
            self.id < old(vm).heap.len(),
        ensures
            final(vm).wf(),
            Vm::sp_call_set_attr_post(
                *old(vm),
                *final(vm),
                self.id,
                attr_name@,
                SetterValue::Delete,
                res_view(r),
            ),
    {
        vm.del_attr(self.id, attr_name)
    }

    /// Rich comparison returning a primitive boolean, coercing a non-boolean
    /// definite answer.
    pub fn rich_compare_bool(&self, other: &Self, op_id: CmpOp, vm: &Vm, guard: &mut Guard) -> (r:
        Result<bool, PyErr>)
        requires
            vm.wf(),
            self.id < vm.heap.len(),
            other.id < vm.heap.len(),
        ensures
            *final(guard) == *old(guard),
            res_view(r) == vm.sp_rich_compare_bool(self.id, other.id, op_id, old(guard).fuel()),
    {
        vm.rich_compare_bool(self.id, other.id, op_id, guard)
    }

    /// The source-like text of this object, under the reentrancy guard.
    pub fn repr(&self, vm: &Vm, guard: &mut Guard) -> (r: Result<String, PyErr>)
        requires
            vm.wf(),
            self.id < vm.heap.len(),
        ensures
            *final(guard) == *old(guard),
            (vm.sp_repr(self.id, old(guard).fuel()) matches Ok(t) ==> r matches Ok(s) && s@ == t),
            (vm.sp_repr(self.id, old(guard).fuel()) matches Err(e) ==> r matches Err(e2) && e2@
                == e),
    {
        vm.repr(self.id, guard)
    }

    /// The text of this object: itself for strings, else through the
    /// string-conversion hook, else the repr.
    pub fn str(&self, vm: &Vm, guard: &mut Guard) -> (r: Result<String, PyErr>)
        requires
            vm.wf(),
            self.id < vm.heap.len(),
        ensures
            *final(guard) == *old(guard),
            (vm.sp_str(self.id, old(guard).fuel()) matches Ok(t) ==> r matches Ok(s) && s@ == t),
            (vm.sp_str(self.id, old(guard).fuel()) matches Err(e) ==> r matches Err(e2) && e2@
                == e),
    {
        vm.str(self.id, guard)
    }

    /// Determines whether this object is a subclass of `cls`, directly,
    /// indirectly or through a custom subclass-check hook.
    pub fn is_subclass(&self, cls: &PyObject, vm: &Vm, guard: &mut Guard) -> (r: Result<
        bool,
        PyErr,
    >)
        requires
            vm.wf(),
            self.id < vm.heap.len(),
            cls.id < vm.heap.len(),
        ensures
            *final(guard) == *old(guard),
            res_view(r) == vm.sp_is_subclass(self.id, cls.id, old(guard).fuel()),
    {
        vm.is_subclass(self.id, cls.id, guard)
    }

    /// Determines whether this object is an instance of `cls`, directly,
    /// indirectly or through a custom instance-check hook.
    pub fn is_instance(&self, cls: &PyObject, vm: &Vm, guard: &mut Guard) -> (r: Result<
        bool,
        PyErr,
    >)
        requires
            vm.wf(),
            self.id < vm.heap.len(),
            cls.id < vm.heap.len(),
        ensures
            *final(guard) == *old(guard),
            res_view(r) == vm.sp_is_instance(self.id, cls.id, old(guard).fuel()),
    {
        vm.is_instance(self.id, cls.id, guard)
    }

    /// The fixed-width hash of this object.
    pub fn hash(&self, vm: &Vm) -> (r: Result<i64, PyErr>)
        requires
            vm.wf(),
            self.id < vm.heap.len(),
        ensures
            res_view(r) == vm.sp_hash(self.id),
    {
        vm.hash(self.id)
    }

    /// The class of this object, as an object.
    pub fn obj_type(&self, vm: &Vm) -> (r: PyObjectRef)
        requires
            vm.wf(),
            self.id < vm.heap.len(),
        ensures
            r.id == vm.class_obj(vm.class_of(self.id)),
            r.id < vm.heap.len(),
    {
        PyObjectRef { id: vm.obj_type(self.id) }
    }

    /// Whether this object's allocation class has `typ` in its ancestor
    /// order.
    pub fn type_check(&self, typ: crate::data::ClassId, vm: &Vm) -> (r: bool)
        requires
            vm.wf(),
            self.id < vm.heap.len(),
        ensures
            r == vm.mro_contains(vm.class_of(self.id), typ),
    {
        vm.type_check(self.id, typ)
    }

    /// The published length of this object, when some length protocol
    /// resolves.
    pub fn length_opt(&self, vm: &Vm) -> (r: Option<usize>)
        requires
            vm.wf(),
            self.id < vm.heap.len(),
        ensures
            (vm.sp_length_opt(self.id) matches Some(l) ==> r matches Some(x) && x as int == l),
            (vm.sp_length_opt(self.id) is None ==> r is None),
    {
        vm.length_opt(self.id)
    }

    /// The length of this object.
    pub fn length(&self, vm: &Vm) -> (r: Result<usize, PyErr>)
        requires
            vm.wf(),
            self.id < vm.heap.len(),
        ensures
            (vm.sp_length(self.id) matches Ok(l) ==> r matches Ok(x) && x as int == l),
            (vm.sp_length(self.id) matches Err(e) ==> r matches Err(e2) && e2@ == e),
    {
        vm.length(self.id)
    }

    /// Reads a subscript of this object.
    pub fn get_item(&self, needle: ObjId, vm: &mut Vm) -> (r: Result<ObjId, PyErr>)
        requires
            old(vm).wf(),
            self.id < old(vm).heap.len(),
            needle < old(vm).heap.len(),
            old(vm).heap.len() + 1 < 0x7fff_ffff_ffff_ffff,
        ensures
            final(vm).wf(),
            (Vm::sp_get_item(*old(vm), self.id, needle) matches crate::item::ItemGot::Done(res)
                ==> *final(vm) == *old(vm) && res_view(r) == res),
    {
        vm.get_item(self.id, needle)
    }

    /// Assigns a subscript of this object.
    pub fn set_item(&self, needle: ObjId, value: ObjId, vm: &mut Vm) -> (r: Result<(), PyErr>)
        requires
            old(vm).wf(),
            self.id < old(vm).heap.len(),
            needle < old(vm).heap.len(),
            value < old(vm).heap.len(),
        ensures
            final(vm).wf(),
            Vm::sp_set_item_post(*old(vm), *final(vm), self.id, needle, value, res_view(r)),
    {
        vm.set_item(self.id, needle, value)
    }

    /// Deletes a subscript of this object.
    pub fn del_item(&self, needle: ObjId, vm: &mut Vm) -> (r: Result<(), PyErr>)
        requires
            old(vm).wf(),
            self.id < old(vm).heap.len(),
            needle < old(vm).heap.len(),
        ensures
            final(vm).wf(),
            Vm::sp_del_item_post(*old(vm), *final(vm), self.id, needle, res_view(r)),
    {
        vm.del_item(self.id, needle)
    }
}

} // verus!
