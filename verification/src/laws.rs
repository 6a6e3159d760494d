//! The laws of the protocol layer: properties that hold of every runtime,
//! stated over the same spec functions the engines' contracts use and proved
//! from them.

use vstd::prelude::*;

use crate::data::{CmpArith, CmpOp, CmpValue, ErrView, ObjId, SetterValue};
use crate::item::ItemGot;
use crate::vm::Vm;

verus! {

/// Two runtimes with the same class table resolve class-level attributes
/// identically.
proof fn lemma_mro_attr_same(a: Vm, b: Vm, mro: Seq<crate::data::ClassId>, i: int, name: Seq<char>)
    requires
        a.classes == b.classes,
    ensures
        a.sp_mro_attr_from(mro, i, name) == b.sp_mro_attr_from(mro, i, name),
    decreases mro.len() - i,
{
    if 0 <= i < mro.len() {
        lemma_mro_attr_same(a, b, mro, i + 1, name);
    }
}

/// Two runtimes with the same class table resolve hook slots identically.
proof fn lemma_slots_from_same(a: Vm, b: Vm, mro: Seq<crate::data::ClassId>, i: int)
    requires
        a.classes == b.classes,
    ensures
        a.sp_slots_from(mro, i) == b.sp_slots_from(mro, i),
    decreases mro.len() - i,
{
    if 0 <= i < mro.len() {
        lemma_slots_from_same(a, b, mro, i + 1);
    }
}

/// Round trip: on an object with instance storage whose class has no
/// set/delete descriptor for `name` (so no data descriptor of that name) but
/// does publish the setter slot, a successful assignment of `v` is promised,
/// and a subsequent read returns exactly `v`.
pub proof fn lemma_attribute_round_trip(
    pre: Vm,
    post: Vm,
    o: ObjId,
    name: Seq<char>,
    v: ObjId,
    r: Result<(), ErrView>,
)
    requires
        pre.wf(),
        o < pre.heap.len(),
        pre.heap@[o as int].dict is Some,
        pre.sp_class_attr(pre.class_of(o), name) matches Some(d) ==> pre.sp_descr_set(
            pre.class_of(d),
        ) is None,
        pre.sp_resolved(pre.class_of(o)).setattro,
        Vm::sp_call_set_attr_post(pre, post, o, name, SetterValue::Assign(v), r),
    ensures
        r == Ok::<(), ErrView>(()),
        post.sp_getattr(o, name) == Ok::<ObjId, ErrView>(v),
{
    let oc = pre.class_of(o);
    assert(Vm::sp_setattr_post(pre, post, o, name, SetterValue::Assign(v), r));
    assert(post.classes == pre.classes);
    assert(post.class_of(o) == oc);
    lemma_mro_attr_same(pre, post, pre.classes[oc as int].mro@, 0, name);
    assert(post.sp_class_attr(oc, name) == pre.sp_class_attr(oc, name));
    assert(post.sp_stored(o, name, None) == Some(v));
    assert(pre.wf_obj(pre.heap@[o as int]));
    pre.lemma_class_attr_range(oc, name);
    match pre.sp_class_attr(oc, name) {
        Some(d) => {
            assert(pre.wf_obj(pre.heap@[d as int]));
            if d != o {
                assert(post.heap@[d as int] == pre.heap@[d as int]);
            }
            assert(post.class_of(d) == pre.class_of(d));
            lemma_slots_from_same(
                pre,
                post,
                pre.classes[pre.class_of(d) as int].mro@,
                0,
            );
            assert(post.sp_descr_set(post.class_of(d)) is None);
        },
        None => {},
    }
}

/// Data-descriptor precedence: when the class defines `name` as a data
/// descriptor (get and set/delete hooks both resolve), reading the attribute
/// invokes the descriptor's get hook — never the instance-stored value,
/// whatever the storage holds.
pub proof fn lemma_data_descriptor_precedence(
    vm: Vm,
    i: ObjId,
    name: Seq<char>,
    d: ObjId,
    g: crate::data::DescrGetHook,
)
    requires
        vm.wf(),
        i < vm.heap.len(),
        vm.sp_class_attr(vm.class_of(i), name) == Some(d),
        vm.sp_descr_get(vm.class_of(d)) == Some(g),
        vm.sp_descr_set(vm.class_of(d)) is Some,
    ensures
        vm.sp_getattr_opt(i, name, None) == (match vm.sp_descr_get_eval(d, g) {
            Ok(v) => Ok::<Option<ObjId>, ErrView>(Some(v)),
            Err(e) => Err(e),
        }),
{
}

/// Non-data-descriptor shadowing: when the class defines `name` with a get
/// hook only, an instance-stored value of that name shadows the descriptor
/// and is returned as stored.
pub proof fn lemma_non_data_descriptor_shadowing(vm: Vm, i: ObjId, name: Seq<char>, v: ObjId)
    requires
        vm.wf(),
        i < vm.heap.len(),
        vm.sp_class_attr(vm.class_of(i), name) is Some,
        vm.sp_descr_set(vm.class_of(vm.sp_class_attr(vm.class_of(i), name)->0)) is None,
        vm.heap@[i as int].dict matches Some(dd) && crate::vm::sp_dict_get(dd@, name) == Some(v),
    ensures
        vm.sp_getattr(i, name) == Ok::<ObjId, ErrView>(v),
{
    assert(vm.sp_stored(i, name, None) == Some(v));
}

/// Subclass comparison precedence: when the second operand's class is a
/// strict subclass of the first's and its hook, tried with the reflected
/// operator, gives a definite answer, that answer is the comparison's answer
/// — the first operand's hook is never consulted.
pub proof fn lemma_subclass_comparison_precedence(
    vm: Vm,
    a: ObjId,
    b: ObjId,
    op: CmpOp,
    x: CmpValue,
    fuel: nat,
)
    requires
        vm.wf(),
        a < vm.heap.len(),
        b < vm.heap.len(),
        vm.sp_strict_subclass(b, a),
        vm.sp_call_cmp(b, a, op.spec_swapped(), fuel) == Ok::<CmpArith, ErrView>(
            CmpArith::Val(x),
        ),
    ensures
        vm.sp_cmp(a, b, op, fuel) == Ok::<CmpValue, ErrView>(x),
{
}

/// Comparison fallback: when every hook attempt reports the not-implemented
/// sentinel, EQ answers identity of the operands, NE its negation, and LT
/// fails as unorderable, naming both classes and the operator.
pub proof fn lemma_comparison_fallback(vm: Vm, a: ObjId, b: ObjId, fuel: nat)
    requires
        vm.wf(),
        a < vm.heap.len(),
        b < vm.heap.len(),
        vm.sp_call_cmp(a, b, CmpOp::Eq, fuel) == Ok::<CmpArith, ErrView>(CmpArith::NotImpl),
        vm.sp_call_cmp(b, a, CmpOp::Eq, fuel) == Ok::<CmpArith, ErrView>(CmpArith::NotImpl),
        vm.sp_call_cmp(a, b, CmpOp::Ne, fuel) == Ok::<CmpArith, ErrView>(CmpArith::NotImpl),
        vm.sp_call_cmp(b, a, CmpOp::Ne, fuel) == Ok::<CmpArith, ErrView>(CmpArith::NotImpl),
        vm.sp_call_cmp(a, b, CmpOp::Lt, fuel) == Ok::<CmpArith, ErrView>(CmpArith::NotImpl),
        vm.sp_call_cmp(b, a, CmpOp::Gt, fuel) == Ok::<CmpArith, ErrView>(CmpArith::NotImpl),
    ensures
        vm.sp_cmp(a, b, CmpOp::Eq, fuel) == Ok::<CmpValue, ErrView>(CmpValue::Bool(a == b)),
        vm.sp_cmp(a, b, CmpOp::Ne, fuel) == Ok::<CmpValue, ErrView>(CmpValue::Bool(a != b)),
        vm.sp_cmp(a, b, CmpOp::Lt, fuel) == Err::<CmpValue, ErrView>(
            ErrView::Unorderable {
                left_class: vm.class_name(vm.class_of(a)),
                right_class: vm.class_name(vm.class_of(b)),
                op: CmpOp::Lt,
            },
        ),
{
}

/// Every object is an instance of its own class.
pub proof fn lemma_isinstance_class_of(vm: Vm, o: ObjId, fuel: nat)
    requires
        vm.wf(),
        o < vm.heap.len(),
    ensures
        vm.sp_is_instance(o, vm.class_obj(vm.class_of(o)), fuel) == Ok::<bool, ErrView>(true),
{
}

/// The candidates from position `i` on answer true exactly when one of them
/// answers true, provided none of them errs.
proof fn lemma_subclass_tuple_iter(vm: Vm, o: ObjId, es: Seq<ObjId>, i: int, fuel: nat)
    requires
        0 <= i,
        fuel >= 1,
        forall|j: int|
            i <= j < es.len() ==> (#[trigger] vm.sp_is_subclass(
                o,
                es[j],
                (fuel - 1) as nat,
            )) is Ok,
    ensures
        vm.sp_subclass_tuple(o, es, i, fuel) == Ok::<bool, ErrView>(
            exists|j: int|
                i <= j < es.len() && #[trigger] vm.sp_is_subclass(o, es[j], (fuel - 1) as nat)
                    == Ok::<bool, ErrView>(true),
        ),
    decreases es.len() - i,
{
    if i >= es.len() {
        assert(!(exists|j: int|
            i <= j < es.len() && #[trigger] vm.sp_is_subclass(o, es[j], (fuel - 1) as nat)
                == Ok::<bool, ErrView>(true)));
    } else {
        match vm.sp_is_subclass(o, es[i], (fuel - 1) as nat) {
            Ok(true) => {
                assert(exists|j: int|
                    i <= j < es.len() && #[trigger] vm.sp_is_subclass(o, es[j], (fuel - 1) as nat)
                        == Ok::<bool, ErrView>(true));
            },
            Ok(false) => {
                lemma_subclass_tuple_iter(vm, o, es, i + 1, fuel);
                if exists|j: int|
                    i <= j < es.len() && #[trigger] vm.sp_is_subclass(o, es[j], (fuel - 1) as nat)
                        == Ok::<bool, ErrView>(true) {
                    let j = choose|j: int|
                        i <= j < es.len() && #[trigger] vm.sp_is_subclass(
                            o,
                            es[j],
                            (fuel - 1) as nat,
                        ) == Ok::<bool, ErrView>(true);
                    assert(j > i);
                }
            },
            Err(_) => {
                assert(false);
            },
        }
    }
}

/// Subclass query against a tuple of candidates: true exactly when at least
/// one candidate answers true, provided each candidate's own query succeeds;
/// the empty tuple answers false.
pub proof fn lemma_issubclass_tuple(vm: Vm, o: ObjId, cls: ObjId, fuel: nat)
    requires
        vm.wf(),
        o < vm.heap.len(),
        cls < vm.heap.len(),
        vm.class_of(cls) != vm.type_class,
        vm.is_tuple_like(cls),
        fuel >= 1,
        forall|j: int|
            0 <= j < vm.sp_elems_of(cls).len() ==> (#[trigger] vm.sp_is_subclass(
                o,
                vm.sp_elems_of(cls)[j],
                (fuel - 1) as nat,
            )) is Ok,
    ensures
        vm.sp_is_subclass(o, cls, fuel) == Ok::<bool, ErrView>(
            exists|j: int|
                0 <= j < vm.sp_elems_of(cls).len() && #[trigger] vm.sp_is_subclass(
                    o,
                    vm.sp_elems_of(cls)[j],
                    (fuel - 1) as nat,
                ) == Ok::<bool, ErrView>(true),
        ),
        vm.sp_elems_of(cls).len() == 0 ==> vm.sp_is_subclass(o, cls, fuel) == Ok::<
            bool,
            ErrView,
        >(false),
{
    assert(vm.heap[cls as int].elems->0@ == vm.sp_elems_of(cls));
    lemma_subclass_tuple_iter(vm, o, vm.sp_elems_of(cls), 0, fuel);
}

/// Item protocol precedence: an object whose class publishes the mapping
/// subscript uses the mapping path, whether or not the sequence protocol is
/// also published.
pub proof fn lemma_item_mapping_precedence(vm: Vm, o: ObjId, needle: ObjId)
    requires
        vm.wf(),
        o < vm.heap.len(),
        vm.sp_resolved(vm.class_of(o)).map_subscript,
    ensures
        vm.sp_get_item(o, needle) == ItemGot::Done(vm.sp_map_lookup(o, needle)),
{
}

/// Adversarial recursion: comparing two objects of one class whose comparison
/// hook unconditionally re-invokes the comparison fails with the
/// recursion-exceeded error at every depth budget, rather than diverging.
pub proof fn lemma_adversarial_recursion(vm: Vm, a: ObjId, b: ObjId, op: CmpOp, fuel: nat)
    requires
        vm.wf(),
        a < vm.heap.len(),
        b < vm.heap.len(),
        vm.class_of(a) == vm.class_of(b),
        vm.sp_richcompare(vm.class_of(a)) == Some(crate::data::CmpHook::Recurse),
    ensures
        vm.sp_cmp(a, b, op, fuel) == Err::<CmpValue, ErrView>(ErrView::RecursionExceeded),
    decreases fuel,
{
    if fuel > 0 {
        lemma_adversarial_recursion(vm, a, b, op, (fuel - 1) as nat);
    }
}

} // verus!
