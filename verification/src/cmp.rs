//! Comparison Engine: rich comparison with reflected-operand and
//! subclass-precedence rules, and boolean coercion.
//!
//! When the second operand's class is a strict subclass of the first's, its
//! hook is tried first with the reflected operator; otherwise the first
//! operand's hook is tried, then the second's with the reflected operator.
//! The first definite answer wins. With no definite answer, equality falls
//! back to identity, inequality to its negation, and ordering fails as
//! unorderable. Every hook invocation runs under the reentrancy guard.

use vstd::prelude::*;

use crate::data::{
    CmpArith, CmpHook, CmpOp, CmpValue, ErrView, Guard, ObjId, PyErr, TruthHook, res_view,
};
use crate::vm::Vm;

verus! {

/// Whether two numeric payloads hold the same values.
fn int_vecs_equal(a: &Vec<i64>, b: &Vec<i64>) -> (r: bool)
    ensures
        r == (a@ == b@),
{
    let n = a.len();
    if n != b.len() {
        proof {
            assert(a@ != b@);
        }
        return false;
    }
    let mut i: usize = 0;
    while i < n
        invariant
            i <= n,
            n == a@.len(),
            n == b@.len(),
            forall|j: int| 0 <= j < i ==> a@[j] == b@[j],
        decreases n - i,
    {
        if a[i] != b[i] {
            proof {
                assert(a@[i as int] != b@[i as int]);
            }
            return false;
        }
        i += 1;
    }
    proof {
        assert(a@ =~= b@);
    }
    true
}

impl Vm {
    /// The primitive truth of an object: its class's boolean-coercion hook if
    /// one resolves, else a published length compared against zero, else true.
    pub open spec fn sp_is_true(self, o: ObjId) -> bool {
        match self.sp_truth(self.class_of(o)) {
            Some(TruthHook::Always(b)) => b,
            Some(TruthHook::NonEmpty) => match self.heap[o as int].elems {
                Some(e) => e@.len() > 0,
                None => match self.heap[o as int].entries {
                    Some(e) => e@.len() > 0,
                    None => false,
                },
            },
            Some(TruthHook::PayloadNonzero) => match self.heap[o as int].payload {
                Some(p) => p@.len() > 0 && p@[0] != 0,
                None => false,
            },
            None => match self.sp_length_opt(o) {
                Some(l) => l != 0,
                None => true,
            },
        }
    }

    /// Boolean coercion of `o`.
    pub fn is_true(&self, o: ObjId) -> (r: Result<bool, PyErr>)
        requires
            self.wf(),
            o < self.heap.len(),
        ensures
            r == Ok::<bool, PyErr>(self.sp_is_true(o)),
    {
        let oc = self.heap[o].class;
        proof {
            assert(self.wf_obj(self.heap@[o as int]));
        }
        let rs = self.resolve_slots(oc);
        match rs.truth {
            Some(TruthHook::Always(b)) => Ok(b),
            Some(TruthHook::NonEmpty) => match &self.heap[o].elems {
                Some(e) => Ok(e.len() > 0),
                None => match &self.heap[o].entries {
                    Some(e) => Ok(e.len() > 0),
                    None => Ok(false),
                },
            },
            Some(TruthHook::PayloadNonzero) => match &self.heap[o].payload {
                Some(p) => Ok(p.len() > 0 && p[0] != 0),
                None => Ok(false),
            },
            None => {
                if rs.seq_len && self.heap[o].elems.is_some() {
                    match &self.heap[o].elems {
                        Some(e) => Ok(e.len() != 0),
                        None => Ok(true),
                    }
                } else if rs.map_len && self.heap[o].entries.is_some() {
                    match &self.heap[o].entries {
                        Some(e) => Ok(e.len() != 0),
                        None => Ok(true),
                    }
                } else {
                    Ok(true)
                }
            },
        }
    }

    /// The negated truth of `o`.
    pub fn not(&self, o: ObjId) -> (r: Result<bool, PyErr>)
        requires
            self.wf(),
            o < self.heap.len(),
        ensures
            r == Ok::<bool, PyErr>(!self.sp_is_true(o)),
    {
        match self.is_true(o) {
            Ok(b) => Ok(!b),
            Err(e) => Err(e),
        }
    }

    /// The second object's class is a strict, non-identical subclass of the
    /// first object's class.
    pub open spec fn sp_strict_subclass(self, b: ObjId, a: ObjId) -> bool {
        &&& self.class_of(b) != self.class_of(a)
        &&& self.mro_contains(self.class_of(b), self.class_of(a))
    }

    /// One guarded attempt at the resolved comparison hook of `obj`'s class
    /// on `(obj, other, op)`, with `fuel` the remaining depth budget. With no
    /// budget the attempt itself fails; an unresolved hook reports the
    /// not-implemented sentinel.
    pub open spec fn sp_call_cmp(self, obj: ObjId, other: ObjId, op: CmpOp, fuel: nat) -> Result<
        CmpArith,
        ErrView,
    >
        decreases fuel, 0int,
    {
        if fuel == 0 {
            Err(ErrView::RecursionExceeded)
        } else {
            match self.sp_richcompare(self.class_of(obj)) {
                None => Ok(CmpArith::NotImpl),
                Some(CmpHook::Always(b)) => Ok(CmpArith::Val(CmpValue::Bool(b))),
                Some(CmpHook::Object(i)) => Ok(CmpArith::Val(CmpValue::Obj(i))),
                Some(CmpHook::NotImplementedHook) => Ok(CmpArith::NotImpl),
                Some(CmpHook::ByPayload) => {
                    if op == CmpOp::Eq || op == CmpOp::Ne {
                        match (self.heap[obj as int].payload, self.heap[other as int].payload) {
                            (Some(pa), Some(pb)) => Ok(
                                CmpArith::Val(
                                    CmpValue::Bool(
                                        if op == CmpOp::Eq {
                                            pa@ == pb@
                                        } else {
                                            pa@ != pb@
                                        },
                                    ),
                                ),
                            ),
                            _ => Ok(CmpArith::NotImpl),
                        }
                    } else {
                        Ok(CmpArith::NotImpl)
                    }
                },
                Some(CmpHook::Recurse) => match self.sp_cmp(obj, other, op, (fuel - 1) as nat) {
                    Ok(v) => Ok(CmpArith::Val(v)),
                    Err(e) => Err(e),
                },
            }
        }
    }

    /// The identity fallback when every hook attempt reported the
    /// not-implemented sentinel: identity for EQ, its negation for NE, and
    /// the unorderable failure, naming both classes and the operator, for
    /// the ordering operators.
    pub open spec fn sp_cmp_fallback(self, a: ObjId, b: ObjId, op: CmpOp) -> Result<
        CmpValue,
        ErrView,
    > {
        match op {
            CmpOp::Eq => Ok(CmpValue::Bool(a == b)),
            CmpOp::Ne => Ok(CmpValue::Bool(a != b)),
            _ => Err(
                ErrView::Unorderable {
                    left_class: self.class_name(self.class_of(a)),
                    right_class: self.class_name(self.class_of(b)),
                    op,
                },
            ),
        }
    }

    /// The outcome of a rich comparison of `a` and `b`: the reflected attempt
    /// comes first exactly when `b`'s class is a strict subclass of `a`'s,
    /// the first definite answer wins, and each attempt consumes the guard.
    pub open spec fn sp_cmp(self, a: ObjId, b: ObjId, op: CmpOp, fuel: nat) -> Result<
        CmpValue,
        ErrView,
    >
        decreases fuel, 1int,
    {
        let swapped = op.spec_swapped();
        if self.sp_strict_subclass(b, a) {
            match self.sp_call_cmp(b, a, swapped, fuel) {
                Err(e) => Err(e),
                Ok(CmpArith::Val(x)) => Ok(x),
                Ok(CmpArith::NotImpl) => match self.sp_call_cmp(a, b, op, fuel) {
                    Err(e) => Err(e),
                    Ok(CmpArith::Val(x)) => Ok(x),
                    Ok(CmpArith::NotImpl) => self.sp_cmp_fallback(a, b, op),
                },
            }
        } else {
            match self.sp_call_cmp(a, b, op, fuel) {
                Err(e) => Err(e),
                Ok(CmpArith::Val(x)) => Ok(x),
                Ok(CmpArith::NotImpl) => match self.sp_call_cmp(b, a, swapped, fuel) {
                    Err(e) => Err(e),
                    Ok(CmpArith::Val(x)) => Ok(x),
                    Ok(CmpArith::NotImpl) => self.sp_cmp_fallback(a, b, op),
                },
            }
        }
    }

    /// A definite comparison answer that is an object names a live object.
    pub proof fn lemma_cmp_range(self, fuel: nat)
        requires
            self.wf(),
        ensures
            forall|x: ObjId, y: ObjId, oo: CmpOp|
                x < self.heap.len() && y < self.heap.len() ==> ((#[trigger] self.sp_cmp(
                    x,
                    y,
                    oo,
                    fuel,
                )) matches Ok(CmpValue::Obj(i)) ==> i < self.heap.len()),
            forall|x: ObjId, y: ObjId, oo: CmpOp|
                x < self.heap.len() && y < self.heap.len() ==> ((#[trigger] self.sp_call_cmp(
                    x,
                    y,
                    oo,
                    fuel,
                )) matches Ok(CmpArith::Val(CmpValue::Obj(i))) ==> i < self.heap.len()),
        decreases fuel,
    {
        if fuel > 0 {
            self.lemma_cmp_range((fuel - 1) as nat);
        }
        assert forall|x: ObjId, y: ObjId, oo: CmpOp|
            x < self.heap.len() && y < self.heap.len() implies ((#[trigger] self.sp_call_cmp(
            x,
            y,
            oo,
            fuel,
        )) matches Ok(CmpArith::Val(CmpValue::Obj(i))) ==> i < self.heap.len()) by {
            if fuel > 0 {
                assert(self.wf_obj(self.heap[x as int]));
                self.lemma_resolved_wf(self.class_of(x));
                assert(self.wf_slots(self.sp_resolved(self.class_of(x))));
                match self.sp_richcompare(self.class_of(x)) {
                    Some(CmpHook::Recurse) => {
                        assert(self.sp_cmp(x, y, oo, (fuel - 1) as nat) matches Ok(
                            CmpValue::Obj(i),
                        ) ==> i < self.heap.len());
                    },
                    _ => {},
                }
            }
        }
        assert forall|x: ObjId, y: ObjId, oo: CmpOp|
            x < self.heap.len() && y < self.heap.len() implies ((#[trigger] self.sp_cmp(
            x,
            y,
            oo,
            fuel,
        )) matches Ok(CmpValue::Obj(i)) ==> i < self.heap.len()) by {
            if self.sp_cmp(x, y, oo, fuel) matches Ok(CmpValue::Obj(i)) {
                assert(self.sp_call_cmp(y, x, oo.spec_swapped(), fuel) matches Ok(
                    CmpArith::Val(CmpValue::Obj(j)),
                ) ==> j < self.heap.len());
                assert(self.sp_call_cmp(x, y, oo, fuel) matches Ok(
                    CmpArith::Val(CmpValue::Obj(j)),
                ) ==> j < self.heap.len());
            }
        }
    }

    /// One guarded attempt at the resolved comparison hook of `obj`'s class:
    /// enters the guard, interprets the hook (an adversarial hook re-invokes
    /// the whole comparison), and restores the guard on every exit path.
    fn call_cmp(&self, obj: ObjId, other: ObjId, op: CmpOp, guard: &mut Guard) -> (r: Result<
        CmpArith,
        PyErr,
    >)
        requires
            self.wf(),
            obj < self.heap.len(),
            other < self.heap.len(),
        ensures
            *final(guard) == *old(guard),
            res_view(r) == self.sp_call_cmp(obj, other, op, old(guard).fuel()),
        decreases guard.limit - guard.depth, 0int,
    {
        if guard.depth >= guard.limit {
            return Err(PyErr::RecursionExceeded);
        }
        guard.depth = guard.depth + 1;
        let oc = self.heap[obj].class;
        proof {
            assert(self.wf_obj(self.heap@[obj as int]));
        }
        let rs = self.resolve_slots(oc);
        let r: Result<CmpArith, PyErr> = match rs.richcompare {
            None => Ok(CmpArith::NotImpl),
            Some(CmpHook::Always(b)) => Ok(CmpArith::Val(CmpValue::Bool(b))),
            Some(CmpHook::Object(i)) => Ok(CmpArith::Val(CmpValue::Obj(i))),
            Some(CmpHook::NotImplementedHook) => Ok(CmpArith::NotImpl),
            Some(CmpHook::ByPayload) => {
                if matches!(op, CmpOp::Eq) || matches!(op, CmpOp::Ne) {
                    match (&self.heap[obj].payload, &self.heap[other].payload) {
                        (Some(pa), Some(pb)) => {
                            let eq = int_vecs_equal(pa, pb);
                            let v = if matches!(op, CmpOp::Eq) {
                                eq
                            } else {
                                !eq
                            };
                            Ok(CmpArith::Val(CmpValue::Bool(v)))
                        },
                        _ => Ok(CmpArith::NotImpl),
                    }
                } else {
                    Ok(CmpArith::NotImpl)
                }
            },
            Some(CmpHook::Recurse) => {
                match self._cmp(obj, other, op, guard) {
                    Ok(v) => Ok(CmpArith::Val(v)),
                    Err(e) => Err(e),
                }
            },
        };
        guard.depth = guard.depth - 1;
        r
    }

    /// Rich comparison of `a` and `b`: tries the operands' comparison hooks
    /// in subclass-precedence order under the reentrancy guard and falls back
    /// to identity for EQ and NE. The guard is balanced on every exit path.
    pub(crate) fn _cmp(&self, a: ObjId, b: ObjId, op: CmpOp, guard: &mut Guard) -> (r: Result<
        CmpValue,
        PyErr,
    >)
        requires
            self.wf(),
            a < self.heap.len(),
            b < self.heap.len(),
        ensures
            *final(guard) == *old(guard),
            res_view(r) == self.sp_cmp(a, b, op, old(guard).fuel()),
        decreases guard.limit - guard.depth, 1int,
    {
        let swapped = op.swapped();
        let a_cls = self.heap[a].class;
        let b_cls = self.heap[b].class;
        proof {
            assert(self.wf_obj(self.heap@[a as int]));
            assert(self.wf_obj(self.heap@[b as int]));
        }
        let strict = a_cls != b_cls && self.mro_has(b_cls, a_cls);
        if strict {
            match self.call_cmp(b, a, swapped, guard) {
                Err(e) => return Err(e),
                Ok(CmpArith::Val(x)) => return Ok(x),
                Ok(CmpArith::NotImpl) => {},
            }
            match self.call_cmp(a, b, op, guard) {
                Err(e) => Err(e),
                Ok(CmpArith::Val(x)) => Ok(x),
                Ok(CmpArith::NotImpl) => self.cmp_fallback(a, b, op),
            }
        } else {
            match self.call_cmp(a, b, op, guard) {
                Err(e) => return Err(e),
                Ok(CmpArith::Val(x)) => return Ok(x),
                Ok(CmpArith::NotImpl) => {
                    match self.call_cmp(b, a, swapped, guard) {
                        Err(e) => Err(e),
                        Ok(CmpArith::Val(x)) => Ok(x),
                        Ok(CmpArith::NotImpl) => self.cmp_fallback(a, b, op),
                    }
                },
            }
        }
    }

    /// The identity fallback, as executable code.
    fn cmp_fallback(&self, a: ObjId, b: ObjId, op: CmpOp) -> (r: Result<CmpValue, PyErr>)
        requires
            self.wf(),
            a < self.heap.len(),
            b < self.heap.len(),
        ensures
            res_view(r) == self.sp_cmp_fallback(a, b, op),
    {
        match op {
            CmpOp::Eq => Ok(CmpValue::Bool(a == b)),
            CmpOp::Ne => Ok(CmpValue::Bool(a != b)),
            _ => {
                proof {
                    assert(self.wf_obj(self.heap@[a as int]));
                    assert(self.wf_obj(self.heap@[b as int]));
                }
                let lc = self.classes[self.heap[a].class].name.clone();
                let rc = self.classes[self.heap[b].class].name.clone();
                Err(PyErr::Unorderable { left_class: lc, right_class: rc, op })
            },
        }
    }

    /// The outcome of a rich comparison as an object: a primitive boolean
    /// answer becomes the `True` or `False` singleton.
    pub open spec fn sp_rich_compare(self, a: ObjId, b: ObjId, op: CmpOp, fuel: nat) -> Result<
        ObjId,
        ErrView,
    > {
        match self.sp_cmp(a, b, op, fuel) {
            Ok(CmpValue::Bool(x)) => Ok(
                if x {
                    self.true_obj
                } else {
                    self.false_obj
                },
            ),
            Ok(CmpValue::Obj(i)) => Ok(i),
            Err(e) => Err(e),
        }
    }

    /// Rich comparison returning an object.
    pub fn rich_compare(&self, a: ObjId, b: ObjId, op_id: CmpOp, guard: &mut Guard) -> (r: Result<
        ObjId,
        PyErr,
    >)
        requires
            self.wf(),
            a < self.heap.len(),
            b < self.heap.len(),
        ensures
            *final(guard) == *old(guard),
            res_view(r) == self.sp_rich_compare(a, b, op_id, old(guard).fuel()),
    {
        match self._cmp(a, b, op_id, guard) {
            Ok(CmpValue::Bool(x)) => Ok(
                if x {
                    self.true_obj
                } else {
                    self.false_obj
                },
            ),
            Ok(CmpValue::Obj(i)) => Ok(i),
            Err(e) => Err(e),
        }
    }

    /// The outcome of a rich comparison as a primitive boolean: a non-boolean
    /// definite answer is boolean-coerced.
    pub open spec fn sp_rich_compare_bool(self, a: ObjId, b: ObjId, op: CmpOp, fuel: nat) -> Result<
        bool,
        ErrView,
    > {
        match self.sp_cmp(a, b, op, fuel) {
            Ok(CmpValue::Bool(x)) => Ok(x),
            Ok(CmpValue::Obj(i)) => Ok(self.sp_is_true(i)),
            Err(e) => Err(e),
        }
    }

    /// Rich comparison returning a primitive boolean.
    pub fn rich_compare_bool(&self, a: ObjId, b: ObjId, op_id: CmpOp, guard: &mut Guard) -> (r:
        Result<bool, PyErr>)
        requires
            self.wf(),
            a < self.heap.len(),
            b < self.heap.len(),
        ensures
            *final(guard) == *old(guard),
            res_view(r) == self.sp_rich_compare_bool(a, b, op_id, old(guard).fuel()),
    {
        match self._cmp(a, b, op_id, guard) {
            Ok(CmpValue::Bool(x)) => Ok(x),
            Ok(CmpValue::Obj(i)) => {
                proof {
                    self.lemma_cmp_range(old(guard).fuel());
                }
                self.is_true(i)
            },
            Err(e) => Err(e),
        }
    }
}

} // verus!
