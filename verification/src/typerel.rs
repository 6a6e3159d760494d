//! Type Relationship Engine: instance-of and subclass-of queries.
//!
//! Both queries have an exact fast path, recurse over tuples of candidate
//! classes, can be fully overridden by a custom check hook on the candidate's
//! class, and otherwise fall back to an abstract procedure that walks the
//! bases-attribute graph. Exactly one error is relabeled: a missing bases
//! attribute becomes a "not a class" protocol-misuse error; every other
//! error propagates unchanged. Every recursive branch runs under the
//! reentrancy guard, so cyclic bases graphs fail in bounded time instead of
//! looping.

use vstd::prelude::*;

use crate::data::{CheckHook, ClassId, ErrView, Guard, ObjId, PyErr, res_view};
use crate::vm::Vm;

verus! {

impl Vm {
    /// What a custom instance-check or subclass-check hook answers, after
    /// boolean coercion.
    pub open spec fn sp_check_eval(self, h: CheckHook) -> bool {
        match h {
            CheckHook::Always(b) => b,
            CheckHook::TruthOf(i) => self.sp_is_true(i),
        }
    }

    /// The outcome of probing `cls` for a usable bases attribute: a missing
    /// attribute is relabeled as the given "not a class" error; any other
    /// error propagates unchanged.
    pub open spec fn sp_check_cls(self, cls: ObjId, masked: ErrView) -> Result<(), ErrView> {
        match self.sp_getattr(cls, "__bases__"@) {
            Ok(_) => Ok(()),
            Err(e) => if e matches ErrView::AttributeMissing { .. } {
                Err(masked)
            } else {
                Err(e)
            },
        }
    }

    /// The outcome of the abstract subclass walk from `derived` towards
    /// `cls`: identity succeeds; else the bases attribute must be a tuple,
    /// an empty tuple fails, and the bases are tried in order, first success
    /// winning. Every step into a base consumes the depth budget.
    pub open spec fn sp_abstract_issubclass(self, derived: ObjId, cls: ObjId, fuel: nat) -> Result<
        bool,
        ErrView,
    >
        decreases fuel, 1int, 0int,
    {
        if derived == cls {
            Ok(true)
        } else {
            match self.sp_getattr(derived, "__bases__"@) {
                Err(e) => Err(e),
                Ok(b) => if !self.is_tuple_like(b) {
                    Err(ErrView::NotATuple { class_name: self.class_name(self.class_of(b)) })
                } else {
                    self.sp_abs_iter(self.heap[b as int].elems->0@, cls, 0, fuel)
                },
            }
        }
    }

    /// The bases at positions from `i` on, tried in order under the guard.
    pub open spec fn sp_abs_iter(self, es: Seq<ObjId>, cls: ObjId, i: int, fuel: nat) -> Result<
        bool,
        ErrView,
    >
        decreases fuel, 0int, es.len() - i,
    {
        if i < 0 || i >= es.len() {
            Ok(false)
        } else if fuel == 0 {
            Err(ErrView::RecursionExceeded)
        } else {
            match self.sp_abstract_issubclass(es[i], cls, (fuel - 1) as nat) {
                Err(e) => Err(e),
                Ok(true) => Ok(true),
                Ok(false) => self.sp_abs_iter(es, cls, i + 1, fuel),
            }
        }
    }

    /// The outcome of the structural subclass check under both-are-classes
    /// fast path: two class objects compare by ancestor order; otherwise both
    /// arguments must expose bases (each failure relabeled to name its
    /// argument position), and the abstract walk decides.
    pub open spec fn sp_recursive_issubclass(self, o: ObjId, cls: ObjId, fuel: nat) -> Result<
        bool,
        ErrView,
    >
        decreases fuel, 2int, 0int,
    {
        if self.is_type_obj(o) && self.is_type_obj(cls) {
            Ok(self.mro_contains(self.as_type(o), self.as_type(cls)))
        } else {
            match self.sp_check_cls(
                o,
                ErrView::IssubclassArg1NotClass { class_name: self.class_name(self.class_of(o)) },
            ) {
                Err(e) => Err(e),
                Ok(_) => match self.sp_check_cls(
                    cls,
                    ErrView::IssubclassArg2NotClass {
                        class_name: self.class_name(self.class_of(cls)),
                    },
                ) {
                    Err(e) => Err(e),
                    Ok(_) => self.sp_abstract_issubclass(o, cls, fuel),
                },
            }
        }
    }

    /// The candidates of a tuple argument at positions from `i` on, each
    /// tried as the whole query under the guard, first success winning.
    pub open spec fn sp_subclass_tuple(self, o: ObjId, es: Seq<ObjId>, i: int, fuel: nat) -> Result<
        bool,
        ErrView,
    >
        decreases fuel, 3int, es.len() - i,
    {
        if i < 0 || i >= es.len() {
            Ok(false)
        } else if fuel == 0 {
            Err(ErrView::RecursionExceeded)
        } else {
            match self.sp_is_subclass(o, es[i], (fuel - 1) as nat) {
                Err(e) => Err(e),
                Ok(true) => Ok(true),
                Ok(false) => self.sp_subclass_tuple(o, es, i + 1, fuel),
            }
        }
    }

    /// The outcome of a subclass query: when the candidate is an ordinary
    /// class, identity and then the structural check; a tuple of candidates
    /// is tried in order; a custom subclass-check hook on the candidate's
    /// class overrides everything else; otherwise the structural check.
    pub open spec fn sp_is_subclass(self, o: ObjId, cls: ObjId, fuel: nat) -> Result<bool, ErrView>
        decreases fuel, 4int, 0int,
    {
        if self.class_of(cls) == self.type_class {
            if o == cls {
                Ok(true)
            } else {
                self.sp_recursive_issubclass(o, cls, fuel)
            }
        } else if self.is_tuple_like(cls) {
            self.sp_subclass_tuple(o, self.heap[cls as int].elems->0@, 0, fuel)
        } else {
            match self.sp_subclasscheck(self.class_of(cls)) {
                Some(h) => if fuel == 0 {
                    Err(ErrView::RecursionExceeded)
                } else {
                    Ok(self.sp_check_eval(h))
                },
                None => self.sp_recursive_issubclass(o, cls, fuel),
            }
        }
    }

    /// The outcome of the abstract instance check: against an ordinary class,
    /// the allocation class's ancestry decides, and when that fails the
    /// declared class attribute, if it names a different class, is retested;
    /// against anything else the candidate must expose bases, and the
    /// declared class (unless `None`) is walked abstractly.
    pub open spec fn sp_abstract_isinstance(self, o: ObjId, cls: ObjId, fuel: nat) -> Result<
        bool,
        ErrView,
    >
        decreases fuel, 2int, 1int,
    {
        if self.is_type_obj(cls) {
            let typ = self.as_type(cls);
            if self.mro_contains(self.class_of(o), typ) {
                Ok(true)
            } else {
                match self.sp_getattr(o, "__class__"@) {
                    Err(e) => Err(e),
                    Ok(ic) => if !self.is_type_obj(ic) {
                        Ok(false)
                    } else if ic == self.class_obj(self.class_of(o)) {
                        Ok(false)
                    } else {
                        Ok(self.mro_contains(self.as_type(ic), typ))
                    },
                }
            }
        } else {
            match self.sp_check_cls(
                cls,
                ErrView::IsinstanceArg2NotClass { class_name: self.class_name(self.class_of(cls)) },
            ) {
                Err(e) => Err(e),
                Ok(_) => match self.sp_getattr(o, "__class__"@) {
                    Err(e) => Err(e),
                    Ok(ic) => if ic == self.none_obj {
                        Ok(false)
                    } else {
                        self.sp_abstract_issubclass(ic, cls, fuel)
                    },
                },
            }
        }
    }

    /// The candidates of a tuple argument, each tried as the whole instance
    /// query under the guard.
    pub open spec fn sp_instance_tuple(self, o: ObjId, es: Seq<ObjId>, i: int, fuel: nat) -> Result<
        bool,
        ErrView,
    >
        decreases fuel, 3int, es.len() - i,
    {
        if i < 0 || i >= es.len() {
            Ok(false)
        } else if fuel == 0 {
            Err(ErrView::RecursionExceeded)
        } else {
            match self.sp_is_instance(o, es[i], (fuel - 1) as nat) {
                Err(e) => Err(e),
                Ok(true) => Ok(true),
                Ok(false) => self.sp_instance_tuple(o, es, i + 1, fuel),
            }
        }
    }

    /// The outcome of an instance query: the exact-class fast path first;
    /// an ordinary class goes to the abstract procedure; a tuple is tried in
    /// order; a custom instance-check hook on the candidate's class overrides
    /// everything else; otherwise the abstract procedure.
    pub open spec fn sp_is_instance(self, o: ObjId, cls: ObjId, fuel: nat) -> Result<bool, ErrView>
        decreases fuel, 4int, 1int,
    {
        if cls == self.class_obj(self.class_of(o)) {
            Ok(true)
        } else if self.class_of(cls) == self.type_class {
            self.sp_abstract_isinstance(o, cls, fuel)
        } else if self.is_tuple_like(cls) {
            self.sp_instance_tuple(o, self.heap[cls as int].elems->0@, 0, fuel)
        } else {
            match self.sp_instancecheck(self.class_of(cls)) {
                Some(h) => if fuel == 0 {
                    Err(ErrView::RecursionExceeded)
                } else {
                    Ok(self.sp_check_eval(h))
                },
                None => self.sp_abstract_isinstance(o, cls, fuel),
            }
        }
    }

    /// Evaluates a custom check hook, boolean-coercing its answer.
    fn check_eval(&self, h: CheckHook) -> (r: Result<bool, PyErr>)
        requires
            self.wf(),
            h matches CheckHook::TruthOf(i) ==> i < self.heap.len(),
        ensures
            r == Ok::<bool, PyErr>(self.sp_check_eval(h)),
    {
        match h {
            CheckHook::Always(b) => Ok(b),
            CheckHook::TruthOf(i) => self.is_true(i),
        }
    }

    /// Probes `cls` for a usable bases attribute, relabeling only a missing
    /// attribute into the given "not a class" error.
    fn check_cls(&self, cls: ObjId, masked: PyErr) -> (r: Result<(), PyErr>)
        requires
            self.wf(),
            cls < self.heap.len(),
        ensures
            res_view(r) == self.sp_check_cls(cls, masked@),
    {
        let key: String = "__bases__".to_owned();
        match self.get_attr(cls, &key) {
            Ok(_) => Ok(()),
            Err(e) => match e {
                PyErr::AttributeMissing { .. } => Err(masked),
                _ => Err(e),
            },
        }
    }

    /// The abstract subclass walk, every step guarded.
    #[verifier::loop_isolation(false)]
    fn abstract_issubclass(&self, derived: ObjId, cls: ObjId, guard: &mut Guard) -> (r: Result<
        bool,
        PyErr,
    >)
        requires
            self.wf(),
            derived < self.heap.len(),
            cls < self.heap.len(),
        ensures
            *final(guard) == *old(guard),
            res_view(r) == self.sp_abstract_issubclass(derived, cls, old(guard).fuel()),
        decreases guard.limit - guard.depth, 1int, 0int,
    {
        if derived == cls {
            return Ok(true);
        }
        let key: String = "__bases__".to_owned();
        let b = match self.get_attr(derived, &key) {
            Ok(b) => b,
            Err(e) => {
                return Err(e);
            },
        };
        proof {
            self.lemma_getattr_range(derived, key@);
        }
        let bc = self.heap[b].class;
        proof {
            assert(self.wf_obj(self.heap@[b as int]));
        }
        if !(self.mro_has(bc, self.tuple_class) && self.heap[b].elems.is_some()) {
            let cn = self.classes[bc].name.clone();
            return Err(PyErr::NotATuple { class_name: cn });
        }
        match &self.heap[b].elems {
            Some(es) => {
                let ghost es_g = es@;
                let n = es.len();
                let mut i: usize = 0;
                while i < n
                    invariant
                        self.wf(),
                        cls < self.heap.len(),
                        es_g == es@,
                        forall|k: int| 0 <= k < es_g.len() ==> #[trigger] es_g[k] < self.heap.len(),
                        i <= n,
                        n == es_g.len(),
                        *guard == *old(guard),
                        self.sp_abs_iter(es_g, cls, 0, old(guard).fuel()) == self.sp_abs_iter(
                            es_g,
                            cls,
                            i as int,
                            old(guard).fuel(),
                        ),
                    decreases n - i,
                {
                    if guard.depth >= guard.limit {
                        return Err(PyErr::RecursionExceeded);
                    }
                    guard.depth = guard.depth + 1;
                    let step = self.abstract_issubclass(es[i], cls, guard);
                    guard.depth = guard.depth - 1;
                    match step {
                        Err(e) => {
                            return Err(e);
                        },
                        Ok(true) => {
                            return Ok(true);
                        },
                        Ok(false) => {},
                    }
                    i += 1;
                }
                Ok(false)
            },
            None => {
                // The tuple test above saw element storage present.
                proof {
                    assert(false);
                }
                Ok(false)
            },
        }
    }

    /// The structural subclass check with its argument-shape errors.
    fn recursive_issubclass(&self, o: ObjId, cls: ObjId, guard: &mut Guard) -> (r: Result<
        bool,
        PyErr,
    >)
        requires
            self.wf(),
            o < self.heap.len(),
            cls < self.heap.len(),
        ensures
            *final(guard) == *old(guard),
            res_view(r) == self.sp_recursive_issubclass(o, cls, old(guard).fuel()),
        decreases guard.limit - guard.depth, 2int, 0int,
    {
        proof {
            assert(self.wf_obj(self.heap@[o as int]));
            assert(self.wf_obj(self.heap@[cls as int]));
        }
        if self.heap[o].type_of.is_some() && self.heap[cls].type_of.is_some() {
            let ot = match self.heap[o].type_of {
                Some(t) => t,
                None => 0,
            };
            let ct = match self.heap[cls].type_of {
                Some(t) => t,
                None => 0,
            };
            return Ok(self.mro_has(ot, ct));
        }
        let cn1 = self.classes[self.heap[o].class].name.clone();
        if let Err(e) = self.check_cls(o, PyErr::IssubclassArg1NotClass { class_name: cn1 }) {
            return Err(e);
        }
        let cn2 = self.classes[self.heap[cls].class].name.clone();
        if let Err(e) = self.check_cls(cls, PyErr::IssubclassArg2NotClass { class_name: cn2 }) {
            return Err(e);
        }
        self.abstract_issubclass(o, cls, guard)
    }

    /// Determines whether `o` is a subclass of `cls`, directly, indirectly,
    /// or through a custom subclass-check hook.
    #[verifier::loop_isolation(false)]
    pub fn is_subclass(&self, o: ObjId, cls: ObjId, guard: &mut Guard) -> (r: Result<bool, PyErr>)
        requires
            self.wf(),
            o < self.heap.len(),
            cls < self.heap.len(),
        ensures
            *final(guard) == *old(guard),
            res_view(r) == self.sp_is_subclass(o, cls, old(guard).fuel()),
        decreases guard.limit - guard.depth, 4int, 0int,
    {
        let ccls = self.heap[cls].class;
        proof {
            assert(self.wf_obj(self.heap@[cls as int]));
        }
        if ccls == self.type_class {
            if o == cls {
                return Ok(true);
            }
            return self.recursive_issubclass(o, cls, guard);
        }
        if self.mro_has(ccls, self.tuple_class) && self.heap[cls].elems.is_some() {
            match &self.heap[cls].elems {
                Some(es) => {
                    let ghost es_g = es@;
                    let n = es.len();
                    let mut i: usize = 0;
                    while i < n
                        invariant
                            self.wf(),
                            o < self.heap.len(),
                            es_g == es@,
                            forall|k: int|
                                0 <= k < es_g.len() ==> #[trigger] es_g[k] < self.heap.len(),
                            i <= n,
                            n == es_g.len(),
                            *guard == *old(guard),
                            self.sp_subclass_tuple(o, es_g, 0, old(guard).fuel())
                                == self.sp_subclass_tuple(o, es_g, i as int, old(guard).fuel()),
                        decreases n - i,
                    {
                        if guard.depth >= guard.limit {
                            return Err(PyErr::RecursionExceeded);
                        }
                        guard.depth = guard.depth + 1;
                        let step = self.is_subclass(o, es[i], guard);
                        guard.depth = guard.depth - 1;
                        match step {
                            Err(e) => {
                                return Err(e);
                            },
                            Ok(true) => {
                                return Ok(true);
                            },
                            Ok(false) => {},
                        }
                        i += 1;
                    }
                    return Ok(false);
                },
                None => {
                    // The tuple test above saw element storage present.
                    proof {
                        assert(false);
                    }
                    return Ok(false);
                },
            }
        }
        let rs = self.resolve_slots(ccls);
        if let Some(h) = rs.subclasscheck {
            if guard.depth >= guard.limit {
                return Err(PyErr::RecursionExceeded);
            }
            guard.depth = guard.depth + 1;
            proof {
                self.lemma_resolved_wf(ccls);
            }
            let ret = self.check_eval(h);
            guard.depth = guard.depth - 1;
            return ret;
        }
        self.recursive_issubclass(o, cls, guard)
    }

    /// The abstract instance check against an ordinary class or a bases
    /// graph, honouring the declared-class attribute.
    fn abstract_isinstance(&self, o: ObjId, cls: ObjId, guard: &mut Guard) -> (r: Result<
        bool,
        PyErr,
    >)
        requires
            self.wf(),
            o < self.heap.len(),
            cls < self.heap.len(),
        ensures
            *final(guard) == *old(guard),
            res_view(r) == self.sp_abstract_isinstance(o, cls, old(guard).fuel()),
        decreases guard.limit - guard.depth, 2int, 1int,
    {
        proof {
            assert(self.wf_obj(self.heap@[o as int]));
            assert(self.wf_obj(self.heap@[cls as int]));
        }
        let key: String = "__class__".to_owned();
        if let Some(typ) = self.heap[cls].type_of {
            if self.mro_has(self.heap[o].class, typ) {
                return Ok(true);
            }
            match self.get_attr(o, &key) {
                Err(e) => Err(e),
                Ok(ic) => {
                    proof {
                        self.lemma_getattr_range(o, key@);
                    }
                    if self.heap[ic].type_of.is_none() {
                        return Ok(false);
                    }
                    let oc = self.heap[o].class;
                    proof {
                        assert(self.wf_class(oc as int));
                    }
                    if ic == self.classes[oc].obj {
                        return Ok(false);
                    }
                    let it = match self.heap[ic].type_of {
                        Some(t) => t,
                        None => 0,
                    };
                    proof {
                        assert(self.wf_obj(self.heap@[ic as int]));
                    }
                    Ok(self.mro_has(it, typ))
                },
            }
        } else {
            let cn = self.classes[self.heap[cls].class].name.clone();
            if let Err(e) = self.check_cls(cls, PyErr::IsinstanceArg2NotClass { class_name: cn }) {
                return Err(e);
            }
            match self.get_attr(o, &key) {
                Err(e) => Err(e),
                Ok(ic) => {
                    proof {
                        self.lemma_getattr_range(o, key@);
                    }
                    if ic == self.none_obj {
                        return Ok(false);
                    }
                    self.abstract_issubclass(ic, cls, guard)
                },
            }
        }
    }

    /// Determines whether `o` is an instance of `cls`, directly, indirectly,
    /// or through a custom instance-check hook.
    #[verifier::loop_isolation(false)]
    pub fn is_instance(&self, o: ObjId, cls: ObjId, guard: &mut Guard) -> (r: Result<bool, PyErr>)
        requires
            self.wf(),
            o < self.heap.len(),
            cls < self.heap.len(),
        ensures
            *final(guard) == *old(guard),
            res_view(r) == self.sp_is_instance(o, cls, old(guard).fuel()),
        decreases guard.limit - guard.depth, 4int, 1int,
    {
        let oc = self.heap[o].class;
        proof {
            assert(self.wf_obj(self.heap@[o as int]));
            assert(self.wf_obj(self.heap@[cls as int]));
            assert(self.wf_class(oc as int));
        }
        if cls == self.classes[oc].obj {
            return Ok(true);
        }
        let ccls = self.heap[cls].class;
        if ccls == self.type_class {
            return self.abstract_isinstance(o, cls, guard);
        }
        if self.mro_has(ccls, self.tuple_class) && self.heap[cls].elems.is_some() {
            match &self.heap[cls].elems {
                Some(es) => {
                    let ghost es_g = es@;
                    let n = es.len();
                    let mut i: usize = 0;
                    while i < n
                        invariant
                            self.wf(),
                            o < self.heap.len(),
                            es_g == es@,
                            forall|k: int|
                                0 <= k < es_g.len() ==> #[trigger] es_g[k] < self.heap.len(),
                            i <= n,
                            n == es_g.len(),
                            *guard == *old(guard),
                            self.sp_instance_tuple(o, es_g, 0, old(guard).fuel())
                                == self.sp_instance_tuple(o, es_g, i as int, old(guard).fuel()),
                        decreases n - i,
                    {
                        if guard.depth >= guard.limit {
                            return Err(PyErr::RecursionExceeded);
                        }
                        guard.depth = guard.depth + 1;
                        let step = self.is_instance(o, es[i], guard);
                        guard.depth = guard.depth - 1;
                        match step {
                            Err(e) => {
                                return Err(e);
                            },
                            Ok(true) => {
                                return Ok(true);
                            },
                            Ok(false) => {},
                        }
                        i += 1;
                    }
                    return Ok(false);
                },
                None => {
                    // The tuple test above saw element storage present.
                    proof {
                        assert(false);
                    }
                    return Ok(false);
                },
            }
        }
        let rs = self.resolve_slots(ccls);
        if let Some(h) = rs.instancecheck {
            if guard.depth >= guard.limit {
                return Err(PyErr::RecursionExceeded);
            }
            guard.depth = guard.depth + 1;
            proof {
                self.lemma_resolved_wf(ccls);
            }
            let ret = self.check_eval(h);
            guard.depth = guard.depth - 1;
            return ret;
        }
        self.abstract_isinstance(o, cls, guard)
    }

    /// The class of `o`, as an object.
    pub fn obj_type(&self, o: ObjId) -> (r: ObjId)
        requires
            self.wf(),
            o < self.heap.len(),
        ensures
            r == self.class_obj(self.class_of(o)),
            r < self.heap.len(),
    {
        let oc = self.heap[o].class;
        proof {
            assert(self.wf_obj(self.heap@[o as int]));
            assert(self.wf_class(oc as int));
        }
        self.classes[oc].obj
    }

    /// Whether `o`'s allocation class has `typ` in its ancestor order: the
    /// direct instance check against the class table.
    pub fn type_check(&self, o: ObjId, typ: ClassId) -> (r: bool)
        requires
            self.wf(),
            o < self.heap.len(),
        ensures
            r == self.mro_contains(self.class_of(o), typ),
    {
        let oc = self.heap[o].class;
        proof {
            assert(self.wf_obj(self.heap@[o as int]));
        }
        self.mro_has(oc, typ)
    }
}

} // verus!
