//! Object conveniences built over the engines: text conversion, byte-string
//! construction, iterator access and attribute enumeration.

use vstd::prelude::*;
use vstd::string::StringExecFns;

use crate::data::{ErrView, Guard, ObjId, ObjectData, PyErr};
use crate::vm::Vm;

verus! {

impl Vm {
    /// The resolved repr text of a class, as a character sequence.
    pub open spec fn sp_repr_text(self, c: crate::data::ClassId) -> Option<Seq<char>> {
        match self.sp_resolved(c).repr_text {
            Some(t) => Some(t@),
            None => None,
        }
    }

    /// The text payload of an object, empty when it has none.
    pub open spec fn sp_text(self, o: ObjId) -> Seq<char> {
        match self.heap[o as int].text {
            Some(t) => t@,
            None => Seq::empty(),
        }
    }

    /// The outcome of a repr query under the guard: the class's repr text if
    /// one resolves, else the default form naming the class.
    pub open spec fn sp_repr(self, o: ObjId, fuel: nat) -> Result<Seq<char>, ErrView> {
        if fuel == 0 {
            Err(ErrView::RecursionExceeded)
        } else {
            match self.sp_repr_text(self.class_of(o)) {
                Some(t) => Ok(t),
                None => Ok("<"@ + self.class_name(self.class_of(o)) + " object>"@),
            }
        }
    }

    /// The source-like text of `o`, computed under the reentrancy guard.
    pub fn repr(&self, o: ObjId, guard: &mut Guard) -> (r: Result<String, PyErr>)
        requires
            self.wf(),
            o < self.heap.len(),
        ensures
            *final(guard) == *old(guard),
            match self.sp_repr(o, old(guard).fuel()) {
                Ok(t) => r matches Ok(s) && s@ == t,
                Err(e) => r matches Err(e2) && e2@ == e,
            },
    {
        if guard.depth >= guard.limit {
            return Err(PyErr::RecursionExceeded);
        }
        guard.depth = guard.depth + 1;
        let oc = self.heap[o].class;
        proof {
            assert(self.wf_obj(self.heap@[o as int]));
        }
        let rs = self.resolve_slots(oc);
        let out: String = match rs.repr_text {
            Some(t) => t,
            None => {
                let s: String = "<".to_owned();
                let s = s.concat(self.classes[oc].name.as_str());
                let s = s.concat(" object>");
                s
            },
        };
        guard.depth = guard.depth - 1;
        Ok(out)
    }

    /// The outcome of a string conversion: a string object is its own text;
    /// a resolved string-conversion hook must return a string object, whose
    /// text is the answer; otherwise the repr applies.
    pub open spec fn sp_str(self, o: ObjId, fuel: nat) -> Result<Seq<char>, ErrView> {
        if self.class_of(o) == self.str_class {
            Ok(self.sp_text(o))
        } else {
            match self.sp_str_obj(self.class_of(o)) {
                Some(s) => if self.mro_contains(self.class_of(s), self.str_class) {
                    Ok(self.sp_text(s))
                } else {
                    Err(ErrView::NonStringStr { class_name: self.class_name(self.class_of(s)) })
                },
                None => self.sp_repr(o, fuel),
            }
        }
    }

    /// The text of `o`: its own text for exact strings, else through the
    /// string-conversion hook, else the repr.
    pub fn str(&self, o: ObjId, guard: &mut Guard) -> (r: Result<String, PyErr>)
        requires
            self.wf(),
            o < self.heap.len(),
        ensures
            *final(guard) == *old(guard),
            match self.sp_str(o, old(guard).fuel()) {
                Ok(t) => r matches Ok(s) && s@ == t,
                Err(e) => r matches Err(e2) && e2@ == e,
            },
    {
        let oc = self.heap[o].class;
        proof {
            assert(self.wf_obj(self.heap@[o as int]));
        }
        if oc == self.str_class {
            return match &self.heap[o].text {
                Some(t) => Ok(t.clone()),
                None => Ok(String::new()),
            };
        }
        let rs = self.resolve_slots(oc);
        match rs.str_obj {
            Some(s) => {
                proof {
                    self.lemma_resolved_wf(oc);
                    assert(self.wf_obj(self.heap@[s as int]));
                }
                let sc = self.heap[s].class;
                if self.mro_has(sc, self.str_class) {
                    match &self.heap[s].text {
                        Some(t) => Ok(t.clone()),
                        None => Ok(String::new()),
                    }
                } else {
                    let cn = self.classes[sc].name.clone();
                    Err(PyErr::NonStringStr { class_name: cn })
                }
            },
            None => self.repr(o, guard),
        }
    }

    /// The byte values the elements from position `i` on contribute: each
    /// element must coerce to an integer in the byte range; the first failure
    /// decides.
    pub open spec fn sp_bytes_vals(self, es: Seq<ObjId>, i: int) -> Result<Seq<i64>, ErrView>
        decreases es.len() - i,
    {
        if i < 0 || i >= es.len() {
            Ok(Seq::empty())
        } else {
            match self.sp_key_int(es[i]) {
                None => Err(
                    ErrView::BytesSourceInvalid {
                        class_name: self.class_name(self.class_of(es[i])),
                    },
                ),
                Some(v) => if !(0 <= v < 256) {
                    Err(ErrView::ByteOutOfRange { value: v })
                } else {
                    match self.sp_bytes_vals(es, i + 1) {
                        Ok(rest) => Ok(seq![v] + rest),
                        Err(e) => Err(e),
                    }
                },
            }
        }
    }

    /// The outcome of a byte-string construction from `o`: an exact integer
    /// is rejected; otherwise the elements of `o` become the byte values.
    pub open spec fn sp_bytes(self, o: ObjId) -> Result<Seq<i64>, ErrView> {
        if self.class_of(o) == self.int_class {
            Err(
                ErrView::Downcast {
                    expected: "bytes"@,
                    got: self.class_name(self.class_of(o)),
                },
            )
        } else {
            match self.heap[o as int].elems {
                None => Err(
                    ErrView::BytesSourceInvalid { class_name: self.class_name(self.class_of(o)) },
                ),
                Some(es) => self.sp_bytes_vals(es@, 0),
            }
        }
    }

    /// Builds a byte-string object from `o`: an exact integer source is
    /// rejected, any other source must be a sequence of integers in the byte
    /// range. Success allocates the byte string and leaves the rest of the
    /// heap untouched.
    #[verifier::loop_isolation(false)]
    pub fn bytes(&mut self, o: ObjId) -> (r: Result<ObjId, PyErr>)
        requires
            old(self).wf(),
            o < old(self).heap.len(),
            old(self).heap.len() + 1 < 0x7fff_ffff_ffff_ffff,
        ensures
            final(self).wf(),
            match Vm::sp_bytes(*old(self), o) {
                Err(e) => *final(self) == *old(self) && (r matches Err(e2) && e2@ == e),
                Ok(vals) => {
                    &&& final(self).heap@.len() == old(self).heap@.len() + 1
                    &&& (forall|i: int|
                        0 <= i < old(self).heap@.len() ==> final(self).heap@[i] == old(
                            self,
                        ).heap@[i])
                    &&& final(self).classes == old(self).classes
                    &&& Vm::same_config(*old(self), *final(self))
                    &&& r == Ok::<ObjId, PyErr>(old(self).heap@.len() as ObjId)
                    &&& final(self).heap@[old(self).heap@.len() as int].class == old(
                        self,
                    ).bytes_class
                    &&& final(self).heap@[old(self).heap@.len() as int].payload matches Some(p)
                        && p@ == vals
                },
            },
    {
        let oc = self.heap[o].class;
        proof {
            assert(self.wf_obj(self.heap@[o as int]));
        }
        if oc == self.int_class {
            let cn = self.classes[oc].name.clone();
            return Err(PyErr::Downcast { expected: "bytes".to_owned(), got: cn });
        }
        let vals: Vec<i64> = match &self.heap[o].elems {
            None => {
                let cn = self.classes[oc].name.clone();
                return Err(PyErr::BytesSourceInvalid { class_name: cn });
            },
            Some(es) => {
                let ghost es_g = es@;
                let n = es.len();
                let mut acc: Vec<i64> = Vec::new();
                let mut i: usize = 0;
                while i < n
                    invariant
                        es_g == es@,
                        i <= n,
                        n == es_g.len(),
                        match self.sp_bytes_vals(es_g, i as int) {
                            Ok(rest) => self.sp_bytes_vals(es_g, 0) == Ok::<Seq<i64>, ErrView>(
                                acc@ + rest,
                            ),
                            Err(e) => self.sp_bytes_vals(es_g, 0) == Err::<Seq<i64>, ErrView>(e),
                        },
                    decreases n - i,
                {
                    proof {
                        assert(es_g[i as int] < self.heap.len());
                    }
                    let e = es[i];
                    let v = match self.key_int(e) {
                        Some(v) => v,
                        None => {
                            proof {
                                assert(self.wf_obj(self.heap@[e as int]));
                            }
                            let cn = self.classes[self.heap[e].class].name.clone();
                            return Err(PyErr::BytesSourceInvalid { class_name: cn });
                        },
                    };
                    if !(0 <= v && v < 256) {
                        return Err(PyErr::ByteOutOfRange { value: v });
                    }
                    let ghost acc0 = acc@;
                    acc.push(v);
                    proof {
                        match self.sp_bytes_vals(es_g, i as int + 1) {
                            Ok(rest) => {
                                assert(acc0 + (seq![v] + rest) =~= acc@ + rest);
                            },
                            Err(_) => {},
                        }
                    }
                    i += 1;
                }
                proof {
                    assert(self.sp_bytes_vals(es_g, n as int) == Ok::<Seq<i64>, ErrView>(
                        Seq::empty(),
                    ));
                    assert(acc@ + Seq::<i64>::empty() =~= acc@);
                }
                acc
            },
        };
        let data = ObjectData {
            class: self.bytes_class,
            dict: None,
            payload: Some(vals),
            elems: None,
            entries: None,
            text: None,
            cell: None,
            type_of: None,
        };
        Ok(self.new_object(data))
    }

    /// The outcome of an iterator request: an object of an iterator class is
    /// its own iterator; anything else is not iterable.
    pub open spec fn sp_get_iter(self, o: ObjId) -> Result<ObjId, ErrView> {
        if self.sp_resolved(self.class_of(o)).iter {
            Ok(o)
        } else {
            Err(ErrView::NotIterable { class_name: self.class_name(self.class_of(o)) })
        }
    }

    /// Takes an object and returns an iterator for it: an iterator argument
    /// returns itself.
    pub fn get_iter(&self, o: ObjId) -> (r: Result<ObjId, PyErr>)
        requires
            self.wf(),
            o < self.heap.len(),
        ensures
            crate::data::res_view(r) == self.sp_get_iter(o),
    {
        let oc = self.heap[o].class;
        proof {
            assert(self.wf_obj(self.heap@[o as int]));
        }
        let rs = self.resolve_slots(oc);
        if rs.iter {
            Ok(o)
        } else {
            let cn = self.classes[oc].name.clone();
            Err(PyErr::NotIterable { class_name: cn })
        }
    }

    /// The outcome of an asynchronous-iterator request: only an asynchronous
    /// generator answers, with itself.
    pub open spec fn sp_get_aiter(self, o: ObjId) -> Result<ObjId, ErrView> {
        if self.mro_contains(self.class_of(o), self.async_gen_class) {
            Ok(o)
        } else {
            Err(ErrView::WrongArgumentType)
        }
    }

    /// Takes an asynchronous generator and returns its asynchronous iterator.
    pub fn get_aiter(&self, o: ObjId) -> (r: Result<ObjId, PyErr>)
        requires
            self.wf(),
            o < self.heap.len(),
        ensures
            crate::data::res_view(r) == self.sp_get_aiter(o),
    {
        let oc = self.heap[o].class;
        proof {
            assert(self.wf_obj(self.heap@[o as int]));
        }
        if self.mro_has(oc, self.async_gen_class) {
            Ok(o)
        } else {
            Err(PyErr::WrongArgumentType)
        }
    }
}

} // verus!
