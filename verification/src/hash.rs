//! Hash Dispatch: single-slot hash computation with unhashable detection.
//!
//! The class-level hash attribute is consulted first: a class that stores the
//! `None` singleton there marks itself unhashable. Otherwise the hash hook is
//! resolved through the ancestor order and invoked; with no hook anywhere the
//! root class's identity hash applies. Whether a class that redefines
//! equality also disables its hash is a collaborating class's concern, not
//! checked here.

use vstd::prelude::*;

use crate::data::{ErrView, HashHook, ObjId, PyErr, res_view};
use crate::vm::Vm;

verus! {

impl Vm {
    /// The value of the payload hash: the first payload element, zero for an
    /// empty or absent payload.
    pub open spec fn sp_payload_hash(self, o: ObjId) -> i64 {
        match self.heap[o as int].payload {
            Some(p) => if p@.len() > 0 {
                p@[0]
            } else {
                0
            },
            None => 0,
        }
    }

    /// The outcome of a hash query: unhashable when the class-level hash
    /// attribute is the `None` singleton; otherwise the resolved hash hook,
    /// with identity hashing the default of the root class.
    pub open spec fn sp_hash(self, o: ObjId) -> Result<i64, ErrView> {
        let oc = self.class_of(o);
        if self.sp_class_attr(oc, "__hash__"@) == Some(self.none_obj) {
            Err(ErrView::Unhashable { class_name: self.class_name(oc) })
        } else {
            match self.sp_hash_slot(oc) {
                Some(HashHook::ByPayload) => Ok(self.sp_payload_hash(o)),
                Some(HashHook::Identity) => Ok(o as i64),
                None => Ok(o as i64),
            }
        }
    }

    /// The fixed-width hash of `o`.
    pub fn hash(&self, o: ObjId) -> (r: Result<i64, PyErr>)
        requires
            self.wf(),
            o < self.heap.len(),
        ensures
            res_view(r) == self.sp_hash(o),
    {
        let oc = self.heap[o].class;
        proof {
            assert(self.wf_obj(self.heap@[o as int]));
        }
        let key: String = "__hash__".to_owned();
        let marker = self.class_get_attr(oc, &key);
        if let Some(m) = marker {
            if m == self.none_obj {
                let cn = self.classes[oc].name.clone();
                return Err(PyErr::Unhashable { class_name: cn });
            }
        }
        let rs = self.resolve_slots(oc);
        match rs.hash {
            Some(HashHook::ByPayload) => match &self.heap[o].payload {
                Some(p) => if p.len() > 0 {
                    Ok(p[0])
                } else {
                    Ok(0)
                },
                None => Ok(0),
            },
            _ => Ok(o as i64),
        }
    }
}

} // verus!
