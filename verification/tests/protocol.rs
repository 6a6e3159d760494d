use objproto::data::{
    CmpHook, CmpOp, DescrGetHook, DescrSetHook, Guard, ObjectData, PyErr, Slots, TruthHook,
};
use objproto::object::{PyObject, PyObjectRef};
use objproto::traceback::{remove_importlib_frames, TracebackFrame};
use objproto::vm::Vm;

fn plain_obj(vm: &mut Vm, class: usize) -> usize {
    vm.new_object(ObjectData::plain(class))
}

fn add_plain_class(vm: &mut Vm, name: &str, ancestors: Vec<usize>) -> usize {
    vm.add_class(name.to_string(), ancestors, Slots::empty(), Vec::new())
}

#[test]
fn attr_round_trip() {
    let mut vm = Vm::new();
    let anc_c: Vec<usize> = vec![vm.object_class];
    let c = add_plain_class(&mut vm, "C", anc_c);
    let o = plain_obj(&mut vm, c);
    let v = vm.new_int(42);
    let name = "n".to_string();
    assert_eq!(vm.set_attr(o, &name, v), Ok(()));
    assert_eq!(vm.get_attr(o, &name), Ok(v));
}

#[test]
fn attr_overwrite_and_delete() {
    let mut vm = Vm::new();
    let anc_c: Vec<usize> = vec![vm.object_class];
    let c = add_plain_class(&mut vm, "C", anc_c);
    let o = plain_obj(&mut vm, c);
    let v1 = vm.new_int(1);
    let v2 = vm.new_int(2);
    let name = "n".to_string();
    assert_eq!(vm.set_attr(o, &name, v1), Ok(()));
    assert_eq!(vm.set_attr(o, &name, v2), Ok(()));
    assert_eq!(vm.get_attr(o, &name), Ok(v2));
    assert_eq!(vm.del_attr(o, &name), Ok(()));
    assert_eq!(
        vm.get_attr(o, &name),
        Err(PyErr::AttributeMissing { class_name: "C".to_string(), name: "n".to_string() })
    );
    assert_eq!(
        vm.del_attr(o, &name),
        Err(PyErr::AttributeMissing { class_name: "C".to_string(), name: "n".to_string() })
    );
}

#[test]
fn data_descriptor_precedence() {
    let mut vm = Vm::new();
    let mut dslots = Slots::empty();
    dslots.descr_get = Some(DescrGetHook::Cell);
    dslots.descr_set = Some(DescrSetHook::Store);
    let d_class = vm.add_class("D".to_string(), vec![vm.object_class], dslots, Vec::new());
    let marker = vm.new_int(99);
    let descr = vm.new_object(ObjectData {
        class: d_class,
        dict: None,
        payload: None,
        elems: None,
        entries: None,
        text: None,
        cell: Some(marker),
        type_of: None,
    });
    let c = vm.add_class(
        "C".to_string(),
        vec![vm.object_class],
        Slots::empty(),
        vec![("n".to_string(), descr)],
    );
    let stored = vm.new_int(7);
    let i = vm.new_object(ObjectData {
        class: c,
        dict: Some(vec![("n".to_string(), stored)]),
        payload: None,
        elems: None,
        entries: None,
        text: None,
        cell: None,
        type_of: None,
    });
    // The data descriptor shadows the instance-stored value.
    assert_eq!(vm.get_attr(i, &"n".to_string()), Ok(marker));
    // Assignment goes through the descriptor's store hook, not the dict.
    let newv = vm.new_int(5);
    assert_eq!(vm.set_attr(i, &"n".to_string(), newv), Ok(()));
    assert_eq!(vm.get_attr(i, &"n".to_string()), Ok(newv));
}

#[test]
fn non_data_descriptor_shadowing() {
    let mut vm = Vm::new();
    let mut dslots = Slots::empty();
    dslots.descr_get = Some(DescrGetHook::Cell);
    let d_class = vm.add_class("GetOnly".to_string(), vec![vm.object_class], dslots, Vec::new());
    let marker = vm.new_int(99);
    let descr = vm.new_object(ObjectData {
        class: d_class,
        dict: None,
        payload: None,
        elems: None,
        entries: None,
        text: None,
        cell: Some(marker),
        type_of: None,
    });
    let c = vm.add_class(
        "C".to_string(),
        vec![vm.object_class],
        Slots::empty(),
        vec![("n".to_string(), descr)],
    );
    let stored = vm.new_int(7);
    let i = vm.new_object(ObjectData {
        class: c,
        dict: Some(vec![("n".to_string(), stored)]),
        payload: None,
        elems: None,
        entries: None,
        text: None,
        cell: None,
        type_of: None,
    });
    // Instance storage shadows the get-only descriptor.
    assert_eq!(vm.get_attr(i, &"n".to_string()), Ok(stored));
}

#[test]
fn readonly_descriptor_set_fails_get_succeeds() {
    let mut vm = Vm::new();
    let mut dslots = Slots::empty();
    dslots.descr_get = Some(DescrGetHook::Cell);
    dslots.descr_set = Some(DescrSetHook::Fail);
    let d_class = vm.add_class("ReadOnlyDescr".to_string(), vec![vm.object_class], dslots, Vec::new());
    let held = vm.new_int(11);
    let descr = vm.new_object(ObjectData {
        class: d_class,
        dict: None,
        payload: None,
        elems: None,
        entries: None,
        text: None,
        cell: Some(held),
        type_of: None,
    });
    let c = vm.add_class(
        "ReadOnly".to_string(),
        vec![vm.object_class],
        Slots::empty(),
        vec![("value".to_string(), descr)],
    );
    let i = plain_obj(&mut vm, c);
    let five = vm.new_int(5);
    assert_eq!(
        vm.set_attr(i, &"value".to_string(), five),
        Err(PyErr::DescriptorFail { class_name: "ReadOnlyDescr".to_string() })
    );
    assert_eq!(vm.get_attr(i, &"value".to_string()), Ok(held));
}

#[test]
fn setattr_without_setter_slot() {
    let mut vm = Vm::new();
    // A class outside the root's ancestry publishes no attribute slots.
    let bare = add_plain_class(&mut vm, "Bare", vec![]);
    let o = plain_obj(&mut vm, bare);
    let v = vm.new_int(1);
    assert_eq!(
        vm.set_attr(o, &"n".to_string(), v),
        Err(PyErr::NoAttributes {
            class_name: "Bare".to_string(),
            read_only: false,
            assign: true,
            name: "n".to_string(),
        })
    );
    let mut gslots = Slots::empty();
    gslots.getattro = true;
    let ro = vm.add_class("Readable".to_string(), vec![], gslots, Vec::new());
    let o2 = plain_obj(&mut vm, ro);
    assert_eq!(
        vm.del_attr(o2, &"n".to_string()),
        Err(PyErr::NoAttributes {
            class_name: "Readable".to_string(),
            read_only: true,
            assign: false,
            name: "n".to_string(),
        })
    );
}

#[test]
fn has_attr_and_declared_class() {
    let mut vm = Vm::new();
    let anc_c: Vec<usize> = vec![vm.object_class];
    let c = add_plain_class(&mut vm, "C", anc_c);
    let o = plain_obj(&mut vm, c);
    let v = vm.new_int(3);
    vm.set_attr(o, &"x".to_string(), v).unwrap();
    assert_eq!(vm.has_attr(o, &"x".to_string()), Ok(true));
    let none = vm.none_obj;
    vm.set_attr(o, &"y".to_string(), none).unwrap();
    assert_eq!(vm.has_attr(o, &"y".to_string()), Ok(false));
    // The declared class attribute is synthesized from the allocation class.
    assert_eq!(vm.get_attr(o, &"__class__".to_string()), Ok(vm.classes[c].obj));
}

#[test]
fn subclass_comparison_precedence() {
    let mut vm = Vm::new();
    let mut aslots = Slots::empty();
    aslots.richcompare = Some(CmpHook::Always(false));
    let a_cls = vm.add_class("A".to_string(), vec![vm.object_class], aslots, Vec::new());
    let mut bslots = Slots::empty();
    bslots.richcompare = Some(CmpHook::Always(true));
    let b_cls = vm.add_class("B".to_string(), vec![a_cls, vm.object_class], bslots, Vec::new());
    let a = plain_obj(&mut vm, a_cls);
    let b = plain_obj(&mut vm, b_cls);
    let mut g = Guard::new(64);
    // B is a strict subclass of A: b's hook (reflected) is tried first.
    assert_eq!(vm.rich_compare_bool(a, b, CmpOp::Eq, &mut g), Ok(true));
    // With operands of one class, a's own hook answers.
    let a2 = plain_obj(&mut vm, a_cls);
    assert_eq!(vm.rich_compare_bool(a, a2, CmpOp::Eq, &mut g), Ok(false));
    assert_eq!(g.depth, 0);
}

#[test]
fn comparison_fallback_identity_and_unorderable() {
    let mut vm = Vm::new();
    let anc_p: Vec<usize> = vec![vm.object_class];
    let p = add_plain_class(&mut vm, "P", anc_p);
    let a = plain_obj(&mut vm, p);
    let b = plain_obj(&mut vm, p);
    let mut g = Guard::new(64);
    assert_eq!(vm.rich_compare_bool(a, b, CmpOp::Eq, &mut g), Ok(false));
    assert_eq!(vm.rich_compare_bool(a, a, CmpOp::Eq, &mut g), Ok(true));
    assert_eq!(vm.rich_compare_bool(a, b, CmpOp::Ne, &mut g), Ok(true));
    assert_eq!(vm.rich_compare_bool(a, a, CmpOp::Ne, &mut g), Ok(false));
    assert_eq!(
        vm.rich_compare_bool(a, b, CmpOp::Lt, &mut g),
        Err(PyErr::Unorderable {
            left_class: "P".to_string(),
            right_class: "P".to_string(),
            op: CmpOp::Lt,
        })
    );
    assert_eq!(g.depth, 0);
}

#[test]
fn rich_compare_returns_singletons() {
    let mut vm = Vm::new();
    let anc_p: Vec<usize> = vec![vm.object_class];
    let p = add_plain_class(&mut vm, "P", anc_p);
    let a = plain_obj(&mut vm, p);
    let mut g = Guard::new(64);
    assert_eq!(vm.rich_compare(a, a, CmpOp::Eq, &mut g), Ok(vm.true_obj));
    let b = plain_obj(&mut vm, p);
    assert_eq!(vm.rich_compare(a, b, CmpOp::Eq, &mut g), Ok(vm.false_obj));
}

#[test]
fn vector_equality_scenario() {
    let mut vm = Vm::new();
    let mut vslots = Slots::empty();
    vslots.richcompare = Some(CmpHook::ByPayload);
    let vec_cls = vm.add_class("Vector".to_string(), vec![vm.object_class], vslots, Vec::new());
    let mk = |vm: &mut Vm, xs: Vec<i64>| {
        vm.new_object(ObjectData {
            class: vec_cls,
            dict: None,
            payload: Some(xs),
            elems: None,
            entries: None,
            text: None,
            cell: None,
            type_of: None,
        })
    };
    let v12a = mk(&mut vm, vec![1, 2]);
    let v12b = mk(&mut vm, vec![1, 2]);
    let v13 = mk(&mut vm, vec![1, 3]);
    let sx = vm.new_str("x".to_string());
    let mut g = Guard::new(64);
    assert_eq!(vm.rich_compare_bool(v12a, v12b, CmpOp::Eq, &mut g), Ok(true));
    assert_eq!(vm.rich_compare_bool(v12a, v13, CmpOp::Eq, &mut g), Ok(false));
    // No applicable EQ on either side: identity fallback, not an error.
    assert_eq!(vm.rich_compare_bool(v12a, sx, CmpOp::Eq, &mut g), Ok(false));
    assert_eq!(vm.rich_compare_bool(v12a, sx, CmpOp::Ne, &mut g), Ok(true));
}

#[test]
fn adversarial_recursion_bounded() {
    let mut vm = Vm::new();
    let mut rslots = Slots::empty();
    rslots.richcompare = Some(CmpHook::Recurse);
    let r_cls = vm.add_class("Looper".to_string(), vec![vm.object_class], rslots, Vec::new());
    let x = plain_obj(&mut vm, r_cls);
    let y = plain_obj(&mut vm, r_cls);
    let mut g = Guard::new(50);
    assert_eq!(vm.rich_compare_bool(x, y, CmpOp::Eq, &mut g), Err(PyErr::RecursionExceeded));
    // The guard stays balanced after the failure and stays usable.
    assert_eq!(g.depth, 0);
    let anc_p: Vec<usize> = vec![vm.object_class];
    let p = add_plain_class(&mut vm, "P", anc_p);
    let a = plain_obj(&mut vm, p);
    assert_eq!(vm.rich_compare_bool(a, a, CmpOp::Eq, &mut g), Ok(true));
}

#[test]
fn isinstance_own_class() {
    let mut vm = Vm::new();
    let anc_c: Vec<usize> = vec![vm.object_class];
    let c = add_plain_class(&mut vm, "C", anc_c);
    let o = plain_obj(&mut vm, c);
    let cls_obj = vm.obj_type(o);
    let mut g = Guard::new(64);
    assert_eq!(vm.is_instance(o, cls_obj, &mut g), Ok(true));
    let i = vm.new_int(4);
    let t = vm.obj_type(i);
    assert_eq!(vm.is_instance(i, t, &mut g), Ok(true));
}

#[test]
fn isinstance_subclass_and_declared_class() {
    let mut vm = Vm::new();
    let anc_a_cls: Vec<usize> = vec![vm.object_class];
    let a_cls = add_plain_class(&mut vm, "A", anc_a_cls);
    let anc_b_cls: Vec<usize> = vec![a_cls, vm.object_class];
    let b_cls = add_plain_class(&mut vm, "B", anc_b_cls);
    let b = plain_obj(&mut vm, b_cls);
    let a_obj = vm.classes[a_cls].obj;
    let b_obj = vm.classes[b_cls].obj;
    let mut g = Guard::new(64);
    assert_eq!(vm.is_instance(b, a_obj, &mut g), Ok(true));
    let a = plain_obj(&mut vm, a_cls);
    assert_eq!(vm.is_instance(a, b_obj, &mut g), Ok(false));
    // Dynamic class reassignment through the declared class attribute.
    vm.set_attr(a, &"__class__".to_string(), b_obj).unwrap();
    assert_eq!(vm.is_instance(a, b_obj, &mut g), Ok(true));
}

#[test]
fn issubclass_tuple_candidates() {
    let mut vm = Vm::new();
    let anc_a_cls: Vec<usize> = vec![vm.object_class];
    let a_cls = add_plain_class(&mut vm, "A", anc_a_cls);
    let anc_b_cls: Vec<usize> = vec![vm.object_class];
    let b_cls = add_plain_class(&mut vm, "B", anc_b_cls);
    let anc_s_cls: Vec<usize> = vec![a_cls, vm.object_class];
    let s_cls = add_plain_class(&mut vm, "S", anc_s_cls);
    let a_obj = vm.classes[a_cls].obj;
    let b_obj = vm.classes[b_cls].obj;
    let s_obj = vm.classes[s_cls].obj;
    let t_hit = vm.new_tuple(vec![b_obj, a_obj]);
    let t_miss = vm.new_tuple(vec![b_obj]);
    let t_empty = vm.new_tuple(vec![]);
    let mut g = Guard::new(64);
    assert_eq!(vm.is_subclass(s_obj, t_hit, &mut g), Ok(true));
    assert_eq!(vm.is_subclass(s_obj, t_miss, &mut g), Ok(false));
    assert_eq!(vm.is_subclass(s_obj, t_empty, &mut g), Ok(false));
    assert_eq!(vm.is_subclass(s_obj, a_obj, &mut g), Ok(true));
    assert_eq!(vm.is_subclass(s_obj, s_obj, &mut g), Ok(true));
    assert_eq!(vm.is_subclass(b_obj, a_obj, &mut g), Ok(false));
}

#[test]
fn issubclass_bases_walk_and_masking() {
    let mut vm = Vm::new();
    let anc_px: Vec<usize> = vec![vm.object_class];
    let px = add_plain_class(&mut vm, "Proxy", anc_px);
    // p3 <- p2 <- p1 through plain bases attributes.
    let p3 = plain_obj(&mut vm, px);
    let empty = vm.new_tuple(vec![]);
    vm.set_attr(p3, &"__bases__".to_string(), empty).unwrap();
    let p2 = plain_obj(&mut vm, px);
    let t3 = vm.new_tuple(vec![p3]);
    vm.set_attr(p2, &"__bases__".to_string(), t3).unwrap();
    let p1 = plain_obj(&mut vm, px);
    let t2 = vm.new_tuple(vec![p2]);
    vm.set_attr(p1, &"__bases__".to_string(), t2).unwrap();
    let mut g = Guard::new(64);
    assert_eq!(vm.is_subclass(p1, p3, &mut g), Ok(true));
    assert_eq!(vm.is_subclass(p3, p1, &mut g), Ok(false));
    // Missing bases on the second argument masks to the protocol error...
    let bare = plain_obj(&mut vm, px);
    assert_eq!(
        vm.is_subclass(p1, bare, &mut g),
        Err(PyErr::IssubclassArg2NotClass { class_name: "Proxy".to_string() })
    );
    // ...and on the first argument likewise.
    assert_eq!(
        vm.is_subclass(bare, p1, &mut g),
        Err(PyErr::IssubclassArg1NotClass { class_name: "Proxy".to_string() })
    );
    // Any other error from the bases probe passes through unchanged.
    let mut fslots = Slots::empty();
    fslots.descr_get = Some(DescrGetHook::Fail);
    fslots.descr_set = Some(DescrSetHook::Fail);
    let f_cls = vm.add_class("Broken".to_string(), vec![vm.object_class], fslots, Vec::new());
    let fdescr = plain_obj(&mut vm, f_cls);
    let fb = vm.add_class(
        "WithBrokenBases".to_string(),
        vec![vm.object_class],
        Slots::empty(),
        vec![("__bases__".to_string(), fdescr)],
    );
    let pb = plain_obj(&mut vm, fb);
    assert_eq!(
        vm.is_subclass(p1, pb, &mut g),
        Err(PyErr::DescriptorFail { class_name: "Broken".to_string() })
    );
}

#[test]
fn cyclic_bases_fail_bounded() {
    let mut vm = Vm::new();
    let anc_px: Vec<usize> = vec![vm.object_class];
    let px = add_plain_class(&mut vm, "Proxy", anc_px);
    let p1 = plain_obj(&mut vm, px);
    let t1 = vm.new_tuple(vec![p1]);
    // p1's bases contain p1 itself: a cyclic ancestor graph.
    vm.set_attr(p1, &"__bases__".to_string(), t1).unwrap();
    let other = plain_obj(&mut vm, px);
    let empty = vm.new_tuple(vec![]);
    vm.set_attr(other, &"__bases__".to_string(), empty).unwrap();
    let mut g = Guard::new(32);
    assert_eq!(vm.is_subclass(p1, other, &mut g), Err(PyErr::RecursionExceeded));
    assert_eq!(g.depth, 0);
}

#[test]
fn custom_check_hooks_override() {
    let mut vm = Vm::new();
    let mut meta_slots = Slots::empty();
    meta_slots.instancecheck = Some(objproto::data::CheckHook::Always(true));
    meta_slots.subclasscheck = Some(objproto::data::CheckHook::Always(true));
    let meta = vm.add_class("Meta".to_string(), vec![vm.object_class], meta_slots, Vec::new());
    // A candidate whose class publishes the hooks: they fully override.
    let cand = plain_obj(&mut vm, meta);
    let anc_c: Vec<usize> = vec![vm.object_class];
    let c = add_plain_class(&mut vm, "C", anc_c);
    let o = plain_obj(&mut vm, c);
    let mut g = Guard::new(64);
    assert_eq!(vm.is_instance(o, cand, &mut g), Ok(true));
    assert_eq!(vm.is_subclass(o, cand, &mut g), Ok(true));
}

#[test]
fn item_mapping_precedence() {
    let mut vm = Vm::new();
    let mut mslots = Slots::empty();
    mslots.map_subscript = true;
    mslots.seq_item = true;
    let m_cls = vm.add_class("Both".to_string(), vec![vm.object_class], mslots, Vec::new());
    let via_map = vm.new_int(100);
    let via_seq = vm.new_int(200);
    let o = vm.new_object(ObjectData {
        class: m_cls,
        dict: None,
        payload: None,
        elems: Some(vec![via_seq]),
        entries: Some(vec![(0, via_map)]),
        text: None,
        cell: None,
        type_of: None,
    });
    let k0 = vm.new_int(0);
    assert_eq!(vm.get_item(o, k0), Ok(via_map));
}

#[test]
fn dict_fast_path_and_item_errors() {
    let mut vm = Vm::new();
    let v1 = vm.new_int(10);
    let d = vm.new_dict(vec![(1, v1)]);
    let k1 = vm.new_int(1);
    let k2 = vm.new_int(2);
    assert_eq!(vm.get_item(d, k1), Ok(v1));
    assert_eq!(vm.get_item(d, k2), Err(PyErr::KeyMissing { key: 2 }));
    let v2 = vm.new_int(20);
    assert_eq!(vm.set_item(d, k2, v2), Ok(()));
    assert_eq!(vm.get_item(d, k2), Ok(v2));
    assert_eq!(vm.del_item(d, k1), Ok(()));
    assert_eq!(vm.get_item(d, k1), Err(PyErr::KeyMissing { key: 1 }));
    let ks = vm.new_str("k".to_string());
    assert_eq!(vm.get_item(d, ks), Err(PyErr::KeyNotInt { class_name: "str".to_string() }));
}

#[test]
fn sequence_indexing() {
    let mut vm = Vm::new();
    let a = vm.new_int(100);
    let b = vm.new_int(200);
    let c = vm.new_int(300);
    let t = vm.new_tuple(vec![a, b, c]);
    let k1 = vm.new_int(1);
    let km1 = vm.new_int(-1);
    let k5 = vm.new_int(5);
    let km4 = vm.new_int(-4);
    assert_eq!(vm.get_item(t, k1), Ok(b));
    assert_eq!(vm.get_item(t, km1), Ok(c));
    assert_eq!(vm.get_item(t, k5), Err(PyErr::IndexOutOfRange { index: 5 }));
    assert_eq!(vm.get_item(t, km4), Err(PyErr::IndexOutOfRange { index: -4 }));
}

#[test]
fn not_subscriptable_assignable_deletable() {
    let mut vm = Vm::new();
    let anc_c: Vec<usize> = vec![vm.object_class];
    let c = add_plain_class(&mut vm, "C", anc_c);
    let o = plain_obj(&mut vm, c);
    let k = vm.new_int(0);
    let v = vm.new_int(1);
    assert_eq!(vm.get_item(o, k), Err(PyErr::NotSubscriptable { class_name: "C".to_string() }));
    assert_eq!(vm.set_item(o, k, v), Err(PyErr::NotAssignable { class_name: "C".to_string() }));
    assert_eq!(vm.del_item(o, k), Err(PyErr::NotDeletable { class_name: "C".to_string() }));
    // Tuples publish no assignment hook either.
    let t = vm.new_tuple(vec![v]);
    assert_eq!(vm.set_item(t, k, v), Err(PyErr::NotAssignable { class_name: "tuple".to_string() }));
}

#[test]
fn class_subscription() {
    let mut vm = Vm::new();
    let mut cgslots = Slots::empty();
    cgslots.class_getitem = true;
    let cg = vm.add_class("Generic".to_string(), vec![vm.object_class], cgslots, Vec::new());
    let cg_obj = vm.classes[cg].obj;
    let k = vm.new_int(7);
    let before = vm.heap.len();
    let alias = vm.get_item(cg_obj, k).unwrap();
    assert_eq!(alias, before);
    assert_eq!(vm.heap[alias].class, vm.alias_class);
    assert_eq!(vm.heap[alias].elems.as_ref().unwrap().as_slice(), &[cg_obj, k]);
    // Subscripting the type class itself parameterizes it.
    let type_obj = vm.classes[vm.type_class].obj;
    let alias2 = vm.get_item(type_obj, k).unwrap();
    assert_eq!(vm.heap[alias2].elems.as_ref().unwrap().as_slice(), &[type_obj, k]);
    // An ordinary class without the hook is not subscriptable.
    let anc_c: Vec<usize> = vec![vm.object_class];
    let c = add_plain_class(&mut vm, "C", anc_c);
    let c_obj = vm.classes[c].obj;
    assert_eq!(
        vm.get_item(c_obj, k),
        Err(PyErr::NotSubscriptable { class_name: "type".to_string() })
    );
}

#[test]
fn length_protocols() {
    let mut vm = Vm::new();
    let a = vm.new_int(1);
    let t = vm.new_tuple(vec![a, a]);
    assert_eq!(vm.length(t), Ok(2));
    assert_eq!(vm.length_opt(t), Some(2));
    let d = vm.new_dict(vec![(1, a)]);
    assert_eq!(vm.length(d), Ok(1));
    let anc_c: Vec<usize> = vec![vm.object_class];
    let c = add_plain_class(&mut vm, "C", anc_c);
    let o = plain_obj(&mut vm, c);
    assert_eq!(vm.length(o), Err(PyErr::NoLen { class_name: "C".to_string() }));
    assert_eq!(vm.length_opt(o), None);
    assert_eq!(vm.length_hint(o, 7), Ok(7));
    assert_eq!(vm.length_hint(t, 7), Ok(2));
}

#[test]
fn truthiness() {
    let mut vm = Vm::new();
    assert_eq!(vm.is_true(vm.none_obj), Ok(false));
    assert_eq!(vm.is_true(vm.true_obj), Ok(true));
    assert_eq!(vm.is_true(vm.false_obj), Ok(false));
    let z = vm.new_int(0);
    let n = vm.new_int(3);
    assert_eq!(vm.is_true(z), Ok(false));
    assert_eq!(vm.is_true(n), Ok(true));
    assert_eq!(vm.not(n), Ok(false));
    let te = vm.new_tuple(vec![]);
    let tn = vm.new_tuple(vec![n]);
    assert_eq!(vm.is_true(te), Ok(false));
    assert_eq!(vm.is_true(tn), Ok(true));
    // A class without a truth hook or length protocol is always true.
    let anc_c: Vec<usize> = vec![vm.object_class];
    let c = add_plain_class(&mut vm, "C", anc_c);
    let o = plain_obj(&mut vm, c);
    assert_eq!(vm.is_true(o), Ok(true));
    // A published truth hook decides.
    let mut fslots = Slots::empty();
    fslots.truth = Some(TruthHook::Always(false));
    let f = vm.add_class("Falsy".to_string(), vec![vm.object_class], fslots, Vec::new());
    let fo = plain_obj(&mut vm, f);
    assert_eq!(vm.is_true(fo), Ok(false));
}

#[test]
fn hashing() {
    let mut vm = Vm::new();
    let i7 = vm.new_int(7);
    assert_eq!(vm.hash(i7), Ok(7));
    let anc_c: Vec<usize> = vec![vm.object_class];
    let c = add_plain_class(&mut vm, "C", anc_c);
    let o = plain_obj(&mut vm, c);
    // Identity hash is the default of the root class.
    assert_eq!(vm.hash(o), Ok(o as i64));
    // A class that stores None under the hash attribute is unhashable.
    let none = vm.none_obj;
    let u = vm.add_class(
        "NoHash".to_string(),
        vec![vm.object_class],
        Slots::empty(),
        vec![("__hash__".to_string(), none)],
    );
    let uo = plain_obj(&mut vm, u);
    assert_eq!(vm.hash(uo), Err(PyErr::Unhashable { class_name: "NoHash".to_string() }));
}

#[test]
fn repr_and_str() {
    let mut vm = Vm::new();
    let anc_c: Vec<usize> = vec![vm.object_class];
    let c = add_plain_class(&mut vm, "Widget", anc_c);
    let o = plain_obj(&mut vm, c);
    let mut g = Guard::new(8);
    assert_eq!(vm.repr(o, &mut g), Ok("<Widget object>".to_string()));
    assert_eq!(vm.str(o, &mut g), Ok("<Widget object>".to_string()));
    let mut rslots = Slots::empty();
    rslots.repr_text = Some("Widget(1)".to_string());
    let cr = vm.add_class("Custom".to_string(), vec![vm.object_class], rslots, Vec::new());
    let or = plain_obj(&mut vm, cr);
    assert_eq!(vm.repr(or, &mut g), Ok("Widget(1)".to_string()));
    let s = vm.new_str("hi".to_string());
    assert_eq!(vm.str(s, &mut g), Ok("hi".to_string()));
    // A string-conversion hook returning a non-string fails, naming its class.
    let bad = vm.new_int(0);
    let mut sslots = Slots::empty();
    sslots.str_obj = Some(bad);
    let cs = vm.add_class("BadStr".to_string(), vec![vm.object_class], sslots, Vec::new());
    let os = plain_obj(&mut vm, cs);
    assert_eq!(vm.str(os, &mut g), Err(PyErr::NonStringStr { class_name: "int".to_string() }));
    // A string-conversion hook returning a string succeeds.
    let good = vm.new_str("shown".to_string());
    let mut s2 = Slots::empty();
    s2.str_obj = Some(good);
    let cg = vm.add_class("GoodStr".to_string(), vec![vm.object_class], s2, Vec::new());
    let og = plain_obj(&mut vm, cg);
    assert_eq!(vm.str(og, &mut g), Ok("shown".to_string()));
    assert_eq!(g.depth, 0);
}

#[test]
fn bytes_construction() {
    let mut vm = Vm::new();
    let b1 = vm.new_int(1);
    let b255 = vm.new_int(255);
    let src = vm.new_tuple(vec![b1, b255]);
    let bo = vm.bytes(src).unwrap();
    assert_eq!(vm.heap[bo].class, vm.bytes_class);
    assert_eq!(vm.heap[bo].payload.as_ref().unwrap().as_slice(), &[1, 255]);
    // An exact integer source is rejected.
    let i5 = vm.new_int(5);
    assert_eq!(
        vm.bytes(i5),
        Err(PyErr::Downcast { expected: "bytes".to_string(), got: "int".to_string() })
    );
    // A value outside the byte range fails.
    let big = vm.new_int(300);
    let src2 = vm.new_tuple(vec![big]);
    assert_eq!(vm.bytes(src2), Err(PyErr::ByteOutOfRange { value: 300 }));
    // A non-integer element fails, naming its class.
    let sx = vm.new_str("x".to_string());
    let src3 = vm.new_tuple(vec![sx]);
    assert_eq!(vm.bytes(src3), Err(PyErr::BytesSourceInvalid { class_name: "str".to_string() }));
    // A source without elements fails, naming its class.
    let anc_c: Vec<usize> = vec![vm.object_class];
    let c = add_plain_class(&mut vm, "C", anc_c);
    let o = plain_obj(&mut vm, c);
    assert_eq!(vm.bytes(o), Err(PyErr::BytesSourceInvalid { class_name: "C".to_string() }));
}

#[test]
fn iterators() {
    let mut vm = Vm::new();
    let mut islots = Slots::empty();
    islots.iter = true;
    let it_cls = vm.add_class("It".to_string(), vec![vm.object_class], islots, Vec::new());
    let it = plain_obj(&mut vm, it_cls);
    assert_eq!(vm.get_iter(it), Ok(it));
    let anc_c: Vec<usize> = vec![vm.object_class];
    let c = add_plain_class(&mut vm, "C", anc_c);
    let o = plain_obj(&mut vm, c);
    assert_eq!(vm.get_iter(o), Err(PyErr::NotIterable { class_name: "C".to_string() }));
    let agc = vm.async_gen_class;
    let ag = plain_obj(&mut vm, agc);
    assert_eq!(vm.get_aiter(ag), Ok(ag));
    assert_eq!(vm.get_aiter(o), Err(PyErr::WrongArgumentType));
}

#[test]
fn type_checks() {
    let mut vm = Vm::new();
    let anc_a_cls: Vec<usize> = vec![vm.object_class];
    let a_cls = add_plain_class(&mut vm, "A", anc_a_cls);
    let anc_b_cls: Vec<usize> = vec![a_cls, vm.object_class];
    let b_cls = add_plain_class(&mut vm, "B", anc_b_cls);
    let b = plain_obj(&mut vm, b_cls);
    assert!(vm.type_check(b, a_cls));
    assert!(vm.type_check(b, b_cls));
    assert!(vm.type_check(b, vm.object_class));
    let a = plain_obj(&mut vm, a_cls);
    assert!(!vm.type_check(a, b_cls));
    assert_eq!(vm.obj_type(b), vm.classes[b_cls].obj);
}

#[test]
fn object_reference_surface() {
    let mut vm = Vm::new();
    let anc: Vec<usize> = vec![vm.object_class];
    let c = add_plain_class(&mut vm, "C", anc);
    let oid = plain_obj(&mut vm, c);
    let o = PyObject::new(oid);
    let v = vm.new_int(9);
    assert_eq!(o.set_attr(&"n".to_string(), v, &mut vm), Ok(()));
    assert_eq!(o.get_attr(&"n".to_string(), &vm), Ok(v));
    assert_eq!(o.has_attr(&"n".to_string(), &vm), Ok(true));
    assert_eq!(o.del_attr(&"n".to_string(), &mut vm), Ok(()));
    let mut g = Guard::new(16);
    let o2 = PyObject::new(plain_obj(&mut vm, c));
    assert_eq!(o.rich_compare_bool(&o2, CmpOp::Eq, &vm, &mut g), Ok(false));
    assert_eq!(o.rich_compare_bool(&o, CmpOp::Eq, &vm, &mut g), Ok(true));
    let t = o.obj_type(&vm);
    assert_eq!(t.id, vm.classes[c].obj);
    assert!(o.type_check(c, &vm));
    assert_eq!(o.is_instance(&PyObject::new(t.id), &vm, &mut g), Ok(true));
    assert_eq!(o.hash(&vm), Ok(oid as i64));
    assert_eq!(o.length_opt(&vm), None);
    let r = PyObjectRef::new(oid);
    assert_eq!(r.is_true(&vm), Ok(true));
    assert_eq!(r.not(&vm), Ok(false));
    assert_eq!(r.length_hint(5, &vm), Ok(5));
    assert_eq!(r.rich_compare(PyObjectRef::new(r.id), CmpOp::Eq, &vm, &mut g), Ok(vm.true_obj));
    let names = r.dir(&vm);
    assert!(names.is_empty());
    let elem = vm.new_int(65);
    let src = vm.new_tuple(vec![elem]);
    let b = PyObjectRef::new(src).bytes(&mut vm).unwrap();
    assert_eq!(vm.heap[b].payload.as_ref().unwrap().as_slice(), &[65]);
    assert_eq!(
        PyObject::new(src).get_iter(&vm),
        Err(PyErr::NotIterable { class_name: "tuple".to_string() })
    );
}

#[test]
fn dir_lists_class_and_instance_names() {
    let mut vm = Vm::new();
    let marker = vm.new_int(1);
    let c = vm.add_class(
        "C".to_string(),
        vec![vm.object_class],
        Slots::empty(),
        vec![("cls_attr".to_string(), marker)],
    );
    let o = plain_obj(&mut vm, c);
    vm.set_attr(o, &"inst_attr".to_string(), marker).unwrap();
    let names = vm.dir(o);
    assert!(names.iter().any(|n| n == "cls_attr"));
    assert!(names.iter().any(|n| n == "inst_attr"));
    assert_eq!(names.len(), 2);
    // Listing again adds no duplicates even when a stored name shadows a
    // class attribute.
    vm.set_attr(o, &"cls_attr".to_string(), marker).unwrap();
    let names2 = vm.dir(o);
    assert_eq!(names2.len(), 2);
}

#[test]
fn traceback_trimming() {
    let f = |file: &str, obj: &str| TracebackFrame {
        file_name: file.to_string(),
        obj_name: obj.to_string(),
        lasti: 0,
        lineno: 1,
    };
    // Verbose output keeps everything.
    let frames = vec![f("_frozen_importlib", "_find_and_load"), f("main.py", "run")];
    let kept = remove_importlib_frames(1, false, frames);
    assert_eq!(kept.len(), 2);
    // An import failure trims every bootstrap frame.
    let frames = vec![
        f("_frozen_importlib", "_find_and_load"),
        f("main.py", "run"),
        f("_frozen_importlib_external", "exec_module"),
    ];
    let kept = remove_importlib_frames(0, true, frames);
    assert_eq!(kept.len(), 1);
    assert_eq!(kept[0].file_name, "main.py");
    // Otherwise bootstrap frames go only while execution sits below the
    // call-with-frames-removed helper.
    let frames = vec![
        f("_frozen_importlib", "_find_and_load"),
        f("_frozen_importlib", "_call_with_frames_removed"),
        f("main.py", "boom"),
    ];
    let kept = remove_importlib_frames(0, false, frames);
    assert_eq!(kept.len(), 1);
    assert_eq!(kept[0].file_name, "main.py");
    // A bootstrap frame above user code, without the helper, is kept.
    let frames = vec![f("main.py", "run"), f("_frozen_importlib", "_find_and_load")];
    let kept = remove_importlib_frames(0, false, frames);
    assert_eq!(kept.len(), 2);
}
