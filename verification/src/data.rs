//! Core data model: objects, classes, hook slots, comparison operators,
//! typed errors and the reentrancy guard.

use vstd::prelude::*;

verus! {

/// Identifier of an object in the runtime heap. Object identity is index
/// equality: two object references are "the same object" exactly when the
/// indices are equal.
pub type ObjId = usize;

/// Identifier of a class in the class table.
pub type ClassId = usize;

/// Rich comparison operator token.
#[derive(Clone, Copy, Debug, PartialEq, Eq, Structural)]
pub enum CmpOp {
    Lt,
    Le,
    Eq,
    Ne,
    Gt,
    Ge,
}

impl CmpOp {
    /// The operator of the reflected (argument-swapped) form of a comparison.
    pub open spec fn spec_swapped(self) -> CmpOp {
        match self {
            CmpOp::Lt => CmpOp::Gt,
            CmpOp::Le => CmpOp::Ge,
            CmpOp::Eq => CmpOp::Eq,
            CmpOp::Ne => CmpOp::Ne,
            CmpOp::Gt => CmpOp::Lt,
            CmpOp::Ge => CmpOp::Le,
        }
    }

    /// Fixed swap mapping used to build the reflected form of a binary
    /// comparison: LT and GT swap, LE and GE swap, EQ and NE are their own
    /// reflections.
    #[verifier::when_used_as_spec(spec_swapped)]
    pub fn swapped(self) -> (r: CmpOp)
        ensures
            r == self.spec_swapped(),
    {
        match self {
            CmpOp::Lt => CmpOp::Gt,
            CmpOp::Le => CmpOp::Ge,
            CmpOp::Eq => CmpOp::Eq,
            CmpOp::Ne => CmpOp::Ne,
            CmpOp::Gt => CmpOp::Lt,
            CmpOp::Ge => CmpOp::Le,
        }
    }

    /// The source text of the operator, as embedded in error messages.
    pub open spec fn spec_token(self) -> Seq<char> {
        match self {
            CmpOp::Lt => "<"@,
            CmpOp::Le => "<="@,
            CmpOp::Eq => "=="@,
            CmpOp::Ne => "!="@,
            CmpOp::Gt => ">"@,
            CmpOp::Ge => ">="@,
        }
    }

    pub fn operator_token(self) -> (r: &'static str)
        ensures
            r@ == self.spec_token(),
    {
        match self {
            CmpOp::Lt => "<",
            CmpOp::Le => "<=",
            CmpOp::Eq => "==",
            CmpOp::Ne => "!=",
            CmpOp::Gt => ">",
            CmpOp::Ge => ">=",
        }
    }
}

/// The argument of an attribute or item store operation: assignment of a
/// value, or deletion. One setter entry point covers both, as the set/delete
/// hook of a descriptor does.
#[derive(Clone, Copy, Debug, PartialEq, Eq, Structural)]
pub enum SetterValue {
    Assign(ObjId),
    Delete,
}

impl SetterValue {
    pub open spec fn spec_is_assign(self) -> bool {
        self is Assign
    }

    #[verifier::when_used_as_spec(spec_is_assign)]
    pub fn is_assign(self) -> (r: bool)
        ensures
            r == self.spec_is_assign(),
    {
        match self {
            SetterValue::Assign(_) => true,
            SetterValue::Delete => false,
        }
    }
}

/// The result of one attempt at a comparison hook: the value of a definite
/// answer, either a primitive boolean or an arbitrary object that a boolean
/// caller coerces afterwards.
#[derive(Clone, Copy, Debug, PartialEq, Eq, Structural)]
pub enum CmpValue {
    Bool(bool),
    Obj(ObjId),
}

/// What a comparison hook reported: the not-implemented sentinel ("I do not
/// handle this combination"), or a definite value.
#[derive(Clone, Copy, Debug, PartialEq, Eq, Structural)]
pub enum CmpArith {
    NotImpl,
    Val(CmpValue),
}

/// Behaviour of a descriptor's get hook. Hook tables are consumed class
/// metadata; the engines interpret these closed behaviours, which is enough
/// to exercise every precedence rule of the descriptor protocol.
#[derive(Clone, Copy, Debug, PartialEq, Eq, Structural)]
pub enum DescrGetHook {
    /// The get hook returns the descriptor object itself.
    SelfObj,
    /// The get hook returns the value held in the descriptor's cell, or the
    /// `None` singleton when the cell is empty.
    Cell,
    /// The get hook always fails with a descriptor error.
    Fail,
}

/// Behaviour of a descriptor's set/delete hook. A class attribute whose class
/// defines both a get hook and a set/delete hook is a data descriptor and
/// shadows instance storage.
#[derive(Clone, Copy, Debug, PartialEq, Eq, Structural)]
pub enum DescrSetHook {
    /// Assignment stores the value into the descriptor's cell; deletion
    /// empties the cell.
    Store,
    /// The set/delete hook always fails with a descriptor error, making the
    /// attribute read-only.
    Fail,
}

/// Behaviour of a class's rich comparison hook.
#[derive(Clone, Copy, Debug, PartialEq, Eq, Structural)]
pub enum CmpHook {
    /// A definite boolean answer, whatever the operands.
    Always(bool),
    /// A definite answer that is an arbitrary object, to be boolean-coerced
    /// by callers that need a primitive boolean.
    Object(ObjId),
    /// EQ compares the numeric payloads of the two operands, NE is its
    /// negation; the hook reports not-implemented when either operand lacks
    /// a payload or for any ordering operator.
    ByPayload,
    /// The hook returns the not-implemented sentinel unconditionally.
    NotImplementedHook,
    /// The hook re-invokes the comparison on its own operands, under the
    /// reentrancy guard: an adversarial hook that must be stopped by the
    /// configured depth bound.
    Recurse,
}

/// Behaviour of a class's hash hook.
#[derive(Clone, Copy, Debug, PartialEq, Eq, Structural)]
pub enum HashHook {
    /// Hash by object identity, the default of the root class.
    Identity,
    /// Hash from the numeric payload, by wrapping summation.
    ByPayload,
}

/// Behaviour of a custom instance-check or subclass-check hook.
#[derive(Clone, Copy, Debug, PartialEq, Eq, Structural)]
pub enum CheckHook {
    /// A fixed boolean answer.
    Always(bool),
    /// The hook returns the given object, which the engine boolean-coerces.
    TruthOf(ObjId),
}

/// Behaviour of a class's boolean-coercion hook.
#[derive(Clone, Copy, Debug, PartialEq, Eq, Structural)]
pub enum TruthHook {
    /// A fixed truth value.
    Always(bool),
    /// True exactly when the object's element or entry storage is non-empty.
    NonEmpty,
    /// True exactly when the object's numeric payload starts with a non-zero
    /// value: the truth of integers.
    PayloadNonzero,
}

/// Per-class hook table: one optional dispatch entry per protocol. Each
/// entry is resolved through the class's method resolution order; the first
/// ancestor that defines the entry wins.
#[derive(Clone, Debug)]
pub struct Slots {
    /// The class defines attribute reading. Reading always follows the
    /// generic descriptor-protocol path; this flag only records whether the
    /// slot is published, which the setter's error message distinguishes.
    pub getattro: bool,
    /// The class defines attribute assignment and deletion (the generic
    /// path: descriptor set hooks, then instance storage).
    pub setattro: bool,
    /// Descriptor get hook: instances of this class are descriptors.
    pub descr_get: Option<DescrGetHook>,
    /// Descriptor set/delete hook.
    pub descr_set: Option<DescrSetHook>,
    /// Rich comparison hook.
    pub richcompare: Option<CmpHook>,
    /// Hash hook.
    pub hash: Option<HashHook>,
    /// Custom instance-check hook, consulted on the class of the second
    /// argument of an instance query.
    pub instancecheck: Option<CheckHook>,
    /// Custom subclass-check hook.
    pub subclasscheck: Option<CheckHook>,
    /// Boolean-coercion hook.
    pub truth: Option<TruthHook>,
    /// Instances are their own iterators.
    pub iter: bool,
    /// The class's string-conversion hook returns this fixed object, which
    /// must be a string object.
    pub str_obj: Option<ObjId>,
    /// The class's repr hook returns this fixed text.
    pub repr_text: Option<String>,
    /// Mapping protocol: subscript read by key.
    pub map_subscript: bool,
    /// Mapping protocol: subscript assignment and deletion.
    pub map_ass: bool,
    /// Sequence protocol: item read by integer index.
    pub seq_item: bool,
    /// Sequence protocol: item assignment and deletion by integer index.
    pub seq_ass: bool,
    /// Sequence protocol: length of the element storage.
    pub seq_len: bool,
    /// Mapping protocol: length of the entry storage.
    pub map_len: bool,
    /// Class-subscription hook: subscripting the class itself builds a
    /// parameterization of it.
    pub class_getitem: bool,
}

impl Slots {
    /// A hook table with every entry absent.
    pub fn empty() -> (r: Slots)
        ensures
            r == Slots::spec_empty(),
    {
        Slots {
            getattro: false,
            setattro: false,
            descr_get: None,
            descr_set: None,
            richcompare: None,
            hash: None,
            instancecheck: None,
            subclasscheck: None,
            truth: None,
            iter: false,
            str_obj: None,
            repr_text: None,
            map_subscript: false,
            map_ass: false,
            seq_item: false,
            seq_ass: false,
            seq_len: false,
            map_len: false,
            class_getitem: false,
        }
    }

    pub open spec fn spec_empty() -> Slots {
        Slots {
            getattro: false,
            setattro: false,
            descr_get: None,
            descr_set: None,
            richcompare: None,
            hash: None,
            instancecheck: None,
            subclasscheck: None,
            truth: None,
            iter: false,
            str_obj: None,
            repr_text: None,
            map_subscript: false,
            map_ass: false,
            seq_item: false,
            seq_ass: false,
            seq_len: false,
            map_len: false,
            class_getitem: false,
        }
    }
}

/// One object: a class reference fixed at construction, optional instance
/// attribute storage, optional payloads for built-in kinds, and for class
/// objects a back reference to the class they are.
#[derive(Clone, Debug)]
pub struct ObjectData {
    /// The allocation class.
    pub class: ClassId,
    /// Instance attribute storage: name to value, unique names, insertion
    /// order irrelevant. Objects without storage reject plain assignment.
    pub dict: Option<Vec<(String, ObjId)>>,
    /// Numeric payload of built-in kinds (integers, byte strings, vectors).
    pub payload: Option<Vec<i64>>,
    /// Element storage of tuples and sequence-like objects.
    pub elems: Option<Vec<ObjId>>,
    /// Entry storage of mapping-like objects, keyed by integer.
    pub entries: Option<Vec<(i64, ObjId)>>,
    /// Text payload of string objects.
    pub text: Option<String>,
    /// The held value of descriptor objects.
    pub cell: Option<ObjId>,
    /// For a class object, the class it is. Only the class table's canonical
    /// object of a class carries this.
    pub type_of: Option<ClassId>,
}

impl ObjectData {
    /// A plain instance of `class` with empty attribute storage.
    pub fn plain(class: ClassId) -> (r: ObjectData)
        ensures
            r.class == class,
            r.dict matches Some(d) && d@ =~= Seq::<(String, ObjId)>::empty(),
            r.payload is None,
            r.elems is None,
            r.entries is None,
            r.text is None,
            r.cell is None,
            r.type_of is None,
    {
        ObjectData {
            class,
            dict: Some(Vec::new()),
            payload: None,
            elems: None,
            entries: None,
            text: None,
            cell: None,
            type_of: None,
        }
    }
}

/// One class: a name for error messages, the ordered ancestor sequence
/// (method resolution order, first entry the class itself), the class-level
/// attribute table, the canonical class object, and the hook table.
#[derive(Clone, Debug)]
pub struct ClassData {
    pub name: String,
    pub mro: Vec<ClassId>,
    pub attrs: Vec<(String, ObjId)>,
    pub obj: ObjId,
    pub slots: Slots,
}

/// Bounded reentrancy guard: one mutable depth counter per logical execution
/// context, threaded explicitly through every re-entrant protocol call.
/// Entry increments the depth and every exit path restores it; exceeding the
/// limit fails only the in-flight call.
#[derive(Clone, Copy, Debug, PartialEq, Eq, Structural)]
pub struct Guard {
    pub depth: usize,
    pub limit: usize,
}

impl Guard {
    pub fn new(limit: usize) -> (r: Guard)
        ensures
            r.depth == 0,
            r.limit == limit,
    {
        Guard { depth: 0, limit }
    }

    /// The remaining re-entrancy budget.
    pub open spec fn fuel(self) -> nat {
        if self.depth <= self.limit {
            (self.limit - self.depth) as nat
        } else {
            0
        }
    }
}

/// A typed protocol error. Every engine operation returns a success value or
/// exactly one of these; each carries the offending class names and the
/// attribute or operator context that a user-visible message embeds.
#[derive(Clone, Debug, PartialEq, Eq)]
pub enum PyErr {
    /// The object has no attribute of that name.
    AttributeMissing { class_name: String, name: String },
    /// Assignment or deletion on an object whose class publishes no setter:
    /// `read_only` tells "only read-only attributes" from "no attributes",
    /// `assign` tells assignment from deletion.
    NoAttributes { class_name: String, read_only: bool, assign: bool, name: String },
    /// A descriptor hook refused the operation; names the descriptor's class.
    DescriptorFail { class_name: String },
    /// The object is not iterable.
    NotIterable { class_name: String },
    /// Asynchronous iteration requested of the wrong kind of object.
    WrongArgumentType,
    /// A string-conversion hook returned a non-string; names the class of
    /// what it returned.
    NonStringStr { class_name: String },
    /// First argument of a subclass query is not a class.
    IssubclassArg1NotClass { class_name: String },
    /// Second argument of a subclass query is not a class, a tuple of
    /// classes, or a union.
    IssubclassArg2NotClass { class_name: String },
    /// Second argument of an instance query is not a type or tuple of types.
    IsinstanceArg2NotClass { class_name: String },
    /// A bases attribute was not a tuple.
    NotATuple { class_name: String },
    /// The class marks itself unhashable.
    Unhashable { class_name: String },
    /// No definite result for an ordering comparison.
    Unorderable { left_class: String, right_class: String, op: CmpOp },
    /// The configured reentrancy depth bound was exceeded.
    RecursionExceeded,
    /// Subscript read of an object with neither protocol.
    NotSubscriptable { class_name: String },
    /// Subscript assignment of an object without an assignment hook.
    NotAssignable { class_name: String },
    /// Subscript deletion of an object without a deletion hook.
    NotDeletable { class_name: String },
    /// The object has no length.
    NoLen { class_name: String },
    /// Mapping lookup found no entry for the key.
    KeyMissing { key: i64 },
    /// Sequence index out of range.
    IndexOutOfRange { index: i64 },
    /// The subscript key is not integer-convertible.
    KeyNotInt { class_name: String },
    /// A downcast found a value of the wrong built-in kind.
    Downcast { expected: String, got: String },
    /// A byte-string source is not a sequence of small integers.
    BytesSourceInvalid { class_name: String },
    /// A byte value outside the byte range.
    ByteOutOfRange { value: i64 },
}

/// The mathematical view of a typed error: the same variants with text as
/// character sequences. Contracts speak of this view.
pub enum ErrView {
    AttributeMissing { class_name: Seq<char>, name: Seq<char> },
    NoAttributes { class_name: Seq<char>, read_only: bool, assign: bool, name: Seq<char> },
    DescriptorFail { class_name: Seq<char> },
    NotIterable { class_name: Seq<char> },
    WrongArgumentType,
    NonStringStr { class_name: Seq<char> },
    IssubclassArg1NotClass { class_name: Seq<char> },
    IssubclassArg2NotClass { class_name: Seq<char> },
    IsinstanceArg2NotClass { class_name: Seq<char> },
    NotATuple { class_name: Seq<char> },
    Unhashable { class_name: Seq<char> },
    Unorderable { left_class: Seq<char>, right_class: Seq<char>, op: CmpOp },
    RecursionExceeded,
    NotSubscriptable { class_name: Seq<char> },
    NotAssignable { class_name: Seq<char> },
    NotDeletable { class_name: Seq<char> },
    NoLen { class_name: Seq<char> },
    KeyMissing { key: i64 },
    IndexOutOfRange { index: i64 },
    KeyNotInt { class_name: Seq<char> },
    Downcast { expected: Seq<char>, got: Seq<char> },
    BytesSourceInvalid { class_name: Seq<char> },
    ByteOutOfRange { value: i64 },
}

impl View for PyErr {
    type V = ErrView;

    open spec fn view(&self) -> ErrView {
        match self {
            PyErr::AttributeMissing { class_name, name } => ErrView::AttributeMissing {
                class_name: class_name@,
                name: name@,
            },
            PyErr::NoAttributes { class_name, read_only, assign, name } => ErrView::NoAttributes {
                class_name: class_name@,
                read_only: *read_only,
                assign: *assign,
                name: name@,
            },
            PyErr::DescriptorFail { class_name } => ErrView::DescriptorFail {
                class_name: class_name@,
            },
            PyErr::NotIterable { class_name } => ErrView::NotIterable { class_name: class_name@ },
            PyErr::WrongArgumentType => ErrView::WrongArgumentType,
            PyErr::NonStringStr { class_name } => ErrView::NonStringStr {
                class_name: class_name@,
            },
            PyErr::IssubclassArg1NotClass { class_name } => ErrView::IssubclassArg1NotClass {
                class_name: class_name@,
            },
            PyErr::IssubclassArg2NotClass { class_name } => ErrView::IssubclassArg2NotClass {
                class_name: class_name@,
            },
            PyErr::IsinstanceArg2NotClass { class_name } => ErrView::IsinstanceArg2NotClass {
                class_name: class_name@,
            },
            PyErr::NotATuple { class_name } => ErrView::NotATuple { class_name: class_name@ },
            PyErr::Unhashable { class_name } => ErrView::Unhashable { class_name: class_name@ },
            PyErr::Unorderable { left_class, right_class, op } => ErrView::Unorderable {
                left_class: left_class@,
                right_class: right_class@,
                op: *op,
            },
            PyErr::RecursionExceeded => ErrView::RecursionExceeded,
            PyErr::NotSubscriptable { class_name } => ErrView::NotSubscriptable {
                class_name: class_name@,
            },
            PyErr::NotAssignable { class_name } => ErrView::NotAssignable {
                class_name: class_name@,
            },
            PyErr::NotDeletable { class_name } => ErrView::NotDeletable {
                class_name: class_name@,
            },
            PyErr::NoLen { class_name } => ErrView::NoLen { class_name: class_name@ },
            PyErr::KeyMissing { key } => ErrView::KeyMissing { key: *key },
            PyErr::IndexOutOfRange { index } => ErrView::IndexOutOfRange { index: *index },
            PyErr::KeyNotInt { class_name } => ErrView::KeyNotInt { class_name: class_name@ },
            PyErr::Downcast { expected, got } => ErrView::Downcast {
                expected: expected@,
                got: got@,
            },
            PyErr::BytesSourceInvalid { class_name } => ErrView::BytesSourceInvalid {
                class_name: class_name@,
            },
            PyErr::ByteOutOfRange { value } => ErrView::ByteOutOfRange { value: *value },
        }
    }
}

/// The view of an engine result: successes unchanged, errors by their view.
pub open spec fn res_view<T>(r: Result<T, PyErr>) -> Result<T, ErrView> {
    match r {
        Ok(v) => Ok(v),
        Err(e) => Err(e@),
    }
}

} // verus!
