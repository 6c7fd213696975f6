//! The runtime type registry.
//!
//! The registry owns every derived type: its name, its parent, the
//! interfaces it conforms to, and its class data.  It is append-only: types
//! are registered once and never removed.  The `is_a` relation — reflexive
//! and transitive over the parent lineage and interface conformance — is
//! defined here and computed by walking the registry.

use vstd::prelude::*;
use crate::error::ObjectError;
use crate::signals::{signal_spec_clone, SignalSpec};
use crate::strutil::str_eq;
use crate::subclass::{property_clone, ClassStruct, Property};
use crate::types::{fundamental_name, fundamental_name_of, Type};

verus! {

/// One registered type.
pub struct TypeEntry {
    /// The type's unique name.
    pub name: String,
    /// The parent type: `BaseObject`, an earlier object entry, or `Invalid`
    /// for interfaces, which have no parent.
    pub parent: Type,
    /// True for interface types.
    pub iface: bool,
    /// The interfaces the type conforms to, each registered earlier.
    pub ifaces: Vec<Type>,
    /// The class data installed at registration.
    pub class: ClassStruct,
}

/// The registry of derived types.  `Type::Other(i)` names `entries[i]`.
pub struct TypeRegistry {
    /// The registered types, in registration order.
    pub entries: Vec<TypeEntry>,
}

/// The position of the first property of the given name, if any.
pub open spec fn find_prop_in(s: Seq<Property>, name: Seq<char>) -> Option<int>
    decreases s.len(),
{
    if s.len() == 0 {
        None
    } else if s[0].spec.name@ == name {
        Some(0)
    } else {
        match find_prop_in(s.drop_first(), name) {
            Some(j) => Some(j + 1),
            None => None,
        }
    }
}

/// What `find_prop_in` returns: the first position whose property carries
/// the name, or nothing when no position does.
pub proof fn lemma_find_prop_in(s: Seq<Property>, name: Seq<char>)
    ensures
        match find_prop_in(s, name) {
            Some(j) => 0 <= j < s.len() && s[j].spec.name@ == name && (forall|k: int|
                0 <= k < j ==> s[k].spec.name@ != name),
            None => forall|k: int| 0 <= k < s.len() ==> s[k].spec.name@ != name,
        },
    decreases s.len(),
{
    if s.len() != 0 && s[0].spec.name@ != name {
        lemma_find_prop_in(s.drop_first(), name);
        assert forall|k: int| 1 <= k < s.len() implies s.drop_first()[k - 1] == s[k] by {}
    }
}

/// The position of the first signal of the given name, if any.
pub open spec fn find_signal_in(s: Seq<SignalSpec>, name: Seq<char>) -> Option<int>
    decreases s.len(),
{
    if s.len() == 0 {
        None
    } else if s[0].name@ == name {
        Some(0)
    } else {
        match find_signal_in(s.drop_first(), name) {
            Some(j) => Some(j + 1),
            None => None,
        }
    }
}

/// What `find_signal_in` returns.
pub proof fn lemma_find_signal_in(s: Seq<SignalSpec>, name: Seq<char>)
    ensures
        match find_signal_in(s, name) {
            Some(j) => 0 <= j < s.len() && s[j].name@ == name && (forall|k: int|
                0 <= k < j ==> s[k].name@ != name),
            None => forall|k: int| 0 <= k < s.len() ==> s[k].name@ != name,
        },
    decreases s.len(),
{
    if s.len() != 0 && s[0].name@ != name {
        lemma_find_signal_in(s.drop_first(), name);
        assert forall|k: int| 1 <= k < s.len() implies s.drop_first()[k - 1] == s[k] by {}
    }
}

/// Finding a property in a concatenation: the left part wins, positions in
/// the right part are shifted.
pub proof fn lemma_find_prop_in_concat(a: Seq<Property>, b: Seq<Property>, name: Seq<char>)
    ensures
        find_prop_in(a + b, name) == (match find_prop_in(a, name) {
            Some(j) => Some(j),
            None => match find_prop_in(b, name) {
                Some(j) => Some(j + a.len()),
                None => None,
            },
        }),
    decreases a.len(),
{
    if a.len() == 0 {
        assert(a + b =~= b);
    } else {
        assert((a + b)[0] == a[0]);
        if a[0].spec.name@ != name {
            lemma_find_prop_in_concat(a.drop_first(), b, name);
            assert((a + b).drop_first() =~= a.drop_first() + b);
        }
    }
}

/// Finding in a concatenation: the left part wins, positions in the right
/// part are shifted.
pub proof fn lemma_find_signal_in_concat(a: Seq<SignalSpec>, b: Seq<SignalSpec>, name: Seq<char>)
    ensures
        find_signal_in(a + b, name) == (match find_signal_in(a, name) {
            Some(j) => Some(j),
            None => match find_signal_in(b, name) {
                Some(j) => Some(j + a.len()),
                None => None,
            },
        }),
    decreases a.len(),
{
    if a.len() == 0 {
        assert(a + b =~= b);
    } else {
        assert((a + b)[0] == a[0]);
        if a[0].name@ != name {
            lemma_find_signal_in_concat(a.drop_first(), b, name);
            assert((a + b).drop_first() =~= a.drop_first() + b);
        }
    }
}

/// The position of the first entry of the given name, if any.
pub open spec fn find_entry_in(s: Seq<TypeEntry>, name: Seq<char>) -> Option<int>
    decreases s.len(),
{
    if s.len() == 0 {
        None
    } else if s[0].name@ == name {
        Some(0)
    } else {
        match find_entry_in(s.drop_first(), name) {
            Some(j) => Some(j + 1),
            None => None,
        }
    }
}

/// What `find_entry_in` returns.
pub proof fn lemma_find_entry_in(s: Seq<TypeEntry>, name: Seq<char>)
    ensures
        match find_entry_in(s, name) {
            Some(j) => 0 <= j < s.len() && s[j].name@ == name && (forall|k: int|
                0 <= k < j ==> s[k].name@ != name),
            None => forall|k: int| 0 <= k < s.len() ==> s[k].name@ != name,
        },
    decreases s.len(),
{
    if s.len() != 0 && s[0].name@ != name {
        lemma_find_entry_in(s.drop_first(), name);
        assert forall|k: int| 1 <= k < s.len() implies s.drop_first()[k - 1] == s[k] by {}
    }
}

/// The fundamental type of the given name, if any.
pub open spec fn fundamental_named(name: Seq<char>) -> Option<Type> {
    if name == fundamental_name(Type::Unit) {
        Some(Type::Unit)
    } else if name == fundamental_name(Type::I8) {
        Some(Type::I8)
    } else if name == fundamental_name(Type::U8) {
        Some(Type::U8)
    } else if name == fundamental_name(Type::Bool) {
        Some(Type::Bool)
    } else if name == fundamental_name(Type::I32) {
        Some(Type::I32)
    } else if name == fundamental_name(Type::U32) {
        Some(Type::U32)
    } else if name == fundamental_name(Type::I64) {
        Some(Type::I64)
    } else if name == fundamental_name(Type::U64) {
        Some(Type::U64)
    } else if name == fundamental_name(Type::F32) {
        Some(Type::F32)
    } else if name == fundamental_name(Type::F64) {
        Some(Type::F64)
    } else if name == fundamental_name(Type::String) {
        Some(Type::String)
    } else if name == fundamental_name(Type::Pointer) {
        Some(Type::Pointer)
    } else if name == fundamental_name(Type::Variant) {
        Some(Type::Variant)
    } else if name == fundamental_name(Type::BaseInterface) {
        Some(Type::BaseInterface)
    } else if name == fundamental_name(Type::BaseEnum) {
        Some(Type::BaseEnum)
    } else if name == fundamental_name(Type::BaseFlags) {
        Some(Type::BaseFlags)
    } else if name == fundamental_name(Type::BaseBoxed) {
        Some(Type::BaseBoxed)
    } else if name == fundamental_name(Type::BaseParamSpec) {
        Some(Type::BaseParamSpec)
    } else if name == fundamental_name(Type::BaseObject) {
        Some(Type::BaseObject)
    } else {
        None
    }
}

/// Looks a fundamental type up by name.
pub fn fundamental_from_name(name: &str) -> (r: Option<Type>)
    ensures
        r == fundamental_named(name@),
{
    if str_eq(name, "void") {
        Some(Type::Unit)
    } else if str_eq(name, "gchar") {
        Some(Type::I8)
    } else if str_eq(name, "guchar") {
        Some(Type::U8)
    } else if str_eq(name, "gboolean") {
        Some(Type::Bool)
    } else if str_eq(name, "gint") {
        Some(Type::I32)
    } else if str_eq(name, "guint") {
        Some(Type::U32)
    } else if str_eq(name, "gint64") {
        Some(Type::I64)
    } else if str_eq(name, "guint64") {
        Some(Type::U64)
    } else if str_eq(name, "gfloat") {
        Some(Type::F32)
    } else if str_eq(name, "gdouble") {
        Some(Type::F64)
    } else if str_eq(name, "gchararray") {
        Some(Type::String)
    } else if str_eq(name, "gpointer") {
        Some(Type::Pointer)
    } else if str_eq(name, "GVariant") {
        Some(Type::Variant)
    } else if str_eq(name, "GInterface") {
        Some(Type::BaseInterface)
    } else if str_eq(name, "GEnum") {
        Some(Type::BaseEnum)
    } else if str_eq(name, "GFlags") {
        Some(Type::BaseFlags)
    } else if str_eq(name, "GBoxed") {
        Some(Type::BaseBoxed)
    } else if str_eq(name, "GParam") {
        Some(Type::BaseParamSpec)
    } else if str_eq(name, "GObject") {
        Some(Type::BaseObject)
    } else {
        None
    }
}

/// A measure that decreases along the parent and conformance edges:
/// derived types rank above every fundamental type, and a derived type
/// ranks above all entries registered before it.
pub open spec fn type_rank(t: Type) -> nat {
    match t {
        Type::Other(i) => i as nat + 1,
        _ => 0,
    }
}

impl TypeRegistry {
    /// An empty registry.
    pub fn new() -> (r: TypeRegistry)
        ensures
            r.entries@ == Seq::<TypeEntry>::empty(),
            r.wf(),
    {
        let r = TypeRegistry { entries: Vec::new() };
        proof {
            assert(r.wf());
        }
        r
    }

    /// The type names an entry of this registry, or a fundamental kind.
    pub open spec fn valid_type(self, t: Type) -> bool {
        &&& !(t is Invalid)
        &&& (t is Other ==> t.index() < self.entries@.len())
    }

    /// The entry of a derived type.
    pub open spec fn entry(self, t: Type) -> TypeEntry
        recommends
            t is Other,
            self.valid_type(t),
    {
        self.entries@[t.index()]
    }

    /// The `is_a` relation: `a` is `b` itself, or reaches `b` through its
    /// parent lineage or through the interfaces it conforms to.  The
    /// relation is reflexive and fully transitive; since interfaces chain
    /// under the interface root, a type conforming to an interface also
    /// reaches that root.
    pub open spec fn is_a_spec(self, a: Type, b: Type) -> bool
        decreases type_rank(a),
    {
        a == b || (match a {
            Type::Other(i) => i < self.entries@.len() && {
                let e = self.entries@[i as int];
                ||| (!(e.parent is Invalid) && type_rank(e.parent) <= i && self.is_a_spec(
                    e.parent,
                    b,
                ))
                ||| exists|j: int|
                    0 <= j < e.ifaces@.len() && type_rank(#[trigger] e.ifaces@[j]) <= i
                        && self.is_a_spec(e.ifaces@[j], b)
            },
            _ => false,
        })
    }

    /// The type is a registered interface.
    pub open spec fn is_interface(self, t: Type) -> bool {
        t is Other && self.valid_type(t) && self.entry(t).iface
    }

    /// The type is an instantiable object type: the object root or a
    /// registered non-interface entry.
    pub open spec fn is_object_type(self, t: Type) -> bool {
        t == Type::BaseObject || (t is Other && self.valid_type(t) && !self.entry(t).iface)
    }

    /// Well-formedness of one entry; every condition looks only at the
    /// entry itself and at entries registered before it, so appending a
    /// well-formed entry preserves the registry's well-formedness.
    pub open spec fn wf_entry(self, i: int) -> bool
        recommends
            0 <= i < self.entries@.len(),
    {
        let e = self.entries@[i];
        &&& e.name@.len() > 0
        &&& (forall|j: int| 0 <= j < i ==> self.entries@[j].name@ != e.name@)
        &&& (if e.iface {
            &&& e.parent == Type::BaseInterface
            &&& e.ifaces@.len() == 0
            &&& e.class.properties@.len() == 0
            &&& e.class.signals@.len() == 0
            &&& e.class.mark_constructed is None
            &&& !e.class.initially_unowned
        } else {
            &&& (e.parent == Type::BaseObject || (e.parent is Other && e.parent.index() < i
                && !self.entries@[e.parent.index()].iface))
            &&& (forall|j: int|
                0 <= j < e.ifaces@.len() ==> (#[trigger] e.ifaces@[j]) is Other
                    && e.ifaces@[j].index() < i && self.entries@[e.ifaces@[j].index()].iface)
            &&& self.wf_class(i)
        })
    }

    /// Well-formedness of the class data of a non-interface entry: property
    /// descriptors are consistent, names are fresh within the lineage,
    /// object-typed properties name object types, setter hooks that emit
    /// name a unit signal of the type taking exactly the property's value,
    /// and the constructed-mark names a boolean property.
    pub open spec fn wf_class(self, i: int) -> bool
        recommends
            0 <= i < self.entries@.len(),
    {
        let e = self.entries@[i];
        let props = e.class.properties@;
        let sigs = e.class.signals@;
        &&& (forall|k: int| 0 <= k < props.len() ==> (#[trigger] props[k]).spec.wf())
        &&& (forall|k: int|
            0 <= k < props.len() ==> ((#[trigger] props[k]).spec.default is Object
                ==> props[k].spec.value_type == Type::BaseObject || (props[k].spec.value_type
                is Other && props[k].spec.value_type.index() <= i
                && props[k].spec.value_type.index() < self.entries@.len()
                && !self.entries@[props[k].spec.value_type.index()].iface)))
        &&& (forall|k1: int, k2: int|
            0 <= k1 < k2 < props.len() ==> (#[trigger] props[k1]).spec.name@
                != (#[trigger] props[k2]).spec.name@)
        &&& (forall|k: int|
            0 <= k < props.len() ==> find_prop_in(
                self.all_props(e.parent),
                (#[trigger] props[k]).spec.name@,
            ) is None)
        &&& (forall|k: int|
            0 <= k < props.len() ==> match (#[trigger] props[k]).setter {
                crate::subclass::PropertySetHook::StoreAndEmit(sig) => {
                    match find_signal_in(self.all_signals(Type::Other(i as usize)), sig@) {
                        Some(m) => {
                            let s = self.all_signals(Type::Other(i as usize))[m];
                            &&& s.param_types@ == seq![props[k].spec.value_type]
                            &&& s.ret_type == Type::Unit
                        },
                        None => false,
                    }
                },
                _ => true,
            })
        &&& (forall|k: int| 0 <= k < sigs.len() ==> (#[trigger] sigs[k]).name@.len() > 0)
        &&& (forall|k1: int, k2: int|
            0 <= k1 < k2 < sigs.len() ==> (#[trigger] sigs[k1]).name@
                != (#[trigger] sigs[k2]).name@)
        &&& (forall|k: int|
            0 <= k < sigs.len() ==> find_signal_in(
                self.all_signals(e.parent),
                (#[trigger] sigs[k]).name@,
            ) is None)
        &&& (match e.class.mark_constructed {
            Some(nm) => match find_prop_in(self.all_props(Type::Other(i as usize)), nm@) {
                Some(m) => self.all_props(Type::Other(i as usize))[m].spec.value_type
                    == Type::Bool,
                None => false,
            },
            None => true,
        })
    }

    /// Well-formedness of the whole registry.
    pub open spec fn wf(self) -> bool {
        forall|i: int| 0 <= i < self.entries@.len() ==> self.wf_entry(i)
    }

    /// Computes the `is_a` relation.
    pub fn is_a(&self, a: Type, b: Type) -> (r: bool)
        requires
            self.wf(),
        ensures
            r == self.is_a_spec(a, b),
        decreases type_rank(a),
    {
        if a == b {
            return true;
        }
        match a {
            Type::Other(i) => {
                if i >= self.entries.len() {
                    return false;
                }
                let e = &self.entries[i];
                proof {
                    assert(self.wf_entry(i as int));
                }
                if !matches!(e.parent, Type::Invalid) {
                    if self.is_a(e.parent, b) {
                        return true;
                    }
                }
                let mut j: usize = 0;
                while j < e.ifaces.len()
                    invariant
                        self.wf(),
                        i < self.entries@.len(),
                        e == self.entries@[i as int],
                        j <= e.ifaces@.len(),
                        forall|k: int|
                            0 <= k < j ==> !self.is_a_spec(#[trigger] e.ifaces@[k], b),
                        a == Type::Other(i),
                        a != b,
                        !(!(e.parent is Invalid) && type_rank(e.parent) <= i as nat
                            && self.is_a_spec(e.parent, b)),
                    decreases e.ifaces@.len() - j,
                {
                    proof {
                        assert(self.wf_entry(i as int));
                    }
                    if self.is_a(e.ifaces[j], b) {
                        return true;
                    }
                    j = j + 1;
                }
                false
            },
            _ => false,
        }
    }

    /// `is_a` is reflexive: every type is itself.
    pub proof fn lemma_is_a_reflexive(self, t: Type)
        ensures
            self.is_a_spec(t, t),
    {
    }

    /// Every registered non-interface type is its parent.
    pub proof fn lemma_is_a_parent(self, t: Type)
        requires
            self.wf(),
            t is Other,
            self.valid_type(t),
            !self.entry(t).iface,
        ensures
            self.is_a_spec(t, self.entry(t).parent),
    {
        assert(self.wf_entry(t.index()));
        self.lemma_is_a_reflexive(self.entry(t).parent);
    }

    /// Every registered type is each interface it conforms to.
    pub proof fn lemma_is_a_iface(self, t: Type, j: int)
        requires
            self.wf(),
            t is Other,
            self.valid_type(t),
            0 <= j < self.entry(t).ifaces@.len(),
        ensures
            self.is_a_spec(t, self.entry(t).ifaces@[j]),
    {
        assert(self.wf_entry(t.index()));
        self.lemma_is_a_reflexive(self.entry(t).ifaces@[j]);
    }

    /// Every property of a type: the ancestors' properties first, then the
    /// type's own, in installation order.
    pub open spec fn all_props(self, t: Type) -> Seq<Property>
        decreases type_rank(t),
    {
        match t {
            Type::Other(i) => if i < self.entries@.len() {
                let e = self.entries@[i as int];
                (if !(e.parent is Invalid) && type_rank(e.parent) <= i {
                    self.all_props(e.parent)
                } else {
                    Seq::<Property>::empty()
                }) + e.class.properties@
            } else {
                Seq::<Property>::empty()
            },
            _ => Seq::<Property>::empty(),
        }
    }

    /// Every signal of a type: the ancestors' signals first, then the
    /// type's own, in installation order.
    pub open spec fn all_signals(self, t: Type) -> Seq<SignalSpec>
        decreases type_rank(t),
    {
        match t {
            Type::Other(i) => if i < self.entries@.len() {
                let e = self.entries@[i as int];
                (if !(e.parent is Invalid) && type_rank(e.parent) <= i {
                    self.all_signals(e.parent)
                } else {
                    Seq::<SignalSpec>::empty()
                }) + e.class.signals@
            } else {
                Seq::<SignalSpec>::empty()
            },
            _ => Seq::<SignalSpec>::empty(),
        }
    }

    /// Collects the full property table of a type.
    pub fn collect_props(&self, t: Type) -> (r: Vec<Property>)
        requires
            self.wf(),
        ensures
            r@ == self.all_props(t),
        decreases type_rank(t),
    {
        match t {
            Type::Other(i) => {
                if i >= self.entries.len() {
                    return Vec::new();
                }
                proof {
                    assert(self.wf_entry(i as int));
                }
                let e = &self.entries[i];
                let mut r: Vec<Property> = if !matches!(e.parent, Type::Invalid) {
                    self.collect_props(e.parent)
                } else {
                    Vec::new()
                };
                let mut j: usize = 0;
                while j < e.class.properties.len()
                    invariant
                        i < self.entries@.len(),
                        e == self.entries@[i as int],
                        j <= e.class.properties@.len(),
                        r@ == (if !(e.parent is Invalid) && type_rank(e.parent) <= i as nat {
                            self.all_props(e.parent)
                        } else {
                            Seq::<Property>::empty()
                        }) + e.class.properties@.subrange(0, j as int),
                    decreases e.class.properties@.len() - j,
                {
                    r.push(property_clone(&e.class.properties[j]));
                    proof {
                        assert(e.class.properties@.subrange(0, j + 1 as int)
                            =~= e.class.properties@.subrange(0, j as int).push(
                            e.class.properties@[j as int],
                        ));
                    }
                    j = j + 1;
                }
                proof {
                    assert(e.class.properties@.subrange(0, e.class.properties@.len() as int)
                        =~= e.class.properties@);
                }
                r
            },
            _ => Vec::new(),
        }
    }

    /// The display name of a type: the registered name for entries, the
    /// fundamental name otherwise; an out-of-range index has the empty name.
    pub open spec fn name_of_type(self, t: Type) -> Seq<char> {
        match t {
            Type::Other(i) => if i < self.entries@.len() {
                self.entries@[i as int].name@
            } else {
                Seq::<char>::empty()
            },
            _ => fundamental_name(t),
        }
    }

    /// Returns the display name of a type.
    pub fn name(&self, t: Type) -> (r: String)
        ensures
            r@ == self.name_of_type(t),
    {
        match t {
            Type::Other(i) => {
                if i < self.entries.len() {
                    self.entries[i].name.clone()
                } else {
                    String::new()
                }
            },
            _ => fundamental_name_of(t),
        }
    }

    /// The parent of a type, if it has one.
    pub open spec fn parent_spec(self, t: Type) -> Option<Type> {
        match t {
            Type::Other(i) => if i < self.entries@.len() && !(self.entries@[i as int].parent
                is Invalid) {
                Some(self.entries@[i as int].parent)
            } else {
                None
            },
            _ => None,
        }
    }

    /// Returns the parent of a type.  Fundamental types and interfaces have
    /// none.
    pub fn parent(&self, t: Type) -> (r: Option<Type>)
        ensures
            r == self.parent_spec(t),
    {
        match t {
            Type::Other(i) => {
                if i < self.entries.len() {
                    if matches!(self.entries[i].parent, Type::Invalid) {
                        None
                    } else {
                        Some(self.entries[i].parent)
                    }
                } else {
                    None
                }
            },
            _ => None,
        }
    }

    /// The registered types whose parent is `t`, among the first `n`
    /// entries, in registration order.
    pub open spec fn children_upto(self, t: Type, n: int) -> Seq<Type>
        decreases n,
    {
        if n <= 0 {
            Seq::<Type>::empty()
        } else {
            self.children_upto(t, n - 1) + (if self.entries@[n - 1].parent == t {
                seq![Type::Other((n - 1) as usize)]
            } else {
                Seq::<Type>::empty()
            })
        }
    }

    /// Returns the direct children of a type, in registration order.
    pub fn children(&self, t: Type) -> (r: Vec<Type>)
        ensures
            r@ == self.children_upto(t, self.entries@.len() as int),
    {
        let mut r: Vec<Type> = Vec::new();
        let mut i: usize = 0;
        while i < self.entries.len()
            invariant
                i <= self.entries@.len(),
                r@ == self.children_upto(t, i as int),
            decreases self.entries@.len() - i,
        {
            if self.entries[i].parent == t {
                r.push(Type::Other(i));
                proof {
                    assert(r@ =~= self.children_upto(t, i + 1 as int));
                }
            } else {
                proof {
                    assert(r@ =~= self.children_upto(t, i + 1 as int));
                }
            }
            i = i + 1;
        }
        r
    }

    /// The position of the first entry of the given name, if any.
    pub open spec fn entry_named(self, name: Seq<char>) -> Option<int> {
        find_entry_in(self.entries@, name)
    }

    /// Looks a type up by name: registered names first, then the
    /// fundamental names.
    pub fn from_name(&self, name: &str) -> (r: Option<Type>)
        ensures
            r == (match self.entry_named(name@) {
                Some(i) => Some(Type::Other(i as usize)),
                None => fundamental_named(name@),
            }),
    {
        proof {
            lemma_find_entry_in(self.entries@, name@);
        }
        let mut i: usize = 0;
        while i < self.entries.len()
            invariant
                i <= self.entries@.len(),
                forall|k: int| 0 <= k < i ==> self.entries@[k].name@ != name@,
            decreases self.entries@.len() - i,
        {
            if str_eq(name, self.entries[i].name.as_str()) {
                proof {
                    lemma_find_entry_in(self.entries@, name@);
                }
                return Some(Type::Other(i));
            }
            i = i + 1;
        }
        fundamental_from_name(name)
    }

    /// Finds a property by name along the lineage of `t`.  Returns its slot
    /// position in the full property table together with its definition.
    pub fn find_property(&self, t: Type, name: &str) -> (r: Option<(usize, Property)>)
        requires
            self.wf(),
        ensures
            match find_prop_in(self.all_props(t), name@) {
                Some(j) => r is Some && r->Some_0.0 == j && r->Some_0.1 == self.all_props(t)[j],
                None => r is None,
            },
    {
        let props = self.collect_props(t);
        let ghost all = self.all_props(t);
        proof {
            lemma_find_prop_in(all, name@);
        }
        let mut k: usize = 0;
        while k < props.len()
            invariant
                props@ == all,
                all == self.all_props(t),
                k <= all.len(),
                forall|m: int| 0 <= m < k ==> all[m].spec.name@ != name@,
            decreases all.len() - k,
        {
            if str_eq(name, props[k].spec.name.as_str()) {
                proof {
                    lemma_find_prop_in(all, name@);
                }
                return Some((k, property_clone(&props[k])));
            }
            k = k + 1;
        }
        None
    }

    /// Finds a signal registration by name along the lineage of `t`.  The
    /// returned registration equals the registered one field by field.
    pub fn find_signal(&self, t: Type, name: &str) -> (r: Option<SignalSpec>)
        requires
            self.wf(),
        ensures
            match find_signal_in(self.all_signals(t), name@) {
                Some(j) => {
                    let s = self.all_signals(t)[j];
                    r is Some && r->Some_0.name == s.name && r->Some_0.param_types@
                        == s.param_types@ && r->Some_0.ret_type == s.ret_type && r->Some_0.flags
                        == s.flags && r->Some_0.class_handler == s.class_handler
                },
                None => r is None,
            },
        decreases type_rank(t),
    {
        match t {
            Type::Other(i) => {
                if i >= self.entries.len() {
                    return None;
                }
                proof {
                    assert(self.wf_entry(i as int));
                }
                let e = &self.entries[i];
                let ghost up = if !(e.parent is Invalid) && type_rank(e.parent) <= i as nat {
                    self.all_signals(e.parent)
                } else {
                    Seq::<SignalSpec>::empty()
                };
                proof {
                    assert(self.all_signals(t) == up + e.class.signals@);
                    lemma_find_signal_in_concat(up, e.class.signals@, name@);
                }
                if !matches!(e.parent, Type::Invalid) {
                    let r = self.find_signal(e.parent, name);
                    if r.is_some() {
                        proof {
                            lemma_find_signal_in(up, name@);
                        }
                        return r;
                    }
                }
                let mut k: usize = 0;
                proof {
                    lemma_find_signal_in(e.class.signals@, name@);
                }
                while k < e.class.signals.len()
                    invariant
                        i < self.entries@.len(),
                        e == self.entries@[i as int],
                        t == Type::Other(i),
                        k <= e.class.signals@.len(),
                        self.all_signals(t) == up + e.class.signals@,
                        find_signal_in(up, name@) is None,
                        forall|m: int| 0 <= m < k ==> e.class.signals@[m].name@ != name@,
                    decreases e.class.signals@.len() - k,
                {
                    if str_eq(name, e.class.signals[k].name.as_str()) {
                        proof {
                            lemma_find_signal_in(e.class.signals@, name@);
                            lemma_find_signal_in_concat(up, e.class.signals@, name@);
                            assert(self.all_signals(t)[up.len() + k] == e.class.signals@[
                                k as int]);
                        }
                        return Some(signal_spec_clone(&e.class.signals[k]));
                    }
                    k = k + 1;
                }
                proof {
                    lemma_find_signal_in(e.class.signals@, name@);
                }
                None
            },
            _ => None,
        }
    }

    /// The second registry extends the first by new entries.
    pub open spec fn extends(self, other: TypeRegistry) -> bool {
        &&& self.entries@.len() >= other.entries@.len()
        &&& (forall|j: int|
            0 <= j < other.entries@.len() ==> self.entries@[j] == other.entries@[j])
    }

    /// Appending entries leaves the property tables of the existing types
    /// unchanged.
    pub proof fn lemma_all_props_extend(self, other: TypeRegistry, t: Type)
        requires
            self.extends(other),
            type_rank(t) <= other.entries@.len(),
        ensures
            self.all_props(t) == other.all_props(t),
        decreases type_rank(t),
    {
        match t {
            Type::Other(i) => {
                let e = other.entries@[i as int];
                if !(e.parent is Invalid) && type_rank(e.parent) <= i {
                    self.lemma_all_props_extend(other, e.parent);
                }
            },
            _ => {},
        }
    }

    /// Appending entries leaves the signal tables of the existing types
    /// unchanged.
    pub proof fn lemma_all_signals_extend(self, other: TypeRegistry, t: Type)
        requires
            self.extends(other),
            type_rank(t) <= other.entries@.len(),
        ensures
            self.all_signals(t) == other.all_signals(t),
        decreases type_rank(t),
    {
        match t {
            Type::Other(i) => {
                let e = other.entries@[i as int];
                if !(e.parent is Invalid) && type_rank(e.parent) <= i {
                    self.lemma_all_signals_extend(other, e.parent);
                }
            },
            _ => {},
        }
    }

    /// Appending entries leaves the `is_a` relation on the existing types
    /// unchanged: the registry is append-only.
    pub proof fn lemma_is_a_extend(self, other: TypeRegistry, a: Type, b: Type)
        requires
            self.extends(other),
            type_rank(a) <= other.entries@.len(),
        ensures
            self.is_a_spec(a, b) == other.is_a_spec(a, b),
        decreases type_rank(a),
    {
        match a {
            Type::Other(i) => {
                if i < other.entries@.len() {
                    let e = other.entries@[i as int];
                    if !(e.parent is Invalid) && type_rank(e.parent) <= i {
                        self.lemma_is_a_extend(other, e.parent, b);
                    }
                    assert forall|j: int|
                        0 <= j < e.ifaces@.len() && type_rank(#[trigger] e.ifaces@[j])
                            <= i implies self.is_a_spec(e.ifaces@[j], b) == other.is_a_spec(
                        e.ifaces@[j],
                        b,
                    ) by {
                        self.lemma_is_a_extend(other, e.ifaces@[j], b);
                    }
                }
            },
            _ => {},
        }
    }

    /// Everything `register_type` checks, in one predicate: when it holds,
    /// the registration is owed success.
    pub open spec fn registration_acceptable(
        self,
        name: Seq<char>,
        parent: Type,
        ifaces: Seq<Type>,
        class: ClassStruct,
    ) -> bool {
        &&& name.len() > 0
        &&& self.entry_named(name) is None
        &&& fundamental_named(name) is None
        &&& (parent == Type::BaseObject || (parent is Other && self.valid_type(parent)
            && !self.entry(parent).iface))
        &&& (forall|j: int|
            0 <= j < ifaces.len() ==> (#[trigger] ifaces[j]) is Other && ifaces[j].index()
                < self.entries@.len() && self.entries@[ifaces[j].index()].iface)
        &&& (forall|k: int| 0 <= k < class.signals@.len() ==> self.signal_check(parent, class, k))
        &&& (forall|k1: int, k2: int|
            0 <= k1 < k2 < class.signals@.len() ==> (#[trigger] class.signals@[k1]).name@ != (
            #[trigger] class.signals@[k2]).name@)
        &&& (forall|k: int|
            0 <= k < class.properties@.len() ==> self.prop_check(parent, class, k))
        &&& (forall|k1: int, k2: int|
            0 <= k1 < k2 < class.properties@.len() ==> (
            #[trigger] class.properties@[k1]).spec.name@ != (
            #[trigger] class.properties@[k2]).spec.name@)
        &&& self.mark_check(parent, class)
    }

    /// The conditions on one property of a class about to be registered,
    /// phrased over the registry as it stands before the registration.
    pub open spec fn prop_check(self, parent: Type, class: ClassStruct, k: int) -> bool {
        let p = class.properties@[k];
        &&& p.spec.wf()
        &&& (p.spec.default is Object ==> p.spec.value_type == Type::BaseObject
            || (p.spec.value_type is Other && p.spec.value_type.index() <= self.entries@.len()
            && (p.spec.value_type.index() < self.entries@.len()
                ==> !self.entries@[p.spec.value_type.index()].iface)))
        &&& find_prop_in(self.all_props(parent), p.spec.name@) is None
        &&& (match p.setter {
            crate::subclass::PropertySetHook::StoreAndEmit(sig) => {
                match find_signal_in(self.all_signals(parent) + class.signals@, sig@) {
                    Some(m) => {
                        let s = (self.all_signals(parent) + class.signals@)[m];
                        &&& s.param_types@ == seq![p.spec.value_type]
                        &&& s.ret_type == Type::Unit
                    },
                    None => false,
                }
            },
            _ => true,
        })
    }

    /// The conditions on one signal of a class about to be registered.
    pub open spec fn signal_check(self, parent: Type, class: ClassStruct, k: int) -> bool {
        let s = class.signals@[k];
        &&& s.name@.len() > 0
        &&& find_signal_in(self.all_signals(parent), s.name@) is None
    }

    /// The condition on the constructed-mark of a class about to be
    /// registered.
    pub open spec fn mark_check(self, parent: Type, class: ClassStruct) -> bool {
        match class.mark_constructed {
            Some(nm) => match find_prop_in(self.all_props(parent) + class.properties@, nm@) {
                Some(m) => (self.all_props(parent) + class.properties@)[m].spec.value_type
                    == Type::Bool,
                None => false,
            },
            None => true,
        }
    }

    /// Appending an object entry whose pieces pass all checks keeps the
    /// registry well-formed.
    proof fn lemma_register_preserves_wf(self, other: TypeRegistry, parent: Type, class:
        ClassStruct)
        requires
            other.wf(),
            self.entries@.len() <= usize::MAX as nat,
            self.entries@.len() == other.entries@.len() + 1,
            self.extends(other),
            ({
                let e = self.entries@[other.entries@.len() as int];
                &&& e.parent == parent
                &&& !e.iface
                &&& e.class == class
                &&& e.name@.len() > 0
                &&& (forall|j: int|
                    0 <= j < other.entries@.len() ==> other.entries@[j].name@ != e.name@)
                &&& (parent == Type::BaseObject || (parent is Other && parent.index()
                    < other.entries@.len() && !other.entries@[parent.index()].iface))
                &&& (forall|j: int|
                    0 <= j < e.ifaces@.len() ==> (#[trigger] e.ifaces@[j]) is Other
                        && e.ifaces@[j].index() < other.entries@.len()
                        && other.entries@[e.ifaces@[j].index()].iface)
            }),
            forall|k: int|
                0 <= k < class.properties@.len() ==> other.prop_check(parent, class, k),
            forall|k1: int, k2: int|
                0 <= k1 < k2 < class.properties@.len() ==> (
                #[trigger] class.properties@[k1]).spec.name@
                    != (#[trigger] class.properties@[k2]).spec.name@,
            forall|k: int| 0 <= k < class.signals@.len() ==> other.signal_check(parent, class, k),
            forall|k1: int, k2: int|
                0 <= k1 < k2 < class.signals@.len() ==> (#[trigger] class.signals@[k1]).name@
                    != (#[trigger] class.signals@[k2]).name@,
            other.mark_check(parent, class),
        ensures
            self.wf(),
    {
        let n = other.entries@.len() as int;
        let e = self.entries@[n];
        assert forall|i: int| 0 <= i < self.entries@.len() implies self.wf_entry(i) by {
            if i < n {
                assert(other.wf_entry(i));
                let ei = other.entries@[i];
                if !ei.iface {
                    self.lemma_all_props_extend(other, ei.parent);
                    self.lemma_all_signals_extend(other, ei.parent);
                    self.lemma_all_props_extend(other, Type::Other(i as usize));
                    self.lemma_all_signals_extend(other, Type::Other(i as usize));
                    assert(self.wf_class(i) == other.wf_class(i));
                }
            } else {
                self.lemma_all_props_extend(other, parent);
                self.lemma_all_signals_extend(other, parent);
                let t = Type::Other(n as usize);
                assert(t.index() == n);
                assert forall|j: int| 0 <= j < n implies self.entries@[j] == other.entries@[
                    j] by {}
                assert(self.all_props(t) == other.all_props(parent) + class.properties@);
                assert(self.all_signals(t) == other.all_signals(parent) + class.signals@);
                assert forall|k: int|
                    0 <= k < class.signals@.len() implies (
                #[trigger] class.signals@[k]).name@.len() > 0 && find_signal_in(
                    self.all_signals(parent),
                    class.signals@[k].name@,
                ) is None by {
                    assert(other.signal_check(parent, class, k));
                }
                assert(self.wf_class(n)) by {
                    assert forall|k: int|
                        0 <= k < class.properties@.len() implies ({
                        let p = #[trigger] class.properties@[k];
                        &&& p.spec.wf()
                        &&& (p.spec.default is Object ==> p.spec.value_type == Type::BaseObject
                            || (p.spec.value_type is Other && p.spec.value_type.index() <= n
                            && p.spec.value_type.index() < self.entries@.len()
                            && !self.entries@[p.spec.value_type.index()].iface))
                        &&& find_prop_in(self.all_props(parent), p.spec.name@) is None
                        &&& (match p.setter {
                            crate::subclass::PropertySetHook::StoreAndEmit(sig) => {
                                match find_signal_in(self.all_signals(t), sig@) {
                                    Some(m) => {
                                        let s = self.all_signals(t)[m];
                                        &&& s.param_types@ == seq![p.spec.value_type]
                                        &&& s.ret_type == Type::Unit
                                    },
                                    None => false,
                                }
                            },
                            _ => true,
                        })
                    }) by {
                        assert(other.prop_check(parent, class, k));
                    }
                }
            }
        }
    }

    /// Registers a new interface type under a unique, non-empty name.
    pub fn register_interface(&mut self, name: &str) -> (r: Result<Type, ObjectError>)
        requires
            old(self).wf(),
        ensures
            final(self).wf(),
            match r {
                Ok(t) => {
                    &&& t == Type::Other(old(self).entries@.len() as usize)
                    &&& final(self).entries@.len() == old(self).entries@.len() + 1
                    &&& final(self).extends(*old(self))
                    &&& final(self).is_interface(t)
                    &&& final(self).entry(t).parent == Type::BaseInterface
                    &&& final(self).name_of_type(t) == name@
                    &&& old(self).entry_named(name@) is None
                    &&& fundamental_named(name@) is None
                },
                Err(_) => *final(self) == *old(self),
            },
            // Success is owed: a non-empty name colliding with nothing is
            // accepted.
            (name@.len() > 0 && old(self).entry_named(name@) is None && fundamental_named(name@)
                is None) ==> r is Ok,
    {
        proof {
            lemma_find_entry_in(self.entries@, name@);
        }
        if name.unicode_len() == 0 {
            return Err(ObjectError::OperationFailed {
                message: String::from_str("type name must not be empty"),
            });
        }
        let mut i: usize = 0;
        while i < self.entries.len()
            invariant
                old(self).wf(),
                *self == *old(self),
                i <= self.entries@.len(),
                forall|k: int| 0 <= k < i ==> self.entries@[k].name@ != name@,
            decreases self.entries@.len() - i,
        {
            if str_eq(name, self.entries[i].name.as_str()) {
                proof {
                    lemma_find_entry_in(self.entries@, name@);
                }
                return Err(ObjectError::OperationFailed {
                    message: crate::strutil::concat3(
                        "type name '",
                        name,
                        "' is already registered",
                    ),
                });
            }
            i = i + 1;
        }
        // A name may not shadow a fundamental type either: lookups by name
        // must never silently alias two types.
        if fundamental_from_name(name).is_some() {
            return Err(ObjectError::OperationFailed {
                message: crate::strutil::concat3(
                    "type name '",
                    name,
                    "' collides with a fundamental type",
                ),
            });
        }
        let ghost before = *self;
        self.entries.push(TypeEntry {
            name: String::from_str(name),
            parent: Type::BaseInterface,
            iface: true,
            ifaces: Vec::new(),
            class: ClassStruct::new(),
        });
        proof {
            lemma_find_entry_in(before.entries@, name@);
            let n = before.entries@.len() as int;
            assert forall|i2: int| 0 <= i2 < self.entries@.len() implies self.wf_entry(i2) by {
                if i2 < n {
                    assert(before.wf_entry(i2));
                    assert forall|j: int| 0 <= j < i2 implies self.entries@[j]
                        == before.entries@[j] by {}
                    if !before.entries@[i2].iface {
                        self.lemma_all_props_extend(before, before.entries@[i2].parent);
                        self.lemma_all_signals_extend(before, before.entries@[i2].parent);
                        self.lemma_all_props_extend(before, Type::Other(i2 as usize));
                        self.lemma_all_signals_extend(before, Type::Other(i2 as usize));
                        assert(self.wf_class(i2) == before.wf_class(i2));
                    }
                }
            }
        }
        Ok(Type::Other(self.entries.len() - 1))
    }

    /// Registers a new object type: a unique, non-empty name, an
    /// instantiable parent, interfaces to conform to, and the class data.
    /// Registration fails, leaving the registry unchanged, if the name
    /// collides, the parent or an interface is unsuitable, a property or
    /// signal is inconsistent with the lineage, or a hook names something
    /// that does not exist.
    pub fn register_type(&mut self, name: &str, parent: Type, ifaces: Vec<Type>, class:
        ClassStruct) -> (r: Result<Type, ObjectError>)
        requires
            old(self).wf(),
        ensures
            final(self).wf(),
            match r {
                Ok(t) => {
                    &&& t == Type::Other(old(self).entries@.len() as usize)
                    &&& final(self).entries@.len() == old(self).entries@.len() + 1
                    &&& final(self).extends(*old(self))
                    &&& final(self).valid_type(t)
                    &&& !final(self).entry(t).iface
                    &&& final(self).entry(t).parent == parent
                    &&& final(self).entry(t).ifaces == ifaces
                    &&& final(self).entry(t).class == class
                    &&& final(self).name_of_type(t) == name@
                    &&& old(self).entry_named(name@) is None
                    &&& fundamental_named(name@) is None
                    &&& (parent == Type::BaseObject || (parent is Other
                        && old(self).valid_type(parent) && !old(self).entry(parent).iface))
                    &&& final(self).all_props(t) == old(self).all_props(parent)
                        + class.properties@
                    &&& final(self).all_signals(t) == old(self).all_signals(parent)
                        + class.signals@
                },
                Err(_) => *final(self) == *old(self),
            },
            // Success is owed: when the name is non-empty and collides with
            // nothing, the parent is an object type, every interface is a
            // registered interface, and the class data passes every check,
            // the registration is accepted.
            old(self).registration_acceptable(name@, parent, ifaces@, class) ==> r is Ok,
    {
        proof {
            lemma_find_entry_in(self.entries@, name@);
        }
        if name.unicode_len() == 0 {
            return Err(ObjectError::OperationFailed {
                message: String::from_str("type name must not be empty"),
            });
        }
        let mut i: usize = 0;
        while i < self.entries.len()
            invariant
                old(self).wf(),
                *self == *old(self),
                i <= self.entries@.len(),
                forall|k: int| 0 <= k < i ==> self.entries@[k].name@ != name@,
            decreases self.entries@.len() - i,
        {
            if str_eq(name, self.entries[i].name.as_str()) {
                proof {
                    lemma_find_entry_in(self.entries@, name@);
                }
                return Err(ObjectError::OperationFailed {
                    message: crate::strutil::concat3(
                        "type name '",
                        name,
                        "' is already registered",
                    ),
                });
            }
            i = i + 1;
        }
        // A name may not shadow a fundamental type either: lookups by name
        // must never silently alias two types.
        if fundamental_from_name(name).is_some() {
            return Err(ObjectError::OperationFailed {
                message: crate::strutil::concat3(
                    "type name '",
                    name,
                    "' collides with a fundamental type",
                ),
            });
        }
        // The parent must be the object root or a registered object type.
        match parent {
            Type::BaseObject => {},
            Type::Other(p) => {
                if p >= self.entries.len() || self.entries[p].iface {
                    return Err(ObjectError::OperationFailed {
                        message: String::from_str("parent is not an object type"),
                    });
                }
            },
            _ => {
                return Err(ObjectError::OperationFailed {
                    message: String::from_str("parent is not an object type"),
                });
            },
        }
        // Every interface must be a registered interface.
        let mut j: usize = 0;
        while j < ifaces.len()
            invariant
                old(self).wf(),
                *self == *old(self),
                j <= ifaces@.len(),
                forall|m: int|
                    0 <= m < j ==> (#[trigger] ifaces@[m]) is Other && ifaces@[m].index()
                        < self.entries@.len() && self.entries@[ifaces@[m].index()].iface,
            decreases ifaces@.len() - j,
        {
            proof {
                if old(self).registration_acceptable(name@, parent, ifaces@, class) {
                    assert((ifaces@[j as int]) is Other && ifaces@[j as int].index()
                        < old(self).entries@.len() && old(self).entries@[ifaces@[
                        j as int].index()].iface);
                }
            }
            match ifaces[j] {
                Type::Other(ix) => {
                    if ix >= self.entries.len() || !self.entries[ix].iface {
                        return Err(ObjectError::OperationFailed {
                            message: String::from_str("not an interface type"),
                        });
                    }
                },
                _ => {
                    return Err(ObjectError::OperationFailed {
                        message: String::from_str("not an interface type"),
                    });
                },
            }
            j = j + 1;
        }
        // Every signal must carry a fresh, non-empty name.
        let mut k: usize = 0;
        while k < class.signals.len()
            invariant
                old(self).wf(),
                *self == *old(self),
                k <= class.signals@.len(),
                forall|m: int| 0 <= m < k ==> self.signal_check(parent, class, m),
                forall|m1: int, m2: int|
                    0 <= m1 < m2 < k ==> (#[trigger] class.signals@[m1]).name@
                        != (#[trigger] class.signals@[m2]).name@,
            decreases class.signals@.len() - k,
        {
            proof {
                if old(self).registration_acceptable(name@, parent, ifaces@, class) {
                    assert(old(self).signal_check(parent, class, k as int));
                }
            }
            let s = &class.signals[k];
            if s.name.as_str().unicode_len() == 0 {
                return Err(ObjectError::OperationFailed {
                    message: String::from_str("signal name must not be empty"),
                });
            }
            if self.find_signal(parent, s.name.as_str()).is_some() {
                return Err(ObjectError::OperationFailed {
                    message: String::from_str("signal name is already registered on an ancestor"),
                });
            }
            let mut m: usize = 0;
            while m < k
                invariant
                    old(self).wf(),
                    *self == *old(self),
                    m <= k,
                    k < class.signals@.len(),
                    forall|m2: int| 0 <= m2 < m ==> class.signals@[m2].name@
                        != class.signals@[k as int].name@,
                decreases k - m,
            {
                if str_eq(class.signals[m].name.as_str(), class.signals[k].name.as_str()) {
                    proof {
                        if old(self).registration_acceptable(name@, parent, ifaces@, class) {
                            assert(class.signals@[m as int].name@ != class.signals@[
                                k as int].name@);
                        }
                    }
                    return Err(ObjectError::OperationFailed {
                        message: String::from_str("duplicate signal name"),
                    });
                }
                m = m + 1;
            }
            k = k + 1;
        }
        // Every property must be consistent and carry a fresh name, and its
        // hooks must name things that exist.
        let mut k: usize = 0;
        while k < class.properties.len()
            invariant
                old(self).wf(),
                *self == *old(self),
                k <= class.properties@.len(),
                forall|m: int| 0 <= m < k ==> self.prop_check(parent, class, m),
                forall|m1: int, m2: int|
                    0 <= m1 < m2 < k ==> (#[trigger] class.properties@[m1]).spec.name@
                        != (#[trigger] class.properties@[m2]).spec.name@,
            decreases class.properties@.len() - k,
        {
            proof {
                if old(self).registration_acceptable(name@, parent, ifaces@, class) {
                    assert(old(self).prop_check(parent, class, k as int));
                }
            }
            let p = &class.properties[k];
            if !p.spec.wf_check() {
                return Err(ObjectError::OperationFailed {
                    message: String::from_str("inconsistent property definition"),
                });
            }
            match &p.spec.default {
                crate::value::Value::Object(_, _) => {
                    match p.spec.value_type {
                        Type::BaseObject => {},
                        Type::Other(ix) => {
                            if ix > self.entries.len() || (ix < self.entries.len()
                                && self.entries[ix].iface) {
                                return Err(ObjectError::OperationFailed {
                                    message: String::from_str(
                                        "property value type is not an object type",
                                    ),
                                });
                            }
                        },
                        _ => {
                            return Err(ObjectError::OperationFailed {
                                message: String::from_str(
                                    "property value type is not an object type",
                                ),
                            });
                        },
                    }
                },
                _ => {},
            }
            if self.find_property(parent, p.spec.name.as_str()).is_some() {
                return Err(ObjectError::OperationFailed {
                    message: String::from_str(
                        "property name is already registered on an ancestor",
                    ),
                });
            }
            match &p.setter {
                crate::subclass::PropertySetHook::StoreAndEmit(sig) => {
                    if !self.emit_hook_ok(parent, &class, sig, p.spec.value_type) {
                        return Err(ObjectError::OperationFailed {
                            message: String::from_str(
                                "setter hook does not name a unit signal of the property's type",
                            ),
                        });
                    }
                },
                _ => {},
            }
            let mut m: usize = 0;
            while m < k
                invariant
                    old(self).wf(),
                    *self == *old(self),
                    m <= k,
                    k < class.properties@.len(),
                    forall|m2: int| 0 <= m2 < m ==> class.properties@[m2].spec.name@
                        != class.properties@[k as int].spec.name@,
                decreases k - m,
            {
                if str_eq(class.properties[m].spec.name.as_str(),
                    class.properties[k].spec.name.as_str()) {
                    proof {
                        if old(self).registration_acceptable(name@, parent, ifaces@, class) {
                            assert(class.properties@[m as int].spec.name@ != class.properties@[
                                k as int].spec.name@);
                        }
                    }
                    return Err(ObjectError::OperationFailed {
                        message: String::from_str("duplicate property name"),
                    });
                }
                m = m + 1;
            }
            k = k + 1;
        }
        // The constructed-mark must name a boolean property of the type.
        match &class.mark_constructed {
            Some(nm) => {
                if !self.mark_ok(parent, &class, nm.as_str()) {
                    return Err(ObjectError::OperationFailed {
                        message: String::from_str(
                            "the constructed mark does not name a boolean property",
                        ),
                    });
                }
            },
            None => {},
        }
        let ghost before = *self;
        self.entries.push(TypeEntry {
            name: String::from_str(name),
            parent,
            iface: false,
            ifaces,
            class,
        });
        proof {
            lemma_find_entry_in(before.entries@, name@);
            assert(self.entries@.len() == self.entries.len());
            self.lemma_register_preserves_wf(before, parent, self.entries@.last().class);
            self.lemma_all_props_extend(before, parent);
            self.lemma_all_signals_extend(before, parent);
            let t = Type::Other(before.entries@.len() as usize);
            assert(t.index() == before.entries@.len() as int);
        }
        Ok(Type::Other(self.entries.len() - 1))
    }

    /// Checks that a store-and-emit hook names a unit signal of the type
    /// being registered whose single parameter is the property's type.
    fn emit_hook_ok(&self, parent: Type, class: &ClassStruct, sig: &String, vt: Type) -> (r: bool)
        requires
            self.wf(),
        ensures
            r == (match find_signal_in(self.all_signals(parent) + class.signals@, sig@) {
                Some(m) => {
                    let s = (self.all_signals(parent) + class.signals@)[m];
                    &&& s.param_types@ == seq![vt]
                    &&& s.ret_type == Type::Unit
                },
                None => false,
            }),
    {
        proof {
            lemma_find_signal_in_concat(self.all_signals(parent), class.signals@, sig@);
        }
        match self.find_signal(parent, sig.as_str()) {
            Some(s) => {
                proof {
                    lemma_find_signal_in(self.all_signals(parent), sig@);
                }
                if s.param_types.len() == 1 && s.param_types[0] == vt && s.ret_type == Type::Unit {
                    proof {
                        assert(s.param_types@ =~= seq![vt]);
                    }
                    true
                } else {
                    false
                }
            },
            None => {
                let ghost own = class.signals@;
                proof {
                    lemma_find_signal_in(own, sig@);
                }
                let mut k: usize = 0;
                while k < class.signals.len()
                    invariant
                        k <= own.len(),
                        own == class.signals@,
                        find_signal_in(self.all_signals(parent), sig@) is None,
                        forall|m: int| 0 <= m < k ==> own[m].name@ != sig@,
                    decreases own.len() - k,
                {
                    let s = &class.signals[k];
                    if str_eq(s.name.as_str(), sig.as_str()) {
                        proof {
                            lemma_find_signal_in(own, sig@);
                            lemma_find_signal_in_concat(self.all_signals(parent), own, sig@);
                        }
                        if s.param_types.len() == 1 && s.param_types[0] == vt && s.ret_type
                            == Type::Unit {
                            proof {
                                assert(s.param_types@ =~= seq![vt]);
                            }
                            return true;
                        } else {
                            return false;
                        }
                    }
                    k = k + 1;
                }
                proof {
                    lemma_find_signal_in(own, sig@);
                }
                false
            },
        }
    }

    /// Checks that the constructed-mark names a boolean property of the
    /// type being registered.
    fn mark_ok(&self, parent: Type, class: &ClassStruct, nm: &str) -> (r: bool)
        requires
            self.wf(),
        ensures
            r == (match find_prop_in(self.all_props(parent) + class.properties@, nm@) {
                Some(m) => (self.all_props(parent) + class.properties@)[m].spec.value_type
                    == Type::Bool,
                None => false,
            }),
    {
        proof {
            lemma_find_prop_in_concat(self.all_props(parent), class.properties@, nm@);
        }
        match self.find_property(parent, nm) {
            Some((_, p)) => {
                proof {
                    lemma_find_prop_in(self.all_props(parent), nm@);
                }
                p.spec.value_type == Type::Bool
            },
            None => {
                let ghost own = class.properties@;
                let mut k: usize = 0;
                while k < class.properties.len()
                    invariant
                        k <= own.len(),
                        own == class.properties@,
                        find_prop_in(self.all_props(parent), nm@) is None,
                        forall|m: int| 0 <= m < k ==> own[m].spec.name@ != nm@,
                    decreases own.len() - k,
                {
                    let p = &class.properties[k];
                    if str_eq(p.spec.name.as_str(), nm) {
                        proof {
                            lemma_find_prop_in(own, nm@);
                            lemma_find_prop_in_concat(self.all_props(parent), own, nm@);
                        }
                        return p.spec.value_type == Type::Bool;
                    }
                    k = k + 1;
                }
                proof {
                    lemma_find_prop_in(own, nm@);
                }
                false
            },
        }
    }

    /// Every property in the full table of a well-formed type has a
    /// consistent descriptor, an object value type that names a class of
    /// the registry, and a name that occurs only once in the table.
    pub proof fn lemma_all_props_wf(self, ty: Type)
        requires
            self.wf(),
        ensures
            forall|k: int|
                0 <= k < self.all_props(ty).len() ==> (#[trigger] self.all_props(
                    ty,
                )[k]).spec.wf(),
            forall|k: int|
                0 <= k < self.all_props(ty).len() ==> ((#[trigger] self.all_props(
                    ty,
                )[k]).spec.default is Object ==> self.all_props(ty)[k].spec.value_type
                    == Type::BaseObject || (self.all_props(ty)[k].spec.value_type is Other
                    && self.all_props(ty)[k].spec.value_type.index() < self.entries@.len()
                    && !self.entries@[self.all_props(ty)[k].spec.value_type.index()].iface)),
            forall|k1: int, k2: int|
                0 <= k1 < k2 < self.all_props(ty).len() ==> (#[trigger] self.all_props(
                    ty,
                )[k1]).spec.name@ != (#[trigger] self.all_props(ty)[k2]).spec.name@,
        decreases type_rank(ty),
    {
        match ty {
            Type::Other(i) => {
                if i < self.entries@.len() {
                    assert(self.wf_entry(i as int));
                    let e = self.entries@[i as int];
                    if !(e.parent is Invalid) && type_rank(e.parent) <= i {
                        self.lemma_all_props_wf(e.parent);
                        let pp = self.all_props(e.parent);
                        let own = e.class.properties@;
                        assert(self.all_props(ty) == pp + own);
                        if !e.iface {
                            assert forall|k1: int, k2: int|
                                0 <= k1 < k2 < (pp + own).len() implies (#[trigger] (pp + own)[
                            k1]).spec.name@ != (#[trigger] (pp + own)[k2]).spec.name@ by {
                                if k1 < pp.len() && k2 >= pp.len() {
                                    lemma_find_prop_in(pp, own[k2 - pp.len()].spec.name@);
                                }
                            }
                        }
                    }
                }
            },
            _ => {},
        }
    }

    /// When `a` is `b` but not `b` itself, `a` names an entry of the
    /// registry.
    pub proof fn lemma_is_a_valid(self, a: Type, b: Type)
        requires
            self.is_a_spec(a, b),
            a != b,
        ensures
            a is Other && a.index() < self.entries@.len(),
    {
    }

    /// `is_a` is transitive over the full lineage and conformance relation.
    pub proof fn lemma_is_a_transitive(self, a: Type, b: Type, c: Type)
        requires
            self.is_a_spec(a, b),
            self.is_a_spec(b, c),
        ensures
            self.is_a_spec(a, c),
        decreases type_rank(a),
    {
        if a == b {
        } else {
            match a {
                Type::Other(i) => {
                    let e = self.entries@[i as int];
                    if !(e.parent is Invalid) && type_rank(e.parent) <= i && self.is_a_spec(
                        e.parent,
                        b,
                    ) {
                        self.lemma_is_a_transitive(e.parent, b, c);
                    } else {
                        let j = choose|j: int|
                            0 <= j < e.ifaces@.len() && type_rank(#[trigger] e.ifaces@[j]) <= i
                                && self.is_a_spec(e.ifaces@[j], b);
                        self.lemma_is_a_transitive(e.ifaces@[j], b, c);
                    }
                },
                _ => {
                },
            }
        }
    }
}

} // verus!
