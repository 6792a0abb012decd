//! Script-visible classes declared by the host: the builder that collects a class's members,
//! the immutable class definition it produces, and the registry that maps canonical names to
//! definitions and engine objects to instance ids.
//!
//! Member handlers are held as values of the host's own type `H` (closures, or indices into a
//! table of them); the library decides which handler a script access reaches and with which
//! instance id, and the host invokes it.
use vstd::prelude::*;
use vstd::string::StringExecFns;
use crate::name_map::{NameMap, views_of};

verus! {

/// `namespace` joined with dots.
pub open spec fn joined(namespace: Seq<Seq<char>>) -> Seq<char>
    decreases namespace.len(),
{
    if namespace.len() == 0 {
        Seq::empty()
    } else if namespace.len() == 1 {
        namespace[0]
    } else {
        joined(namespace.drop_last()) + seq!['.'] + namespace.last()
    }
}

/// The registry key of a class: its namespace joined with dots, a dot, and its name.
pub open spec fn canonical_name_of(namespace: Seq<Seq<char>>, class_name: Seq<char>) -> Seq<char> {
    joined(namespace) + seq!['.'] + class_name
}

/// Builds the canonical name of `class_name` declared under `namespace`.
pub fn canonical_name(namespace: &Vec<String>, class_name: &String) -> (r: String)
    ensures
        r@ == canonical_name_of(views_of(namespace@), class_name@),
{
    proof {
        reveal_strlit(".");
    }
    let mut r = String::new();
    let mut i: usize = 0;
    while i < namespace.len()
        invariant
            i <= namespace@.len(),
            r@ == joined(views_of(namespace@.subrange(0, i as int))),
        decreases namespace@.len() - i,
    {
        let ghost before = r@;
        if i > 0 {
            r.append(".");
        }
        r.append(namespace[i].as_str());
        proof {
            let ns = views_of(namespace@.subrange(0, i + 1));
            assert(ns.drop_last() =~= views_of(namespace@.subrange(0, i as int)));
            assert(ns.last() == namespace@[i as int]@);
            reveal_strlit(".");
            assert("."@.len() == 1);
            assert("."@ =~= seq!['.']);
            if i == 0 {
                assert(before == Seq::<char>::empty());
                assert(r@ =~= namespace@[0]@);
            } else {
                assert(ns.len() >= 2);
                assert(r@ =~= before + seq!['.'] + namespace@[i as int]@);
            }
        }
        i += 1;
    }
    proof {
        assert(namespace@.subrange(0, namespace@.len() as int) =~= namespace@);
    }
    r.append(".");
    r.append(class_name.as_str());
    r
}

/// What a class declares: where it lives, its handlers, and the names of its members.
pub struct ClassSpec<H> {
    pub namespace: Seq<Seq<char>>,
    pub class_name: Seq<char>,
    pub constructor: Option<H>,
    pub finalizer: Option<H>,
    pub properties: Map<Seq<char>, (H, H)>,
    pub methods: Map<Seq<char>, H>,
    pub native_methods: Map<Seq<char>, H>,
    pub events: Set<Seq<char>>,
    pub static_properties: Map<Seq<char>, (H, H)>,
    pub static_methods: Map<Seq<char>, H>,
    pub static_native_methods: Map<Seq<char>, H>,
    pub static_events: Set<Seq<char>>,
}

/// Collects the members of one class; `build` hands them to the registry.
pub struct ProxyBuilder<H> {
    pub namespace: Vec<String>,
    pub class_name: String,
    constructor: Option<H>,
    finalizer: Option<H>,
    properties: NameMap<(H, H)>,
    methods: NameMap<H>,
    native_methods: NameMap<H>,
    events: NameMap<()>,
    static_properties: NameMap<(H, H)>,
    static_methods: NameMap<H>,
    static_native_methods: NameMap<H>,
    static_events: NameMap<()>,
}

impl<H> View for ProxyBuilder<H> {
    type V = ClassSpec<H>;

    closed spec fn view(&self) -> ClassSpec<H> {
        ClassSpec {
            namespace: views_of(self.namespace@),
            class_name: self.class_name@,
            constructor: self.constructor,
            finalizer: self.finalizer,
            properties: self.properties@,
            methods: self.methods@,
            native_methods: self.native_methods@,
            events: self.events@.dom(),
            static_properties: self.static_properties@,
            static_methods: self.static_methods@,
            static_native_methods: self.static_native_methods@,
            static_events: self.static_events@.dom(),
        }
    }
}

impl<H> ProxyBuilder<H> {
    pub closed spec fn wf(&self) -> bool {
        &&& self.properties.wf()
        &&& self.methods.wf()
        &&& self.native_methods.wf()
        &&& self.events.wf()
        &&& self.static_properties.wf()
        &&& self.static_methods.wf()
        &&& self.static_native_methods.wf()
        &&& self.static_events.wf()
    }

    /// A builder for class `class_name` under `namespace`, with no members yet.
    pub fn new(namespace: Vec<&str>, class_name: &str) -> (r: Self)
        ensures
            r.wf(),
            r@ == (ClassSpec::<H> {
                namespace: Seq::new(namespace@.len(), |i: int| namespace@[i]@),
                class_name: class_name@,
                constructor: None,
                finalizer: None,
                properties: Map::empty(),
                methods: Map::empty(),
                native_methods: Map::empty(),
                events: Set::empty(),
                static_properties: Map::empty(),
                static_methods: Map::empty(),
                static_native_methods: Map::empty(),
                static_events: Set::empty(),
            }),
    {
        let mut ns: Vec<String> = Vec::new();
        let mut i: usize = 0;
        while i < namespace.len()
            invariant
                i <= namespace@.len(),
                views_of(ns@) == Seq::new(i as nat, |j: int| namespace@[j]@),
            decreases namespace@.len() - i,
        {
            let ghost before = ns@;
            ns.push(namespace[i].to_owned());
            proof {
                assert(views_of(before).len() == i);
                assert forall|j: int| 0 <= j < i implies #[trigger] ns@[j]@ == namespace@[j]@ by {
                    assert(ns@[j] == before[j]);
                    assert(views_of(before)[j] == before[j]@);
                }
                assert(views_of(ns@) =~= Seq::new((i + 1) as nat, |j: int| namespace@[j]@));
            }
            i += 1;
        }
        let r = ProxyBuilder {
            namespace: ns,
            class_name: class_name.to_owned(),
            constructor: None,
            finalizer: None,
            properties: NameMap::new(),
            methods: NameMap::new(),
            native_methods: NameMap::new(),
            events: NameMap::new(),
            static_properties: NameMap::new(),
            static_methods: NameMap::new(),
            static_native_methods: NameMap::new(),
            static_events: NameMap::new(),
        };
        proof {
            assert(r@.events =~= Set::<Seq<char>>::empty());
            assert(r@.static_events =~= Set::<Seq<char>>::empty());
        }
        r
    }

    /// Declares the event name `evt_type` for instances.
    pub fn event(&mut self, evt_type: &str) -> (r: &mut Self)
        requires
            old(self).wf(),
        ensures
            r.wf(),
            (*r)@ == (ClassSpec { events: old(self)@.events.insert(evt_type@), ..old(self)@ }),
            *final(self) == *final(r),
    {
        self.events.insert(evt_type.to_owned(), ());
        proof {
            assert(self@.events =~= old(self)@.events.insert(evt_type@));
        }
        self
    }

    /// Sets the handler that creates instances; it yields the new instance's id.
    pub fn constructor(&mut self, constructor: H) -> (r: &mut Self)
        requires
            old(self).wf(),
        ensures
            r.wf(),
            (*r)@ == (ClassSpec { constructor: Some(constructor), ..old(self)@ }),
            *final(self) == *final(r),
    {
        self.constructor = Some(constructor);
        self
    }

    /// Sets the handler called with an instance's id once the engine has collected it.
    pub fn finalizer(&mut self, finalizer: H) -> (r: &mut Self)
        requires
            old(self).wf(),
        ensures
            r.wf(),
            (*r)@ == (ClassSpec { finalizer: Some(finalizer), ..old(self)@ }),
            *final(self) == *final(r),
    {
        self.finalizer = Some(finalizer);
        self
    }

    /// Declares the instance property `name` with its getter and setter.
    pub fn property(&mut self, name: &str, getter: H, setter: H) -> (r: &mut Self)
        requires
            old(self).wf(),
        ensures
            r.wf(),
            (*r)@ == (ClassSpec { properties: old(self)@.properties.insert(name@, (getter, setter)), ..old(self)@ }),
            *final(self) == *final(r),
    {
        self.properties.insert(name.to_owned(), (getter, setter));
        proof {
            assert(self@.properties =~= old(self)@.properties.insert(name@, (getter, setter)));
        }
        self
    }

    /// Declares the class property `name` with its getter and setter.
    pub fn static_property(&mut self, name: &str, getter: H, setter: H) -> (r: &mut Self)
        requires
            old(self).wf(),
        ensures
            r.wf(),
            (*r)@ == (ClassSpec { static_properties: old(self)@.static_properties.insert(name@, (getter, setter)), ..old(self)@ }),
            *final(self) == *final(r),
    {
        self.static_properties.insert(name.to_owned(), (getter, setter));
        proof {
            assert(self@.static_properties =~= old(self)@.static_properties.insert(name@, (getter, setter)));
        }
        self
    }

    /// Declares the instance method `name`.
    pub fn method(&mut self, name: &str, method: H) -> (r: &mut Self)
        requires
            old(self).wf(),
        ensures
            r.wf(),
            (*r)@ == (ClassSpec { methods: old(self)@.methods.insert(name@, method), ..old(self)@ }),
            *final(self) == *final(r),
    {
        self.methods.insert(name.to_owned(), method);
        proof {
            assert(self@.methods =~= old(self)@.methods.insert(name@, method));
        }
        self
    }

    /// Declares the instance method `name` backed by a raw engine callable.
    pub fn native_method(&mut self, name: &str, method: H) -> (r: &mut Self)
        requires
            old(self).wf(),
        ensures
            r.wf(),
            (*r)@ == (ClassSpec { native_methods: old(self)@.native_methods.insert(name@, method), ..old(self)@ }),
            *final(self) == *final(r),
    {
        self.native_methods.insert(name.to_owned(), method);
        proof {
            assert(self@.native_methods =~= old(self)@.native_methods.insert(name@, method));
        }
        self
    }

    /// Declares the class method `name`.
    pub fn static_method(&mut self, name: &str, method: H) -> (r: &mut Self)
        requires
            old(self).wf(),
        ensures
            r.wf(),
            (*r)@ == (ClassSpec { static_methods: old(self)@.static_methods.insert(name@, method), ..old(self)@ }),
            *final(self) == *final(r),
    {
        self.static_methods.insert(name.to_owned(), method);
        proof {
            assert(self@.static_methods =~= old(self)@.static_methods.insert(name@, method));
        }
        self
    }

    /// Declares the class method `name` backed by a raw engine callable.
    pub fn static_native_method(&mut self, name: &str, method: H) -> (r: &mut Self)
        requires
            old(self).wf(),
        ensures
            r.wf(),
            (*r)@ == (ClassSpec { static_native_methods: old(self)@.static_native_methods.insert(name@, method), ..old(self)@ }),
            *final(self) == *final(r),
    {
        self.static_native_methods.insert(name.to_owned(), method);
        proof {
            assert(self@.static_native_methods =~= old(self)@.static_native_methods.insert(name@, method));
        }
        self
    }

    /// Declares the event name `evt_type` for the class itself.
    pub fn static_event(&mut self, evt_type: &str) -> (r: &mut Self)
        requires
            old(self).wf(),
        ensures
            r.wf(),
            (*r)@ == (ClassSpec { static_events: old(self)@.static_events.insert(evt_type@), ..old(self)@ }),
            *final(self) == *final(r),
    {
        self.static_events.insert(evt_type.to_owned(), ());
        proof {
            assert(self@.static_events =~= old(self)@.static_events.insert(evt_type@));
        }
        self
    }
}

/// A published class: immutable once it is in the registry.
pub struct Proxy<H> {
    pub namespace: Vec<String>,
    pub class_name: String,
    canonical_name: String,
    constructor: Option<H>,
    finalizer: Option<H>,
    properties: NameMap<(H, H)>,
    methods: NameMap<H>,
    native_methods: NameMap<H>,
    events: NameMap<()>,
    static_properties: NameMap<(H, H)>,
    static_methods: NameMap<H>,
    static_native_methods: NameMap<H>,
    static_events: NameMap<()>,
}

impl<H> View for Proxy<H> {
    type V = ClassSpec<H>;

    closed spec fn view(&self) -> ClassSpec<H> {
        ClassSpec {
            namespace: views_of(self.namespace@),
            class_name: self.class_name@,
            constructor: self.constructor,
            finalizer: self.finalizer,
            properties: self.properties@,
            methods: self.methods@,
            native_methods: self.native_methods@,
            events: self.events@.dom(),
            static_properties: self.static_properties@,
            static_methods: self.static_methods@,
            static_native_methods: self.static_native_methods@,
            static_events: self.static_events@.dom(),
        }
    }
}

/// One thing that building a class defines on its constructor callable.
#[derive(Debug, PartialEq, Eq)]
pub enum StaticMember {
    /// An accessor pair for the class property of this name.
    Accessor(String),
    /// A callable for the class method of this name.
    Method(String),
    /// The raw engine callable declared under this name.
    NativeMethod(String),
    AddEventListener,
    RemoveEventListener,
    DispatchEvent,
}

/// The view of a static member: its kind and, where it has one, its name.
pub open spec fn static_member_view(m: StaticMember) -> (int, Seq<char>) {
    match m {
        StaticMember::Accessor(n) => (0, n@),
        StaticMember::Method(n) => (1, n@),
        StaticMember::NativeMethod(n) => (2, n@),
        StaticMember::AddEventListener => (3, Seq::empty()),
        StaticMember::RemoveEventListener => (4, Seq::empty()),
        StaticMember::DispatchEvent => (5, Seq::empty()),
    }
}

/// `names` tagged with the kind `kind`.
pub open spec fn tagged(kind: int, names: Seq<Seq<char>>) -> Seq<(int, Seq<char>)> {
    Seq::new(names.len(), |i: int| (kind, names[i]))
}

fn push_tagged(out: &mut Vec<StaticMember>, names: Vec<String>, kind: u8)
    requires
        kind <= 2,
    ensures
        Seq::new(final(out)@.len(), |i: int| static_member_view(final(out)@[i])) == Seq::new(
            old(out)@.len(),
            |i: int| static_member_view(old(out)@[i]),
        ) + tagged(kind as int, views_of(names@)),
{
    let mut i: usize = 0;
    let ghost start = old(out)@;
    while i < names.len()
        invariant
            kind <= 2,
            i <= names@.len(),
            out@.len() == start.len() + i,
            forall|j: int| 0 <= j < start.len() ==> #[trigger] out@[j] == start[j],
            forall|j: int| 0 <= j < i ==> #[trigger] static_member_view(out@[start.len() + j]) == (kind as int, names@[j]@),
        decreases names@.len() - i,
    {
        let n = names[i].clone();
        if kind == 0 {
            out.push(StaticMember::Accessor(n));
        } else if kind == 1 {
            out.push(StaticMember::Method(n));
        } else {
            out.push(StaticMember::NativeMethod(n));
        }
        i += 1;
    }
    proof {
        let lhs = Seq::new(out@.len(), |i: int| static_member_view(out@[i]));
        let rhs = Seq::new(start.len(), |i: int| static_member_view(start[i])) + tagged(kind as int, views_of(names@));
        assert forall|j: int| 0 <= j < lhs.len() implies lhs[j] == rhs[j] by {
            if j >= start.len() {
                assert(static_member_view(out@[start.len() + (j - start.len())]) == (kind as int, names@[j - start.len()]@));
            }
        }
        assert(lhs =~= rhs);
    }
}

impl<H> Proxy<H> {
    pub closed spec fn wf(&self) -> bool {
        &&& self.canonical_name@ == canonical_name_of(views_of(self.namespace@), self.class_name@)
        &&& self.properties.wf()
        &&& self.methods.wf()
        &&& self.native_methods.wf()
        &&& self.events.wf()
        &&& self.static_properties.wf()
        &&& self.static_methods.wf()
        &&& self.static_native_methods.wf()
        &&& self.static_events.wf()
    }

    /// The registry key of this class.
    pub open spec fn spec_canonical_name(&self) -> Seq<char> {
        canonical_name_of(self@.namespace, self@.class_name)
    }

    /// What building the class defines on its constructor callable, in this order: an accessor
    /// per class property, a callable per class method and per raw class callable, each group in
    /// declaration order, then the three event entry points.
    pub closed spec fn spec_static_members(&self) -> Seq<(int, Seq<char>)> {
        tagged(0, self.static_properties.names()) + tagged(1, self.static_methods.names()) + tagged(
            2,
            self.static_native_methods.names(),
        ) + seq![(3, Seq::<char>::empty()), (4, Seq::<char>::empty()), (5, Seq::<char>::empty())]
    }

    /// Every class property, class method and raw class callable appears among the static members.
    pub proof fn lemma_static_members_cover(&self)
        requires
            self.wf(),
        ensures
            forall|n: Seq<char>| #[trigger] self@.static_properties.contains_key(n) ==> self.spec_static_members().contains((0, n)),
            forall|n: Seq<char>| #[trigger] self@.static_methods.contains_key(n) ==> self.spec_static_members().contains((1, n)),
            forall|n: Seq<char>| #[trigger] self@.static_native_methods.contains_key(n) ==> self.spec_static_members().contains((2, n)),
    {
        self.static_properties.lemma_names_are_keys();
        self.static_methods.lemma_names_are_keys();
        self.static_native_methods.lemma_names_are_keys();
        let a = tagged(0, self.static_properties.names());
        let b = tagged(1, self.static_methods.names());
        let c = tagged(2, self.static_native_methods.names());
        let tail = seq![(3, Seq::<char>::empty()), (4, Seq::<char>::empty()), (5, Seq::<char>::empty())];
        let all = self.spec_static_members();
        assert(all == a + b + c + tail);
        assert forall|n: Seq<char>| #[trigger] self@.static_properties.contains_key(n) implies all.contains((0, n)) by {
            let j = choose|j: int| 0 <= j < self.static_properties.names().len() && self.static_properties.names()[j] == n;
            assert(all[j] == (0int, n));
        }
        assert forall|n: Seq<char>| #[trigger] self@.static_methods.contains_key(n) implies all.contains((1, n)) by {
            let j = choose|j: int| 0 <= j < self.static_methods.names().len() && self.static_methods.names()[j] == n;
            assert(all[a.len() + j] == (1int, n));
        }
        assert forall|n: Seq<char>| #[trigger] self@.static_native_methods.contains_key(n) implies all.contains((2, n)) by {
            let j = choose|j: int| 0 <= j < self.static_native_methods.names().len() && self.static_native_methods.names()[j] == n;
            assert(all[a.len() + b.len() + j] == (2int, n));
        }
    }

    pub fn get_canonical_name(&self) -> (r: String)
        requires
            self.wf(),
        ensures
            r@ == self.spec_canonical_name(),
    {
        self.canonical_name.clone()
    }

    /// The members to define on the class's constructor callable when it is built.
    pub fn static_members(&self) -> (r: Vec<StaticMember>)
        requires
            self.wf(),
        ensures
            Seq::new(r@.len(), |i: int| static_member_view(r@[i])) == self.spec_static_members(),
    {
        let mut r: Vec<StaticMember> = Vec::new();
        push_tagged(&mut r, self.static_properties.names_in_order(), 0);
        push_tagged(&mut r, self.static_methods.names_in_order(), 1);
        push_tagged(&mut r, self.static_native_methods.names_in_order(), 2);
        let ghost before = r@;
        r.push(StaticMember::AddEventListener);
        r.push(StaticMember::RemoveEventListener);
        r.push(StaticMember::DispatchEvent);
        proof {
            let lhs = Seq::new(r@.len(), |i: int| static_member_view(r@[i]));
            let prev = Seq::new(before.len(), |i: int| static_member_view(before[i]));
            assert(lhs =~= prev + seq![(3, Seq::<char>::empty()), (4, Seq::<char>::empty()), (5, Seq::<char>::empty())]);
            assert(Seq::new(0, |i: int| static_member_view(Seq::<StaticMember>::empty()[i])) + tagged(0, self.static_properties.names())
                =~= tagged(0, self.static_properties.names()));
        }
        r
    }

    /// The handler that creates instances, if the class has one.
    pub fn constructor_handler(&self) -> (r: Option<&H>)
        ensures
            match r {
                Some(h) => self@.constructor == Some(*h),
                None => self@.constructor is None,
            },
    {
        match &self.constructor {
            Some(h) => Some(h),
            None => None,
        }
    }

    /// The handler called when an instance is collected, if the class has one.
    pub fn finalizer_handler(&self) -> (r: Option<&H>)
        ensures
            match r {
                Some(h) => self@.finalizer == Some(*h),
                None => self@.finalizer is None,
            },
    {
        match &self.finalizer {
            Some(h) => Some(h),
            None => None,
        }
    }

    /// The getter and setter of the instance property `name`.
    pub fn get_property(&self, name: &String) -> (r: Option<&(H, H)>)
        requires
            self.wf(),
        ensures
            match r {
                Some(h) => self@.properties.contains_key(name@) && *h == self@.properties[name@],
                None => !self@.properties.contains_key(name@),
            },
    {
        self.properties.get(name)
    }

    /// The handler of the instance method `name`.
    pub fn get_method(&self, name: &String) -> (r: Option<&H>)
        requires
            self.wf(),
        ensures
            match r {
                Some(h) => self@.methods.contains_key(name@) && *h == self@.methods[name@],
                None => !self@.methods.contains_key(name@),
            },
    {
        self.methods.get(name)
    }

    /// The raw callable declared as instance method `name`.
    pub fn get_native_method(&self, name: &String) -> (r: Option<&H>)
        requires
            self.wf(),
        ensures
            match r {
                Some(h) => self@.native_methods.contains_key(name@) && *h == self@.native_methods[name@],
                None => !self@.native_methods.contains_key(name@),
            },
    {
        self.native_methods.get(name)
    }

    /// The getter and setter of the class property `name`.
    pub fn get_static_property(&self, name: &String) -> (r: Option<&(H, H)>)
        requires
            self.wf(),
        ensures
            match r {
                Some(h) => self@.static_properties.contains_key(name@) && *h == self@.static_properties[name@],
                None => !self@.static_properties.contains_key(name@),
            },
    {
        self.static_properties.get(name)
    }

    /// The handler of the class method `name`.
    pub fn get_static_method(&self, name: &String) -> (r: Option<&H>)
        requires
            self.wf(),
        ensures
            match r {
                Some(h) => self@.static_methods.contains_key(name@) && *h == self@.static_methods[name@],
                None => !self@.static_methods.contains_key(name@),
            },
    {
        self.static_methods.get(name)
    }

    /// The raw callable declared as class method `name`.
    pub fn get_static_native_method(&self, name: &String) -> (r: Option<&H>)
        requires
            self.wf(),
        ensures
            match r {
                Some(h) => self@.static_native_methods.contains_key(name@) && *h == self@.static_native_methods[name@],
                None => !self@.static_native_methods.contains_key(name@),
            },
    {
        self.static_native_methods.get(name)
    }

    /// Whether instances declare the event `name`.
    pub fn has_event(&self, name: &String) -> (r: bool)
        requires
            self.wf(),
        ensures
            r == self@.events.contains(name@),
    {
        self.events.contains_key(name)
    }

    /// Whether the class itself declares the event `name`.
    pub fn has_static_event(&self, name: &String) -> (r: bool)
        requires
            self.wf(),
        ensures
            r == self@.static_events.contains(name@),
    {
        self.static_events.contains_key(name)
    }
}

impl<H> ProxyBuilder<H> {
    /// Moves everything declared so far into a class definition, leaving this builder with the
    /// same namespace and name and no members.
    pub fn take_proxy(&mut self) -> (r: Proxy<H>)
        requires
            old(self).wf(),
        ensures
            r.wf(),
            r@ == old(self)@,
            final(self).wf(),
            final(self)@ == (ClassSpec::<H> {
                namespace: old(self)@.namespace,
                class_name: old(self)@.class_name,
                constructor: None,
                finalizer: None,
                properties: Map::empty(),
                methods: Map::empty(),
                native_methods: Map::empty(),
                events: Set::empty(),
                static_properties: Map::empty(),
                static_methods: Map::empty(),
                static_native_methods: Map::empty(),
                static_events: Set::empty(),
            }),
    {
        let mut constructor = None;
        std::mem::swap(&mut constructor, &mut self.constructor);
        let mut finalizer = None;
        std::mem::swap(&mut finalizer, &mut self.finalizer);
        let mut properties = NameMap::new();
        std::mem::swap(&mut properties, &mut self.properties);
        let mut methods = NameMap::new();
        std::mem::swap(&mut methods, &mut self.methods);
        let mut native_methods = NameMap::new();
        std::mem::swap(&mut native_methods, &mut self.native_methods);
        let mut events = NameMap::new();
        std::mem::swap(&mut events, &mut self.events);
        let mut static_properties = NameMap::new();
        std::mem::swap(&mut static_properties, &mut self.static_properties);
        let mut static_methods = NameMap::new();
        std::mem::swap(&mut static_methods, &mut self.static_methods);
        let mut static_native_methods = NameMap::new();
        std::mem::swap(&mut static_native_methods, &mut self.static_native_methods);
        let mut static_events = NameMap::new();
        std::mem::swap(&mut static_events, &mut self.static_events);
        let canonical = canonical_name(&self.namespace, &self.class_name);
        let namespace = clone_names(&self.namespace);
        proof {
            assert(self@.events =~= Set::<Seq<char>>::empty());
            assert(self@.static_events =~= Set::<Seq<char>>::empty());
        }
        Proxy {
            namespace,
            class_name: self.class_name.clone(),
            canonical_name: canonical,
            constructor,
            finalizer,
            properties,
            methods,
            native_methods,
            events,
            static_properties,
            static_methods,
            static_native_methods,
            static_events,
        }
    }
}

fn clone_names(names: &Vec<String>) -> (r: Vec<String>)
    ensures
        views_of(r@) == views_of(names@),
{
    let mut r: Vec<String> = Vec::new();
    let mut i: usize = 0;
    while i < names.len()
        invariant
            i <= names@.len(),
            views_of(r@) == views_of(names@.subrange(0, i as int)),
        decreases names@.len() - i,
    {
        let ghost before = r@;
        r.push(names[i].clone());
        proof {
            assert(views_of(before).len() == i);
            assert forall|j: int| 0 <= j < i implies #[trigger] r@[j]@ == names@[j]@ by {
                assert(r@[j] == before[j]);
                assert(views_of(before)[j] == before[j]@);
                assert(views_of(names@.subrange(0, i as int))[j] == names@[j]@);
            }
            assert(views_of(r@) =~= views_of(names@.subrange(0, i + 1)));
        }
        i += 1;
    }
    proof {
        assert(names@.subrange(0, names@.len() as int) =~= names@);
    }
    r
}

} // verus!
