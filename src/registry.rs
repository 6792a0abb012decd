//! The session's table of published classes, the directory of live instances, and the
//! listener tables, with the decisions that the engine's callbacks ask of them.
use vstd::prelude::*;
use vstd::string::StrSliceExecFns;
use std::collections::HashMap;
use crate::listeners::{ListenerTable, is_dropped, remove_first};
use crate::name_map::NameMap;
use crate::reflection::{ClassSpec, Proxy, ProxyBuilder};

verus! {

broadcast use vstd::std_specs::hash::group_hash_axioms;

/// What the engine reads back from a constructed instance: its class and its id.
pub struct InstanceTag {
    pub class_name: String,
    pub instance_id: i32,
}

/// Classes by canonical name, instances by engine object, and the listeners of both.
pub struct ProxyRegistry<H> {
    proxies: NameMap<Proxy<H>>,
    instance_ids: HashMap<usize, i32>,
    instance_classes: HashMap<i32, String>,
    listeners: ListenerTable,
}

impl<H> ProxyRegistry<H> {
    pub closed spec fn wf(&self) -> bool {
        &&& self.proxies.wf()
        &&& forall|k: Seq<char>| #[trigger] self.proxies@.contains_key(k) ==> self.proxies@[k].wf()
            && self.proxies@[k].spec_canonical_name() == k
    }

    /// The published classes, by canonical name.
    pub closed spec fn classes(&self) -> Map<Seq<char>, ClassSpec<H>> {
        Map::new(|k: Seq<char>| self.proxies@.contains_key(k), |k: Seq<char>| self.proxies@[k]@)
    }

    /// The instance id of each live engine object, by the object's address.
    pub closed spec fn instance_ids(&self) -> Map<usize, i32> {
        self.instance_ids@
    }

    /// The canonical class name of each live instance id.
    pub closed spec fn instance_classes(&self) -> Map<i32, Seq<char>> {
        self.instance_classes@.map_values(|s: String| s@)
    }

    /// The listeners for `event` on `scope` (an instance id, or `None` for the class itself) of
    /// class `class`, in registration order.
    pub closed spec fn listeners(&self, class: Seq<char>, scope: Option<i32>, event: Seq<char>) -> Seq<u64> {
        self.listeners.listeners(class, scope, event)
    }

    /// An empty registry: no classes, no instances, no listeners.
    pub fn new() -> (r: Self)
        ensures
            r.wf(),
            r.classes() == Map::<Seq<char>, ClassSpec<H>>::empty(),
            r.instance_ids() == Map::<usize, i32>::empty(),
            r.instance_classes() == Map::<i32, Seq<char>>::empty(),
            forall|c: Seq<char>, s: Option<i32>, e: Seq<char>| #[trigger] r.listeners(c, s, e) == Seq::<u64>::empty(),
    {
        let r = ProxyRegistry {
            proxies: NameMap::new(),
            instance_ids: HashMap::new(),
            instance_classes: HashMap::new(),
            listeners: ListenerTable::new(),
        };
        proof {
            assert(r.classes() =~= Map::<Seq<char>, ClassSpec<H>>::empty());
            assert(r.instance_classes() =~= Map::<i32, Seq<char>>::empty());
        }
        r
    }

    /// Publishes `proxy` under its canonical name, replacing any class published there before
    /// (whose listeners go with it).
    pub fn publish(&mut self, proxy: Proxy<H>)
        requires
            old(self).wf(),
            proxy.wf(),
        ensures
            final(self).wf(),
            final(self).classes() == old(self).classes().insert(proxy.spec_canonical_name(), proxy@),
            final(self).instance_ids() == old(self).instance_ids(),
            final(self).instance_classes() == old(self).instance_classes(),
            forall|c: Seq<char>, s: Option<i32>, e: Seq<char>| #[trigger] final(self).listeners(c, s, e) == if c
                == proxy.spec_canonical_name() {
                Seq::<u64>::empty()
            } else {
                old(self).listeners(c, s, e)
            },
    {
        let name = proxy.get_canonical_name();
        self.listeners.drop_listeners(&name, None);
        let ghost p = proxy;
        self.proxies.insert(name, proxy);
        proof {
            assert forall|k: Seq<char>| #[trigger] self.proxies@.contains_key(k) implies self.proxies@[k].wf()
                && self.proxies@[k].spec_canonical_name() == k by {
                if k != p.spec_canonical_name() {
                    assert(old(self).proxies@.contains_key(k));
                }
            }
            assert(self.classes() =~= old(self).classes().insert(p.spec_canonical_name(), p@));
            assert forall|c: Seq<char>, s: Option<i32>, e: Seq<char>| #[trigger] self.listeners(c, s, e) == if c
                == p.spec_canonical_name() {
                Seq::<u64>::empty()
            } else {
                old(self).listeners(c, s, e)
            } by {
                assert(is_dropped(c, s, p.spec_canonical_name(), None) == (c == p.spec_canonical_name()));
            }
        }
    }
}

/// The class published under `canonical_name`, if any.
pub fn get_proxy<'a, H>(registry: &'a ProxyRegistry<H>, canonical_name: &str) -> (r: Option<&'a Proxy<H>>)
    requires
        registry.wf(),
    ensures
        match r {
            Some(p) => registry.classes().contains_key(canonical_name@) && p@ == registry.classes()[canonical_name@] && p.wf()
                && p.spec_canonical_name() == canonical_name@,
            None => !registry.classes().contains_key(canonical_name@),
        },
{
    registry.proxies.get(&canonical_name.to_owned())
}

/// The class of the instance tagged `tag`, if it is still published.
pub fn get_proxy_for<'a, H>(registry: &'a ProxyRegistry<H>, tag: &InstanceTag) -> (r: Option<&'a Proxy<H>>)
    requires
        registry.wf(),
    ensures
        match r {
            Some(p) => registry.classes().contains_key(tag.class_name@) && p@ == registry.classes()[tag.class_name@] && p.wf(),
            None => !registry.classes().contains_key(tag.class_name@),
        },
{
    get_proxy(registry, tag.class_name.as_str())
}

impl<H> ProxyBuilder<H> {
    /// Publishes the class declared so far in `registry` and returns its canonical name; the
    /// builder keeps its namespace and name and has no members left.
    pub fn build(&mut self, registry: &mut ProxyRegistry<H>) -> (r: String)
        requires
            old(self).wf(),
            old(registry).wf(),
        ensures
            r@ == crate::reflection::canonical_name_of(old(self)@.namespace, old(self)@.class_name),
            final(registry).wf(),
            final(registry).classes() == old(registry).classes().insert(r@, old(self)@),
            final(registry).instance_ids() == old(registry).instance_ids(),
            final(registry).instance_classes() == old(registry).instance_classes(),
            forall|c: Seq<char>, s: Option<i32>, e: Seq<char>| #[trigger] final(registry).listeners(c, s, e) == if c == r@ {
                Seq::<u64>::empty()
            } else {
                old(registry).listeners(c, s, e)
            },
            final(self).wf(),
            final(self)@.namespace == old(self)@.namespace,
            final(self)@.class_name == old(self)@.class_name,
    {
        let proxy = self.take_proxy();
        let name = proxy.get_canonical_name();
        registry.publish(proxy);
        name
    }
}

/// What the engine's lazy-resolution hook does with a name first read on an instance.
#[derive(Debug, Clone, Copy, PartialEq, Eq, Structural)]
pub enum Resolution {
    /// Define the instance's `addEventListener` entry point.
    AddEventListener,
    /// Define the instance's `removeEventListener` entry point.
    RemoveEventListener,
    /// Define the instance's `dispatchEvent` entry point.
    DispatchEvent,
    /// Define an accessor pair for the declared property of that name.
    Property,
    /// Define a callable for the declared method of that name.
    Method,
    /// Define the raw callable declared under that name.
    NativeMethod,
    /// The name is not a member of the class: leave it to the engine.
    NotMine,
}

/// How the resolution hook answers `name` for an instance of `class`: the three event entry
/// points first, then properties, methods and raw callables.
pub open spec fn resolution_of<H>(class: ClassSpec<H>, name: Seq<char>) -> Resolution {
    if name == "addEventListener"@ {
        Resolution::AddEventListener
    } else if name == "removeEventListener"@ {
        Resolution::RemoveEventListener
    } else if name == "dispatchEvent"@ {
        Resolution::DispatchEvent
    } else if class.properties.contains_key(name) {
        Resolution::Property
    } else if class.methods.contains_key(name) {
        Resolution::Method
    } else if class.native_methods.contains_key(name) {
        Resolution::NativeMethod
    } else {
        Resolution::NotMine
    }
}

/// The member that an accessor named `callee` serves: the engine names accessors with a
/// prefix (`"get "`, `"set "`), which is stripped where present.
pub open spec fn accessor_member(callee: Seq<char>, prefix: Seq<char>) -> Seq<char> {
    if prefix.len() <= callee.len() && callee.subrange(0, prefix.len() as int) == prefix {
        callee.subrange(prefix.len() as int, callee.len() as int)
    } else {
        callee
    }
}

/// Strips `prefix` from the accessor name `callee` where it starts with it.
pub fn strip_accessor_prefix(callee: &str, prefix: &str) -> (r: String)
    ensures
        r@ == accessor_member(callee@, prefix@),
{
    let n = callee.unicode_len();
    let m = prefix.unicode_len();
    if m <= n {
        let head = callee.substring_char(0, m).to_owned();
        if head == prefix.to_owned() {
            return callee.substring_char(m, n).to_owned();
        }
    }
    callee.to_owned()
}

/// The message reported to the script when a handler fails: what kind of member, its name,
/// and the handler's own message.
pub open spec fn failure_message(kind: Seq<char>, member: Seq<char>, cause: Seq<char>) -> Seq<char> {
    kind + " "@ + member + " failed\ncaused by: "@ + cause
}

/// Builds the runtime error text for a failed getter, setter or method call.
pub fn call_failure_message(kind: &str, member: &str, cause: &str) -> (r: String)
    ensures
        r@ == failure_message(kind@, member@, cause@),
{
    let mut r = kind.to_owned();
    r.append(" ");
    r.append(member);
    r.append(" failed\ncaused by: ");
    r.append(cause);
    r
}

/// Why the construction entry point produced no object.
#[derive(Debug, PartialEq, Eq)]
pub enum ConstructError {
    /// No class is published under the callable's name, or it has no constructor.
    NoSuchClass,
    /// The constructor handler failed with this message.
    Failed(String),
}

/// Whether `class` declares `event` for `scope`: an instance id uses the instance events,
/// `None` the class events.
pub open spec fn declares<H>(class: ClassSpec<H>, scope: Option<i32>, event: Seq<char>) -> bool {
    match scope {
        Some(_) => class.events.contains(event),
        None => class.static_events.contains(event),
    }
}

/// The tag `t` as a class name and an id.
pub open spec fn tag_view(t: InstanceTag) -> (Seq<char>, i32) {
    (t.class_name@, t.instance_id)
}

impl<H> ProxyRegistry<H> {
    /// Where a getter named `callee` on the instance `(class, id)` leads: the property's getter,
    /// called with the instance's id.
    pub open spec fn spec_instance_getter(&self, class: Seq<char>, id: i32, callee: Seq<char>) -> Option<(H, i32)> {
        let name = accessor_member(callee, "get "@);
        if self.classes().contains_key(class) && self.classes()[class].properties.contains_key(name) {
            Some((self.classes()[class].properties[name].0, id))
        } else {
            None
        }
    }

    /// Where a setter named `callee` on the instance `(class, id)` leads.
    pub open spec fn spec_instance_setter(&self, class: Seq<char>, id: i32, callee: Seq<char>) -> Option<(H, i32)> {
        let name = accessor_member(callee, "set "@);
        if self.classes().contains_key(class) && self.classes()[class].properties.contains_key(name) {
            Some((self.classes()[class].properties[name].1, id))
        } else {
            None
        }
    }

    /// Where a call of the method `callee` on the instance `(class, id)` leads.
    pub open spec fn spec_instance_method(&self, class: Seq<char>, id: i32, callee: Seq<char>) -> Option<(H, i32)> {
        if self.classes().contains_key(class) && self.classes()[class].methods.contains_key(callee) {
            Some((self.classes()[class].methods[callee], id))
        } else {
            None
        }
    }

    /// Where a getter named `callee` on the class `class` itself leads.
    pub open spec fn spec_static_getter(&self, class: Seq<char>, callee: Seq<char>) -> Option<H> {
        let name = accessor_member(callee, "get "@);
        if self.classes().contains_key(class) && self.classes()[class].static_properties.contains_key(name) {
            Some(self.classes()[class].static_properties[name].0)
        } else {
            None
        }
    }

    /// Where a setter named `callee` on the class `class` itself leads.
    pub open spec fn spec_static_setter(&self, class: Seq<char>, callee: Seq<char>) -> Option<H> {
        let name = accessor_member(callee, "set "@);
        if self.classes().contains_key(class) && self.classes()[class].static_properties.contains_key(name) {
            Some(self.classes()[class].static_properties[name].1)
        } else {
            None
        }
    }

    /// Where a call of the class method `callee` on `class` leads.
    pub open spec fn spec_static_method(&self, class: Seq<char>, callee: Seq<char>) -> Option<H> {
        if self.classes().contains_key(class) && self.classes()[class].static_methods.contains_key(callee) {
            Some(self.classes()[class].static_methods[callee])
        } else {
            None
        }
    }

    /// The effect of collecting the engine object at `object`: its directory entries go, and so
    /// do the listeners of its instance; `r` names the instance whose finalizer is owed.
    pub open spec fn finalize_post(old: &Self, new: &Self, object: usize, r: Option<(Seq<char>, i32)>) -> bool {
        &&& new.classes() == old.classes()
        &&& if old.instance_ids().contains_key(object) {
            let id = old.instance_ids()[object];
            &&& new.instance_ids() == old.instance_ids().remove(object)
            &&& new.instance_classes() == old.instance_classes().remove(id)
            &&& if old.instance_classes().contains_key(id) {
                let class = old.instance_classes()[id];
                &&& r == Some((class, id))
                &&& forall|c: Seq<char>, s: Option<i32>, e: Seq<char>| #[trigger] new.listeners(c, s, e) == if c == class && s
                    == Some(id) {
                    Seq::<u64>::empty()
                } else {
                    old.listeners(c, s, e)
                }
            } else {
                &&& r is None
                &&& forall|c: Seq<char>, s: Option<i32>, e: Seq<char>| #[trigger] new.listeners(c, s, e) == old.listeners(c, s, e)
            }
        } else {
            &&& r is None
            &&& new.instance_ids() == old.instance_ids()
            &&& new.instance_classes() == old.instance_classes()
            &&& forall|c: Seq<char>, s: Option<i32>, e: Seq<char>| #[trigger] new.listeners(c, s, e) == old.listeners(c, s, e)
        }
    }

    /// `new` is `old` with `listener` appended to the listeners of `(class, scope, event)`.
    pub open spec fn listener_added(old: &Self, new: &Self, class: Seq<char>, scope: Option<i32>, event: Seq<char>, listener: u64) -> bool {
        forall|c: Seq<char>, s: Option<i32>, e: Seq<char>| #[trigger] new.listeners(c, s, e) == if c == class && s == scope && e
            == event {
            old.listeners(c, s, e).push(listener)
        } else {
            old.listeners(c, s, e)
        }
    }

    /// `new` is `old` without the oldest registration of `listener` for `(class, scope, event)`.
    pub open spec fn listener_removed(old: &Self, new: &Self, class: Seq<char>, scope: Option<i32>, event: Seq<char>, listener: u64) -> bool {
        forall|c: Seq<char>, s: Option<i32>, e: Seq<char>| #[trigger] new.listeners(c, s, e) == if c == class && s == scope && e
            == event {
            remove_first(old.listeners(c, s, e), listener)
        } else {
            old.listeners(c, s, e)
        }
    }
}


impl<H> ProxyRegistry<H> {
    /// The answer of the lazy-resolution hook for `name` read on an instance tagged with the
    /// class `class_tag`.
    pub fn resolve(&self, class_tag: &str, name: &str) -> (r: Resolution)
        requires
            self.wf(),
        ensures
            r == if self.classes().contains_key(class_tag@) {
                resolution_of(self.classes()[class_tag@], name@)
            } else {
                Resolution::NotMine
            },
    {
        match get_proxy(self, class_tag) {
            None => Resolution::NotMine,
            Some(proxy) => {
                let n = name.to_owned();
                if n == "addEventListener".to_owned() {
                    Resolution::AddEventListener
                } else if n == "removeEventListener".to_owned() {
                    Resolution::RemoveEventListener
                } else if n == "dispatchEvent".to_owned() {
                    Resolution::DispatchEvent
                } else if proxy.get_property(&n).is_some() {
                    Resolution::Property
                } else if proxy.get_method(&n).is_some() {
                    Resolution::Method
                } else if proxy.get_native_method(&n).is_some() {
                    Resolution::NativeMethod
                } else {
                    Resolution::NotMine
                }
            },
        }
    }

    /// The getter that a read through the accessor `callee_name` of the instance `this` calls, and the id it is called with.
    pub fn instance_getter(&self, this: &InstanceTag, callee_name: &str) -> (r: Option<(&H, i32)>)
        requires
            self.wf(),
        ensures
            match r {
                Some((h, id)) => self.spec_instance_getter(this.class_name@, this.instance_id, callee_name@) == Some((*h, id)),
                None => self.spec_instance_getter(this.class_name@, this.instance_id, callee_name@) is None,
            },
    {
        let name = strip_accessor_prefix(callee_name, "get ");
        match get_proxy(self, this.class_name.as_str()) {
            Some(proxy) => match proxy.get_property(&name) {
                Some(h) => Some((&h.0, this.instance_id)),
                None => None,
            },
            None => None,
        }
    }

    /// The setter that a write through the accessor `callee_name` of the instance `this` calls, and the id it is called with.
    pub fn instance_setter(&self, this: &InstanceTag, callee_name: &str) -> (r: Option<(&H, i32)>)
        requires
            self.wf(),
        ensures
            match r {
                Some((h, id)) => self.spec_instance_setter(this.class_name@, this.instance_id, callee_name@) == Some((*h, id)),
                None => self.spec_instance_setter(this.class_name@, this.instance_id, callee_name@) is None,
            },
    {
        let name = strip_accessor_prefix(callee_name, "set ");
        match get_proxy(self, this.class_name.as_str()) {
            Some(proxy) => match proxy.get_property(&name) {
                Some(h) => Some((&h.1, this.instance_id)),
                None => None,
            },
            None => None,
        }
    }

    /// The handler that a call of the method `callee_name` on the instance `this` reaches, and the id it is called with.
    pub fn instance_method(&self, this: &InstanceTag, callee_name: &str) -> (r: Option<(&H, i32)>)
        requires
            self.wf(),
        ensures
            match r {
                Some((h, id)) => self.spec_instance_method(this.class_name@, this.instance_id, callee_name@) == Some((*h, id)),
                None => self.spec_instance_method(this.class_name@, this.instance_id, callee_name@) is None,
            },
    {
        let name = callee_name.to_owned();
        match get_proxy(self, this.class_name.as_str()) {
            Some(proxy) => match proxy.get_method(&name) {
                Some(h) => Some((h, this.instance_id)),
                None => None,
            },
            None => None,
        }
    }

    /// The getter that a read through the accessor `callee_name` of the class `class_tag` calls.
    pub fn static_getter(&self, class_tag: &str, callee_name: &str) -> (r: Option<&H>)
        requires
            self.wf(),
        ensures
            match r {
                Some(h) => self.spec_static_getter(class_tag@, callee_name@) == Some(*h),
                None => self.spec_static_getter(class_tag@, callee_name@) is None,
            },
    {
        let name = strip_accessor_prefix(callee_name, "get ");
        match get_proxy(self, class_tag) {
            Some(proxy) => match proxy.get_static_property(&name) {
                Some(h) => Some(&h.0),
                None => None,
            },
            None => None,
        }
    }

    /// The setter that a write through the accessor `callee_name` of the class `class_tag` calls.
    pub fn static_setter(&self, class_tag: &str, callee_name: &str) -> (r: Option<&H>)
        requires
            self.wf(),
        ensures
            match r {
                Some(h) => self.spec_static_setter(class_tag@, callee_name@) == Some(*h),
                None => self.spec_static_setter(class_tag@, callee_name@) is None,
            },
    {
        let name = strip_accessor_prefix(callee_name, "set ");
        match get_proxy(self, class_tag) {
            Some(proxy) => match proxy.get_static_property(&name) {
                Some(h) => Some(&h.1),
                None => None,
            },
            None => None,
        }
    }

    /// The handler that a call of the class method `callee_name` on `class_tag` reaches.
    pub fn static_method(&self, class_tag: &str, callee_name: &str) -> (r: Option<&H>)
        requires
            self.wf(),
        ensures
            match r {
                Some(h) => self.spec_static_method(class_tag@, callee_name@) == Some(*h),
                None => self.spec_static_method(class_tag@, callee_name@) is None,
            },
    {
        let name = callee_name.to_owned();
        match get_proxy(self, class_tag) {
            Some(proxy) => match proxy.get_static_method(&name) {
                Some(h) => Some(h),
                None => None,
            },
            None => None,
        }
    }

    /// The constructor handler of the class whose constructor callable is tagged `class_tag`.
    pub fn begin_construct(&self, class_tag: &str) -> (r: Result<&H, ConstructError>)
        requires
            self.wf(),
        ensures
            match r {
                Ok(h) => self.classes().contains_key(class_tag@) && self.classes()[class_tag@].constructor == Some(*h),
                Err(e) => e == ConstructError::NoSuchClass && !(self.classes().contains_key(class_tag@)
                    && self.classes()[class_tag@].constructor is Some),
            },
    {
        match get_proxy(self, class_tag) {
            Some(proxy) => match proxy.constructor_handler() {
                Some(h) => Ok(h),
                None => Err(ConstructError::NoSuchClass),
            },
            None => Err(ConstructError::NoSuchClass),
        }
    }

    /// Records the outcome of a constructor handler: on `Ok(id)` the new engine object at
    /// `object` is entered in the directory as instance `id` of `class_tag` and its tag is
    /// returned; on `Err` nothing changes and the handler's message is returned.
    pub fn finish_construct(&mut self, class_tag: &str, object: usize, outcome: Result<i32, String>) -> (r: Result<InstanceTag, ConstructError>)
        requires
            old(self).wf(),
        ensures
            final(self).wf(),
            final(self).classes() == old(self).classes(),
            forall|c: Seq<char>, s: Option<i32>, e: Seq<char>| #[trigger] final(self).listeners(c, s, e) == old(self).listeners(c, s, e),
            match outcome {
                Ok(id) => {
                    &&& r matches Ok(t) && tag_view(t) == (class_tag@, id)
                    &&& final(self).instance_ids() == old(self).instance_ids().insert(object, id)
                    &&& final(self).instance_classes() == old(self).instance_classes().insert(id, class_tag@)
                },
                Err(m) => {
                    &&& r == Err::<InstanceTag, ConstructError>(ConstructError::Failed(m))
                    &&& final(self).instance_ids() == old(self).instance_ids()
                    &&& final(self).instance_classes() == old(self).instance_classes()
                },
            },
    {
        match outcome {
            Ok(id) => {
                self.instance_ids.insert(object, id);
                self.instance_classes.insert(id, class_tag.to_owned());
                proof {
                    assert(self.instance_classes() =~= old(self).instance_classes().insert(id, class_tag@));
                }
                Ok(InstanceTag { class_name: class_tag.to_owned(), instance_id: id })
            },
            Err(m) => Err(ConstructError::Failed(m)),
        }
    }

    /// Handles the engine's notice that the object at `object` was collected; returns the
    /// instance whose finalizer is now owed, once.
    pub fn finalize(&mut self, object: usize) -> (r: Option<InstanceTag>)
        requires
            old(self).wf(),
        ensures
            final(self).wf(),
            Self::finalize_post(old(self), final(self), object, match r {
                Some(t) => Some(tag_view(t)),
                None => None,
            }),
    {
        match self.instance_ids.remove(&object) {
            None => {
                assert(self.instance_ids() == old(self).instance_ids());
                assert(!old(self).instance_ids().contains_key(object));
                None
            },
            Some(id) => {
                assert(old(self).instance_ids().contains_key(object));
                assert(id == old(self).instance_ids()[object]);
                assert(self.instance_ids() == old(self).instance_ids().remove(object));
                match self.instance_classes.remove(&id) {
                    None => {
                        proof {
                            assert(self.instance_classes() =~= old(self).instance_classes().remove(id));
                        }
                        None
                    },
                    Some(class_name) => {
                        self.listeners.drop_listeners(&class_name, Some(id));
                        proof {
                            assert(self.instance_classes() =~= old(self).instance_classes().remove(id));
                            assert forall|c: Seq<char>, s: Option<i32>, e: Seq<char>| #[trigger] self.listeners(c, s, e) == if c
                                == class_name@ && s == Some(id) {
                                Seq::<u64>::empty()
                            } else {
                                old(self).listeners(c, s, e)
                            } by {
                                assert(is_dropped(c, s, class_name@, Some(id)) == (c == class_name@ && s == Some(id)));
                            }
                        }
                        Some(InstanceTag { class_name, instance_id: id })
                    },
                }
            },
        }
    }

    /// Registers `listener` for `event` on `scope` of the class `class_tag`; does nothing and
    /// returns `false` where the class is unknown or does not declare the event for that scope.
    pub fn add_event_listener(&mut self, class_tag: &str, scope: Option<i32>, event: &str, listener: u64) -> (r: bool)
        requires
            old(self).wf(),
        ensures
            final(self).wf(),
            r == (old(self).classes().contains_key(class_tag@) && declares(old(self).classes()[class_tag@], scope, event@)),
            r ==> Self::listener_added(old(self), final(self), class_tag@, scope, event@, listener),
            !r ==> forall|c: Seq<char>, s: Option<i32>, e: Seq<char>| #[trigger] final(self).listeners(c, s, e) == old(self).listeners(c, s, e),
            final(self).classes() == old(self).classes(),
            final(self).instance_ids() == old(self).instance_ids(),
            final(self).instance_classes() == old(self).instance_classes(),
    {
        let ev = event.to_owned();
        let declared = match get_proxy(self, class_tag) {
            Some(proxy) => match scope {
                Some(_) => proxy.has_event(&ev),
                None => proxy.has_static_event(&ev),
            },
            None => false,
        };
        if declared {
            self.listeners.add(&class_tag.to_owned(), scope, &ev, listener);
        }
        declared
    }

    /// Removes the oldest registration of `listener` for `event` on `scope` of `class_tag`;
    /// nothing changes where there is none.
    pub fn remove_event_listener(&mut self, class_tag: &str, scope: Option<i32>, event: &str, listener: u64)
        requires
            old(self).wf(),
        ensures
            final(self).wf(),
            Self::listener_removed(old(self), final(self), class_tag@, scope, event@, listener),
            final(self).classes() == old(self).classes(),
            final(self).instance_ids() == old(self).instance_ids(),
            final(self).instance_classes() == old(self).instance_classes(),
    {
        self.listeners.remove(&class_tag.to_owned(), scope, &event.to_owned(), listener);
    }

    /// The listeners to call, in this order, when `event` is dispatched on instance `obj_id` of
    /// `class_tag`; empty once the instance has been finalized.
    pub fn dispatch_event(&self, class_tag: &str, obj_id: i32, event: &str) -> (r: Vec<u64>)
        ensures
            r@ == self.listeners(class_tag@, Some(obj_id), event@),
    {
        self.listeners.targets(&class_tag.to_owned(), Some(obj_id), &event.to_owned())
    }

    /// The listeners to call, in this order, when `event` is dispatched on the class `class_tag`.
    pub fn dispatch_static_event(&self, class_tag: &str, event: &str) -> (r: Vec<u64>)
        ensures
            r@ == self.listeners(class_tag@, None, event@),
    {
        self.listeners.targets(&class_tag.to_owned(), None, &event.to_owned())
    }
}

proof fn lemma_remove_first_after(q: Seq<u64>, x: u64, tail: Seq<u64>)
    requires
        !q.contains(x),
    ensures
        remove_first(q + seq![x] + tail, x) == q + tail,
    decreases q.len(),
{
    if q.len() == 0 {
        assert((q + seq![x] + tail).drop_first() =~= tail);
        assert(q + tail =~= tail);
    } else {
        let rest = q.drop_first();
        assert(!rest.contains(x)) by {
            if rest.contains(x) {
                let j = choose|j: int| 0 <= j < rest.len() && rest[j] == x;
                assert(q[j + 1] == x);
            }
        }
        lemma_remove_first_after(rest, x, tail);
        assert((q + seq![x] + tail)[0] == q[0]);
        assert((q + seq![x] + tail).drop_first() =~= rest + seq![x] + tail);
        assert(seq![q[0]] + (rest + tail) =~= q + tail);
    }
}

/// Listeners run in registration order, once each: after `l1` and then `l2` are registered for
/// one event, a dispatch calls what was registered before, then `l1`, then `l2`; once `l1` is
/// removed again, a dispatch calls what was there before, then `l2` only.
pub proof fn lemma_listeners_run_in_registration_order<H>(
    r0: &ProxyRegistry<H>,
    r1: &ProxyRegistry<H>,
    r2: &ProxyRegistry<H>,
    r3: &ProxyRegistry<H>,
    class: Seq<char>,
    scope: Option<i32>,
    event: Seq<char>,
    l1: u64,
    l2: u64,
)
    requires
        ProxyRegistry::listener_added(r0, r1, class, scope, event, l1),
        ProxyRegistry::listener_added(r1, r2, class, scope, event, l2),
        ProxyRegistry::listener_removed(r2, r3, class, scope, event, l1),
        !r0.listeners(class, scope, event).contains(l1),
    ensures
        r2.listeners(class, scope, event) == r0.listeners(class, scope, event) + seq![l1, l2],
        r3.listeners(class, scope, event) == r0.listeners(class, scope, event) + seq![l2],
{
    let q = r0.listeners(class, scope, event);
    assert(r1.listeners(class, scope, event) == q.push(l1));
    assert(r2.listeners(class, scope, event) == q.push(l1).push(l2));
    assert(q.push(l1).push(l2) =~= q + seq![l1, l2]);
    lemma_remove_first_after(q, l1, seq![l2]);
    assert(q + seq![l1] + seq![l2] =~= q + seq![l1, l2]);
}

/// Collecting an instance owes its finalizer once, with its class and id, and drops every
/// listener of that instance, so that a dispatch on it afterwards calls nobody; a second notice
/// for the same object owes nothing.
pub proof fn lemma_finalized_once<H>(
    r0: &ProxyRegistry<H>,
    r1: &ProxyRegistry<H>,
    r2: &ProxyRegistry<H>,
    object: usize,
    first: Option<(Seq<char>, i32)>,
    second: Option<(Seq<char>, i32)>,
)
    requires
        r0.instance_ids().contains_key(object),
        r0.instance_classes().contains_key(r0.instance_ids()[object]),
        ProxyRegistry::finalize_post(r0, r1, object, first),
        ProxyRegistry::finalize_post(r1, r2, object, second),
    ensures
        first == Some((r0.instance_classes()[r0.instance_ids()[object]], r0.instance_ids()[object])),
        second is None,
        forall|e: Seq<char>| #[trigger] r1.listeners(r0.instance_classes()[r0.instance_ids()[object]], Some(r0.instance_ids()[object]), e)
            == Seq::<u64>::empty(),
        forall|e: Seq<char>| #[trigger] r2.listeners(r0.instance_classes()[r0.instance_ids()[object]], Some(r0.instance_ids()[object]), e)
            == Seq::<u64>::empty(),
{
    let id = r0.instance_ids()[object];
    let class = r0.instance_classes()[id];
    assert(!r1.instance_ids().contains_key(object));
    assert forall|e: Seq<char>| #[trigger] r2.listeners(class, Some(id), e) == Seq::<u64>::empty() by {
        assert(r1.listeners(class, Some(id), e) == Seq::<u64>::empty());
    }
}

/// A constructor that returned `k` makes an instance tagged `(class, k)`; through that tag every
/// declared property's getter and setter and every declared method is reached with `k`, and the
/// resolution hook defines the property on first access.
pub proof fn lemma_instance_reaches_handlers_with_its_id<H>(r: &ProxyRegistry<H>, class: Seq<char>, k: i32, name: Seq<char>)
    requires
        r.classes().contains_key(class),
    ensures
        r.classes()[class].properties.contains_key(name) ==> r.spec_instance_getter(class, k, "get "@ + name) == Some(
            (r.classes()[class].properties[name].0, k),
        ) && r.spec_instance_setter(class, k, "set "@ + name) == Some((r.classes()[class].properties[name].1, k)),
        r.classes()[class].methods.contains_key(name) ==> r.spec_instance_method(class, k, name) == Some(
            (r.classes()[class].methods[name], k),
        ),
        r.classes()[class].properties.contains_key(name) && name != "addEventListener"@ && name != "removeEventListener"@
            && name != "dispatchEvent"@ ==> resolution_of(r.classes()[class], name) == Resolution::Property,
{
    reveal_strlit("get ");
    reveal_strlit("set ");
    let g = "get "@ + name;
    let s = "set "@ + name;
    assert(g.subrange(0, 4) =~= "get "@);
    assert(g.subrange(4, g.len() as int) =~= name);
    assert(s.subrange(0, 4) =~= "set "@);
    assert(s.subrange(4, s.len() as int) =~= name);
}

/// Each class is published under its own canonical name, so looking up one name never yields
/// the class of another.
pub proof fn lemma_lookup_yields_own_class<H>(r: &ProxyRegistry<H>, a: Seq<char>, b: Seq<char>)
    requires
        r.wf(),
        r.classes().contains_key(a),
        r.classes().contains_key(b),
        a != b,
    ensures
        crate::reflection::canonical_name_of(r.classes()[a].namespace, r.classes()[a].class_name) == a,
        r.classes()[a] != r.classes()[b],
{
    assert(r.proxies@.contains_key(a));
    assert(r.proxies@.contains_key(b));
}

} // verus!
