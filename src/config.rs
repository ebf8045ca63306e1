use vstd::prelude::*;

use crate::ident::same_text;
use crate::job::{BlackholeSpec, ResourcesView};

verus! {

/// One object of the watched kind, as a watch reports it.
pub struct WatchedObject {
    pub name: String,
    pub namespace: String,
    pub spec: BlackholeSpec,
}

/// A change that the watch of the configuration resources reports.
pub enum ConfigEvent {
    /// An object was created or updated.
    Applied(WatchedObject),
    /// An object was deleted.
    Deleted { name: String, namespace: String },
    /// The watch was established again; these are all the objects that exist.
    Relisted(Vec<WatchedObject>),
}

/// The latest observed spec of one named configuration resource, absent
/// until the resource is first seen.
pub struct ConfigCache {
    name: String,
    namespace: String,
    snapshot: Option<BlackholeSpec>,
}

pub open spec fn snapshot_view(s: Option<BlackholeSpec>) -> Option<Option<ResourcesView>> {
    match s {
        Some(c) => Some(c@),
        None => None,
    }
}

/// The spec of the last object in `objects` that is the named one, if any.
pub open spec fn last_match(
    objects: Seq<WatchedObject>,
    name: Seq<char>,
    namespace: Seq<char>,
) -> Option<Option<ResourcesView>>
    decreases objects.len(),
{
    if objects.len() == 0 {
        None
    } else if objects.last().name@ == name && objects.last().namespace@ == namespace {
        Some(objects.last().spec@)
    } else {
        last_match(objects.drop_last(), name, namespace)
    }
}

/// The snapshot after an event: an event on another object leaves it as it was.
pub open spec fn after_event(
    current: Option<Option<ResourcesView>>,
    name: Seq<char>,
    namespace: Seq<char>,
    ev: ConfigEvent,
) -> Option<Option<ResourcesView>> {
    match ev {
        ConfigEvent::Applied(o) => if o.name@ == name && o.namespace@ == namespace {
            Some(o.spec@)
        } else {
            current
        },
        ConfigEvent::Deleted { name: n, namespace: ns } => if n@ == name && ns@ == namespace {
            None
        } else {
            current
        },
        ConfigEvent::Relisted(objects) => last_match(objects@, name, namespace),
    }
}

impl ConfigCache {
    /// The name of the watched resource.
    pub closed spec fn target_name(&self) -> Seq<char> {
        self.name@
    }

    /// The namespace of the watched resource.
    pub closed spec fn target_namespace(&self) -> Seq<char> {
        self.namespace@
    }

    /// The latest observed spec, None before the resource is seen.
    pub closed spec fn current(&self) -> Option<Option<ResourcesView>> {
        snapshot_view(self.snapshot)
    }

    /// A cache for the resource `name` in `namespace`, with nothing observed yet.
    pub fn new(name: &str, namespace: &str) -> (r: ConfigCache)
        ensures
            r.target_name() == name@,
            r.target_namespace() == namespace@,
            r.current() is None,
    {
        ConfigCache {
            name: String::from_str(name),
            namespace: String::from_str(namespace),
            snapshot: None,
        }
    }

    /// A copy of the latest observed spec.
    pub fn get(&self) -> (r: Option<BlackholeSpec>)
        ensures
            snapshot_view(r) == self.current(),
    {
        match &self.snapshot {
            Some(c) => Some(c.duplicate()),
            None => None,
        }
    }

    fn is_target(&self, name: &String, namespace: &String) -> (r: bool)
        ensures
            r == (name@ == self.name@ && namespace@ == self.namespace@),
    {
        same_text(name.as_str(), self.name.as_str()) && same_text(
            namespace.as_str(),
            self.namespace.as_str(),
        )
    }

    /// Applies one event of the watch, replacing the snapshot wholesale.
    pub fn apply(&mut self, ev: ConfigEvent)
        ensures
            final(self).target_name() == old(self).target_name(),
            final(self).target_namespace() == old(self).target_namespace(),
            final(self).current() == after_event(
                old(self).current(),
                old(self).target_name(),
                old(self).target_namespace(),
                ev,
            ),
    {
        match ev {
            ConfigEvent::Applied(o) => {
                if self.is_target(&o.name, &o.namespace) {
                    self.snapshot = Some(o.spec);
                }
            },
            ConfigEvent::Deleted { name, namespace } => {
                if self.is_target(&name, &namespace) {
                    self.snapshot = None;
                }
            },
            ConfigEvent::Relisted(objects) => {
                let mut found: Option<BlackholeSpec> = None;
                let mut i: usize = 0;
                while i < objects.len()
                    invariant
                        i <= objects@.len(),
                        snapshot_view(found) == last_match(
                            objects@.subrange(0, i as int),
                            self.name@,
                            self.namespace@,
                        ),
                    decreases objects@.len() - i,
                {
                    let ghost next = objects@.subrange(0, i + 1);
                    assert(next.drop_last() =~= objects@.subrange(0, i as int));
                    assert(next.last() == objects@[i as int]);
                    if self.is_target(&objects[i].name, &objects[i].namespace) {
                        found = Some(objects[i].spec.duplicate());
                    }
                    i = i + 1;
                }
                assert(objects@.subrange(0, objects@.len() as int) =~= objects@);
                self.snapshot = found;
            },
        }
    }
}

} // verus!
