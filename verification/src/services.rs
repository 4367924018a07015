//! The services found so far, each with the public URL it is reached at.

use vstd::prelude::*;

verus! {

/// A service together with the public URL of its tunnel.
#[derive(Clone, Debug, PartialEq, Eq)]
pub struct DiscoveredService {
    pub name: String,
    pub public_url: String,
}

/// A discovered service as mathematics sees it.
pub struct ServiceView {
    pub name: Seq<char>,
    pub public_url: Seq<char>,
}

impl View for DiscoveredService {
    type V = ServiceView;

    open spec fn view(&self) -> ServiceView {
        ServiceView { name: self.name@, public_url: self.public_url@ }
    }
}

/// The mapping from service name to public URL, with the order in which the
/// names were first seen.
pub struct Services {
    pub urls: Map<Seq<char>, Seq<char>>,
    pub order: Seq<Seq<char>>,
}

impl Services {
    /// No service at all.
    pub open spec fn empty() -> Services {
        Services { urls: Map::empty(), order: Seq::empty() }
    }

    /// The mapping with `name` bound to `public_url`. A name that is new goes
    /// to the end of the order; a known name keeps its place.
    pub open spec fn insert(self, name: Seq<char>, public_url: Seq<char>) -> Services {
        Services {
            urls: self.urls.insert(name, public_url),
            order: if self.urls.contains_key(name) {
                self.order
            } else {
                self.order.push(name)
            },
        }
    }

    /// The order lists each bound name once, and nothing else.
    pub open spec fn wf(self) -> bool {
        &&& self.order.no_duplicates()
        &&& forall|name: Seq<char>| self.urls.contains_key(name) <==> self.order.contains(name)
    }
}

/// The rows as mathematics sees them.
pub open spec fn entries_view(entries: Seq<DiscoveredService>) -> Seq<ServiceView> {
    entries.map_values(|entry: DiscoveredService| entry@)
}

/// No two entries share a name.
pub open spec fn distinct_names(entries: Seq<ServiceView>) -> bool {
    forall|i: int, j: int|
        0 <= i < j < entries.len() ==> (#[trigger] entries[i]).name != (#[trigger] entries[j]).name
}

/// Whether some entry is named `name`.
pub open spec fn names(entries: Seq<ServiceView>, name: Seq<char>) -> bool {
    exists|i: int| 0 <= i < entries.len() && (#[trigger] entries[i]).name == name
}

/// An entry that is named `name`.
pub open spec fn entry_named(entries: Seq<ServiceView>, name: Seq<char>) -> int {
    choose|i: int| 0 <= i < entries.len() && (#[trigger] entries[i]).name == name
}

/// The mapping that a list of entries with distinct names stands for.
pub open spec fn services_of(entries: Seq<ServiceView>) -> Services {
    Services {
        urls: Map::new(
            |name: Seq<char>| names(entries, name),
            |name: Seq<char>| entries[entry_named(entries, name)].public_url,
        ),
        order: entries.map_values(|entry: ServiceView| entry.name),
    }
}

/// The discovered services: at most one public URL for each name.
#[derive(Debug)]
pub struct ServiceMap {
    entries: Vec<DiscoveredService>,
}

impl View for ServiceMap {
    type V = Services;

    closed spec fn view(&self) -> Services {
        services_of(entries_view(self.entries@))
    }
}

/// Binding a name keeps a mapping well formed.
pub proof fn lemma_insert_wf(services: Services, name: Seq<char>, public_url: Seq<char>)
    requires
        services.wf(),
    ensures
        services.insert(name, public_url).wf(),
{
    let after = services.insert(name, public_url);
    if services.urls.contains_key(name) {
        assert(after.order == services.order);
    } else {
        assert(!services.order.contains(name));
        assert forall|i: int, j: int| 0 <= i < after.order.len() && 0 <= j < after.order.len() && i
            != j implies after.order[i] != after.order[j] by {
            if i < services.order.len() {
                assert(services.order.contains(services.order[i]));
            }
            if j < services.order.len() {
                assert(services.order.contains(services.order[j]));
            }
        }
        assert forall|other: Seq<char>| after.urls.contains_key(other) <==> after.order.contains(
            other,
        ) by {
            if after.order.contains(other) {
                let i = choose|i: int| 0 <= i < after.order.len() && after.order[i] == other;
                if i < services.order.len() {
                    assert(services.order.contains(other));
                }
            }
            if services.order.contains(other) {
                let i = choose|i: int| 0 <= i < services.order.len() && services.order[i] == other;
                assert(after.order[i] == other);
            }
            if other == name {
                assert(after.order[services.order.len() as int] == name);
            }
        }
    }
}

impl ServiceMap {
    #[verifier::type_invariant]
    spec fn inv(self) -> bool {
        distinct_names(entries_view(self.entries@))
    }

    /// The empty mapping.
    pub fn new() -> (made: ServiceMap)
        ensures
            made@ == Services::empty(),
            made@.wf(),
    {
        let made = ServiceMap { entries: Vec::new() };
        assert(made@.urls =~= Map::empty());
        assert(made@.order =~= Seq::empty());
        made
    }

    /// Number of services.
    pub fn len(&self) -> (n: usize)
        ensures
            n == self@.order.len(),
    {
        self.entries.len()
    }

    /// The service at `index` of the order.
    pub fn service(&self, index: usize) -> (entry: &DiscoveredService)
        requires
            index < self@.order.len(),
        ensures
            entry@.name == self@.order[index as int],
            self@.urls.contains_key(entry@.name),
            entry@.public_url == self@.urls[entry@.name],
    {
        proof {
            use_type_invariant(self);
            let entries = entries_view(self.entries@);
            assert(entries[index as int] == self.entries@[index as int]@);
            let at = entry_named(entries, entries[index as int].name);
            assert(at == index);
        }
        &self.entries[index]
    }

    /// The public URL bound to `name`.
    pub fn get(&self, name: &str) -> (found: Option<&str>)
        ensures
            found is Some <==> self@.urls.contains_key(name@),
            found matches Some(url) ==> url@ == self@.urls[name@],
    {
        proof {
            use_type_invariant(self);
        }
        let at: usize = position(&self.entries, name);
        if at < self.entries.len() {
            proof {
                let entries = entries_view(self.entries@);
                assert(entries[at as int] == self.entries@[at as int]@);
                assert(entry_named(entries, name@) == at);
            }
            Some(self.entries[at].public_url.as_str())
        } else {
            None
        }
    }

    /// Binds `name` to `public_url`, in place of what it was bound to.
    pub fn insert(&mut self, name: String, public_url: String)
        ensures
            final(self)@ == old(self)@.insert(name@, public_url@),
            final(self)@.wf(),
    {
        proof {
            use_type_invariant(&*self);
        }
        let ghost before = entries_view(self.entries@);
        let ghost fresh = ServiceView { name: name@, public_url: public_url@ };
        let mut entries: Vec<DiscoveredService> = Vec::new();
        assert(entries_view(entries@) =~= Seq::empty());
        core::mem::swap(&mut self.entries, &mut entries);
        let at: usize = position(&entries, name.as_str());
        if at < entries.len() {
            entries.set(at, DiscoveredService { name, public_url });
            proof {
                assert(entries_view(entries@) =~= before.update(at as int, fresh));
                lemma_overwrite(before, at as int, fresh);
            }
        } else {
            entries.push(DiscoveredService { name, public_url });
            proof {
                assert(entries_view(entries@) =~= before.push(fresh));
                lemma_append(before, fresh);
            }
        }
        proof {
            lemma_services_wf(entries_view(entries@));
        }
        core::mem::swap(&mut self.entries, &mut entries);
    }
}

/// Where the entry named `name` stands, or the length where there is none.
fn position(entries: &Vec<DiscoveredService>, name: &str) -> (at: usize)
    ensures
        at <= entries.len(),
        at < entries.len() ==> entries_view(entries@)[at as int].name == name@,
        at == entries.len() ==> !names(entries_view(entries@), name@),
{
    let ghost view = entries_view(entries@);
    let mut i: usize = 0;
    while i < entries.len()
        invariant
            i <= entries.len(),
            view == entries_view(entries@),
            forall|k: int| 0 <= k < i ==> (#[trigger] view[k]).name != name@,
        decreases entries.len() - i,
    {
        assert(view[i as int] == entries@[i as int]@);
        if crate::text::same_text(entries[i].name.as_str(), name) {
            return i;
        }
        i = i + 1;
    }
    i
}

/// A list of entries with distinct names stands for a well-formed mapping.
proof fn lemma_services_wf(entries: Seq<ServiceView>)
    requires
        distinct_names(entries),
    ensures
        services_of(entries).wf(),
{
    let order = services_of(entries).order;
    assert forall|i: int, j: int| 0 <= i < order.len() && 0 <= j < order.len() && i
        != j implies order[i] != order[j] by {
        assert(order[i] == entries[i].name);
        assert(order[j] == entries[j].name);
    }
    assert forall|name: Seq<char>|
        services_of(entries).urls.contains_key(name) <==> order.contains(name) by {
        if names(entries, name) {
            let i = entry_named(entries, name);
            assert(order[i] == name);
        }
        if order.contains(name) {
            let i = choose|i: int| 0 <= i < order.len() && order[i] == name;
            assert(entries[i].name == name);
        }
    }
}

/// Overwriting the entry of a name binds the name anew and moves nothing.
proof fn lemma_overwrite(entries: Seq<ServiceView>, at: int, fresh: ServiceView)
    requires
        distinct_names(entries),
        0 <= at < entries.len(),
        entries[at].name == fresh.name,
    ensures
        distinct_names(entries.update(at, fresh)),
        services_of(entries.update(at, fresh)) == services_of(entries).insert(
            fresh.name,
            fresh.public_url,
        ),
{
    let after = entries.update(at, fresh);
    let want = services_of(entries).insert(fresh.name, fresh.public_url);
    assert(names(entries, fresh.name));
    assert forall|name: Seq<char>| names(after, name) <==> names(entries, name) by {
        if names(after, name) {
            let i = entry_named(after, name);
            assert(entries[i].name == name);
        }
        if names(entries, name) {
            let i = entry_named(entries, name);
            assert(after[i].name == name);
        }
    }
    assert forall|name: Seq<char>| names(after, name) implies #[trigger] services_of(
        after,
    ).urls[name] == want.urls[name] by {
        let i = entry_named(after, name);
        let j = entry_named(entries, name);
        assert(entries[i].name == name);
        assert(i == j);
    }
    assert(services_of(after).urls =~= want.urls);
    assert(services_of(after).order =~= want.order);
}

/// Appending an entry with a new name binds the name and puts it last.
proof fn lemma_append(entries: Seq<ServiceView>, fresh: ServiceView)
    requires
        distinct_names(entries),
        !names(entries, fresh.name),
    ensures
        distinct_names(entries.push(fresh)),
        services_of(entries.push(fresh)) == services_of(entries).insert(
            fresh.name,
            fresh.public_url,
        ),
{
    let after = entries.push(fresh);
    let want = services_of(entries).insert(fresh.name, fresh.public_url);
    assert forall|i: int, j: int| 0 <= i < j < after.len() implies (#[trigger] after[i]).name != (
    #[trigger] after[j]).name by {
        assert(after[i] == entries[i]);
        if j < entries.len() {
            assert(after[j] == entries[j]);
        }
    }
    assert(after[entries.len() as int].name == fresh.name);
    assert forall|name: Seq<char>| names(after, name) <==> (names(entries, name) || name
        == fresh.name) by {
        if names(after, name) {
            let i = entry_named(after, name);
            if i < entries.len() {
                assert(entries[i].name == name);
            }
        }
        if names(entries, name) {
            let i = entry_named(entries, name);
            assert(after[i].name == name);
        }
    }
    assert forall|name: Seq<char>| names(after, name) implies #[trigger] services_of(
        after,
    ).urls[name] == want.urls[name] by {
        let i = entry_named(after, name);
        if name != fresh.name {
            let j = entry_named(entries, name);
            assert(after[j] == entries[j]);
            assert(i == j);
        } else {
            if i < entries.len() {
                assert(entries[i].name == name);
            }
        }
    }
    assert(services_of(after).urls =~= want.urls);
    assert(services_of(after).order =~= want.order);
}

} // verus!
