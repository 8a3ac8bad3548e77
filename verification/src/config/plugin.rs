//! Plugins that answer the challenges of a certificate authority over DNS.

use vstd::prelude::*;
use crate::text::str_eq;

verus! {

/// Settings that all DNS plugins have.
pub struct DnsPluginCore {
    pub id: String,
    /// Name of the DNS service.
    pub api: String,
    /// Seconds to wait before validation is asked for, so that old records can
    /// expire.
    pub validation_delay: Option<u32>,
    /// The plugin is not used.
    pub disable: Option<bool>,
}

/// A DNS plugin.
pub struct DnsPlugin {
    pub core: DnsPluginCore,
    /// Settings of the service, encoded as base64 for URLs without padding.
    pub data: String,
}

/// The configured plugins: the type and the settings of each by its name. No name
/// occurs twice.
pub struct PluginData {
    sections: Vec<(String, (String, serde_json::Value))>,
}

/// The plugins by name.
pub open spec fn by_name(sections: Seq<(String, (String, serde_json::Value))>) -> Map<
    Seq<char>,
    (String, serde_json::Value),
>
    decreases sections.len(),
{
    if sections.len() == 0 {
        Map::empty()
    } else {
        by_name(sections.drop_last()).insert(sections.last().0@, sections.last().1)
    }
}

/// Whether all names differ.
pub open spec fn unique(sections: Seq<(String, (String, serde_json::Value))>) -> bool {
    forall|i: int, j: int|
        0 <= i < j < sections.len() ==> (#[trigger] sections[i]).0@ != (#[trigger] sections[j]).0@
}

impl View for PluginData {
    type V = Map<Seq<char>, (String, serde_json::Value)>;

    closed spec fn view(&self) -> Map<Seq<char>, (String, serde_json::Value)> {
        by_name(self.sections@)
    }
}

/// The map holds what the list holds.
proof fn by_name_holds(sections: Seq<(String, (String, serde_json::Value))>)
    requires
        unique(sections),
    ensures
        forall|i: int|
            0 <= i < sections.len() ==> by_name(sections).dom().contains(
                (#[trigger] sections[i]).0@,
            ) && by_name(sections)[sections[i].0@] == sections[i].1,
        forall|name: Seq<char>| #[trigger]
            by_name(sections).dom().contains(name) ==> exists|i: int|
                0 <= i < sections.len() && (#[trigger] sections[i]).0@ == name,
    decreases sections.len(),
{
    if sections.len() > 0 {
        let init = sections.drop_last();
        assert forall|i: int, j: int| 0 <= i < j < init.len() implies (#[trigger] init[i]).0@ != (
        #[trigger] init[j]).0@ by {
            assert(init[i] == sections[i] && init[j] == sections[j]);
        }
        by_name_holds(init);
        assert forall|i: int| 0 <= i < sections.len() implies by_name(sections).dom().contains(
            (#[trigger] sections[i]).0@,
        ) && by_name(sections)[sections[i].0@] == sections[i].1 by {
            if i < init.len() {
                assert(init[i] == sections[i]);
                assert(sections[i].0@ != sections[sections.len() - 1].0@);
            }
        }
        assert forall|name: Seq<char>| #[trigger]
            by_name(sections).dom().contains(name) implies exists|i: int|
            0 <= i < sections.len() && (#[trigger] sections[i]).0@ == name by {
            if name == sections.last().0@ {
                assert(sections[sections.len() - 1].0@ == name);
            } else {
                assert(by_name(init).dom().contains(name));
                let i = choose|i: int| 0 <= i < init.len() && (#[trigger] init[i]).0@ == name;
                assert(sections[i] == init[i]);
                assert(sections[i].0@ == name);
            }
        }
    }
}

/// Two lists of different names that hold the same plugins make the same map, but
/// for one name.
proof fn by_name_but_one(
    before: Seq<(String, (String, serde_json::Value))>,
    after: Seq<(String, (String, serde_json::Value))>,
    name: Seq<char>,
)
    requires
        unique(before),
        unique(after),
        forall|i: int|
            0 <= i < before.len() && (#[trigger] before[i]).0@ != name ==> after.contains(
                before[i],
            ),
        forall|i: int|
            0 <= i < after.len() && (#[trigger] after[i]).0@ != name ==> before.contains(after[i]),
    ensures
        by_name(before).remove(name) == by_name(after).remove(name),
{
    by_name_holds(before);
    by_name_holds(after);
    let a = by_name(before).remove(name);
    let b = by_name(after).remove(name);
    assert forall|other: Seq<char>| a.dom().contains(other) implies b.dom().contains(other)
        && a[other] == b[other] by {
        let i = choose|i: int| 0 <= i < before.len() && (#[trigger] before[i]).0@ == other;
        assert(after.contains(before[i]));
        let j = choose|j: int| 0 <= j < after.len() && after[j] == before[i];
        assert(after[j].0@ == other);
    }
    assert forall|other: Seq<char>| b.dom().contains(other) implies a.dom().contains(other) by {
        let i = choose|i: int| 0 <= i < after.len() && (#[trigger] after[i]).0@ == other;
        assert(before.contains(after[i]));
        let j = choose|j: int| 0 <= j < before.len() && before[j] == after[i];
        assert(before[j].0@ == other);
    }
    assert(a =~= b);
}

/// A plugin that is changed in place is changed in the map.
proof fn by_name_updated(
    sections: Seq<(String, (String, serde_json::Value))>,
    at: int,
    plugin: (String, serde_json::Value),
)
    requires
        unique(sections),
        0 <= at < sections.len(),
    ensures
        unique(sections.update(at, (sections[at].0, plugin))),
        by_name(sections.update(at, (sections[at].0, plugin))) == by_name(sections).insert(
            sections[at].0@,
            plugin,
        ),
{
    let name = sections[at].0@;
    let after = sections.update(at, (sections[at].0, plugin));
    assert forall|i: int, j: int| 0 <= i < j < after.len() implies (#[trigger] after[i]).0@ != (
    #[trigger] after[j]).0@ by {
        assert(sections[i].0@ != sections[j].0@);
    }
    assert forall|i: int| 0 <= i < sections.len() && (#[trigger] sections[i]).0@
        != name implies after.contains(sections[i]) by {
        assert(after[i] == sections[i]);
    }
    assert forall|i: int| 0 <= i < after.len() && (#[trigger] after[i]).0@
        != name implies sections.contains(after[i]) by {
        assert(after[i] == sections[i]);
    }
    by_name_but_one(sections, after, name);
    by_name_holds(after);
    assert(after[at].0@ == name);
    assert(by_name(after)[name] == plugin);
    assert(by_name(after) =~= by_name(after).remove(name).insert(name, plugin));
    assert(by_name(sections).insert(name, plugin) =~= by_name(sections).remove(name).insert(
        name,
        plugin,
    ));
}

impl PluginData {
    /// No name occurs twice.
    pub closed spec fn valid(&self) -> bool {
        unique(self.sections@)
    }

    /// No plugins.
    pub fn new() -> (r: PluginData)
        ensures
            r.valid(),
            r@ == Map::<Seq<char>, (String, serde_json::Value)>::empty(),
    {
        PluginData { sections: Vec::new() }
    }

    fn position(&self, name: &str) -> (r: Option<usize>)
        requires
            self.valid(),
        ensures
            match r {
                Some(i) => i < self.sections@.len() && self.sections@[i as int].0@ == name@
                    && self@.dom().contains(name@) && self@[name@] == self.sections@[i as int].1,
                None => !self@.dom().contains(name@) && forall|j: int|
                    0 <= j < self.sections@.len() ==> (#[trigger] self.sections@[j]).0@ != name@,
            },
    {
        proof {
            by_name_holds(self.sections@);
        }
        for i in 0..self.sections.len()
            invariant
                self.valid(),
                forall|j: int| 0 <= j < i ==> (#[trigger] self.sections@[j]).0@ != name@,
                forall|j: int|
                    0 <= j < self.sections@.len() ==> self@.dom().contains(
                        (#[trigger] self.sections@[j]).0@,
                    ) && self@[self.sections@[j].0@] == self.sections@[j].1,
        {
            if str_eq(self.sections[i].0.as_str(), name) {
                return Some(i);
            }
        }
        None
    }

    /// Takes a plugin out.
    pub fn remove(&mut self, name: &str) -> (r: Option<(String, serde_json::Value)>)
        requires
            old(self).valid(),
        ensures
            final(self).valid(),
            final(self)@ == old(self)@.remove(name@),
            r == (if old(self)@.dom().contains(name@) {
                Some(old(self)@[name@])
            } else {
                None
            }),
    {
        match self.position(name) {
            None => {
                assert(self@.remove(name@) =~= self@);
                None
            },
            Some(at) => {
                let ghost before = self.sections@;
                let (_, plugin) = self.sections.remove(at);
                proof {
                    let after = self.sections@;
                    assert(after == before.remove(at as int));
                    assert forall|i: int, j: int| 0 <= i < j < after.len() implies (
                    #[trigger] after[i]).0@ != (#[trigger] after[j]).0@ by {
                        let a = if i < at { i } else { i + 1 };
                        let b = if j < at { j } else { j + 1 };
                        assert(before[a].0@ != before[b].0@);
                    }
                    assert forall|i: int| 0 <= i < before.len() && (#[trigger] before[i]).0@
                        != name@ implies after.contains(before[i]) by {
                        let a = if i < at { i } else { i - 1 };
                        assert(after[a] == before[i]);
                    }
                    assert forall|i: int| 0 <= i < after.len() && (#[trigger] after[i]).0@
                        != name@ implies before.contains(after[i]) by {
                        let a = if i < at { i } else { i + 1 };
                        assert(before[a] == after[i]);
                    }
                    by_name_but_one(before, after, name@);
                    by_name_holds(after);
                    assert(!by_name(after).dom().contains(name@)) by {
                        if by_name(after).dom().contains(name@) {
                            let i = choose|i: int|
                                0 <= i < after.len() && (#[trigger] after[i]).0@ == name@;
                            let a = if i < at { i } else { i + 1 };
                            assert(before[a] == after[i]);
                            if a < at {
                                assert(before[a].0@ != before[at as int].0@);
                            } else {
                                assert(before[at as int].0@ != before[a].0@);
                            }
                        }
                    }
                    assert(by_name(after) =~= by_name(after).remove(name@));
                }
                Some(plugin)
            },
        }
    }

    /// Whether there is a plugin of that name.
    pub fn contains_key(&self, name: &str) -> (r: bool)
        requires
            self.valid(),
        ensures
            r == self@.dom().contains(name@),
    {
        self.position(name).is_some()
    }

    /// Type and settings of a plugin.
    pub fn get(&self, name: &str) -> (r: Option<&(String, serde_json::Value)>)
        requires
            self.valid(),
        ensures
            match r {
                Some(plugin) => self@.dom().contains(name@) && *plugin == self@[name@],
                None => !self@.dom().contains(name@),
            },
    {
        match self.position(name) {
            Some(i) => Some(&self.sections[i].1),
            None => None,
        }
    }

    /// Type and settings of a plugin, to be changed.
    pub fn get_mut(&mut self, name: &str) -> (r: Option<&mut (String, serde_json::Value)>)
        requires
            old(self).valid(),
        ensures
            final(self).valid(),
            match r {
                Some(plugin) => {
                    &&& old(self)@.dom().contains(name@)
                    &&& *plugin == old(self)@[name@]
                    &&& final(self)@ == old(self)@.insert(name@, *final(plugin))
                },
                None => !old(self)@.dom().contains(name@) && final(self)@ == old(self)@,
            },
    {
        match self.position(name) {
            Some(i) => {
                proof {
                    let before = self.sections@;
                    assert forall|plugin: (String, serde_json::Value)|
                        unique(#[trigger] before.update(i as int, (before[i as int].0, plugin)))
                            && by_name(before.update(i as int, (before[i as int].0, plugin)))
                            == by_name(before).insert(name@, plugin) by {
                        by_name_updated(before, i as int, plugin);
                    }
                }
                Some(&mut self.sections[i].1)
            },
            None => None,
        }
    }

    /// Adds a plugin, or puts it in the place of the one of the same name.
    pub fn insert(&mut self, id: String, ty: String, plugin: serde_json::Value)
        requires
            old(self).valid(),
        ensures
            final(self).valid(),
            final(self)@ == old(self)@.insert(id@, (ty, plugin)),
    {
        let _ = self.remove(id.as_str());
        proof {
            by_name_holds(self.sections@);
            assert(forall|i: int|
                0 <= i < self.sections@.len() ==> (#[trigger] self.sections@[i]).0@ != id@);
            assert(self.sections@.push((id, (ty, plugin))).drop_last() =~= self.sections@);
            assert(old(self)@.remove(id@).insert(id@, (ty, plugin)) =~= old(self)@.insert(
                id@,
                (ty, plugin),
            ));
        }
        self.sections.push((id, (ty, plugin)));
    }

    /// Number of plugins.
    pub fn len(&self) -> (r: usize)
        ensures
            r == self.count(),
    {
        self.sections.len()
    }

    /// Number of plugins.
    pub closed spec fn count(&self) -> nat {
        self.sections@.len()
    }

    /// Name of the plugin at a place of the list.
    pub closed spec fn name_at(&self, i: int) -> Seq<char> {
        self.sections@[i].0@
    }

    /// The plugin at a place of the list, with its name. Each plugin has one place.
    pub fn entry(&self, i: usize) -> (r: (&String, &(String, serde_json::Value)))
        requires
            self.valid(),
            i < self.count(),
        ensures
            r.0@ == self.name_at(i as int),
            self@.dom().contains(r.0@),
            *r.1 == self@[r.0@],
    {
        proof {
            by_name_holds(self.sections@);
            assert(self.sections@[i as int].0@ == self.name_at(i as int));
        }
        (&self.sections[i].0, &self.sections[i].1)
    }

    /// Going over all places of the list meets each plugin exactly once.
    pub proof fn every_plugin_is_listed_once(&self)
        requires
            self.valid(),
        ensures
            forall|i: int, j: int|
                0 <= i < j < self.count() ==> #[trigger] self.name_at(i) != #[trigger] self.name_at(
                    j,
                ),
            forall|name: Seq<char>| #[trigger]
                self@.dom().contains(name) ==> exists|i: int|
                    0 <= i < self.count() && #[trigger] self.name_at(i) == name,
    {
        by_name_holds(self.sections@);
        assert forall|i: int, j: int| 0 <= i < j < self.count() implies #[trigger] self.name_at(i)
            != #[trigger] self.name_at(j) by {
            assert(self.sections@[i].0@ != self.sections@[j].0@);
        }
        assert forall|name: Seq<char>| #[trigger] self@.dom().contains(name) implies exists|i: int|
            0 <= i < self.count() && #[trigger] self.name_at(i) == name by {
            let i = choose|i: int|
                0 <= i < self.sections@.len() && (#[trigger] self.sections@[i]).0@ == name;
            assert(self.name_at(i) == name);
        }
    }
}

} // verus!
