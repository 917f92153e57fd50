use vstd::prelude::*;
use crate::env::EnvMap;
use crate::text::str_eq;

verus! {

/// Region-scoped settings for the API gateway.
#[derive(Clone, Debug)]
pub struct KongConfig {
    /// Base of the upstream url that services get by default.
    pub base_url: String,
}

/// A named deployment environment with its default environment variables.
#[derive(Clone, Debug)]
pub struct Region {
    pub name: String,
    /// Kubernetes namespace that services of this region run in.
    pub namespace: String,
    /// Environment variables that every service in the region gets.
    pub env: EnvMap,
    pub kong: KongConfig,
}

/// Defaults that apply to every service.
#[derive(Clone, Debug)]
pub struct Defaults {
    pub imagePrefix: String,
    pub chart: String,
    pub replicaCount: u32,
}

/// Process-wide catalog of regions and defaults.
#[derive(Clone, Debug)]
pub struct Config {
    pub defaults: Defaults,
    pub regions: Vec<Region>,
}

impl Config {
    /// Region names are non-empty and distinct, and every region's environment is a
    /// well-formed map.
    pub open spec fn wf(&self) -> bool {
        &&& forall|i: int| 0 <= i < self.regions@.len() ==> (#[trigger] self.regions@[i]).name@.len() > 0
        &&& forall|i: int, j: int|
            0 <= i < self.regions@.len() && 0 <= j < self.regions@.len() && i != j
                ==> self.regions@[i].name@ != self.regions@[j].name@
        &&& forall|i: int| 0 <= i < self.regions@.len() ==> (#[trigger] self.regions@[i]).env.wf()
    }

    pub open spec fn has_region(&self, name: Seq<char>) -> bool {
        exists|i: int| 0 <= i < self.regions@.len() && self.regions@[i].name@ == name
    }

    /// The region named `name`; meaningful where `has_region(name)`.
    pub open spec fn region(&self, name: Seq<char>) -> Region {
        self.regions@[choose|i: int| 0 <= i < self.regions@.len() && self.regions@[i].name@ == name]
    }

    pub proof fn lemma_region_named(&self, name: Seq<char>)
        requires
            self.wf(),
            self.has_region(name),
        ensures
            name.len() > 0,
    {
        let i = choose|i: int| 0 <= i < self.regions@.len() && self.regions@[i].name@ == name;
        assert(self.regions@[i].name@.len() > 0);
    }

    /// The position of the region named `name`.
    pub fn find_region(&self, name: &str) -> (r: Option<usize>)
        requires
            self.wf(),
        ensures
            r is None <==> !self.has_region(name@),
            r matches Some(i) ==> i < self.regions@.len() && self.regions@[i as int] == self.region(
                name@,
            ) && self.regions@[i as int].name@ == name@,
    {
        let mut i: usize = 0;
        while i < self.regions.len()
            invariant
                self.wf(),
                i <= self.regions@.len(),
                forall|j: int| 0 <= j < i ==> self.regions@[j].name@ != name@,
            decreases self.regions@.len() - i,
        {
            if str_eq(self.regions[i].name.as_str(), name) {
                assert(self.has_region(name@));
                let ghost c = choose|k: int|
                    0 <= k < self.regions@.len() && self.regions@[k].name@ == name@;
                assert(c == i);
                return Some(i);
            }
            i = i + 1;
        }
        None
    }
}

} // verus!
