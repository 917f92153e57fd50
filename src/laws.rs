use vstd::prelude::*;
use crate::config::Config;
use crate::manifest::{Manifest, implicits_applied};
use crate::structs::{Verify, filled};

verus! {

/// Implicits followed by validation succeeds for a service bound to a region that both it and
/// the config list, when the service declares its resources and declares a health check wherever
/// it declares an http port. This holds of services whose name follows the naming rules, whose
/// nested structures are each sane in themselves (a dependency needs only its name: implicits
/// gives it its API version; a config map needs no name: implicits gives it one), whose regions
/// are all in the config, and that get a replica count of at least one from themselves or from
/// the config. With `pattern_ok` the name pattern's verdict on the name, `Manifest::verify`
/// succeeds on such a manifest, since it succeeds exactly when `valid_with` holds.
pub proof fn lemma_implicits_then_verify(
    m: Manifest,
    n: Manifest,
    conf: Config,
    region: Seq<char>,
    pattern_ok: bool,
)
    requires
        conf.wf(),
        conf.has_region(region),
        exists|i: int| 0 <= i < m.regions@.len() && (#[trigger] m.regions@[i])@ == region,
        implicits_applied(m, n, conf, Some(region)),
        m.resources matches Some(res) && res.valid(&conf),
        m.httpPort is Some ==> m.health is Some,
        Manifest::name_valid(m.name@, pattern_ok),
        m.dataHandling.valid(&conf),
        m.metadata.valid(&conf),
        forall|i: int| 0 <= i < m.dependencies@.len() ==> filled((#[trigger] m.dependencies@[i]).name),
        forall|i: int| 0 <= i < m.hostAliases@.len() ==> (#[trigger] m.hostAliases@[i]).valid(&conf),
        forall|i: int|
            0 <= i < m.initContainers@.len() ==> (#[trigger] m.initContainers@[i]).valid(&conf),
        m.configs matches Some(c) ==> filled(c.mount) && forall|i: int|
            0 <= i < c.files@.len() ==> filled((#[trigger] c.files@[i]).name) && filled(
                c.files@[i].dest,
            ),
        m.replicaCount matches Some(k) ==> k >= 1,
        m.replicaCount is None ==> conf.defaults.replicaCount >= 1,
        forall|i: int| 0 <= i < m.regions@.len() ==> conf.has_region((#[trigger] m.regions@[i])@),
    ensures
        n.valid_with(&conf, pattern_ok),
{
    assert forall|i: int| 0 <= i < n.dataHandling.stores@.len() implies {
        let s = #[trigger] n.dataHandling.stores@[i];
        &&& filled(s.backend)
        &&& forall|j: int| 0 <= j < s.fields@.len() ==> filled(#[trigger] s.fields@[j].name)
    } by {
        let o = m.dataHandling.stores@[i];
        let s = n.dataHandling.stores@[i];
        assert forall|j: int| 0 <= j < s.fields@.len() implies filled(#[trigger] s.fields@[j].name) by {
            assert(o.fields@[j].name == s.fields@[j].name);
        }
    }
    assert forall|i: int| 0 <= i < n.dependencies@.len() implies (
    #[trigger] n.dependencies@[i]).valid(&conf) by {
        assert(filled(m.dependencies@[i].name));
    }
    assert(n.deployment_valid(&conf));
}

/// Applying implicits a second time, with the same config and region, changes nothing that the
/// first pass set: defaulting never overwrites a value filled in before.
pub proof fn lemma_implicits_idempotent(
    m1: Manifest,
    m2: Manifest,
    m3: Manifest,
    conf: Config,
    region: Option<Seq<char>>,
)
    requires
        implicits_applied(m1, m2, conf, region),
        implicits_applied(m2, m3, conf, region),
    ensures
        m3.image == m2.image,
        m3.env@ == m2.env@,
        m3._region@ == m2._region@,
        m3.chart@ == m2.chart@,
        m3.replicaCount == m2.replicaCount,
        m3.configs == m2.configs,
        m3.dependencies@ == m2.dependencies@,
        m3.dataHandling.stores@.len() == m2.dataHandling.stores@.len(),
        forall|i: int|
            0 <= i < m2.dataHandling.stores@.len() ==> {
                let a = m2.dataHandling.stores@[i];
                let b = #[trigger] m3.dataHandling.stores@[i];
                &&& b.backend == a.backend
                &&& b.encrypted == a.encrypted
                &&& b.keyRotator == a.keyRotator
                &&& b.fields@ == a.fields@
            },
        match m2.kong {
            Some(a) => m3.kong matches Some(b) && b.name@ == a.name@ && b.upstream_url@
                == a.upstream_url@ && b.uris == a.uris && b.hosts == a.hosts,
            None => m3.kong is None,
        },
{
    reveal_strlit("/");
    reveal_strlit("-config");
    if let Some(r) = region {
        assert(m3.env@ =~= m2.env@);
    }
    assert(m3.dependencies@ =~= m2.dependencies@);
    assert forall|i: int| 0 <= i < m2.dataHandling.stores@.len() implies {
        let a = m2.dataHandling.stores@[i];
        let b = #[trigger] m3.dataHandling.stores@[i];
        &&& b.backend == a.backend
        &&& b.encrypted == a.encrypted
        &&& b.keyRotator == a.keyRotator
        &&& b.fields@ == a.fields@
    } by {
        let a = m2.dataHandling.stores@[i];
        let b = m3.dataHandling.stores@[i];
        let o = m1.dataHandling.stores@[i];
        assert forall|j: int| 0 <= j < a.fields@.len() implies b.fields@[j] == a.fields@[j] by {
            let fa = a.fields@[j];
            let fb = b.fields@[j];
            let fo = o.fields@[j];
            assert(fb.name == fa.name);
        }
        assert(b.fields@ =~= a.fields@);
    }
}

/// An externally managed service passes validation on its identity, data handling and metadata
/// alone: with no resources block, no regions or anything else of the deployment checks.
pub proof fn lemma_external_needs_identity_only(m: Manifest, conf: Config, pattern_ok: bool)
    requires
        m.external,
        Manifest::name_valid(m.name@, pattern_ok),
        m.dataHandling.valid(&conf),
        m.metadata.valid(&conf),
    ensures
        m.valid_with(&conf, pattern_ok),
{
}

/// After implicits, a data field that leaves `encrypted` or `keyRotator` unset carries its
/// store's setting, and a field that sets one keeps its own. Implicits succeeds, and so reaches
/// the cascade, exactly when the region, if one is given, is in the config.
pub proof fn lemma_implicits_cascade(
    m: Manifest,
    n: Manifest,
    conf: Config,
    region: Option<Seq<char>>,
    i: int,
    j: int,
)
    requires
        implicits_applied(m, n, conf, region),
        0 <= i < m.dataHandling.stores@.len(),
        0 <= j < m.dataHandling.stores@[i].fields@.len(),
    ensures
        ({
            let s = m.dataHandling.stores@[i];
            let f = s.fields@[j];
            let g = n.dataHandling.stores@[i].fields@[j];
            &&& g.encrypted == if f.encrypted is Some { f.encrypted } else { s.encrypted }
            &&& g.keyRotator == if f.keyRotator is Some { f.keyRotator } else { s.keyRotator }
        }),
{
    assert(crate::structs::store_cascaded(m.dataHandling.stores@[i], n.dataHandling.stores@[i]));
}

} // verus!
