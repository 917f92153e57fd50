use vstd::prelude::*;
use crate::config::{Config, Region};
use crate::env::{EnvMap, lemma_view_has, lemma_view_keys, lemma_view_update, pairs_view};
use crate::pattern::{name_shape, pattern_matches};
use crate::text::str_eq;
use crate::error::{ErrorKind, ManifestError, ManifestResult, fails_with, names_subject};
use crate::structs::{
    ConfigMap, DataHandling, Dependency, HealthCheck, HostAlias, InitContainer, Kong, Metadata,
    Resources, VaultOpts, Verify, Volume, VolumeMount, dependency_defaulted, handling_cascaded,
    kong_defaulted,
};

verus! {

/// The full declarative description of one service's deployment.
#[derive(Clone, Debug)]
pub struct Manifest {
    /// Name of the service
    pub name: String,
    /// Whether to ignore this service
    pub disabled: bool,
    /// Whether the service is externally managed
    pub external: bool,
    /// Image name
    pub image: Option<String>,
    /// Version/tag of the docker image
    pub version: Option<String>,
    /// Image command (if not using the default docker command)
    pub command: Vec<String>,
    /// Canonical data sources like repo, docs, team names
    pub metadata: Metadata,
    /// Data sources and handling strategies
    pub dataHandling: DataHandling,
    /// Language the service is written in
    pub language: Option<String>,
    /// Chart to use for the service
    pub chart: String,
    /// Resource limits and requests
    pub resources: Option<Resources>,
    /// Replication count
    pub replicaCount: Option<u32>,
    /// host aliases to inject in /etc/hosts
    pub hostAliases: Vec<HostAlias>,
    /// Environment variables to inject
    pub env: EnvMap,
    /// Config files to inline in a configMap
    pub configs: Option<ConfigMap>,
    /// Volume mounts
    pub volumeMounts: Vec<VolumeMount>,
    /// Init container instructions
    pub initContainers: Vec<InitContainer>,
    /// Http port to expose
    pub httpPort: Option<u32>,
    /// Secret store options
    pub vault: Option<VaultOpts>,
    /// Health check parameters
    pub health: Option<HealthCheck>,
    /// Service dependencies
    pub dependencies: Vec<Dependency>,
    /// Regions the service is deployed to
    pub regions: Vec<String>,
    /// Volumes
    pub volumes: Vec<Volume>,
    /// Service annotations (for internal services only)
    pub serviceAnnotations: EnvMap,
    /// API gateway config
    pub kong: Option<Kong>,
    /// Secrets read from the secret store, by their key there
    pub _decoded_secrets: EnvMap,
    /// Region that implicits bound the manifest to
    pub _region: String,
}

/// The placeholder value of an environment variable whose value lives in the secret store.
pub open spec fn in_vault() -> Seq<char> {
    "IN_VAULT"@
}

/// The image that a service gets when it names none.
pub open spec fn default_image(conf: Config, name: Seq<char>) -> Seq<char> {
    conf.defaults.imagePrefix@ + "/"@ + name
}

/// The config map name that a service gets when it names none.
pub open spec fn default_config_name(name: Seq<char>) -> Seq<char> {
    name + "-config"@
}

/// `new` is `old` after implicits: unset fields filled from `conf` and, where given, the region.
pub open spec fn implicits_applied(
    old: Manifest,
    new: Manifest,
    conf: Config,
    region: Option<Seq<char>>,
) -> bool {
    &&& match old.image {
        Some(i) => new.image == Some(i),
        None => new.image matches Some(j) && j@ == default_image(conf, old.name@),
    }
    &&& match region {
        Some(r) => {
            &&& new._region@ == r
            &&& new.env@ == conf.region(r).env@.union_prefer_right(old.env@)
            &&& match old.kong {
                Some(k) => new.kong matches Some(n) && kong_defaulted(
                    k,
                    n,
                    old.name@,
                    conf.region(r),
                ),
                None => new.kong is None,
            }
        },
        None => {
            &&& new._region == old._region
            &&& new.env == old.env
            &&& new.kong == old.kong
        },
    }
    &&& new.chart@ == if old.chart@.len() == 0 {
        conf.defaults.chart@
    } else {
        old.chart@
    }
    &&& new.replicaCount == match old.replicaCount {
        Some(n) => Some(n),
        None => Some(conf.defaults.replicaCount),
    }
    &&& handling_cascaded(old.dataHandling, new.dataHandling)
    &&& match old.configs {
        None => new.configs is None,
        Some(c) => new.configs matches Some(d) && d.mount == c.mount && d.files == c.files && match c.name {
            Some(n) => d.name == Some(n),
            None => d.name matches Some(n) && n@ == default_config_name(old.name@),
        },
    }
    &&& new.dependencies@.len() == old.dependencies@.len()
    &&& forall|i: int|
        0 <= i < old.dependencies@.len() ==> dependency_defaulted(
            old.dependencies@[i],
            #[trigger] new.dependencies@[i],
        )
    &&& new.name == old.name
    &&& new.disabled == old.disabled
    &&& new.external == old.external
    &&& new.version == old.version
    &&& new.command == old.command
    &&& new.metadata == old.metadata
    &&& new.language == old.language
    &&& new.resources == old.resources
    &&& new.hostAliases == old.hostAliases
    &&& new.volumeMounts == old.volumeMounts
    &&& new.initContainers == old.initContainers
    &&& new.httpPort == old.httpPort
    &&& new.vault == old.vault
    &&& new.health == old.health
    &&& new.regions == old.regions
    &&& new.volumes == old.volumes
    &&& new.serviceAnnotations == old.serviceAnnotations
    &&& new._decoded_secrets == old._decoded_secrets
}

/// The view of an optional string.
pub open spec fn opt_view(o: Option<String>) -> Option<Seq<char>> {
    match o {
        Some(s) => Some(s@),
        None => None,
    }
}

impl Manifest {
    /// The maps of the manifest are well formed.
    pub open spec fn wf(&self) -> bool {
        &&& self.env.wf()
        &&& self.serviceAnnotations.wf()
        &&& self._decoded_secrets.wf()
    }

    /// A manifest with the given name and every other field unset.
    pub fn new(name: &str) -> (r: Manifest)
        ensures
            r.wf(),
            r.name@ == name@,
            !r.disabled,
            !r.external,
            r.image is None,
            r.version is None,
            r.chart@.len() == 0,
            r.replicaCount is None,
            r.resources is None,
            r.env@ == Map::<Seq<char>, Seq<char>>::empty(),
            r.configs is None,
            r.httpPort is None,
            r.health is None,
            r.vault is None,
            r.kong is None,
            r.hostAliases@.len() == 0,
            r.initContainers@.len() == 0,
            r.dependencies@.len() == 0,
            r.regions@.len() == 0,
            r.dataHandling.stores@.len() == 0,
            r._region@.len() == 0,
            r._decoded_secrets@ == Map::<Seq<char>, Seq<char>>::empty(),
            r.serviceAnnotations@ == Map::<Seq<char>, Seq<char>>::empty(),
            r.metadata.team@.len() == 0,
            r.metadata.repo@.len() == 0,
            r.metadata.docs is None,
            r.command@.len() == 0,
            r.language is None,
            r.volumeMounts@.len() == 0,
            r.volumes@.len() == 0,
    {
        Manifest {
            name: String::from_str(name),
            disabled: false,
            external: false,
            image: None,
            version: None,
            command: Vec::new(),
            metadata: Metadata::new(),
            dataHandling: DataHandling::new(),
            language: None,
            chart: String::new(),
            resources: None,
            replicaCount: None,
            hostAliases: Vec::new(),
            env: EnvMap::new(),
            configs: None,
            volumeMounts: Vec::new(),
            initContainers: Vec::new(),
            httpPort: None,
            vault: None,
            health: None,
            dependencies: Vec::new(),
            regions: Vec::new(),
            volumes: Vec::new(),
            serviceAnnotations: EnvMap::new(),
            kong: None,
            _decoded_secrets: EnvMap::new(),
            _region: String::new(),
        }
    }

    /// Adds the region's default environment variables where the manifest sets none.
    fn add_region_env(&mut self, reg: &Region)
        requires
            old(self).wf(),
            reg.env.wf(),
        ensures
            final(self).wf(),
            final(self).env@ == reg.env@.union_prefer_right(old(self).env@),
            final(self).name == old(self).name,
            final(self).image == old(self).image,
            final(self).chart == old(self).chart,
            final(self).replicaCount == old(self).replicaCount,
            final(self).dataHandling == old(self).dataHandling,
            final(self).configs == old(self).configs,
            final(self).dependencies == old(self).dependencies,
            final(self).kong == old(self).kong,
            final(self)._region == old(self)._region,
            final(self).serviceAnnotations == old(self).serviceAnnotations,
            final(self)._decoded_secrets == old(self)._decoded_secrets,
            final(self).disabled == old(self).disabled,
            final(self).external == old(self).external,
            final(self).version == old(self).version,
            final(self).command == old(self).command,
            final(self).metadata == old(self).metadata,
            final(self).language == old(self).language,
            final(self).resources == old(self).resources,
            final(self).hostAliases == old(self).hostAliases,
            final(self).volumeMounts == old(self).volumeMounts,
            final(self).initContainers == old(self).initContainers,
            final(self).httpPort == old(self).httpPort,
            final(self).vault == old(self).vault,
            final(self).health == old(self).health,
            final(self).regions == old(self).regions,
            final(self).volumes == old(self).volumes,
    {
        let ghost pre = *self;
        let ghost s = reg.env.entries@;
        let mut i: usize = 0;
        while i < reg.env.entries.len()
            invariant
                self.wf(),
                reg.env.wf(),
                s == reg.env.entries@,
                i <= s.len(),
                self.env@ == pairs_view(s.take(i as int)).union_prefer_right(pre.env@),
                self.name == pre.name,
                self.image == pre.image,
                self.chart == pre.chart,
                self.replicaCount == pre.replicaCount,
                self.dataHandling == pre.dataHandling,
                self.configs == pre.configs,
                self.dependencies == pre.dependencies,
                self.kong == pre.kong,
                self._region == pre._region,
                self.serviceAnnotations == pre.serviceAnnotations,
                self._decoded_secrets == pre._decoded_secrets,
                self.disabled == pre.disabled,
                self.external == pre.external,
                self.version == pre.version,
                self.command == pre.command,
                self.metadata == pre.metadata,
                self.language == pre.language,
                self.resources == pre.resources,
                self.hostAliases == pre.hostAliases,
                self.volumeMounts == pre.volumeMounts,
                self.initContainers == pre.initContainers,
                self.httpPort == pre.httpPort,
                self.vault == pre.vault,
                self.health == pre.health,
                self.regions == pre.regions,
                self.volumes == pre.volumes,
            decreases s.len() - i,
        {
            let k = reg.env.entries[i].0.clone();
            let v = reg.env.entries[i].1.clone();
            let ghost before = self.env@;
            proof {
                let p = s.take(i as int);
                assert(s.take(i + 1).drop_last() =~= p);
                if pairs_view(p).contains_key(k@) {
                    lemma_view_keys(p, k@);
                    let j = choose|j: int| 0 <= j < p.len() && p[j].0@ == k@;
                    assert(s[j].0@ == s[i as int].0@);
                }
            }
            self.env.insert_if_absent(k, v);
            proof {
                let p = s.take(i as int);
                assert(pairs_view(s.take(i + 1)) == pairs_view(p).insert(k@, v@));
                assert(self.env@ =~= pairs_view(s.take(i + 1)).union_prefer_right(pre.env@));
            }
            i = i + 1;
        }
        proof {
            assert(s.take(s.len() as int) =~= s);
        }
    }

    /// Fills unset fields from the global config and, where one is given, binds the manifest to
    /// a region and adds that region's defaults. Fails, leaving the manifest as it was, when the
    /// region is not in the config.
    pub fn implicits(&mut self, conf: &Config, region: Option<String>) -> (r: ManifestResult<()>)
        requires
            old(self).wf(),
            conf.wf(),
        ensures
            final(self).wf(),
            r is Err <==> (region matches Some(g) && !conf.has_region(g@)),
            r is Err ==> r->Err_0.kind == ErrorKind::UnknownRegion && *final(self) == *old(self),
            r is Ok ==> implicits_applied(*old(self), *final(self), *conf, opt_view(region)),
    {
        let ghost pre = *self;
        let mut idx: Option<usize> = None;
        if let Some(r) = &region {
            match conf.find_region(r.as_str()) {
                Some(i) => {
                    idx = Some(i);
                },
                None => {
                    return Err(ManifestError::new(ErrorKind::UnknownRegion, "Unknown region in config"));
                },
            }
        }
        if self.image.is_none() {
            // image name defaults to a prefixed version of the service name
            let img = conf.defaults.imagePrefix.clone().concat("/").concat(self.name.as_str());
            self.image = Some(img);
        }
        if let Some(r) = region {
            let i = idx.unwrap();
            let reg = &conf.regions[i];
            self._region = r;
            self.add_region_env(reg);
            // the gateway has implicit, region-scoped values
            match &mut self.kong {
                Some(kong) => {
                    kong.implicits(&self.name, reg);
                },
                None => {},
            }
        }
        if self.chart.as_str().is_empty() {
            self.chart = conf.defaults.chart.clone();
        }
        if self.replicaCount.is_none() {
            self.replicaCount = Some(conf.defaults.replicaCount);
        }
        // data handling has cascading encryption values
        self.dataHandling.implicits();
        // config map implicit name
        match &mut self.configs {
            Some(cfg) => {
                if cfg.name.is_none() {
                    cfg.name = Some(self.name.clone().concat("-config"));
                }
            },
            None => {},
        }
        let ghost mid = *self;
        let mut j: usize = 0;
        while j < self.dependencies.len()
            invariant
                self.dependencies@.len() == mid.dependencies@.len(),
                j <= self.dependencies@.len(),
                forall|k: int|
                    0 <= k < j ==> dependency_defaulted(
                        mid.dependencies@[k],
                        #[trigger] self.dependencies@[k],
                    ),
                forall|k: int|
                    j <= k < self.dependencies@.len() ==> #[trigger] self.dependencies@[k]
                        == mid.dependencies@[k],
                self.wf(),
                self.name == mid.name,
                self.image == mid.image,
                self.chart == mid.chart,
                self.replicaCount == mid.replicaCount,
                self.dataHandling == mid.dataHandling,
                self.configs == mid.configs,
                self.env == mid.env,
                self.kong == mid.kong,
                self._region == mid._region,
                self.serviceAnnotations == mid.serviceAnnotations,
                self._decoded_secrets == mid._decoded_secrets,
                self.disabled == mid.disabled,
                self.external == mid.external,
                self.version == mid.version,
                self.command == mid.command,
                self.metadata == mid.metadata,
                self.language == mid.language,
                self.resources == mid.resources,
                self.hostAliases == mid.hostAliases,
                self.volumeMounts == mid.volumeMounts,
                self.initContainers == mid.initContainers,
                self.httpPort == mid.httpPort,
                self.vault == mid.vault,
                self.health == mid.health,
                self.regions == mid.regions,
                self.volumes == mid.volumes,
            decreases self.dependencies@.len() - j,
        {
            self.dependencies[j].implicits();
            j = j + 1;
        }
        proof {
            reveal_strlit("/");
            reveal_strlit("-config");
        }
        Ok(())
    }

    /// Merges a region-specific override onto the manifest. Only the environment (override
    /// entries win), the gateway block, the version, the resources, the init containers and the
    /// host aliases are taken from it; all else in it is ignored. Fails, leaving the manifest as
    /// it was, when the override brings a host alias without an ip or without hostnames.
    pub fn merge(&mut self, mf: Manifest) -> (r: ManifestResult<()>)
        requires
            old(self).wf(),
            mf.wf(),
        ensures
            final(self).wf(),
            r is Err <==> exists|i: int|
                0 <= i < mf.hostAliases@.len() && !(#[trigger] mf.hostAliases@[i]).well_formed(),
            r is Err ==> r->Err_0.kind == ErrorKind::InvalidHostAlias && *final(self) == *old(self),
            r is Ok ==> merged(*old(self), mf, *final(self)),
    {
        // validate the host aliases before anything is taken over
        let mut i: usize = 0;
        while i < mf.hostAliases.len()
            invariant
                self.wf(),
                i <= mf.hostAliases@.len(),
                forall|j: int| 0 <= j < i ==> (#[trigger] mf.hostAliases@[j]).well_formed(),
            decreases mf.hostAliases@.len() - i,
        {
            if !mf.hostAliases[i].is_well_formed() {
                return Err(
                    ManifestError::new(
                        ErrorKind::InvalidHostAlias,
                        "Host alias should have an ip and at least one hostname",
                    ),
                );
            }
            i = i + 1;
        }
        let ghost pre = *self;
        let ghost s = mf.env.entries@;
        let mut k: usize = 0;
        while k < mf.env.entries.len()
            invariant
                self.wf(),
                s == mf.env.entries@,
                k <= s.len(),
                self.env@ == pre.env@.union_prefer_right(pairs_view(s.take(k as int))),
                self.serviceAnnotations == pre.serviceAnnotations,
                self._decoded_secrets == pre._decoded_secrets,
                self.name == pre.name,
                self.image == pre.image,
                self.chart == pre.chart,
                self.replicaCount == pre.replicaCount,
                self.dataHandling == pre.dataHandling,
                self.configs == pre.configs,
                self.dependencies == pre.dependencies,
                self.kong == pre.kong,
                self._region == pre._region,
                self.disabled == pre.disabled,
                self.external == pre.external,
                self.version == pre.version,
                self.command == pre.command,
                self.metadata == pre.metadata,
                self.language == pre.language,
                self.resources == pre.resources,
                self.hostAliases == pre.hostAliases,
                self.volumeMounts == pre.volumeMounts,
                self.initContainers == pre.initContainers,
                self.httpPort == pre.httpPort,
                self.vault == pre.vault,
                self.health == pre.health,
                self.regions == pre.regions,
                self.volumes == pre.volumes,
            decreases s.len() - k,
        {
            let key = mf.env.entries[k].0.clone();
            let val = mf.env.entries[k].1.clone();
            self.env.insert(key, val);
            proof {
                assert(s.take(k + 1).drop_last() =~= s.take(k as int));
                assert(self.env@ =~= pre.env@.union_prefer_right(pairs_view(s.take(k + 1))));
            }
            k = k + 1;
        }
        proof {
            assert(s.take(s.len() as int) =~= s);
        }
        // the gateway block is replaced as a whole
        if mf.kong.is_some() {
            self.kong = mf.kong;
        }
        if mf.version.is_some() {
            self.version = mf.version;
        }
        if mf.resources.is_some() {
            self.resources = mf.resources;
        }
        if mf.initContainers.len() > 0 {
            self.initContainers = mf.initContainers;
        }
        if mf.hostAliases.len() > 0 {
            self.hostAliases = mf.hostAliases;
        }
        Ok(())
    }

    /// The identity rules on the name: a match of the name pattern (`pattern_ok`), and a dash
    /// neither first nor last.
    pub open spec fn name_valid(name: Seq<char>, pattern_ok: bool) -> bool {
        pattern_ok && !(name.len() > 0 && (name[0] == '-' || name.last() == '-'))
    }

    /// The checks that an externally managed service skips.
    pub open spec fn deployment_valid(&self, conf: &Config) -> bool {
        &&& self.resources matches Some(res) && res.valid(conf)
        &&& forall|i: int|
            0 <= i < self.dependencies@.len() ==> (#[trigger] self.dependencies@[i]).valid(conf)
        &&& forall|i: int|
            0 <= i < self.hostAliases@.len() ==> (#[trigger] self.hostAliases@[i]).valid(conf)
        &&& forall|i: int|
            0 <= i < self.initContainers@.len() ==> (#[trigger] self.initContainers@[i]).valid(
                conf,
            )
        &&& (self.configs matches Some(c) ==> c.valid(conf))
        &&& self.replicaCount matches Some(n) && n >= 1
        &&& forall|i: int|
            0 <= i < self.regions@.len() ==> conf.has_region((#[trigger] self.regions@[i])@)
        &&& self.regions@.len() > 0
        &&& !(self.httpPort is Some && self.health is None)
    }

    /// Whether the manifest passes validation, given whether its name matches the name pattern.
    pub open spec fn valid_with(&self, conf: &Config, pattern_ok: bool) -> bool {
        &&& Self::name_valid(self.name@, pattern_ok)
        &&& self.dataHandling.valid(conf)
        &&& self.metadata.valid(conf)
        &&& (self.external || self.deployment_valid(conf))
    }

    /// Checks every item of `v`, stopping at the first that fails.
    fn verify_all<T: Verify>(v: &Vec<T>, conf: &Config) -> (r: ManifestResult<()>)
        ensures
            r is Ok <==> forall|i: int| 0 <= i < v@.len() ==> (#[trigger] v@[i]).valid(conf),
            r is Err ==> r->Err_0.kind == ErrorKind::ValidationFailure,
    {
        let mut i: usize = 0;
        while i < v.len()
            invariant
                i <= v@.len(),
                forall|j: int| 0 <= j < i ==> (#[trigger] v@[j]).valid(conf),
            decreases v@.len() - i,
        {
            let r = v[i].verify(conf);
            if r.is_err() {
                return r;
            }
            i = i + 1;
        }
        Ok(())
    }

    /// Checks the name rules, given whether the name matches the name pattern.
    pub fn verify_name(name: &String, pattern_ok: bool) -> (r: ManifestResult<()>)
        ensures
            r is Ok <==> Self::name_valid(name@, pattern_ok),
            r is Err ==> r->Err_0.kind == ErrorKind::ValidationFailure,
    {
        if !pattern_ok {
            return Err(
                ManifestError::new(
                    ErrorKind::ValidationFailure,
                    "Please use a short, lower case service names with dashes",
                ),
            );
        }
        let s = name.as_str();
        let n = s.unicode_len();
        if n > 0 && (s.get_char(0) == '-' || s.get_char(n - 1) == '-') {
            return Err(
                ManifestError::new(
                    ErrorKind::ValidationFailure,
                    "Please use dashes to separate words only",
                ),
            );
        }
        Ok(())
    }

    /// Validates the manifest, given whether its name matches the name pattern; the first
    /// hard failure ends it, with a reason that names the service. Missing ports, health checks
    /// and service annotations are no failures.
    pub fn verify_with(&self, conf: &Config, pattern_ok: bool) -> (r: ManifestResult<()>)
        requires
            conf.wf(),
        ensures
            r is Ok <==> self.valid_with(conf, pattern_ok),
            r is Err ==> r->Err_0.kind == ErrorKind::ValidationFailure && names_subject(
                r->Err_0,
                self.name@,
            ),
    {
        match self.run_checks(conf, pattern_ok) {
            Ok(()) => Ok(()),
            Err(e) => Err(e.about(&self.name)),
        }
    }

    fn run_checks(&self, conf: &Config, pattern_ok: bool) -> (r: ManifestResult<()>)
        requires
            conf.wf(),
        ensures
            r is Ok <==> self.valid_with(conf, pattern_ok),
            r is Err ==> r->Err_0.kind == ErrorKind::ValidationFailure,
    {
        Self::verify_name(&self.name, pattern_ok)?;
        self.dataHandling.verify(conf)?;
        self.metadata.verify(conf)?;
        if self.external {
            // externally managed services are assumed valid beyond this
            return Ok(());
        }
        match &self.resources {
            Some(res) => {
                res.verify(conf)?;
            },
            None => {
                return Err(ManifestError::new(ErrorKind::ValidationFailure, "Resources is mandatory"));
            },
        }
        Self::verify_all(&self.dependencies, conf)?;
        Self::verify_all(&self.hostAliases, conf)?;
        Self::verify_all(&self.initContainers, conf)?;
        match &self.configs {
            Some(c) => {
                c.verify(conf)?;
            },
            None => {},
        }
        match self.replicaCount {
            Some(n) => {
                if n == 0 {
                    return Err(
                        ManifestError::new(
                            ErrorKind::ValidationFailure,
                            "Need replicaCount to be at least 1",
                        ),
                    );
                }
            },
            None => {
                return Err(ManifestError::new(ErrorKind::ValidationFailure, "replicaCount is unset"));
            },
        }
        let mut i: usize = 0;
        while i < self.regions.len()
            invariant
                conf.wf(),
                !self.external,
                Self::name_valid(self.name@, pattern_ok),
                self.dataHandling.valid(conf),
                self.metadata.valid(conf),
                i <= self.regions@.len(),
                forall|j: int| 0 <= j < i ==> conf.has_region((#[trigger] self.regions@[j])@),
            decreases self.regions@.len() - i,
        {
            if conf.find_region(self.regions[i].as_str()).is_none() {
                assert(!conf.has_region(self.regions@[i as int]@));
                return Err(
                    ManifestError::new(
                        ErrorKind::ValidationFailure,
                        "Unsupported region without entry in config",
                    ),
                );
            }
            i = i + 1;
        }
        if self.regions.len() == 0 {
            return Err(ManifestError::new(ErrorKind::ValidationFailure, "No regions specified"));
        }
        // every service that exposes http must have a health check
        if self.httpPort.is_some() && self.health.is_none() {
            return Err(
                ManifestError::new(ErrorKind::ValidationFailure, "httpPort set but no health check"),
            );
        }
        Ok(())
    }

    /// Validates a manifest that implicits has bound to a region: its name against the name
    /// pattern `^[0-9a-z\-]{1,40}$`, then as `verify_with` does.
    pub fn verify(&self, conf: &Config) -> (r: ManifestResult<()>)
        requires
            conf.wf(),
            self._region@.len() > 0,
        ensures
            r is Ok <==> self.valid_with(conf, name_shape(self.name@)),
            r is Err ==> r->Err_0.kind == ErrorKind::ValidationFailure && names_subject(
                r->Err_0,
                self.name@,
            ),
    {
        match pattern_matches(NAME_PATTERN, self.name.as_str()) {
            Some(ok) => self.verify_with(conf, ok),
            None => Err(ManifestError::new(ErrorKind::ValidationFailure, "Invalid name pattern")),
        }
    }

    /// The service name that secrets are kept under: the vault options' name if set.
    pub open spec fn secret_service(&self) -> Seq<char> {
        match self.vault {
            Some(v) => v.name@,
            None => self.name@,
        }
    }

    /// The region that secrets are kept under: the vault options' region if set, else `region`.
    pub open spec fn secret_region(&self, region: Seq<char>) -> Seq<char> {
        match self.vault {
            Some(v) => match v.region {
                Some(r) => r@,
                None => region,
            },
            None => region,
        }
    }

    /// The region and service that the secrets of this manifest are kept under.
    pub fn secret_scope(&self, region: &String) -> (r: (String, String))
        ensures
            r.0@ == self.secret_region(region@),
            r.1@ == self.secret_service(),
    {
        match &self.vault {
            Some(v) => {
                let reg = match &v.region {
                    Some(x) => x.clone(),
                    None => region.clone(),
                };
                (reg, v.name.clone())
            },
            None => (region.clone(), self.name.clone()),
        }
    }

    /// The secret store keys to read, one for each variable whose value is the placeholder.
    pub fn secret_keys(&self, region: &String) -> (r: Vec<String>)
        requires
            self.wf(),
        ensures
            forall|j: int|
                0 <= j < r@.len() ==> secret_key_set(
                    self.env@,
                    self.secret_region(region@),
                    self.secret_service(),
                ).contains((#[trigger] r@[j])@),
            forall|vk: Seq<char>|
                #[trigger] secret_key_set(
                    self.env@,
                    self.secret_region(region@),
                    self.secret_service(),
                ).contains(vk) ==> exists|j: int| 0 <= j < r@.len() && r@[j]@ == vk,
            forall|a: int, b: int| 0 <= a < b < r@.len() ==> r@[a]@ != r@[b]@,
    {
        let (reg, svc) = self.secret_scope(region);
        let ghost es = self.env.entries@;
        let ghost keys = secret_key_set(self.env@, reg@, svc@);
        let mut out: Vec<String> = Vec::new();
        let mut i: usize = 0;
        while i < self.env.entries.len()
            invariant
                self.wf(),
                es == self.env.entries@,
                keys == secret_key_set(self.env@, reg@, svc@),
                i <= es.len(),
                forall|j: int| 0 <= j < out@.len() ==> keys.contains((#[trigger] out@[j])@),
                forall|j: int|
                    0 <= j < out@.len() ==> exists|e: int|
                        0 <= e < i && (#[trigger] out@[j])@ == vault_key(reg@, svc@, es[e].0@),
                forall|a: int, b: int| 0 <= a < b < out@.len() ==> out@[a]@ != out@[b]@,
                forall|e: int|
                    0 <= e < i && (#[trigger] es[e]).1@ == in_vault() ==> exists|j: int|
                        0 <= j < out@.len() && out@[j]@ == vault_key(reg@, svc@, es[e].0@),
            decreases es.len() - i,
        {
            if is_in_vault(&self.env.entries[i].1) {
                let vk = vault_key_of(&reg, &svc, &self.env.entries[i].0);
                proof {
                    lemma_view_has(es, i as int);
                    assert(is_placeholder(self.env@, es[i as int].0@));
                    assert(keys.contains(vk@));
                }
                let ghost out0 = out@;
                proof {
                    assert forall|j: int| 0 <= j < out0.len() implies out0[j]@ != vk@ by {
                        let e = choose|e: int|
                            0 <= e < i && out0[j]@ == vault_key(reg@, svc@, es[e].0@);
                        if out0[j]@ == vk@ {
                            lemma_vault_key_injective(reg@, svc@, es[e].0@, es[i as int].0@);
                        }
                    }
                }
                out.push(vk);
                proof {
                    assert forall|j: int| 0 <= j < out@.len() implies exists|e: int|
                        0 <= e < i + 1 && (#[trigger] out@[j])@ == vault_key(reg@, svc@, es[e].0@) by {
                        if j < out0.len() {
                            assert(out@[j] == out0[j]);
                            let e = choose|e: int|
                                0 <= e < i && out0[j]@ == vault_key(reg@, svc@, es[e].0@);
                        } else {
                            assert(out@[j]@ == vault_key(reg@, svc@, es[i as int].0@));
                        }
                    }
                    assert forall|a: int, b: int| 0 <= a < b < out@.len() implies out@[a]@ != out@[b]@ by {
                        if b < out0.len() {
                            assert(out@[a] == out0[a] && out@[b] == out0[b]);
                        } else {
                            assert(out@[a] == out0[a]);
                        }
                    }
                    assert forall|e: int|
                        0 <= e < i + 1 && (#[trigger] es[e]).1@ == in_vault() implies exists|j: int|
                        0 <= j < out@.len() && out@[j]@ == vault_key(reg@, svc@, es[e].0@) by {
                        if e < i {
                            let j = choose|j: int|
                                0 <= j < out0.len() && out0[j]@ == vault_key(reg@, svc@, es[e].0@);
                            assert(out@[j] == out0[j]);
                        } else {
                            assert(out@[out0.len() as int]@ == vault_key(reg@, svc@, es[e].0@));
                        }
                    }
                }
            }
            i = i + 1;
        }
        proof {
            assert forall|vk: Seq<char>| #[trigger] keys.contains(vk) implies exists|j: int|
                0 <= j < out@.len() && out@[j]@ == vk by {
                let k = choose|k: Seq<char>| is_placeholder(self.env@, k) && vk == vault_key(reg@, svc@, k);
                lemma_view_keys(es, k);
                let e = choose|e: int| 0 <= e < es.len() && es[e].0@ == k;
                lemma_view_has(es, e);
                assert(es[e].1@ == in_vault());
            }
        }
        out
    }

    /// Replaces every placeholder variable with the secret that `found` holds under its secret
    /// store key, and records each such key and secret among the decoded secrets. Fails, leaving
    /// the manifest as it was, when `found` lacks one of those keys.
    pub fn secrets(&mut self, region: &String, found: &EnvMap) -> (r: ManifestResult<()>)
        requires
            old(self).wf(),
            found.wf(),
        ensures
            final(self).wf(),
            r is Err <==> exists|k: Seq<char>|
                is_placeholder(old(self).env@, k) && !found@.contains_key(
                    #[trigger] vault_key(
                        old(self).secret_region(region@),
                        old(self).secret_service(),
                        k,
                    ),
                ),
            r is Err ==> r->Err_0.kind == ErrorKind::SecretNotFound && *final(self) == *old(self),
            r is Ok ==> final(self).env@ == substituted(
                old(self).env@,
                found@,
                old(self).secret_region(region@),
                old(self).secret_service(),
            ),
            r is Ok ==> final(self)._decoded_secrets@ == old(self)._decoded_secrets@.union_prefer_right(
                found@.restrict(
                    secret_key_set(
                        old(self).env@,
                        old(self).secret_region(region@),
                        old(self).secret_service(),
                    ),
                ),
            ),
            final(self).name == old(self).name,
            final(self).vault == old(self).vault,
            final(self).regions == old(self).regions,
            final(self).external == old(self).external,
            final(self).disabled == old(self).disabled,
            final(self).image == old(self).image,
            final(self).version == old(self).version,
            final(self).resources == old(self).resources,
            final(self).health == old(self).health,
            final(self).httpPort == old(self).httpPort,
            final(self)._region == old(self)._region,
    {
        let (reg, svc) = self.secret_scope(region);
        let ghost es = self.env.entries@;
        let ghost pre = *self;
        // every lookup must succeed before anything is replaced
        let mut i: usize = 0;
        while i < self.env.entries.len()
            invariant
                self.wf(),
                found.wf(),
                *self == pre,
                reg@ == pre.secret_region(region@),
                svc@ == pre.secret_service(),
                es == self.env.entries@,
                i <= es.len(),
                forall|e: int|
                    0 <= e < i && (#[trigger] es[e]).1@ == in_vault() ==> found@.contains_key(
                        vault_key(reg@, svc@, es[e].0@),
                    ),
            decreases es.len() - i,
        {
            if is_in_vault(&self.env.entries[i].1) {
                let vk = vault_key_of(&reg, &svc, &self.env.entries[i].0);
                if !found.contains_key(vk.as_str()) {
                    proof {
                        lemma_view_has(es, i as int);
                        assert(is_placeholder(pre.env@, es[i as int].0@));
                        assert(!found@.contains_key(
                            vault_key(pre.secret_region(region@), pre.secret_service(), es[i as int].0@),
                        ));
                    }
                    return Err(ManifestError::new(ErrorKind::SecretNotFound, "Secret not found"));
                }
            }
            i = i + 1;
        }
        proof {
            assert forall|k: Seq<char>| is_placeholder(pre.env@, k) implies found@.contains_key(
                #[trigger] vault_key(reg@, svc@, k),
            ) by {
                lemma_view_keys(es, k);
                let e = choose|e: int| 0 <= e < es.len() && es[e].0@ == k;
                lemma_view_has(es, e);
            }
        }
        let ghost dec0 = self._decoded_secrets@;
        let mut i: usize = 0;
        while i < self.env.entries.len()
            invariant
                self.wf(),
                found.wf(),
                reg@ == pre.secret_region(region@),
                svc@ == pre.secret_service(),
                es == pre.env.entries@,
                es.len() == self.env.entries@.len(),
                i <= es.len(),
                forall|e: int| 0 <= e < es.len() ==> (#[trigger] self.env.entries@[e]).0 == es[e].0,
                forall|e: int|
                    0 <= e < es.len() && (#[trigger] es[e]).1@ == in_vault() ==> found@.contains_key(
                        vault_key(reg@, svc@, es[e].0@),
                    ),
                forall|e: int|
                    0 <= e < i ==> (#[trigger] self.env.entries@[e]).1@ == if es[e].1@ == in_vault() {
                        found@[vault_key(reg@, svc@, es[e].0@)]
                    } else {
                        es[e].1@
                    },
                forall|e: int| i <= e < es.len() ==> #[trigger] self.env.entries@[e] == es[e],
                self._decoded_secrets@ == dec0.union_prefer_right(
                    found@.restrict(
                        Set::new(
                            |vk: Seq<char>|
                                exists|e: int|
                                    0 <= e < i && es[e].1@ == in_vault() && vk == vault_key(
                                        reg@,
                                        svc@,
                                        es[e].0@,
                                    ),
                        ),
                    ),
                ),
                self.name == pre.name,
                self.vault == pre.vault,
                self.regions == pre.regions,
                self.external == pre.external,
                self.disabled == pre.disabled,
                self.image == pre.image,
                self.version == pre.version,
                self.resources == pre.resources,
                self.health == pre.health,
                self.httpPort == pre.httpPort,
                self._region == pre._region,
            decreases es.len() - i,
        {
            let ghost dec_before = self._decoded_secrets@;
            if is_in_vault(&self.env.entries[i].1) {
                let vk = vault_key_of(&reg, &svc, &self.env.entries[i].0);
                assert(es[i as int].1@ == in_vault());
                let secret = found.get(vk.as_str()).unwrap();
                let ghost s0 = self.env.entries@;
                proof {
                    lemma_view_update(s0, i as int, secret);
                }
                self.env.entries[i].1 = secret.clone();
                proof {
                    assert(self.env.entries@ =~= s0.update(i as int, (s0[i as int].0, secret)));
                    assert forall|a: int, b: int|
                        0 <= a < self.env.entries@.len() && 0 <= b < self.env.entries@.len() && a
                            != b implies self.env.entries@[a].0@ != self.env.entries@[b].0@ by {
                        assert(s0[a].0@ != s0[b].0@);
                    }
                }
                self._decoded_secrets.insert(vk, secret);
                proof {
                    assert(self._decoded_secrets@ =~= dec0.union_prefer_right(
                        found@.restrict(
                            Set::new(
                                |w: Seq<char>|
                                    exists|e: int|
                                        0 <= e < i + 1 && es[e].1@ == in_vault() && w == vault_key(
                                            reg@,
                                            svc@,
                                            es[e].0@,
                                        ),
                            ),
                        ),
                    ));
                }
            } else {
                proof {
                    assert(self._decoded_secrets@ =~= dec0.union_prefer_right(
                        found@.restrict(
                            Set::new(
                                |w: Seq<char>|
                                    exists|e: int|
                                        0 <= e < i + 1 && es[e].1@ == in_vault() && w == vault_key(
                                            reg@,
                                            svc@,
                                            es[e].0@,
                                        ),
                            ),
                        ),
                    ));
                }
            }
            i = i + 1;
        }
        proof {
            let post = self.env.entries@;
            let m = substituted(pre.env@, found@, reg@, svc@);
            assert forall|k: Seq<char>| #[trigger] self.env@.contains_key(k) <==> m.contains_key(k) by {
                if self.env@.contains_key(k) {
                    lemma_view_keys(post, k);
                    let e = choose|e: int| 0 <= e < post.len() && post[e].0@ == k;
                    lemma_view_has(es, e);
                }
                if pre.env@.contains_key(k) {
                    lemma_view_keys(es, k);
                    let e = choose|e: int| 0 <= e < es.len() && es[e].0@ == k;
                    assert(post[e].0 == es[e].0);
                    lemma_view_has(post, e);
                }
            }
            assert forall|k: Seq<char>| #[trigger] self.env@.contains_key(k) implies self.env@[k]
                == m[k] by {
                lemma_view_keys(post, k);
                let e = choose|e: int| 0 <= e < post.len() && post[e].0@ == k;
                lemma_view_has(post, e);
                lemma_view_has(es, e);
            }
            assert(self.env@ =~= m);
            let s1 = Set::new(
                |w: Seq<char>|
                    exists|e: int|
                        0 <= e < es.len() && es[e].1@ == in_vault() && w == vault_key(
                            reg@,
                            svc@,
                            es[e].0@,
                        ),
            );
            let s2 = secret_key_set(pre.env@, reg@, svc@);
            assert forall|w: Seq<char>| s1.contains(w) <==> s2.contains(w) by {
                if s1.contains(w) {
                    let e = choose|e: int|
                        0 <= e < es.len() && es[e].1@ == in_vault() && w == vault_key(
                            reg@,
                            svc@,
                            es[e].0@,
                        );
                    lemma_view_has(es, e);
                    assert(is_placeholder(pre.env@, es[e].0@));
                }
                if s2.contains(w) {
                    let k = choose|k: Seq<char>| is_placeholder(pre.env@, k) && w == vault_key(reg@, svc@, k);
                    lemma_view_keys(es, k);
                    let e = choose|e: int| 0 <= e < es.len() && es[e].0@ == k;
                    lemma_view_has(es, e);
                }
            }
            assert(s1 =~= s2);
        }
        Ok(())
    }

    /// Binds the manifest to `region` with implicits, then merges the region's override if there
    /// is one.
    pub fn fill(&mut self, conf: &Config, region: &String, ov: Option<Manifest>) -> (r: ManifestResult<()>)
        requires
            old(self).wf(),
            conf.wf(),
            ov matches Some(o) ==> o.wf(),
        ensures
            final(self).wf(),
            !conf.has_region(region@) ==> fails_with(r, ErrorKind::UnknownRegion),
            conf.has_region(region@) ==> (r is Err <==> (ov matches Some(o) && exists|i: int|
                0 <= i < o.hostAliases@.len() && !(#[trigger] o.hostAliases@[i]).well_formed())),
            conf.has_region(region@) && r is Err ==> r->Err_0.kind == ErrorKind::InvalidHostAlias
                && implicits_applied(*old(self), *final(self), *conf, Some(region@)),
            !conf.has_region(region@) ==> *final(self) == *old(self),
            final(self)._decoded_secrets == old(self)._decoded_secrets,
            r is Ok ==> exists|m: Manifest|
                implicits_applied(*old(self), m, *conf, Some(region@)) && match ov {
                    Some(o) => merged(m, o, *final(self)),
                    None => *final(self) == m,
                },
    {
        self.implicits(conf, Some(region.clone()))?;
        let ghost mid = *self;
        match ov {
            Some(o) => {
                self.merge(o)?;
            },
            None => {},
        }
        assert(implicits_applied(*old(self), mid, *conf, Some(region@)));
        Ok(())
    }

    /// A manifest of `service`, completed for `region`: `mf` as read from the service's source,
    /// which must bear the service's name, with implicits applied and the region's override `ov` merged.
    pub fn completed(
        region: &String,
        conf: &Config,
        service: &String,
        mf: Manifest,
        ov: Option<Manifest>,
    ) -> (r: ManifestResult<Manifest>)
        requires
            conf.wf(),
            mf.wf(),
            ov matches Some(o) ==> o.wf(),
        ensures
            mf.name@ != service@ ==> fails_with(r, ErrorKind::IdentityMismatch),
            mf.name@ == service@ && !conf.has_region(region@) ==> fails_with(r, ErrorKind::UnknownRegion),
            mf.name@ == service@ && conf.has_region(region@) ==> (r is Err <==> (ov matches Some(o) && exists|i: int|
                0 <= i < o.hostAliases@.len() && !(#[trigger] o.hostAliases@[i]).well_formed())),
            r matches Ok(m) ==> m.wf() && exists|x: Manifest|
                implicits_applied(mf, x, *conf, Some(region@)) && match ov {
                    Some(o) => merged(x, o, m),
                    None => m == x,
                },
    {
        if !str_eq(mf.name.as_str(), service.as_str()) {
            return Err(
                ManifestError::new(
                    ErrorKind::IdentityMismatch,
                    "Manifest name does not match the service",
                ).about(service),
            );
        }
        let mut m = mf;
        m.fill(conf, region, ov)?;
        Ok(m)
    }

    /// The base manifest of `service`: `mf` as read from the service's source, which must bear
    /// the service's name, with implicits applied for `region` if one is given.
    pub fn basic(service: &String, conf: &Config, region: Option<String>, mf: Manifest) -> (r:
        ManifestResult<Manifest>)
        requires
            conf.wf(),
            mf.wf(),
        ensures
            mf.name@ != service@ ==> fails_with(r, ErrorKind::IdentityMismatch),
            mf.name@ == service@ ==> (r is Err <==> (region matches Some(g) && !conf.has_region(
                g@,
            ))),
            mf.name@ == service@ && r is Err ==> r->Err_0.kind == ErrorKind::UnknownRegion,
            r matches Ok(m) ==> m.wf() && implicits_applied(mf, m, *conf, opt_view(region)),
    {
        if !str_eq(mf.name.as_str(), service.as_str()) {
            return Err(
                ManifestError::new(
                    ErrorKind::IdentityMismatch,
                    "Service name must equal the folder name",
                ),
            );
        }
        let mut m = mf;
        m.implicits(conf, region)?;
        Ok(m)
    }

    /// Whether `regions` names `region`.
    pub fn supports(&self, region: &String) -> (r: bool)
        ensures
            r == exists|i: int| 0 <= i < self.regions@.len() && (#[trigger] self.regions@[i])@ == region@,
    {
        let mut i: usize = 0;
        while i < self.regions.len()
            invariant
                i <= self.regions@.len(),
                forall|j: int| 0 <= j < i ==> (#[trigger] self.regions@[j])@ != region@,
            decreases self.regions@.len() - i,
        {
            if str_eq(self.regions[i].as_str(), region.as_str()) {
                return true;
            }
            i = i + 1;
        }
        false
    }
}

/// The key under which the secret store keeps variable `k` of service `svc` in region `reg`.
pub open spec fn vault_key(reg: Seq<char>, svc: Seq<char>, k: Seq<char>) -> Seq<char> {
    reg + "/"@ + svc + "/"@ + k
}

/// Distinct variables have distinct secret store keys.
pub proof fn lemma_vault_key_injective(reg: Seq<char>, svc: Seq<char>, a: Seq<char>, b: Seq<char>)
    requires
        vault_key(reg, svc, a) == vault_key(reg, svc, b),
    ensures
        a == b,
{
    let p = reg + "/"@ + svc + "/"@;
    assert(vault_key(reg, svc, a) == p + a);
    assert(vault_key(reg, svc, b) == p + b);
    assert((p + a).subrange(p.len() as int, (p + a).len() as int) =~= a);
    assert((p + b).subrange(p.len() as int, (p + b).len() as int) =~= b);
}

/// Whether variable `k` of `env` waits for a value from the secret store.
pub open spec fn is_placeholder(env: Map<Seq<char>, Seq<char>>, k: Seq<char>) -> bool {
    env.contains_key(k) && env[k] == in_vault()
}

/// The secret store keys that the placeholders of `env` are looked up under.
pub open spec fn secret_key_set(env: Map<Seq<char>, Seq<char>>, reg: Seq<char>, svc: Seq<char>) -> Set<
    Seq<char>,
> {
    Set::new(|vk: Seq<char>| exists|k: Seq<char>| is_placeholder(env, k) && vk == vault_key(reg, svc, k))
}

/// `env` with each placeholder replaced by the secret found under its key.
pub open spec fn substituted(
    env: Map<Seq<char>, Seq<char>>,
    found: Map<Seq<char>, Seq<char>>,
    reg: Seq<char>,
    svc: Seq<char>,
) -> Map<Seq<char>, Seq<char>> {
    Map::new(
        |k: Seq<char>| env.contains_key(k),
        |k: Seq<char>|
            if env[k] == in_vault() {
                found[vault_key(reg, svc, k)]
            } else {
                env[k]
            },
    )
}

/// The secret store key of variable `k`.
pub fn vault_key_of(reg: &String, svc: &String, k: &String) -> (r: String)
    ensures
        r@ == vault_key(reg@, svc@, k@),
{
    let r = reg.clone().concat("/").concat(svc.as_str()).concat("/").concat(k.as_str());
    proof {
        reveal_strlit("/");
    }
    r
}

fn is_in_vault(v: &String) -> (r: bool)
    ensures
        r == (v@ == in_vault()),
{
    str_eq(v.as_str(), "IN_VAULT")
}

/// The pattern that service names match: lower case letters, digits and dashes, 1 to 40 of them.
pub const NAME_PATTERN: &'static str = "^[0-9a-z\\-]{1,40}$";

/// `new` is `base` with the allow-listed fields of the override `ov` merged on.
pub open spec fn merged(base: Manifest, ov: Manifest, new: Manifest) -> bool {
    &&& new.env@ == base.env@.union_prefer_right(ov.env@)
    &&& new.kong == if ov.kong is Some { ov.kong } else { base.kong }
    &&& new.version == if ov.version is Some { ov.version } else { base.version }
    &&& new.resources == if ov.resources is Some { ov.resources } else { base.resources }
    &&& new.initContainers == if ov.initContainers@.len() > 0 {
        ov.initContainers
    } else {
        base.initContainers
    }
    &&& new.hostAliases == if ov.hostAliases@.len() > 0 {
        ov.hostAliases
    } else {
        base.hostAliases
    }
    &&& new.name == base.name
    &&& new.image == base.image
    &&& new.chart == base.chart
    &&& new.replicaCount == base.replicaCount
    &&& new.dataHandling == base.dataHandling
    &&& new.configs == base.configs
    &&& new.dependencies == base.dependencies
    &&& new._region == base._region
    &&& new.serviceAnnotations == base.serviceAnnotations
    &&& new._decoded_secrets == base._decoded_secrets
    &&& new.disabled == base.disabled
    &&& new.external == base.external
    &&& new.command == base.command
    &&& new.metadata == base.metadata
    &&& new.language == base.language
    &&& new.volumeMounts == base.volumeMounts
    &&& new.httpPort == base.httpPort
    &&& new.vault == base.vault
    &&& new.health == base.health
    &&& new.regions == base.regions
    &&& new.volumes == base.volumes
}

/// Whether `a` and `b` agree on everything that validation reads.
pub open spec fn same_for_validation(a: Manifest, b: Manifest) -> bool {
    &&& a.name == b.name
    &&& a.external == b.external
    &&& a.metadata == b.metadata
    &&& a.resources == b.resources
    &&& a.hostAliases == b.hostAliases
    &&& a.initContainers == b.initContainers
    &&& a.replicaCount == b.replicaCount
    &&& a.regions == b.regions
    &&& a.httpPort == b.httpPort
    &&& a.health == b.health
    &&& a.dataHandling.stores@.len() == b.dataHandling.stores@.len()
    &&& forall|i: int|
        0 <= i < a.dataHandling.stores@.len() ==> {
            let x = #[trigger] a.dataHandling.stores@[i];
            let y = b.dataHandling.stores@[i];
            &&& x.backend == y.backend
            &&& x.fields@.len() == y.fields@.len()
            &&& forall|j: int| 0 <= j < x.fields@.len() ==> (#[trigger] x.fields@[j]).name == y.fields@[j].name
        }
    &&& a.dependencies@.len() == b.dependencies@.len()
    &&& forall|i: int|
        0 <= i < a.dependencies@.len() ==> (#[trigger] a.dependencies@[i]).name
            == b.dependencies@[i].name && (a.dependencies@[i].api is Some
            <==> b.dependencies@[i].api is Some)
    &&& match a.configs {
        None => b.configs is None,
        Some(x) => b.configs matches Some(y) && (x.name is Some <==> y.name is Some) && x.mount
            == y.mount && x.files == y.files,
    }
}

pub proof fn lemma_same_valid(a: Manifest, b: Manifest, conf: Config, pattern_ok: bool)
    requires
        same_for_validation(a, b),
    ensures
        a.valid_with(&conf, pattern_ok) == b.valid_with(&conf, pattern_ok),
{
    assert(a.dataHandling.valid(&conf) == b.dataHandling.valid(&conf)) by {
        if a.dataHandling.valid(&conf) {
            assert forall|i: int| 0 <= i < b.dataHandling.stores@.len() implies {
                let s = #[trigger] b.dataHandling.stores@[i];
                &&& crate::structs::filled(s.backend)
                &&& forall|j: int| 0 <= j < s.fields@.len() ==> crate::structs::filled(#[trigger] s.fields@[j].name)
            } by {
                let x = a.dataHandling.stores@[i];
                assert forall|j: int| 0 <= j < b.dataHandling.stores@[i].fields@.len() implies crate::structs::filled(
                    #[trigger] b.dataHandling.stores@[i].fields@[j].name) by {
                    assert(x.fields@[j].name == b.dataHandling.stores@[i].fields@[j].name);
                }
            }
        }
        if b.dataHandling.valid(&conf) {
            assert forall|i: int| 0 <= i < a.dataHandling.stores@.len() implies {
                let s = #[trigger] a.dataHandling.stores@[i];
                &&& crate::structs::filled(s.backend)
                &&& forall|j: int| 0 <= j < s.fields@.len() ==> crate::structs::filled(#[trigger] s.fields@[j].name)
            } by {
                let x = a.dataHandling.stores@[i];
                assert forall|j: int| 0 <= j < x.fields@.len() implies crate::structs::filled(
                    #[trigger] x.fields@[j].name) by {
                    assert(x.fields@[j].name == b.dataHandling.stores@[i].fields@[j].name);
                }
            }
        }
    }
    assert((forall|i: int| 0 <= i < a.dependencies@.len() ==> (#[trigger] a.dependencies@[i]).valid(&conf))
        == (forall|i: int| 0 <= i < b.dependencies@.len() ==> (#[trigger] b.dependencies@[i]).valid(&conf))) by {
        if forall|i: int| 0 <= i < a.dependencies@.len() ==> (#[trigger] a.dependencies@[i]).valid(&conf) {
            assert forall|i: int| 0 <= i < b.dependencies@.len() implies (#[trigger] b.dependencies@[i]).valid(&conf) by {
                assert(a.dependencies@[i].valid(&conf));
            }
        }
        if forall|i: int| 0 <= i < b.dependencies@.len() ==> (#[trigger] b.dependencies@[i]).valid(&conf) {
            assert forall|i: int| 0 <= i < a.dependencies@.len() implies (#[trigger] a.dependencies@[i]).valid(&conf) by {
                assert(b.dependencies@[i].valid(&conf));
            }
        }
    }
}

pub proof fn lemma_same_implicits(
    a: Manifest,
    a2: Manifest,
    b: Manifest,
    b2: Manifest,
    conf: Config,
    region: Option<Seq<char>>,
)
    requires
        same_for_validation(a, a2),
        implicits_applied(a, b, conf, region),
        implicits_applied(a2, b2, conf, region),
    ensures
        same_for_validation(b, b2),
{
    assert forall|i: int| 0 <= i < b.dataHandling.stores@.len() implies {
        let x = #[trigger] b.dataHandling.stores@[i];
        let y = b2.dataHandling.stores@[i];
        &&& x.backend == y.backend
        &&& x.fields@.len() == y.fields@.len()
        &&& forall|j: int| 0 <= j < x.fields@.len() ==> (#[trigger] x.fields@[j]).name == y.fields@[j].name
    } by {
        let x = b.dataHandling.stores@[i];
        let y = b2.dataHandling.stores@[i];
        let xo = a.dataHandling.stores@[i];
        let yo = a2.dataHandling.stores@[i];
        assert forall|j: int| 0 <= j < x.fields@.len() implies (#[trigger] x.fields@[j]).name == y.fields@[j].name by {
            assert(xo.fields@[j].name == yo.fields@[j].name);
        }
    }
    assert forall|i: int| 0 <= i < b.dependencies@.len() implies (#[trigger] b.dependencies@[i]).name
        == b2.dependencies@[i].name && (b.dependencies@[i].api is Some <==> b2.dependencies@[i].api is Some) by {
        assert(a.dependencies@[i].name == a2.dependencies@[i].name);
    }
}

pub proof fn lemma_same_merged(a: Manifest, a2: Manifest, o: Manifest, x: Manifest, x2: Manifest)
    requires
        same_for_validation(a, a2),
        merged(a, o, x),
        merged(a2, o, x2),
    ensures
        same_for_validation(x, x2),
{
}

/// Whether `regions` lists `region`.
pub open spec fn lists_region(regions: Seq<String>, region: Seq<char>) -> bool {
    exists|i: int| 0 <= i < regions.len() && (#[trigger] regions[i])@ == region
}

/// `m` is `f` with the override `ov`, if any, merged on.
pub open spec fn with_override(f: Manifest, ov: Option<Manifest>, m: Manifest) -> bool {
    match ov {
        Some(o) => merged(f, o, m),
        None => m == f,
    }
}

/// Whether validating `svc` for `region` succeeds: its base manifest `mf` bears its name and the
/// region is known; then, where `mf` lists the region, the override's host aliases are well
/// formed and the manifest bound to the region twice by implicits, with the override merged on,
/// passes validation; where it does not, the service is external and the manifest bound once
/// passes validation.
pub open spec fn service_valid(
    svc: Seq<char>,
    mf: Manifest,
    ov: Option<Manifest>,
    conf: Config,
    region: Seq<char>,
) -> bool {
    &&& mf.name@ == svc
    &&& conf.has_region(region)
    &&& if lists_region(mf.regions@, region) {
        &&& (ov matches Some(o) ==> forall|i: int|
            0 <= i < o.hostAliases@.len() ==> (#[trigger] o.hostAliases@[i]).well_formed())
        &&& exists|b: Manifest, f: Manifest, m: Manifest|
            #[trigger] implicits_applied(mf, b, conf, Some(region)) && #[trigger] implicits_applied(
                b,
                f,
                conf,
                Some(region),
            ) && #[trigger] with_override(f, ov, m) && m.valid_with(
                &conf,
                name_shape(mf.name@),
            )
    } else {
        &&& mf.external
        &&& exists|b: Manifest|
            #[trigger] implicits_applied(mf, b, conf, Some(region)) && b.valid_with(
                &conf,
                name_shape(mf.name@),
            )
    }
}

/// The kind of error that validating `svc` for `region` ends in, where it fails.
pub open spec fn service_failure(
    svc: Seq<char>,
    mf: Manifest,
    ov: Option<Manifest>,
    conf: Config,
    region: Seq<char>,
) -> ErrorKind {
    if mf.name@ != svc {
        ErrorKind::IdentityMismatch
    } else if !conf.has_region(region) {
        ErrorKind::UnknownRegion
    } else if lists_region(mf.regions@, region) {
        if ov matches Some(o) && exists|i: int|
            0 <= i < o.hostAliases@.len() && !(#[trigger] o.hostAliases@[i]).well_formed() {
            ErrorKind::InvalidHostAlias
        } else {
            ErrorKind::ValidationFailure
        }
    } else if mf.external {
        ErrorKind::ValidationFailure
    } else {
        ErrorKind::UnsupportedRegion
    }
}

/// Validates one service of a batch for `region`: its base manifest `mf` must bear its name and
/// be bound to a known region; a service configured for the region is then completed with its
/// override `ov` and verified, an externally managed one verified as it is, and any other
/// refused.
pub fn validate_service(
    service: &String,
    mf: Manifest,
    ov: Option<Manifest>,
    conf: &Config,
    region: &String,
) -> (r: ManifestResult<()>)
    requires
        conf.wf(),
        mf.wf(),
        ov matches Some(o) ==> o.wf(),
    ensures
        mf.name@ != service@ ==> fails_with(r, ErrorKind::IdentityMismatch),
        mf.name@ == service@ && !conf.has_region(region@) ==> fails_with(r, ErrorKind::UnknownRegion),
        mf.name@ == service@ && conf.has_region(region@) && !mf.external && !(exists|i: int|
            0 <= i < mf.regions@.len() && (#[trigger] mf.regions@[i])@ == region@) ==> fails_with(
            r,
            ErrorKind::UnsupportedRegion,
        ),
        r is Ok <==> service_valid(service@, mf, ov, *conf, region@),
        r is Err ==> r->Err_0.kind == service_failure(service@, mf, ov, *conf, region@)
            && names_subject(r->Err_0, service@),
{
    let ghost mf0 = mf;
    let ghost ov0 = ov;
    let ghost pat = name_shape(mf0.name@);
    let mut m = match Manifest::basic(service, conf, Some(region.clone()), mf) {
        Ok(m) => m,
        Err(e) => {
            return Err(e.about(service));
        },
    };
    let ghost b = m;
    proof {
        conf.lemma_region_named(region@);
        assert(implicits_applied(mf0, b, *conf, Some(region@)));
    }
    if m.supports(region) {
        assert(lists_region(mf0.regions@, region@));
        match m.fill(conf, region, ov) {
            Ok(()) => {},
            Err(e) => {
                return Err(e.about(service));
            },
        }
        let ghost f = choose|x: Manifest|
            implicits_applied(b, x, *conf, Some(region@)) && match ov0 {
                Some(o) => merged(x, o, m),
                None => m == x,
            };
        assert(with_override(f, ov0, m));
        let r = m.verify(conf);
        proof {
            if r is Ok {
                assert(implicits_applied(mf0, b, *conf, Some(region@)) && implicits_applied(b, f, *conf, Some(region@))
                    && with_override(f, ov0, m) && m.valid_with(conf, pat));
            }
            if service_valid(service@, mf0, ov0, *conf, region@) {
                let (b1, f1, m1) = choose|b1: Manifest, f1: Manifest, m1: Manifest|
                    #[trigger] implicits_applied(mf0, b1, *conf, Some(region@)) && #[trigger] implicits_applied(
                        b1,
                        f1,
                        *conf,
                        Some(region@),
                    ) && #[trigger] with_override(f1, ov0, m1) && m1.valid_with(conf, pat);
                lemma_same_implicits(mf0, mf0, b1, b, *conf, Some(region@));
                lemma_same_implicits(b1, b, f1, f, *conf, Some(region@));
                match ov0 {
                    Some(o) => {
                        lemma_same_merged(f1, f, o, m1, m);
                    },
                    None => {},
                }
                lemma_same_valid(m1, m, *conf, pat);
            }
        }
        r
    } else if m.external {
        let r = m.verify(conf);
        proof {
            if service_valid(service@, mf0, ov0, *conf, region@) {
                let b1 = choose|b1: Manifest|
                    #[trigger] implicits_applied(mf0, b1, *conf, Some(region@)) && b1.valid_with(conf, pat);
                lemma_same_implicits(mf0, mf0, b1, b, *conf, Some(region@));
                lemma_same_valid(b1, b, *conf, pat);
            }
        }
        r
    } else {
        Err(
            ManifestError::new(
                ErrorKind::UnsupportedRegion,
                "Service is not configured to be deployed in this region",
            ).about(service),
        )
    }
}

/// Validates each service in turn, stopping at the first that fails; `manifests[i]` and
/// `overrides[i]` are what the sources of `services[i]` hold.
pub fn validate(
    services: &Vec<String>,
    manifests: Vec<Manifest>,
    overrides: Vec<Option<Manifest>>,
    conf: &Config,
    region: &String,
) -> (r: ManifestResult<()>)
    requires
        conf.wf(),
        services@.len() == manifests@.len(),
        services@.len() == overrides@.len(),
        forall|i: int| 0 <= i < manifests@.len() ==> (#[trigger] manifests@[i]).wf(),
        forall|i: int| 0 <= i < overrides@.len() ==> (#[trigger] overrides@[i] matches Some(o) ==> o.wf()),
    ensures
        r is Ok <==> forall|i: int|
            0 <= i < services@.len() ==> service_valid(
                services@[i]@,
                #[trigger] manifests@[i],
                overrides@[i],
                *conf,
                region@,
            ),
        r is Err ==> exists|i: int|
            (0 <= i < services@.len() && !service_valid(
                services@[i]@,
                #[trigger] manifests@[i],
                overrides@[i],
                *conf,
                region@,
            ) && forall|j: int|
                0 <= j < i ==> service_valid(services@[j]@, #[trigger] manifests@[j], overrides@[j], *conf, region@))
                && r->Err_0.kind == service_failure(services@[i]@, manifests@[i], overrides@[i], *conf, region@)
                && names_subject(r->Err_0, services@[i]@),
        r is Err ==> r->Err_0.kind == ErrorKind::IdentityMismatch || r->Err_0.kind
            == ErrorKind::UnknownRegion || r->Err_0.kind == ErrorKind::UnsupportedRegion
            || r->Err_0.kind == ErrorKind::InvalidHostAlias || r->Err_0.kind
            == ErrorKind::ValidationFailure,
        services@.len() == 0 ==> r is Ok,
{
    let ghost ms = manifests@;
    let ghost ovs = overrides@;
    let mut rest_m = manifests;
    let mut rest_o = overrides;
    let mut i: usize = 0;
    let n = services.len();
    while i < n
        invariant
            conf.wf(),
            n == services@.len(),
            i <= n,
            ms == manifests@,
            ovs == overrides@,
            rest_m@ == ms.subrange(i as int, n as int),
            rest_o@ == ovs.subrange(i as int, n as int),
            forall|j: int| 0 <= j < ms.len() ==> (#[trigger] ms[j]).wf(),
            forall|j: int| 0 <= j < ovs.len() ==> (#[trigger] ovs[j] matches Some(o) ==> o.wf()),
            ms.len() == n,
            ovs.len() == n,
            forall|j: int|
                0 <= j < i ==> service_valid(services@[j]@, #[trigger] ms[j], ovs[j], *conf, region@),
        decreases n - i,
    {
        let mf = rest_m.remove(0);
        let ov = rest_o.remove(0);
        assert(mf == ms[i as int]);
        assert(ov == ovs[i as int]);
        let r = validate_service(&services[i], mf, ov, conf, region);
        if r.is_err() {
            assert(!service_valid(services@[i as int]@, ms[i as int], ovs[i as int], *conf, region@));
            assert(exists|k: int|
                0 <= k < services@.len() && !service_valid(
                    services@[k]@,
                    #[trigger] ms[k],
                    ovs[k],
                    *conf,
                    region@,
                ) && (forall|j: int|
                    0 <= j < k ==> service_valid(services@[j]@, #[trigger] ms[j], ovs[j], *conf, region@))
                    && r->Err_0.kind == service_failure(services@[k]@, ms[k], ovs[k], *conf, region@)
                    && names_subject(r->Err_0, services@[k]@));
            return r;
        }
        proof {
            assert(rest_m@ =~= ms.subrange(i + 1, n as int));
            assert(rest_o@ =~= ovs.subrange(i + 1, n as int));
        }
        i = i + 1;
    }
    Ok(())
}

} // verus!
