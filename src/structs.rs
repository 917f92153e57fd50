use vstd::prelude::*;
use crate::config::{Config, Region};
use crate::error::{ErrorKind, ManifestError, ManifestResult};

verus! {

/// A structure that can check itself once defaults have been filled in.
pub trait Verify {
    /// Whether the structure is sane under `conf`.
    spec fn valid(&self, conf: &Config) -> bool;

    /// Checks the structure; fails with a validation failure exactly when it is not valid.
    fn verify(&self, conf: &Config) -> (r: ManifestResult<()>)
        ensures
            r is Ok <==> self.valid(conf),
            r is Err ==> r->Err_0.kind == ErrorKind::ValidationFailure,
    ;
}

/// Whether `s` holds at least one character.
pub open spec fn filled(s: String) -> bool {
    s@.len() > 0
}

pub open spec fn all_filled(v: Seq<String>) -> bool {
    forall|i: int| 0 <= i < v.len() ==> filled(#[trigger] v[i])
}

fn check_all_filled(v: &Vec<String>) -> (r: bool)
    ensures
        r == all_filled(v@),
{
    let mut i: usize = 0;
    while i < v.len()
        invariant
            i <= v@.len(),
            forall|j: int| 0 <= j < i ==> filled(#[trigger] v@[j]),
        decreases v@.len() - i,
    {
        if v[i].as_str().is_empty() {
            return false;
        }
        i = i + 1;
    }
    true
}

fn invalid(reason: &str) -> (r: ManifestResult<()>)
    ensures
        r is Err,
        r->Err_0.kind == ErrorKind::ValidationFailure,
{
    Err(ManifestError::new(ErrorKind::ValidationFailure, reason))
}

/// Kubernetes resource requests.
#[derive(Clone, Debug)]
pub struct ResourceRequest {
    /// CPU request string
    pub cpu: String,
    /// Memory request string
    pub memory: String,
}

/// Kubernetes resource limits.
#[derive(Clone, Debug)]
pub struct ResourceLimit {
    /// CPU limit string
    pub cpu: String,
    /// Memory limit string
    pub memory: String,
}

/// Requests and limits of a service's containers.
#[derive(Clone, Debug)]
pub struct Resources {
    pub requests: Option<ResourceRequest>,
    pub limits: Option<ResourceLimit>,
}

impl Verify for Resources {
    /// Both blocks are there, each with a cpu and a memory amount.
    open spec fn valid(&self, conf: &Config) -> bool {
        &&& self.requests matches Some(q) && filled(q.cpu) && filled(q.memory)
        &&& self.limits matches Some(l) && filled(l.cpu) && filled(l.memory)
    }

    fn verify(&self, conf: &Config) -> (r: ManifestResult<()>) {
        match &self.requests {
            Some(q) => {
                if q.cpu.as_str().is_empty() || q.memory.as_str().is_empty() {
                    return invalid("Resource requests need a cpu and a memory amount");
                }
            },
            None => {
                return invalid("Resource requests are mandatory");
            },
        }
        match &self.limits {
            Some(l) => {
                if l.cpu.as_str().is_empty() || l.memory.as_str().is_empty() {
                    return invalid("Resource limits need a cpu and a memory amount");
                }
            },
            None => {
                return invalid("Resource limits are mandatory");
            },
        }
        Ok(())
    }
}

/// An entry for /etc/hosts in every pod.
#[derive(Clone, Debug)]
pub struct HostAlias {
    /// ip address string
    pub ip: String,
    /// names that resolve to the ip address
    pub hostnames: Vec<String>,
}

impl HostAlias {
    /// A non-empty ip and at least one hostname.
    pub open spec fn well_formed(&self) -> bool {
        filled(self.ip) && self.hostnames@.len() > 0
    }

    pub fn is_well_formed(&self) -> (r: bool)
        ensures
            r == self.well_formed(),
    {
        !self.ip.as_str().is_empty() && self.hostnames.len() > 0
    }
}

impl Verify for HostAlias {
    open spec fn valid(&self, conf: &Config) -> bool {
        self.well_formed()
    }

    fn verify(&self, conf: &Config) -> (r: ManifestResult<()>) {
        if !self.is_well_formed() {
            return invalid("Host alias should have an ip and at least one hostname");
        }
        Ok(())
    }
}

/// A file that is templated into a config map.
#[derive(Clone, Debug)]
pub struct ConfigMappedFile {
    /// Name of file to template (from service repo paths)
    pub name: String,
    /// Name of file inside container
    pub dest: String,
    /// Config value inlined once rendered
    pub value: Option<String>,
}

/// Config files mounted into the container.
#[derive(Clone, Debug)]
pub struct ConfigMap {
    /// k8s specific name for the mount (defaulted from the service name)
    pub name: Option<String>,
    /// Container-local directory path where configs are available
    pub mount: String,
    /// Files from the config map to mount at this mountpath
    pub files: Vec<ConfigMappedFile>,
}

impl Verify for ConfigMap {
    /// Named, with a mount path, and each file with a source and a destination.
    open spec fn valid(&self, conf: &Config) -> bool {
        &&& self.name is Some
        &&& filled(self.mount)
        &&& forall|i: int|
            0 <= i < self.files@.len() ==> filled((#[trigger] self.files@[i]).name) && filled(
                self.files@[i].dest,
            )
    }

    fn verify(&self, conf: &Config) -> (r: ManifestResult<()>) {
        if self.name.is_none() {
            return invalid("Config map has no name");
        }
        if self.mount.as_str().is_empty() {
            return invalid("Config map needs a mount path");
        }
        let mut i: usize = 0;
        while i < self.files.len()
            invariant
                i <= self.files@.len(),
                forall|j: int|
                    0 <= j < i ==> filled((#[trigger] self.files@[j]).name) && filled(
                        self.files@[j].dest,
                    ),
            decreases self.files@.len() - i,
        {
            if self.files[i].name.as_str().is_empty() || self.files[i].dest.as_str().is_empty() {
                return invalid("Config files need a name and a destination");
            }
            i = i + 1;
        }
        Ok(())
    }
}

/// Where and when the service answers health checks.
#[derive(Clone, Debug)]
pub struct HealthCheck {
    /// Where the health check is located
    pub uri: String,
    /// How long to wait after boot in seconds
    pub wait: u32,
}

pub fn health_check_url_default() -> (r: String)
    ensures
        r@ == "/health"@,
{
    String::from_str("/health")
}

pub fn health_check_wait_time_default() -> (r: u32)
    ensures
        r == 30,
{
    30
}

impl HealthCheck {
    /// A health check with the default uri and wait time.
    pub fn new() -> (r: HealthCheck)
        ensures
            r.uri@ == "/health"@,
            r.wait == 30,
    {
        HealthCheck { uri: health_check_url_default(), wait: health_check_wait_time_default() }
    }
}

#[derive(Clone, Debug)]
pub struct VolumeMount {
    pub name: String,
    pub mountPath: String,
    pub subPath: Option<String>,
    pub readOnly: bool,
}

pub fn volume_mount_read_only() -> (r: bool)
    ensures
        !r,
{
    false
}

/// A container that runs to completion before the service starts.
#[derive(Clone, Debug)]
pub struct InitContainer {
    pub name: String,
    pub image: String,
    pub command: Vec<String>,
}

impl Verify for InitContainer {
    /// A name and an image.
    open spec fn valid(&self, conf: &Config) -> bool {
        filled(self.name) && filled(self.image)
    }

    fn verify(&self, conf: &Config) -> (r: ManifestResult<()>) {
        if self.name.as_str().is_empty() || self.image.as_str().is_empty() {
            return invalid("Init containers need a name and an image");
        }
        Ok(())
    }
}

#[derive(Clone, Debug)]
pub struct VolumeSecretItem {
    pub key: String,
    pub path: String,
    pub mode: u32,
}

pub fn volume_key() -> (r: String)
    ensures
        r@ == "value"@,
{
    String::from_str("value")
}

pub fn volume_default_mode() -> (r: u32)
    ensures
        r == 420,
{
    420
}

#[derive(Clone, Debug)]
pub struct VolumeSecretDetail {
    pub name: String,
    pub items: Vec<VolumeSecretItem>,
}

#[derive(Clone, Debug)]
pub struct VolumeSecret {
    pub secret: Option<VolumeSecretDetail>,
}

#[derive(Clone, Debug)]
pub struct ProjectedVolumeSecret {
    pub sources: Vec<VolumeSecret>,
}

#[derive(Clone, Debug)]
pub struct Volume {
    pub name: String,
    /// A projection combines multiple volume items
    pub projected: Option<ProjectedVolumeSecret>,
    /// The secret is fetched from kube secrets and mounted as a volume
    pub secret: Option<VolumeSecretDetail>,
}

/// Ownership and documentation of a service.
#[derive(Clone, Debug)]
pub struct Metadata {
    pub team: String,
    pub repo: String,
    pub docs: Option<String>,
}

impl Metadata {
    pub fn new() -> (r: Metadata)
        ensures
            r.team@.len() == 0,
            r.repo@.len() == 0,
            r.docs is None,
    {
        Metadata { team: String::new(), repo: String::new(), docs: None }
    }
}

impl Verify for Metadata {
    /// An owning team and a source repository.
    open spec fn valid(&self, conf: &Config) -> bool {
        filled(self.team) && filled(self.repo)
    }

    fn verify(&self, conf: &Config) -> (r: ManifestResult<()>) {
        if self.team.as_str().is_empty() {
            return invalid("Metadata needs an owning team");
        }
        if self.repo.as_str().is_empty() {
            return invalid("Metadata needs a source repository");
        }
        Ok(())
    }
}

/// A field of a data store and how it is protected.
#[derive(Clone, Debug)]
pub struct DataField {
    pub name: String,
    pub encrypted: Option<bool>,
    pub keyRotator: Option<String>,
}

/// A data store used by the service.
#[derive(Clone, Debug)]
pub struct DataStore {
    pub backend: String,
    pub encrypted: Option<bool>,
    pub keyRotator: Option<String>,
    pub fields: Vec<DataField>,
}

/// A field's own setting where it has one, else the store's.
pub open spec fn cascaded<T>(own: Option<T>, store: Option<T>) -> Option<T> {
    if own is Some {
        own
    } else {
        store
    }
}

/// `new` is `old` with the store's settings cascaded onto it.
pub open spec fn field_cascaded(old: DataField, new: DataField, store: DataStore) -> bool {
    &&& new.name == old.name
    &&& new.encrypted == cascaded(old.encrypted, store.encrypted)
    &&& new.keyRotator == cascaded(old.keyRotator, store.keyRotator)
}

/// `new` is `old` with every field's settings cascaded from the store.
pub open spec fn store_cascaded(old: DataStore, new: DataStore) -> bool {
    &&& new.backend == old.backend
    &&& new.encrypted == old.encrypted
    &&& new.keyRotator == old.keyRotator
    &&& new.fields@.len() == old.fields@.len()
    &&& forall|j: int|
        0 <= j < old.fields@.len() ==> field_cascaded(old.fields@[j], #[trigger] new.fields@[j], old)
}

fn clone_opt_string(o: &Option<String>) -> (r: Option<String>)
    ensures
        r == *o,
{
    match o {
        Some(s) => Some(s.clone()),
        None => None,
    }
}

impl DataStore {
    /// Cascades the store's settings onto the fields that leave them unset.
    pub fn implicits(&mut self)
        ensures
            store_cascaded(*old(self), *final(self)),
    {
        let ghost pre = *self;
        let mut j: usize = 0;
        while j < self.fields.len()
            invariant
                self.backend == pre.backend,
                self.encrypted == pre.encrypted,
                self.keyRotator == pre.keyRotator,
                self.fields@.len() == pre.fields@.len(),
                j <= self.fields@.len(),
                forall|k: int|
                    0 <= k < j ==> field_cascaded(pre.fields@[k], #[trigger] self.fields@[k], pre),
                forall|k: int| j <= k < self.fields@.len() ==> #[trigger] self.fields@[k] == pre.fields@[k],
            decreases self.fields@.len() - j,
        {
            if self.fields[j].encrypted.is_none() {
                self.fields[j].encrypted = self.encrypted;
            }
            if self.fields[j].keyRotator.is_none() {
                let k = clone_opt_string(&self.keyRotator);
                self.fields[j].keyRotator = k;
            }
            j = j + 1;
        }
    }
}

/// Data stores and their handling policy.
#[derive(Clone, Debug)]
pub struct DataHandling {
    pub stores: Vec<DataStore>,
}

/// `new` is `old` with every store cascaded.
pub open spec fn handling_cascaded(old: DataHandling, new: DataHandling) -> bool {
    &&& new.stores@.len() == old.stores@.len()
    &&& forall|i: int|
        0 <= i < old.stores@.len() ==> store_cascaded(old.stores@[i], #[trigger] new.stores@[i])
}

impl DataHandling {
    pub fn new() -> (r: DataHandling)
        ensures
            r.stores@.len() == 0,
    {
        DataHandling { stores: Vec::new() }
    }

    /// Cascades encryption and key rotation from each store to its fields.
    pub fn implicits(&mut self)
        ensures
            handling_cascaded(*old(self), *final(self)),
    {
        let ghost pre = *self;
        let mut i: usize = 0;
        while i < self.stores.len()
            invariant
                self.stores@.len() == pre.stores@.len(),
                i <= self.stores@.len(),
                forall|k: int|
                    0 <= k < i ==> store_cascaded(pre.stores@[k], #[trigger] self.stores@[k]),
                forall|k: int| i <= k < self.stores@.len() ==> #[trigger] self.stores@[k] == pre.stores@[k],
            decreases self.stores@.len() - i,
        {
            self.stores[i].implicits();
            i = i + 1;
        }
    }
}

impl Verify for DataHandling {
    /// Every store names its backend and every field its name.
    open spec fn valid(&self, conf: &Config) -> bool {
        forall|i: int|
            0 <= i < self.stores@.len() ==> {
                let s = #[trigger] self.stores@[i];
                &&& filled(s.backend)
                &&& forall|j: int| 0 <= j < s.fields@.len() ==> filled(#[trigger] s.fields@[j].name)
            }
    }

    fn verify(&self, conf: &Config) -> (r: ManifestResult<()>) {
        let mut i: usize = 0;
        while i < self.stores.len()
            invariant
                i <= self.stores@.len(),
                forall|k: int|
                    0 <= k < i ==> {
                        let s = #[trigger] self.stores@[k];
                        &&& filled(s.backend)
                        &&& forall|j: int|
                            0 <= j < s.fields@.len() ==> filled(#[trigger] s.fields@[j].name)
                    },
            decreases self.stores@.len() - i,
        {
            let s = &self.stores[i];
            if s.backend.as_str().is_empty() {
                return invalid("Data stores need a backend");
            }
            let mut j: usize = 0;
            while j < s.fields.len()
                invariant
                    i < self.stores@.len(),
                    *s == self.stores@[i as int],
                    j <= s.fields@.len(),
                    forall|k: int| 0 <= k < j ==> filled(#[trigger] s.fields@[k].name),
                decreases s.fields@.len() - j,
            {
                if s.fields[j].name.as_str().is_empty() {
                    assert(!filled(self.stores@[i as int].fields@[j as int].name));
                    return invalid("Data fields need a name");
                }
                j = j + 1;
            }
            i = i + 1;
        }
        Ok(())
    }
}

/// Where the secrets of a service are kept, when not under its own name.
#[derive(Clone, Debug)]
pub struct VaultOpts {
    pub name: String,
    pub region: Option<String>,
}

/// Another service that this one talks to.
#[derive(Clone, Debug)]
pub struct Dependency {
    pub name: String,
    /// API version, "v1" unless set
    pub api: Option<String>,
}

/// `new` is `old` with its API version defaulted.
pub open spec fn dependency_defaulted(old: Dependency, new: Dependency) -> bool {
    &&& new.name == old.name
    &&& if old.api is Some {
        new.api == old.api
    } else {
        new.api matches Some(a) && a@ == "v1"@
    }
}

impl Dependency {
    /// Sets the API version to "v1" when unset.
    pub fn implicits(&mut self)
        ensures
            dependency_defaulted(*old(self), *final(self)),
    {
        if self.api.is_none() {
            self.api = Some(String::from_str("v1"));
        }
    }
}

impl Verify for Dependency {
    /// A name and an API version.
    open spec fn valid(&self, conf: &Config) -> bool {
        filled(self.name) && self.api is Some
    }

    fn verify(&self, conf: &Config) -> (r: ManifestResult<()>) {
        if self.name.as_str().is_empty() {
            return invalid("Dependencies need a name");
        }
        if self.api.is_none() {
            return invalid("Dependencies need an api version");
        }
        Ok(())
    }
}

/// API gateway settings of a service.
#[derive(Clone, Debug)]
pub struct Kong {
    pub name: String,
    pub upstream_url: String,
    pub uris: Option<String>,
    pub hosts: Vec<String>,
}

/// `new` is `old` with its region-scoped fields set for service `svc` in `region`.
pub open spec fn kong_defaulted(old: Kong, new: Kong, svc: Seq<char>, region: Region) -> bool {
    &&& new.name@ == svc
    &&& new.upstream_url@ == if old.upstream_url@.len() == 0 {
        region.kong.base_url@ + "/"@ + svc
    } else {
        old.upstream_url@
    }
    &&& new.uris == old.uris
    &&& new.hosts == old.hosts
}

impl Kong {
    /// Names the gateway entry after the service and defaults its upstream from the region.
    pub fn implicits(&mut self, svc: &String, region: &Region)
        ensures
            kong_defaulted(*old(self), *final(self), svc@, *region),
    {
        self.name = svc.clone();
        if self.upstream_url.as_str().is_empty() {
            let u = region.kong.base_url.clone().concat("/").concat(svc.as_str());
            proof {
                reveal_strlit("/");
            }
            self.upstream_url = u;
        }
    }
}

} // verus!
