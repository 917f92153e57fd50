use vstd::prelude::*;
use crate::env::EnvMap;
use crate::error::{ErrorKind, ManifestError, ManifestResult, fails_with};
use crate::manifest::Manifest;
use crate::structs::ConfigMappedFile;
use crate::text::str_eq;

verus! {

/// Rendered `ConfigMap`
#[derive(Clone, Debug)]
pub struct ConfigMapRendered {
    pub name: String,
    pub path: String,
    pub files: Vec<RenderedConfig>,
}

/// Rendered `ConfigMappedFile`
#[derive(Clone, Debug)]
pub struct RenderedConfig {
    pub name: String,
    pub rendered: String,
}

/// Deployment parameters of one service in one region.
pub struct Deployment {
    /// Service name (same as manifest.name)
    pub service: String,
    /// Region parameter
    pub region: String,
    /// Kubernetes namespace of the region
    pub namespace: String,
    /// Resolved manifest
    pub manifest: Manifest,
    /// Optional semver version, overriding the manifest's
    pub version: Option<String>,
}

/// The variables that config file templates see.
pub struct BaseContext {
    pub namespace: String,
    pub env: EnvMap,
    pub service: String,
    pub region: String,
}

/// The variables that the deployment template sees: those computed here, and the manifest's
/// host aliases, health check (where set), volume mounts, init containers and volumes, read from
/// `mf`, which also stands as a whole for templates that reach into it.
pub struct DeploymentContext<'a> {
    pub mf: &'a Manifest,
    pub base: BaseContext,
    /// The config map with each file rendered against the base context
    pub config: Option<ConfigMapRendered>,
    /// `<image>:<version>`
    pub image: String,
    pub httpPort: Option<u32>,
    pub replicaCount: Option<u32>,
}

/// The document that a disabled service deploys.
pub open spec fn disabled_document() -> Seq<char> {
    "---"@
}

/// Whether the i-th rendered file is the i-th file of `files` with text `texts[i]`.
pub open spec fn rendered_files(
    out: Seq<RenderedConfig>,
    files: Seq<ConfigMappedFile>,
    texts: Seq<String>,
) -> bool {
    &&& out.len() == files.len()
    &&& forall|i: int|
        0 <= i < out.len() ==> (#[trigger] out[i]).name@ == files[i].dest@ && out[i].rendered@
            == texts[i]@
}

impl Deployment {
    /// The deployment's manifest is well formed.
    pub open spec fn wf(&self) -> bool {
        self.manifest.wf()
    }

    /// Whether the manifest is the service's and lists the region.
    pub open spec fn consistent(&self) -> bool {
        &&& self.manifest.name@ == self.service@
        &&& exists|i: int|
            0 <= i < self.manifest.regions@.len() && (#[trigger] self.manifest.regions@[i])@
                == self.region@
    }

    /// Checks that the manifest belongs to the service and supports the region.
    pub fn check(&self) -> (r: ManifestResult<()>)
        ensures
            r is Ok <==> self.consistent(),
            self.manifest.name@ != self.service@ ==> fails_with(r, ErrorKind::IdentityMismatch),
            self.manifest.name@ == self.service@ && !self.consistent() ==> fails_with(
                r,
                ErrorKind::UnsupportedRegion,
            ),
    {
        if !str_eq(self.service.as_str(), self.manifest.name.as_str()) {
            return Err(
                ManifestError::new(
                    ErrorKind::IdentityMismatch,
                    "manifest name does not match service name",
                ),
            );
        }
        if !self.manifest.supports(&self.region) {
            return Err(
                ManifestError::new(
                    ErrorKind::UnsupportedRegion,
                    "manifest does not contain specified region",
                ),
            );
        }
        Ok(())
    }

    /// The config files of the manifest, in order, as templates to render against the base
    /// context.
    pub fn config_templates(&self) -> (r: Vec<String>)
        ensures
            match self.manifest.configs {
                Some(c) => r@.len() == c.files@.len() && forall|i: int|
                    0 <= i < r@.len() ==> (#[trigger] r@[i])@ == c.files@[i].name@,
                None => r@.len() == 0,
            },
    {
        let mut out: Vec<String> = Vec::new();
        match &self.manifest.configs {
            Some(c) => {
                let mut i: usize = 0;
                while i < c.files.len()
                    invariant
                        i <= c.files@.len(),
                        out@.len() == i,
                        forall|j: int| 0 <= j < i ==> (#[trigger] out@[j])@ == c.files@[j].name@,
                    decreases c.files@.len() - i,
                {
                    out.push(c.files[i].name.clone());
                    i = i + 1;
                }
            },
            None => {},
        }
        out
    }
}

/// The minimal context given to config file templates: namespace, environment, service, region.
pub fn make_base_context(dep: &Deployment) -> (r: BaseContext)
    requires
        dep.wf(),
    ensures
        r.namespace@ == dep.namespace@,
        r.env.wf(),
        r.env@ == dep.manifest.env@,
        r.service@ == dep.service@,
        r.region@ == dep.region@,
{
    BaseContext {
        namespace: dep.namespace.clone(),
        env: dep.manifest.env.copy(),
        service: dep.service.clone(),
        region: dep.region.clone(),
    }
}

fn rendered_config(files: &Vec<ConfigMappedFile>, texts: &Vec<String>) -> (r: Vec<RenderedConfig>)
    requires
        files@.len() == texts@.len(),
    ensures
        rendered_files(r@, files@, texts@),
{
    let mut out: Vec<RenderedConfig> = Vec::new();
    let mut i: usize = 0;
    while i < files.len()
        invariant
            files@.len() == texts@.len(),
            i <= files@.len(),
            out@.len() == i,
            forall|j: int|
                0 <= j < i ==> (#[trigger] out@[j]).name@ == files@[j].dest@ && out@[j].rendered@
                    == texts@[j]@,
        decreases files@.len() - i,
    {
        out.push(RenderedConfig { name: files[i].dest.clone(), rendered: texts[i].clone() });
        i = i + 1;
    }
    out
}

/// The full context of the deployment template. `texts[i]` is the i-th config file rendered
/// against the base context. Fails when the manifest lacks its image or version, when its config
/// map has no name, or when the rendered texts do not match the config files one for one.
pub fn make_full_deployment_context<'a>(dep: &'a Deployment, texts: &Vec<String>) -> (r: ManifestResult<
    DeploymentContext<'a>,
>)
    requires
        dep.wf(),
    ensures
        r is Ok <==> (dep.manifest.image is Some && dep.manifest.version is Some && match dep.manifest.configs {
            Some(c) => c.name is Some && texts@.len() == c.files@.len(),
            None => true,
        }),
        r is Err ==> r->Err_0.kind == ErrorKind::ValidationFailure || r->Err_0.kind
            == ErrorKind::TemplateFailure,
        r matches Ok(ctx) ==> {
            &&& *ctx.mf == dep.manifest
            &&& ctx.base.namespace@ == dep.namespace@
            &&& ctx.base.env@ == dep.manifest.env@
            &&& ctx.base.service@ == dep.service@
            &&& ctx.base.region@ == dep.region@
            &&& ctx.image@ == dep.manifest.image->0@ + ":"@ + dep.manifest.version->0@
            &&& ctx.httpPort == dep.manifest.httpPort
            &&& ctx.replicaCount == dep.manifest.replicaCount
            &&& match dep.manifest.configs {
                Some(c) => ctx.config matches Some(cr) && cr.name@ == c.name->0@ && cr.path@
                    == c.mount@ && rendered_files(cr.files@, c.files@, texts@),
                None => ctx.config is None,
            }
        },
{
    let config = match &dep.manifest.configs {
        Some(c) => {
            let name = match &c.name {
                Some(n) => n.clone(),
                None => {
                    return Err(ManifestError::new(ErrorKind::ValidationFailure, "Config map has no name"));
                },
            };
            if texts.len() != c.files.len() {
                return Err(
                    ManifestError::new(
                        ErrorKind::TemplateFailure,
                        "Config files and rendered texts do not match",
                    ),
                );
            }
            Some(ConfigMapRendered { name, path: c.mount.clone(), files: rendered_config(&c.files, texts) })
        },
        None => None,
    };
    let img = match &dep.manifest.image {
        Some(i) => i,
        None => {
            return Err(ManifestError::new(ErrorKind::ValidationFailure, "Image is unset"));
        },
    };
    let ver = match &dep.manifest.version {
        Some(v) => v,
        None => {
            return Err(ManifestError::new(ErrorKind::ValidationFailure, "Version is unset"));
        },
    };
    let image = img.clone().concat(":").concat(ver.as_str());
    proof {
        reveal_strlit(":");
    }
    Ok(
        DeploymentContext {
            mf: &dep.manifest,
            base: make_base_context(dep),
            config,
            image,
            httpPort: dep.manifest.httpPort,
            replicaCount: dep.manifest.replicaCount,
        },
    )
}

/// The manifest to emit as helm values: the deployment's manifest with each config file's
/// value set to its rendered text `texts[i]`, and the deployment's version if it has one. Fails
/// as `check` does, or when the texts do not match the config files one for one.
pub fn helm_values(dep: Deployment, texts: &Vec<String>) -> (r: ManifestResult<Manifest>)
    ensures
        !dep.consistent() ==> r is Err,
        dep.consistent() ==> (r is Err <==> (dep.manifest.configs matches Some(c) && texts@.len()
            != c.files@.len())),
        r is Err ==> r->Err_0.kind == ErrorKind::IdentityMismatch || r->Err_0.kind
            == ErrorKind::UnsupportedRegion || r->Err_0.kind == ErrorKind::TemplateFailure,
        r matches Ok(m) ==> {
            &&& m.version == if dep.version is Some {
                dep.version
            } else {
                dep.manifest.version
            }
            &&& match dep.manifest.configs {
                Some(c) => m.configs matches Some(d) && d.name == c.name && d.mount == c.mount
                    && d.files@.len() == c.files@.len() && forall|i: int|
                    0 <= i < c.files@.len() ==> (#[trigger] d.files@[i]).name == c.files@[i].name
                        && d.files@[i].dest == c.files@[i].dest && (d.files@[i].value matches Some(
                        v,
                    ) && v@ == texts@[i]@),
                None => m.configs is None,
            }
            &&& m.name == dep.manifest.name
            &&& m.disabled == dep.manifest.disabled
            &&& m.external == dep.manifest.external
            &&& m.image == dep.manifest.image
            &&& m.command == dep.manifest.command
            &&& m.metadata == dep.manifest.metadata
            &&& m.dataHandling == dep.manifest.dataHandling
            &&& m.language == dep.manifest.language
            &&& m.chart == dep.manifest.chart
            &&& m.resources == dep.manifest.resources
            &&& m.replicaCount == dep.manifest.replicaCount
            &&& m.hostAliases == dep.manifest.hostAliases
            &&& m.env == dep.manifest.env
            &&& m.volumeMounts == dep.manifest.volumeMounts
            &&& m.initContainers == dep.manifest.initContainers
            &&& m.httpPort == dep.manifest.httpPort
            &&& m.vault == dep.manifest.vault
            &&& m.health == dep.manifest.health
            &&& m.dependencies == dep.manifest.dependencies
            &&& m.regions == dep.manifest.regions
            &&& m.volumes == dep.manifest.volumes
            &&& m.serviceAnnotations == dep.manifest.serviceAnnotations
            &&& m.kong == dep.manifest.kong
            &&& m._decoded_secrets == dep.manifest._decoded_secrets
            &&& m._region == dep.manifest._region
        },
{
    dep.check()?;
    let Deployment { manifest, version, .. } = dep;
    let mut mf = manifest;
    let ghost pre = mf;
    match &mut mf.configs {
        Some(cfg) => {
            if texts.len() != cfg.files.len() {
                return Err(
                    ManifestError::new(
                        ErrorKind::TemplateFailure,
                        "Config files and rendered texts do not match",
                    ),
                );
            }
            let ghost c0 = *cfg;
            let mut i: usize = 0;
            while i < cfg.files.len()
                invariant
                    cfg.files@.len() == c0.files@.len(),
                    cfg.name == c0.name,
                    cfg.mount == c0.mount,
                    texts@.len() == c0.files@.len(),
                    i <= c0.files@.len(),
                    forall|j: int|
                        0 <= j < c0.files@.len() ==> (#[trigger] cfg.files@[j]).name
                            == c0.files@[j].name && cfg.files@[j].dest == c0.files@[j].dest,
                    forall|j: int|
                        0 <= j < i ==> ((#[trigger] cfg.files@[j]).value matches Some(v) && v@
                            == texts@[j]@),
                decreases c0.files@.len() - i,
            {
                cfg.files[i].value = Some(texts[i].clone());
                i = i + 1;
            }
        },
        None => {},
    }
    // pass the overridden version into the manifest
    if version.is_some() {
        mf.version = version;
    }
    Ok(mf)
}

/// Whether the deployment template must be rendered: a disabled service deploys a placeholder.
pub fn needs_render(dep: &Deployment) -> (r: bool)
    ensures
        r == !dep.manifest.disabled,
{
    !dep.manifest.disabled
}

/// The deployment document: the placeholder `---` for a disabled service whatever else it holds,
/// else the rendered template `rendered`, which must then be there.
pub fn deployment_document(dep: &Deployment, rendered: Option<String>) -> (r: ManifestResult<String>)
    ensures
        dep.manifest.disabled ==> (r matches Ok(s) && s@ == disabled_document()),
        !dep.manifest.disabled ==> match rendered {
            Some(t) => r == Ok::<String, ManifestError>(t),
            None => fails_with(r, ErrorKind::TemplateFailure),
        },
{
    if dep.manifest.disabled {
        return Ok(String::from_str("---"));
    }
    match rendered {
        Some(t) => Ok(t),
        None => Err(ManifestError::new(ErrorKind::TemplateFailure, "Deployment template was not rendered")),
    }
}

} // verus!
