use shipcat::error::ErrorKind;
use shipcat::generate::{
    deployment_document, helm_values, make_base_context, make_full_deployment_context, needs_render,
    Deployment,
};
use shipcat::manifest::Manifest;
use shipcat::structs::{ConfigMap, ConfigMappedFile};

fn s(x: &str) -> String {
    x.to_string()
}

fn manifest() -> Manifest {
    let mut mf = Manifest::new("fake-ask");
    mf.regions = vec![s("dev-uk")];
    mf.image = Some(s("quay.io/babylonhealth/fake-ask"));
    mf.version = Some(s("1.2.3"));
    mf.replicaCount = Some(2);
    mf.env.insert(s("A"), s("1"));
    mf.configs = Some(ConfigMap {
        name: Some(s("fake-ask-config")),
        mount: s("/config/"),
        files: vec![
            ConfigMappedFile { name: s("a.j2"), dest: s("a.yml"), value: None },
            ConfigMappedFile { name: s("b.j2"), dest: s("b.yml"), value: None },
        ],
    });
    mf
}

fn deployment(mf: Manifest) -> Deployment {
    Deployment { service: s("fake-ask"), region: s("dev-uk"), namespace: s("dev"), manifest: mf, version: None }
}

#[test]
fn helm_create() {
    let dep = deployment(manifest());
    let texts: Vec<String> = dep.config_templates().iter().map(|t| format!("rendered {}", t)).collect();
    if let Err(e) = helm_values(dep, &texts) {
        println!("Failed to create helm values for fake-ask");
        println!("{}", e.message());
        assert!(false);
    }
}

#[test]
fn helm_values_inline_configs_and_version() {
    let mut dep = deployment(manifest());
    dep.version = Some(s("9.9.9"));
    let texts = vec![s("x: 1"), s("y: 2")];
    let mf = helm_values(dep, &texts).unwrap();
    let files = &mf.configs.as_ref().unwrap().files;
    assert_eq!(files[0].value, Some(s("x: 1")));
    assert_eq!(files[1].value, Some(s("y: 2")));
    assert_eq!(mf.version, Some(s("9.9.9")));
}

#[test]
fn helm_values_check_fails() {
    let mut dep = deployment(manifest());
    dep.service = s("other");
    assert_eq!(helm_values(dep, &vec![]).err().unwrap().kind, ErrorKind::IdentityMismatch);
    let mut dep = deployment(manifest());
    dep.region = s("prod-uk");
    assert_eq!(helm_values(dep, &vec![]).err().unwrap().kind, ErrorKind::UnsupportedRegion);
    let dep = deployment(manifest());
    assert_eq!(helm_values(dep, &vec![s("one")]).err().unwrap().kind, ErrorKind::TemplateFailure);
}

#[test]
fn contexts() {
    let dep = deployment(manifest());
    assert_eq!(dep.config_templates(), vec![s("a.j2"), s("b.j2")]);
    let base = make_base_context(&dep);
    assert_eq!(base.namespace, "dev");
    assert_eq!(base.service, "fake-ask");
    assert_eq!(base.region, "dev-uk");
    assert_eq!(base.env.get("A"), Some(s("1")));
    let full = make_full_deployment_context(&dep, &vec![s("ra"), s("rb")]).unwrap();
    assert_eq!(full.image, "quay.io/babylonhealth/fake-ask:1.2.3");
    let cfg = full.config.unwrap();
    assert_eq!(cfg.name, "fake-ask-config");
    assert_eq!(cfg.path, "/config/");
    assert_eq!(cfg.files[1].name, "b.yml");
    assert_eq!(cfg.files[1].rendered, "rb");
    assert_eq!(full.replicaCount, Some(2));
}

#[test]
fn full_context_needs_image_and_version() {
    let mut mf = manifest();
    mf.version = None;
    let dep = deployment(mf);
    let err = make_full_deployment_context(&dep, &vec![s("ra"), s("rb")]).err().unwrap();
    assert_eq!(err.kind, ErrorKind::ValidationFailure);
}

#[test]
fn disabled_renders_placeholder() {
    let mut mf = manifest();
    mf.disabled = true;
    mf.image = None;
    let dep = deployment(mf);
    assert!(!needs_render(&dep));
    assert_eq!(deployment_document(&dep, None).unwrap(), "---");
    assert_eq!(deployment_document(&dep, Some(s("kind: Deployment"))).unwrap(), "---");
}

#[test]
fn enabled_uses_rendered_template() {
    let dep = deployment(manifest());
    assert!(needs_render(&dep));
    assert_eq!(deployment_document(&dep, Some(s("kind: Deployment"))).unwrap(), "kind: Deployment");
    assert_eq!(deployment_document(&dep, None).err().unwrap().kind, ErrorKind::TemplateFailure);
}
