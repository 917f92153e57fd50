use shipcat::config::{Config, Defaults, KongConfig, Region};
use shipcat::env::EnvMap;
use shipcat::error::ErrorKind;
use shipcat::manifest::{validate, validate_service, vault_key_of, Manifest};
use shipcat::structs::{
    health_check_url_default, health_check_wait_time_default, volume_default_mode, volume_key,
    volume_mount_read_only, ConfigMap, ConfigMappedFile, DataField, DataStore, Dependency, HealthCheck, HostAlias,
    InitContainer, Kong, ResourceLimit, ResourceRequest, Resources, Verify,
};

fn s(x: &str) -> String {
    x.to_string()
}

fn conf() -> Config {
    let mut env = EnvMap::new();
    env.insert(s("REGION"), s("dev-uk"));
    env.insert(s("LOG_LEVEL"), s("info"));
    Config {
        defaults: Defaults { imagePrefix: s("quay.io/babylonhealth"), chart: s("base"), replicaCount: 2 },
        regions: vec![Region {
            name: s("dev-uk"),
            namespace: s("dev"),
            env,
            kong: KongConfig { base_url: s("https://dev.internal") },
        }],
    }
}

fn resources() -> Resources {
    Resources {
        requests: Some(ResourceRequest { cpu: s("100m"), memory: s("100Mi") }),
        limits: Some(ResourceLimit { cpu: s("300m"), memory: s("300Mi") }),
    }
}

fn fake_ask() -> Manifest {
    let mut mf = Manifest::new("fake-ask");
    mf.metadata.team = s("doves");
    mf.metadata.repo = s("https://github.com/babylonhealth/fake-ask");
    mf.resources = Some(resources());
    mf.regions = vec![s("dev-uk")];
    mf.httpPort = Some(8000);
    mf.health = Some(HealthCheck::new());
    mf.version = Some(s("1.0.0"));
    mf.env.insert(s("API_KEY"), s("IN_VAULT"));
    mf.env.insert(s("LOG_LEVEL"), s("debug"));
    mf
}

fn fake_storage() -> Manifest {
    let mut mf = Manifest::new("fake-storage");
    mf.metadata.team = s("doves");
    mf.metadata.repo = s("https://github.com/babylonhealth/fake-storage");
    mf.resources = Some(resources());
    mf.regions = vec![s("dev-uk")];
    mf.dataHandling.stores.push(DataStore {
        backend: s("S3"),
        encrypted: Some(true),
        keyRotator: None,
        fields: vec![
            DataField { name: s("photos"), encrypted: Some(false), keyRotator: None },
            DataField { name: s("videos"), encrypted: None, keyRotator: Some(s("2w")) },
        ],
    });
    mf
}

#[test]
fn validate_test() {
    let conf = conf();
    // with a secret store: every placeholder of the completed manifest is found
    let mut mf = Manifest::completed(&s("dev-uk"), &conf, &s("fake-ask"), fake_ask(), None).unwrap();
    let mut found = EnvMap::new();
    for key in mf.secret_keys(&s("dev-uk")) {
        found.insert(key, s("secret"));
    }
    assert!(mf.secrets(&s("dev-uk"), &found).is_ok());
    let res = validate(&vec![s("fake-ask")], vec![fake_ask()], vec![None], &conf, &s("dev-uk"));
    assert!(res.is_ok());
    let res2 = validate(
        &vec![s("fake-storage"), s("fake-ask")],
        vec![fake_storage(), fake_ask()],
        vec![None, None],
        &conf,
        &s("dev-uk"),
    );
    assert!(res2.is_ok())
}

#[test]
fn manifest_test() {
    let conf = conf();
    let mf = Manifest::basic(&s("fake-storage"), &conf, Some(s("dev-uk")), fake_storage()).unwrap();
    // verify datahandling implicits
    let s3 = mf.dataHandling.stores[0].clone();
    assert!(s3.encrypted.unwrap());
    assert_eq!(s3.fields[0].encrypted.unwrap(), false); // overridden
    assert_eq!(s3.fields[1].encrypted.unwrap(), true); // cascaded
    assert_eq!(s3.fields[0].keyRotator, None); // not set either place
    assert_eq!(s3.fields[1].keyRotator, Some("2w".into())); // field value
}

#[test]
fn key_rotator_cascades_from_store() {
    let mut store = DataStore {
        backend: s("S3"),
        encrypted: Some(true),
        keyRotator: Some(s("2w")),
        fields: vec![
            DataField { name: s("a"), encrypted: Some(false), keyRotator: None },
            DataField { name: s("b"), encrypted: None, keyRotator: Some(s("1d")) },
        ],
    };
    store.implicits();
    assert_eq!(store.fields[0].encrypted, Some(false));
    assert_eq!(store.fields[1].encrypted, Some(true));
    assert_eq!(store.fields[0].keyRotator, Some(s("2w")));
    assert_eq!(store.fields[1].keyRotator, Some(s("1d")));
}

#[test]
fn implicits_fill_defaults() {
    let conf = conf();
    let mut mf = fake_ask();
    mf.configs = Some(ConfigMap {
        name: None,
        mount: s("/config/"),
        files: vec![ConfigMappedFile { name: s("app.j2"), dest: s("app.yml"), value: None }],
    });
    mf.dependencies.push(Dependency { name: s("fake-storage"), api: None });
    mf.kong = Some(Kong { name: s(""), upstream_url: s(""), uris: Some(s("/ask")), hosts: vec![] });
    mf.implicits(&conf, Some(s("dev-uk"))).unwrap();
    assert_eq!(mf.image, Some(s("quay.io/babylonhealth/fake-ask")));
    assert_eq!(mf.chart, "base");
    assert_eq!(mf.replicaCount, Some(2));
    assert_eq!(mf._region, "dev-uk");
    assert_eq!(mf.configs.as_ref().unwrap().name, Some(s("fake-ask-config")));
    assert_eq!(mf.dependencies[0].api, Some(s("v1")));
    let kong = mf.kong.as_ref().unwrap();
    assert_eq!(kong.name, "fake-ask");
    assert_eq!(kong.upstream_url, "https://dev.internal/fake-ask");
    // region defaults fill gaps, the manifest's own values win
    assert_eq!(mf.env.get("REGION"), Some(s("dev-uk")));
    assert_eq!(mf.env.get("LOG_LEVEL"), Some(s("debug")));
    assert_eq!(mf.env.get("API_KEY"), Some(s("IN_VAULT")));
}

#[test]
fn implicits_then_verify_succeeds() {
    let conf = conf();
    let mut mf = fake_ask();
    mf.implicits(&conf, Some(s("dev-uk"))).unwrap();
    assert!(mf.verify(&conf).is_ok());
}

#[test]
fn implicits_twice_changes_nothing() {
    let conf = conf();
    let mut mf = fake_storage();
    mf.image = None;
    mf.implicits(&conf, Some(s("dev-uk"))).unwrap();
    let first = mf.clone();
    mf.implicits(&conf, Some(s("dev-uk"))).unwrap();
    assert_eq!(mf.image, first.image);
    assert_eq!(mf.chart, first.chart);
    assert_eq!(mf.replicaCount, first.replicaCount);
    assert_eq!(mf.env.entries, first.env.entries);
    assert_eq!(mf.dataHandling.stores[0].fields[1].encrypted, first.dataHandling.stores[0].fields[1].encrypted);
}

#[test]
fn unknown_region_fails() {
    let conf = conf();
    let mut mf = fake_ask();
    let err = mf.implicits(&conf, Some(s("mars"))).unwrap_err();
    assert_eq!(err.kind, ErrorKind::UnknownRegion);
    assert_eq!(mf.image, None);
}

#[test]
fn name_validation() {
    let conf = conf();
    let mut ok = fake_ask();
    ok.implicits(&conf, Some(s("dev-uk"))).unwrap();
    assert!(ok.verify(&conf).is_ok());
    let long = "a".repeat(41);
    for name in ["Fake_Ask", "-leading", "trailing-", long.as_str()] {
        let mut mf = ok.clone();
        mf.name = s(name);
        let err = mf.verify(&conf).unwrap_err();
        assert_eq!(err.kind, ErrorKind::ValidationFailure, "{}", name);
    }
    assert!(Manifest::verify_name(&s("fake-ask"), true).is_ok());
    assert!(Manifest::verify_name(&s("-x"), true).is_err());
    assert!(Manifest::verify_name(&s("fake-ask"), false).is_err());
}

#[test]
fn secret_injection() {
    let mut mf = Manifest::new("fake-ask");
    mf.env.insert(s("API_KEY"), s("IN_VAULT"));
    mf.env.insert(s("PLAIN"), s("value"));
    let keys = mf.secret_keys(&s("dev-uk"));
    assert_eq!(keys, vec![s("dev-uk/fake-ask/API_KEY")]);
    let mut found = EnvMap::new();
    found.insert(s("dev-uk/fake-ask/API_KEY"), s("secret123"));
    mf.secrets(&s("dev-uk"), &found).unwrap();
    assert_eq!(mf.env.get("API_KEY"), Some(s("secret123")));
    assert_eq!(mf.env.get("PLAIN"), Some(s("value")));
    assert_eq!(mf._decoded_secrets.get("dev-uk/fake-ask/API_KEY"), Some(s("secret123")));
}

#[test]
fn secret_missing_fails() {
    let mut mf = Manifest::new("fake-ask");
    mf.env.insert(s("API_KEY"), s("IN_VAULT"));
    let err = mf.secrets(&s("dev-uk"), &EnvMap::new()).unwrap_err();
    assert_eq!(err.kind, ErrorKind::SecretNotFound);
    assert_eq!(mf.env.get("API_KEY"), Some(s("IN_VAULT")));
}

#[test]
fn secret_scope_from_vault_options() {
    let mut mf = Manifest::new("fake-ask");
    mf.vault = Some(shipcat::structs::VaultOpts { name: s("shared"), region: Some(s("prod-uk")) });
    mf.env.insert(s("TOKEN"), s("IN_VAULT"));
    assert_eq!(mf.secret_keys(&s("dev-uk")), vec![s("prod-uk/shared/TOKEN")]);
    assert_eq!(vault_key_of(&s("r"), &s("s"), &s("k")), "r/s/k");
}

#[test]
fn override_merge() {
    let mut base = Manifest::new("fake-ask");
    base.env.insert(s("A"), s("1"));
    base.env.insert(s("B"), s("2"));
    base.kong = Some(Kong { name: s("k1"), upstream_url: s("u1"), uris: Some(s("/one")), hosts: vec![] });
    base.chart = s("base");
    let mut ov = Manifest::new("other-name");
    ov.env.insert(s("B"), s("3"));
    ov.env.insert(s("C"), s("4"));
    ov.kong = Some(Kong { name: s("k2"), upstream_url: s(""), uris: None, hosts: vec![s("h")] });
    ov.chart = s("ignored");
    ov.version = Some(s("2.0.0"));
    base.merge(ov).unwrap();
    assert_eq!(base.env.len(), 3);
    assert_eq!(base.env.get("A"), Some(s("1")));
    assert_eq!(base.env.get("B"), Some(s("3")));
    assert_eq!(base.env.get("C"), Some(s("4")));
    let k = base.kong.unwrap();
    assert_eq!(k.name, "k2");
    assert_eq!(k.upstream_url, "");
    assert_eq!(k.uris, None);
    assert_eq!(k.hosts, vec![s("h")]);
    assert_eq!(base.name, "fake-ask");
    assert_eq!(base.chart, "base");
    assert_eq!(base.version, Some(s("2.0.0")));
}

#[test]
fn override_lists_replace_when_non_empty() {
    let mut base = fake_ask();
    base.initContainers.push(InitContainer { name: s("a"), image: s("i"), command: vec![] });
    let mut ov = Manifest::new("fake-ask");
    ov.hostAliases.push(HostAlias { ip: s("10.0.0.1"), hostnames: vec![s("db")] });
    base.merge(ov).unwrap();
    assert_eq!(base.initContainers.len(), 1);
    assert_eq!(base.hostAliases[0].ip, "10.0.0.1");
}

#[test]
fn override_bad_host_alias_fails() {
    let mut base = fake_ask();
    let mut ov = Manifest::new("fake-ask");
    ov.version = Some(s("9"));
    ov.hostAliases.push(HostAlias { ip: s(""), hostnames: vec![s("db")] });
    let err = base.merge(ov).unwrap_err();
    assert_eq!(err.kind, ErrorKind::InvalidHostAlias);
    assert_eq!(base.version, Some(s("1.0.0")));
}

#[test]
fn external_without_resources_verifies() {
    let conf = conf();
    let mut mf = fake_ask();
    mf.external = true;
    mf.resources = None;
    mf.regions = vec![];
    mf.implicits(&conf, Some(s("dev-uk"))).unwrap();
    assert!(mf.verify(&conf).is_ok());
}

#[test]
fn verify_failures() {
    let conf = conf();
    let mut base = fake_ask();
    base.implicits(&conf, Some(s("dev-uk"))).unwrap();
    let mut a = base.clone();
    a.resources = None;
    assert_eq!(a.verify(&conf).unwrap_err().kind, ErrorKind::ValidationFailure);
    let mut b = base.clone();
    b.health = None;
    assert!(b.verify(&conf).is_err());
    let mut c = base.clone();
    c.httpPort = None;
    c.health = None;
    assert!(c.verify(&conf).is_ok());
    let mut d = base.clone();
    d.replicaCount = Some(0);
    assert!(d.verify(&conf).is_err());
    let mut e = base.clone();
    e.regions.push(s("mars"));
    assert!(e.verify(&conf).is_err());
    let mut f = base.clone();
    f.regions.clear();
    assert!(f.verify(&conf).is_err());
    let mut g = base.clone();
    g.metadata.team = s("");
    assert!(g.verify(&conf).is_err());
    let mut h = base.clone();
    h.hostAliases.push(HostAlias { ip: s("1.2.3.4"), hostnames: vec![] });
    assert!(h.verify(&conf).is_err());
    let mut i = base.clone();
    i.serviceAnnotations.insert(s("x"), s("y"));
    assert!(i.verify(&conf).is_ok());
}

#[test]
fn sub_structure_checks() {
    let conf = conf();
    assert!(HostAlias { ip: s("1.1.1.1"), hostnames: vec![s("a")] }.verify(&conf).is_ok());
    assert!(HostAlias { ip: s(""), hostnames: vec![s("a")] }.verify(&conf).is_err());
    assert!(Dependency { name: s("x"), api: None }.verify(&conf).is_err());
    assert!(Dependency { name: s("x"), api: Some(s("v1")) }.verify(&conf).is_ok());
    assert!(InitContainer { name: s("x"), image: s(""), command: vec![] }.verify(&conf).is_err());
    assert!(resources().verify(&conf).is_ok());
    assert!(Resources { requests: None, limits: None }.verify(&conf).is_err());
}

#[test]
fn identity_and_region_errors() {
    let conf = conf();
    let err = Manifest::basic(&s("fake-ask"), &conf, None, fake_storage()).err().unwrap();
    assert_eq!(err.kind, ErrorKind::IdentityMismatch);
    let mut other = fake_ask();
    other.regions = vec![];
    let mut conf2 = conf.clone();
    conf2.regions.push(Region {
        name: s("prod-uk"),
        namespace: s("prod"),
        env: EnvMap::new(),
        kong: KongConfig { base_url: s("x") },
    });
    let err = validate_service(&s("fake-ask"), other, None, &conf2, &s("prod-uk")).unwrap_err();
    assert_eq!(err.kind, ErrorKind::UnsupportedRegion);
    let err = validate(&vec![s("fake-ask")], vec![fake_ask()], vec![None], &conf, &s("mars")).unwrap_err();
    assert_eq!(err.kind, ErrorKind::UnknownRegion);
}

#[test]
fn env_map_behaves_as_a_map() {
    let mut m = EnvMap::new();
    assert!(m.is_empty());
    m.insert(s("k"), s("1"));
    m.insert(s("k"), s("2"));
    m.insert_if_absent(s("k"), s("3"));
    m.insert_if_absent(s("j"), s("4"));
    assert_eq!(m.len(), 2);
    assert_eq!(m.get("k"), Some(s("2")));
    assert_eq!(m.get("j"), Some(s("4")));
    assert_eq!(m.get("x"), None);
    assert!(m.contains_key("j"));
}

#[test]
fn only_the_exact_sentinel_is_a_placeholder() {
    let mut mf = Manifest::new("fake-ask");
    mf.env.insert(s("A"), s("in_vault"));
    mf.env.insert(s("B"), s("IN_VAULT "));
    mf.env.insert(s("C"), s("IN_VAUL"));
    mf.env.insert(s("D"), s("IN_VAULT"));
    assert_eq!(mf.secret_keys(&s("dev-uk")), vec![s("dev-uk/fake-ask/D")]);
    let mut found = EnvMap::new();
    found.insert(s("dev-uk/fake-ask/D"), s("d"));
    mf.secrets(&s("dev-uk"), &found).unwrap();
    assert_eq!(mf.env.get("A"), Some(s("in_vault")));
    assert_eq!(mf.env.get("B"), Some(s("IN_VAULT ")));
    assert_eq!(mf.env.get("C"), Some(s("IN_VAUL")));
    assert_eq!(mf.env.get("D"), Some(s("d")));
    assert_eq!(mf._decoded_secrets.len(), 1);
}

#[test]
fn default_values() {
    assert_eq!(health_check_url_default(), "/health");
    assert_eq!(health_check_wait_time_default(), 30);
    assert!(!volume_mount_read_only());
    assert_eq!(volume_key(), "value");
    assert_eq!(volume_default_mode(), 420);
    let h = HealthCheck::new();
    assert_eq!(h.uri, "/health");
    assert_eq!(h.wait, 30);
}

#[test]
fn fill_and_completed_merge_override() {
    let conf = conf();
    let mut ov = Manifest::new("fake-ask");
    ov.env.insert(s("LOG_LEVEL"), s("trace"));
    ov.version = Some(s("2.0.0"));
    let mf = Manifest::completed(&s("dev-uk"), &conf, &s("fake-ask"), fake_ask(), Some(ov)).unwrap();
    assert_eq!(mf.env.get("LOG_LEVEL"), Some(s("trace")));
    assert_eq!(mf.env.get("REGION"), Some(s("dev-uk")));
    assert_eq!(mf.version, Some(s("2.0.0")));
    assert_eq!(mf._region, "dev-uk");
    let mut m = fake_ask();
    let err = m.fill(&conf, &s("mars"), None).unwrap_err();
    assert_eq!(err.kind, ErrorKind::UnknownRegion);
}

#[test]
fn failure_reason_names_the_service() {
    let conf = conf();
    let mut mf = fake_ask();
    mf.implicits(&conf, Some(s("dev-uk"))).unwrap();
    mf.health = None;
    let err = mf.verify(&conf).unwrap_err();
    assert_eq!(err.kind, ErrorKind::ValidationFailure);
    assert!(err.message().ends_with("fake-ask"));
}

#[test]
fn completed_checks_the_service_name() {
    let conf = conf();
    let err = Manifest::completed(&s("dev-uk"), &conf, &s("other"), fake_ask(), None).err().unwrap();
    assert_eq!(err.kind, ErrorKind::IdentityMismatch);
}

#[test]
fn secret_keys_are_listed_once_each() {
    let mut mf = Manifest::new("fake-ask");
    mf.env.insert(s("A"), s("IN_VAULT"));
    mf.env.insert(s("B"), s("IN_VAULT"));
    mf.env.insert(s("A"), s("IN_VAULT"));
    let keys = mf.secret_keys(&s("dev-uk"));
    assert_eq!(keys, vec![s("dev-uk/fake-ask/A"), s("dev-uk/fake-ask/B")]);
}

#[test]
fn batch_stops_at_first_failing_service() {
    let conf = conf();
    let mut broken = fake_storage();
    broken.resources = None;
    let err = validate(
        &vec![s("fake-ask"), s("fake-storage"), s("fake-ask")],
        vec![fake_ask(), broken, Manifest::new("wrong")],
        vec![None, None, None],
        &conf,
        &s("dev-uk"),
    )
    .unwrap_err();
    assert_eq!(err.kind, ErrorKind::ValidationFailure);
    assert!(err.message().ends_with("fake-storage"));
    assert!(validate_service(&s("fake-ask"), fake_ask(), None, &conf, &s("dev-uk")).is_ok());
    let mut ov = Manifest::new("fake-ask");
    ov.hostAliases.push(HostAlias { ip: s(""), hostnames: vec![] });
    let err = validate_service(&s("fake-ask"), fake_ask(), Some(ov), &conf, &s("dev-uk")).unwrap_err();
    assert_eq!(err.kind, ErrorKind::InvalidHostAlias);
}

#[test]
fn batch_reports_unsupported_region_of_the_service() {
    let conf = conf();
    let mut other = fake_storage();
    other.regions = vec![s("prod-uk")];
    let err = validate(
        &vec![s("fake-ask"), s("fake-storage")],
        vec![fake_ask(), other],
        vec![None, None],
        &conf,
        &s("dev-uk"),
    )
    .unwrap_err();
    assert_eq!(err.kind, ErrorKind::UnsupportedRegion);
    assert!(err.message().ends_with("fake-storage"));
    let err = validate(&vec![s("fake-ask")], vec![fake_storage()], vec![None], &conf, &s("dev-uk")).unwrap_err();
    assert_eq!(err.kind, ErrorKind::IdentityMismatch);
    assert!(err.message().ends_with("fake-ask"));
}
