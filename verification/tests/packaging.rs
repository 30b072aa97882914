//! Format selection, artifact resolution and the packaging plans.

use sprinkle::events::ArtifactInfo;
use sprinkle::pipeline::{
    installable_plan, loader_plan, parse_format, PlanError, Step, UsageError,
};
use sprinkle::resolve::{
    resolve_artifact, ConfigEntry, Format, InstallableConfig, LoaderConfig, PackageInfo,
    PackagingConfig,
};

fn artifact(package_id: &[u8], kinds: &[&[u8]], name: &[u8], paths: &[&[u8]]) -> ArtifactInfo {
    ArtifactInfo {
        package_id: package_id.to_vec(),
        target_kinds: kinds.iter().map(|k| k.to_vec()).collect(),
        target_name: name.to_vec(),
        output_paths: paths.iter().map(|p| p.to_vec()).collect(),
    }
}

fn loader_defaults() -> LoaderConfig {
    LoaderConfig {
        asset_dir: None,
        icon_path: None,
        has_app_metadata: false,
        embed_debug_companion: false,
    }
}

// ---------------------------------------------------------------------------
// Format selection: exactly two recognized values; anything else aborts
// before any build work starts.
// ---------------------------------------------------------------------------

#[test]
fn recognizes_both_formats() {
    assert_eq!(
        parse_format(Some(&b"nsp".to_vec())),
        Ok(Format::InstallablePackage)
    );
    assert_eq!(parse_format(Some(&b"nro".to_vec())), Ok(Format::LoaderBinary));
}

#[test]
fn unknown_format_is_a_usage_error() {
    assert_eq!(
        parse_format(Some(&b"qux".to_vec())),
        Err(UsageError::UnknownFormat)
    );
    assert_eq!(parse_format(None), Err(UsageError::MissingFormat));
}

// ---------------------------------------------------------------------------
// Artifact resolution.
// ---------------------------------------------------------------------------

fn one_package(entries: Vec<ConfigEntry>) -> Vec<PackageInfo> {
    vec![PackageInfo {
        id: b"pkg 0.1.0".to_vec(),
        manifest_dir: b"/w/pkg".to_vec(),
        entries,
    }]
}

#[test]
fn unknown_package_is_skipped_without_error() {
    let a = artifact(b"elsewhere 2.0.0", &[b"bin"], b"app", &[b"/t/app"]);
    assert_eq!(
        resolve_artifact(&a, &one_package(vec![]), Format::InstallablePackage),
        None
    );
}

#[test]
fn non_executable_kinds_are_ignored() {
    let a = artifact(b"pkg 0.1.0", &[b"lib"], b"app", &[b"/t/app"]);
    assert_eq!(
        resolve_artifact(&a, &one_package(vec![]), Format::InstallablePackage),
        None
    );
    let b = artifact(b"pkg 0.1.0", &[b"cdylib"], b"app", &[b"/t/app"]);
    assert!(resolve_artifact(&b, &one_package(vec![]), Format::LoaderBinary).is_some());
}

#[test]
fn missing_configuration_yields_defaults() {
    let a = artifact(b"pkg 0.1.0", &[b"bin"], b"app", &[b"/t/app"]);
    let res = resolve_artifact(&a, &one_package(vec![]), Format::LoaderBinary)
        .expect("qualifying artifact of a known package");
    assert_eq!(res.config, PackagingConfig::Loader(loader_defaults()));
    let res = resolve_artifact(&a, &one_package(vec![]), Format::InstallablePackage)
        .expect("qualifying artifact of a known package");
    assert_eq!(
        res.config,
        PackagingConfig::Installable(InstallableConfig {
            descriptor_path: vec![]
        })
    );
}

/// Two artifacts of one package with different target names, under
/// binary-scoped entries, resolve their own configurations independently.
#[test]
fn scoped_entries_resolve_per_target() {
    let entries = vec![
        ConfigEntry {
            scope: Some(b"alpha".to_vec()),
            config: PackagingConfig::Installable(InstallableConfig {
                descriptor_path: b"alpha.json".to_vec(),
            }),
        },
        ConfigEntry {
            scope: Some(b"beta".to_vec()),
            config: PackagingConfig::Installable(InstallableConfig {
                descriptor_path: b"beta.json".to_vec(),
            }),
        },
    ];
    let packages = one_package(entries);
    let a = artifact(b"pkg 0.1.0", &[b"bin"], b"alpha", &[b"/t/alpha"]);
    let b = artifact(b"pkg 0.1.0", &[b"bin"], b"beta", &[b"/t/beta"]);
    let ra = resolve_artifact(&a, &packages, Format::InstallablePackage).unwrap();
    let rb = resolve_artifact(&b, &packages, Format::InstallablePackage).unwrap();
    assert_eq!(
        ra.config,
        PackagingConfig::Installable(InstallableConfig {
            descriptor_path: b"alpha.json".to_vec()
        })
    );
    assert_eq!(
        rb.config,
        PackagingConfig::Installable(InstallableConfig {
            descriptor_path: b"beta.json".to_vec()
        })
    );
}

#[test]
fn unscoped_entry_applies_to_every_target() {
    let entries = vec![ConfigEntry {
        scope: None,
        config: PackagingConfig::Installable(InstallableConfig {
            descriptor_path: b"all.json".to_vec(),
        }),
    }];
    let packages = one_package(entries);
    let a = artifact(b"pkg 0.1.0", &[b"bin"], b"anything", &[b"/t/anything"]);
    let ra = resolve_artifact(&a, &packages, Format::InstallablePackage).unwrap();
    assert_eq!(
        ra.config,
        PackagingConfig::Installable(InstallableConfig {
            descriptor_path: b"all.json".to_vec()
        })
    );
}

// ---------------------------------------------------------------------------
// The packaging plans.
// ---------------------------------------------------------------------------

#[test]
fn installable_plan_steps_in_order() {
    let image = b"/w/target/debug/app".to_vec();
    let dir = b"/w/pkg".to_vec();
    let cfg = InstallableConfig {
        descriptor_path: b"app.json".to_vec(),
    };
    let steps = installable_plan(&image, &dir, &cfg).expect("image path has a file name");
    assert_eq!(
        steps,
        vec![
            Step::ResetStaging {
                dir: b"/w/target/debug/exefs".to_vec()
            },
            Step::EncodeDescriptor {
                source: b"/w/pkg/app.json".to_vec(),
                dest: b"/w/target/debug/exefs/main.npdm".to_vec()
            },
            Step::EncodeExecutable {
                image: b"/w/target/debug/app".to_vec(),
                dest: b"/w/target/debug/exefs/main".to_vec()
            },
            Step::PackContainer {
                dir: b"/w/target/debug/exefs".to_vec(),
                dest: b"/w/target/debug/app.nsp".to_vec()
            },
            Step::Report {
                path: b"/w/target/debug/app.nsp".to_vec()
            },
        ]
    );
}

#[test]
fn loader_plan_with_defaults_embeds_nothing() {
    let image = b"/t/app".to_vec();
    let dir = b"/w/pkg".to_vec();
    let steps = loader_plan(&image, &dir, &loader_defaults()).unwrap();
    assert_eq!(
        steps,
        vec![
            Step::EncodeLoader {
                image: b"/t/app".to_vec(),
                dest: b"/t/app.nro".to_vec(),
                with_assets: false,
                icon: None,
                with_metadata: false
            },
            Step::Report {
                path: b"/t/app.nro".to_vec()
            },
        ]
    );
}

#[test]
fn loader_plan_with_everything_configured() {
    let image = b"/t/app".to_vec();
    let dir = b"/w/pkg".to_vec();
    let cfg = LoaderConfig {
        asset_dir: Some(b"assets".to_vec()),
        icon_path: Some(b"icon.jpg".to_vec()),
        has_app_metadata: true,
        embed_debug_companion: true,
    };
    let steps = loader_plan(&image, &dir, &cfg).unwrap();
    assert_eq!(
        steps,
        vec![
            Step::SplitDebugInfo {
                image: b"/t/app".to_vec(),
                dest: b"/t/app.debug".to_vec()
            },
            Step::BuildAssetFs {
                dir: b"/w/pkg/assets".to_vec()
            },
            Step::EncodeLoader {
                image: b"/t/app".to_vec(),
                dest: b"/t/app.nro".to_vec(),
                with_assets: true,
                icon: Some(b"/w/pkg/icon.jpg".to_vec()),
                with_metadata: true
            },
            Step::Report {
                path: b"/t/app.nro".to_vec()
            },
        ]
    );
}

#[test]
fn plan_refuses_a_path_without_file_name() {
    let cfg = InstallableConfig {
        descriptor_path: b"a.json".to_vec(),
    };
    assert_eq!(
        installable_plan(&b"/w/..".to_vec(), &b"/w".to_vec(), &cfg),
        Err(PlanError::NoFileName)
    );
}

/// Repeating a pipeline on the same artifact and configuration draws up the
/// identical plan, so deterministic encoders produce byte-identical files.
#[test]
fn plans_are_deterministic() {
    let image = b"/t/app".to_vec();
    let dir = b"/w/pkg".to_vec();
    let cfg = InstallableConfig {
        descriptor_path: b"app.json".to_vec(),
    };
    assert_eq!(
        installable_plan(&image, &dir, &cfg).unwrap(),
        installable_plan(&image, &dir, &cfg).unwrap()
    );
    let lcfg = LoaderConfig {
        asset_dir: Some(b"assets".to_vec()),
        icon_path: None,
        has_app_metadata: false,
        embed_debug_companion: true,
    };
    assert_eq!(
        loader_plan(&image, &dir, &lcfg).unwrap(),
        loader_plan(&image, &dir, &lcfg).unwrap()
    );
}

#[test]
fn extension_swap_handles_dotted_names() {
    let image = b"/t/app.elf".to_vec();
    let steps = loader_plan(&image, &b"/w".to_vec(), &loader_defaults()).unwrap();
    match &steps[0] {
        Step::EncodeLoader { dest, .. } => assert_eq!(dest, &b"/t/app.nro".to_vec()),
        other => panic!("expected the loader encode step, got {:?}", other),
    }
}
