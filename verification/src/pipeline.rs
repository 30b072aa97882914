//! The two packaging pipelines as verified plan generators.
//!
//! Each pipeline is a linear sequence of steps with no branching: the caller
//! performs the steps in order, the first failure aborts the artifact's
//! packaging, and nothing is rolled back.  The steps that call the external
//! encoders and touch the filesystem are described here as data; what each
//! plan contains is a function of the artifact and its configuration alone,
//! which is what makes repeated runs reproducible.

use vstd::prelude::*;
use crate::resolve::Format;
use crate::resolve::InstallableConfig;
use crate::resolve::LoaderConfig;
use crate::resolve::LoaderConfigV;
use crate::paths::parent_of;
use crate::paths::joined;
use crate::paths::with_extension;
use crate::paths::parent_dir;
use crate::paths::join;
use crate::paths::set_extension;
use crate::paths::copy_bytes;
use crate::paths::lemma_last_pos_range;

verus! {

/// A usage fault: the command line selects no recognized output format.
#[derive(Debug, Clone, Copy, PartialEq, Eq, Structural)]
pub enum UsageError {
    /// No format argument was given.
    MissingFormat,
    /// The format argument matches no recognized value.
    UnknownFormat,
}

/// The argument bytes selecting the installable-package format.
pub open spec fn installable_arg() -> Seq<u8> {
    seq![0x6eu8, 0x73u8, 0x70u8]
}

/// The argument bytes selecting the loader-binary format.
pub open spec fn loader_arg() -> Seq<u8> {
    seq![0x6eu8, 0x72u8, 0x6fu8]
}

/// Selects the output format from the first positional argument.  Exactly
/// two values are recognized; any other value, or a missing argument, is a
/// usage error, to be raised before any build work starts.
pub fn parse_format(arg: Option<&Vec<u8>>) -> (r: Result<Format, UsageError>)
    ensures
        match arg {
            None => r == Err::<Format, UsageError>(UsageError::MissingFormat),
            Some(a) => r == (if a@ == installable_arg() {
                Ok::<Format, UsageError>(Format::InstallablePackage)
            } else if a@ == loader_arg() {
                Ok::<Format, UsageError>(Format::LoaderBinary)
            } else {
                Err::<Format, UsageError>(UsageError::UnknownFormat)
            }),
        },
{
    let a = match arg {
        Some(a) => a,
        None => {
            return Err(UsageError::MissingFormat);
        },
    };
    let nsp = a.len() == 3 && a[0] == 0x6e && a[1] == 0x73 && a[2] == 0x70;
    let nro = a.len() == 3 && a[0] == 0x6e && a[1] == 0x72 && a[2] == 0x6f;
    proof {
        if nsp {
            assert(a@ =~= installable_arg());
        }
        if a@ == installable_arg() {
            assert(a@.len() == 3 && a@[0] == 0x6eu8 && a@[1] == 0x73u8 && a@[2] == 0x70u8);
        }
        if nro {
            assert(a@ =~= loader_arg());
        }
        if a@ == loader_arg() {
            assert(a@.len() == 3 && a@[0] == 0x6eu8 && a@[1] == 0x72u8 && a@[2] == 0x6fu8);
        }
    }
    if nsp {
        Ok(Format::InstallablePackage)
    } else if nro {
        Ok(Format::LoaderBinary)
    } else {
        Err(UsageError::UnknownFormat)
    }
}

/// One step of a packaging plan.
#[derive(Debug, PartialEq, Eq)]
pub enum Step {
    /// Remove the staging directory if it exists, then recreate it empty.
    /// Destructive; it precedes every other write for the artifact.
    ResetStaging {
        /// The staging directory.
        dir: Vec<u8>,
    },
    /// Encode the structured program-metadata description at `source` into
    /// the binary descriptor at `dest` (external encoder).
    EncodeDescriptor {
        /// The structured description to read.
        source: Vec<u8>,
        /// The descriptor file to write.
        dest: Vec<u8>,
    },
    /// Convert the compiled image into the device executable container at
    /// `dest` (external encoder).
    EncodeExecutable {
        /// The compiled image.
        image: Vec<u8>,
        /// The container file to write.
        dest: Vec<u8>,
    },
    /// Pack the staging directory's files, in the order the previous steps
    /// wrote them, into the package container at `dest` (external encoder).
    PackContainer {
        /// The staging directory.
        dir: Vec<u8>,
        /// The container file to write.
        dest: Vec<u8>,
    },
    /// Derive the payload-stripped debug companion of `image` at `dest` and
    /// feed it into the asset filesystem of the following steps.
    SplitDebugInfo {
        /// The compiled image.
        image: Vec<u8>,
        /// The companion file to write.
        dest: Vec<u8>,
    },
    /// Build the asset filesystem image from `dir` (external encoder).
    BuildAssetFs {
        /// The directory tree to pack.
        dir: Vec<u8>,
    },
    /// Convert the compiled image into the loader binary at `dest`,
    /// embedding the asset filesystem prepared by the previous steps, the
    /// icon and the metadata record (external encoder).
    EncodeLoader {
        /// The compiled image.
        image: Vec<u8>,
        /// The loader binary to write.
        dest: Vec<u8>,
        /// Whether an asset filesystem is embedded.
        with_assets: bool,
        /// The icon file to embed, if any.
        icon: Option<Vec<u8>>,
        /// Whether the configured metadata record is embedded.
        with_metadata: bool,
    },
    /// Report `path` as the finished output.
    Report {
        /// The finished container file.
        path: Vec<u8>,
    },
}

/// Mathematical shadow of [`Step`].
pub enum StepV {
    /// See [`Step::ResetStaging`].
    ResetStaging {
        /// The staging directory.
        dir: Seq<u8>,
    },
    /// See [`Step::EncodeDescriptor`].
    EncodeDescriptor {
        /// The structured description to read.
        source: Seq<u8>,
        /// The descriptor file to write.
        dest: Seq<u8>,
    },
    /// See [`Step::EncodeExecutable`].
    EncodeExecutable {
        /// The compiled image.
        image: Seq<u8>,
        /// The container file to write.
        dest: Seq<u8>,
    },
    /// See [`Step::PackContainer`].
    PackContainer {
        /// The staging directory.
        dir: Seq<u8>,
        /// The container file to write.
        dest: Seq<u8>,
    },
    /// See [`Step::SplitDebugInfo`].
    SplitDebugInfo {
        /// The compiled image.
        image: Seq<u8>,
        /// The companion file to write.
        dest: Seq<u8>,
    },
    /// See [`Step::BuildAssetFs`].
    BuildAssetFs {
        /// The directory tree to pack.
        dir: Seq<u8>,
    },
    /// See [`Step::EncodeLoader`].
    EncodeLoader {
        /// The compiled image.
        image: Seq<u8>,
        /// The loader binary to write.
        dest: Seq<u8>,
        /// Whether an asset filesystem is embedded.
        with_assets: bool,
        /// The icon file to embed, if any.
        icon: Option<Seq<u8>>,
        /// Whether the configured metadata record is embedded.
        with_metadata: bool,
    },
    /// See [`Step::Report`].
    Report {
        /// The finished container file.
        path: Seq<u8>,
    },
}

impl View for Step {
    type V = StepV;

    open spec fn view(&self) -> StepV {
        match self {
            Step::ResetStaging { dir } => StepV::ResetStaging { dir: dir@ },
            Step::EncodeDescriptor { source, dest } => StepV::EncodeDescriptor {
                source: source@,
                dest: dest@,
            },
            Step::EncodeExecutable { image, dest } => StepV::EncodeExecutable {
                image: image@,
                dest: dest@,
            },
            Step::PackContainer { dir, dest } => StepV::PackContainer { dir: dir@, dest: dest@ },
            Step::SplitDebugInfo { image, dest } => StepV::SplitDebugInfo {
                image: image@,
                dest: dest@,
            },
            Step::BuildAssetFs { dir } => StepV::BuildAssetFs { dir: dir@ },
            Step::EncodeLoader { image, dest, with_assets, icon, with_metadata } => StepV::EncodeLoader {
                image: image@,
                dest: dest@,
                with_assets: *with_assets,
                icon: match icon {
                    Some(p) => Some(p@),
                    None => None,
                },
                with_metadata: *with_metadata,
            },
            Step::Report { path } => StepV::Report { path: path@ },
        }
    }
}

/// The element views of a step vector.
pub open spec fn steps_view(v: Seq<Step>) -> Seq<StepV> {
    v.map_values(|s: Step| s@)
}

/// The staging directory's name.
pub open spec fn staging_name() -> Seq<u8> {
    seq![0x65u8, 0x78u8, 0x65u8, 0x66u8, 0x73u8]
}

/// The descriptor file's name inside the staging directory.
pub open spec fn descriptor_name() -> Seq<u8> {
    seq![0x6du8, 0x61u8, 0x69u8, 0x6eu8, 0x2eu8, 0x6eu8, 0x70u8, 0x64u8, 0x6du8]
}

/// The executable container's name inside the staging directory.
pub open spec fn executable_name() -> Seq<u8> {
    seq![0x6du8, 0x61u8, 0x69u8, 0x6eu8]
}

/// The installable-package container's extension.
pub open spec fn package_ext() -> Seq<u8> {
    seq![0x6eu8, 0x73u8, 0x70u8]
}

/// The loader binary's extension.
pub open spec fn loader_ext() -> Seq<u8> {
    seq![0x6eu8, 0x72u8, 0x6fu8]
}

/// The debug companion's extension.
pub open spec fn debug_ext() -> Seq<u8> {
    seq![0x64u8, 0x65u8, 0x62u8, 0x75u8, 0x67u8]
}

/// A plan could not be drawn up for the artifact.
#[derive(Debug, Clone, Copy, PartialEq, Eq, Structural)]
pub enum PlanError {
    /// The image path has no final component to derive output names from.
    NoFileName,
}

/// The installable-package plan: reset staging, encode the descriptor and
/// the executable container into it, pack both — in that order — into the
/// package container next to the image, report.  `None` exactly when the
/// image path has no final component.
pub open spec fn spec_installable_plan(image: Seq<u8>, manifest_dir: Seq<u8>, descriptor: Seq<u8>)
    -> Option<Seq<StepV>> {
    match with_extension(image, package_ext()) {
        None => None,
        Some(out) => {
            let staging = joined(parent_of(image), staging_name());
            Some(
                seq![
                    StepV::ResetStaging { dir: staging },
                    StepV::EncodeDescriptor {
                        source: joined(manifest_dir, descriptor),
                        dest: joined(staging, descriptor_name()),
                    },
                    StepV::EncodeExecutable { image, dest: joined(staging, executable_name()) },
                    StepV::PackContainer { dir: staging, dest: out },
                    StepV::Report { path: out },
                ],
            )
        },
    }
}

/// The loader-binary plan: optionally derive the debug companion, optionally
/// build the asset filesystem, encode the loader binary next to the image
/// with the configured embeddings, report.  `None` exactly when the image
/// path has no final component.  With everything unconfigured the plan
/// embeds nothing: two steps only.
pub open spec fn spec_loader_plan(image: Seq<u8>, manifest_dir: Seq<u8>, cfg: LoaderConfigV)
    -> Option<Seq<StepV>> {
    match with_extension(image, loader_ext()) {
        None => None,
        Some(out) => {
            let dbg = with_extension(image, debug_ext())->Some_0;
            let split_steps: Seq<StepV> = if cfg.embed_debug_companion {
                seq![StepV::SplitDebugInfo { image, dest: dbg }]
            } else {
                Seq::empty()
            };
            let asset_steps: Seq<StepV> = match cfg.asset_dir {
                Some(d) => seq![StepV::BuildAssetFs { dir: joined(manifest_dir, d) }],
                None => Seq::empty(),
            };
            Some(
                split_steps + asset_steps + seq![
                    StepV::EncodeLoader {
                        image,
                        dest: out,
                        with_assets: cfg.asset_dir is Some || cfg.embed_debug_companion,
                        icon: match cfg.icon_path {
                            Some(p) => Some(joined(manifest_dir, p)),
                            None => None,
                        },
                        with_metadata: cfg.has_app_metadata,
                    },
                    StepV::Report { path: out },
                ],
            )
        },
    }
}

/// Draws up the installable-package plan for one artifact.
pub fn installable_plan(image: &Vec<u8>, manifest_dir: &Vec<u8>, cfg: &InstallableConfig) -> (r:
    Result<Vec<Step>, PlanError>)
    requires
        image@.len() + 16 <= usize::MAX,
        manifest_dir@.len() + 1 + cfg.descriptor_path@.len() <= usize::MAX,
    ensures
        r matches Ok(steps) ==> spec_installable_plan(image@, manifest_dir@, cfg.descriptor_path@)
            == Some(steps_view(steps@)),
        r is Err <==> spec_installable_plan(image@, manifest_dir@, cfg.descriptor_path@) is None,
{
    let ext = byte_literal3(0x6e, 0x73, 0x70);
    proof {
        assert(ext@ =~= package_ext());
    }
    let out = match set_extension(image, &ext) {
        Some(o) => o,
        None => {
            return Err(PlanError::NoFileName);
        },
    };
    let parent = parent_dir(image);
    proof {
        lemma_last_pos_range(image@, 0x2f, image@.len() as int);
        assert(parent@.len() <= image@.len());
    }
    let mut sname: Vec<u8> = byte_literal3(0x65, 0x78, 0x65);
    sname.push(0x66);
    sname.push(0x73);
    proof {
        assert(sname@ =~= staging_name());
    }
    let staging = join(&parent, &sname);
    let mut dname: Vec<u8> = byte_literal3(0x6d, 0x61, 0x69);
    dname.push(0x6e);
    let exe_dest = join(&staging, &dname);
    proof {
        assert(dname@ =~= executable_name());
    }
    dname.push(0x2e);
    dname.push(0x6e);
    dname.push(0x70);
    dname.push(0x64);
    dname.push(0x6d);
    proof {
        assert(dname@ =~= descriptor_name());
    }
    let desc_dest = join(&staging, &dname);
    let desc_source = join(manifest_dir, &cfg.descriptor_path);
    let mut steps: Vec<Step> = Vec::new();
    steps.push(Step::ResetStaging { dir: copy_bytes(&staging) });
    steps.push(Step::EncodeDescriptor { source: desc_source, dest: desc_dest });
    steps.push(Step::EncodeExecutable { image: copy_bytes(image), dest: exe_dest });
    steps.push(Step::PackContainer { dir: staging, dest: copy_bytes(&out) });
    steps.push(Step::Report { path: out });
    proof {
        assert(steps_view(steps@) =~= spec_installable_plan(
            image@,
            manifest_dir@,
            cfg.descriptor_path@,
        )->Some_0);
    }
    Ok(steps)
}

/// Draws up the loader-binary plan for one artifact.
pub fn loader_plan(image: &Vec<u8>, manifest_dir: &Vec<u8>, cfg: &LoaderConfig) -> (r: Result<
    Vec<Step>,
    PlanError,
>)
    requires
        image@.len() + 16 <= usize::MAX,
        cfg.asset_dir matches Some(d) ==> manifest_dir@.len() + 1 + d@.len() <= usize::MAX,
        cfg.icon_path matches Some(p) ==> manifest_dir@.len() + 1 + p@.len() <= usize::MAX,
    ensures
        r matches Ok(steps) ==> spec_loader_plan(image@, manifest_dir@, loader_cfg_view(cfg))
            == Some(steps_view(steps@)),
        r is Err <==> spec_loader_plan(image@, manifest_dir@, loader_cfg_view(cfg)) is None,
{
    let ext = byte_literal3(0x6e, 0x72, 0x6f);
    proof {
        assert(ext@ =~= loader_ext());
    }
    let out = match set_extension(image, &ext) {
        Some(o) => o,
        None => {
            return Err(PlanError::NoFileName);
        },
    };
    let mut steps: Vec<Step> = Vec::new();
    if cfg.embed_debug_companion {
        let mut dext: Vec<u8> = byte_literal3(0x64, 0x65, 0x62);
        dext.push(0x75);
        dext.push(0x67);
        proof {
            assert(dext@ =~= debug_ext());
        }
        let dbg = match set_extension(image, &dext) {
            Some(d) => d,
            None => {
                proof {
                    assert(false);
                }
                return Err(PlanError::NoFileName);
            },
        };
        steps.push(Step::SplitDebugInfo { image: copy_bytes(image), dest: dbg });
    }
    if let Some(d) = &cfg.asset_dir {
        steps.push(Step::BuildAssetFs { dir: join(manifest_dir, d) });
    }
    let icon: Option<Vec<u8>> = match &cfg.icon_path {
        Some(p) => Some(join(manifest_dir, p)),
        None => None,
    };
    steps.push(Step::EncodeLoader {
        image: copy_bytes(image),
        dest: copy_bytes(&out),
        with_assets: cfg.asset_dir.is_some() || cfg.embed_debug_companion,
        icon,
        with_metadata: cfg.has_app_metadata,
    });
    steps.push(Step::Report { path: out });
    proof {
        assert(steps_view(steps@) =~= spec_loader_plan(
            image@,
            manifest_dir@,
            loader_cfg_view(cfg),
        )->Some_0);
    }
    Ok(steps)
}

/// The view of a loader configuration.
pub open spec fn loader_cfg_view(cfg: &LoaderConfig) -> LoaderConfigV {
    LoaderConfigV {
        asset_dir: match cfg.asset_dir {
            Some(d) => Some(d@),
            None => None,
        },
        icon_path: match cfg.icon_path {
            Some(p) => Some(p@),
            None => None,
        },
        has_app_metadata: cfg.has_app_metadata,
        embed_debug_companion: cfg.embed_debug_companion,
    }
}

/// A three-byte string.
fn byte_literal3(a: u8, b: u8, c: u8) -> (r: Vec<u8>)
    ensures
        r@ =~= seq![a, b, c],
{
    let mut r: Vec<u8> = Vec::new();
    r.push(a);
    r.push(b);
    r.push(c);
    proof {
        assert(r@ =~= seq![a, b, c]);
    }
    r
}

/// Law: a pipeline's plan is a function of the artifact and its
/// configuration alone.  Two runs over the same image, manifest directory
/// and configuration draw up the same steps, so against deterministic
/// encoders the final container files are byte-identical.
pub proof fn lemma_plans_deterministic(
    image1: Seq<u8>,
    manifest_dir1: Seq<u8>,
    descriptor1: Seq<u8>,
    lcfg1: LoaderConfigV,
    image2: Seq<u8>,
    manifest_dir2: Seq<u8>,
    descriptor2: Seq<u8>,
    lcfg2: LoaderConfigV,
)
    requires
        image1 == image2,
        manifest_dir1 == manifest_dir2,
        descriptor1 == descriptor2,
        lcfg1 == lcfg2,
    ensures
        spec_installable_plan(image1, manifest_dir1, descriptor1) == spec_installable_plan(
            image2,
            manifest_dir2,
            descriptor2,
        ),
        spec_loader_plan(image1, manifest_dir1, lcfg1) == spec_loader_plan(
            image2,
            manifest_dir2,
            lcfg2,
        ),
{
}

} // verus!
