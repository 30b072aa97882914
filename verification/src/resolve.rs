//! Binding artifacts to packages and per-target configuration.
//!
//! Only artifact events for executables and shared libraries enter
//! packaging.  The owning package is looked up by its identifier; an unknown
//! identifier silently skips the event, since the artifact may belong to a
//! dependency rather than a packaging target.  Configuration entries come
//! pre-extracted from the package's metadata; an entry may be bound to one
//! target name (binary-scoped) or apply to the whole package, and a missing
//! entry resolves to the format's defaults, never to a failure.

use vstd::prelude::*;
use crate::events::ArtifactInfo;
use crate::events::ArtifactV;
use crate::events::views_of;

verus! {

/// The two recognized output formats.
#[derive(Debug, Clone, Copy, PartialEq, Eq, Structural)]
pub enum Format {
    /// A filesystem-container bundle: executable plus metadata descriptor.
    InstallablePackage,
    /// A single loader-loadable binary with optional embedded assets.
    LoaderBinary,
}

/// Configuration for the installable-package pipeline.
#[derive(Debug, PartialEq, Eq)]
pub struct InstallableConfig {
    /// Path of the structured program-metadata description, relative to the
    /// package's manifest directory.  Empty when not configured.
    pub descriptor_path: Vec<u8>,
}

/// Configuration for the loader-binary pipeline.
#[derive(Debug, PartialEq, Eq)]
pub struct LoaderConfig {
    /// Directory to build the embedded asset filesystem from, if any.
    pub asset_dir: Option<Vec<u8>>,
    /// Icon file to embed, if any.
    pub icon_path: Option<Vec<u8>>,
    /// Whether an application-metadata record is configured for embedding.
    pub has_app_metadata: bool,
    /// Whether a payload-stripped debug companion is built and fed into the
    /// embedded asset filesystem.
    pub embed_debug_companion: bool,
}

/// One format's configuration.
#[derive(Debug, PartialEq, Eq)]
pub enum PackagingConfig {
    /// See [`InstallableConfig`].
    Installable(InstallableConfig),
    /// See [`LoaderConfig`].
    Loader(LoaderConfig),
}

/// One pre-extracted configuration entry of a package.
#[derive(Debug, PartialEq, Eq)]
pub struct ConfigEntry {
    /// `None`: applies to the whole package.  `Some(name)`: binary-scoped,
    /// applies only to the target of that name.
    pub scope: Option<Vec<u8>>,
    /// The entry's configuration value.
    pub config: PackagingConfig,
}

/// A packaging-relevant package of the workspace.
#[derive(Debug, PartialEq, Eq)]
pub struct PackageInfo {
    /// The package's opaque identifier, as the build tool reports it.
    pub id: Vec<u8>,
    /// Directory holding the package's manifest.
    pub manifest_dir: Vec<u8>,
    /// The package's configuration entries, in extraction order.
    pub entries: Vec<ConfigEntry>,
}

/// The views of a package sequence.
pub open spec fn package_views(ps: Seq<PackageInfo>) -> Seq<PackageV> {
    ps.map_values(|p: PackageInfo| p@)
}

/// The views of a configuration-entry sequence.
pub open spec fn entry_views(es: Seq<ConfigEntry>) -> Seq<EntryV> {
    es.map_values(|e: ConfigEntry| e@)
}

/// Mathematical shadow of [`LoaderConfig`].
pub struct LoaderConfigV {
    /// See [`LoaderConfig::asset_dir`].
    pub asset_dir: Option<Seq<u8>>,
    /// See [`LoaderConfig::icon_path`].
    pub icon_path: Option<Seq<u8>>,
    /// See [`LoaderConfig::has_app_metadata`].
    pub has_app_metadata: bool,
    /// See [`LoaderConfig::embed_debug_companion`].
    pub embed_debug_companion: bool,
}

/// Mathematical shadow of [`PackagingConfig`].
pub enum ConfigV {
    /// The installable-package descriptor path.
    Installable(Seq<u8>),
    /// The loader-binary options.
    Loader(LoaderConfigV),
}

/// Mathematical shadow of [`ConfigEntry`].
pub struct EntryV {
    /// See [`ConfigEntry::scope`].
    pub scope: Option<Seq<u8>>,
    /// See [`ConfigEntry::config`].
    pub config: ConfigV,
}

/// Mathematical shadow of [`PackageInfo`].
pub struct PackageV {
    /// See [`PackageInfo::id`].
    pub id: Seq<u8>,
    /// See [`PackageInfo::manifest_dir`].
    pub manifest_dir: Seq<u8>,
    /// See [`PackageInfo::entries`].
    pub entries: Seq<EntryV>,
}

impl View for PackagingConfig {
    type V = ConfigV;

    open spec fn view(&self) -> ConfigV {
        match self {
            PackagingConfig::Installable(c) => ConfigV::Installable(c.descriptor_path@),
            PackagingConfig::Loader(c) => ConfigV::Loader(
                LoaderConfigV {
                    asset_dir: match &c.asset_dir {
                        Some(d) => Some(d@),
                        None => None,
                    },
                    icon_path: match &c.icon_path {
                        Some(d) => Some(d@),
                        None => None,
                    },
                    has_app_metadata: c.has_app_metadata,
                    embed_debug_companion: c.embed_debug_companion,
                },
            ),
        }
    }
}

impl View for ConfigEntry {
    type V = EntryV;

    open spec fn view(&self) -> EntryV {
        EntryV {
            scope: match &self.scope {
                Some(s) => Some(s@),
                None => None,
            },
            config: self.config@,
        }
    }
}

impl View for PackageInfo {
    type V = PackageV;

    open spec fn view(&self) -> PackageV {
        PackageV {
            id: self.id@,
            manifest_dir: self.manifest_dir@,
            entries: entry_views(self.entries@),
        }
    }
}

/// The target-kind bytes that enter packaging: executables.
pub open spec fn executable_kind() -> Seq<u8> {
    seq![0x62u8, 0x69u8, 0x6eu8]
}

/// The target-kind bytes that enter packaging: shared libraries.
pub open spec fn shared_library_kind() -> Seq<u8> {
    seq![0x63u8, 0x64u8, 0x79u8, 0x6cu8, 0x69u8, 0x62u8]
}

/// A kind that makes an artifact packaging-relevant.
pub open spec fn qualifying_kind(k: Seq<u8>) -> bool {
    k == executable_kind() || k == shared_library_kind()
}

/// The artifact names at least one qualifying kind and one output file.
pub open spec fn event_qualifies(a: ArtifactV) -> bool {
    (exists|i: int| 0 <= i < a.target_kinds.len() && qualifying_kind(#[trigger] a.target_kinds[i]))
        && a.output_paths.len() > 0
}

/// Index of the first package with the given identifier.
pub open spec fn find_package_from(ps: Seq<PackageV>, id: Seq<u8>, i: int) -> Option<int>
    decreases ps.len() - i,
{
    if i < 0 || i >= ps.len() {
        None
    } else if ps[i].id == id {
        Some(i)
    } else {
        find_package_from(ps, id, i + 1)
    }
}

/// An entry applies to the given format and target name.
pub open spec fn entry_matches(e: EntryV, fmt: Format, name: Seq<u8>) -> bool {
    &&& match e.scope {
        None => true,
        Some(s) => s == name,
    }
    &&& match e.config {
        ConfigV::Installable(_) => fmt == Format::InstallablePackage,
        ConfigV::Loader(_) => fmt == Format::LoaderBinary,
    }
}

/// Index of the first entry that applies.
pub open spec fn find_entry_from(es: Seq<EntryV>, fmt: Format, name: Seq<u8>, i: int) -> Option<
    int,
>
    decreases es.len() - i,
{
    if i < 0 || i >= es.len() {
        None
    } else if entry_matches(es[i], fmt, name) {
        Some(i)
    } else {
        find_entry_from(es, fmt, name, i + 1)
    }
}

/// The documented defaults: an empty descriptor path; a loader binary with
/// no asset filesystem, no icon, no metadata record, no debug companion.
pub open spec fn default_config(fmt: Format) -> ConfigV {
    match fmt {
        Format::InstallablePackage => ConfigV::Installable(Seq::empty()),
        Format::LoaderBinary => ConfigV::Loader(
            LoaderConfigV {
                asset_dir: None,
                icon_path: None,
                has_app_metadata: false,
                embed_debug_companion: false,
            },
        ),
    }
}

/// The configuration an artifact resolves to: the first applicable entry,
/// or the defaults when none applies.
pub open spec fn lookup_config(es: Seq<EntryV>, fmt: Format, name: Seq<u8>) -> ConfigV {
    match find_entry_from(es, fmt, name, 0) {
        Some(i) => es[i].config,
        None => default_config(fmt),
    }
}

/// Everything a pipeline needs about one artifact.
#[derive(Debug, PartialEq, Eq)]
pub struct ResolvedArtifact {
    /// The owning package's manifest directory.
    pub manifest_dir: Vec<u8>,
    /// The compiled image: the artifact's first output file.
    pub image_path: Vec<u8>,
    /// The target's name.
    pub target_name: Vec<u8>,
    /// The resolved configuration; its variant matches the asked format.
    pub config: PackagingConfig,
}

/// Byte-for-byte equality of two byte strings.
pub fn bytes_eq(a: &Vec<u8>, b: &Vec<u8>) -> (r: bool)
    ensures
        r == (a@ == b@),
{
    if a.len() != b.len() {
        return false;
    }
    let mut i: usize = 0;
    while i < a.len()
        invariant
            a.len() == b.len(),
            i <= a.len(),
            forall|j: int| 0 <= j < i ==> a@[j] == b@[j],
        decreases a.len() - i,
    {
        if a[i] != b[i] {
            return false;
        }
        i = i + 1;
    }
    proof {
        assert(a@ =~= b@);
    }
    true
}

/// Does the kind make its target packaging-relevant?
fn is_qualifying_kind(k: &Vec<u8>) -> (r: bool)
    ensures
        r == qualifying_kind(k@),
{
    let exe = k.len() == 3 && k[0] == 0x62 && k[1] == 0x69 && k[2] == 0x6e;
    let shl = k.len() == 6 && k[0] == 0x63 && k[1] == 0x64 && k[2] == 0x79 && k[3] == 0x6c
        && k[4] == 0x69 && k[5] == 0x62;
    proof {
        if exe {
            assert(k@ =~= executable_kind());
        }
        if k@ == executable_kind() {
            assert(k@[0] == 0x62u8 && k@[1] == 0x69u8 && k@[2] == 0x6eu8 && k@.len() == 3);
        }
        if shl {
            assert(k@ =~= shared_library_kind());
        }
        if k@ == shared_library_kind() {
            assert(k@.len() == 6 && k@[0] == 0x63u8 && k@[1] == 0x64u8 && k@[2] == 0x79u8
                && k@[3] == 0x6cu8 && k@[4] == 0x69u8 && k@[5] == 0x62u8);
        }
    }
    exe || shl
}

/// Copies a configuration value.
fn copy_config(c: &PackagingConfig) -> (r: PackagingConfig)
    ensures
        r@ == c@,
{
    match c {
        PackagingConfig::Installable(ic) => PackagingConfig::Installable(
            InstallableConfig { descriptor_path: crate::paths::copy_bytes(&ic.descriptor_path) },
        ),
        PackagingConfig::Loader(lc) => PackagingConfig::Loader(
            LoaderConfig {
                asset_dir: match &lc.asset_dir {
                    Some(d) => Some(crate::paths::copy_bytes(d)),
                    None => None,
                },
                icon_path: match &lc.icon_path {
                    Some(d) => Some(crate::paths::copy_bytes(d)),
                    None => None,
                },
                has_app_metadata: lc.has_app_metadata,
                embed_debug_companion: lc.embed_debug_companion,
            },
        ),
    }
}

/// Resolves the configuration an artifact gets, from its package's entries.
fn resolve_config(entries: &Vec<ConfigEntry>, format: Format, name: &Vec<u8>) -> (r:
    PackagingConfig)
    ensures
        r@ == lookup_config(entry_views(entries@), format, name@),
{
    let ghost es = entry_views(entries@);
    let mut i: usize = 0;
    while i < entries.len()
        invariant
            es == entry_views(entries@),
            i <= entries.len(),
            find_entry_from(es, format, name@, 0) == find_entry_from(es, format, name@, i as int),
        decreases entries.len() - i,
    {
        let scope_hit = match &entries[i].scope {
            None => true,
            Some(s) => bytes_eq(s, name),
        };
        let fmt_hit = match (&entries[i].config, format) {
            (PackagingConfig::Installable(_), Format::InstallablePackage) => true,
            (PackagingConfig::Loader(_), Format::LoaderBinary) => true,
            _ => false,
        };
        proof {
            assert(es[i as int] == entries@[i as int]@);
            assert((scope_hit && fmt_hit) == entry_matches(es[i as int], format, name@));
        }
        if scope_hit && fmt_hit {
            proof {
                assert(find_entry_from(es, format, name@, i as int) == Some(i as int));
            }
            return copy_config(&entries[i].config);
        }
        proof {
            assert(find_entry_from(es, format, name@, i as int) == find_entry_from(
                es,
                format,
                name@,
                i + 1,
            ));
        }
        i = i + 1;
    }
    proof {
        assert(find_entry_from(es, format, name@, i as int) is None);
    }
    match format {
        Format::InstallablePackage => PackagingConfig::Installable(
            InstallableConfig { descriptor_path: Vec::new() },
        ),
        Format::LoaderBinary => PackagingConfig::Loader(
            LoaderConfig {
                asset_dir: None,
                icon_path: None,
                has_app_metadata: false,
                embed_debug_companion: false,
            },
        ),
    }
}

/// Binds an artifact to its package and configuration.
///
/// `None` exactly when the artifact does not enter packaging: no qualifying
/// target kind, no output file, or no known package with its identifier —
/// never an error.  On `Some`, the configuration is the package's first
/// applicable entry for the format and target name, or the documented
/// defaults when the package has none.
pub fn resolve_artifact(a: &ArtifactInfo, packages: &Vec<PackageInfo>, format: Format) -> (r:
    Option<ResolvedArtifact>)
    ensures
        r is Some <==> event_qualifies(artifact_view(a)) && find_package_from(
            package_views(packages@),
            a.package_id@,
            0,
        ) is Some,
        r matches Some(res) ==> {
            let ps = package_views(packages@);
            let pi = find_package_from(ps, a.package_id@, 0)->Some_0;
            &&& res.manifest_dir@ == ps[pi].manifest_dir
            &&& res.image_path@ == a.output_paths@[0]@
            &&& res.target_name@ == a.target_name@
            &&& res.config@ == lookup_config(ps[pi].entries, format, a.target_name@)
        },
{
    let ghost kv = views_of(a.target_kinds@);
    let mut qualifies = false;
    let mut i: usize = 0;
    while i < a.target_kinds.len()
        invariant
            kv == views_of(a.target_kinds@),
            i <= a.target_kinds.len(),
            qualifies == (exists|j: int| 0 <= j < i && qualifying_kind(#[trigger] kv[j])),
        decreases a.target_kinds.len() - i,
    {
        if is_qualifying_kind(&a.target_kinds[i]) {
            proof {
                assert(kv[i as int] == a.target_kinds@[i as int]@);
                assert(qualifying_kind(kv[i as int]));
            }
            qualifies = true;
        }
        i = i + 1;
    }
    if !qualifies || a.output_paths.len() == 0 {
        return None;
    }
    proof {
        assert(views_of(a.output_paths@).len() == a.output_paths@.len());
        assert(kv.len() == a.target_kinds@.len());
        assert(exists|j: int| 0 <= j < kv.len() && qualifying_kind(#[trigger] kv[j]));
        assert(artifact_view(a).target_kinds == kv);
        assert(event_qualifies(artifact_view(a)));
        assert(artifact_view(a).output_paths[0] == a.output_paths@[0]@);
    }
    let ghost ps = package_views(packages@);
    let mut pi: usize = 0;
    while pi < packages.len()
        invariant
            event_qualifies(artifact_view(a)),
            a.output_paths.len() > 0,
            ps == package_views(packages@),
            pi <= packages.len(),
            find_package_from(ps, a.package_id@, 0) == find_package_from(
                ps,
                a.package_id@,
                pi as int,
            ),
        decreases packages.len() - pi,
    {
        proof {
            assert(ps[pi as int] == packages@[pi as int]@);
        }
        if bytes_eq(&packages[pi].id, &a.package_id) {
            proof {
                assert(find_package_from(ps, a.package_id@, pi as int) == Some(pi as int));
            }
            let config = resolve_config(&packages[pi].entries, format, &a.target_name);
            return Some(ResolvedArtifact {
                manifest_dir: crate::paths::copy_bytes(&packages[pi].manifest_dir),
                image_path: crate::paths::copy_bytes(&a.output_paths[0]),
                target_name: crate::paths::copy_bytes(&a.target_name),
                config,
            });
        }
        proof {
            assert(find_package_from(ps, a.package_id@, pi as int) == find_package_from(
                ps,
                a.package_id@,
                pi + 1,
            ));
        }
        pi = pi + 1;
    }
    proof {
        assert(find_package_from(ps, a.package_id@, pi as int) is None);
    }
    None
}

/// The mathematical shadow of an artifact notice.
pub open spec fn artifact_view(a: &ArtifactInfo) -> ArtifactV {
    ArtifactV {
        package_id: a.package_id@,
        target_kinds: views_of(a.target_kinds@),
        target_name: a.target_name@,
        output_paths: views_of(a.output_paths@),
    }
}

} // verus!
