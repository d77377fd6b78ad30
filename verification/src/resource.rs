//! Extension resources: `extension.toml` manifests, discovery layers and
//! precedence-based discovery.
//!
//! Extensions are found in layers of increasing precedence: user-level (0),
//! project-level (1) and explicit paths (2). When two layers provide an
//! extension of the same name, the layer of higher precedence wins; within a
//! single layer, a duplicate name is an error.
use vstd::prelude::*;

use crate::discovery::{Discovered, Placement, merge_by_precedence, placement_spec, sorted_by_key};
use crate::paths::path_join;
use crate::text::{chars_of, extend_str, string_of, trim, trim_chars};

verus! {

/// Errors from extension discovery.
#[derive(Debug)]
pub enum ResourceDiscoveryError {
    /// `extension.toml` is not valid TOML or lacks the `[extension]` table.
    InvalidManifest { path: String, reason: String },
    /// A required field is missing or blank.
    MissingField { field: String, path: String },
    /// Two extensions in the same layer use the same name.
    DuplicateName { name: String, path: String },
    /// Reading the file system failed.
    Io(String),
}

/// The message of a extension error error.
pub open spec fn extension_error_message(e: ResourceDiscoveryError) -> Seq<char> {
    match e {
        ResourceDiscoveryError::InvalidManifest { path, reason } => "invalid extension manifest at "@ + path@ + ": "@ + reason@,
        ResourceDiscoveryError::MissingField { field, path } => "missing required field '"@ + field@ + "' in manifest at "@ + path@,
        ResourceDiscoveryError::DuplicateName { name, path } => "duplicate extension name '"@ + name@ + "' in discovery layer at "@ + path@,
        ResourceDiscoveryError::Io(m) => "I/O error discovering extensions: "@ + m@,
    }
}

impl ResourceDiscoveryError {
    /// The message of this error.
    pub fn message(&self) -> (r: String)
        ensures
            r@ == extension_error_message(*self),
    {
        let mut v: Vec<char> = Vec::new();
        match self {
            ResourceDiscoveryError::InvalidManifest { path, reason } => {
                extend_str(&mut v, "invalid extension manifest at ");
                extend_str(&mut v, path.as_str());
                extend_str(&mut v, ": ");
                extend_str(&mut v, reason.as_str());
            },
            ResourceDiscoveryError::MissingField { field, path } => {
                extend_str(&mut v, "missing required field '");
                extend_str(&mut v, field.as_str());
                extend_str(&mut v, "' in manifest at ");
                extend_str(&mut v, path.as_str());
            },
            ResourceDiscoveryError::DuplicateName { name, path } => {
                extend_str(&mut v, "duplicate extension name '");
                extend_str(&mut v, name.as_str());
                extend_str(&mut v, "' in discovery layer at ");
                extend_str(&mut v, path.as_str());
            },
            ResourceDiscoveryError::Io(m) => {
                extend_str(&mut v, "I/O error discovering extensions: ");
                extend_str(&mut v, m.as_str());
            },
        }
        string_of(&v)
    }
}

/// The `[extension]` table of `extension.toml`, as read.
#[derive(Debug)]
pub struct ExtensionFile {
    pub name: Option<String>,
    pub version: Option<String>,
    pub description: Option<String>,
}

/// A validated extension manifest.
#[derive(Debug)]
pub struct ExtensionManifest {
    /// Not blank; unique across layers.
    pub name: String,
    pub version: Option<String>,
    pub description: Option<String>,
}

/// What `ExtensionManifest::from_parsed(parsed, path)` returns.
pub open spec fn extension_manifest_result(
    parsed: Result<ExtensionFile, String>,
    path: Seq<char>,
    r: Result<ExtensionManifest, ResourceDiscoveryError>,
) -> bool {
    match parsed {
        Err(reason) => r matches Err(ResourceDiscoveryError::InvalidManifest { path: p, reason: x })
            && p@ == path && x@ == reason@,
        Ok(f) => if f.name is None || trim(f.name->0@).len() == 0 {
            r matches Err(ResourceDiscoveryError::MissingField { field, path: p }) && field@
                == "name"@ && p@ == path
        } else {
            r matches Ok(m) && m.name == f.name->0 && m.version == f.version && m.description
                == f.description
        },
    }
}

impl ExtensionManifest {
    /// Validate a parsed `[extension]` table (or the reason the file could
    /// not be parsed) found at `path`: the name must be present and not
    /// blank.
    pub fn from_parsed(parsed: Result<ExtensionFile, String>, path: &str) -> (r: Result<
        Self,
        ResourceDiscoveryError,
    >)
        ensures
            extension_manifest_result(parsed, path@, r),
    {
        let f = match parsed {
            Err(reason) => {
                return Err(
                    ResourceDiscoveryError::InvalidManifest {
                        path: string_of(&chars_of(path)),
                        reason,
                    },
                );
            },
            Ok(f) => f,
        };
        let ExtensionFile { name, version, description } = f;
        let name = match name {
            Some(n) => n,
            None => {
                return Err(
                    ResourceDiscoveryError::MissingField {
                        field: string_of(&chars_of("name")),
                        path: string_of(&chars_of(path)),
                    },
                );
            },
        };
        if trim_chars(&chars_of(name.as_str())).len() == 0 {
            return Err(
                ResourceDiscoveryError::MissingField {
                    field: string_of(&chars_of("name")),
                    path: string_of(&chars_of(path)),
                },
            );
        }
        Ok(ExtensionManifest { name, version, description })
    }
}

/// A discovery layer: a root, an optional subdirectory and a precedence.
#[derive(Debug)]
pub struct DiscoveryLayer {
    /// Root directory of the layer.
    pub root: String,
    /// Subdirectory of the root to scan (e.g. `.opi/extensions`); `None`
    /// scans the root itself.
    pub subdirectory: Option<String>,
    /// Higher values win on name collisions.
    pub precedence: u32,
}

/// The directory a layer scans.
pub open spec fn scan_dir_spec(l: DiscoveryLayer) -> Seq<char> {
    match l.subdirectory {
        Some(sub) => path_join(l.root@, sub@),
        None => l.root@,
    }
}

impl DiscoveryLayer {
    /// The directory this layer scans.
    pub fn scan_dir(&self) -> (r: String)
        ensures
            r@ == scan_dir_spec(*self),
    {
        match &self.subdirectory {
            Some(sub) => crate::paths::join_path(self.root.as_str(), sub.as_str()),
            None => self.root.clone(),
        }
    }
}

/// A discovered extension.
#[derive(Debug)]
pub struct ExtensionResource {
    pub manifest: ExtensionManifest,
    /// The extension directory (canonical when it could be resolved).
    pub path: String,
    /// Precedence of the layer that produced it.
    pub layer_precedence: u32,
}

impl Discovered for ExtensionResource {
    open spec fn key(&self) -> Seq<char> {
        self.manifest.name@
    }

    open spec fn rank(&self) -> u32 {
        self.layer_precedence
    }

    fn name_chars(&self) -> (r: Vec<char>) {
        chars_of(self.manifest.name.as_str())
    }

    fn precedence(&self) -> (p: u32) {
        self.layer_precedence
    }
}

/// Add an extension found in a discovery layer to `seen`, which stays sorted
/// by name: an extension of higher precedence replaces one of lower
/// precedence, one of lower precedence is dropped, and two of the same name
/// and precedence are an error.
pub fn add_discovered_extension(seen: &mut Vec<ExtensionResource>, resource: ExtensionResource) -> (r:
    Result<(), ResourceDiscoveryError>)
    requires
        sorted_by_key(old(seen)@),
    ensures
        sorted_by_key(final(seen)@),
        match placement_spec(old(seen)@, resource.key(), resource.rank(), true) {
            Placement::Inserted => r is Ok && exists|p: int|
                0 <= p <= old(seen)@.len() && final(seen)@ == old(seen)@.insert(p, resource),
            Placement::Replaced(e) => r is Ok && final(seen)@ == old(seen)@.update(
                e as int,
                resource,
            ),
            Placement::Kept(_) => r is Ok && final(seen)@ == old(seen)@,
            Placement::SamePrecedence(_) => final(seen)@ == old(seen)@ && (r matches Err(
                ResourceDiscoveryError::DuplicateName { name, path },
            ) && name@ == resource.manifest.name@ && path@ == resource.path@),
        },
{
    match merge_by_precedence(seen, resource, true) {
        Ok(()) => Ok(()),
        Err(item) => Err(
            ResourceDiscoveryError::DuplicateName { name: item.manifest.name, path: item.path },
        ),
    }
}

} // verus!
