//! Plugins in shared libraries: which files are such plugins, and the
//! manifest that a plugin library declares in JSON.

use vstd::prelude::*;
use crate::merges::{str_field, str_or};
use crate::paths::{extension, extension_bounds};
use crate::plugin::{ManifestV, PluginManifest};
use crate::registry::PluginError;
use crate::structured::{json_document, json_get, json_str, parse_json, Json};
use crate::text::{concat, same_text, string_of, to_chars};

verus! {

/// Whether `path` names a shared library (`.so`, `.dylib` or `.dll`,
/// exactly so spelled).
pub open spec fn is_library_path(path: Seq<char>) -> bool {
    extension(path) == Some("so"@) || extension(path) == Some("dylib"@) || extension(path) == Some("dll"@)
}

/// Whether `path` names a shared library (see `is_library_path`).
pub fn is_plugin_library(path: &str) -> (b: bool)
    ensures
        b == is_library_path(path@),
{
    let v = to_chars(path);
    match extension_bounds(&v) {
        Some((a, e)) => {
            let ext = string_of(&v, a, e);
            same_text(ext.as_str(), "so") || same_text(ext.as_str(), "dylib") || same_text(ext.as_str(), "dll")
        },
        None => false,
    }
}

/// The priority a plugin library declares: a whole number, kept to its
/// low 32 bits.
pub open spec fn declared_priority(v: Option<Json>) -> Option<u32> {
    match json_get(v, "priority"@) {
        Some(Json::Number(_, _, Some(u))) => Some(u as u32),
        _ => None,
    }
}

/// The manifest that a plugin library declares in the JSON text `text`:
/// each field from its string (name `unknown`, version `0.0.0`, description
/// and author empty when absent); or the error when it is not JSON.
pub open spec fn library_manifest(text: Seq<char>) -> Result<ManifestV, Seq<char>> {
    match json_document(text) {
        Err(e) => Err("invalid manifest JSON: "@ + e),
        Ok(p) => {
            let v = Some(p.0);
            Ok(
                ManifestV {
                    name: str_or(v, "name"@, "unknown"@),
                    version: str_or(v, "version"@, "0.0.0"@),
                    description: str_or(v, "description"@, ""@),
                    author: str_or(v, "author"@, ""@),
                    license: json_str(json_get(v, "license"@)),
                    priority: declared_priority(v),
                },
            )
        },
    }
}

/// The manifest that a plugin library declares (see `library_manifest`).
pub fn manifest_from_json(text: &str) -> (r: Result<PluginManifest, PluginError>)
    ensures
        match library_manifest(text@) {
            Ok(m) => r matches Ok(x) && x@ == m,
            Err(e) => r matches Err(PluginError::LoadFailed(x)) && x@ == e,
        },
{
    let (v, _) = match parse_json(text) {
        Err(e) => return Err(PluginError::LoadFailed(concat("invalid manifest JSON: ", e.as_str()))),
        Ok(p) => p,
    };
    let license = match crate::structured::get_of(Some(&v), "license") {
        Some(Json::Text(s)) => Some(s.clone()),
        _ => None,
    };
    let priority = match crate::structured::get_of(Some(&v), "priority") {
        Some(Json::Number(_, _, Some(u))) => Some(*u as u32),
        _ => None,
    };
    Ok(
        PluginManifest {
            name: str_field(Some(&v), "name", "unknown"),
            version: str_field(Some(&v), "version", "0.0.0"),
            description: str_field(Some(&v), "description", ""),
            author: str_field(Some(&v), "author", ""),
            license,
            priority,
        },
    )
}

} // verus!
