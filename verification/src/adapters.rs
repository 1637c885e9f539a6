//! Importers as plugins: an importer wrapped with its manifest, and the
//! isolation of plugin calls from the rest of the system.

use vstd::prelude::*;
use crate::images::ImageImporter;
use crate::importers::{is_url, HtmlImporter, PdfImporter, UrlImporter};
use crate::paths::has_ext;
use crate::plugin::{ManifestV, PluginManifest};
use crate::registry::{make_manifest, standard_manifest, Plugin, PluginError};
use crate::text::{concat, decimal, decimal_u64};

verus! {

/// Importers that describe themselves with a plugin manifest.
pub trait PluginMetadata {
    /// The manifest this importer describes itself with.
    spec fn spec_manifest(&self) -> ManifestV;

    /// The importer's manifest.
    fn manifest(&self) -> (m: PluginManifest)
        ensures
            m@ == self.spec_manifest();
}

impl PluginMetadata for PdfImporter {
    open spec fn spec_manifest(&self) -> ManifestV {
        standard_manifest("pdf-importer"@, "Import PDF files as knowledge entities"@)
    }

    fn manifest(&self) -> (m: PluginManifest) {
        make_manifest("pdf-importer", "Import PDF files as knowledge entities")
    }
}

impl PluginMetadata for HtmlImporter {
    open spec fn spec_manifest(&self) -> ManifestV {
        standard_manifest("html-importer"@, "Import HTML files as knowledge entities"@)
    }

    fn manifest(&self) -> (m: PluginManifest) {
        make_manifest("html-importer", "Import HTML files as knowledge entities")
    }
}

impl PluginMetadata for ImageImporter {
    open spec fn spec_manifest(&self) -> ManifestV {
        standard_manifest("image-importer"@, "Import image files with OCR text extraction"@)
    }

    fn manifest(&self) -> (m: PluginManifest) {
        make_manifest("image-importer", "Import image files with OCR text extraction")
    }
}

impl PluginMetadata for UrlImporter {
    open spec fn spec_manifest(&self) -> ManifestV {
        standard_manifest("url-importer"@, "Import content from web URLs"@)
    }

    fn manifest(&self) -> (m: PluginManifest) {
        make_manifest("url-importer", "Import content from web URLs")
    }
}

/// An importer wrapped as a plugin, with the manifest it was created with.
pub struct PluginAdapter<T> {
    manifest: PluginManifest,
    inner: T,
}

impl<T: PluginMetadata> PluginAdapter<T> {
    /// Wrap `inner`, keeping its manifest.
    pub fn new(inner: T) -> (r: Self)
        ensures
            r.declared_manifest()@ == inner.spec_manifest(),
            r.spec_inner() == inner,
    {
        let manifest = inner.manifest();
        PluginAdapter { manifest, inner }
    }
}

impl<T> PluginAdapter<T> {
    /// The wrapped importer.
    pub closed spec fn spec_inner(&self) -> T {
        self.inner
    }

    /// The wrapped importer.
    pub fn inner(&self) -> (r: &T)
        ensures
            *r == self.spec_inner(),
    {
        &self.inner
    }
}

impl<T> Plugin for PluginAdapter<T> {
    closed spec fn declared_manifest(&self) -> PluginManifest {
        self.manifest
    }

    /// Activating an importer plugin always succeeds.
    open spec fn activation(&self) -> Result<(), PluginError> {
        Ok(())
    }

    fn manifest(&self) -> (m: &PluginManifest) {
        &self.manifest
    }

    fn activate(&self) -> (r: Result<(), PluginError>) {
        Ok(())
    }

    fn deactivate(&self) -> (r: Result<(), PluginError>) {
        Ok(())
    }
}

impl PluginAdapter<PdfImporter> {
    /// Whether the wrapped PDF importer reads the file at `path`.
    pub fn can_import(&self, path: &str) -> (b: bool)
        ensures
            b == has_ext(path@, "pdf"@),
    {
        self.inner.can_import(path)
    }
}

impl PluginAdapter<UrlImporter> {
    /// Whether the wrapped URL importer reads `path`, a web address.
    pub fn can_import(&self, path: &str) -> (b: bool)
        ensures
            b == is_url(path@),
    {
        self.inner.can_import(path)
    }
}

impl PluginAdapter<HtmlImporter> {
    /// Whether the wrapped HTML importer reads the file at `path`.
    pub fn can_import(&self, path: &str) -> (b: bool)
        ensures
            b == (has_ext(path@, "html"@) || has_ext(path@, "htm"@)),
    {
        self.inner.can_import(path)
    }
}

impl PluginAdapter<ImageImporter> {
    /// Whether the wrapped image importer reads the file at `path`.
    pub fn can_import(&self, path: &str) -> (b: bool)
        ensures
            b == (has_ext(path@, "png"@) || has_ext(path@, "jpg"@) || has_ext(path@, "jpeg"@) || has_ext(path@, "gif"@)
                || has_ext(path@, "bmp"@)),
    {
        self.inner.can_import(path)
    }
}

/// The PDF importer as a plugin.
pub fn pdf_plugin() -> (p: PluginAdapter<PdfImporter>)
    ensures
        p.declared_manifest()@ == standard_manifest("pdf-importer"@, "Import PDF files as knowledge entities"@),
{
    PluginAdapter::new(PdfImporter::new())
}

/// The URL importer as a plugin.
pub fn url_plugin() -> (p: PluginAdapter<UrlImporter>)
    ensures
        p.declared_manifest()@ == standard_manifest("url-importer"@, "Import content from web URLs"@),
{
    PluginAdapter::new(UrlImporter::new())
}

/// The HTML importer as a plugin.
pub fn html_plugin() -> (p: PluginAdapter<HtmlImporter>)
    ensures
        p.declared_manifest()@ == standard_manifest("html-importer"@, "Import HTML files as knowledge entities"@),
{
    PluginAdapter::new(HtmlImporter::new())
}

/// The image importer, without OCR, as a plugin.
pub fn image_plugin() -> (p: PluginAdapter<ImageImporter>)
    ensures
        p.declared_manifest()@ == standard_manifest("image-importer"@, "Import image files with OCR text extraction"@),
        !p.spec_inner().ocr,
{
    PluginAdapter::new(ImageImporter::new())
}

/// How a plugin call ended: with the plugin's answer, or by running out of time.
pub enum PluginCall<T> {
    Finished(Result<T, PluginError>),
    TimedOut,
}

/// The message of a plugin call that ran out of its `secs` seconds.
pub open spec fn timeout_message(plugin_name: Seq<char>, secs: u64) -> Seq<char> {
    "Plugin '"@ + plugin_name + "' exceeded "@ + decimal(secs as nat) + "s timeout"@
}

/// The answer of an isolated plugin call: the plugin's result; nothing when
/// the plugin failed, so that its failure goes no further; or a timeout
/// error naming the plugin and the whole seconds of the limit `timeout_secs`.
pub fn safe_call_outcome<T>(plugin_name: &str, call: PluginCall<T>, timeout_secs: u64) -> (r: Result<Option<T>, PluginError>)
    ensures
        match call {
            PluginCall::Finished(Ok(x)) => r == Ok::<Option<T>, PluginError>(Some(x)),
            PluginCall::Finished(Err(_)) => r == Ok::<Option<T>, PluginError>(None),
            PluginCall::TimedOut => r matches Err(PluginError::Timeout(m)) && m@ == timeout_message(plugin_name@, timeout_secs),
        },
{
    match call {
        PluginCall::Finished(Ok(x)) => Ok(Some(x)),
        PluginCall::Finished(Err(_)) => Ok(None),
        PluginCall::TimedOut => {
            let a = concat("Plugin '", plugin_name);
            let b = concat(a.as_str(), "' exceeded ");
            let d = decimal_u64(timeout_secs);
            let c = concat(b.as_str(), d.as_str());
            Err(PluginError::Timeout(concat(c.as_str(), "s timeout")))
        },
    }
}

} // verus!
