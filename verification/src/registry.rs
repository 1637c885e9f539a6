//! The capability registry: which importer handles which format, which
//! plugins are registered, and what each plugin is capable of.

use vstd::prelude::*;
use crate::plugin::{manifests_view, ManifestError, ManifestV, PluginManifest};
use crate::table::NameTable;
use crate::model::strings_view;
use crate::text::{concat, contains_sub, same_text, str_contains};

verus! {

/// The importers that can be registered for a format.
#[derive(PartialEq, Eq, Structural, Clone, Copy, Debug)]
pub enum ImporterKind {
    Markdown,
    Pdf,
    Url,
    Docx,
    Pptx,
    Xlsx,
    Xlsm,
    Doc,
    Ppt,
    Pps,
    Xls,
    Pages,
    Numbers,
    Keynote,
    Odt,
    Ods,
    Odp,
    Odg,
    Ott,
    Ots,
    Otp,
    Csv,
    Json,
    Xml,
    Yaml,
    Image,
    Eml,
    Msg,
    Ics,
    Vcf,
    Enex,
    Opml,
    NotionJson,
    ObsidianVault,
    Mbox,
    Html,
}

/// Errors of plugin lookup and activation.
#[derive(Clone, Debug, PartialEq)]
pub enum PluginError {
    NotFound(String),
    ActivationFailed(String),
    ExecutionFailed(String),
    Timeout(String),
    LoadFailed(String),
}

/// The text of a plugin error.
pub open spec fn plugin_error_text(e: PluginError) -> Seq<char> {
    match e {
        PluginError::NotFound(m) => "Plugin not found: "@ + m@,
        PluginError::ActivationFailed(m) => "Plugin activation failed: "@ + m@,
        PluginError::ExecutionFailed(m) => "Plugin execution failed: "@ + m@,
        PluginError::Timeout(m) => "Plugin timed out: "@ + m@,
        PluginError::LoadFailed(m) => "Plugin load failed: "@ + m@,
    }
}

impl PluginError {
    /// The error as text.
    pub fn message(&self) -> (r: String)
        ensures
            r@ == plugin_error_text(*self),
    {
        match self {
            PluginError::NotFound(m) => concat("Plugin not found: ", m.as_str()),
            PluginError::ActivationFailed(m) => concat("Plugin activation failed: ", m.as_str()),
            PluginError::ExecutionFailed(m) => concat("Plugin execution failed: ", m.as_str()),
            PluginError::Timeout(m) => concat("Plugin timed out: ", m.as_str()),
            PluginError::LoadFailed(m) => concat("Plugin load failed: ", m.as_str()),
        }
    }
}

/// A plugin: it declares a manifest and can be activated and deactivated.
/// Plugin authors implement this trait for their own plugin types.
pub trait Plugin {
    /// The manifest the plugin declares.
    spec fn declared_manifest(&self) -> PluginManifest;

    /// What activating the plugin returns.
    spec fn activation(&self) -> Result<(), PluginError>;

    /// The plugin's manifest.
    fn manifest(&self) -> (m: &PluginManifest)
        ensures
            m@ == self.declared_manifest()@;

    /// Activate the plugin.
    fn activate(&self) -> (r: Result<(), PluginError>)
        ensures
            r == self.activation();

    /// Deactivate the plugin.
    fn deactivate(&self) -> (r: Result<(), PluginError>);
}

impl<T: Plugin> Plugin for Box<T> {
    open spec fn declared_manifest(&self) -> PluginManifest {
        (**self).declared_manifest()
    }

    open spec fn activation(&self) -> Result<(), PluginError> {
        (**self).activation()
    }

    fn manifest(&self) -> (m: &PluginManifest) {
        (**self).manifest()
    }

    fn activate(&self) -> (r: Result<(), PluginError>) {
        (**self).activate()
    }

    fn deactivate(&self) -> (r: Result<(), PluginError>) {
        (**self).deactivate()
    }
}

/// A plugin known by its manifest alone, as the built-in importers are:
/// activating and deactivating it always succeed.
pub struct ManifestPlugin {
    manifest: PluginManifest,
}

impl ManifestPlugin {
    /// The plugin that declares `manifest`.
    pub fn new(manifest: PluginManifest) -> (p: Self)
        ensures
            p.declared_manifest() == manifest,
            p.activation() is Ok,
    {
        ManifestPlugin { manifest }
    }
}

impl Plugin for ManifestPlugin {
    closed spec fn declared_manifest(&self) -> PluginManifest {
        self.manifest
    }

    open spec fn activation(&self) -> Result<(), PluginError> {
        Ok(())
    }

    fn manifest(&self) -> (m: &PluginManifest) {
        &self.manifest
    }

    fn activate(&self) -> (r: Result<(), PluginError>) {
        Ok(())
    }

    fn deactivate(&self) -> (r: Result<(), PluginError>) {
        Ok(())
    }
}

/// The manifests of a list of plugins.
pub open spec fn plugin_manifests<P: Plugin>(s: Seq<P>) -> Seq<ManifestV> {
    s.map_values(|p: P| p.declared_manifest()@)
}

/// What activating each of a list of plugins returns.
pub open spec fn plugin_activations<P: Plugin>(s: Seq<P>) -> Seq<Result<(), PluginError>> {
    s.map_values(|p: P| p.activation())
}

/// Whether `r` reports the activation outcome `a`: success as `Ok`, and a
/// failure as `MissingField` with the error's text.
pub open spec fn reports(r: Result<(), ManifestError>, a: Result<(), PluginError>) -> bool {
    match a {
        Ok(_) => r is Ok,
        Err(e) => r matches Err(ManifestError::MissingField(f)) && f@ == plugin_error_text(e),
    }
}

/// Information about a registered plugin, returned by `list_plugins`.
#[derive(Clone, Debug, PartialEq)]
pub struct PluginInfo {
    pub name: String,
    pub version: String,
    pub description: String,
    pub capabilities: Vec<String>,
}

/// A copy of a manifest, field by field.
pub fn copy_manifest(m: &PluginManifest) -> (r: PluginManifest)
    ensures
        r@ == m@,
{
    PluginManifest {
        name: m.name.clone(),
        version: m.version.clone(),
        description: m.description.clone(),
        author: m.author.clone(),
        license: match &m.license {
            Some(l) => Some(l.clone()),
            None => None,
        },
        priority: m.priority,
    }
}

/// The capability `importer:<format>`.
pub open spec fn importer_capability(format: Seq<char>) -> Seq<char> {
    "importer:"@ + format
}

/// The importer capabilities whose format and the plugin's name contain
/// one another, in the order of `formats`.
pub open spec fn matching_capabilities(formats: Seq<Seq<char>>, name: Seq<char>) -> Seq<Seq<char>>
    decreases formats.len(),
{
    if formats.len() == 0 {
        Seq::empty()
    } else {
        let prev = matching_capabilities(formats.drop_last(), name);
        let f = formats.last();
        if contains_sub(name, f) || contains_sub(f, name) {
            prev.push(importer_capability(f))
        } else {
            prev
        }
    }
}

/// The capabilities of a plugin named `name` among the registered importer
/// `formats`: those whose format and name contain one another; when there
/// are none, a plugin whose name contains `import` gets every importer.
pub open spec fn plugin_capabilities(formats: Seq<Seq<char>>, name: Seq<char>) -> Seq<Seq<char>> {
    let direct = matching_capabilities(formats, name);
    if direct.len() == 0 && formats.len() > 0 && contains_sub(name, "import"@) {
        formats.map_values(|f: Seq<char>| importer_capability(f))
    } else {
        direct
    }
}

/// Registry mapping capabilities to plugin implementations: importers by
/// format, renderers, AI providers and vector stores by name, and the
/// registered plugins with their manifests.
pub struct CapabilityRegistry<P = ManifestPlugin> {
    importers: NameTable<ImporterKind>,
    renderers: NameTable<()>,
    ai_providers: NameTable<()>,
    vector_stores: NameTable<()>,
    plugins: Vec<P>,
    manifests: Vec<PluginManifest>,
}

impl<P: Plugin> CapabilityRegistry<P> {
    /// The registry's tables are well formed.
    pub closed spec fn wf(&self) -> bool {
        &&& self.importers.wf()
        &&& self.renderers.wf()
        &&& self.ai_providers.wf()
        &&& self.vector_stores.wf()
    }

    /// The importer registered for each format.
    pub closed spec fn importers(&self) -> Map<Seq<char>, ImporterKind> {
        self.importers@
    }

    /// The formats with an importer, in the order in which they were first registered.
    pub closed spec fn formats(&self) -> Seq<Seq<char>> {
        self.importers.keys()
    }

    /// The names under which renderers are registered.
    pub closed spec fn renderers(&self) -> Set<Seq<char>> {
        self.renderers@.dom()
    }

    /// The names under which AI providers are registered.
    pub closed spec fn ai_providers(&self) -> Set<Seq<char>> {
        self.ai_providers@.dom()
    }

    /// The names under which vector stores are registered.
    pub closed spec fn vector_stores(&self) -> Set<Seq<char>> {
        self.vector_stores@.dom()
    }

    /// The manifests of the registered plugin objects, in registration order.
    pub closed spec fn plugins(&self) -> Seq<ManifestV> {
        plugin_manifests(self.plugins@)
    }

    /// What activating each registered plugin returns, in registration order.
    pub closed spec fn activations(&self) -> Seq<Result<(), PluginError>> {
        plugin_activations(self.plugins@)
    }

    /// The manifests known to the registry, in registration order.
    pub closed spec fn manifests(&self) -> Seq<ManifestV> {
        manifests_view(self.manifests@)
    }

    /// The registry's formats are exactly the keys of its importer map.
    pub proof fn lemma_formats(&self)
        requires
            self.wf(),
        ensures
            forall|k: Seq<char>| #[trigger] self.importers().dom().contains(k) <==> self.formats().contains(k),
            self.importers().dom().len() == self.formats().len(),
    {
        self.importers.lemma_keys();
    }

    /// Creates an empty capability registry.
    pub fn new() -> (r: Self)
        ensures
            r.wf(),
            r.importers() == Map::<Seq<char>, ImporterKind>::empty(),
            r.formats() == Seq::<Seq<char>>::empty(),
            r.renderers() == Set::<Seq<char>>::empty(),
            r.ai_providers() == Set::<Seq<char>>::empty(),
            r.vector_stores() == Set::<Seq<char>>::empty(),
            r.plugins() == Seq::<ManifestV>::empty(),
            r.manifests() == Seq::<ManifestV>::empty(),
    {
        let r = CapabilityRegistry {
            importers: NameTable::new(),
            renderers: NameTable::new(),
            ai_providers: NameTable::new(),
            vector_stores: NameTable::new(),
            plugins: Vec::new(),
            manifests: Vec::new(),
        };
        assert(r.plugins() =~= Seq::<ManifestV>::empty());
        assert(r.manifests() =~= Seq::<ManifestV>::empty());
        assert(r.renderers() =~= Set::<Seq<char>>::empty());
        assert(r.ai_providers() =~= Set::<Seq<char>>::empty());
        assert(r.vector_stores() =~= Set::<Seq<char>>::empty());
        r
    }

    /// Register an importer for a file format, replacing any importer
    /// already registered for it.
    pub fn register_importer(&mut self, format: String, importer: ImporterKind)
        requires
            old(self).wf(),
        ensures
            final(self).wf(),
            final(self).importers() == old(self).importers().insert(format@, importer),
            old(self).importers().dom().contains(format@) ==> final(self).formats() == old(self).formats(),
            !old(self).importers().dom().contains(format@) ==> final(self).formats() == old(
                self,
            ).formats().push(format@),
            final(self).renderers() == old(self).renderers(),
            final(self).ai_providers() == old(self).ai_providers(),
            final(self).vector_stores() == old(self).vector_stores(),
            final(self).plugins() == old(self).plugins(),
            final(self).manifests() == old(self).manifests(),
    {
        self.importers.insert(format, importer);
    }

    /// Register a renderer under a named view.
    pub fn register_renderer(&mut self, name: String)
        requires
            old(self).wf(),
        ensures
            final(self).wf(),
            final(self).renderers() == old(self).renderers().insert(name@),
            final(self).importers() == old(self).importers(),
            final(self).formats() == old(self).formats(),
            final(self).ai_providers() == old(self).ai_providers(),
            final(self).vector_stores() == old(self).vector_stores(),
            final(self).plugins() == old(self).plugins(),
            final(self).manifests() == old(self).manifests(),
    {
        self.renderers.insert(name, ());
    }

    /// Register an AI provider under a name.
    pub fn register_ai_provider(&mut self, name: String)
        requires
            old(self).wf(),
        ensures
            final(self).wf(),
            final(self).ai_providers() == old(self).ai_providers().insert(name@),
            final(self).importers() == old(self).importers(),
            final(self).formats() == old(self).formats(),
            final(self).renderers() == old(self).renderers(),
            final(self).vector_stores() == old(self).vector_stores(),
            final(self).plugins() == old(self).plugins(),
            final(self).manifests() == old(self).manifests(),
    {
        self.ai_providers.insert(name, ());
    }

    /// Register a vector store under a backend name.
    pub fn register_vector_store(&mut self, name: String)
        requires
            old(self).wf(),
        ensures
            final(self).wf(),
            final(self).vector_stores() == old(self).vector_stores().insert(name@),
            final(self).importers() == old(self).importers(),
            final(self).formats() == old(self).formats(),
            final(self).renderers() == old(self).renderers(),
            final(self).ai_providers() == old(self).ai_providers(),
            final(self).plugins() == old(self).plugins(),
            final(self).manifests() == old(self).manifests(),
    {
        self.vector_stores.insert(name, ());
    }

    /// Register a plugin, keeping a copy of its manifest.
    pub fn register_plugin(&mut self, plugin: P)
        requires
            old(self).wf(),
        ensures
            final(self).wf(),
            final(self).plugins() == old(self).plugins().push(plugin.declared_manifest()@),
            final(self).activations() == old(self).activations().push(plugin.activation()),
            final(self).manifests() == old(self).manifests().push(plugin.declared_manifest()@),
            final(self).importers() == old(self).importers(),
            final(self).formats() == old(self).formats(),
            final(self).renderers() == old(self).renderers(),
            final(self).ai_providers() == old(self).ai_providers(),
            final(self).vector_stores() == old(self).vector_stores(),
    {
        let copy = copy_manifest(plugin.manifest());
        self.manifests.push(copy);
        let ghost before = self.plugins@;
        self.plugins.push(plugin);
        assert(self.plugins@ == before.push(plugin));
        assert(self.plugins() =~= old(self).plugins().push(plugin.declared_manifest()@));
        assert(self.activations() =~= old(self).activations().push(plugin.activation()));
        assert(self.manifests() =~= old(self).manifests().push(plugin.declared_manifest()@));
    }

    /// Activate the registered plugins in order, each once: one result per
    /// plugin, a failure reported as `MissingField` with the error's text;
    /// a failure does not stop the plugins after it.
    pub fn activate_all(&mut self) -> (r: Vec<Result<(), ManifestError>>)
        ensures
            *final(self) == *old(self),
            r@.len() == old(self).activations().len(),
            forall|k: int| 0 <= k < r@.len() ==> reports(#[trigger] r@[k], old(self).activations()[k]),
    {
        let mut r: Vec<Result<(), ManifestError>> = Vec::new();
        let mut k: usize = 0;
        while k < self.plugins.len()
            invariant
                k <= self.plugins@.len(),
                r@.len() == k,
                forall|j: int| 0 <= j < k ==> reports(#[trigger] r@[j], self.activations()[j]),
            decreases self.plugins@.len() - k,
        {
            match self.plugins[k].activate() {
                Ok(()) => r.push(Ok(())),
                Err(e) => r.push(Err(ManifestError::MissingField(e.message()))),
            }
            k += 1;
        }
        r
    }

    /// Deactivate the registered plugins in order, each once; a failure is
    /// passed over and the registry is left as it was.
    pub fn deactivate_all(&mut self)
        ensures
            *final(self) == *old(self),
    {
        let mut k: usize = 0;
        while k < self.plugins.len()
            invariant
                k <= self.plugins@.len(),
            decreases self.plugins@.len() - k,
        {
            let _ = self.plugins[k].deactivate();
            k += 1;
        }
    }

    /// Deregister the importer of a format; whether one was registered.
    pub fn deregister_importer(&mut self, format: &str) -> (removed: bool)
        requires
            old(self).wf(),
        ensures
            final(self).wf(),
            removed == old(self).importers().dom().contains(format@),
            final(self).importers() == old(self).importers().remove(format@),
            final(self).renderers() == old(self).renderers(),
            final(self).ai_providers() == old(self).ai_providers(),
            final(self).vector_stores() == old(self).vector_stores(),
            final(self).plugins() == old(self).plugins(),
            final(self).manifests() == old(self).manifests(),
    {
        self.importers.remove(format)
    }
}

/// The manifests in `s` not named `name`, in order.
pub open spec fn without_named(s: Seq<ManifestV>, name: Seq<char>) -> Seq<ManifestV>
    decreases s.len(),
{
    if s.len() == 0 {
        s
    } else if s.last().name == name {
        without_named(s.drop_last(), name)
    } else {
        without_named(s.drop_last(), name).push(s.last())
    }
}

proof fn lemma_without_named_len(s: Seq<ManifestV>, name: Seq<char>)
    ensures
        without_named(s, name).len() <= s.len(),
        without_named(s, name).len() < s.len() <==> exists|i: int|
            0 <= i < s.len() && #[trigger] s[i].name == name,
    decreases s.len(),
{
    if s.len() > 0 {
        lemma_without_named_len(s.drop_last(), name);
        if exists|i: int| 0 <= i < s.drop_last().len() && #[trigger] s.drop_last()[i].name == name {
            let i = choose|i: int| 0 <= i < s.drop_last().len() && #[trigger] s.drop_last()[i].name == name;
            assert(s[i].name == name);
        }
        if exists|i: int| 0 <= i < s.len() && #[trigger] s[i].name == name {
            let i = choose|i: int| 0 <= i < s.len() && #[trigger] s[i].name == name;
            if i < s.len() - 1 {
                assert(s.drop_last()[i].name == name);
            }
        }
    }
}

/// Keep the manifests of `list` not named `name`, in order.
fn retain_not_named(list: &mut Vec<PluginManifest>, name: &str)
    ensures
        manifests_view(final(list)@) == without_named(manifests_view(old(list)@), name@),
{
    let ghost input = manifests_view(list@);
    let mut rest: Vec<PluginManifest> = Vec::new();
    std::mem::swap(&mut rest, list);
    let ghost mut i: int = 0;
    assert(input.take(0) =~= Seq::<ManifestV>::empty());
    assert(manifests_view(rest@).skip(0) =~= input);
    while rest.len() > 0
        invariant
            0 <= i <= input.len(),
            manifests_view(rest@) == input.skip(i),
            manifests_view(list@) == without_named(input.take(i), name@),
        decreases rest.len(),
    {
        let ghost old_rest = rest@;
        let m = rest.remove(0);
        proof {
            assert(manifests_view(old_rest)[0] == old_rest[0]@);
            assert(manifests_view(old_rest).len() == old_rest.len());
            assert(i < input.len());
            assert(input.skip(i)[0] == input[i]);
            assert(m@ == input[i]);
            assert(input.take(i + 1).drop_last() =~= input.take(i));
            assert(input.take(i + 1).last() == m@);
        }
        let ghost before = manifests_view(list@);
        if !same_text(m.name.as_str(), name) {
            list.push(m);
            assert(manifests_view(list@) =~= before.push(m@));
        }
        proof {
            assert(rest@ =~= old_rest.drop_first());
            assert(manifests_view(old_rest.drop_first()) =~= manifests_view(old_rest).drop_first());
            assert(input.skip(i).drop_first() =~= input.skip(i + 1));
            i = i + 1;
        }
    }
    assert(input.take(input.len() as int) =~= input);
}

/// Keep the plugins of `list` not named `name`, in order.
fn retain_plugins_not_named<P: Plugin>(list: &mut Vec<P>, name: &str)
    ensures
        plugin_manifests(final(list)@) == without_named(plugin_manifests(old(list)@), name@),
{
    let ghost input = plugin_manifests(list@);
    let mut rest: Vec<P> = Vec::new();
    std::mem::swap(&mut rest, list);
    let ghost mut i: int = 0;
    assert(input.take(0) =~= Seq::<ManifestV>::empty());
    assert(plugin_manifests(rest@).skip(0) =~= input);
    while rest.len() > 0
        invariant
            0 <= i <= input.len(),
            plugin_manifests(rest@) == input.skip(i),
            plugin_manifests(list@) == without_named(input.take(i), name@),
        decreases rest.len(),
    {
        let ghost old_rest = rest@;
        let p = rest.remove(0);
        proof {
            assert(plugin_manifests(old_rest)[0] == old_rest[0].declared_manifest()@);
            assert(plugin_manifests(old_rest).len() == old_rest.len());
            assert(input.skip(i)[0] == input[i]);
            assert(p.declared_manifest()@ == input[i]);
            assert(input.take(i + 1).drop_last() =~= input.take(i));
            assert(input.take(i + 1).last() == p.declared_manifest()@);
        }
        let ghost before = plugin_manifests(list@);
        if !same_text(p.manifest().name.as_str(), name) {
            let ghost g = p;
            list.push(p);
            assert(plugin_manifests(list@) =~= before.push(g.declared_manifest()@));
        }
        proof {
            assert(rest@ =~= old_rest.drop_first());
            assert(plugin_manifests(old_rest.drop_first()) =~= plugin_manifests(old_rest).drop_first());
            assert(input.skip(i).drop_first() =~= input.skip(i + 1));
            i = i + 1;
        }
    }
    assert(input.take(input.len() as int) =~= input);
}

impl<P: Plugin> CapabilityRegistry<P> {
    /// Deregister the plugins named `name`, from both the plugin list and
    /// the manifest list; whether a plugin was removed.
    pub fn deregister_plugin(&mut self, name: &str) -> (removed: bool)
        requires
            old(self).wf(),
        ensures
            final(self).wf(),
            final(self).plugins() == without_named(old(self).plugins(), name@),
            final(self).manifests() == without_named(old(self).manifests(), name@),
            removed == exists|i: int|
                0 <= i < old(self).plugins().len() && #[trigger] old(self).plugins()[i].name == name@,
            final(self).importers() == old(self).importers(),
            final(self).formats() == old(self).formats(),
            final(self).renderers() == old(self).renderers(),
            final(self).ai_providers() == old(self).ai_providers(),
            final(self).vector_stores() == old(self).vector_stores(),
    {
        let before = self.plugins.len();
        retain_plugins_not_named(&mut self.plugins, name);
        retain_not_named(&mut self.manifests, name);
        proof {
            lemma_without_named_len(old(self).plugins(), name@);
        }
        self.plugins.len() < before
    }

    /// The importer registered for a format, or `NotFound` naming the format.
    pub fn get_importer(&self, format: &str) -> (r: Result<ImporterKind, PluginError>)
        requires
            self.wf(),
        ensures
            self.importers().dom().contains(format@) ==> r == Ok::<ImporterKind, PluginError>(
                self.importers()[format@],
            ),
            !self.importers().dom().contains(format@) ==> (r matches Err(PluginError::NotFound(m))
                && m@ == "importer for '"@ + format@ + "'"@),
    {
        match self.importers.get(format) {
            Some(k) => Ok(*k),
            None => {
                let m = concat("importer for '", format);
                Err(PluginError::NotFound(concat(m.as_str(), "'")))
            },
        }
    }

    /// Whether a renderer is registered under `name`, or `NotFound` naming it.
    pub fn get_renderer(&self, name: &str) -> (r: Result<(), PluginError>)
        requires
            self.wf(),
        ensures
            self.renderers().contains(name@) ==> r is Ok,
            !self.renderers().contains(name@) ==> (r matches Err(PluginError::NotFound(m)) && m@
                == "renderer '"@ + name@ + "'"@),
    {
        match self.renderers.get(name) {
            Some(_) => Ok(()),
            None => {
                let m = concat("renderer '", name);
                Err(PluginError::NotFound(concat(m.as_str(), "'")))
            },
        }
    }

    /// Whether an AI provider is registered under `name`, or `NotFound` naming it.
    pub fn get_ai_provider(&self, name: &str) -> (r: Result<(), PluginError>)
        requires
            self.wf(),
        ensures
            self.ai_providers().contains(name@) ==> r is Ok,
            !self.ai_providers().contains(name@) ==> (r matches Err(PluginError::NotFound(m)) && m@
                == "AI provider '"@ + name@ + "'"@),
    {
        match self.ai_providers.get(name) {
            Some(_) => Ok(()),
            None => {
                let m = concat("AI provider '", name);
                Err(PluginError::NotFound(concat(m.as_str(), "'")))
            },
        }
    }

    /// Whether a vector store is registered under `name`, or `NotFound` naming it.
    pub fn get_vector_store(&self, name: &str) -> (r: Result<(), PluginError>)
        requires
            self.wf(),
        ensures
            self.vector_stores().contains(name@) ==> r is Ok,
            !self.vector_stores().contains(name@) ==> (r matches Err(PluginError::NotFound(m))
                && m@ == "vector store '"@ + name@ + "'"@),
    {
        match self.vector_stores.get(name) {
            Some(_) => Ok(()),
            None => {
                let m = concat("vector store '", name);
                Err(PluginError::NotFound(concat(m.as_str(), "'")))
            },
        }
    }

    /// The number of formats with an importer.
    pub fn importer_count(&self) -> (n: usize)
        requires
            self.wf(),
        ensures
            n == self.importers().dom().len(),
            n == self.formats().len(),
    {
        self.importers.len()
    }

    /// The number of registered renderers.
    pub fn renderer_count(&self) -> (n: usize)
        requires
            self.wf(),
        ensures
            n == self.renderers().len(),
    {
        self.renderers.len()
    }

    /// The number of registered AI providers.
    pub fn ai_provider_count(&self) -> (n: usize)
        requires
            self.wf(),
        ensures
            n == self.ai_providers().len(),
    {
        self.ai_providers.len()
    }

    /// The number of registered vector stores.
    pub fn vector_store_count(&self) -> (n: usize)
        requires
            self.wf(),
        ensures
            n == self.vector_stores().len(),
    {
        self.vector_stores.len()
    }

    /// The number of registered plugins.
    pub fn plugin_count(&self) -> (n: usize)
        ensures
            n == self.plugins().len(),
    {
        self.plugins.len()
    }

    /// The capabilities of a plugin named `name` (see `plugin_capabilities`).
    fn capabilities_of(&self, name: &str) -> (caps: Vec<String>)
        requires
            self.wf(),
        ensures
            strings_view(caps@) == plugin_capabilities(self.formats(), name@),
    {
        let ghost formats = self.formats();
        let n = self.importers.len();
        let mut caps: Vec<String> = Vec::new();
        let mut i: usize = 0;
        assert(formats.take(0) =~= Seq::<Seq<char>>::empty());
        while i < n
            invariant
                n == formats.len(),
                formats == self.formats(),
                i <= n,
                strings_view(caps@) == matching_capabilities(formats.take(i as int), name@),
            decreases n - i,
        {
            let f = self.importers.key_at(i);
            proof {
                assert(formats.take(i + 1).drop_last() =~= formats.take(i as int));
                assert(formats.take(i + 1).last() == f@);
            }
            let ghost before = strings_view(caps@);
            if str_contains(name, f.as_str()) || str_contains(f.as_str(), name) {
                caps.push(concat("importer:", f.as_str()));
                assert(strings_view(caps@) =~= before.push(importer_capability(f@)));
            }
            i += 1;
        }
        assert(formats.take(n as int) =~= formats);
        if caps.len() == 0 && n > 0 && str_contains(name, "import") {
            let mut all: Vec<String> = Vec::new();
            let mut j: usize = 0;
            while j < n
                invariant
                    n == formats.len(),
                    formats == self.formats(),
                    j <= n,
                    strings_view(all@) == formats.take(j as int).map_values(
                        |f: Seq<char>| importer_capability(f),
                    ),
                decreases n - j,
            {
                let f = self.importers.key_at(j);
                let ghost before = strings_view(all@);
                all.push(concat("importer:", f.as_str()));
                assert(strings_view(all@) =~= before.push(importer_capability(f@)));
                assert(formats.take(j + 1).map_values(|f: Seq<char>| importer_capability(f))
                    =~= formats.take(j as int).map_values(|f: Seq<char>| importer_capability(f)).push(
                    importer_capability(formats[j as int]),
                ));
                j += 1;
            }
            assert(formats.take(n as int) =~= formats);
            return all;
        }
        caps
    }

    /// List all registered plugins and their capabilities.
    pub fn list_plugins(&self) -> (r: Vec<PluginInfo>)
        requires
            self.wf(),
        ensures
            r@.len() == self.manifests().len(),
            forall|k: int|
                0 <= k < r@.len() ==> {
                    let m = self.manifests()[k];
                    &&& (#[trigger] r@[k]).name@ == m.name
                    &&& r@[k].version@ == m.version
                    &&& r@[k].description@ == m.description
                    &&& strings_view(r@[k].capabilities@) == plugin_capabilities(self.formats(), m.name)
                },
    {
        let mut r: Vec<PluginInfo> = Vec::new();
        let mut k: usize = 0;
        while k < self.manifests.len()
            invariant
                self.wf(),
                k <= self.manifests@.len(),
                r@.len() == k,
                forall|j: int|
                    0 <= j < k ==> {
                        let m = self.manifests()[j];
                        &&& (#[trigger] r@[j]).name@ == m.name
                        &&& r@[j].version@ == m.version
                        &&& r@[j].description@ == m.description
                        &&& strings_view(r@[j].capabilities@) == plugin_capabilities(
                            self.formats(),
                            m.name,
                        )
                    },
            decreases self.manifests@.len() - k,
        {
            let m = &self.manifests[k];
            assert(self.manifests()[k as int] == m@);
            let capabilities = self.capabilities_of(m.name.as_str());
            r.push(
                PluginInfo {
                    name: m.name.clone(),
                    version: m.version.clone(),
                    description: m.description.clone(),
                    capabilities,
                },
            );
            k += 1;
        }
        r
    }
}

/// The manifest of a built-in plugin: version 0.1.0 by Knowledge OS, MIT
/// licensed, at the default priority 100.
pub open spec fn standard_manifest(name: Seq<char>, description: Seq<char>) -> ManifestV {
    ManifestV {
        name,
        version: "0.1.0"@,
        description,
        author: "Knowledge OS"@,
        license: Some("MIT"@),
        priority: Some(100),
    }
}

/// The manifest of a built-in plugin with the given name and description.
pub fn make_manifest(name: &str, description: &str) -> (m: PluginManifest)
    ensures
        m@ == standard_manifest(name@, description@),
{
    PluginManifest {
        name: name.to_string(),
        version: "0.1.0".to_string(),
        description: description.to_string(),
        author: "Knowledge OS".to_string(),
        license: Some("MIT".to_string()),
        priority: Some(100),
    }
}

/// The built-in importers: for each format, the importer and the name and
/// description of its plugin. An importer that reads several extensions
/// appears once per extension.
pub open spec fn builtin_entries() -> Seq<(Seq<char>, ImporterKind, Seq<char>, Seq<char>)> {
    seq![
        ("markdown"@, ImporterKind::Markdown, "markdown-importer"@, "Import Markdown files"@),
        ("md"@, ImporterKind::Markdown, "markdown-importer"@, "Import Markdown files"@),
        ("pdf"@, ImporterKind::Pdf, "pdf-importer"@, "Import PDF files"@),
        ("url"@, ImporterKind::Url, "url-importer"@, "Import content from web URLs"@),
        ("docx"@, ImporterKind::Docx, "docx-importer"@, "Import DOCX files"@),
        ("pptx"@, ImporterKind::Pptx, "pptx-importer"@, "Import PPTX files"@),
        ("xlsx"@, ImporterKind::Xlsx, "xlsx-importer"@, "Import XLSX files"@),
        ("xlsm"@, ImporterKind::Xlsm, "xlsm-importer"@, "Import XLSM files"@),
        ("doc"@, ImporterKind::Doc, "doc-importer"@, "Import legacy DOC files"@),
        ("ppt"@, ImporterKind::Ppt, "ppt-importer"@, "Import legacy PPT files"@),
        ("pps"@, ImporterKind::Pps, "pps-importer"@, "Import legacy PPS files"@),
        ("xls"@, ImporterKind::Xls, "xls-importer"@, "Import legacy XLS files"@),
        ("pages"@, ImporterKind::Pages, "pages-importer"@, "Import Pages files"@),
        ("numbers"@, ImporterKind::Numbers, "numbers-importer"@, "Import Numbers files"@),
        ("key"@, ImporterKind::Keynote, "keynote-importer"@, "Import Keynote files"@),
        ("odt"@, ImporterKind::Odt, "odt-importer"@, "Import ODT files"@),
        ("ods"@, ImporterKind::Ods, "ods-importer"@, "Import ODS files"@),
        ("odp"@, ImporterKind::Odp, "odp-importer"@, "Import ODP files"@),
        ("odg"@, ImporterKind::Odg, "odg-importer"@, "Import ODG files"@),
        ("ott"@, ImporterKind::Ott, "ott-importer"@, "Import OTT files"@),
        ("ots"@, ImporterKind::Ots, "ots-importer"@, "Import OTS files"@),
        ("otp"@, ImporterKind::Otp, "otp-importer"@, "Import OTP files"@),
        ("csv"@, ImporterKind::Csv, "csv-importer"@, "Import CSV files"@),
        ("json"@, ImporterKind::Json, "json-importer"@, "Import JSON files"@),
        ("xml"@, ImporterKind::Xml, "xml-importer"@, "Import XML files"@),
        ("yaml"@, ImporterKind::Yaml, "yaml-importer"@, "Import YAML files"@),
        ("yml"@, ImporterKind::Yaml, "yaml-importer"@, "Import YAML files"@),
        ("png"@, ImporterKind::Image, "image-importer"@, "Import image files"@),
        ("jpg"@, ImporterKind::Image, "image-importer"@, "Import image files"@),
        ("jpeg"@, ImporterKind::Image, "image-importer"@, "Import image files"@),
        ("gif"@, ImporterKind::Image, "image-importer"@, "Import image files"@),
        ("bmp"@, ImporterKind::Image, "image-importer"@, "Import image files"@),
        ("webp"@, ImporterKind::Image, "image-importer"@, "Import image files"@),
        ("tiff"@, ImporterKind::Image, "image-importer"@, "Import image files"@),
        ("tif"@, ImporterKind::Image, "image-importer"@, "Import image files"@),
        ("eml"@, ImporterKind::Eml, "eml-importer"@, "Import EML files"@),
        ("msg"@, ImporterKind::Msg, "msg-importer"@, "Import MSG files"@),
        ("ics"@, ImporterKind::Ics, "ics-importer"@, "Import ICS calendar files"@),
        ("vcf"@, ImporterKind::Vcf, "vcf-importer"@, "Import VCF contact files"@),
        ("enex"@, ImporterKind::Enex, "enex-importer"@, "Import Evernote ENEX files"@),
        ("opml"@, ImporterKind::Opml, "opml-importer"@, "Import OPML files"@),
        ("notion"@, ImporterKind::NotionJson, "notion-importer"@, "Import Notion JSON exports"@),
        ("obsidian"@, ImporterKind::ObsidianVault, "obsidian-importer"@, "Import Obsidian vaults"@),
        ("mbox"@, ImporterKind::Mbox, "mbox-importer"@, "Import Mbox email archives"@),
    ]
}

/// The importer of each format of a list of entries (a later entry for a
/// format replaces an earlier one).
pub open spec fn entries_importers(e: Seq<(Seq<char>, ImporterKind, Seq<char>, Seq<char>)>) -> Map<
    Seq<char>,
    ImporterKind,
>
    decreases e.len(),
{
    if e.len() == 0 {
        Map::empty()
    } else {
        entries_importers(e.drop_last()).insert(e.last().0, e.last().1)
    }
}

/// The manifests of a list of entries, in order.
pub open spec fn entries_manifests(e: Seq<(Seq<char>, ImporterKind, Seq<char>, Seq<char>)>) -> Seq<
    ManifestV,
> {
    e.map_values(|x: (Seq<char>, ImporterKind, Seq<char>, Seq<char>)| standard_manifest(x.2, x.3))
}

spec fn entry_view(x: (&str, ImporterKind, &str, &str)) -> (Seq<char>, ImporterKind, Seq<char>, Seq<char>) {
    (x.0@, x.1, x.2@, x.3@)
}

/// A registry holding every built-in importer under each of its formats,
/// with one manifest per format; no plugin objects are registered.
pub fn built_in_plugins() -> (r: CapabilityRegistry)
    ensures
        r.wf(),
        r.importers() == entries_importers(builtin_entries()),
        r.manifests() == entries_manifests(builtin_entries()),
        r.plugins() == Seq::<ManifestV>::empty(),
        r.renderers() == Set::<Seq<char>>::empty(),
        r.ai_providers() == Set::<Seq<char>>::empty(),
        r.vector_stores() == Set::<Seq<char>>::empty(),
{
    let table: Vec<(&str, ImporterKind, &str, &str)> = vec![
        ("markdown", ImporterKind::Markdown, "markdown-importer", "Import Markdown files"),
        ("md", ImporterKind::Markdown, "markdown-importer", "Import Markdown files"),
        ("pdf", ImporterKind::Pdf, "pdf-importer", "Import PDF files"),
        ("url", ImporterKind::Url, "url-importer", "Import content from web URLs"),
        ("docx", ImporterKind::Docx, "docx-importer", "Import DOCX files"),
        ("pptx", ImporterKind::Pptx, "pptx-importer", "Import PPTX files"),
        ("xlsx", ImporterKind::Xlsx, "xlsx-importer", "Import XLSX files"),
        ("xlsm", ImporterKind::Xlsm, "xlsm-importer", "Import XLSM files"),
        ("doc", ImporterKind::Doc, "doc-importer", "Import legacy DOC files"),
        ("ppt", ImporterKind::Ppt, "ppt-importer", "Import legacy PPT files"),
        ("pps", ImporterKind::Pps, "pps-importer", "Import legacy PPS files"),
        ("xls", ImporterKind::Xls, "xls-importer", "Import legacy XLS files"),
        ("pages", ImporterKind::Pages, "pages-importer", "Import Pages files"),
        ("numbers", ImporterKind::Numbers, "numbers-importer", "Import Numbers files"),
        ("key", ImporterKind::Keynote, "keynote-importer", "Import Keynote files"),
        ("odt", ImporterKind::Odt, "odt-importer", "Import ODT files"),
        ("ods", ImporterKind::Ods, "ods-importer", "Import ODS files"),
        ("odp", ImporterKind::Odp, "odp-importer", "Import ODP files"),
        ("odg", ImporterKind::Odg, "odg-importer", "Import ODG files"),
        ("ott", ImporterKind::Ott, "ott-importer", "Import OTT files"),
        ("ots", ImporterKind::Ots, "ots-importer", "Import OTS files"),
        ("otp", ImporterKind::Otp, "otp-importer", "Import OTP files"),
        ("csv", ImporterKind::Csv, "csv-importer", "Import CSV files"),
        ("json", ImporterKind::Json, "json-importer", "Import JSON files"),
        ("xml", ImporterKind::Xml, "xml-importer", "Import XML files"),
        ("yaml", ImporterKind::Yaml, "yaml-importer", "Import YAML files"),
        ("yml", ImporterKind::Yaml, "yaml-importer", "Import YAML files"),
        ("png", ImporterKind::Image, "image-importer", "Import image files"),
        ("jpg", ImporterKind::Image, "image-importer", "Import image files"),
        ("jpeg", ImporterKind::Image, "image-importer", "Import image files"),
        ("gif", ImporterKind::Image, "image-importer", "Import image files"),
        ("bmp", ImporterKind::Image, "image-importer", "Import image files"),
        ("webp", ImporterKind::Image, "image-importer", "Import image files"),
        ("tiff", ImporterKind::Image, "image-importer", "Import image files"),
        ("tif", ImporterKind::Image, "image-importer", "Import image files"),
        ("eml", ImporterKind::Eml, "eml-importer", "Import EML files"),
        ("msg", ImporterKind::Msg, "msg-importer", "Import MSG files"),
        ("ics", ImporterKind::Ics, "ics-importer", "Import ICS calendar files"),
        ("vcf", ImporterKind::Vcf, "vcf-importer", "Import VCF contact files"),
        ("enex", ImporterKind::Enex, "enex-importer", "Import Evernote ENEX files"),
        ("opml", ImporterKind::Opml, "opml-importer", "Import OPML files"),
        ("notion", ImporterKind::NotionJson, "notion-importer", "Import Notion JSON exports"),
        ("obsidian", ImporterKind::ObsidianVault, "obsidian-importer", "Import Obsidian vaults"),
        ("mbox", ImporterKind::Mbox, "mbox-importer", "Import Mbox email archives"),
    ];
    let ghost entries = builtin_entries();
    assert(table@.map_values(|x: (&str, ImporterKind, &str, &str)| entry_view(x)) =~= entries);
    let mut registry = CapabilityRegistry::new();
    let mut i: usize = 0;
    assert(entries.take(0) =~= Seq::<(Seq<char>, ImporterKind, Seq<char>, Seq<char>)>::empty());
    assert(entries_manifests(entries.take(0)) =~= Seq::<ManifestV>::empty());
    while i < table.len()
        invariant
            i <= table@.len(),
            table@.map_values(|x: (&str, ImporterKind, &str, &str)| entry_view(x)) == entries,
            entries == builtin_entries(),
            registry.wf(),
            registry.importers() == entries_importers(entries.take(i as int)),
            registry.manifests() == entries_manifests(entries.take(i as int)),
            registry.plugins() == Seq::<ManifestV>::empty(),
            registry.renderers() == Set::<Seq<char>>::empty(),
            registry.ai_providers() == Set::<Seq<char>>::empty(),
            registry.vector_stores() == Set::<Seq<char>>::empty(),
        decreases table@.len() - i,
    {
        let (format, kind, name, description) = table[i];
        proof {
            assert(entries[i as int] == entry_view(table@[i as int]));
            assert(entries.take(i + 1).drop_last() =~= entries.take(i as int));
            assert(entries.take(i + 1).last() == entries[i as int]);
            assert(entries_manifests(entries.take(i + 1)) =~= entries_manifests(entries.take(i as int)).push(
                standard_manifest(name@, description@),
            ));
        }
        let ghost before = registry.manifests();
        registry.manifests.push(make_manifest(name, description));
        assert(registry.manifests() =~= before.push(standard_manifest(name@, description@)));
        registry.importers.insert(format.to_string(), kind);
        i += 1;
    }
    assert(entries.take(table.len() as int) =~= entries);
    registry
}

/// After an importer is registered for a format, looking that format up
/// finds that importer, and the other formats keep their importers.
pub proof fn law_register_then_get<P: Plugin>(
    before: CapabilityRegistry<P>,
    after: CapabilityRegistry<P>,
    format: Seq<char>,
    importer: ImporterKind,
)
    requires
        after.importers() == before.importers().insert(format, importer),
    ensures
        after.importers().dom().contains(format),
        after.importers()[format] == importer,
        forall|f: Seq<char>|
            f != format ==> (#[trigger] after.importers().dom().contains(f)
                == before.importers().dom().contains(f) && (before.importers().dom().contains(f)
                ==> after.importers()[f] == before.importers()[f])),
{
}

/// After the importer of a format is deregistered, looking that format up
/// finds nothing, and the other formats keep their importers.
pub proof fn law_deregister_then_missing<P: Plugin>(
    before: CapabilityRegistry<P>,
    after: CapabilityRegistry<P>,
    format: Seq<char>,
)
    requires
        after.importers() == before.importers().remove(format),
    ensures
        !after.importers().dom().contains(format),
        forall|f: Seq<char>|
            f != format ==> (#[trigger] after.importers().dom().contains(f)
                == before.importers().dom().contains(f) && (before.importers().dom().contains(f)
                ==> after.importers()[f] == before.importers()[f])),
{
}

/// After the plugins named `name` are deregistered, no registered plugin
/// or manifest has that name, and the others keep their order.
pub proof fn law_deregistered_plugin_is_gone(s: Seq<ManifestV>, name: Seq<char>)
    ensures
        forall|i: int| 0 <= i < without_named(s, name).len() ==> #[trigger] without_named(s, name)[i].name != name,
        without_named(without_named(s, name), name) == without_named(s, name),
    decreases s.len(),
{
    if s.len() > 0 {
        law_deregistered_plugin_is_gone(s.drop_last(), name);
        let w = without_named(s.drop_last(), name);
        if s.last().name != name {
            assert(w.push(s.last()).drop_last() =~= w);
        }
    }
}

} // verus!
