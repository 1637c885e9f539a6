use knowledge_os::dynamic::{is_plugin_library, manifest_from_json};
use knowledge_os::plugin::{
    manifest_from_section, resolve_plugins, str_less, DiscoveryError, ManifestError,
    PluginManifest, PluginSection,
};
use knowledge_os::registry::{
    built_in_plugins, make_manifest, CapabilityRegistry, ImporterKind, ManifestPlugin, Plugin,
    PluginError,
};

struct TestPlugin {
    manifest: PluginManifest,
}

impl Plugin for TestPlugin {
    fn declared_manifest(&self) -> PluginManifest {
        self.manifest.clone()
    }
    fn activation(&self) -> Result<(), PluginError> {
        Ok(())
    }
    fn manifest(&self) -> &PluginManifest {
        &self.manifest
    }
    fn activate(&self) -> Result<(), PluginError> {
        Ok(())
    }
    fn deactivate(&self) -> Result<(), PluginError> {
        Ok(())
    }
}

struct FailingPlugin {
    manifest: PluginManifest,
}

impl Plugin for FailingPlugin {
    fn declared_manifest(&self) -> PluginManifest {
        self.manifest.clone()
    }
    fn activation(&self) -> Result<(), PluginError> {
        Err(PluginError::ActivationFailed("test failure".to_string()))
    }
    fn manifest(&self) -> &PluginManifest {
        &self.manifest
    }
    fn activate(&self) -> Result<(), PluginError> {
        Err(PluginError::ActivationFailed("test failure".to_string()))
    }
    fn deactivate(&self) -> Result<(), PluginError> {
        Ok(())
    }
}

fn test_manifest(name: &str) -> PluginManifest {
    PluginManifest {
        name: name.to_string(),
        version: "0.1.0".to_string(),
        description: format!("Test plugin {}", name),
        author: "Test".to_string(),
        license: None,
        priority: None,
    }
}

fn make_versioned(name: &str, version: &str, priority: Option<u32>) -> PluginManifest {
    PluginManifest {
        name: name.to_string(),
        version: version.to_string(),
        description: format!("Plugin {}", name),
        author: "Test".to_string(),
        license: None,
        priority,
    }
}

fn section(name: &str, version: &str) -> PluginSection {
    PluginSection {
        name: name.to_string(),
        version: version.to_string(),
        description: "d".to_string(),
        author: "Test".to_string(),
        license: None,
        priority: None,
    }
}

#[test]
fn test_registry_new_is_empty() {
    let registry: CapabilityRegistry = CapabilityRegistry::new();
    assert_eq!(registry.importer_count(), 0);
    assert_eq!(registry.renderer_count(), 0);
    assert_eq!(registry.ai_provider_count(), 0);
    assert_eq!(registry.vector_store_count(), 0);
    assert_eq!(registry.plugin_count(), 0);
}

#[test]
fn test_register_and_get_importer() {
    let mut registry: CapabilityRegistry = CapabilityRegistry::new();
    registry.register_importer("markdown".to_string(), ImporterKind::Markdown);
    let result = registry.get_importer("markdown");
    assert!(result.is_ok());
    assert_eq!(result.unwrap(), ImporterKind::Markdown);
}

#[test]
fn test_get_importer_not_found() {
    let registry: CapabilityRegistry = CapabilityRegistry::new();
    let result = registry.get_importer("nonexistent");
    assert!(result.is_err());
    match result.err().unwrap() {
        PluginError::NotFound(m) => {
            assert!(m.contains("nonexistent"));
            assert_eq!(m, "importer for 'nonexistent'");
        }
        other => panic!("unexpected error {:?}", other),
    }
}

#[test]
fn test_register_plugin() {
    let mut registry = CapabilityRegistry::new();
    registry.register_plugin(Box::new(TestPlugin { manifest: test_manifest("test-plugin") }));
    assert_eq!(registry.plugin_count(), 1);
}

#[test]
fn test_list_plugins() {
    let mut registry = CapabilityRegistry::new();
    registry.register_plugin(Box::new(TestPlugin { manifest: test_manifest("markdown-importer") }));
    let plugins = registry.list_plugins();
    assert_eq!(plugins.len(), 1);
    assert_eq!(plugins[0].name, "markdown-importer");
    assert_eq!(plugins[0].version, "0.1.0");
}

#[test]
fn test_activate_all() {
    let mut registry = CapabilityRegistry::new();
    let plugin = TestPlugin {
        manifest: test_manifest("test-plugin"),
    };
    registry.register_plugin(Box::new(plugin));

    let results = registry.activate_all();
    assert_eq!(results.len(), 1);
    assert!(results[0].is_ok());
}

#[test]
fn test_activate_all_with_failing_plugin() {
    let mut registry = CapabilityRegistry::new();
    registry.register_plugin(Box::new(FailingPlugin {
        manifest: test_manifest("failing"),
    }));

    let results = registry.activate_all();
    assert_eq!(results.len(), 1);
    assert!(results[0].is_err());
}

#[test]
fn activation_failures_are_reported_with_their_text() {
    let mut registry = CapabilityRegistry::new();
    registry.register_plugin(FailingPlugin {
        manifest: test_manifest("failing"),
    });
    registry.register_plugin(FailingPlugin {
        manifest: test_manifest("again"),
    });
    let results = registry.activate_all();
    assert_eq!(results.len(), 2);
    assert_eq!(
        results[0],
        Err(ManifestError::MissingField("Plugin activation failed: test failure".to_string()))
    );
    assert_eq!(results[0], results[1]);
    assert_eq!(registry.plugin_count(), 2);
}

#[test]
fn test_capability_registry_register_and_retrieve() {
    let mut registry: CapabilityRegistry = CapabilityRegistry::new();
    registry.register_importer("markdown".to_string(), ImporterKind::Markdown);
    let retrieved = registry.get_importer("markdown").unwrap();
    assert_eq!(retrieved, ImporterKind::Markdown);
    assert!(registry.get_importer("pdf").is_err());
}

#[test]
fn test_capability_registry_plugin_lifecycle() {
    let mut registry = CapabilityRegistry::new();
    registry.register_plugin(Box::new(TestPlugin { manifest: test_manifest("markdown-importer") }));
    registry.register_plugin(Box::new(TestPlugin { manifest: test_manifest("pdf-importer") }));
    assert_eq!(registry.plugin_count(), 2);
    let results = registry.activate_all();
    assert_eq!(results.len(), 2);
    assert!(results[0].is_ok());
    assert!(results[1].is_ok());
}

#[test]
fn test_capability_registry_list_plugins() {
    let mut registry = CapabilityRegistry::new();
    registry.register_plugin(Box::new(TestPlugin { manifest: test_manifest("markdown-importer") }));
    registry.register_plugin(Box::new(TestPlugin { manifest: test_manifest("pdf-importer") }));
    registry.register_plugin(Box::new(TestPlugin { manifest: test_manifest("url-importer") }));
    let plugins = registry.list_plugins();
    assert_eq!(plugins.len(), 3);
    let names: Vec<&str> = plugins.iter().map(|p| p.name.as_str()).collect();
    assert!(names.contains(&"markdown-importer"));
    assert!(names.contains(&"pdf-importer"));
    assert!(names.contains(&"url-importer"));
}

#[test]
fn capabilities_follow_importer_formats() {
    let mut registry = CapabilityRegistry::new();
    registry.register_importer("markdown".to_string(), ImporterKind::Markdown);
    registry.register_importer("pdf".to_string(), ImporterKind::Pdf);
    registry.register_plugin(Box::new(TestPlugin { manifest: test_manifest("markdown-importer") }));
    registry.register_plugin(Box::new(TestPlugin { manifest: test_manifest("generic-importer") }));
    registry.register_plugin(Box::new(TestPlugin { manifest: test_manifest("viewer") }));
    let plugins = registry.list_plugins();
    assert_eq!(plugins[0].capabilities, vec!["importer:markdown".to_string()]);
    assert_eq!(
        plugins[1].capabilities,
        vec!["importer:markdown".to_string(), "importer:pdf".to_string()]
    );
    assert!(plugins[2].capabilities.is_empty());
}

#[test]
fn deregistering_importers_and_plugins() {
    let mut registry = CapabilityRegistry::new();
    registry.register_importer("csv".to_string(), ImporterKind::Csv);
    assert!(registry.deregister_importer("csv"));
    assert!(!registry.deregister_importer("csv"));
    assert!(registry.get_importer("csv").is_err());
    registry.register_plugin(Box::new(TestPlugin { manifest: test_manifest("a") }));
    registry.register_plugin(Box::new(TestPlugin { manifest: test_manifest("b") }));
    registry.register_plugin(Box::new(TestPlugin { manifest: test_manifest("a") }));
    assert!(registry.deregister_plugin("a"));
    assert_eq!(registry.plugin_count(), 1);
    assert_eq!(registry.list_plugins()[0].name, "b");
    assert!(!registry.deregister_plugin("a"));
}

#[test]
fn renderers_providers_and_stores_by_name() {
    let mut registry: CapabilityRegistry = CapabilityRegistry::new();
    registry.register_renderer("graph".to_string());
    registry.register_ai_provider("local".to_string());
    registry.register_vector_store("sqlite".to_string());
    registry.register_renderer("graph".to_string());
    assert_eq!(registry.renderer_count(), 1);
    assert!(registry.get_renderer("graph").is_ok());
    assert_eq!(
        registry.get_renderer("table"),
        Err(PluginError::NotFound("renderer 'table'".to_string()))
    );
    assert!(registry.get_ai_provider("local").is_ok());
    assert_eq!(
        registry.get_ai_provider("remote"),
        Err(PluginError::NotFound("AI provider 'remote'".to_string()))
    );
    assert!(registry.get_vector_store("sqlite").is_ok());
    assert_eq!(
        registry.get_vector_store("pg"),
        Err(PluginError::NotFound("vector store 'pg'".to_string()))
    );
}

#[test]
fn built_in_registry_lists_every_format() {
    let registry = built_in_plugins();
    assert_eq!(registry.importer_count(), 44);
    assert_eq!(registry.plugin_count(), 0);
    assert_eq!(registry.list_plugins().len(), 44);
    assert_eq!(registry.get_importer("md").unwrap(), ImporterKind::Markdown);
    assert_eq!(registry.get_importer("yml").unwrap(), ImporterKind::Yaml);
    assert_eq!(registry.get_importer("tif").unwrap(), ImporterKind::Image);
    assert_eq!(registry.get_importer("mbox").unwrap(), ImporterKind::Mbox);
    assert!(registry.get_importer("exe").is_err());
    let infos = registry.list_plugins();
    assert_eq!(infos[0].name, "markdown-importer");
    assert_eq!(infos[0].description, "Import Markdown files");
    assert_eq!(infos[43].name, "mbox-importer");
}

#[test]
fn built_in_manifest_fields() {
    let m = make_manifest("pdf-importer", "Import PDF files");
    assert_eq!(m.version, "0.1.0");
    assert_eq!(m.author, "Knowledge OS");
    assert_eq!(m.license.as_deref(), Some("MIT"));
    assert_eq!(m.priority, Some(100));
    assert_eq!(m.effective_priority(), 100);
}

#[test]
fn test_resolve_plugins_priority_ordering() {
    let plugins = vec![
        make_versioned("low-priority", "1.0.0", Some(200)),
        make_versioned("high-priority", "1.0.0", Some(10)),
        make_versioned("default-priority", "1.0.0", None),
    ];
    let resolved = resolve_plugins(plugins);
    assert_eq!(resolved[0].name, "high-priority");
    assert_eq!(resolved[1].name, "default-priority");
    assert_eq!(resolved[2].name, "low-priority");
}

#[test]
fn test_resolve_plugins_version_tiebreak() {
    let plugins = vec![
        make_versioned("older", "1.0.0", Some(100)),
        make_versioned("newer", "2.0.0", Some(100)),
    ];
    let resolved = resolve_plugins(plugins);
    assert_eq!(resolved[0].name, "newer");
    assert_eq!(resolved[1].name, "older");
}

#[test]
fn test_resolve_plugins_alphabetical_tiebreak() {
    let plugins = vec![
        make_versioned("beta-plugin", "1.0.0", Some(100)),
        make_versioned("alpha-plugin", "1.0.0", Some(100)),
    ];
    let resolved = resolve_plugins(plugins);
    assert_eq!(resolved[0].name, "alpha-plugin");
    assert_eq!(resolved[1].name, "beta-plugin");
}

#[test]
fn resolve_plugins_keeps_equal_ranks_in_order() {
    let mut a = make_versioned("same", "1.0.0", None);
    a.description = "first".to_string();
    let mut b = make_versioned("same", "1.0.0", Some(100));
    b.description = "second".to_string();
    let resolved = resolve_plugins(vec![a, b, make_versioned("x", "1.0.0", Some(1))]);
    assert_eq!(resolved[0].name, "x");
    assert_eq!(resolved[1].description, "first");
    assert_eq!(resolved[2].description, "second");
    assert!(resolve_plugins(Vec::new()).is_empty());
}

#[test]
fn versions_are_ranked_as_numbers() {
    let resolved = resolve_plugins(vec![
        make_versioned("nine", "9.0.0", None),
        make_versioned("ten", "10.0.0", None),
        make_versioned("nine-two", "9.2.0", None),
        make_versioned("nine-ten", "9.10.0", None),
    ]);
    let names: Vec<&str> = resolved.iter().map(|m| m.name.as_str()).collect();
    assert_eq!(names, vec!["ten", "nine-ten", "nine-two", "nine"]);
}

#[test]
fn missing_version_parts_count_as_zero_and_suffixes_are_not_compared() {
    let resolved = resolve_plugins(vec![
        make_versioned("b", "1.0", Some(5)),
        make_versioned("a", "1.0.0-beta", Some(5)),
        make_versioned("c", "1.0.1", Some(5)),
        make_versioned("d", "x", Some(5)),
    ]);
    let names: Vec<&str> = resolved.iter().map(|m| m.name.as_str()).collect();
    assert_eq!(names, vec!["c", "a", "b", "d"]);
    let huge = resolve_plugins(vec![
        make_versioned("big", "99999999999999999999999.0.0", None),
        make_versioned("max", "18446744073709551615.1.0", None),
    ]);
    assert_eq!(huge[0].name, "max");
}

#[test]
fn string_order_is_rust_order() {
    assert!(str_less("1.0.0", "2.0.0"));
    assert!(str_less("abc", "abd"));
    assert!(str_less("ab", "abc"));
    assert!(!str_less("abc", "abc"));
    assert!(!str_less("b", "abc"));
    assert!(str_less("", "a"));
}

#[test]
fn test_parse_manifest_empty_name() {
    match manifest_from_section(section("", "0.1.0")) {
        Err(ManifestError::MissingField(field)) => assert_eq!(field, "name"),
        other => panic!("Expected MissingField error, got {:?}", other),
    }
}

#[test]
fn test_parse_manifest_empty_version() {
    match manifest_from_section(section("test", "")) {
        Err(ManifestError::MissingField(field)) => assert_eq!(field, "version"),
        other => panic!("Expected MissingField error, got {:?}", other),
    }
}

#[test]
fn manifest_from_complete_section() {
    let mut s = section("markdown-importer", "0.1.0");
    s.license = Some("MIT".to_string());
    s.priority = Some(50);
    let m = manifest_from_section(s).unwrap();
    assert_eq!(m.name, "markdown-importer");
    assert_eq!(m.license.as_deref(), Some("MIT"));
    assert_eq!(m.priority, Some(50));
    assert_eq!(m.effective_priority(), 50);
}

#[test]
fn test_plugin_manifest_metadata() {
    let mut manifest = test_manifest("test-plugin");
    manifest.license = Some("MIT".to_string());
    assert_eq!(manifest.name, "test-plugin");
    assert_eq!(manifest.version, "0.1.0");
    assert_eq!(manifest.description, "Test plugin test-plugin");
    assert_eq!(manifest.author, "Test");
    assert_eq!(manifest.license.as_deref(), Some("MIT"));
}

#[test]
fn error_messages() {
    assert_eq!(ManifestError::Parse("x".to_string()).message(), "Invalid TOML: x");
    assert_eq!(
        ManifestError::MissingField("name".to_string()).message(),
        "Missing required field: name"
    );
    assert_eq!(ManifestError::Io("gone".to_string()).message(), "IO error: gone");
    let e = DiscoveryError::Manifest {
        path: "p/plugin.toml".to_string(),
        source: ManifestError::MissingField("version".to_string()),
    };
    assert_eq!(
        e.message(),
        "Manifest error in p/plugin.toml: Missing required field: version"
    );
    assert_eq!(
        DiscoveryError::Io("denied".to_string()).message(),
        "IO error reading plugin directory: denied"
    );
}

#[test]
fn test_deactivate_all() {
    let mut registry = CapabilityRegistry::new();
    registry.register_plugin(Box::new(TestPlugin { manifest: test_manifest("test-plugin") }));
    registry.deactivate_all();
    assert_eq!(registry.plugin_count(), 1);
}

#[test]
fn plugin_libraries_and_their_manifests() {
    assert!(is_plugin_library("/plugins/libmd.so"));
    assert!(is_plugin_library("md.dylib"));
    assert!(is_plugin_library("md.dll"));
    assert!(!is_plugin_library("md.SO"));
    assert!(!is_plugin_library("plugin.toml"));
    let m = manifest_from_json("{\"name\": \"md\", \"priority\": 5, \"license\": \"MIT\"}").unwrap();
    assert_eq!(m.name, "md");
    assert_eq!(m.version, "0.0.0");
    assert_eq!(m.description, "");
    assert_eq!(m.author, "");
    assert_eq!(m.license, Some("MIT".to_string()));
    assert_eq!(m.priority, Some(5));
    let m = manifest_from_json("{\"priority\": 4294967301, \"license\": 3}").unwrap();
    assert_eq!(m.name, "unknown");
    assert_eq!(m.priority, Some(5));
    assert_eq!(m.license, None);
    assert_eq!(manifest_from_json("[1]").unwrap().priority, None);
    match manifest_from_json("{") {
        Err(PluginError::LoadFailed(msg)) => assert!(msg.starts_with("invalid manifest JSON: ")),
        other => panic!("unexpected {:?}", other),
    }
}

#[test]
fn activate_all_reports_each_plugin() {
    let mut registry = CapabilityRegistry::new();
    registry.register_plugin(Box::new(TestPlugin { manifest: test_manifest("a") }));
    registry.register_plugin(Box::new(TestPlugin { manifest: test_manifest("b") }));
    let results = registry.activate_all();
    assert_eq!(results.len(), 2);
    assert!(results.iter().all(|r| r.is_ok()));
    assert_eq!(registry.plugin_count(), 2);
}

#[test]
fn manifest_plugins_activate_and_keep_their_manifest() {
    let mut registry = CapabilityRegistry::new();
    registry.register_plugin(ManifestPlugin::new(test_manifest("plain")));
    let p = ManifestPlugin::new(test_manifest("other"));
    assert_eq!(p.manifest().name, "other");
    assert!(p.activate().is_ok());
    assert!(p.deactivate().is_ok());
    registry.register_plugin(p);
    assert_eq!(registry.activate_all(), vec![Ok(()), Ok(())]);
    assert_eq!(registry.list_plugins()[1].name, "other");
}
