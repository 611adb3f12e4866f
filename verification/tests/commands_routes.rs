use ssmt::commands::{plugin_registry_snapshot, plugin_ui_routes, set_plugin_enabled, snapshot, ui_routes};
use ssmt::manifest::{
    PluginCompatibility, PluginContributions, PluginManifest, UiPageContribution,
};
use ssmt::registry::{PluginRegistry, RegistryState};

fn manifest(id: &str, route: &str) -> PluginManifest {
    PluginManifest {
        schema_version: 1,
        id: id.to_string(),
        name: "Pages".to_string(),
        version: "1.0.0".to_string(),
        author: "Test".to_string(),
        compatibility: PluginCompatibility { ssmt: ">=4.0.0".to_string(), platforms: vec!["windows-x64".to_string()] },
        contributions: PluginContributions {
            runtime_plugins: Vec::new(),
            launcher_adapters: Vec::new(),
            external_managers: Vec::new(),
            ui_pages: vec![UiPageContribution { id: "page".to_string(), route: route.to_string(), path: "ui/index.html".to_string() }],
        },
        external_dependencies: Vec::new(),
        permissions: Vec::new(),
    }
}

fn registry(pages: &[(&str, &str)]) -> PluginRegistry {
    let mut registry = PluginRegistry::new("/p".to_string(), RegistryState::empty());
    for (id, route) in pages {
        registry
            .admit_package(Some(id.to_string()), Some("1.0.0".to_string()), format!("/p/{id}/1.0.0"), manifest(id, route), Vec::new())
            .unwrap();
    }
    registry
}

#[test]
fn enabled_pages_become_routes() {
    let mut registry = registry(&[("ssmt.a", "/plugins/a"), ("ssmt.b", "/plugins/b")]);
    assert!(ui_routes(&registry).is_empty());
    registry.set_enabled("ssmt.b", true).unwrap();
    let routes = ui_routes(&registry);
    assert_eq!(routes.len(), 1);
    assert_eq!(routes[0].plugin_id, "ssmt.b");
    assert_eq!(routes[0].plugin_version, "1.0.0");
    assert_eq!(routes[0].route, "/plugins/b");
    assert_eq!(routes[0].package_path, "ui/index.html");
    assert_eq!(plugin_ui_routes(&registry).unwrap().len(), 1);
}

#[test]
fn duplicate_enabled_routes_are_refused() {
    let mut registry = registry(&[("ssmt.a", "/plugins/same"), ("ssmt.b", "/plugins/same")]);
    registry.set_enabled("ssmt.a", true).unwrap();
    assert!(plugin_ui_routes(&registry).is_ok());
    registry.set_enabled("ssmt.b", true).unwrap();
    assert_eq!(
        plugin_ui_routes(&registry).unwrap_err(),
        "duplicate enabled plugin UI route: /plugins/same"
    );
}

#[test]
fn snapshots_list_every_package() {
    let mut registry = registry(&[("ssmt.a", "/a"), ("ssmt.b", "/b")]);
    let listed = set_plugin_enabled(&mut registry, "ssmt.a", true).unwrap();
    assert_eq!(listed.len(), 2);
    assert!(listed[0].enabled);
    assert!(!listed[1].enabled);
    assert_eq!(listed[1].manifest.id, "ssmt.b");
    assert_eq!(snapshot(&registry).len(), 2);
    assert_eq!(plugin_registry_snapshot(&registry).unwrap().len(), 2);
    assert_eq!(
        set_plugin_enabled(&mut registry, "ssmt.none", true).unwrap_err(),
        "plugin not found: ssmt.none"
    );
}
