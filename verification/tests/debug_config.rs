use dscode::debug_config::{
    DebugAdapterDescriptorFactory, DebugConfiguration, DebugConfigurationProvider, DebugConfigurationRegistry,
    LaunchConfiguration,
};

fn provider(id: &str, owner: &str, ty: &str) -> DebugConfigurationProvider {
    DebugConfigurationProvider { id: id.to_string(), owner: owner.to_string(), debug_type: ty.to_string() }
}

fn factory(id: &str, owner: &str, ty: &str) -> DebugAdapterDescriptorFactory {
    DebugAdapterDescriptorFactory { id: id.to_string(), owner: owner.to_string(), debug_type: ty.to_string() }
}

#[test]
fn providers_are_found_by_type_and_removed_by_id() {
    let mut reg = DebugConfigurationRegistry::new();
    assert_eq!(reg.register_debug_configuration_provider(provider("p1", "a", "node")), Ok("p1".to_string()));
    reg.register_debug_configuration_provider(provider("p2", "b", "python")).unwrap();
    reg.register_debug_configuration_provider(provider("p3", "a", "node")).unwrap();
    let node: Vec<String> = reg.get_debug_configuration_providers("node").iter().map(|p| p.id.clone()).collect();
    assert_eq!(node, vec!["p1", "p3"]);
    assert_eq!(reg.unregister_debug_configuration_provider("p1"), Ok(()));
    assert_eq!(
        reg.unregister_debug_configuration_provider("p1"),
        Err("Configuration provider not found: p1".to_string())
    );
    assert_eq!(reg.get_debug_configuration_providers("node").len(), 1);
}

#[test]
fn factories_work_the_same_way() {
    let mut reg = DebugConfigurationRegistry::new();
    reg.register_debug_adapter_descriptor_factory(factory("f1", "a", "lldb")).unwrap();
    assert_eq!(reg.get_debug_adapter_descriptor_factories("lldb").len(), 1);
    assert_eq!(
        reg.unregister_debug_adapter_descriptor_factory("zz"),
        Err("Adapter descriptor factory not found: zz".to_string())
    );
}

#[test]
fn clearing_an_owner_drops_its_providers_and_factories() {
    let mut reg = DebugConfigurationRegistry::new();
    reg.register_debug_configuration_provider(provider("p1", "a", "node")).unwrap();
    reg.register_debug_configuration_provider(provider("p2", "b", "node")).unwrap();
    reg.register_debug_adapter_descriptor_factory(factory("f1", "a", "node")).unwrap();
    reg.clear_debug_configuration_data("a");
    let left: Vec<String> = reg.get_debug_configuration_providers("node").iter().map(|p| p.id.clone()).collect();
    assert_eq!(left, vec!["p2"]);
    assert!(reg.get_debug_adapter_descriptor_factories("node").is_empty());
}

#[test]
fn launch_configurations_are_kept_per_workspace() {
    let mut reg = DebugConfigurationRegistry::new();
    assert_eq!(
        reg.get_launch_configuration("/w").err().unwrap(),
        "No launch configuration for workspace: /w"
    );
    let cfg = DebugConfiguration {
        debug_type: "node".to_string(),
        name: "Launch".to_string(),
        request: "launch".to_string(),
        program: Some("app.js".to_string()),
        args: None,
        cwd: None,
        env: Some(vec![("A".to_string(), "1".to_string())]),
        console: None,
        additional_properties: vec![],
    };
    reg.set_launch_configuration("/w".to_string(), LaunchConfiguration { version: "0.2.0".to_string(), configurations: vec![cfg] })
        .unwrap();
    let got = reg.get_launch_configuration("/w").unwrap();
    assert_eq!(got.version, "0.2.0");
    assert_eq!(got.configurations[0].program.as_deref(), Some("app.js"));
    let all = reg.get_all_launch_configurations();
    assert_eq!(all.len(), 1);
    assert_eq!(all[0].0, "/w");
}
