use swarmonomicon::config::{get_transfer_tool, AgentSet, ConfigManager};
use swarmonomicon::types::{AgentConfig, Tool};

fn create_test_agent_set() -> AgentSet {
    AgentSet {
        name: "test_set".to_string(),
        description: "Test agent set".to_string(),
        agents: vec![AgentConfig {
            name: "greeter".to_string(),
            public_description: "Greets users".to_string(),
            instructions: "Greet the user".to_string(),
            tools: vec![],
            downstream_agents: vec!["haiku".to_string()],
            personality: None,
            state_machine: None,
        }],
    }
}

#[test]
fn test_config_manager() {
    let mut manager = ConfigManager::new();
    let agent_set = create_test_agent_set();
    manager.register_agent_set(agent_set);

    let retrieved = manager.get_agent_set("test_set").unwrap();
    assert_eq!(retrieved.name, "test_set");
    assert_eq!(retrieved.agents.len(), 1);
}

#[test]
fn test_inject_transfer_tools() {
    let mut manager = ConfigManager::new();
    let mut agent_set = create_test_agent_set();

    manager.inject_transfer_tools(&mut agent_set).unwrap();

    let agent = &agent_set.agents[0];
    assert_eq!(agent.tools.len(), 1);
    assert_eq!(agent.tools[0].name, "agent_transfer");
}

#[test]
fn agents_without_downstream_get_no_transfer_tool() {
    let mut manager = ConfigManager::new();
    let mut agent_set = create_test_agent_set();
    agent_set.agents[0].downstream_agents.clear();
    manager.inject_transfer_tools(&mut agent_set).unwrap();
    assert!(agent_set.agents[0].tools.is_empty());
}

#[test]
fn unknown_agent_set_is_absent_and_registration_replaces() {
    let mut manager = ConfigManager::new();
    assert!(manager.get_agent_set("test_set").is_none());
    manager.register_agent_set(create_test_agent_set());
    let mut second = create_test_agent_set();
    second.description = "Second".to_string();
    manager.register_agent_set(second);
    assert_eq!(manager.get_agent_set("test_set").unwrap().description, "Second");
}

#[test]
fn tool_templates_are_kept_by_name() {
    let mut manager = ConfigManager::new();
    let tool = Tool { name: "t".to_string(), description: "d".to_string(), parameters: vec![] };
    manager.register_tool_template("t".to_string(), tool);
    assert_eq!(manager.get_tool_template("t").unwrap().description, "d");
    assert!(manager.get_tool_template("u").is_none());
}

#[test]
fn transfer_tool_has_target_parameter() {
    let t = get_transfer_tool();
    assert_eq!(t.name, "agent_transfer");
    assert_eq!(t.parameters.len(), 1);
    assert_eq!(t.parameters[0].0, "target_agent");
    assert_eq!(t.parameters[0].1.param_type, "string");
}
