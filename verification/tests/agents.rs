use swarmonomicon::agents::archive::{commit_message_from_reply, commit_plan, parse_archive_command, ArchiveCommand, CommitPlan};
use swarmonomicon::agents::balena::{command_output_text, parse_fleet_command, BalenaWrapperAgent, FleetCommand};
use swarmonomicon::agents::git::{format_git_response, parse_git_command, parse_git_message, GitCommand};
use swarmonomicon::agents::greeter::{GreeterAgent, GreetingAction};
use swarmonomicon::agents::haiku::{
    check_haiku, count_syllables, syllable_excess, syllable_pattern, HaikuAgent, HaikuCheck, HaikuSearch, HaikuTurn,
};
use swarmonomicon::agents::project_init::{
    classification_metadata, common_project_layout, project_received_reply, python_project_layout, readme_content,
    ProjectInitAgent,
};
use swarmonomicon::agents::registry::{agent_kind, default_agents, AgentKind, AgentRegistry, AgentWrapper};
use swarmonomicon::agents::user_agent::{TodoStatus, UserAgent};
use swarmonomicon::ai::{
    enhancement_requests, enhancement_result, new_ai_client, parse_priority, project_agent_projects,
    project_classification_request, trim, verified_project_in, verify_project, GooseClient, LocalAiClient,
};
use swarmonomicon::error::SwarmError;
use swarmonomicon::learning::personality::{prompt_modifier, TraitLevel};
use swarmonomicon::rl::action::Action;
use swarmonomicon::rl::flappy::FlappyBirdAction;
use swarmonomicon::learning::routing::{decide_routing, RoutingAction, RoutingState};
use swarmonomicon::types::{AgentConfig, Message, State, StateMachine, TaskPriority};

fn config(name: &str, downstream: &[&str]) -> AgentConfig {
    AgentConfig {
        name: name.to_string(),
        public_description: format!("{} agent", name),
        instructions: "Help the user".to_string(),
        tools: vec![],
        downstream_agents: downstream.iter().map(|s| s.to_string()).collect(),
        personality: None,
        state_machine: None,
    }
}

#[test]
fn greeter_hands_over_on_exact_names() {
    let g = GreeterAgent::with_transfer_states(config("greeter", &["project", "git", "haiku"]));
    let m = g.process_message(&Message::new("git".to_string()));
    assert_eq!(m.content, "🌳 Transferring you to the Git Assistant...");
    let md = m.metadata.unwrap();
    assert_eq!(md.transfer_target.as_deref(), Some("git"));
    assert_eq!(md.state.as_deref(), Some("git_transfer"));
    let hello = g.process_message(&Message::new("hi".to_string()));
    assert!(hello.content.contains("Hello"));
    assert_eq!(hello.metadata.unwrap().state.as_deref(), Some("awaiting_input"));
}

#[test]
fn greeter_without_state_always_greets() {
    let g = GreeterAgent::new(config("greeter", &["haiku"]));
    let m = g.process_message(&Message::new("haiku".to_string()));
    assert!(m.content.contains("Hello"));
    let md = m.metadata.unwrap();
    assert_eq!(md.agent, "greeter");
    assert!(md.personality_traits.is_some());
    assert!(md.transfer_target.is_none());
}

#[test]
fn greeter_transfers_only_downstream() {
    let g = GreeterAgent::new(config("greeter", &["haiku"]));
    let ok = g.transfer_to("haiku".to_string(), Message::new("x".to_string())).unwrap();
    assert_eq!(ok.metadata.unwrap().transfer_target.as_deref(), Some("haiku"));
    match g.transfer_to("nope".to_string(), Message::new("x".to_string())) {
        Err(SwarmError::Agent(e)) => assert_eq!(e, "Cannot transfer to unknown agent: nope"),
        _ => panic!("transfer to an unknown agent must fail"),
    }
    assert_eq!(GreeterAgent::should_transfer("Haiku").as_deref(), Some("haiku"));
    assert_eq!(GreeterAgent::should_transfer("haiku please"), None);
    assert_eq!(GreeterAgent::transfer_target("I love POETRY").as_deref(), Some("haiku"));
    assert_eq!(GreeterAgent::transfer_target("start a new project").as_deref(), Some("project-init"));
}

#[test]
fn haiku_conversation_follows_state_machine() {
    let mut agent = HaikuAgent::new(config("haiku", &[]));
    match agent.process_message("nature").unwrap() {
        HaikuTurn::Reply(m) => {
            assert_eq!(m.content, "🎋 Weaving your thoughts into digital poetry...");
            assert_eq!(m.metadata.unwrap().state.as_deref(), Some("generating"));
        }
        HaikuTurn::Compose(_) => panic!("expected a reply"),
    }
    match agent.process_message("nature").unwrap() {
        HaikuTurn::Compose(topic) => assert_eq!(topic, "nature"),
        HaikuTurn::Reply(_) => panic!("expected a composition"),
    }
    let m = agent.haiku_generated("a\nb\nc".to_string()).unwrap();
    assert_eq!(m.content, "a\nb\nc");
    assert_eq!(m.metadata.unwrap().state.as_deref(), Some("complete"));
    match agent.process_message("maybe").unwrap() {
        HaikuTurn::Reply(m) => assert_eq!(m.content, "Please respond with 'yes' to continue or 'no' to conclude."),
        _ => panic!(),
    }
    match agent.process_message("NO").unwrap() {
        HaikuTurn::Reply(m) => assert_eq!(m.metadata.unwrap().state.as_deref(), Some("goodbye")),
        _ => panic!(),
    }
    match agent.process_message("hello").unwrap() {
        HaikuTurn::Reply(m) => assert_eq!(m.content, "Farewell, seeker of digital poetry."),
        _ => panic!(),
    }
    match agent.haiku_generated("x".to_string()) {
        Err(SwarmError::State(e)) => assert_eq!(e, "Failed to transition to complete state"),
        _ => panic!("goodbye has no transitions"),
    }
}

#[test]
fn haiku_validation_and_search() {
    assert_eq!(count_syllables("Digital petals fall"), 6);
    assert_eq!(syllable_pattern("  aaaaa\neeeeeee\nooooo \n"), vec![5, 7, 5]);
    assert!(matches!(check_haiku("aaaaa\neeeeeee\nooooo".to_string()), Ok(HaikuCheck::Accept(_))));
    match check_haiku("one line".to_string()) {
        Err(SwarmError::Agent(e)) => assert_eq!(e, "Generated haiku does not have 3 lines"),
        _ => panic!(),
    }
    let search = match check_haiku("aaaaaaa\neeeeeeeee\nooooooo".to_string()).unwrap() {
        HaikuCheck::Retry(s) => s,
        _ => panic!(),
    };
    assert_eq!(syllable_excess(&search.best_syllables), Some(6));
    assert_eq!(syllable_excess(&vec![4, 7, 5]), None);
    let search = match search.offer("aaaaaa\neeeeeee\nooooo".to_string()) {
        HaikuCheck::Retry(s) => s,
        _ => panic!(),
    };
    assert_eq!(search.best_attempt, "aaaaaa\neeeeeee\nooooo");
    assert_eq!(search.retries, 1);
    let mut s: HaikuSearch = search;
    for _ in 0..3 {
        s = match s.offer("aaaaaaaaa\neeeeeee\nooooo".to_string()) {
            HaikuCheck::Retry(next) => next,
            _ => panic!(),
        };
    }
    match s.offer("aaaaaaaaa\neeeeeee\nooooo".to_string()) {
        HaikuCheck::Accept(h) => assert_eq!(h, "aaaaaa\neeeeeee\nooooo"),
        _ => panic!("the limit is reached"),
    }
}

#[test]
fn git_commands_are_parsed_and_invoked() {
    assert!(matches!(parse_git_command(""), GitCommand::Help));
    assert!(matches!(parse_git_command("help"), GitCommand::Help));
    match parse_git_message("  COMMIT fix the   bug ") {
        GitCommand::Commit(m) => assert_eq!(m, "fix the bug"),
        other => panic!("{:?}", other),
    }
    let add = parse_git_command("add a.rs b.rs");
    assert_eq!(add.git_invocation(), Some(vec!["add".to_string(), "a.rs".to_string(), "b.rs".to_string()]));
    assert_eq!(
        parse_git_command("commit").git_invocation(),
        Some(vec!["commit".to_string(), "-m".to_string(), "archival".to_string()])
    );
    assert_eq!(
        parse_git_command("branch feature").git_invocation(),
        Some(vec!["checkout".to_string(), "-b".to_string(), "feature".to_string()])
    );
    assert_eq!(parse_git_command("frobnicate").git_invocation(), None);
}

#[test]
fn git_replies_depend_on_outcome() {
    let status = parse_git_command("status");
    assert_eq!(status.reply(&Ok(String::new())), "🌌 This dimension appears to lack a temporal nexus. Initialize one with 'init'");
    assert_eq!(status.reply(&Ok("clean".to_string())), "🔮 Quantum State Analysis:\nclean");
    let merge = parse_git_command("merge dev");
    assert_eq!(merge.reply(&Ok("done".to_string())), "🌊 Converging timeline dev with current timeline\ndone");
    assert_eq!(merge.reply(&Err("x".to_string())), "⚠️ Timeline convergence failed. Are both realities compatible?");
    let unknown = parse_git_command("rewind time");
    assert_eq!(unknown.reply(&Ok(String::new())), "❓ Unknown temporal operation: rewind time. Use 'help' to see available commands.");
    assert!(parse_git_command("help").reply(&Ok(String::new())).contains("Available timeline manipulation commands"));
    let m = format_git_response("git", "text".to_string());
    assert_eq!(m.role.as_deref(), Some("assistant"));
    assert!(m.timestamp.unwrap() > 1_600_000_000);
    assert_eq!(m.metadata.unwrap().personality_traits.unwrap(), vec!["git_expert", "precise", "helpful"]);
}

#[test]
fn fleet_commands_are_parsed() {
    match parse_fleet_command("push myapp") {
        FleetCommand::Run(args) => assert_eq!(args, vec!["push".to_string(), "myapp".to_string()]),
        _ => panic!(),
    }
    assert!(matches!(parse_fleet_command(""), FleetCommand::Help));
    assert!(matches!(parse_fleet_command("push"), FleetCommand::Unknown));
    assert_eq!(BalenaWrapperAgent::fleet_prefix("Push SUCCESS"), "✅ Operation Complete: ");
    let agent = BalenaWrapperAgent::new(config("balena", &[]));
    let help = agent.get_help_message();
    assert!(help.content.contains("Fleet Command Center"));
    assert!(help.content.contains("devices"));
}

#[test]
fn registry_tracks_agents_and_transfers() {
    let mut reg: AgentRegistry<u32> = AgentRegistry::new();
    reg.register("greeter".to_string(), 1);
    reg.register("haiku".to_string(), 2);
    assert!(reg.agent_exists("haiku"));
    assert_eq!(reg.get("greeter"), Some(&1));
    assert!(reg.get("git").is_none());
    assert!(reg.transfer("greeter", "haiku").is_ok());
    assert_eq!(reg.get_current_agent(), Some("haiku"));
    assert!(reg.transfer("greeter", "git").is_err());
    assert_eq!(reg.iter().len(), 2);
    assert!(!default_agents().is_empty());
}

#[test]
fn routing_classifies_intents() {
    assert_eq!(RoutingState::classify_intent("Hello there"), "greeting");
    assert_eq!(RoutingState::classify_intent("please commit"), "git_help");
    assert_eq!(RoutingState::classify_intent("create a project"), "project_init");
    assert_eq!(RoutingState::classify_intent("write poetry"), "creative");
    assert_eq!(RoutingState::classify_intent("what now"), "general");
    assert_eq!(decide_routing("greeter", "make a haiku"), "haiku");
    assert_eq!(decide_routing("greeter", "what now"), "greeter");
    assert_eq!(RoutingAction::from_index(2), Some(RoutingAction::TransferToGit));
    assert_eq!(RoutingAction::TransferToProject.to_agent_name("x"), "project");
}

#[test]
fn user_agent_manages_todos() {
    let mut u = UserAgent::new(config("user", &[]));
    u.add_todo("commit the code".to_string(), None, 10);
    u.add_todo("write a poem".to_string(), None, 11);
    assert_eq!(u.get_next_pending_todo(), Some(0));
    u.mark_todo_completed(0, 12);
    assert!(matches!(u.todos[0].status, TodoStatus::Completed));
    assert_eq!(u.get_next_pending_todo(), Some(1));
    assert_eq!(UserAgent::determine_next_agent(&u.todos[0]).as_deref(), Some("git"));
    u.update_last_processed(20);
    assert_eq!(u.get_last_processed(), Some(20));
}

#[test]
fn ai_clients_and_answers() {
    let c = LocalAiClient::new().with_model("m".to_string());
    let p = c.format_prompt("sys", &vec![vec![("role".to_string(), "user".to_string()), ("content".to_string(), "hi".to_string())]]);
    assert!(p.contains("hi"));
    let g = GooseClient::new();
    let gp = g.format_prompt("sys", &vec![vec![("role".to_string(), "user".to_string()), ("content".to_string(), "hi".to_string())]]);
    assert_eq!(gp, "System: sys\n\nuser: hi\n");
    let _ = new_ai_client();
    assert_eq!(parse_priority("  HIGH \n"), TaskPriority::High);
    assert_eq!(parse_priority("whatever"), TaskPriority::Medium);
    assert_eq!(trim("  x y  "), "x y");
    let _ = verify_project("madness_interactive");
}

#[test]
fn test_project_init_agent() {
    let agent = ProjectInitAgent::new(config("project-init", &[]));
    let response = agent.process_message(Message::new("create new rust project".to_string()));
    assert!(response.content.contains("Processing project init request"));
    assert!(response.metadata.is_none());
    let mut with_meta = Message::new("go".to_string());
    with_meta.metadata = Some(swarmonomicon::types::MessageMetadata::new("user".to_string()));
    let r = agent.process_message(with_meta);
    assert_eq!(r.metadata.unwrap().state.as_deref(), Some("initial"));
    assert!(agent.get_current_state().is_none());
}

#[test]
fn project_layouts_and_readme() {
    let readme = readme_content("demo", "A demo.", "rust");
    assert!(readme.starts_with("# demo\n\nA demo.\n\n## Overview\n\nThis is a rust project"));
    assert!(readme.contains("cargo build"));
    assert!(!readme_content("demo", "A demo.", "common").contains("cargo"));
    let (dirs, files) = python_project_layout("pkg", "Pkg.");
    assert_eq!(dirs, vec!["src", "src/pkg", "src/tests"]);
    assert_eq!(files[0].0, "src/pkg/__init__.py");
    assert!(files[3].1.contains("name=\"pkg\""));
    assert!(files[4].1.contains("pip install"));
    let (dirs, files) = common_project_layout("c", "C.");
    assert_eq!(dirs, vec!["src", "docs", "examples"]);
    assert_eq!(files.len(), 1);
}

#[test]
fn agent_kinds_by_name() {
    assert!(matches!(agent_kind("haiku"), Ok(AgentKind::Haiku)));
    assert!(matches!(agent_kind("browser"), Ok(AgentKind::Browser)));
    match agent_kind("wizard") {
        Err(SwarmError::Agent(e)) => assert_eq!(e, "Unknown agent type: wizard"),
        _ => panic!(),
    }
}

#[test]
fn fleet_output_text_marks_errors() {
    assert_eq!(command_output_text(true, "ok", "warn"), "ok");
    assert_eq!(command_output_text(false, "ok", "boom"), "Error: boom");
}

#[test]
fn project_agent_answers_and_classifies() {
    let projects = project_agent_projects();
    assert_eq!(projects.len(), 16);
    assert_eq!(verified_project_in(" \"Node_Red_Contrib_File_Template\" ", &projects), "node_red_contrib_file_template");
    assert_eq!(verified_project_in("'unknown'", &projects), "madness_interactive");
    assert_eq!(verify_project("node_red_contrib_file_template"), "madness_interactive");
    let r = project_received_reply(&None, Message::new("hello".to_string()));
    assert_eq!(r.content, "Project agent received: hello");
    let md = classification_metadata(&Some("busy".to_string()));
    assert_eq!(md.agent, "project_classifier");
    assert_eq!(md.state.as_deref(), Some("busy"));
}

#[test]
fn personality_guidelines_follow_levels() {
    assert_eq!(
        prompt_modifier(TraitLevel::High, TraitLevel::Low, TraitLevel::Neutral, TraitLevel::Neutral),
        "\n\nPersonality guidelines: Be warm and friendly. Be concise and to-the-point"
    );
    assert_eq!(prompt_modifier(TraitLevel::Neutral, TraitLevel::Neutral, TraitLevel::Neutral, TraitLevel::Neutral), "");
    assert!(prompt_modifier(TraitLevel::Low, TraitLevel::High, TraitLevel::Low, TraitLevel::High)
        .ends_with("Maintain a serious, professional tone. Use technical terminology and detailed explanations"));
}

#[test]
fn api_agents_and_responses() {
    let agents = swarmonomicon::api::default_agents();
    assert_eq!(agents.len(), 5);
    assert_eq!(agents[0].downstream_agents, vec!["haiku".to_string()]);
    assert!(agents[0].instructions.contains("transfer them to the 'haiku' agent"));
    let r = swarmonomicon::api::agent_response(&agents[1]);
    assert_eq!((r.name.as_str(), r.description.as_str()), ("haiku", "Agent that creates haikus."));
    let w = AgentWrapper::new(7u8);
    assert_eq!(w.inner, 7);
    assert_eq!(w.check_interval_seconds(), 60);
}

#[test]
fn actions_are_numbered() {
    assert_eq!(<FlappyBirdAction as Action>::to_index(&FlappyBirdAction::DoNothing), 1);
    assert_eq!(<RoutingAction as Action>::from_index(4), Some(RoutingAction::TransferToHaiku));
    assert_eq!(<RoutingAction as Action>::from_index(5), None);
}

#[test]
fn balena_wrapper_test_help_message() {
    let agent = BalenaWrapperAgent::new(config("balena", &[]));
    let response = match parse_fleet_command("help") {
        FleetCommand::Help => agent.get_help_message(),
        _ => panic!("help is a fleet command"),
    };
    assert!(response.content.contains("Fleet Command Center"));
    assert!(response.content.contains("devices"));
    assert!(response.content.contains("push"));
}

#[test]
fn registry_iter_lists_each_name_once() {
    let mut reg: AgentRegistry<u32> = AgentRegistry::new();
    reg.register("greeter".to_string(), 1);
    reg.register("greeter".to_string(), 2);
    let names: Vec<&String> = reg.iter().iter().map(|(k, _)| k).collect();
    assert_eq!(names, vec!["greeter"]);
}

#[test]
fn greeting_hands_over_or_asks_the_model() {
    let greeter = GreeterAgent::new(config("greeter", &[]));
    match greeter.handle_greeting("Create a git haiku") {
        GreetingAction::Reply(m) => {
            assert_eq!(m.content, "Let me transfer you to our haiku specialist...");
            assert_eq!(m.metadata.unwrap().transfer_target, Some("haiku".to_string()));
        }
        _ => panic!("a haiku request is handed over"),
    }
    match greeter.handle_greeting("Hello there") {
        GreetingAction::AskModel { system_prompt, messages } => {
            assert!(system_prompt.starts_with("You are a friendly AI greeter assistant named greeter. Your role is to: 1. Welcome"));
            assert!(system_prompt.ends_with("Be concise but friendly in your responses."));
            assert_eq!(messages.len(), 1);
            assert_eq!(messages[0][1], ("content".to_string(), "Hello there".to_string()));
        }
        _ => panic!("a plain greeting goes to the model"),
    }
    let reply = GreeterAgent::model_reply("Welcome!".to_string());
    assert_eq!(reply.content, "Welcome!");
    let meta = reply.metadata.unwrap();
    assert_eq!(meta.personality_traits.unwrap(), vec!["friendly", "helpful"]);
    assert!(meta.transfer_target.is_none());
}

#[test]
fn enhancement_asks_three_questions_in_order() {
    let r = enhancement_requests("fix login");
    assert_eq!(r.len(), 3);
    assert_eq!(r[0].user_content, format!("Enhance this {}: fix login", "task"));
    assert!(r[0].system_prompt.starts_with("You are a task enhancement and planning system."));
    assert_eq!(r[1].user_content, "Classify priority: fix login");
    assert!(r[1].system_prompt.starts_with("You are a task priority classifier."));
    assert_eq!(r[2].user_content, format!("Which project does this {} belong to? fix login", "task"));
    assert!(r[2].system_prompt.ends_with("If you're unsure, default to \"madness_interactive\"."));
    let (d, p, j) = enhancement_result("Steps...".to_string(), "  HIGH\n", " \"Swarmonomicon\" ");
    assert_eq!(d, "Steps...");
    assert!(matches!(p, TaskPriority::High));
    assert_eq!(j, "swarmonomicon");
    let (_, p2, j2) = enhancement_result(String::new(), "urgent", "unknown");
    assert!(matches!(p2, TaskPriority::Medium));
    assert_eq!(j2, "madness_interactive");
}

#[test]
fn project_agent_request_names_the_task() {
    let r = project_classification_request("write docs");
    assert_eq!(r.user_content, format!("Which project does this {} belong to? write docs", "task"));
    assert!(r.system_prompt.contains("node_red_contrib_file_template"));
}

#[test]
fn mod_test_help_message() {
    let reply = format_git_response("git", parse_git_message("help").reply(&Ok(String::new())));
    assert!(reply.content.contains("Quantum"));
    assert!(reply.content.contains("commands"));
    assert_eq!(reply.role, Some("assistant".to_string()));
}

fn test_state(name: &str, prompt: &str, transitions: &[(&str, &str)]) -> (String, State) {
    (
        name.to_string(),
        State {
            name: name.to_string(),
            data: None,
            prompt: Some(prompt.to_string()),
            transitions: if transitions.is_empty() {
                None
            } else {
                Some(transitions.iter().map(|(e, t)| (e.to_string(), t.to_string())).collect())
            },
            validation: None,
        },
    )
}

#[test]
fn test_state_transitions() {
    let mut cfg = config("haiku", &[]);
    cfg.public_description = "Test haiku agent".to_string();
    cfg.instructions = "Test haiku generation".to_string();
    cfg.state_machine = Some(StateMachine {
        states: vec![
            test_state("awaiting_topic", "What shall we write about?", &[("topic_received", "generating")]),
            test_state("generating", "Generating your haiku...", &[("haiku_generated", "complete"), ("error", "error")]),
            test_state("complete", "Would you like another haiku?", &[("yes", "awaiting_topic"), ("no", "goodbye")]),
            test_state(
                "error",
                "An error occurred. Would you like to try again?",
                &[("yes", "awaiting_topic"), ("no", "goodbye")],
            ),
            test_state("goodbye", "Farewell, seeker of digital poetry.", &[]),
        ],
        initial_state: "awaiting_topic".to_string(),
    });
    let mut agent = HaikuAgent::new(cfg);

    // Initial state
    assert_eq!(agent.state_manager.get_current_state().unwrap().name, "awaiting_topic");

    // Topic received
    match agent.process_message("nature").unwrap() {
        HaikuTurn::Reply(m) => {
            assert!(m.content.contains("Generating"), "Should transition to generating state");
            assert_eq!(m.role.as_deref(), Some("assistant"));
            assert!(m.timestamp.is_some());
        }
        HaikuTurn::Compose(_) => panic!("expected a reply"),
    }
    assert_eq!(agent.state_manager.get_current_state().unwrap().name, "generating");

    // The haiku is composed and reported
    assert!(matches!(agent.process_message("continue").unwrap(), HaikuTurn::Compose(_)));
    agent.haiku_generated("a\nb\nc".to_string()).unwrap();
    assert_eq!(agent.state_manager.get_current_state().unwrap().name, "complete");

    // Request another haiku
    match agent.process_message("YES").unwrap() {
        HaikuTurn::Reply(m) => assert!(m.content.contains("What shall we"), "Should transition back to awaiting_topic"),
        _ => panic!(),
    }
    assert_eq!(agent.state_manager.get_current_state().unwrap().name, "awaiting_topic");

    // End the conversation
    agent.process_message("space").unwrap();
    assert!(matches!(agent.process_message("space").unwrap(), HaikuTurn::Compose(_)));
    agent.haiku_generated("a\nb\nc".to_string()).unwrap();
    match agent.process_message("no").unwrap() {
        HaikuTurn::Reply(m) => assert!(m.content.contains("Farewell"), "Should transition to goodbye state"),
        _ => panic!(),
    }
    assert_eq!(agent.state_manager.get_current_state().unwrap().name, "goodbye");
}

#[test]
fn archive_commands_and_replies() {
    assert!(matches!(parse_archive_command("   "), ArchiveCommand::Help));
    assert!(parse_archive_command("").reply(&Ok(String::new()), "").starts_with("Welcome to the Temporal Version Archives!"));
    match parse_archive_command("cd my dir") {
        ArchiveCommand::Cd(p) => assert_eq!(p, "my dir"),
        _ => panic!(),
    }
    let cd = parse_archive_command("cd /nowhere");
    assert_eq!(cd.reply(&Err("Invalid working directory path".to_string()), ""), "Timeline sector inaccessible: Invalid working directory path");
    let unknown = parse_archive_command("cd");
    assert_eq!(unknown.reply(&Ok(String::new()), ""), "Unknown temporal operation: cd. Use 'help' for available commands.");
    let status = parse_archive_command("status");
    assert_eq!(status.git_invocation("").unwrap(), vec!["status", "--porcelain"]);
    assert_eq!(status.reply(&Ok(String::new()), ""), "The timeline is stable. No quantum fluctuations detected.");
    assert_eq!(status.reply(&Ok(" M a.rs".to_string()), ""), "Temporal anomalies detected:\n M a.rs");
    let add = parse_archive_command("add a.rs b.rs");
    assert_eq!(add.git_invocation("").unwrap(), vec!["add", "a.rs b.rs"]);
    let commit = parse_archive_command("commit");
    assert_eq!(commit.git_invocation("fix: x").unwrap(), vec!["commit", "-m", "fix: x"]);
    assert_eq!(commit.reply(&Ok(String::new()), "fix: x"), "Quantum state marker created: fix: x");
    assert_eq!(
        parse_archive_command("merge dev").reply(&Ok(String::new()), ""),
        "Converged quantum realities: dev merged into current timeline"
    );
    match commit_plan("diff --git a/x b/x\n+1") {
        CommitPlan::Ask(q) => {
            assert!(q.system_prompt.starts_with("You are a helpful assistant that generates clear and concise git commit messages."));
            assert!(q.user_content.ends_with("'NEED_MORE_CONTEXT':\n\ndiff --git a/x b/x\n+1"));
        }
        _ => panic!(),
    }
    let big = "diff --git a b\n".repeat(300);
    match commit_plan(&big) {
        CommitPlan::Fixed(m) => assert!(m.starts_with("feat: large update (300 files changed)\n\nLarge changeset detected.")),
        _ => panic!(),
    }
    assert_eq!(
        commit_message_from_reply("NEED_MORE_CONTEXT".to_string()),
        "Please provide a commit message. The changes are too complex for automatic generation."
    );
    assert_eq!(commit_message_from_reply("feat: y".to_string()), "feat: y");
}
