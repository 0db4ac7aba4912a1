use swarmonomicon::task_intelligence::decomposer::{
    decompose_by_component, decompose_by_increment, decompose_by_layer, decompose_by_phase, extract_components,
    should_decompose, DecompositionStrategy, TaskDecomposer,
};
use swarmonomicon::task_intelligence::dependency_graph::{DependencyGraph, GraphError};
use swarmonomicon::task_intelligence::dependency_learning::{collect_observations, frequent_patterns, DependencyLearner, ExecutionRecord};
use swarmonomicon::task_intelligence::dependency_rules::{
    build_dependency_graph, dedup_by_keywords, default_rules, find_dependencies, sort_by_confidence, TaskDependency,
};
use swarmonomicon::task_intelligence::features::{
    count_substrings, extract_keywords, heuristic_priority, is_keyword_exec, ComplexityBand, TaskFeatures,
};
use swarmonomicon::task_intelligence::smart_todo::{enrich_task, subtask_todo};
use swarmonomicon::task_intelligence::time_estimate::heuristic_estimate;
use swarmonomicon::types::{TaskPriority, TaskStatus, TodoTask};

fn task(id: &str, description: &str, priority: TaskPriority) -> TodoTask {
    TodoTask {
        id: id.to_string(),
        description: description.to_string(),
        enhanced_description: None,
        priority,
        project: None,
        source_agent: None,
        target_agent: "user".to_string(),
        status: TaskStatus::Pending,
        created_at: 0,
        completed_at: None,
        due_date: None,
        duration_minutes: None,
        notes: None,
        ticket: None,
        last_modified: None,
    }
}

/// The complexity estimate of the priority rules: half from word count
/// (capped at fifty words), half from complexity words (capped at three).
fn band_of(f: &TaskFeatures) -> ComplexityBand {
    let length = (f.word_count as f64 / 50.0).min(1.0);
    let keywords = (f.complexity_matches as f64 / 3.0).min(1.0);
    let c = (length * 0.5 + keywords * 0.5).min(1.0);
    if c > 0.7 {
        ComplexityBand::High
    } else if c > 0.6 {
        ComplexityBand::Moderate
    } else {
        ComplexityBand::Low
    }
}

#[test]
fn test_dependency_graph() {
    let mut graph = DependencyGraph::new();

    graph.add_edge("task1".to_string(), "task2".to_string());
    graph.add_edge("task2".to_string(), "task3".to_string());
    graph.add_edge("task1".to_string(), "task4".to_string());

    let sorted = graph.topological_sort().unwrap();

    let pos1 = sorted.iter().position(|t| t == "task1").unwrap();
    let pos2 = sorted.iter().position(|t| t == "task2").unwrap();
    let pos3 = sorted.iter().position(|t| t == "task3").unwrap();

    assert!(pos1 < pos2);
    assert!(pos2 < pos3);
}

#[test]
fn dependency_graph_sort_lists_every_node_once_in_edge_order() {
    let mut graph = DependencyGraph::new();
    graph.add_node("a".to_string());
    graph.add_edge("b".to_string(), "c".to_string());
    graph.add_edge("a".to_string(), "b".to_string());
    graph.add_node("b".to_string());
    let sorted = graph.topological_sort().unwrap();
    assert_eq!(sorted, vec!["a".to_string(), "b".to_string(), "c".to_string()]);
}

#[test]
fn dependency_graph_cycle_is_refused() {
    let mut graph = DependencyGraph::new();
    graph.add_edge("x".to_string(), "y".to_string());
    graph.add_edge("y".to_string(), "z".to_string());
    graph.add_edge("z".to_string(), "x".to_string());
    let err = graph.topological_sort().unwrap_err();
    assert!(matches!(err, GraphError::CycleDetected));
    assert_eq!(err.message(), "Dependency graph contains cycles");
}

#[test]
fn dependency_graph_self_loop_is_a_cycle() {
    let mut graph = DependencyGraph::new();
    graph.add_edge("x".to_string(), "x".to_string());
    assert!(matches!(graph.topological_sort(), Err(GraphError::CycleDetected)));
}

#[test]
fn empty_dependency_graph_sorts_to_nothing() {
    let graph = DependencyGraph::new();
    assert_eq!(graph.topological_sort().unwrap(), Vec::<String>::new());
}

#[test]
fn test_default_rules() {
    let rules = default_rules();

    assert!(!rules.is_empty());

    let design_rule = rules.iter().find(|r| r.name == "Design before Implementation");
    assert!(design_rule.is_some());

    let rule = design_rule.unwrap();
    assert!(rule.confidence_ppm as f64 / 1_000_000.0 > 0.8);
}

#[test]
fn test_component_extraction() {
    let description = "Integrate the Authentication and Authorization systems";
    let components = extract_components(description);

    assert!(components.contains(&"Authentication".to_string()));
    assert!(components.contains(&"Authorization".to_string()));
}

#[test]
fn components_default_to_core_and_integration() {
    let components = extract_components("wire everything together");
    assert_eq!(components, vec!["core".to_string(), "integration".to_string()]);
}

#[test]
fn test_pattern_matching() {
    let decomposer = TaskDecomposer::new();

    let feature_desc = "Implement new user dashboard feature";
    let features = TaskFeatures::extract(feature_desc);
    let pattern = decomposer.find_best_pattern(&features);

    assert_eq!(pattern.pattern_name, "Feature Implementation");
}

#[test]
fn test_feature_extraction() {
    let description = "Fix critical security vulnerability in authentication ASAP";
    let features = TaskFeatures::extract(description);

    assert!(features.has_urgency_keywords);
    assert!(features.has_security_keywords);
    assert!(features.has_bug_keywords);
    assert!(!features.has_feature_keywords);
    assert!(features.keywords.len() > 0);
    assert!(features.word_count > 0);
}

#[test]
fn feature_extraction_exact_counts() {
    let features = TaskFeatures::extract("Refactor the complex system architecture");
    assert_eq!(features.word_count, 5);
    assert_eq!(features.complexity_matches, 4);
    assert_eq!(
        features.keywords,
        vec!["refactor".to_string(), "complex".to_string(), "system".to_string(), "architecture".to_string()]
    );
}

#[test]
fn test_heuristic_priority() {
    let security_features = TaskFeatures::extract("Fix critical security vulnerability");
    assert_eq!(heuristic_priority(&security_features, band_of(&security_features)), TaskPriority::High);

    let bug_features = TaskFeatures::extract("Fix login bug");
    assert_eq!(heuristic_priority(&bug_features, band_of(&bug_features)), TaskPriority::Medium);

    let feature_features = TaskFeatures::extract("Add new button to UI");
    assert_eq!(heuristic_priority(&feature_features, band_of(&feature_features)), TaskPriority::Low);
}

#[test]
fn heuristic_priority_complexity_bands() {
    let bug = TaskFeatures::extract("Fix login bug");
    assert_eq!(heuristic_priority(&bug, ComplexityBand::High), TaskPriority::High);
    assert_eq!(heuristic_priority(&bug, ComplexityBand::Moderate), TaskPriority::Medium);
    let feature = TaskFeatures::extract("Add new button to UI");
    assert_eq!(heuristic_priority(&feature, ComplexityBand::Moderate), TaskPriority::Medium);
    assert_eq!(heuristic_priority(&feature, ComplexityBand::Low), TaskPriority::Low);
}

#[test]
fn test_keyword_extraction() {
    let description = "Fix the critical security vulnerability in the authentication system";
    let keywords = extract_keywords(description);

    assert!(keywords.contains(&"critical".to_string()));
    assert!(keywords.contains(&"security".to_string()));
    assert!(keywords.contains(&"vulnerability".to_string()));
    assert!(keywords.contains(&"authentication".to_string()));
    assert!(keywords.contains(&"system".to_string()));

    assert!(!keywords.contains(&"the".to_string()));
}

#[test]
fn keywords_are_lower_cased_and_short_words_dropped() {
    assert_eq!(extract_keywords("Add the NEW Login page"), vec!["login".to_string(), "page".to_string()]);
    assert!(is_keyword_exec("with"));
    assert!(!is_keyword_exec("the"));
    assert!(is_keyword_exec("deploy"));
}

#[test]
fn count_substrings_counts_each_needle_once() {
    assert_eq!(count_substrings("implement a system system", &["system", "implement", "migrate"]), 2);
}

#[test]
fn decomposition_by_phase_is_ordered() {
    let t = task("t1", "Add feature export", TaskPriority::High);
    let f = TaskFeatures::extract(&t.description);
    let plan = decompose_by_phase(&t, &f);
    assert!(plan.len() >= 3);
    for (i, s) in plan.iter().enumerate() {
        assert_eq!(s.order, i);
        for d in &s.depends_on {
            assert!(*d < i);
        }
    }
}

#[test]
fn decomposition_plans_chain_dependencies() {
    let t = task("t1", "connect Billing and Reports", TaskPriority::Medium);
    let by_component = decompose_by_component(&t);
    assert_eq!(by_component.len(), 3);
    assert!(by_component[2].depends_on.contains(&0));
    assert!(by_component[2].depends_on.contains(&1));
    let by_increment = decompose_by_increment(&t);
    assert_eq!(by_increment.len(), 3);
    let by_layer = decompose_by_layer(&t);
    assert_eq!(by_layer.len(), 4);
    assert_eq!(by_layer[3].order, 3);
}

#[test]
fn decomposer_counts_decompositions() {
    let mut d = TaskDecomposer::new();
    assert_eq!(d.get_decomposition_count(), 0);
    let t = task("t1", "Implement new user dashboard feature", TaskPriority::Medium);
    let plan = d.decompose(&t);
    assert!(!plan.is_empty());
    assert_eq!(d.get_decomposition_count(), 1);
    let _ = DecompositionStrategy::NoDecomposition;
}

#[test]
fn short_simple_tasks_are_not_decomposed() {
    let t = task("t1", "Update README", TaskPriority::Low);
    assert!(!should_decompose(&t, ComplexityBand::Low));
}

#[test]
fn dependencies_follow_rules_and_sort_by_confidence() {
    let rules = default_rules();
    let deps = find_dependencies(&rules, "Implement the login feature", &Vec::new());
    assert!(!deps.is_empty());
    for w in deps.windows(2) {
        assert!(w[0].confidence_ppm >= w[1].confidence_ppm);
    }
}

#[test]
fn sorting_dependencies_is_stable_and_dedup_keeps_first() {
    let mk = |d: &str, k: &str, c: u32| TaskDependency {
        prerequisite_description: d.to_string(),
        prerequisite_keywords: vec![k.to_string()],
        confidence_ppm: c,
        typical_gap_hours: 24,
    };
    let sorted = sort_by_confidence(vec![mk("a", "x", 5), mk("b", "y", 9), mk("c", "x", 5)]);
    let order: Vec<&str> = sorted.iter().map(|d| d.prerequisite_description.as_str()).collect();
    assert_eq!(order, vec!["b", "a", "c"]);
    let deduped = dedup_by_keywords(sorted);
    let order: Vec<&str> = deduped.iter().map(|d| d.prerequisite_description.as_str()).collect();
    assert_eq!(order, vec!["b", "a"]);
}

#[test]
fn dependency_graph_from_tasks_links_design_to_implementation() {
    let rules = default_rules();
    let tasks = vec![
        task("impl", "Implement the payment module", TaskPriority::Medium),
        task("design", "Design the payment module", TaskPriority::Medium),
    ];
    let graph = build_dependency_graph(&rules, &tasks);
    let order = graph.topological_sort().unwrap();
    assert_eq!(order.len(), 2);
}

/// Minutes of work the complexity estimate stands for (up to two hours).
fn complexity_minutes(f: &TaskFeatures) -> i64 {
    let length = (f.word_count as f64 / 50.0).min(1.0);
    let keywords = (f.complexity_matches as f64 / 3.0).min(1.0);
    let c = (length * 0.5 + keywords * 0.5).min(1.0);
    (c * 120.0) as i64
}

#[test]
fn test_heuristic_prediction() {
    let t = task("test", "Simple task", TaskPriority::Medium);
    let features = TaskFeatures::extract(&t.description);
    let prediction = heuristic_estimate(t.priority, complexity_minutes(&features));

    assert!(prediction.estimated_seconds > 0);
    assert!(prediction.min_seconds < prediction.estimated_seconds);
    assert!(prediction.max_seconds > prediction.estimated_seconds);
    let confidence = prediction.confidence_percent as f64 / 100.0;
    assert!(confidence > 0.0 && confidence <= 1.0);
}

#[test]
fn heuristic_estimate_exact_values() {
    let e = heuristic_estimate(TaskPriority::Low, 90);
    assert_eq!((e.estimated_seconds, e.min_seconds, e.max_seconds, e.based_on_samples), (5400, 2700, 10800, 0));
    let e = heuristic_estimate(TaskPriority::Critical, 90);
    assert_eq!(e.estimated_seconds, 10800);
    assert_eq!(heuristic_estimate(TaskPriority::Inital, 0).estimated_seconds, 2700);
}

fn record(description: &str, started_at: i64, completed_at: Option<i64>) -> ExecutionRecord {
    ExecutionRecord { description: description.to_string(), started_at, completed_at }
}

fn learning_history() -> Vec<ExecutionRecord> {
    let mut es = Vec::new();
    for k in 0..3i64 {
        let t = k * 10_000_000;
        es.push(record("alpha", t - 50, Some(t)));
        es.push(record("omega", t + 100, None));
    }
    for k in 0..4i64 {
        es.push(record("zzzz", 50_000_000 + k, None));
    }
    es
}

#[test]
fn training_learns_frequent_keyword_order() {
    let mut learner = DependencyLearner::new();
    let before = learner.get_rule_count();
    learner.train(&learning_history());
    assert_eq!(learner.get_rule_count(), before + 1);
    let last = learner.rules().last().unwrap();
    assert_eq!(last.name, "alpha before omega");
    assert_eq!(last.prerequisite_keywords, vec!["alpha".to_string()]);
    assert_eq!(last.dependent_keywords, vec!["omega".to_string()]);
    assert_eq!(last.confidence_ppm, 300_000);
    assert_eq!(last.occurrence_count, 3);
    for w in learner.rules().windows(2) {
        assert!(w[0].confidence_ppm >= w[1].confidence_ppm);
    }
}

#[test]
fn training_needs_ten_executions() {
    let mut learner = DependencyLearner::new();
    let before = learner.get_rule_count();
    let mut es = learning_history();
    es.truncate(9);
    learner.train(&es);
    assert_eq!(learner.get_rule_count(), before);
}

#[test]
fn observations_pair_keywords_within_a_week() {
    let es = vec![
        record("alpha beta", 0, Some(10)),
        record("gamma", 3000, None),
        record("delta", 10 + 604_800, None),
    ];
    let obs = collect_observations(&es);
    assert_eq!(
        obs,
        vec![("alpha".to_string(), "gamma".to_string()), ("beta".to_string(), "gamma".to_string())]
    );
    let tallied = frequent_patterns(&vec![
        ("a".to_string(), "b".to_string()),
        ("c".to_string(), "d".to_string()),
        ("a".to_string(), "b".to_string()),
        ("a".to_string(), "b".to_string()),
    ]);
    assert_eq!(tallied.len(), 1);
    assert_eq!((tallied[0].prerequisite.as_str(), tallied[0].dependent.as_str(), tallied[0].occurrences), ("a", "b", 3));
}

#[test]
fn enriching_a_task_sets_priority_duration_and_notes() {
    let t = task("t1", "Implement login", TaskPriority::Inital);
    let deps = vec![TaskDependency {
        prerequisite_description: "Task involving: design, plan, architecture".to_string(),
        prerequisite_keywords: vec!["design".to_string()],
        confidence_ppm: 900_000,
        typical_gap_hours: 24,
    }];
    let e = enrich_task(t, Some(TaskPriority::High), Some(90), &deps);
    assert_eq!(e.priority, TaskPriority::High);
    assert_eq!(e.duration_minutes, Some(90));
    assert_eq!(
        e.notes.as_deref(),
        Some("Dependencies:\nDepends on: Task involving: design, plan, architecture (confidence: 90.0%)")
    );
    let mut t2 = task("t2", "Fix bug", TaskPriority::Low);
    t2.notes = Some("Existing".to_string());
    let e2 = enrich_task(t2, Some(TaskPriority::High), None, &deps);
    assert_eq!(e2.priority, TaskPriority::Low);
    assert_eq!(e2.duration_minutes, None);
    assert!(e2.notes.unwrap().starts_with("Existing\n\nDependencies:\n"));
    let e3 = enrich_task(task("t3", "x", TaskPriority::Medium), None, None, &Vec::new());
    assert_eq!(e3.notes, None);
}

#[test]
fn subtasks_become_pending_todos() {
    let mut parent = task("p", "Build the dashboard", TaskPriority::High);
    parent.project = Some("web".to_string());
    let plan = decompose_by_layer(&parent);
    let todo = subtask_todo(&parent, &plan[1], "child-1".to_string(), 1000);
    assert_eq!(todo.id, "child-1");
    assert_eq!(todo.project.as_deref(), Some("web"));
    assert_eq!(todo.notes.as_deref(), Some("Subtask 2 of: Build the dashboard"));
    assert_eq!(todo.created_at, 1000);
    assert_eq!(todo.last_modified, Some(1000));
    assert!(matches!(todo.status, TaskStatus::Pending));
}
