use swarmonomicon::metrics::{ProjectMetrics, TaskMetrics, WorkerMetrics};
use swarmonomicon::swarm::consensus::{
    consensus_reached, count_votes, simulate_votes, winning_action, ConsensusProtocol, VotingStrategy,
};
use swarmonomicon::error::SwarmError;
use swarmonomicon::swarm::delegation::{add_expertise, delegation_keywords, expertise_matches};
use swarmonomicon::swarm::emergence::{parse_interaction_record, EmergencDetector};
use swarmonomicon::swarm::metrics::SwarmPerformance;
use swarmonomicon::types::TaskPriority;

#[test]
fn test_swarm_performance() {
    let mut perf = SwarmPerformance::new();

    perf.record_swarm_decision(true);
    perf.record_swarm_decision(false);
    perf.record_delegation();

    assert_eq!(perf.total_decisions, 2);
    assert_eq!(perf.consensus_count, 1);
    assert_eq!(perf.delegation_count, 1);

    assert_eq!(perf.consensus_count as f64 / perf.total_decisions as f64, 0.5);
}

#[test]
fn emergent_behaviours_accumulate() {
    let mut perf = SwarmPerformance::new();
    perf.record_emergent_behaviors(2);
    perf.record_emergent_behaviors(3);
    assert_eq!(perf.emergence_count, 5);
    assert_eq!(perf.total_decisions, 0);
}

#[test]
fn test_metrics_counters() {
    let mut metrics = WorkerMetrics::new();

    assert_eq!(metrics.increment_processed(), 1);
    assert_eq!(metrics.increment_processed(), 2);

    metrics.increment_succeeded();
    metrics.increment_succeeded();
    assert_eq!(metrics.tasks_succeeded, 2);

    metrics.increment_failed();
    assert_eq!(metrics.tasks_failed, 1);

    metrics.increment_timeout();
    assert_eq!(metrics.tasks_timeout, 1);

    metrics.increment_priority_counter(&TaskPriority::Low);
    metrics.increment_priority_counter(&TaskPriority::Medium);
    metrics.increment_priority_counter(&TaskPriority::High);
    metrics.increment_priority_counter(&TaskPriority::Critical);

    assert_eq!(metrics.low_tasks_processed, 1);
    assert_eq!(metrics.medium_tasks_processed, 1);
    assert_eq!(metrics.high_tasks_processed, 1);
    assert_eq!(metrics.critical_tasks_processed, 1);
}

#[test]
fn task_and_project_counters_return_new_counts() {
    let mut t = TaskMetrics::new();
    assert_eq!(t.increment_received(), 1);
    assert_eq!(t.increment_received(), 2);
    assert_eq!(t.increment_processed(), 1);
    assert_eq!(t.increment_failed(), 1);
    assert_eq!(t.increment_classification_requested(), 1);
    assert_eq!(t.increment_classification_successful(), 1);
    let mut p = ProjectMetrics::new();
    assert_eq!(p.increment_received(), 1);
    assert_eq!(p.increment_processed(), 1);
    assert_eq!(p.increment_failed(), 1);
}

#[test]
fn votes_are_counted_and_won() {
    let counts = count_votes(&vec![1, 2, 1, 0, 1], 3);
    assert_eq!(counts, vec![1, 3, 1]);
    assert_eq!(winning_action(&counts), Some((1, 3)));
    assert_eq!(winning_action(&vec![0, 0]), None);
    assert_eq!(winning_action(&vec![2, 2]), Some((0, 2)));
}

#[test]
fn simulated_votes_are_valid() {
    let votes = simulate_votes(10, 4);
    assert_eq!(votes.len(), 10);
    assert!(votes.iter().all(|v| *v < 4));
    let counts = count_votes(&votes, 4);
    assert_eq!(counts.iter().sum::<usize>(), 10);
}

#[test]
fn consensus_rules_by_strategy() {
    assert!(consensus_reached(VotingStrategy::Majority, 3, 5, false));
    assert!(!consensus_reached(VotingStrategy::Majority, 2, 4, false));
    assert!(consensus_reached(VotingStrategy::Plurality, 1, 5, false));
    assert!(consensus_reached(VotingStrategy::Unanimous, 5, 5, false));
    assert!(!consensus_reached(VotingStrategy::Unanimous, 4, 5, true));
    assert!(consensus_reached(VotingStrategy::Weighted, 1, 5, true));
}

#[test]
fn test_emergence_detector() {
    let mut detector = EmergencDetector::new(50);

    let interactions = vec![
        "agent1:git_task".to_string(),
        "agent1:git_task".to_string(),
        "agent2:haiku_task".to_string(),
        "agent2:haiku_task".to_string(),
        "agent1:git_task".to_string(),
    ];

    let report = detector.analyze_interactions(&interactions);
    let behaviors = [report.roles.is_some(), report.coordination.is_some(), report.organization.is_some()]
        .iter()
        .filter(|b| **b)
        .count();

    assert!(behaviors > 0 || interactions.len() < 50);
}

#[test]
fn emergence_roles_patterns_and_organization() {
    let mut detector = EmergencDetector::new(12);
    let mut records: Vec<String> = Vec::new();
    for r in ["a:x", "b:y", "c:z", "d:w", "e:v", "a:x", "b:y", "a:x", "b:y", "a:x", "b:y", "a:x"] {
        records.push(r.to_string());
    }
    let report = detector.analyze_interactions(&records);
    assert_eq!(report.roles, Some(vec!["a".to_string(), "b".to_string()]));
    assert_eq!(report.coordination, Some(("a:x->b:y".to_string(), 4)));
    assert_eq!(report.organization, Some((2, 5)));
    let again = detector.analyze_interactions(&vec!["z:q".to_string()]);
    assert!(again.organization.is_some() || again.organization.is_none());
}

#[test]
fn emergence_window_and_parsing() {
    assert_eq!(parse_interaction_record("agent:task:extra"), Some(("agent".to_string(), "task".to_string())));
    assert_eq!(parse_interaction_record("no colon"), None);
    let mut detector = EmergencDetector::new(3);
    let r = detector.analyze_interactions(&vec!["a:1".to_string(), "a:1".to_string(), "a:1".to_string(), "b:2".to_string()]);
    assert_eq!(r.roles, None);
    assert_eq!(r.coordination, None);
    assert_eq!(r.organization, None);
}

#[test]
fn test_agent_contribution() {
    let mut perf = SwarmPerformance::new();

    perf.update_agent_contribution("agent1", true, true, false);
    perf.update_agent_contribution("agent1", true, false, true);
    perf.update_agent_contribution("agent2", false, true, false);

    assert_eq!(perf.active_agent_count(), 2);

    let contrib1 = perf.contribution("agent1").unwrap();
    assert_eq!(contrib1.tasks_completed, 2);
    assert_eq!(contrib1.successes as f64 / contrib1.tasks_completed as f64, 1.0);
    assert_eq!(contrib1.collaboration_events, 1);
    assert_eq!(contrib1.leadership_updates, vec![1]);
    let contrib2 = perf.contribution("agent2").unwrap();
    assert_eq!((contrib2.tasks_completed, contrib2.successes), (1, 0));
    assert!(perf.contribution("agent3").is_none());
    assert_eq!(perf.all_contributions().len(), 2);
}

#[test]
fn delegation_keywords_and_expertise() {
    assert_eq!(
        delegation_keywords("Commit the changes and push them upstream quickly today"),
        vec!["commit", "changes", "push", "them", "upstream"]
    );
    let expertise = vec!["git".to_string(), "commit".to_string()];
    let keywords = vec!["commit".to_string(), "push".to_string(), "commit".to_string()];
    assert_eq!(expertise_matches(&expertise, &keywords), 2);
    let mut grown = expertise.clone();
    add_expertise(&mut grown, keywords);
    assert_eq!(grown, vec!["git", "commit", "push"]);
}

#[test]
fn top_contributors_rank_by_tasks_then_successes() {
    let mut perf = SwarmPerformance::new();
    perf.update_agent_contribution("slow", true, false, false);
    perf.update_agent_contribution("busy", true, false, false);
    perf.update_agent_contribution("busy", false, false, false);
    perf.update_agent_contribution("steady", true, false, false);
    perf.update_agent_contribution("steady", true, false, false);
    perf.update_agent_contribution("late", true, false, false);

    assert_eq!(perf.top_contributors(2), vec!["steady".to_string(), "busy".to_string()]);
    assert_eq!(
        perf.top_contributors(10),
        vec!["steady".to_string(), "busy".to_string(), "slow".to_string(), "late".to_string()]
    );
    assert!(perf.top_contributors(0).is_empty());
    assert!(SwarmPerformance::new().top_contributors(3).is_empty());
}

#[test]
fn collaboration_totals_sum_over_agents() {
    let mut perf = SwarmPerformance::new();
    assert_eq!(perf.collaboration_totals(), (0, 0));
    perf.update_agent_contribution("a", true, true, false);
    perf.update_agent_contribution("a", false, false, false);
    perf.update_agent_contribution("b", true, true, true);
    assert_eq!(perf.collaboration_totals(), (2, 3));
}

#[test]
fn test_consensus_protocol() {
    let protocol = ConsensusProtocol::new(600);
    let agents = vec!["agent1".to_string(), "agent2".to_string(), "agent3".to_string()];
    let decision = protocol.reach_consensus(&agents, 3).unwrap();
    if let Some(consensus) = decision {
        assert!(consensus.winner_votes > 0);
        assert_eq!(consensus.votes.len(), 3);
    }
}

#[test]
fn consensus_counts_each_agent_once() {
    let mut protocol = ConsensusProtocol::new(600);
    let agents: Vec<String> = ["a", "b", "a", "c"].iter().map(|s| s.to_string()).collect();
    // "a" votes 0 and then 1: only its last vote counts.
    let d = protocol.decide(&agents, &vec![0, 1, 1, 1], 3).unwrap().unwrap();
    assert_eq!((d.action, d.winner_votes, d.total_votes), (1, 3, 4));
    assert_eq!(d.votes, vec![("b".to_string(), 1), ("a".to_string(), 1), ("c".to_string(), 1)]);
    // Two of four agents asked is no majority.
    assert!(protocol.decide(&agents, &vec![0, 0, 1, 2], 3).unwrap().is_none());
    protocol.set_strategy(VotingStrategy::Plurality);
    let d = protocol.decide(&agents, &vec![0, 2, 1, 2], 3).unwrap().unwrap();
    assert_eq!((d.action, d.winner_votes), (2, 2));
    protocol.set_strategy(VotingStrategy::Weighted);
    assert!(protocol.decide(&agents, &vec![1, 1, 1, 2], 3).unwrap().is_none());
    match protocol.decide(&Vec::new(), &Vec::new(), 3) {
        Err(SwarmError::Agent(m)) => assert_eq!(m, "No votes cast"),
        _ => panic!("no agents, no votes"),
    }
}
