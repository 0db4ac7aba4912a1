use swarmonomicon::decimal::parse_usize;
use swarmonomicon::rl::checkpoints::{
    checkpoint_episode, checkpoint_file_name, checkpoints_to_delete, is_checkpoint_name, latest_checkpoint,
};
use swarmonomicon::text::str_less;
use swarmonomicon::rl::flappy::{FlappyBirdAction, FlappyBirdEnv, FlappyBirdState, SCREEN_HEIGHT, SCREEN_WIDTH};

#[test]
fn test_flappy_bird_env() {
    let mut env = FlappyBirdEnv::default();

    let initial_state = env.reset();
    assert_eq!(initial_state.bird_y, SCREEN_HEIGHT / 2);

    // With an empty value table every action is worth the same, and the
    // greedy choice is the last of the valid actions: do nothing.
    let valid_actions = env.valid_actions(&initial_state);
    let action = valid_actions[valid_actions.len() - 1];
    assert_eq!(action, FlappyBirdAction::DoNothing);
    let outcome = env.step(action);
    let next_state = outcome.state;

    assert!(next_state.bird_y != initial_state.bird_y, "Bird position should change");
    assert!(next_state.next_pipe_dist < initial_state.next_pipe_dist, "Pipe should move closer");
}

#[test]
fn flappy_step_applies_flap_and_gravity() {
    let mut env = FlappyBirdEnv::default();
    let s0 = env.reset();
    let o = env.step(FlappyBirdAction::Flap);
    assert_eq!(o.state.bird_velocity, -3);
    assert_eq!(o.state.bird_y, s0.bird_y - 3);
    assert_eq!(o.state.next_pipe_dist, SCREEN_WIDTH - 2);
    let o2 = env.step(FlappyBirdAction::DoNothing);
    assert_eq!(o2.state.bird_velocity, -2);
    assert_eq!(env.get_score(), 0);
}

#[test]
fn flappy_reset_pipe_within_bounds() {
    let mut env = FlappyBirdEnv::default();
    for _ in 0..20 {
        let s = env.reset();
        assert!(s.next_pipe_top >= 50 && s.next_pipe_top < 362);
        assert_eq!(s.next_pipe_bottom, s.next_pipe_top + 100);
    }
}

#[test]
fn flappy_collision_at_screen_edges() {
    let env = FlappyBirdEnv::default();
    assert!(!env.check_collision());
    assert_eq!(env.action_space_size(), 2);
    assert_eq!(FlappyBirdAction::from_index(1), Some(FlappyBirdAction::DoNothing));
    assert_eq!(FlappyBirdAction::from_index(2), None);
    assert_eq!(FlappyBirdAction::Flap.to_index(), 0);
    assert_eq!(FlappyBirdState::default().bird_y, 256);
}

#[test]
fn flappy_pipe_passes_and_scores() {
    let mut env = FlappyBirdEnv::default();
    env.reset();
    for _ in 0..169 {
        let o = env.step(FlappyBirdAction::DoNothing);
        assert_eq!(o.state.score, 0);
    }
    let o = env.step(FlappyBirdAction::DoNothing);
    assert_eq!(o.state.score, 1);
    assert_eq!(o.state.next_pipe_dist, SCREEN_WIDTH);
}

#[test]
fn checkpoint_names_round_trip() {
    assert_eq!(checkpoint_file_name(100), "checkpoint_000100.json");
    assert_eq!(checkpoint_file_name(1234567), "checkpoint_1234567.json");
    assert_eq!(checkpoint_file_name(0), "checkpoint_000000.json");
    let name = checkpoint_file_name(300);
    assert!(is_checkpoint_name(&name));
    assert_eq!(checkpoint_episode(&name), Some(300));
    assert!(!is_checkpoint_name("best_model.json"));
    assert!(!is_checkpoint_name("checkpoint_1.txt"));
}

#[test]
fn parse_usize_matches_std() {
    for s in ["", "+", "0", "+7", "-1", "12a", "007", "18446744073709551615", "18446744073709551616", " 1"] {
        assert_eq!(parse_usize(s), s.parse::<usize>().ok(), "input {:?}", s);
    }
}

#[test]
fn name_order_is_str_order() {
    for (a, b) in [("a", "b"), ("ab", "a"), ("", "x"), ("x", "x"), ("checkpoint_000200.json", "checkpoint_000100.json")] {
        assert_eq!(str_less(a, b), a < b);
    }
}

#[test]
fn latest_checkpoint_is_greatest_name() {
    let files = vec![
        "checkpoint_000200.json".to_string(),
        "best_model.json".to_string(),
        "checkpoint_000300.json".to_string(),
        "checkpoint_000100.json".to_string(),
    ];
    assert_eq!(latest_checkpoint(&files), Some(2));
    assert_eq!(latest_checkpoint(&vec!["best_model.json".to_string()]), None);
}

#[test]
fn cleaning_keeps_latest() {
    let files = vec![
        checkpoint_file_name(100),
        checkpoint_file_name(200),
        "best_model.json".to_string(),
        checkpoint_file_name(300),
    ];
    assert_eq!(checkpoints_to_delete(&files, 1, None), vec![0, 1]);
    assert_eq!(checkpoints_to_delete(&files, 3, None), Vec::<usize>::new());
    assert_eq!(checkpoints_to_delete(&files, 0, None), vec![0, 1, 3]);
}

#[test]
fn cleaning_spares_interval_checkpoints() {
    let files = vec![
        checkpoint_file_name(300),
        checkpoint_file_name(100),
        checkpoint_file_name(200),
        checkpoint_file_name(400),
        "checkpoint_x.json".to_string(),
    ];
    assert_eq!(checkpoints_to_delete(&files, 1, Some(200)), vec![0, 1]);
}

#[test]
fn checkpoint_names_sort_by_episode() {
    let episodes = [0usize, 5, 42, 100, 999, 1000, 123456, 999999];
    for a in episodes {
        for b in episodes {
            let (na, nb) = (checkpoint_file_name(a), checkpoint_file_name(b));
            assert_eq!(str_less(&na, &nb), a < b, "{} vs {}", a, b);
        }
    }
    assert!(str_less(&checkpoint_file_name(1_000_000), &checkpoint_file_name(200_000)));
}
