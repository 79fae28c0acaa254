use cathedral::model33t::{
    Platform, AttentionConfig, HeavilyCompressedAttention, SlidingWindowAttention, expert_num_parameters, RouterLayout,
    RoutedExpert, assign_tokens, Assignment, NUM_GROUPS,
};

#[test]
fn platform_from_target_os() {
    assert_eq!(Platform::current("linux"), Platform::Linux);
    assert_eq!(Platform::current("macos"), Platform::MacOS);
    assert_eq!(Platform::current("ios"), Platform::IOs);
    assert_eq!(Platform::current("freebsd"), Platform::Unknown);
    assert_eq!(Platform::MacOS.as_str(), "macOS");
    assert_eq!(Platform::IOs.as_str(), "iOS");
    assert!(Platform::Android.has_gpu_acceleration());
    assert!(!Platform::Unknown.has_gpu_acceleration());
    assert_eq!(Platform::Android.default_model_path(), "assets/model.qt");
    assert_eq!(Platform::Windows.default_model_path(), "/models/cathedral_33t.qt");
    assert_eq!(Platform::Unknown.default_model_path(), "model.qt");
}

#[test]
fn attention_settings() {
    let config = AttentionConfig { num_heads: 8, head_dim: 64, hca_compression: 4, sliding_window_size: 512, mla_latent_dim: 32 };
    let hca = HeavilyCompressedAttention::new(&config);
    assert_eq!((hca.num_heads, hca.head_dim, hca.compression_ratio, hca.chunk_size), (8, 64, 4, 128));
    assert_eq!(SlidingWindowAttention::new(&config).window_size, 512);
}

#[test]
fn expert_parameter_count() {
    // Three projections of hidden x intermediate, two intermediate biases and
    // one hidden bias.
    assert_eq!(expert_num_parameters(16, 64), 16 * 64 * 3 + 64 + 64 + 16);
}

#[test]
fn router_layout_for_4096_experts() {
    let r = RouterLayout::new(4096, 8);
    assert_eq!((r.num_groups, r.experts_per_group, r.top_k), (NUM_GROUPS, 64, 8));
    assert_eq!(r.picks_per_group(), 4);
}

#[test]
fn router_collects_unique_experts_up_to_top_k() {
    let r = RouterLayout::new(4096, 8);
    let groups = vec![3, 5];
    let choices = vec![vec![1, 2, 3, 4], vec![0, 9, 8, 7]];
    let picked = r.collect_experts(&groups, &choices);
    let ids: Vec<usize> = picked.iter().map(|p| p.expert_id).collect();
    assert_eq!(ids, vec![193, 194, 195, 196, 320, 329, 328, 327]);
    assert_eq!(picked[4], RoutedExpert { expert_id: 320, group_rank: 1, choice_rank: 0 });
    let dup = r.collect_experts(&vec![3, 3], &vec![vec![1, 2], vec![2, 5]]);
    assert_eq!(dup.iter().map(|p| p.expert_id).collect::<Vec<_>>(), vec![193, 194, 197]);
    let small = RouterLayout::new(4096, 2);
    assert_eq!(small.collect_experts(&groups, &choices).len(), 2);
}

#[test]
fn tokens_go_to_first_expert_with_room() {
    let mut loads = vec![7, 7, 7];
    let routing = vec![vec![0, 1], vec![0, 1], vec![0, 2], vec![1, 2]];
    let out = assign_tokens(&mut loads, &routing, 1);
    assert_eq!(
        out,
        vec![
            Assignment { token: 0, expert_id: 0, rank: 0 },
            Assignment { token: 1, expert_id: 1, rank: 1 },
            Assignment { token: 2, expert_id: 2, rank: 1 },
        ]
    );
    assert_eq!(loads, vec![1, 1, 1]);
    assert!(loads.iter().all(|l| *l <= 1));
}
