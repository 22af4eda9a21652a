use matrix_rain::post::{
    prepare_matrix_post_pipelines, MatrixPost, MatrixPostNode, PipelineRequest, PostPass,
    PostTextureFormat, PostView,
};

#[test]
fn post_enabled_by_default() {
    assert!(MatrixPost::default().enabled);
}

#[test]
fn pipelines_for_enabled_views() {
    let views = vec![
        PostView { entity: 1, hdr: true, post: MatrixPost { enabled: true } },
        PostView { entity: 2, hdr: true, post: MatrixPost { enabled: false } },
        PostView { entity: 3, hdr: false, post: MatrixPost::default() },
    ];
    assert_eq!(
        prepare_matrix_post_pipelines(&views),
        vec![
            PipelineRequest { entity: 1, format: PostTextureFormat::Hdr },
            PipelineRequest { entity: 3, format: PostTextureFormat::BevyDefault },
        ]
    );
    assert_eq!(prepare_matrix_post_pipelines(&Vec::new()), Vec::new());
}

#[test]
fn node_skips_missing_or_disabled_views() {
    let mut node = MatrixPostNode::new();
    assert_eq!(node.cached_source, None);
    assert_eq!(node.run(false, true, 9), PostPass::Skip);
    assert_eq!(node.run(true, false, 9), PostPass::Skip);
    assert_eq!(node.cached_source, None);
}

#[test]
fn node_caches_bind_group_per_source() {
    let mut node = MatrixPostNode::new();
    assert_eq!(node.run(true, true, 9), PostPass::Draw { rebuild_bind_group: true });
    assert_eq!(node.cached_source, Some(9));
    assert_eq!(node.run(true, true, 9), PostPass::Draw { rebuild_bind_group: false });
    assert_eq!(node.run(false, false, 4), PostPass::Skip);
    assert_eq!(node.cached_source, Some(9));
    assert_eq!(node.run(true, true, 4), PostPass::Draw { rebuild_bind_group: true });
    assert_eq!(node.cached_source, Some(4));
}
