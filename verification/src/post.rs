use vstd::prelude::*;

verus! {

/// The post-processing setting that a camera carries.
pub struct MatrixPost {
    /// Whether the post-processing pass runs for this camera.
    pub enabled: bool,
}

impl Default for MatrixPost {
    fn default() -> (p: MatrixPost)
        ensures
            p.enabled,
    {
        MatrixPost { enabled: true }
    }
}

/// The texture format that the post-processing pipeline renders into.
#[derive(Clone, Copy, Debug, PartialEq, Eq, Structural)]
pub enum PostTextureFormat {
    /// The high-dynamic-range view format.
    Hdr,
    /// The renderer's default surface format.
    BevyDefault,
}

/// One extracted camera view: its entity id, whether it renders in high dynamic
/// range, and its post-processing setting.
pub struct PostView {
    pub entity: u64,
    pub hdr: bool,
    pub post: MatrixPost,
}

/// A request to specialize the post-processing pipeline for one view.
#[derive(Clone, Copy, Debug, PartialEq, Eq, Structural)]
pub struct PipelineRequest {
    pub entity: u64,
    pub format: PostTextureFormat,
}

/// The format that a view's post-processing pipeline uses.
pub open spec fn format_for(hdr: bool) -> PostTextureFormat {
    if hdr {
        PostTextureFormat::Hdr
    } else {
        PostTextureFormat::BevyDefault
    }
}

/// The request for one view: its entity, with the HDR format exactly when the
/// view renders in high dynamic range.
pub open spec fn request_for(v: PostView) -> PipelineRequest {
    PipelineRequest {
        entity: v.entity,
        format: if v.hdr {
            PostTextureFormat::Hdr
        } else {
            PostTextureFormat::BevyDefault
        },
    }
}

/// The pipeline requests for `views`: one per view whose post-processing is
/// enabled, in their order.
pub open spec fn pipeline_requests(views: Seq<PostView>) -> Seq<PipelineRequest>
    decreases views.len(),
{
    if views.len() == 0 {
        Seq::empty()
    } else {
        let rest = pipeline_requests(views.drop_last());
        let v = views.last();
        if v.post.enabled {
            rest.push(PipelineRequest { entity: v.entity, format: format_for(v.hdr) })
        } else {
            rest
        }
    }
}

/// Chooses, for every view with post-processing enabled, the pipeline to
/// specialize: high-dynamic-range views get the HDR format, others the default.
pub fn prepare_matrix_post_pipelines(views: &Vec<PostView>) -> (requests: Vec<PipelineRequest>)
    ensures
        requests@ == pipeline_requests(views@),
        requests@ == views@.filter(|v: PostView| v.post.enabled).map_values(
            |v: PostView| request_for(v),
        ),
{
    let mut requests: Vec<PipelineRequest> = Vec::new();
    let n = views.len();
    let mut i: usize = 0;
    while i < n
        invariant
            n == views@.len(),
            i <= n,
            requests@ == pipeline_requests(views@.take(i as int)),
        decreases n - i,
    {
        proof {
            assert(views@.take(i + 1).drop_last() == views@.take(i as int));
        }
        let view = &views[i];
        if view.post.enabled {
            let format = if view.hdr {
                PostTextureFormat::Hdr
            } else {
                PostTextureFormat::BevyDefault
            };
            requests.push(PipelineRequest { entity: view.entity, format });
        }
        i = i + 1;
    }
    proof {
        assert(views@.take(n as int) == views@);
        lemma_requests_are_enabled_views_in_order(views@);
    }
    requests
}

/// What the post-processing render node does for one view in one frame.
#[derive(Clone, Copy, Debug, PartialEq, Eq, Structural)]
pub enum PostPass {
    /// Nothing is drawn.
    Skip,
    /// The full-screen pass is drawn; `rebuild_bind_group` tells whether the
    /// texture bind group is made anew for the current source texture.
    Draw { rebuild_bind_group: bool },
}

/// The render node's memory: the id of the source texture whose bind group it
/// holds, if any.
pub struct MatrixPostNode {
    pub cached_source: Option<u64>,
}

impl MatrixPostNode {
    /// A node that holds no bind group yet.
    pub fn new() -> (node: MatrixPostNode)
        ensures
            node.cached_source is None,
    {
        MatrixPostNode { cached_source: None }
    }

    /// Plans one run of the node: a view that was not found, or whose
    /// post-processing is disabled, is skipped and the cache stays; otherwise
    /// the pass is drawn, and the bind group is rebuilt (and cached for
    /// `source`) unless the cached one was made for `source`.
    pub fn run(&mut self, view_found: bool, enabled: bool, source: u64) -> (pass: PostPass)
        ensures
            (pass, final(self).cached_source) == post_run_spec(
                old(self).cached_source,
                view_found,
                enabled,
                source,
            ),
            !(view_found && enabled) ==> pass == PostPass::Skip && final(self).cached_source
                == old(self).cached_source,
            view_found && enabled ==> final(self).cached_source == Some(source) && pass == (
            PostPass::Draw { rebuild_bind_group: old(self).cached_source != Some(source) }),
    {
        if !view_found || !enabled {
            return PostPass::Skip;
        }
        let reuse = match self.cached_source {
            Some(id) => id == source,
            None => false,
        };
        if !reuse {
            self.cached_source = Some(source);
        }
        PostPass::Draw { rebuild_bind_group: !reuse }
    }
}

/// The pass a run plans and the cache it leaves, from the cache before it.
pub open spec fn post_run_spec(cached: Option<u64>, view_found: bool, enabled: bool, source: u64) -> (
    PostPass,
    Option<u64>,
) {
    if !(view_found && enabled) {
        (PostPass::Skip, cached)
    } else {
        (PostPass::Draw { rebuild_bind_group: cached != Some(source) }, Some(source))
    }
}

/// The bind group is built once per source texture: after a drawn run on
/// `source`, a second drawn run on the same source reuses it, and a skipped
/// run in between changes nothing.
pub proof fn lemma_bind_group_reused(cached: Option<u64>, source: u64, skipped_found: bool, skipped_enabled: bool)
    requires
        !(skipped_found && skipped_enabled),
    ensures
        ({
            let (_, c1) = post_run_spec(cached, true, true, source);
            let (p_skip, c2) = post_run_spec(c1, skipped_found, skipped_enabled, source);
            let (p3, c3) = post_run_spec(c2, true, true, source);
            &&& p_skip == PostPass::Skip
            &&& p3 == PostPass::Draw { rebuild_bind_group: false }
            &&& c3 == Some(source)
        }),
{
}

/// Only views with post-processing enabled get a pipeline, and there are
/// never more requests than views.
pub proof fn lemma_requests_from_enabled_views(views: Seq<PostView>)
    ensures
        pipeline_requests(views).len() <= views.len(),
        forall|k: int| 0 <= k < pipeline_requests(views).len() ==>
            exists|i: int| 0 <= i < views.len() && (#[trigger] views[i]).post.enabled
                && views[i].entity == (#[trigger] pipeline_requests(views)[k]).entity
                && format_for(views[i].hdr) == pipeline_requests(views)[k].format,
    decreases views.len(),
{
    if views.len() > 0 {
        let init = views.drop_last();
        lemma_requests_from_enabled_views(init);
        let r = pipeline_requests(views);
        let rest = pipeline_requests(init);
        assert forall|k: int| 0 <= k < r.len() implies
            exists|i: int| 0 <= i < views.len() && (#[trigger] views[i]).post.enabled
                && views[i].entity == (#[trigger] r[k]).entity
                && format_for(views[i].hdr) == r[k].format by {
            if k < rest.len() {
                assert(r[k] == rest[k]);
                let i = choose|i: int| 0 <= i < init.len() && (#[trigger] init[i]).post.enabled
                    && init[i].entity == rest[k].entity
                    && format_for(init[i].hdr) == rest[k].format;
                assert(views[i] == init[i]);
            } else {
                assert(views[views.len() - 1] == views.last());
            }
        }
    }
}

/// Every view with post-processing enabled gets exactly one request, in the
/// order of the views, and no other view gets one.
pub proof fn lemma_requests_are_enabled_views_in_order(views: Seq<PostView>)
    ensures
        pipeline_requests(views) == views.filter(|v: PostView| v.post.enabled).map_values(
            |v: PostView| request_for(v),
        ),
    decreases views.len(),
{
    reveal(Seq::filter);
    if views.len() > 0 {
        let init = views.drop_last();
        lemma_requests_are_enabled_views_in_order(init);
        let sub = init.filter(|v: PostView| v.post.enabled);
        assert(views.filter(|v: PostView| v.post.enabled) == if views.last().post.enabled {
            sub.push(views.last())
        } else {
            sub
        });
        assert(sub.push(views.last()).map_values(|v: PostView| request_for(v)) =~= sub.map_values(
            |v: PostView| request_for(v),
        ).push(request_for(views.last())));
    } else {
        assert(views.filter(|v: PostView| v.post.enabled).map_values(|v: PostView| request_for(v))
            =~= Seq::<PipelineRequest>::empty());
    }
}

/// There are as many requests as enabled views, and every enabled view `i`
/// has a request for its entity with the format its range calls for.
pub proof fn lemma_every_enabled_view_requested(views: Seq<PostView>, i: int)
    requires
        0 <= i < views.len(),
        views[i].post.enabled,
    ensures
        pipeline_requests(views).len() == views.filter(|v: PostView| v.post.enabled).len(),
        pipeline_requests(views).contains(
            PipelineRequest {
                entity: views[i].entity,
                format: if views[i].hdr {
                    PostTextureFormat::Hdr
                } else {
                    PostTextureFormat::BevyDefault
                },
            },
        ),
{
    lemma_requests_are_enabled_views_in_order(views);
    let f = views.filter(|v: PostView| v.post.enabled);
    views.filter_lemma(|v: PostView| v.post.enabled);
    assert(f.contains(views[i]));
    let k = choose|k: int| 0 <= k < f.len() && f[k] == views[i];
    assert(pipeline_requests(views)[k] == request_for(views[i]));
}

/// A drawn run rebuilds the bind group exactly when the cache does not hold the
/// run's source texture, and afterwards the cache holds that source; in
/// particular a source other than the cached one always rebuilds.
pub proof fn lemma_drawn_run_rebuilds_on_new_source(cached: Option<u64>, source: u64)
    ensures
        post_run_spec(cached, true, true, source).1 == Some(source),
        post_run_spec(cached, true, true, source).0 == (PostPass::Draw {
            rebuild_bind_group: !(cached == Some(source)),
        }),
        cached != Some(source) ==> post_run_spec(cached, true, true, source).0 == (PostPass::Draw {
            rebuild_bind_group: true,
        }),
        cached == Some(source) ==> post_run_spec(cached, true, true, source).0 == (PostPass::Draw {
            rebuild_bind_group: false,
        }),
{
}

/// A skipped run (view not found, or post-processing disabled) draws nothing
/// and leaves the cache as it was, whatever the cache and the source.
pub proof fn lemma_skipped_run_keeps_cache(
    cached: Option<u64>,
    view_found: bool,
    enabled: bool,
    source: u64,
)
    requires
        !view_found || !enabled,
    ensures
        post_run_spec(cached, view_found, enabled, source) == (PostPass::Skip, cached),
{
}

} // verus!
