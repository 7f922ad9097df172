use starlight_fg::graph::FrameGraph;
use starlight_fg::resource::{
    AttachmentInfo, BufferInfo, BufferRef, FrameError, FrameStage, ImageInfo, ImageKind,
    ImageLayout, ImageRead, ImageWrite, PassDependency, ResourceConsumer, ResourceCreator,
    ResourceHandle, ResourceId,
};
use starlight_fg::engine::Engine;
use starlight_fg::resource::PassRef;
use starlight_fg::style::StyleValue;
use starlight_fg::schedule::{run, run_live};

fn buf_info() -> BufferInfo {
    BufferInfo { size: 256, stride: 16, usage: 3 }
}

fn img_info() -> ImageInfo {
    ImageInfo { kind: ImageKind::D2(1920, 1080), mip_levels: 1, format: 44, usage: 5 }
}

fn dfs(v: usize, edges: &[(usize, usize)], state: &mut Vec<u8>) -> bool {
    state[v] = 1;
    for &(f, t) in edges {
        if f == v {
            if state[t] == 1 {
                return false;
            }
            if state[t] == 0 && !dfs(t, edges, state) {
                return false;
            }
        }
    }
    state[v] = 2;
    true
}

/// Three passes: GBuffer creates albedo, normal and depth; Lighting reads
/// all three and produces a new hdr image; Output reads hdr and marks it a
/// frame output. The schedule runs source, GBuffer, Lighting, Output, sink.
#[test]
fn gbuffer_lighting_output_schedule() {
    let g = FrameGraph::new();
    let mut gbuffer = g.add_graphics_pass();
    let albedo = gbuffer.create_image(img_info());
    let normal = gbuffer.create_image(img_info());
    let depth = gbuffer.create_image(img_info());
    let (g, gbuffer_ref) = gbuffer.finish();

    let mut lighting = g.add_graphics_pass();
    lighting.read_image(&albedo, ImageLayout::Texture).unwrap();
    lighting.read_image(&normal, ImageLayout::Texture).unwrap();
    lighting.read_image(&depth, ImageLayout::DepthStencil).unwrap();
    let hdr = lighting.create_image(img_info());
    let (g, lighting_ref) = lighting.finish();

    let mut output = g.add_graphics_pass();
    output.read_image(&hdr, ImageLayout::Texture).unwrap();
    let (mut g, output_ref) = output.finish();
    g.make_image_output(&hdr, ImageLayout::Texture).unwrap();

    assert_eq!(gbuffer_ref.as_ref().0, 2);
    assert_eq!(lighting_ref.as_ref().0, 3);
    assert_eq!(output_ref.as_ref().0, 4);

    let order = run(&g).unwrap();
    assert_eq!(order, vec![0, 2, 3, 4, 1]);
}

/// Running the scheduler twice on the same finalized graph yields
/// identical orderings.
#[test]
fn schedule_is_deterministic() {
    let g = FrameGraph::new();
    let mut p1 = g.add_compute_pass();
    let a = p1.create_buffer(buf_info());
    let b = p1.create_buffer(buf_info());
    let (g, _) = p1.finish();
    let mut p2 = g.add_graphics_pass();
    p2.read_buffer(&a).unwrap();
    let (g, _) = p2.finish();
    let mut p3 = g.add_graphics_pass();
    p3.read_buffer(&b).unwrap();
    p3.read_buffer(&a).unwrap();
    let (g, _) = p3.finish();

    let first = run(&g).unwrap();
    let second = run(&g).unwrap();
    assert_eq!(first, second);
    let live1 = run_live(&g).unwrap();
    let live2 = run_live(&g).unwrap();
    assert_eq!(live1, live2);
}

/// A cycle-detection sweep over the finalized graph finds no cycle, on a
/// frame that exercises creates, reads, writes and outputs.
#[test]
fn dependency_graph_is_acyclic() {
    let g = FrameGraph::new();
    let mut p1 = g.add_graphics_pass();
    let b0 = p1.create_buffer(buf_info());
    let i0 = p1.create_image(img_info());
    let (g, _) = p1.finish();
    let mut p2 = g.add_compute_pass();
    p2.read_buffer(&b0).unwrap();
    let b1 = p2.write_buffer(&b0).unwrap();
    let i1 = p2.write_image(&i0, ImageLayout::Color).unwrap();
    let (g, _) = p2.finish();
    let mut p3 = g.add_graphics_pass();
    p3.read_buffer(&b1).unwrap();
    p3.read_image(&i1, ImageLayout::Texture).unwrap();
    let (mut g, _) = p3.finish();
    g.make_buffer_output(&b1).unwrap();

    let n = g.pass_count();
    let edges: Vec<(usize, usize)> =
        g.dependency_edges().into_iter().map(|(f, t, _)| (f, t)).collect();

    // Depth-first search for a back edge.
    // state: 0 unvisited, 1 on stack, 2 done
    let mut state = vec![0u8; n];
    for v in 0..n {
        if state[v] == 0 {
            assert!(dfs(v, &edges, &mut state), "cycle found");
        }
    }
}

/// In the computed schedule, every version's creator comes before every
/// pass that reads or copies from it.
#[test]
fn creator_precedes_every_reader() {
    let g = FrameGraph::new();
    let mut p1 = g.add_graphics_pass();
    let b0 = p1.create_buffer(buf_info());
    let (g, _) = p1.finish();
    let mut p2 = g.add_compute_pass();
    let b1 = p2.write_buffer(&b0).unwrap();
    let (g, _) = p2.finish();
    let mut p3 = g.add_graphics_pass();
    p3.read_buffer(&b1).unwrap();
    p3.read_buffer(&b0).unwrap();
    let (mut g, _) = p3.finish();
    g.make_buffer_output(&b1).unwrap();

    let order = run(&g).unwrap();
    let mut pos = vec![usize::MAX; g.pass_count()];
    for (idx, &v) in order.iter().enumerate() {
        pos[v] = idx;
    }
    for (reader, creator, _) in g.dependency_edges() {
        assert!(pos[creator] < pos[reader], "creator scheduled after reader");
    }
}

/// Overlap analysis distinguishes independent chains from entangled ones.
/// With `P1 creates A, P2 reads A, P3 creates B, P4 reads B` the two
/// buffers do not overlap; once P3 also reads A, they do.
#[test]
fn overlap_reflects_reachability() {
    // Independent chains.
    let g = FrameGraph::new();
    let mut p1 = g.add_graphics_pass();
    let a = p1.create_buffer(buf_info());
    let (g, _) = p1.finish();
    let mut p2 = g.add_graphics_pass();
    p2.read_buffer(&a).unwrap();
    let (g, _) = p2.finish();
    let mut p3 = g.add_graphics_pass();
    let b = p3.create_buffer(buf_info());
    let (g, _) = p3.finish();
    let mut p4 = g.add_graphics_pass();
    p4.read_buffer(&b).unwrap();
    let (g, _) = p4.finish();
    assert_eq!(g.buffers_overlap(&a, &b).unwrap(), false);
    assert_eq!(g.buffer_lifetime_overlap_forward(&a, &b).unwrap(), false);

    // Same shape, but P3 also reads A, so B is created while A is live.
    let g = FrameGraph::new();
    let mut p1 = g.add_graphics_pass();
    let a = p1.create_buffer(buf_info());
    let (g, _) = p1.finish();
    let mut p2 = g.add_graphics_pass();
    p2.read_buffer(&a).unwrap();
    let (g, _) = p2.finish();
    let mut p3 = g.add_graphics_pass();
    p3.read_buffer(&a).unwrap();
    let b = p3.create_buffer(buf_info());
    let (g, _) = p3.finish();
    let mut p4 = g.add_graphics_pass();
    p4.read_buffer(&b).unwrap();
    let (g, _) = p4.finish();
    assert_eq!(g.buffers_overlap(&a, &b).unwrap(), true);
}

/// Image versions go through the same overlap analysis.
#[test]
fn image_overlap_on_shared_read() {
    let g = FrameGraph::new();
    let mut p1 = g.add_graphics_pass();
    let a = p1.create_image(img_info());
    let (g, _) = p1.finish();
    let mut p2 = g.add_graphics_pass();
    p2.read_image(&a, ImageLayout::Texture).unwrap();
    let b = p2.create_image(img_info());
    let (g, _) = p2.finish();
    let mut p3 = g.add_graphics_pass();
    p3.read_image(&b, ImageLayout::Texture).unwrap();
    let (g, _) = p3.finish();
    // B is created by the pass that reads A.
    assert_eq!(g.images_overlap(&a, &b).unwrap(), true);
}

/// Write chain: P1 creates b0, P2 writes it and gets b1. The copy edge
/// `CopyBuffer(b0, b1)` runs from P2 back to P1, and b0's consumer is P2.
#[test]
fn write_chain_records_copy_edge_and_consumer() {
    let g = FrameGraph::new();
    let mut p1 = g.add_graphics_pass();
    let b0 = p1.create_buffer(buf_info());
    let (g, p1_ref) = p1.finish();
    let mut p2 = g.add_compute_pass();
    let b1 = p2.write_buffer(&b0).unwrap();
    let (g, p2_ref) = p2.finish();

    let p1_id = p1_ref.into_inner().0;
    let p2_id = p2_ref.into_inner().0;
    assert_eq!((p1_id, p2_id), (2, 3));
    assert_eq!(b0.id, ResourceId(0));
    assert_eq!(b1.id, ResourceId(1));

    let edges = g.dependency_edges();
    assert!(edges.contains(&(p2_id, p1_id, PassDependency::ReadBuffer(0))));
    assert!(edges.contains(&(p2_id, p1_id, PassDependency::CopyBuffer(0, 1))));
    assert_eq!(
        g.buffer_consumer(&b0).unwrap(),
        Some(ResourceConsumer::Pass(p2_id))
    );
    assert_eq!(g.buffer_consumer(&b1).unwrap(), None);
    assert_eq!(g.buffer_creator(&b1).unwrap(), ResourceCreator::Pass(p2_id));
    // The new version carries the same description.
    assert_eq!(g.get_buffer(&b1).unwrap().info, buf_info());
}

/// A resource created but never read and never marked as a frame output
/// drops out of the live schedule together with its pass, without blocking
/// the passes that never depended on it.
#[test]
fn dead_resource_elimination() {
    let g = FrameGraph::new();
    let mut dead = g.add_compute_pass();
    let _unused = dead.create_buffer(buf_info());
    let (g, dead_ref) = dead.finish();
    let mut p2 = g.add_graphics_pass();
    let x = p2.create_buffer(buf_info());
    let (g, _) = p2.finish();
    let mut p3 = g.add_graphics_pass();
    p3.read_buffer(&x).unwrap();
    let y = p3.write_buffer(&x).unwrap();
    let (mut g, _) = p3.finish();
    g.make_buffer_output(&y).unwrap();

    // The conservative schedule keeps every registered pass.
    let full = run(&g).unwrap();
    assert_eq!(full, vec![0, 2, 3, 4, 1]);

    // The live schedule drops the dead pass (and the idle source).
    let live = run_live(&g).unwrap();
    assert_eq!(live, vec![3, 4, 1]);
    assert!(!live.contains(&dead_ref.into_inner().0));
}

/// Duplicate reads of one version by one pass are each recorded: edges are
/// not deduplicated, and nothing breaks.
#[test]
fn duplicate_reads_make_duplicate_edges() {
    let g = FrameGraph::new();
    let mut p1 = g.add_graphics_pass();
    let b = p1.create_buffer(buf_info());
    let (g, _) = p1.finish();
    let mut p2 = g.add_graphics_pass();
    p2.read_buffer(&b).unwrap();
    p2.read_buffer(&b).unwrap();
    let (g, _) = p2.finish();
    let edges = g.dependency_edges();
    let matching: Vec<_> = edges
        .iter()
        .filter(|&&(f, t, tag)| f == 3 && t == 2 && tag == PassDependency::ReadBuffer(0))
        .collect();
    assert_eq!(matching.len(), 2);
    assert!(run(&g).is_ok());
}

/// A reference made by one frame is rejected by another frame with
/// `DanglingReference`.
#[test]
fn dangling_reference_is_rejected() {
    let g1 = FrameGraph::with_frame_id(1);
    let mut p = g1.add_graphics_pass();
    let foreign = p.create_buffer(buf_info());
    let (_g1, _) = p.finish();

    let g2 = FrameGraph::with_frame_id(2);
    let mut q = g2.add_graphics_pass();
    assert_eq!(q.read_buffer(&foreign), Err(FrameError::DanglingReference));
    assert_eq!(q.write_buffer(&foreign), Err(FrameError::DanglingReference));
    let (mut g2, _) = q.finish();
    assert_eq!(
        g2.make_buffer_output(&foreign),
        Err(FrameError::DanglingReference)
    );
    assert_eq!(g2.get_buffer(&foreign), Err(FrameError::DanglingReference));
}

/// An index outside the registry is rejected with `InvalidReference`.
#[test]
fn invalid_reference_is_rejected() {
    let mut g = FrameGraph::new();
    let forged = BufferRef { frame: g.frame_id(), id: ResourceId(99) };
    assert_eq!(g.get_buffer(&forged), Err(FrameError::InvalidReference));
    assert_eq!(g.buffer_creator(&forged), Err(FrameError::InvalidReference));
    assert_eq!(g.make_buffer_output(&forged), Err(FrameError::InvalidReference));
    let mut p = g.add_graphics_pass();
    assert_eq!(p.read_buffer(&forged), Err(FrameError::InvalidReference));
    let (_g, _) = p.finish();
}

/// A pass reading a version it created itself would close a cycle; the
/// graph refuses the edge with `GraphCycle`.
#[test]
fn self_read_is_rejected_as_cycle() {
    let g = FrameGraph::new();
    let mut p = g.add_graphics_pass();
    let own = p.create_buffer(buf_info());
    assert_eq!(p.read_buffer(&own), Err(FrameError::GraphCycle));
    let own_img = p.create_image(img_info());
    assert_eq!(
        p.read_image(&own_img, ImageLayout::Texture),
        Err(FrameError::GraphCycle)
    );
    let (_g, _) = p.finish();
}

/// Writing a version that already has a consumer is refused with
/// `DoubleWrite`.
#[test]
fn double_write_is_rejected() {
    let g = FrameGraph::new();
    let mut p1 = g.add_graphics_pass();
    let b0 = p1.create_buffer(buf_info());
    let i0 = p1.create_image(img_info());
    let (g, _) = p1.finish();
    let mut p2 = g.add_compute_pass();
    let _b1 = p2.write_buffer(&b0).unwrap();
    assert_eq!(p2.write_buffer(&b0), Err(FrameError::DoubleWrite));
    let _i1 = p2.write_image(&i0, ImageLayout::Color).unwrap();
    assert_eq!(
        p2.write_image(&i0, ImageLayout::Color),
        Err(FrameError::DoubleWrite)
    );
    let (_g, _) = p2.finish();
}

/// External inputs are created by the source sentinel; outputs are
/// consumed by the sink.
#[test]
fn inputs_and_outputs_use_the_sentinels() {
    let mut g = FrameGraph::new();
    let input = g.add_input_buffer(buf_info());
    assert_eq!(g.buffer_creator(&input).unwrap(), ResourceCreator::Input);
    let mut p = g.add_graphics_pass();
    p.read_buffer(&input).unwrap();
    let out = p.create_buffer(buf_info());
    let (mut g, p_ref) = p.finish();
    g.make_buffer_output(&out).unwrap();
    assert_eq!(
        g.buffer_creator(&out).unwrap(),
        ResourceCreator::Pass(p_ref.as_ref().0)
    );
    // Marking an output adds only the sink edge; the registry entry is
    // untouched, so the version still has no consumer.
    assert_eq!(g.buffer_consumer(&out).unwrap(), None);
    // The input read ties the pass to the source, the output to the sink.
    let edges = g.dependency_edges();
    assert!(edges.contains(&(2, 0, PassDependency::ReadBuffer(0))));
    assert!(edges.iter().any(|&(f, _, _)| f == 1));
    // Source first, sink last.
    let order = run(&g).unwrap();
    assert_eq!(order.first(), Some(&0));
    assert_eq!(order.last(), Some(&1));
}

/// The `(creating pass, local ordinal)` identity of versions.
#[test]
fn resource_handles_count_per_pass() {
    let mut g = FrameGraph::new();
    let in0 = g.add_input_buffer(buf_info());
    let mut p = g.add_graphics_pass();
    let b0 = p.create_buffer(buf_info());
    let b1 = p.create_buffer(buf_info());
    let i0 = p.create_image(img_info());
    let (g, p_ref) = p.finish();
    let pid = p_ref.into_inner().0;
    assert_eq!(g.buffer_handle(&in0).unwrap(), ResourceHandle(0, 0));
    assert_eq!(g.buffer_handle(&b0).unwrap(), ResourceHandle(pid, 0));
    assert_eq!(g.buffer_handle(&b1).unwrap(), ResourceHandle(pid, 1));
    assert_eq!(g.image_handle(&i0).unwrap(), ResourceHandle(pid, 0));
}

/// Node classifications: sentinels, then one stage per registered pass.
#[test]
fn pass_stages_are_recorded() {
    let g = FrameGraph::new();
    let p = g.add_graphics_pass();
    let (g, gfx) = p.finish();
    let p = g.add_compute_pass();
    let (g, cmp) = p.finish();
    assert_eq!(g.pass_stage(&PassRef(0)).unwrap(), FrameStage::Top);
    assert_eq!(g.pass_stage(&PassRef(1)).unwrap(), FrameStage::Bottom);
    assert_eq!(g.pass_stage(gfx.as_ref()).unwrap(), FrameStage::Graphics);
    assert_eq!(g.pass_stage(cmp.as_ref()).unwrap(), FrameStage::Compute);
    assert_eq!(
        g.pass_stage(&PassRef(17)),
        Err(FrameError::InvalidReference)
    );
    assert_eq!(g.pass_count(), 4);
}

/// Attachment reads and writes carry the `Attachment` tag and metadata
/// instead of the `Transfer` one.
#[test]
fn attachments_use_attachment_tags() {
    let att = AttachmentInfo { format: Some(44), samples: 4 };
    let g = FrameGraph::new();
    let mut p1 = g.add_graphics_pass();
    let color = p1.create_attachment(img_info(), att, true);
    let (g, _) = p1.finish();
    assert_eq!(
        g.get_image(&color).unwrap().write_type,
        ImageWrite::Attachment(att, true)
    );
    let mut p2 = g.add_graphics_pass();
    p2.read_attachment(&color, att).unwrap();
    let resolved = p2.write_attachment(&color, att, false).unwrap();
    let (g, _) = p2.finish();
    assert_eq!(
        g.get_image(&resolved).unwrap().write_type,
        ImageWrite::Attachment(att, false)
    );
    let edges = g.dependency_edges();
    assert!(edges.contains(&(3, 2, PassDependency::ReadImage(0, ImageRead::Attachment(att)))));
    assert!(edges.contains(&(3, 2, PassDependency::CopyImage(0, 1))));
    // Plain reads still carry the layout.
    let g2 = FrameGraph::new();
    let mut q1 = g2.add_graphics_pass();
    let img = q1.create_image(img_info());
    let (g2, _) = q1.finish();
    let mut q2 = g2.add_graphics_pass();
    q2.read_image(&img, ImageLayout::DepthStencil).unwrap();
    let (g2, _) = q2.finish();
    assert!(g2.dependency_edges().contains(&(
        3,
        2,
        PassDependency::ReadImage(0, ImageRead::Transfer(ImageLayout::DepthStencil))
    )));
}

/// An empty frame schedules its two sentinels; the live schedule keeps
/// only the sink.
#[test]
fn empty_frame_schedules_sentinels() {
    let g = FrameGraph::new();
    assert_eq!(run(&g).unwrap(), vec![0, 1]);
    assert_eq!(run_live(&g).unwrap(), vec![1]);
}

/// Frames carry the identity they were created with.
#[test]
fn frame_identity_is_kept() {
    assert_eq!(FrameGraph::new().frame_id(), 0);
    assert_eq!(FrameGraph::with_frame_id(7).frame_id(), 7);
    let mut g = FrameGraph::with_frame_id(7);
    let b = g.add_input_buffer(buf_info());
    assert_eq!(b.frame, 7);
}

/// The guard around a pass registration hands the reference out by
/// borrow, by map, and by unwrapping.
#[test]
fn guard_exposes_the_pass_reference() {
    let g = FrameGraph::new();
    let p = g.add_graphics_pass();
    let (_g, guard) = p.finish();
    assert_eq!(guard.as_ref().0, 2);
    let index = guard.map(|r| r.0);
    assert_eq!(*index.as_ref(), 2);
    assert_eq!(index.into_inner(), 2);
}

/// The engine's execution plan pairs every scheduled node with its
/// classification, in schedule order.
#[test]
fn engine_plan_matches_schedule() {
    let g = FrameGraph::new();
    let mut p1 = g.add_graphics_pass();
    let b = p1.create_buffer(buf_info());
    let (g, _) = p1.finish();
    let mut p2 = g.add_compute_pass();
    p2.read_buffer(&b).unwrap();
    let (g, _) = p2.finish();
    let engine = Engine::new(g);
    let plan = engine.run();
    let expected = vec![
        (PassRef(0), FrameStage::Top),
        (PassRef(2), FrameStage::Graphics),
        (PassRef(3), FrameStage::Compute),
        (PassRef(1), FrameStage::Bottom),
    ];
    assert_eq!(plan, expected);
    assert_eq!(engine.frame().pass_count(), 4);
}

/// The tri-state configuration value maps its explicit value and passes
/// the cascade directives through.
#[test]
fn style_value_map_and_as_ref() {
    let v: StyleValue<u32> = StyleValue::Style(21);
    assert_eq!(v.map(|x| x * 2), StyleValue::Style(42));
    let v: StyleValue<u32> = StyleValue::Inherit;
    assert_eq!(v.map(|x| x * 2), StyleValue::Inherit);
    let v: StyleValue<u32> = StyleValue::Initial;
    assert_eq!(v.as_ref(), StyleValue::Initial);
    let v: StyleValue<u32> = StyleValue::Style(7);
    assert_eq!(v.as_ref(), StyleValue::Style(&7));
}

/// Every node has a reference, in registration order.
#[test]
fn pass_refs_list_all_nodes() {
    let g = FrameGraph::new();
    let p = g.add_graphics_pass();
    let (g, _) = p.finish();
    assert_eq!(g.pass_refs(), vec![PassRef(0), PassRef(1), PassRef(2)]);
}

/// An external input read by a live pass keeps the source sentinel in the
/// live schedule.
#[test]
fn live_schedule_keeps_used_inputs() {
    let mut g = FrameGraph::new();
    let input = g.add_input_buffer(buf_info());
    let mut p = g.add_graphics_pass();
    p.read_buffer(&input).unwrap();
    let out = p.write_buffer(&input).unwrap();
    let (mut g, _) = p.finish();
    g.make_buffer_output(&out).unwrap();
    assert_eq!(run_live(&g).unwrap(), vec![0, 2, 1]);
}

/// Marking a version as a frame output touches only the graph: the
/// version has no consumer afterwards and can still be written.
#[test]
fn output_marking_leaves_registry_unchanged() {
    let g = FrameGraph::new();
    let mut p1 = g.add_graphics_pass();
    let b0 = p1.create_buffer(buf_info());
    let i0 = p1.create_image(img_info());
    let (mut g, _) = p1.finish();
    g.make_buffer_output(&b0).unwrap();
    g.make_image_output(&i0, ImageLayout::Texture).unwrap();
    assert_eq!(g.buffer_consumer(&b0).unwrap(), None);
    assert_eq!(g.image_consumer(&i0).unwrap(), None);
    // A later pass may still write the published version.
    let mut p2 = g.add_graphics_pass();
    let b1 = p2.write_buffer(&b0).unwrap();
    let i1 = p2.write_image(&i0, ImageLayout::Color).unwrap();
    let (g, p2_ref) = p2.finish();
    let p2_id = p2_ref.into_inner().0;
    assert_eq!(
        g.buffer_consumer(&b0).unwrap(),
        Some(ResourceConsumer::Pass(p2_id))
    );
    assert_eq!(
        g.image_consumer(&i0).unwrap(),
        Some(ResourceConsumer::Pass(p2_id))
    );
    assert_eq!(g.buffer_consumer(&b1).unwrap(), None);
    assert_eq!(g.image_consumer(&i1).unwrap(), None);
}
