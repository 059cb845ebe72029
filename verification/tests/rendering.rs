use brush::camera::{CameraView, Mat4Bits, UVec2, Vec2Bits, Vec4Bits};
use brush::config::SplatRenderMode;
use brush::density_control::{compute_gaussian_score, compute_view_metrics, ScoreStep};
use brush::geometry::{
    channels_of, is_spatial, neighbor_windows, one_per_pixel, pixel_position, sample_corners,
    Channel, Corners, Window,
};
use brush::gpu::{
    group_size, kernel_bindings, Buffer, DType, Dispatch, GpuOp, GroupLayout, GroupSize, Kernel,
    Shape, TensorSpec,
};
use brush::message::Vec3Bits;
use brush::npz::{load_tensor_from_npz, NpzError};
use brush::num::{bits_needed, div_ceil, low_u32, multiple_of, F32Bits};
use brush::ply::{save_point_cloud_to_ply, PlyPoint};
use brush::recording::Rgb;
use brush::render::{
    calc_tile_bounds, sh_coeffs_for_degree, sh_degree_from_coeffs, Fusion, MainBackendBase,
    MapUniforms, MaskSource, ProjectUniforms, RasterizeMode, RasterizeUniforms, ShaderLayout,
    SplatShapes,
};
use brush::render_aux::{count_intersections, Fault, ProjectOutput, RenderAux};
use brush::render_bwd::{
    backward, prepare, render_backward, render_splats, saved_buffers, start_render, BackwardInputs,
    BackwardStep, GaussianBackwardState, Parent, RasterizeGrads, RenderPlan, RenderStep,
    NUM_BWD_ARGS,
};
use brush::visualization::{
    collect_points, create_visualization_image, find_span, graded, is_normal_map, mask_bytes,
    save_render_output, RenderFile,
};

const LAYOUT: ShaderLayout = ShaderLayout { tile_width: 16, proj_size: 10 };

fn shapes(n: usize, coeffs: usize) -> SplatShapes {
    SplatShapes {
        means: Shape::D2 { a: n, b: 3 },
        log_scales: Shape::D2 { a: n, b: 3 },
        quats: Shape::D2 { a: n, b: 4 },
        sh_coeffs: Shape::D3 { a: n, b: coeffs, c: 3 },
        raw_opacities: Shape::D1 { a: n },
    }
}

fn row(from: f32) -> Vec4Bits {
    Vec4Bits { x: f(from), y: f(from + 1.0), z: f(from + 2.0), w: f(from + 3.0) }
}

fn camera() -> CameraView {
    CameraView {
        viewmat: Mat4Bits { x: row(0.0), y: row(4.0), z: row(8.0), w: row(12.0) },
        position: color(20.0, 21.0, 22.0),
        focal: Vec2Bits { x: f(30.0), y: f(31.0) },
        center: Vec2Bits { x: f(40.0), y: f(41.0) },
    }
}

fn color(r: f32, g: f32, b: f32) -> Vec3Bits {
    Vec3Bits { x: f(r), y: f(g), z: f(b) }
}

fn floats(shape: Shape) -> TensorSpec {
    TensorSpec { shape, dtype: DType::F32 }
}

fn ints(shape: Shape) -> TensorSpec {
    TensorSpec { shape, dtype: DType::U32 }
}

#[test]
fn whole_numbers() {
    assert_eq!(div_ceil(33, 16), 3);
    assert_eq!(div_ceil(32, 16), 2);
    assert_eq!(div_ceil(0, 16), 0);
    assert_eq!(div_ceil(u32::MAX, 1), u32::MAX);
    assert_eq!(bits_needed(0), 0);
    assert_eq!(bits_needed(1), 1);
    assert_eq!(bits_needed(255), 8);
    assert_eq!(bits_needed(256), 9);
    assert_eq!(bits_needed(u32::MAX), 32);
    assert!(multiple_of(0, 0) && !multiple_of(5, 0) && multiple_of(6, 3));
    assert_eq!(low_u32(0x1_0000_0005), 5);
}

#[test]
fn tiles_cover_the_picture() {
    let t = calc_tile_bounds(UVec2 { x: 640, y: 361 }, 16);
    assert_eq!(t, UVec2 { x: 40, y: 23 });
}

#[test]
fn harmonics_by_degree() {
    for degree in 0..5 {
        assert_eq!(sh_degree_from_coeffs(sh_coeffs_for_degree(degree)), Some(degree));
    }
    assert_eq!(sh_degree_from_coeffs(5), None);
    assert_eq!(sh_degree_from_coeffs(36), None);
}

#[test]
fn splats_have_to_fit_together() {
    assert!(shapes(7, 16).is_drawable());
    assert!(!shapes(7, 5).is_drawable());
    let mut s = shapes(7, 4);
    s.quats = Shape::D2 { a: 6, b: 4 };
    assert!(!s.is_drawable());
    s = shapes(7, 4);
    s.means = Shape::D1 { a: 7 };
    assert!(!s.is_drawable());
}

#[test]
fn the_first_pass() {
    let size = UVec2 { x: 100, y: 50 };
    let mip = SplatRenderMode::Mip;
    let plan = MainBackendBase::project(&shapes(5, 9), camera(), size, mip, LAYOUT);
    assert_eq!(plan.ops.len(), 14);
    assert_eq!(
        plan.ops[8],
        GpuOp::Launch {
            kernel: Kernel::ProjectSplats { mip: true },
            dispatch: Dispatch::Items { count: 5 }
        }
    );
    assert_eq!(
        plan.ops[9],
        GpuOp::Sort {
            keys: Buffer::Depths,
            values: Buffer::GlobalFromPresortGid,
            sorted_keys: Buffer::SortedDepths,
            sorted_values: Buffer::GlobalFromCompactGid,
            bits: 32,
            limit: Some(Buffer::NumVisible)
        }
    );
    assert_eq!(
        plan.ops[10],
        GpuOp::Empty {
            buffer: Buffer::ProjectedSplats,
            spec: floats(Shape::D2 { a: 5, b: 10 })
        }
    );
    assert_eq!(
        plan.output.project_uniforms,
        ProjectUniforms {
            viewmat: camera().viewmat,
            camera_position: Vec4Bits { x: f(20.0), y: f(21.0), z: f(22.0), w: f(0.0) },
            focal: camera().focal,
            pixel_center: camera().center,
            img_size: size,
            tile_bounds: UVec2 { x: 7, y: 4 },
            sh_degree: 2,
            total_splats: 5,
            pad_a: 0,
            pad_b: 0
        }
    );
    assert_eq!(plan.output.img_size, size);
    assert_eq!(plan.output.num_visible, Buffer::NumVisible);
}

#[test]
fn the_first_pass_put_off() {
    let size = UVec2 { x: 100, y: 50 };
    for mode in [SplatRenderMode::Default, SplatRenderMode::Mip] {
        let plan = MainBackendBase::project(&shapes(5, 9), camera(), size, mode, LAYOUT);
        let (op, output) = Fusion::project(&shapes(5, 9), camera(), size, mode, LAYOUT);
        assert_eq!(op.desc.name, "project_prepare");
        assert_eq!(op.desc.inputs.len(), 5);
        let projected = (Buffer::ProjectedSplats, floats(Shape::D2 { a: 5, b: 10 }));
        assert_eq!(op.desc.outputs[0], projected);
        assert_eq!(op.desc.outputs[3], (Buffer::CumTilesHit, ints(Shape::D1 { a: 5 })));
        assert_eq!(output, plan.output);
        let performed = op.execute(&shapes(5, 9), LAYOUT);
        assert_eq!(performed.ops, plan.ops);
        assert_eq!(performed.output, plan.output);
    }
}

#[test]
fn the_second_pass() {
    let size = UVec2 { x: 100, y: 50 };
    let behind = color(0.25, 0.5, 0.75);
    let first =
        MainBackendBase::project(&shapes(5, 9), camera(), size, SplatRenderMode::Default, LAYOUT);
    let mode = RasterizeMode { bwd_info: true, high_error_info: true };
    let plan = MainBackendBase::rasterize(&first.output, 77, behind, mode, true, LAYOUT);
    let ops = &plan.ops;
    assert!(matches!(ops[3], GpuOp::Sort { bits: 5, limit: None, .. }));
    assert_eq!(
        ops[4],
        GpuOp::Zeros {
            buffer: Buffer::TileOffsets,
            spec: ints(Shape::D3 { a: 4, b: 7, c: 2 })
        }
    );
    assert_eq!(ops[5], GpuOp::Constant { buffer: Buffer::NumIntersections, value: 77 });
    assert_eq!(
        ops[7],
        GpuOp::Empty {
            buffer: Buffer::OutImg,
            spec: floats(Shape::D3 { a: 50, b: 100, c: 4 })
        }
    );
    assert_eq!(
        ops[10],
        GpuOp::Launch {
            kernel: Kernel::Rasterize { bwd_info: true, high_error_info: true },
            dispatch: Dispatch::Groups { count: 28 }
        }
    );
    let tile_bounds = UVec2 { x: 7, y: 4 };
    let background = Vec4Bits { x: f(0.25), y: f(0.5), z: f(0.75), w: f(1.0) };
    assert_eq!(plan.map_uniforms, MapUniforms { tile_bounds });
    assert_eq!(plan.uniforms, RasterizeUniforms { tile_bounds, img_size: size, background });
    let plain = RasterizeMode { bwd_info: false, high_error_info: true };
    let plan = MainBackendBase::rasterize(&first.output, 0, behind, plain, false, LAYOUT);
    assert_eq!(
        plan.ops[8],
        GpuOp::Empty { buffer: Buffer::Visible, spec: floats(Shape::D1 { a: 1 }) }
    );
}

#[test]
fn what_goes_along_with_a_picture() {
    let size = UVec2 { x: 100, y: 50 };
    let first =
        MainBackendBase::project(&shapes(5, 9), camera(), size, SplatRenderMode::Default, LAYOUT);
    let mode = RasterizeMode { bwd_info: true, high_error_info: false };
    let behind = color(0.0, 0.0, 0.0);
    let plan = MainBackendBase::rasterize(&first.output, 77, behind, mode, false, LAYOUT);
    assert_eq!(plan.out_img, Buffer::OutImg);
    assert_eq!(plan.isects, Buffer::SortedCompactGids);
    assert_eq!(plan.aux.num_intersections, 77);
    assert_eq!(plan.aux.img_size, size);
    assert_eq!(plan.aux.num_visible, first.output.num_visible);
    assert_eq!(plan.aux.visible, Buffer::Visible);
    assert_eq!(plan.aux.tile_offsets, Buffer::TileOffsets);
    assert_eq!(plan.aux.high_error_count, Buffer::HighErrorCount);
    let aux = RenderAux::read(&plan.aux, 3, vec![f(0.5)], vec![0; 56], vec![9]);
    assert_eq!((aux.num_visible, aux.num_intersections, aux.img_size), (3, 77, size));
    assert_eq!(aux.visible, vec![f(0.5)]);
    assert_eq!(aux.high_error_count, vec![9]);
    assert_eq!(aux.validate(), Ok(()));
    assert_eq!(aux.calc_tile_depth(16), (vec![0; 28], 4, 7));
}

#[test]
fn the_second_pass_put_off() {
    let size = UVec2 { x: 100, y: 50 };
    let behind = color(0.25, 0.5, 0.75);
    let (_, output) =
        Fusion::project(&shapes(5, 9), camera(), size, SplatRenderMode::Default, LAYOUT);
    for bwd_info in [false, true] {
        for high_error_info in [false, true] {
            let mode = RasterizeMode { bwd_info, high_error_info };
            let fused =
                Fusion::rasterize(&output, 77, behind, mode, high_error_info, LAYOUT);
            let plan =
                MainBackendBase::rasterize(&output, 77, behind, mode, high_error_info, LAYOUT);
            assert_eq!((fused.out_img, fused.aux, fused.isects), (plan.out_img, plan.aux, plan.isects));
            let performed = fused.op.execute(5, LAYOUT);
            assert_eq!(performed.ops, plan.ops);
            assert_eq!(performed.uniforms, plan.uniforms);
            assert_eq!(performed.map_uniforms, plan.map_uniforms);
            assert_eq!(performed.aux, plan.aux);
        }
    }
    let mode = RasterizeMode { bwd_info: true, high_error_info: true };
    let fused = Fusion::rasterize(&output, 77, behind, mode, true, LAYOUT);
    assert_eq!(fused.mask, MaskSource::Given);
    assert_eq!(fused.op.desc.outputs[0].1, floats(Shape::D3 { a: 50, b: 100, c: 4 }));
    assert_eq!(
        fused.op.desc.outputs[4],
        (Buffer::HighErrorCount, ints(Shape::D1 { a: 5 }))
    );
    let plain = RasterizeMode { bwd_info: false, high_error_info: true };
    let fused = Fusion::rasterize(&output, 0, behind, plain, false, LAYOUT);
    assert_eq!(fused.mask, MaskSource::Dummy);
    assert_eq!(fused.op.desc.outputs[0].1, ints(Shape::D3 { a: 50, b: 100, c: 1 }));
    assert_eq!(fused.op.desc.outputs[2].1, ints(Shape::D1 { a: 1 }));
}

fn bwd_kernel(render_depth: bool) -> Kernel {
    Kernel::RasterizeBackwards { hard_float: true, webgpu: false, render_depth }
}

fn bwd_inputs(render_depth: bool) -> BackwardInputs {
    BackwardInputs {
        rows: 50,
        cols: 100,
        num_points: 5,
        sh_degree: 1,
        render_depth,
        hard_floats: true,
        webgpu: false,
    }
}

#[test]
fn kernels_run_in_groups() {
    let layout = GroupLayout {
        project_splats: 64,
        project_visible: 32,
        map_gaussians: 128,
        project_backwards: 16,
        checks_per_iter: 8,
    };
    let of = |kernel| group_size(kernel, layout);
    let offsets = of(Kernel::GetTileOffsets).unwrap();
    assert_eq!((offsets.threads, offsets.items_per_thread), (256, 8));
    assert_eq!(offsets.items(), Some(2048));
    assert_eq!(of(Kernel::ProjectSplats { mip: true }).unwrap().items(), Some(64));
    assert_eq!(of(Kernel::ProjectVisible { mip: true }).unwrap().items(), Some(32));
    assert_eq!(of(Kernel::MapGaussiansToIntersect).unwrap().items(), Some(128));
    assert_eq!(of(Kernel::ProjectBackwards { render_depth: true }).unwrap().items(), Some(16));
    assert_eq!(of(Kernel::Rasterize { bwd_info: true, high_error_info: false }), None);
    assert_eq!(of(bwd_kernel(true)), None);
    assert_eq!(GroupSize { threads: 1 << 31, items_per_thread: 2 }.items(), None);
    for op in render_backward(bwd_inputs(true), 16).ops {
        if let GpuOp::Launch { kernel, dispatch } = op {
            assert_eq!(of(kernel).is_none(), matches!(dispatch, Dispatch::Groups { .. }));
        }
    }
}

#[test]
fn the_device_decides_on_the_kernel_of_the_way_back() {
    for (hard_floats, webgpu) in [(true, false), (false, true)] {
        let inputs = BackwardInputs { hard_floats, webgpu, ..bwd_inputs(false) };
        let ops = render_backward(inputs, 16).ops;
        let kernel =
            Kernel::RasterizeBackwards { hard_float: hard_floats, webgpu, render_depth: false };
        assert!(matches!(ops[18], GpuOp::Launch { kernel: k, .. } if k == kernel));
    }
}

#[test]
fn gradients_are_made_once() {
    for render_depth in [false, true] {
        let ops = render_backward(bwd_inputs(render_depth), 16).ops;
        for buffer in [
            Buffer::VMeans,
            Buffer::VQuats,
            Buffer::VScales,
            Buffer::VCoeffs,
            Buffer::VRawOpac,
            Buffer::VRefineWeight,
        ] {
            let touching = ops.iter().filter(|op| match **op {
                GpuOp::Zeros { buffer: b, .. }
                | GpuOp::Empty { buffer: b, .. }
                | GpuOp::Constant { buffer: b, .. } => b == buffer,
                GpuOp::Channels { from, to, .. } => from == buffer || to == buffer,
                GpuOp::PrefixSum { to, .. } => to == buffer,
                GpuOp::Sort { sorted_keys, sorted_values, .. } => {
                    sorted_keys == buffer || sorted_values == buffer
                }
                GpuOp::Contiguous { .. } | GpuOp::Launch { .. } => false,
            });
            assert_eq!(touching.count(), 1);
        }
    }
}

#[test]
fn kernels_get_their_buffers() {
    let all = kernel_bindings(Kernel::Rasterize { bwd_info: true, high_error_info: true });
    assert_eq!(all.len(), 8);
    assert_eq!(all[7], Buffer::HighErrorCount);
    assert_eq!(
        kernel_bindings(Kernel::Rasterize { bwd_info: false, high_error_info: true }).len(),
        4
    );
    assert_eq!(kernel_bindings(bwd_kernel(true)).len(), 14);
    assert_eq!(
        kernel_bindings(bwd_kernel(false))[5],
        Buffer::OutImg
    );
    assert_eq!(kernel_bindings(Kernel::ProjectBackwards { render_depth: true }).len(), 12);
    assert_eq!(kernel_bindings(Kernel::ProjectVisible { mip: false })[4], Buffer::ShCoeffs);
}

fn check_pass(ops: &[GpuOp], there: &[Buffer]) {
    let mut memory: Vec<Buffer> = there.to_vec();
    for op in ops {
        match *op {
            GpuOp::Contiguous { buffer } => assert!(memory.contains(&buffer)),
            GpuOp::Zeros { buffer, .. }
            | GpuOp::Empty { buffer, .. }
            | GpuOp::Constant { buffer, .. } => memory.push(buffer),
            GpuOp::Channels { from, to, .. } | GpuOp::PrefixSum { from, to } => {
                assert!(memory.contains(&from));
                memory.push(to);
            }
            GpuOp::Sort { keys, values, sorted_keys, sorted_values, .. } => {
                assert!(memory.contains(&keys) && memory.contains(&values));
                memory.push(sorted_keys);
                memory.push(sorted_values);
            }
            GpuOp::Launch { kernel, .. } => {
                for b in kernel_bindings(kernel) {
                    assert!(memory.contains(&b), "{:?} {:?}", kernel, b);
                }
            }
        }
    }
}

#[test]
fn the_way_back() {
    for render_depth in [false, true] {
        let inputs = bwd_inputs(render_depth);
        let plan = render_backward(inputs, 16);
        let ops = plan.ops;
        assert_eq!(ops.len(), if render_depth { 28 } else { 20 });
        assert_eq!(
            ops[12],
            GpuOp::Zeros {
                buffer: Buffer::VCoeffs,
                spec: floats(Shape::D3 { a: 5, b: 4, c: 3 })
            }
        );
        assert_eq!(
            ops[ops.len() - 2],
            GpuOp::Launch {
                kernel: bwd_kernel(render_depth),
                dispatch: Dispatch::Groups { count: 28 }
            }
        );
        check_pass(
            &ops,
            &[
                Buffer::VOutput,
                Buffer::OutImg,
                Buffer::Means,
                Buffer::LogScales,
                Buffer::Quats,
                Buffer::ProjectedSplats,
                Buffer::Uniforms,
                Buffer::SortedCompactGids,
                Buffer::GlobalFromCompactGid,
                Buffer::TileOffsets,
            ],
        );
    }
}

fn picture(n: usize, differentiable: bool, last_hit: Option<u32>) -> RenderPlan {
    render_splats(
        &shapes(n, 16),
        camera(),
        UVec2 { x: 100, y: 50 },
        SplatRenderMode::Mip,
        color(0.25, 0.5, 0.75),
        differentiable,
        last_hit,
        LAYOUT,
    )
}

fn kept() -> GaussianBackwardState {
    picture(5, true, Some(77)).state.unwrap()
}

#[test]
fn the_way_back_put_off() {
    let state = kept();
    let (op, grads) = Fusion::rasterize_bwd(5, state.background, state.img_size);
    assert_eq!(op.desc.name, "rasterize_bwd");
    assert_eq!(
        op.desc.outputs[0],
        (Buffer::VProjectedSplats, floats(Shape::D2 { a: 5, b: 8 }))
    );
    let saved = saved_buffers(&state);
    for b in &op.desc.inputs {
        assert!(saved.contains(b) || *b == Buffer::VOutput);
    }
    let call = op.execute();
    assert_eq!(call.background, color(0.25, 0.5, 0.75));
    assert_eq!(call.img_size, UVec2 { x: 100, y: 50 });
    assert_eq!((call.out_img, call.v_output), (Buffer::OutImg, Buffer::VOutput));
    assert_eq!(call.grads, grads);
    let uniforms = state.project_uniforms;
    let (op, splats) = Fusion::project_bwd(5, uniforms, 1, SplatRenderMode::Mip, grads);
    assert_eq!(op.desc.name, "project_bwd");
    assert_eq!(op.desc.inputs.len(), 9);
    assert_eq!(
        op.desc.outputs[3],
        (Buffer::VCoeffs, floats(Shape::D3 { a: 5, b: 4, c: 3 }))
    );
    for b in &op.desc.inputs {
        assert!(saved.contains(b) || call_gives(&grads, *b));
    }
    let call = op.execute();
    assert_eq!(call.render_mode, SplatRenderMode::Mip);
    assert_eq!(call.project_uniforms, uniforms);
    assert_eq!(call.sh_degree, 1);
    assert_eq!(call.rasterize_grads, grads);
    assert_eq!(call.grads, splats);
    assert_eq!((splats.v_normals, splats.v_plane_distances), (None, None));
}

fn call_gives(grads: &RasterizeGrads, b: Buffer) -> bool {
    [grads.v_projected_splats, grads.v_raw_opac, grads.v_refine_weight].contains(&b)
}

#[test]
fn normals_and_planes_get_gradients() {
    for render_depth in [false, true] {
        let inputs = bwd_inputs(render_depth);
        let plan = render_backward(inputs, 16);
        assert_eq!(plan.grads.v_normals, Some(Buffer::VNormals));
        assert_eq!(plan.grads.v_plane_distances, Some(Buffer::VPlaneDistances));
        let made = |buffer: Buffer| {
            plan.ops.iter().find_map(|op| match op {
                GpuOp::Zeros { buffer: b, spec } if *b == buffer => Some(spec.shape),
                _ => None,
            })
        };
        assert_eq!(made(Buffer::VNormals), Some(Shape::D2 { a: 5, b: 3 }));
        assert_eq!(made(Buffer::VPlaneDistances), Some(Shape::D1 { a: 5 }));
        let used = plan.ops.iter().any(|op| match op {
            GpuOp::Launch { kernel, .. } => kernel_bindings(*kernel).contains(&Buffer::VNormals),
            _ => false,
        });
        assert_eq!(used, render_depth);
    }
}

#[test]
fn gradients_go_to_those_who_want_them() {
    assert_eq!(prepare().len(), NUM_BWD_ARGS);
    let run = backward(&kept(), 5, [true, true, false, false, true, false]);
    assert_eq!(
        run.steps,
        vec![
            BackwardStep::ConsumeOutput,
            BackwardStep::RasterizeBwd,
            BackwardStep::ProjectBwd,
            BackwardStep::Register { parent: Parent::Means, gradient: Buffer::VMeans },
            BackwardStep::Register {
                parent: Parent::RefineWeight,
                gradient: Buffer::VRefineWeight
            },
            BackwardStep::Register { parent: Parent::Coeffs, gradient: Buffer::VCoeffs },
        ]
    );
    assert_eq!(run.rasterize.execute().background, color(0.25, 0.5, 0.75));
    let call = run.project.execute();
    assert_eq!((call.render_mode, call.sh_degree), (SplatRenderMode::Mip, 3));
    assert_eq!(backward(&kept(), 5, [false; 6]).steps.len(), 3);
}

#[test]
fn drawing_in_a_way_that_can_be_gone_back() {
    let size = UVec2 { x: 100, y: 50 };
    let plan = picture(5, true, Some(77));
    assert_eq!(plan.steps.len(), 9);
    assert_eq!(plan.steps[4], RenderStep::ReadLastHit { at: Some(4) });
    assert_eq!(plan.steps[6], RenderStep::SaveState);
    assert_eq!(plan.rasterize.mode, RasterizeMode { bwd_info: true, high_error_info: false });
    assert_eq!(plan.output.img_spec, floats(Shape::D3 { a: 50, b: 100, c: 4 }));
    assert_eq!(plan.output.render_aux.img_size, size);
    assert_eq!(plan.output.render_aux.num_intersections, 77);
    assert_eq!(
        plan.rasterize.desc.outputs[3],
        (Buffer::Visible, floats(Shape::D1 { a: 5 }))
    );
    assert_eq!(
        plan.rasterize.desc.outputs[4],
        (Buffer::HighErrorCount, ints(Shape::D1 { a: 1 }))
    );
    let holder = plan.output.refine_weight_holder;
    assert_eq!((holder.shape, holder.value), (Shape::D1 { a: 1 }, f(0.0)));
    assert!(holder.requires_grad);
    let state = plan.state.unwrap();
    assert_eq!((state.sh_degree, state.render_mode), (3, SplatRenderMode::Mip));
    assert_eq!((state.img_size, state.background), (size, color(0.25, 0.5, 0.75)));
    let plan = picture(5, false, Some(77));
    assert_eq!(plan.steps.len(), 8);
    assert_eq!(plan.steps[6], RenderStep::Finish { differentiable: false });
    assert!(plan.state.is_none());
    let start =
        start_render(&shapes(5, 16), camera(), size, SplatRenderMode::Mip, LAYOUT);
    assert_eq!(start.steps[..], plan.steps[..5]);
    assert_eq!(start.projected.img_size, size);
}

#[test]
fn a_picture_without_splats() {
    let plan = picture(0, false, None);
    assert_eq!(plan.steps[4], RenderStep::ReadLastHit { at: None });
    assert_eq!(plan.output.render_aux.num_intersections, 0);
    assert_eq!(plan.rasterize.desc.outputs[2].1, ints(Shape::D1 { a: 1 }));
    assert_eq!(count_intersections(0, Some(3)), 0);
    assert_eq!(count_intersections(2, Some(3)), 3);
}

fn projected(num_visible: u32, gids: Vec<u32>, hits: Vec<u32>) -> ProjectOutput {
    let size = UVec2 { x: 16, y: 16 };
    let mode = SplatRenderMode::Default;
    let (_, output) = Fusion::project(&shapes(gids.len(), 1), camera(), size, mode, LAYOUT);
    let read = ProjectOutput::read(&output, num_visible, gids, hits);
    assert_eq!(read.img_size, size);
    read
}

#[test]
fn the_first_pass_is_checked() {
    let good = projected(2, vec![1, 0, 9], vec![1, 4, 4]);
    assert_eq!(good.validate(), Ok(()));
    assert_eq!(good.read_num_intersections(), 4);
    assert_eq!(projected(0, vec![], vec![]).read_num_intersections(), 0);
    let fault = projected(4, vec![0, 0, 0], vec![0, 0, 0]).validate().unwrap_err();
    assert_eq!(fault, Fault::TooManyVisible { num_visible: 4, total_splats: 3 });
    assert_eq!(fault.message(), "num_visible (4) > total_splats (3)");
    let fault = projected(3, vec![0, 5, 9], vec![0, 0, 0]).validate().unwrap_err();
    assert_eq!(
        fault.message(),
        "Invalid gaussian ID in global_from_compact_gid: 5 >= 3"
    );
}

fn drawn(num_visible: u32, tile_offsets: Vec<u32>) -> RenderAux {
    RenderAux {
        num_visible,
        num_intersections: 0,
        visible: vec![],
        tile_offsets,
        img_size: UVec2 { x: 32, y: 16 },
        high_error_count: vec![],
    }
}

#[test]
fn the_second_pass_is_checked() {
    let good = drawn(3, vec![0, 2, 2, 5]);
    assert_eq!(good.validate(), Ok(()));
    assert_eq!(good.get_num_visible(), 3);
    assert_eq!(good.calc_tile_depth(16), (vec![2, 3], 1, 2));
    assert_eq!(
        drawn(3, vec![0, 2, 5, 2]).validate().unwrap_err().message(),
        "Invalid tile offsets: start 5 > end 2"
    );
    assert_eq!(
        drawn(3, vec![0, 4, 4, 4]).validate().unwrap_err().message(),
        "Tile has more hits (4) than visible splats (3)"
    );
    assert_eq!(drawn(3, vec![5, 2, 0, 0]).calc_tile_depth(16).0, vec![u32::MAX - 2, 0]);
}

#[test]
fn splats_are_scored_view_by_view() {
    let steps = compute_gaussian_score(8, 2);
    assert_eq!(steps[0], ScoreStep::ClearSums { num_splats: 8 });
    assert_eq!(steps.len(), 2 + 2 * 7);
    assert_eq!(steps.iter().filter(|s| **s == ScoreStep::NextBatch).count(), 2);
    assert_eq!(steps.iter().filter(|s| **s == ScoreStep::AddCounts).count(), 2);
    assert_eq!(*steps.last().unwrap(), ScoreStep::Scale { n_views: 2 });
    assert_eq!(compute_gaussian_score(8, -1).len(), 2);
    assert_eq!(
        compute_view_metrics()[4],
        ScoreStep::Rasterize {
            mode: RasterizeMode { bwd_info: true, high_error_info: true },
            background: color(0.0, 0.0, 0.0),
            masked: true
        }
    );
}

#[test]
fn parts_of_a_picture_with_depth() {
    assert_eq!(channels_of(10, Channel::Normal), Some((4, 7)));
    assert_eq!(channels_of(10, Channel::Alpha), Some((3, 4)));
    assert_eq!(channels_of(9, Channel::Depth), None);
    assert!(is_spatial(3) && !is_spatial(4));
}

#[test]
fn neighbors_of_inner_pixels() {
    let n = neighbor_windows(5, 7);
    assert_eq!(n.top, Window { row_start: 0, row_end: 3, col_start: 1, col_end: 6 });
    assert_eq!(n.bottom, Window { row_start: 2, row_end: 5, col_start: 1, col_end: 6 });
    assert_eq!(n.left, Window { row_start: 1, row_end: 4, col_start: 0, col_end: 5 });
    assert_eq!(n.right, Window { row_start: 1, row_end: 4, col_start: 2, col_end: 7 });
}

#[test]
fn pixels_around_a_place() {
    assert_eq!(sample_corners(1, 1, 4, 3), Corners { q11: 5, q21: 6, q12: 9, q22: 10 });
    assert_eq!(sample_corners(3, 2, 4, 3), Corners { q11: 11, q21: 11, q12: 11, q22: 11 });
    assert!(one_per_pixel(12, 4, 3) && !one_per_pixel(11, 4, 3));
    assert_eq!(pixel_position(9, 4), (1, 2));
}

fn f(v: f32) -> F32Bits {
    F32Bits { bits: v.to_bits() }
}

#[test]
fn the_range_of_positive_values() {
    let data = vec![f(0.0), f(-3.0), f(2.0), f(f32::NAN), f(0.5)];
    let span = find_span(&data).unwrap();
    assert_eq!((span.min, span.max), (f(0.5), f(2.0)));
    assert_eq!(graded(&data, Some(span)), vec![false, false, true, false, true]);
    assert!(find_span(&vec![f(-1.0)]).is_none());
    let one = vec![f(2.0)];
    assert_eq!(graded(&one, find_span(&one)), vec![false]);
    let far = find_span(&vec![f(f32::INFINITY)]).unwrap();
    assert_eq!((far.min, far.max), (f(f32::MAX), f(f32::INFINITY)));
}

#[test]
fn points_come_from_pixels() {
    let depth = vec![f(0.0), f(0.5), f(1.0), f(1.1), f(-1.0), f(f32::NAN)];
    let rgba: Vec<u8> = (0..24).collect();
    let points = collect_points(&depth, &rgba, 3, 2);
    let at: Vec<(usize, usize)> = points.iter().map(|p| (p.x, p.y)).collect();
    assert_eq!(at, vec![(1, 0), (2, 0), (2, 1)]);
    assert_eq!((points[0].red, points[0].green, points[0].blue), (4, 5, 6));
    assert_eq!(points[0].depth, f(0.5));
}

#[test]
fn masks_become_pictures() {
    assert_eq!(mask_bytes(&vec![true, false]), vec![255, 0]);
    assert!(is_normal_map(3) && !is_normal_map(4));
}

#[test]
fn renderings_are_saved_under_their_prefix() {
    let near = vec![f(0.0), f(0.5)];
    let rgba: Vec<u8> = (0..8).collect();
    let saved = save_render_output("r", &near, &rgba, 2, 1, true);
    let paths: Vec<String> = saved.files.iter().map(|s| s.path.clone()).collect();
    assert_eq!(
        paths,
        vec![
            "r_render_rgb.png",
            "r_render_normal.png",
            "r_render_depth.png",
            "r_render_distance.png",
            "r_pointcloud.ply"
        ]
    );
    assert_eq!((saved.files[1].first_channel, saved.files[1].end_channel), (4, 7));
    assert_eq!(saved.files[4].file, RenderFile::PointCloud);
    assert_eq!(saved.points.len(), 1);
    assert_eq!((saved.points[0].x, saved.points[0].red), (1, 4));
    let unasked = save_render_output("r", &near, &rgba, 2, 1, false);
    assert_eq!((unasked.files.len(), unasked.points.len()), (4, 0));
    let empty = save_render_output("r", &vec![f(0.0), f(-1.0)], &rgba, 2, 1, true);
    assert_eq!((empty.files.len(), empty.points.len()), (4, 0));
}

#[test]
fn six_pictures_in_a_grid() {
    let rgb = |v: u8| vec![v, v + 1, v + 2, v + 3, v + 4, v + 5];
    let rgba: Vec<u8> = vec![70, 71, 72, 73, 74, 75, 76, 77];
    let out = create_visualization_image(
        &rgb(0),
        rgba,
        &rgb(10),
        &rgb(20),
        &rgb(30),
        &rgb(40),
        2,
        1,
    );
    assert_eq!(
        out,
        vec![
            0, 1, 2, 255, 3, 4, 5, 255, 70, 71, 72, 73, 74, 75, 76, 77, 10, 11, 12, 255, 13, 14,
            15, 255, 20, 21, 22, 255, 23, 24, 25, 255, 30, 31, 32, 255, 33, 34, 35, 255, 40, 41,
            42, 255, 43, 44, 45, 255,
        ]
    );
}

#[test]
fn longer_buffers_are_cut_off() {
    let rgb = |v: u8| vec![v, v + 1, v + 2, 99];
    let out =
        create_visualization_image(&rgb(0), vec![7; 9], &rgb(10), &rgb(20), &rgb(30), &rgb(40), 1, 1);
    assert_eq!(
        out,
        vec![
            0, 1, 2, 255, 7, 7, 7, 7, 10, 11, 12, 255, 20, 21, 22, 255, 30, 31, 32, 255, 40, 41,
            42, 255,
        ]
    );
}

#[test]
fn point_clouds_as_text() {
    let point = |x: &str| PlyPoint { x: x.to_string(), y: "2".to_string(), z: "-0.5".to_string() };
    let points = vec![point("1"), point("3")];
    let colors = vec![Rgb { r: 255, g: 0, b: 7 }, Rgb { r: 1, g: 2, b: 3 }];
    assert_eq!(
        save_point_cloud_to_ply(&points, Some(&colors)),
        "ply\nformat ascii 1.0\nelement vertex 2\nproperty float x\nproperty float y\n\
         property float z\nproperty uchar red\nproperty uchar green\nproperty uchar blue\n\
         end_header\n1 2 -0.5 255 0 7\n3 2 -0.5 1 2 3\n"
    );
    assert_eq!(
        save_point_cloud_to_ply(&vec![point("9")], None),
        "ply\nformat ascii 1.0\nelement vertex 1\nproperty float x\nproperty float y\n\
         property float z\nend_header\n9 2 -0.5\n"
    );
}

#[test]
fn arrays_of_the_wrong_rank() {
    assert_eq!(load_tensor_from_npz(Some(vec![3, 4]), 2), Ok(vec![3, 4]));
    let e = load_tensor_from_npz(Some(vec![3]), 2).unwrap_err();
    assert_eq!(e, NpzError::WrongRank { expected: 2, got: 1 });
    assert_eq!(
        e.message("depth"),
        "Mismatched dimensions for tensor 'depth'. Expected 2, got 1"
    );
    let e = load_tensor_from_npz(None, 2).unwrap_err();
    assert_eq!(e.message("depth"), "Tensor 'depth' not found in NPZ archive");
}
