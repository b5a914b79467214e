use vent_engine::logging::{level_color, LogColor, LogLevel};
use vent_engine::render::device::{
    depth_format_candidates, descriptor_pool_size, get_depth_format, get_supported_format,
    next_frame, select_queue_families, DeviceQueues, FormatCandidate, ImageTiling,
    FORMAT_D16_UNORM, FORMAT_D24_UNORM_S8_UINT, FORMAT_D32_SFLOAT,
    FORMAT_FEATURE_DEPTH_STENCIL_ATTACHMENT,
};
use vent_engine::render::indices::{IndexType, Indices};
use vent_engine::render::memory::MemoryAllocator;
use vent_engine::render::pipeline::{
    cull_mode_for, CullMode,
    conv_primitive_mode, conv_shader_stage, group_meshes_by_pipeline, ExecutionModel,
    PrimitiveMode, PrimitiveTopology, STAGE_FRAGMENT, STAGE_MESH, STAGE_TASK, STAGE_VERTEX,
};
use vent_engine::render::sampler::{
    convert_sampler, convert_wrapping_mode, Filter, MagFilter, MinFilter, Sampler,
    SamplerAddressMode, SamplerMipmapMode, WrappingMode,
};
use vent_engine::render::swapchain::{
    plan_swapchain, Extent2D, SurfaceCapabilities, PRESENT_MODE_FIFO, PRESENT_MODE_MAILBOX,
};
use vent_engine::render::texture::{
    mip_blits, mip_commands, solid_color_bytes, ImageLayout, MipBlit, MipCommand,
};

#[test]
fn indices_len_and_bytes() {
    let a = Indices::U8(vec![1, 2, 3]);
    let b = Indices::U16(vec![1, 2, 3]);
    let c = Indices::U32(vec![1, 2]);
    let e = Indices::U32(vec![]);
    assert_eq!(a.len(), 3);
    assert_eq!(b.len(), 3);
    assert_eq!(c.len(), 2);
    assert!(e.is_empty());
    assert!(!a.is_empty());
    assert_eq!(a.get_slice(), &[1, 2, 3]);
    assert_eq!(b.get_slice().len(), 6);
    let le16: Vec<u8> = [1u16, 2, 3].iter().flat_map(|v| v.to_le_bytes()).collect();
    let be16: Vec<u8> = [1u16, 2, 3].iter().flat_map(|v| v.to_be_bytes()).collect();
    assert!(b.get_slice() == &le16[..] || b.get_slice() == &be16[..]);
    let big = Indices::U32(vec![0x0102_0304]);
    assert!(big.get_slice() == &[4, 3, 2, 1] || big.get_slice() == &[1, 2, 3, 4]);
    assert_eq!(c.get_slice().len(), 8);
    assert_eq!(c.get_slice(), &[1u32.to_ne_bytes(), 2u32.to_ne_bytes()].concat()[..]);
    assert_eq!(a.vk_type(), IndexType::Uint8);
    assert_eq!(b.vk_type(), IndexType::Uint16);
    assert_eq!(c.vk_type(), IndexType::Uint32);
}

#[test]
fn memory_type_first_suitable() {
    let alloc = MemoryAllocator::new(vec![0b0001, 0b0110, 0b0111, 0b0010]);
    // type 1 has flags 0b0110 but bit 1 is not allowed; type 2 is the first
    assert_eq!(alloc.find_memorytype_index(0b1101, 0b0110), Some(2));
    assert_eq!(alloc.find_memorytype_index(0b1111, 0b0010), Some(1));
    assert_eq!(alloc.find_memorytype_index(0b0001, 0b0010), None);
    assert_eq!(alloc.find_memorytype_index(0b1111, 0), Some(0));
    let empty = MemoryAllocator::new(vec![]);
    assert_eq!(empty.find_memorytype_index(u32::MAX, 0), None);
}

fn caps(current_width: u32) -> SurfaceCapabilities {
    SurfaceCapabilities {
        min_image_count: 2,
        max_image_count: 3,
        current_extent: Extent2D { width: current_width, height: 600 },
        min_image_extent: Extent2D { width: 100, height: 100 },
        max_image_extent: Extent2D { width: 1000, height: 500 },
        supported_transforms: 0b11,
        current_transform: 2,
    }
}

#[test]
fn swapchain_plan_uses_current_extent() {
    let plan = plan_swapchain(&caps(800), Extent2D { width: 5, height: 5 }, &[PRESENT_MODE_FIFO]);
    assert_eq!(plan.image_count, 3);
    assert_eq!(plan.extent, Extent2D { width: 800, height: 600 });
    assert_eq!(plan.pre_transform, 1);
    assert_eq!(plan.present_mode, PRESENT_MODE_FIFO);
}

#[test]
fn swapchain_plan_clamps_window_and_prefers_mailbox() {
    let mut c = caps(u32::MAX);
    c.max_image_count = 2;
    c.supported_transforms = 0b10;
    let plan = plan_swapchain(&c, Extent2D { width: 5000, height: 50 }, &[0, PRESENT_MODE_MAILBOX]);
    assert_eq!(plan.image_count, 2);
    assert_eq!(plan.extent, Extent2D { width: 1000, height: 100 });
    assert_eq!(plan.pre_transform, 2);
    assert_eq!(plan.present_mode, PRESENT_MODE_MAILBOX);
    c.max_image_count = 0;
    let plan = plan_swapchain(&c, Extent2D { width: 300, height: 200 }, &[]);
    assert_eq!(plan.image_count, 3);
    assert_eq!(plan.extent, Extent2D { width: 300, height: 200 });
    assert_eq!(plan.present_mode, PRESENT_MODE_FIFO);
}

#[test]
fn queue_families_first_suitable_device() {
    let devices = vec![
        DeviceQueues { queue_flags: vec![0b10, 0b100], present_support: vec![true, true] },
        DeviceQueues { queue_flags: vec![0b10, 0b11, 0b01], present_support: vec![false, false, true] },
    ];
    assert_eq!(select_queue_families(&devices), Some((1, 1, 2)));
    let none = vec![DeviceQueues { queue_flags: vec![1], present_support: vec![false] }];
    assert_eq!(select_queue_families(&none), None);
    assert_eq!(select_queue_families(&vec![]), None);
}

#[test]
fn supported_formats() {
    let candidates = [
        FormatCandidate { format: FORMAT_D32_SFLOAT, linear_tiling_features: 0x200, optimal_tiling_features: 0 },
        FormatCandidate { format: FORMAT_D24_UNORM_S8_UINT, linear_tiling_features: 0, optimal_tiling_features: 0x201 },
        FormatCandidate { format: FORMAT_D16_UNORM, linear_tiling_features: 0, optimal_tiling_features: 0x200 },
    ];
    assert_eq!(get_depth_format(&candidates), Some(FORMAT_D24_UNORM_S8_UINT));
    assert_eq!(
        get_supported_format(&candidates, ImageTiling::Linear, FORMAT_FEATURE_DEPTH_STENCIL_ATTACHMENT),
        Some(FORMAT_D32_SFLOAT)
    );
    assert_eq!(get_supported_format(&candidates, ImageTiling::Other, 0), None);
    assert_eq!(get_supported_format(&candidates, ImageTiling::Optimal, 0x1000), None);
    assert_eq!(depth_format_candidates(), vec![126, 130, 129, 124]);
}

#[test]
fn frames_cycle() {
    assert_eq!(next_frame(0), 1);
    assert_eq!(next_frame(1), 0);
    assert_eq!(next_frame(6), 1);
    assert_eq!(descriptor_pool_size(3, 4), 12);
}

#[test]
fn sampler_conversion() {
    let s = Sampler {
        mag_filter: Some(MagFilter::Nearest),
        min_filter: Some(MinFilter::NearestMipmapLinear),
        wrap_s: WrappingMode::MirroredRepeat,
        wrap_t: WrappingMode::ClampToEdge,
    };
    let r = convert_sampler(s);
    assert_eq!(r.mag_filter, Filter::Nearest);
    // nearest texel filter, linear between mipmap levels
    assert_eq!(r.min_filter, Filter::Nearest);
    assert_eq!(r.mipmap_mode, SamplerMipmapMode::Linear);
    assert_eq!(r.address_mode_u, SamplerAddressMode::MirroredRepeat);
    assert_eq!(r.address_mode_v, SamplerAddressMode::ClampToEdge);
    let d = convert_sampler(Sampler {
        mag_filter: None,
        min_filter: None,
        wrap_s: WrappingMode::Repeat,
        wrap_t: WrappingMode::Repeat,
    });
    assert_eq!(d.mag_filter, Filter::Linear);
    assert_eq!((d.min_filter, d.mipmap_mode), (Filter::Linear, SamplerMipmapMode::Linear));
    assert_eq!(convert_wrapping_mode(&WrappingMode::Repeat), SamplerAddressMode::Repeat);
    let l = convert_sampler(Sampler { min_filter: Some(MinFilter::Linear), ..s });
    assert_eq!((l.min_filter, l.mipmap_mode), (Filter::Linear, SamplerMipmapMode::Nearest));
    let ll = convert_sampler(Sampler { min_filter: Some(MinFilter::LinearMipmapLinear), ..s });
    assert_eq!((ll.min_filter, ll.mipmap_mode), (Filter::Linear, SamplerMipmapMode::Linear));
    let nn = convert_sampler(Sampler { min_filter: Some(MinFilter::NearestMipmapNearest), ..s });
    assert_eq!((nn.min_filter, nn.mipmap_mode), (Filter::Nearest, SamplerMipmapMode::Nearest));
}

#[test]
fn pipeline_groups_by_first_occurrence() {
    let groups = group_meshes_by_pipeline(&[7, 3, 7, 7, 9, 3]);
    let summary: Vec<(u64, Vec<usize>)> = groups.iter().map(|g| (g.key, g.meshes.clone())).collect();
    assert_eq!(summary, vec![(7, vec![0, 2, 3]), (3, vec![1, 5]), (9, vec![4])]);
    assert!(group_meshes_by_pipeline(&[]).is_empty());
}

#[test]
fn primitive_and_shader_conversions() {
    assert_eq!(conv_primitive_mode(PrimitiveMode::LineLoop), PrimitiveTopology::LineList);
    assert_eq!(conv_primitive_mode(PrimitiveMode::TriangleFan), PrimitiveTopology::TriangleFan);
    assert_eq!(conv_shader_stage(ExecutionModel::Vertex), STAGE_VERTEX);
    assert_eq!(conv_shader_stage(ExecutionModel::Fragment), STAGE_FRAGMENT);
    assert_eq!(conv_shader_stage(ExecutionModel::TaskNV), STAGE_TASK);
    assert_eq!(conv_shader_stage(ExecutionModel::MeshEXT), STAGE_MESH);
}

#[test]
fn solid_color_fills_pixels() {
    let bytes = solid_color_bytes([1, 2, 3, 4], 2, 3);
    assert_eq!(bytes.len(), 24);
    assert_eq!(&bytes[..8], &[1, 2, 3, 4, 1, 2, 3, 4]);
    assert!(bytes.chunks(4).all(|p| p == [1, 2, 3, 4]));
    assert!(solid_color_bytes([9, 9, 9, 9], 0, 5).is_empty());
}

#[test]
fn mip_chain_halves_each_level() {
    let blits = mip_blits(8, 3, 4);
    assert_eq!(blits.len(), 3);
    assert_eq!(blits[0], MipBlit { src_level: 0, src_width: 8, src_height: 3, dst_level: 1, dst_width: 4, dst_height: 1 });
    assert_eq!(blits[1], MipBlit { src_level: 1, src_width: 4, src_height: 1, dst_level: 2, dst_width: 2, dst_height: 1 });
    assert_eq!(blits[2], MipBlit { src_level: 2, src_width: 2, src_height: 1, dst_level: 3, dst_width: 1, dst_height: 1 });
    assert!(mip_blits(8, 8, 1).is_empty());
    assert!(mip_blits(8, 8, 0).is_empty());
}

#[test]
fn log_level_colors() {
    assert_eq!(level_color(LogLevel::Error), LogColor::Red);
    assert_eq!(level_color(LogLevel::Warn), LogColor::Yellow);
    assert_eq!(level_color(LogLevel::Info), LogColor::Cyan);
    assert_eq!(level_color(LogLevel::Debug), LogColor::Purple);
    assert_eq!(level_color(LogLevel::Trace), LogColor::Normal);
}

#[test]
fn double_sided_materials_are_not_culled() {
    assert_eq!(cull_mode_for(true), CullMode::Off);
    assert_eq!(cull_mode_for(false), CullMode::Back);
}

#[test]
fn mip_commands_move_every_level_to_shader_reading() {
    let cmds = mip_commands(8, 3, 3);
    assert_eq!(
        cmds,
        vec![
            MipCommand::Barrier { level: 0, from: ImageLayout::TransferDst, to: ImageLayout::TransferSrc },
            MipCommand::Blit(MipBlit { src_level: 0, src_width: 8, src_height: 3, dst_level: 1, dst_width: 4, dst_height: 1 }),
            MipCommand::Barrier { level: 0, from: ImageLayout::TransferSrc, to: ImageLayout::ShaderReadOnly },
            MipCommand::Barrier { level: 1, from: ImageLayout::TransferDst, to: ImageLayout::TransferSrc },
            MipCommand::Blit(MipBlit { src_level: 1, src_width: 4, src_height: 1, dst_level: 2, dst_width: 2, dst_height: 1 }),
            MipCommand::Barrier { level: 1, from: ImageLayout::TransferSrc, to: ImageLayout::ShaderReadOnly },
            MipCommand::Barrier { level: 2, from: ImageLayout::TransferDst, to: ImageLayout::ShaderReadOnly },
        ]
    );
    // replaying the commands: each fits the layouts it meets, and every
    // level ends read by shaders
    let mut layouts = vec![ImageLayout::TransferDst; 5];
    for c in mip_commands(64, 16, 5) {
        match c {
            MipCommand::Barrier { level, from, to } => {
                assert_eq!(layouts[level as usize], from);
                layouts[level as usize] = to;
            }
            MipCommand::Blit(b) => {
                assert_eq!(layouts[b.src_level as usize], ImageLayout::TransferSrc);
                assert_eq!(layouts[b.dst_level as usize], ImageLayout::TransferDst);
            }
        }
    }
    assert_eq!(layouts, vec![ImageLayout::ShaderReadOnly; 5]);
    assert_eq!(mip_commands(4, 4, 1), vec![MipCommand::Barrier { level: 0, from: ImageLayout::TransferDst, to: ImageLayout::ShaderReadOnly }]);
}
