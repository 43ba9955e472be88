use ash::vk;
use drm_fourcc::DrmFourcc;
use wluma::config::app::{Capturer as Configured, PipewireProtocol, WaylandProtocol};
use wluma::frame::capturer::pipewire::kwin::{
    self, Found, Matched, Plan, Stream, StreamEvent,
};
use wluma::frame::capturer::pipewire::mutter::{wait, Wait, TIMEOUT};
use wluma::frame::capturer::pipewire::portal::{
    ended, is_expected, node_of, remembers, request_path, restore_token, restore_token_name, token,
    Ended, Remembered,
};
use wluma::frame::capturer::pipewire::{
    drm_format, go_on, is_over, is_single_plane, offered_modifiers, prepare, stride_of, Answer,
    Buffer, BufferFault, FrameStep, Negotiated, Pace, Search, StreamState, VideoFormat,
    FRAME_INTERVAL,
};
use wluma::frame::capturer::{configured, none, proceed, status_name, Capturer, Outcome, Step};
use wluma::frame::device::{
    application_version, drm_device_of, examine, no_device_message, select_device, told_device, DeviceError,
    DeviceInfo, DeviceType, DrmDevice, Rejection, Selection, INTERNAL_FORMAT_FEATURES,
    QUEUE_TRANSFER,
};
use wluma::frame::format::{map_drm_format, match_format, Format, FormatError};
use wluma::frame::image::{
    find_memory_type_index, generate_mipmaps, image_memory_type, import_memory_type, is_dedicated,
    memory_type_index, plan_export, plan_import, plane_place, Blit, FrameError, ImagePlan, Import,
    Internal, Tiling, MAX_MEMORY_TYPES, MEMORY_DEVICE_LOCAL, MEMORY_HOST_COHERENT_VISIBLE,
};
use wluma::frame::modifiers::{
    common_modifiers, has_modifier, supported_modifiers, Lookup, ModifierCache, ModifierInfo,
    EXTERNAL_EXPORTABLE, EXTERNAL_IMPORTABLE, FRAME_FORMAT_FEATURES, HANDLE_DMA_BUF,
};
use wluma::frame::object::Object;

const NOW: u128 = 1_000_000_000_000;

#[test]
fn formats_are_those_of_the_kernel() {
    for (fourcc, format) in [
        (DrmFourcc::Rgbx4444, Format::R4G4B4A4UnormPack16),
        (DrmFourcc::Bgrx4444, Format::B4G4R4A4UnormPack16),
        (DrmFourcc::Rgb565, Format::R5G6B5UnormPack16),
        (DrmFourcc::Bgr565, Format::B5G6R5UnormPack16),
        (DrmFourcc::Xrgb1555, Format::A1R5G5B5UnormPack16),
        (DrmFourcc::Rgbx5551, Format::R5G5B5A1UnormPack16),
        (DrmFourcc::Bgrx5551, Format::B5G5R5A1UnormPack16),
        (DrmFourcc::Xrgb2101010, Format::A2R10G10B10UnormPack32),
        (DrmFourcc::Xbgr2101010, Format::A2B10G10R10UnormPack32),
        (DrmFourcc::Xbgr16161616f, Format::R16G16B16A16Sfloat),
        (DrmFourcc::Xbgr8888, Format::R8G8B8A8Unorm),
        (DrmFourcc::Bgrx8888, Format::B8G8R8A8Unorm),
        (DrmFourcc::Xrgb8888, Format::B8G8R8A8Unorm),
    ] {
        assert_eq!(Ok(format), map_drm_format(fourcc as u32));
    }
    assert_eq!(
        Err(FormatError::Unsupported(DrmFourcc::Yuyv as u32)),
        map_drm_format(DrmFourcc::Yuyv as u32)
    );
    assert_eq!(Err(FormatError::Unrecognized(0)), map_drm_format(0));
    assert_eq!(
        Err(FormatError::Unrecognized(DrmFourcc::Xrgb8888 as u32)),
        match_format(DrmFourcc::Xrgb8888 as u32, false)
    );
}

#[test]
fn flags_are_those_of_the_graphics_api() {
    assert_eq!(QUEUE_TRANSFER, vk::QueueFlags::TRANSFER.as_raw());
    let internal = vk::FormatFeatureFlags::BLIT_SRC
        | vk::FormatFeatureFlags::BLIT_DST
        | vk::FormatFeatureFlags::SAMPLED_IMAGE_FILTER_LINEAR;
    assert_eq!(INTERNAL_FORMAT_FEATURES, internal.as_raw());
    let frame = vk::FormatFeatureFlags::TRANSFER_SRC
        | vk::FormatFeatureFlags::BLIT_SRC
        | vk::FormatFeatureFlags::SAMPLED_IMAGE_FILTER_LINEAR;
    assert_eq!(FRAME_FORMAT_FEATURES, frame.as_raw());
    assert_eq!(
        EXTERNAL_EXPORTABLE,
        vk::ExternalMemoryFeatureFlags::EXPORTABLE.as_raw()
    );
    assert_eq!(
        EXTERNAL_IMPORTABLE,
        vk::ExternalMemoryFeatureFlags::IMPORTABLE.as_raw()
    );
    assert_eq!(
        HANDLE_DMA_BUF,
        vk::ExternalMemoryHandleTypeFlags::DMA_BUF_EXT.as_raw()
    );
    assert_eq!(
        MEMORY_DEVICE_LOCAL,
        vk::MemoryPropertyFlags::DEVICE_LOCAL.as_raw()
    );
    let visible =
        vk::MemoryPropertyFlags::HOST_COHERENT | vk::MemoryPropertyFlags::HOST_VISIBLE;
    assert_eq!(MEMORY_HOST_COHERENT_VISIBLE, visible.as_raw());
    assert_eq!(MAX_MEMORY_TYPES, vk::MAX_MEMORY_TYPES);
}

#[test]
fn device_numbers_are_taken_apart() {
    for device in [0xe280, 0x1234_5678_9abc_def0, u64::MAX, 0] {
        let node = drm_device_of(device);
        assert_eq!(
            (libc::major(device), libc::minor(device)),
            (node.major, node.minor)
        );
    }
    let node = drm_device_of(0xe280);
    assert_eq!("226:128", node.numbers());
    assert_eq!("226:128", node.label(None));
    assert_eq!(
        "/dev/dri/renderD128 (226:128)",
        node.label(Some("renderD128"))
    );
    assert_eq!(None, told_device(false, 226, 128));
    assert_eq!(Some(node), told_device(true, 226, 128));
}

#[test]
fn versions_are_packed() {
    assert_eq!(
        Some(vk::make_api_version(0, 4, 10, 2)),
        application_version("4", "10", "2")
    );
    assert_eq!(Some((4 << 22) | (10 << 12) | 2), application_version("4", "10", "2"));
    assert_eq!(None, application_version("4", "10", "2-rc1"));
    assert_eq!(None, application_version("", "1", "2"));
}

fn device(kind: DeviceType, modifier: bool, minor: u32) -> DeviceInfo {
    DeviceInfo {
        external_memory_fd: true,
        dma_buf: true,
        drm_modifier: modifier,
        queue_flags: vec![0x1, 0x5],
        format_features: 0xffff,
        device_type: kind,
        primary: Some(DrmDevice { major: 226, minor }),
        render: Some(DrmDevice {
            major: 226,
            minor: 128 + minor,
        }),
    }
}

fn chosen(devices: &Vec<DeviceInfo>, wanted: Option<u32>, by_user: bool) -> Result<usize, DeviceError> {
    let wanted = wanted.map(|minor| DrmDevice { major: 226, minor });
    select_device(devices, wanted, by_user).map(|selection| selection.device)
}

#[test]
fn the_best_device_is_selected() {
    let devices = vec![
        device(DeviceType::Integrated, false, 0),
        device(DeviceType::Discrete, true, 1),
        device(DeviceType::Discrete, true, 2),
        device(DeviceType::Unknown, true, 3),
    ];
    assert_eq!(
        Ok(Selection {
            device: 2,
            queue_family: 1
        }),
        select_device(&devices, None, false)
    );
    assert_eq!(Ok(0), chosen(&devices, Some(0), true));
    assert_eq!(Ok(1), chosen(&devices, Some(129), false));
    assert_eq!(Ok(2), chosen(&devices, Some(99), false));
    assert_eq!(Err(DeviceError::NoMatch), chosen(&devices, Some(99), true));
    assert_eq!(Err(DeviceError::NoDevice), chosen(&vec![], None, false));
    assert_eq!(Err(DeviceError::NoDrmMatch), chosen(&vec![], Some(0), false));
}

#[test]
fn useless_devices_are_rejected() {
    let good = || device(DeviceType::Other, false, 0);
    assert_eq!(Ok(1), examine(&good()));
    let bad = DeviceInfo {
        dma_buf: false,
        ..good()
    };
    assert_eq!(Err(Rejection::NoSharing), examine(&bad));
    let bad = DeviceInfo {
        external_memory_fd: false,
        ..good()
    };
    assert_eq!(Err(Rejection::NoSharing), examine(&bad));
    let bad = DeviceInfo {
        queue_flags: vec![0x1, 0x2],
        ..good()
    };
    assert_eq!(Err(Rejection::NoTransfer), examine(&bad));
    let bad = DeviceInfo {
        format_features: 0x1800,
        ..good()
    };
    assert_eq!(Err(Rejection::NoBlit), examine(&bad));
    assert_eq!(Err(DeviceError::NoDevice), chosen(&vec![bad], None, false));
}

fn modifier(number: u64) -> ModifierInfo {
    ModifierInfo {
        modifier: number,
        plane_count: 1,
        tiling_features: FRAME_FORMAT_FEATURES,
        known: true,
        external_features: EXTERNAL_IMPORTABLE,
        handle_types: HANDLE_DMA_BUF,
    }
}

#[test]
fn modifiers_have_to_be_shared() {
    let all = vec![
        modifier(1),
        ModifierInfo {
            plane_count: 2,
            ..modifier(2)
        },
        ModifierInfo {
            known: false,
            ..modifier(3)
        },
        ModifierInfo {
            tiling_features: 0x400,
            ..modifier(4)
        },
        ModifierInfo {
            handle_types: 0x1,
            ..modifier(5)
        },
        ModifierInfo {
            external_features: EXTERNAL_EXPORTABLE | EXTERNAL_IMPORTABLE,
            ..modifier(6)
        },
    ];
    assert_eq!(vec![1, 6], supported_modifiers(&all, EXTERNAL_IMPORTABLE));
    assert_eq!(vec![6], supported_modifiers(&all, EXTERNAL_EXPORTABLE));
    assert!(has_modifier(&vec![1, 6], 6));
    assert!(!has_modifier(&vec![1, 6], 5));
    assert_eq!(vec![3, 1], common_modifiers(&vec![3, 2, 1], &vec![1, 3]));
}

#[test]
fn modifiers_are_remembered() {
    let code = DrmFourcc::Xrgb8888 as u32;
    let mut cache = ModifierCache::new(true);
    assert!(matches!(
        cache.lookup(code, EXTERNAL_IMPORTABLE),
        Lookup::Ask(Format::B8G8R8A8Unorm)
    ));
    assert_eq!(
        vec![7],
        cache.learn(code, EXTERNAL_IMPORTABLE, &vec![modifier(7)])
    );
    assert!(matches!(
        cache.lookup(code, EXTERNAL_IMPORTABLE),
        Lookup::Known(known) if known == vec![7]
    ));
    assert!(matches!(
        cache.lookup(code, EXTERNAL_EXPORTABLE),
        Lookup::Ask(_)
    ));
    assert!(matches!(
        cache.lookup(0, EXTERNAL_IMPORTABLE),
        Lookup::Failed(FormatError::Unrecognized(0))
    ));
    let none = ModifierCache::new(false);
    assert!(matches!(none.lookup(0, EXTERNAL_IMPORTABLE), Lookup::Known(known) if known.is_empty()));
}

#[test]
fn types_of_memory_are_found() {
    assert_eq!(None, memory_type_index(0));
    for i in 0..32 {
        assert_eq!(Some(i), memory_type_index(1 << i));
        assert_eq!(Some(i), memory_type_index(u32::MAX << i));
    }
    let types = vec![0x6, 0x1, 0x7];
    assert_eq!(Some(1), find_memory_type_index(0b111, &types, MEMORY_DEVICE_LOCAL));
    assert_eq!(Some(2), find_memory_type_index(0b101, &types, MEMORY_DEVICE_LOCAL));
    assert_eq!(None, find_memory_type_index(0b001, &types, MEMORY_DEVICE_LOCAL));
    assert_eq!(Some(0), image_memory_type(0b001, &types));
    assert_eq!(Some(1), image_memory_type(0b011, &types));
    assert_eq!(None, image_memory_type(0, &types));
    assert_eq!(Ok(2), import_memory_type(10, 10, 0b110, 0b100));
    assert_eq!(Err(FrameError::TooSmall { size: 9, required: 10 }), import_memory_type(9, 10, 0b110, 0b100));
    assert_eq!(
        Err(FrameError::NoMemoryType),
        import_memory_type(10, 10, 0b010, 0b100)
    );
    assert!(is_dedicated(true, false) && is_dedicated(false, true) && !is_dedicated(false, false));
}

#[test]
fn frames_are_reduced_to_a_few_pixels() {
    let mut internal = Internal::new();
    let plan = internal.plan(1920, 1080).unwrap();
    assert_eq!(
        ImagePlan {
            mip_levels: 10,
            buffer_size: 4 * 30 * 16
        },
        plan
    );
    assert_eq!((1920f64).log2().floor() as u32, plan.mip_levels);
    internal.made(1920, 1080, plan);
    assert_eq!(None, internal.plan(1920, 1080));
    assert!(internal.plan(1080, 1920).is_some());
    let reduction = generate_mipmaps(1920, 1080, 10);
    assert_eq!((6, 30, 16), (reduction.target_mip_level, reduction.width, reduction.height));
    assert_eq!(6, reduction.blits.len());
    assert_eq!(
        Blit {
            src_width: 480,
            src_height: 270,
            src_mip_level: 2,
            dst_width: 240,
            dst_height: 135,
            dst_mip_level: 3,
        },
        reduction.blits[2]
    );
    for pair in reduction.blits.windows(2) {
        assert_eq!(pair[0].dst_mip_level, pair[1].src_mip_level);
        assert_eq!(
            (pair[0].dst_width, pair[0].dst_height),
            (pair[1].src_width, pair[1].src_height)
        );
    }
    let flat = generate_mipmaps(4096, 1, 12);
    assert_eq!((16, 1), (flat.width, flat.height));
    for side in [16, 17, 31, 32, 1023, 1024, 1 << 31, u32::MAX] {
        let plan = Internal::new().plan(side, side).unwrap();
        assert_eq!((side as f64).log2().floor() as u32, plan.mip_levels);
    }
}

fn frame(layout: Option<(u64, u32, u32)>) -> Object {
    let mut frame = Object::new(8, 8, 1, DrmFourcc::Xrgb8888 as u32);
    frame.layout = layout;
    frame
}

#[test]
fn frames_are_taken_over() {
    let linear = Import {
        format: Format::B8G8R8A8Unorm,
        tiling: Tiling::Linear,
    };
    assert_eq!(Ok(linear), plan_import(&frame(None), false, &vec![]));
    let placed = frame(Some((5, 64, 32)));
    assert_eq!(
        Ok(Import {
            tiling: Tiling::Modifier {
                modifier: 5,
                offset: 64,
                stride: 32
            },
            ..linear
        }),
        plan_import(&placed, true, &vec![4, 5])
    );
    assert_eq!(Err(FrameError::NoModifiers), plan_import(&placed, false, &vec![5]));
    assert_eq!(Err(FrameError::NotImportable { format: DrmFourcc::Xrgb8888 as u32, modifier: 5 }), plan_import(&placed, true, &vec![4]));
    let odd = Object::new(8, 8, 1, 0);
    assert_eq!(
        Err(FrameError::Format(FormatError::Unrecognized(0))),
        plan_import(&odd, false, &vec![])
    );
}

#[test]
fn frames_are_given() {
    let export = plan_export(&frame(None), &vec![1, 2, 3], &vec![3, 1]).unwrap();
    assert_eq!((Format::B8G8R8A8Unorm, vec![1, 3]), (export.format, export.modifiers));
    assert_eq!(
        Some(FrameError::NotExportable { format: DrmFourcc::Xrgb8888 as u32 }),
        plan_export(&frame(None), &vec![2], &vec![3]).err()
    );
    assert_eq!(
        Some(FrameError::Format(FormatError::Unrecognized(0))),
        plan_export(&Object::new(8, 8, 1, 0), &vec![3], &vec![3]).err()
    );
    assert_eq!(Ok((0, 256)), plane_place(0, 256));
    assert_eq!(Err(FrameError::OffsetTooLarge(1 << 32)), plane_place(1 << 32, 256));
    assert_eq!(Err(FrameError::StrideTooLarge(1 << 32)), plane_place(0, 1 << 32));
}

#[test]
fn failures_are_explained() {
    assert_eq!(
        "Vulkan cannot import DRM format 7 with modifier 0x0100000000000a0f as a transfer source",
        FrameError::NotImportable { format: 7, modifier: 0x0100_0000_0000_0a0f }.message()
    );
    assert_eq!(
        format!("with modifier {:#018x} as", 0x0a0fu64),
        FrameError::NotImportable { format: 7, modifier: 0x0a0f }.message()[34..69]
    );
    assert_eq!(
        "No compositor-provided DRM modifier for format 7 can be exported by Vulkan",
        FrameError::NotExportable { format: 7 }.message()
    );
    assert_eq!(
        "DMA-BUF is 9 bytes, Vulkan requires at least 10 bytes",
        FrameError::TooSmall { size: 9, required: 10 }.message()
    );
    assert_eq!(
        "Vulkan DMA-BUF plane offset 4294967296 does not fit the Wayland protocol",
        FrameError::OffsetTooLarge(1 << 32).message()
    );
    assert_eq!(
        "Vulkan DMA-BUF row pitch 4294967296 does not fit the Wayland protocol",
        FrameError::StrideTooLarge(1 << 32).message()
    );
    assert_eq!(
        "Vulkan device does not support DRM format modifiers",
        FrameError::NoModifiers.message()
    );
    assert_eq!(
        "No Vulkan memory type supports the imported frame image",
        FrameError::NoMemoryType.message()
    );
    assert_eq!(
        "Unsupported DRM format: 7. Please report on GitHub.",
        FrameError::Format(FormatError::Unsupported(7)).message()
    );
    for bytes in [*b"avc1", *b"a\0c1", *b"ab\0\0", *b"ab\xc3\xa9", *b"ab\xc1\x80", *b"ab\xe0\xa0", [42, 0, 0, 0], *b"\xc3\xa9ab"] {
        let code = u32::from_le_bytes(bytes);
        let error = FormatError::Unrecognized(code);
        assert!(error.can_tell());
        assert_eq!(DrmFourcc::try_from(code).unwrap_err().to_string(), error.message());
        assert_eq!(error.message(), FrameError::Format(error).message());
    }
    assert_eq!(
        "UnrecognizedFourcc(avc1, 828601953)",
        FormatError::Unrecognized(828601953).message()
    );
    assert_eq!("UnrecognizedFourcc(42)", FormatError::Unrecognized(42).message());
    assert_eq!(
        "UnrecognizedFourcc(abé, 2848154209)",
        FormatError::Unrecognized(u32::from_le_bytes(*b"ab\xc3\xa9")).message()
    );
    assert_eq!(
        "UnrecognizedFourcc(ab  , 25185)",
        FormatError::Unrecognized(25185).message()
    );
    let character = FormatError::Unrecognized(u32::from_le_bytes(*b"\xf0\x9f\x98\x80"));
    assert!(!character.can_tell());
    assert!(!FrameError::Format(character).can_tell());
    let node = Some(DrmDevice { major: 226, minor: 1 });
    assert_eq!(
        "No compatible Vulkan device matches /dev/dri/card9",
        no_device_message(Some("/dev/dri/card9"), node)
    );
    assert_eq!(
        "No compatible Vulkan device matches DRM device 226:1",
        no_device_message(None, node)
    );
    assert_eq!(
        "Unable to find a compatible Vulkan physical device",
        no_device_message(None, None)
    );
}

#[test]
fn objects_are_set_one_by_one() {
    let mut frame = Object::new(8, 4, 2, 7);
    assert_eq!(vec![None, None], frame.fds);
    frame.set_object(1, 42, 128);
    assert_eq!(42, frame.fd(1));
    assert_eq!(vec![0, 128], frame.sizes);
}

#[test]
fn buffers_become_frames() {
    let negotiated = Negotiated {
        format: VideoFormat::Bgrx,
        width: 1920,
        height: 1080,
        modifier: 7,
    };
    let buffer = Buffer {
        planes: 1,
        is_dma_buf: true,
        size: 64,
        corrupted: false,
        offset: 16,
        stride: 7680,
        fd: 5,
        capacity: 4096,
    };
    let mut pace = Pace::new();
    match pace.process(&negotiated, &buffer, 10) {
        FrameStep::Process(frame) => {
            assert_eq!((1920, 1080, 1), (frame.width, frame.height, frame.num_objects));
            assert_eq!(DrmFourcc::Xrgb8888 as u32, frame.format);
            assert_eq!(Some((7, 16, 7680)), frame.layout);
            assert_eq!((vec![Some(5)], vec![4096]), (frame.fds, frame.sizes));
        }
        other => panic!("{other:?}"),
    }
    assert!(matches!(pace.process(&negotiated, &buffer, 11), FrameStep::Skip));
    let later = 10 + FRAME_INTERVAL;
    let empty = Buffer { size: 0, ..buffer };
    assert!(matches!(pace.process(&negotiated, &empty, later), FrameStep::Skip));
    let broken = Buffer { corrupted: true, ..buffer };
    assert!(matches!(pace.process(&negotiated, &broken, later), FrameStep::Skip));
    assert_eq!(Some(10), pace.last_frame_at);
    let fault = |negotiated: Negotiated, buffer: Buffer| match Pace::new().process(
        &negotiated,
        &buffer,
        0,
    ) {
        FrameStep::Fault(fault) => fault,
        other => panic!("{other:?}"),
    };
    let planar = Buffer { planes: 2, ..buffer };
    assert_eq!(BufferFault::NotSinglePlane, fault(negotiated, planar));
    let mapped = Buffer { is_dma_buf: false, ..buffer };
    assert_eq!(BufferFault::NotSinglePlane, fault(negotiated, mapped));
    let flat = Buffer { stride: 0, ..buffer };
    assert_eq!(BufferFault::InvalidStride, fault(negotiated, flat));
    let closed = Buffer { fd: -1, ..buffer };
    assert_eq!(BufferFault::InvalidDescriptor, fault(negotiated, closed));
    let odd = Negotiated { format: VideoFormat::Other, ..negotiated };
    assert_eq!(BufferFault::UnsupportedFormat, fault(odd, buffer));
    assert_eq!(
        "PipeWire DMA-BUF has an invalid stride",
        BufferFault::InvalidStride.message()
    );
}

#[test]
fn capturers_are_found() {
    assert_eq!(Step::AskWayland, configured(Configured::Auto).start());
    assert_eq!(
        Step::RunWayland(WaylandProtocol::Any),
        proceed(Step::AskWayland, Outcome::Available)
    );
    assert_eq!(Step::PreparePipewire, proceed(Step::AskWayland, Outcome::Unavailable));
    assert_eq!(Step::PreparePipewire, proceed(Step::AskWayland, Outcome::Failed));
    let stream = proceed(Step::PreparePipewire, Outcome::Available);
    assert_eq!(
        Step::RunPipewire {
            protocol: PipewireProtocol::Any,
            prepared: true
        },
        stream
    );
    assert_eq!(Some("pipewire"), status_name(stream));
    assert_eq!(Step::RunNone, proceed(Step::PreparePipewire, Outcome::Failed));
    assert_eq!(Some("none"), status_name(configured(Configured::Off).start()));
    assert_eq!(None, status_name(Step::AskWayland));
    let wayland = Capturer::Wayland(WaylandProtocol::WlrScreencopyUnstableV1).start();
    assert_eq!(Some("wayland"), status_name(wayland));
    assert_eq!(Some(0), none::Capturer::default().luma(true));
    assert_eq!(None, none::Capturer::default().luma(false));
}

#[test]
fn streams_are_looked_for() {
    let any = PipewireProtocol::Any;
    assert_eq!(Search::Kwin, prepare(any));
    let search = go_on(any, Search::Kwin, Answer::Failed);
    assert_eq!(
        Search::Mutter {
            connector_known: false
        },
        search
    );
    assert_eq!(Search::Portal, go_on(any, search, Answer::Failed));
    assert_eq!(Search::Found, go_on(any, Search::Portal, Answer::Stream));
    assert_eq!(Search::Failed, go_on(any, Search::Portal, Answer::Failed));
    assert_eq!(
        Search::Failed,
        go_on(
            PipewireProtocol::Kwin,
            Search::Kwin,
            Answer::NoStream {
                connector_known: true
            }
        )
    );
    let mutter = PipewireProtocol::Mutter;
    assert_eq!(Search::Connector, prepare(mutter));
    let search = go_on(
        mutter,
        Search::Connector,
        Answer::NoStream {
            connector_known: true,
        },
    );
    assert_eq!(
        Search::Mutter {
            connector_known: true
        },
        search
    );
    assert_eq!(Search::Failed, go_on(mutter, search, Answer::Failed));
    assert_eq!(Search::Portal, prepare(PipewireProtocol::Portal));
}

#[test]
fn frames_of_streams_are_spaced() {
    let mut pace = Pace::new();
    assert!(!pace.accept(0, false, NOW));
    assert!(!pace.accept(10, true, NOW));
    assert!(pace.accept(10, false, NOW));
    assert!(!pace.accept(10, false, NOW + FRAME_INTERVAL - 1));
    assert!(pace.accept(10, false, NOW + FRAME_INTERVAL));
    assert_eq!(Some(DrmFourcc::Xrgb8888 as u32), drm_format(VideoFormat::Bgrx));
    assert_eq!(Some(DrmFourcc::Xbgr8888 as u32), drm_format(VideoFormat::Rgbx));
    assert_eq!(None, drm_format(VideoFormat::Other));
    assert_eq!(Some(vec![2]), offered_modifiers(&vec![1, 2], &vec![2, 3]));
    assert_eq!(None, offered_modifiers(&vec![1], &vec![2]));
    assert!(is_over(StreamState::Other, StreamState::Error));
    assert!(is_over(StreamState::Other, StreamState::Unconnected));
    assert!(!is_over(StreamState::Unconnected, StreamState::Unconnected));
    assert!(!is_over(StreamState::Unconnected, StreamState::Other));
    assert!(is_single_plane(1, true) && !is_single_plane(2, true) && !is_single_plane(1, false));
    assert_eq!(Some(64), stride_of(64));
    assert_eq!(None, stride_of(0));
    assert_eq!(None, stride_of(-64));
}

#[test]
fn compositor_outputs_are_matched() {
    let mut found = Found::new();
    assert_eq!(Matched::Other, found.named(1, "eDP-1", "DP-2"));
    assert_eq!(Matched::Wanted, found.described(2, None, "Dell DP-2 monitor", "DP-2"));
    assert_eq!((Some(2), None), (found.output, found.output_name.clone()));
    assert_eq!(Matched::Wanted, found.named(2, "DP-2", "DP-2"));
    assert_eq!(Some("DP-2".to_string()), found.output_name);
    assert_eq!(Matched::Ambiguous, found.named(3, "DP-22", "DP-2"));
    assert_eq!(Some(2), found.output);
    assert_eq!(Plan::NoOutput, kwin::plan(false, true, true));
    assert_eq!(Plan::ConnectorOnly, kwin::plan(true, false, true));
    assert_eq!(Plan::ConnectorOnly, kwin::plan(true, true, false));
    assert_eq!(Plan::CreateStream, kwin::plan(true, true, true));
}

#[test]
fn streams_are_created_or_fail() {
    let mut stream = Stream::new();
    assert_eq!(None, stream.outcome());
    stream.update(StreamEvent::Other);
    assert_eq!(None, stream.outcome());
    stream.update(StreamEvent::Created { node: 7 });
    assert_eq!(Some(Ok(7)), stream.outcome());
    stream.update(StreamEvent::Closed);
    assert_eq!(
        Some(Err("KDE closed the screen stream".to_string())),
        stream.outcome()
    );
    stream.update(StreamEvent::Failed {
        error: "no".to_string(),
    });
    assert_eq!(Some(Err("no".to_string())), stream.outcome());
    assert_eq!(Wait::Found(3), wait(Some(3), NOW, NOW));
    assert_eq!(Wait::For(TIMEOUT), wait(None, NOW + TIMEOUT, NOW));
    assert_eq!(Wait::TimedOut, wait(None, NOW, NOW));
}

#[test]
fn the_portal_is_asked() {
    assert!(remembers(4) && !remembers(3));
    assert_eq!("wluma_request_12", token("request", 12));
    assert_eq!(
        "/org/freedesktop/portal/desktop/request/1_42/wluma_request_0",
        request_path(":1.42", "wluma_request_0")
    );
    assert!(is_expected("/a", "/a") && !is_expected("/a", "/b"));
    assert_eq!(Ended::Granted, ended(0));
    assert_eq!(Ended::Cancelled, ended(1));
    assert_eq!(Ended::Failed, ended(2));
    assert_eq!(Some(u32::MAX), node_of(u32::MAX as u64));
    assert_eq!(None, node_of(1 << 32));
    assert_eq!(
        Ok(Some("t ".to_string())),
        restore_token(Remembered::Text("t ".to_string()))
    );
    assert_eq!(Ok(None), restore_token(Remembered::Text(" \n".to_string())));
    assert_eq!(Ok(None), restore_token(Remembered::Missing));
    assert_eq!(Err(()), restore_token(Remembered::Failed));
    assert_eq!(
        "xdg-desktop-portal-screencast-6544502d31c3a4.token",
        restore_token_name("eDP-1ä")
    );
}
