use device_alloc::{
    align_offset, align_up, compose_tag, optix_error, DeviceFrameAllocator, DevicePtr, Error,
    Layout, LayoutError, Plan, DEFAULT_ALLOC_BIT, MAX_ALIGNMENT, PITCH_ALIGNMENT,
};

const BASE: u64 = 0x10_0000;

fn layout(size: usize, align: usize) -> Layout {
    Layout::from_size_align(size, align).unwrap()
}

fn ready(plan: Plan) -> DevicePtr {
    match plan {
        Plan::Ready(h) => h,
        other => panic!("expected a served request, got {:?}", other),
    }
}

#[test]
fn offset_rounds_to_alignment() {
    assert_eq!(align_offset(0, 8), 0);
    assert_eq!(align_offset(1, 8), 7);
    assert_eq!(align_offset(13, 16), 3);
    assert_eq!(align_offset(512, 512), 0);
    assert_eq!(align_offset(u64::MAX, 2), 1);
}

#[test]
fn align_up_values() {
    assert_eq!(align_up(0, 512), 0);
    assert_eq!(align_up(1, 512), 512);
    assert_eq!(align_up(100, 32), 128);
    assert_eq!(align_up(128, 32), 128);
    assert_eq!(align_up(4097, 1), 4097);
}

#[test]
fn constants() {
    assert_eq!(MAX_ALIGNMENT, 512);
    assert_eq!(PITCH_ALIGNMENT, 32);
}

#[test]
fn layout_rejects_bad_alignment_and_size() {
    assert_eq!(Layout::from_size_align(10, 3).unwrap_err(), LayoutError);
    assert_eq!(Layout::from_size_align(10, 0).unwrap_err(), LayoutError);
    assert_eq!(Layout::from_size_align(10, 1024).unwrap_err(), LayoutError);
    assert!(Layout::from_size_align(isize::MAX as usize, 2).is_err());
    assert!(Layout::from_size_align(isize::MAX as usize, 1).is_ok());
    let l = layout(10, 8);
    assert_eq!((l.size(), l.align()), (10, 8));
}

#[test]
fn tag_keeps_external_bits_and_clears_internal_range() {
    assert_eq!(compose_tag(0xF123, false), 0x0123);
    assert_eq!(compose_tag(0x0ABC, false), 0x0ABC);
    assert_eq!(compose_tag(0xF123, true), 0x8123);
    assert_eq!(compose_tag(0, true), DEFAULT_ALLOC_BIT);
}

#[test]
fn handle_accessors() {
    let h = DevicePtr::with_tag(0x2000, 0x8001);
    assert_eq!(h.ptr(), 0x2000);
    assert_eq!(h.tag(), 0x8001);
    assert!(h.is_direct());
    assert!(!DevicePtr::new(0x2000).is_direct());
    assert_eq!(DevicePtr::new(7).tag(), 0);
}

#[test]
fn new_rounds_block_size_up() {
    assert_eq!(DeviceFrameAllocator::block_size_for(1000), 1024);
    assert_eq!(DeviceFrameAllocator::block_size_for(4096), 4096);
    let a = DeviceFrameAllocator::new(1000, 8192, BASE);
    assert_eq!(a.block_size(), 1024);
    assert_eq!(a.block(), BASE);
    assert_eq!(a.max_size(), 8192);
    assert_eq!(a.report(), (0, 0));
    assert!(a.old_blocks().is_empty());
}

#[test]
fn bump_addresses_are_aligned_and_inside_the_block() {
    let mut a = DeviceFrameAllocator::new(4096, 8192, BASE);
    let h1 = ready(a.alloc_untagged(layout(3, 1)));
    assert_eq!(h1, DevicePtr::new(BASE));
    let h2 = ready(a.alloc_untagged(layout(16, 64)));
    assert_eq!(h2.ptr(), BASE + 64);
    let h3 = ready(a.alloc_untagged(layout(1, 8)));
    assert_eq!(h3.ptr(), BASE + 80);
    for h in [h1, h2, h3] {
        assert!(h.ptr() >= BASE && h.ptr() < BASE + 4096);
    }
    assert_eq!(a.report(), (3, 20));
}

#[test]
fn tagged_request_masks_internal_bits() {
    let mut a = DeviceFrameAllocator::new(4096, 8192, BASE);
    let h = ready(a.alloc_with_tag(layout(8, 8), 0xF00D));
    assert_eq!(h.tag(), 0x000D);
    let h = ready(a.alloc_with_tag(layout(8, 8), 0x0123));
    assert_eq!(h.tag(), 0x0123);
    assert!(!h.is_direct());
}

#[test]
fn large_request_goes_to_the_device() {
    let mut a = DeviceFrameAllocator::new(4096, 8192, BASE);
    ready(a.alloc_untagged(layout(100, 8)));
    match a.alloc_with_tag(layout(8192, 8), 0x7123) {
        Plan::Direct { size } => assert_eq!(size, 8192),
        other => panic!("expected a direct request, got {:?}", other),
    }
    assert_eq!(a.report(), (1, 100));
    let h = DeviceFrameAllocator::direct_handle(0x9000_0000, 0x7123);
    assert_eq!(h, DevicePtr::with_tag(0x9000_0000, 0x8123));
    assert!(h.is_direct());
    let h = DeviceFrameAllocator::direct_handle(0x9000_0000, 0);
    assert_eq!(h.tag(), DEFAULT_ALLOC_BIT);
}

#[test]
fn growth_doubles_until_the_request_fits() {
    let mut a = DeviceFrameAllocator::new(4096, 100_000, BASE);
    ready(a.alloc_untagged(layout(3000, 8)));
    let plan = a.alloc_untagged(layout(20_000, 8));
    let (size, align, block_size) = match plan {
        Plan::NewBlock { size, align, block_size } => (size, align, block_size),
        other => panic!("expected a new block, got {:?}", other),
    };
    assert_eq!((size, align, block_size), (20_000, 8, 32_768));
    assert_eq!(a.report(), (1, 3000));
    let fresh = 0x20_0000;
    let h = a.alloc_from_new_block(size, align, 0x0042, fresh);
    assert_eq!(h, DevicePtr::with_tag(fresh, 0x0042));
    assert_eq!(a.old_blocks(), &[BASE]);
    assert_eq!(a.block(), fresh);
    assert_eq!(a.block_size(), 32_768);
    assert_eq!(a.report(), (2, 23_000));
    let next = ready(a.alloc_untagged(layout(10, 16)));
    assert_eq!(next.ptr(), fresh + 20_000);
}

#[test]
fn grown_block_size_keeps_a_large_enough_block() {
    let a = DeviceFrameAllocator::new(4096, 100_000, BASE);
    assert_eq!(a.grown_block_size(1000), 4096);
    assert_eq!(a.grown_block_size(4097), 8192);
    assert_eq!(a.grown_block_size(8192), 8192);
}

#[test]
fn refused_block_leaves_counters_frozen() {
    let mut a = DeviceFrameAllocator::new(512, 8192, BASE);
    ready(a.alloc_untagged(layout(500, 4)));
    assert!(matches!(a.alloc_untagged(layout(100, 4)), Plan::NewBlock { .. }));
    // the device refused the block: nothing was finished
    assert_eq!(a.report(), (1, 500));
    assert_eq!(a.block(), BASE);
    assert!(a.old_blocks().is_empty());
    let h = ready(a.alloc_untagged(layout(12, 4)));
    assert_eq!(h.ptr(), BASE + 500);
    assert_eq!(a.report(), (2, 512));
}

#[test]
fn pitch_rounds_rows_to_thirty_two_bytes() {
    assert_eq!(DeviceFrameAllocator::pitch_for(100), 128);
    assert_eq!(DeviceFrameAllocator::pitch_for(128), 128);
    assert_eq!(DeviceFrameAllocator::pitch_for(0), 0);
    let mut a = DeviceFrameAllocator::new(4096, 8192, BASE);
    ready(a.alloc_untagged(layout(1, 1)));
    let (plan, pitch) = a.alloc_pitch(100, 4, 4);
    assert_eq!(pitch, 128);
    assert_eq!(ready(plan), DevicePtr::new(BASE + 512));
    assert_eq!(a.report(), (2, 513));
    let (plan, pitch) = a.alloc_pitch_with_tag(128, 2, 4, 0xF00F);
    assert_eq!(pitch, 128);
    assert_eq!(ready(plan), DevicePtr::with_tag(BASE + 1024, 0x000F));
}

#[test]
fn large_pitched_request_goes_to_the_device() {
    let mut a = DeviceFrameAllocator::new(4096, 8192, BASE);
    let (plan, pitch) = a.alloc_pitch_with_tag(100, 64, 1, 5);
    assert_eq!(pitch, 128);
    assert!(matches!(plan, Plan::Direct { size: 8192 }));
    assert_eq!(a.report(), (0, 0));
}

#[test]
fn dealloc_changes_nothing() {
    let mut a = DeviceFrameAllocator::new(4096, 8192, BASE);
    let h = ready(a.alloc_untagged(layout(64, 8)));
    a.dealloc(h);
    assert_eq!(a.report(), (1, 64));
    assert_eq!(ready(a.alloc_untagged(layout(8, 8))).ptr(), BASE + 64);
}

#[test]
fn five_requests_of_a_thousand_bytes() {
    let mut a = DeviceFrameAllocator::new(4096, 8192, BASE);
    let l = layout(1000, 8);
    let mut first = Vec::new();
    for _ in 0..4 {
        first.push(ready(a.alloc_untagged(l)).ptr());
    }
    assert_eq!(first, vec![BASE, BASE + 1000, BASE + 2000, BASE + 3000]);
    for p in &first {
        assert!(*p >= BASE && *p + 1000 <= BASE + 4096);
    }
    let (size, align, block_size) = match a.alloc_untagged(l) {
        Plan::NewBlock { size, align, block_size } => (size, align, block_size),
        other => panic!("expected a new block, got {:?}", other),
    };
    // doubling stops as soon as the block holds the request
    assert_eq!(block_size, 4096);
    let fresh = 0x40_0000;
    let fifth = a.alloc_from_new_block(size, align, 0, fresh).ptr();
    assert_eq!(fifth, fresh);
    assert!(fifth >= a.block() && fifth + 1000 <= a.block() + a.block_size() as u64);
    assert_eq!(a.old_blocks(), &[BASE]);
    assert_eq!(a.report(), (5, 5000));
}

#[test]
fn optix_error_joins_message_and_description() {
    match optix_error("launch failed", "invalid value", 3) {
        Error::Optix((code, text)) => {
            assert_eq!(code, 3);
            assert_eq!(text, "launch failed: invalid value");
        }
        other => panic!("unexpected error {:?}", other),
    }
}

#[test]
fn can_serve_spots_overflow() {
    let a = DeviceFrameAllocator::new(4096, 8192, BASE);
    assert!(a.can_serve(1000, 8));
    assert!(a.can_serve(usize::MAX, 512));
    let high = u64::MAX - 4095 - 511;
    let b = DeviceFrameAllocator::new(4096, usize::MAX, high);
    assert!(b.can_serve(100, 8));
    assert!(!b.can_serve(5000, 8));
    assert!(!b.can_serve(usize::MAX - 1, 1));
}

#[test]
fn io_errors_convert() {
    let e: Error = std::io::Error::new(std::io::ErrorKind::NotFound, "gone").into();
    match e {
        Error::Io(inner) => assert_eq!(inner.kind(), std::io::ErrorKind::NotFound),
        other => panic!("unexpected error {:?}", other),
    }
}

#[test]
fn alignment_helpers_take_any_power_of_two() {
    let big: usize = 1 << 40;
    assert_eq!(align_offset(1, big), (1u64 << 40) - 1);
    assert_eq!(align_up(1, big), 1u64 << 40);
    assert_eq!(align_up(1u64 << 40, big), 1u64 << 40);
    let top: usize = 1 << 63;
    assert_eq!(align_offset(5, top), (1u64 << 63) - 5);
    assert_eq!(align_up(1u64 << 63, top), 1u64 << 63);
    assert_eq!(align_up(3, top), 1u64 << 63);
}

#[test]
fn align_up_reaches_the_last_multiple() {
    let align: usize = 4096;
    let ptr = u64::MAX - align as u64 + 1;
    assert_eq!(align_up(ptr, align), ptr);
    assert_eq!(align_up(ptr - 100, align), ptr);
    assert_eq!(align_offset(ptr - 100, align), 100);
    assert_eq!(align_up(align_up(ptr - 100, align), align), ptr);
}

#[test]
fn error_messages() {
    assert_eq!(Error::Bounds.message(), "[ERROR out of bounds]");
    assert_eq!(Error::IncompatibleBuilderType.message(), "[ERROR incompatible builder type]");
    assert_eq!(Error::HandleNotFoundError.message(), "[ERROR Hande Not Found]");
    assert_eq!(Error::SearchPath("ptx".to_string()).message(), "[ERROR SearchPath ptx");
    assert_eq!(Error::NvrtcError("bad".to_string()).message(), "[Error nvrtc] bad");
    assert_eq!(Error::Optix((7, "x: y".to_string())).message(), "[ERROR OptiX 7] x: y");
    assert_eq!(Error::NulError(4).message(), "[ERROR Nul byte at position 4]");
    assert_eq!(
        Error::IncompatibleBufferFormat { given: 2, expected: 3 }.message(),
        "[ERROR Expected buffer format of 2, given 3"
    );
    assert_eq!(Error::Device(2).message(), "[ERROR device memory 2]");
    let io = Error::Io(std::io::Error::new(std::io::ErrorKind::Other, "disk"));
    assert_eq!(io.message(), "[ERROR IO] disk");
    assert_eq!(
        optix_error("launch", "bad", 9).message(),
        "[ERROR OptiX 9] launch: bad"
    );
}
