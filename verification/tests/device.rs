use flo_engine::device::{
    choose_present_mode, choose_surface_format, find_memory_type, find_queue_families,
    pack_shader_words, pick_physical_device, swap_image_count, QueueFamilyCaps, QueueFamilyIndices,
    SurfaceFormat, COLOR_SPACE_SRGB_NONLINEAR, FORMAT_B8G8R8A8_SRGB, PRESENT_MODE_FIFO,
    PRESENT_MODE_IMMEDIATE, PRESENT_MODE_MAILBOX,
};

fn caps(g: bool, p: bool) -> QueueFamilyCaps {
    QueueFamilyCaps { supports_graphics: g, supports_present: p }
}

#[test]
fn is_complete_requires_both_families() {
    let none = QueueFamilyIndices { graphics_family: None, present_family: None };
    assert!(!none.is_complete());
    let only_g = QueueFamilyIndices { graphics_family: Some(0), present_family: None };
    assert!(!only_g.is_complete());
    let both = QueueFamilyIndices { graphics_family: Some(0), present_family: Some(1) };
    assert!(both.is_complete());
}

#[test]
fn family_scan_stops_as_soon_as_complete() {
    // Family 0 has graphics only, family 1 both: the scan stops at 1 and
    // keeps the later graphics index.
    let fams = vec![caps(true, false), caps(true, true), caps(false, true)];
    let idx = find_queue_families(&fams);
    assert_eq!(idx.graphics_family, Some(1));
    assert_eq!(idx.present_family, Some(1));
}

#[test]
fn family_scan_remembers_latest_until_complete() {
    let fams = vec![caps(true, false), caps(true, false), caps(false, true)];
    let idx = find_queue_families(&fams);
    assert_eq!(idx.graphics_family, Some(1));
    assert_eq!(idx.present_family, Some(2));
}

#[test]
fn family_scan_incomplete_without_present() {
    let fams = vec![caps(true, false), caps(true, false)];
    let idx = find_queue_families(&fams);
    assert_eq!(idx.graphics_family, Some(1));
    assert_eq!(idx.present_family, None);
    assert!(!idx.is_complete());
}

#[test]
fn first_suitable_device_is_picked() {
    let devices = vec![
        vec![caps(true, false)],
        vec![caps(false, true), caps(true, true)],
        vec![caps(true, true)],
    ];
    let (d, idx) = pick_physical_device(&devices).unwrap();
    assert_eq!(d, 1);
    assert!(idx.is_complete());
    assert!(pick_physical_device(&vec![vec![caps(true, false)]]).is_none());
}

#[test]
fn srgb_format_is_preferred() {
    let formats = vec![
        SurfaceFormat { format: 44, color_space: 0 },
        SurfaceFormat { format: FORMAT_B8G8R8A8_SRGB, color_space: COLOR_SPACE_SRGB_NONLINEAR },
    ];
    let f = choose_surface_format(&formats);
    assert_eq!(f.format, FORMAT_B8G8R8A8_SRGB);
    assert_eq!(f.color_space, COLOR_SPACE_SRGB_NONLINEAR);
}

#[test]
fn first_format_is_fallback() {
    let formats = vec![
        SurfaceFormat { format: 44, color_space: 0 },
        SurfaceFormat { format: 50, color_space: 7 },
    ];
    let f = choose_surface_format(&formats);
    assert_eq!(f.format, 44);
    assert_eq!(f.color_space, 0);
}

#[test]
fn present_mode_ranking() {
    assert_eq!(
        choose_present_mode(&vec![PRESENT_MODE_FIFO, PRESENT_MODE_MAILBOX, PRESENT_MODE_IMMEDIATE]),
        PRESENT_MODE_MAILBOX
    );
    assert_eq!(
        choose_present_mode(&vec![PRESENT_MODE_FIFO, PRESENT_MODE_IMMEDIATE]),
        PRESENT_MODE_IMMEDIATE
    );
    assert_eq!(choose_present_mode(&vec![PRESENT_MODE_FIFO]), PRESENT_MODE_FIFO);
    assert_eq!(choose_present_mode(&vec![]), PRESENT_MODE_FIFO);
}

#[test]
fn swap_image_count_is_min_plus_one_capped() {
    assert_eq!(swap_image_count(2, 0), 3);
    assert_eq!(swap_image_count(2, 8), 3);
    assert_eq!(swap_image_count(3, 3), 3);
    assert_eq!(swap_image_count(5, 4), 4);
}

#[test]
fn memory_type_first_match_wins() {
    // Types 0 and 2 are admissible by filter; type 0 lacks the property
    // bits, type 2 has them.
    let flags = vec![0b0001u32, 0b0110, 0b0111, 0b0111];
    let r = find_memory_type(0b1101, &flags, 0b0110);
    assert_eq!(r, Some(2));
    assert_eq!(find_memory_type(0b0001, &flags, 0b0110), None);
    assert_eq!(find_memory_type(0b1111, &flags, 0b0110), Some(1));
}

#[test]
fn shader_words_are_little_endian() {
    let code = vec![0x01u8, 0x02, 0x03, 0x04, 0xFF, 0x00, 0x00, 0x80, 0xAA];
    let words = pack_shader_words(&code);
    assert_eq!(words.len(), 2);
    assert_eq!(words[0], 0x04030201);
    assert_eq!(words[1], 0x800000FF);
}
