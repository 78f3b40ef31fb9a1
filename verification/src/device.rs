//! Device and surface negotiation.
//!
//! Every function here is the decision half of a start-up step: the caller
//! queries the driver for plain values (queue-family capabilities, surface
//! formats, present modes, memory types) and these functions pick among
//! them exactly as the engine requires.

use vstd::prelude::*;

verus! {

/// What one queue family of a physical device can do, as reported by the
/// driver.
#[derive(Clone, Copy, Debug)]
pub struct QueueFamilyCaps {
    pub supports_graphics: bool,
    pub supports_present: bool,
}

/// The queue families the engine settled on: one for graphics work, one
/// for presentation (they may coincide).
#[derive(Clone, Copy, Debug)]
pub struct QueueFamilyIndices {
    pub graphics_family: Option<u32>,
    pub present_family: Option<u32>,
}

impl QueueFamilyIndices {
    pub open spec fn spec_is_complete(&self) -> bool {
        self.graphics_family is Some && self.present_family is Some
    }

    /// Both a graphics-capable and a present-capable family have been found.
    pub fn is_complete(&self) -> (r: bool)
        ensures
            r == self.spec_is_complete(),
    {
        self.graphics_family.is_some() && self.present_family.is_some()
    }
}

/// The family scan: walk the families in order, remember the most recent
/// graphics-capable and present-capable index, and stop as soon as both
/// are known.
pub open spec fn spec_scan_families(
    fams: Seq<QueueFamilyCaps>,
    i: int,
    acc: QueueFamilyIndices,
) -> QueueFamilyIndices
    decreases fams.len() - i when 0 <= i <= fams.len()
{
    if i >= fams.len() || acc.spec_is_complete() {
        acc
    } else {
        let acc2 = QueueFamilyIndices {
            graphics_family: if fams[i].supports_graphics {
                Some(i as u32)
            } else {
                acc.graphics_family
            },
            present_family: if fams[i].supports_present {
                Some(i as u32)
            } else {
                acc.present_family
            },
        };
        spec_scan_families(fams, i + 1, acc2)
    }
}

pub open spec fn spec_find_queue_families(fams: Seq<QueueFamilyCaps>) -> QueueFamilyIndices {
    spec_scan_families(
        fams,
        0,
        QueueFamilyIndices { graphics_family: None, present_family: None },
    )
}

/// Select queue families for one physical device from the capabilities the
/// driver reported for it.
pub fn find_queue_families(families: &Vec<QueueFamilyCaps>) -> (r: QueueFamilyIndices)
    requires
        families@.len() <= u32::MAX,
    ensures
        r == spec_find_queue_families(families@),
{
    let mut indices = QueueFamilyIndices { graphics_family: None, present_family: None };
    let mut i: usize = 0;
    while i < families.len()
        invariant_except_break
            !indices.spec_is_complete(),
        invariant
            0 <= i <= families@.len(),
            families@.len() <= u32::MAX,
            spec_find_queue_families(families@) == spec_scan_families(families@, i as int, indices),
        ensures
            spec_find_queue_families(families@) == spec_scan_families(families@, i as int, indices),
            i >= families@.len() || indices.spec_is_complete(),
        decreases families@.len() - i,
    {
        let ghost prev = indices;
        let fam = families[i];
        if fam.supports_graphics {
            indices.graphics_family = Some(i as u32);
        }
        if fam.supports_present {
            indices.present_family = Some(i as u32);
        }
        proof {
            assert(spec_scan_families(families@, i as int, prev) == spec_scan_families(
                families@,
                i as int + 1,
                indices,
            ));
        }
        i = i + 1;
        if indices.is_complete() {
            break;
        }
    }
    indices
}

/// Pick the first physical device whose queue families support both
/// graphics and presentation; `None` when no device is suitable, which the
/// engine treats as a fatal start-up failure.
pub fn pick_physical_device(devices: &Vec<Vec<QueueFamilyCaps>>) -> (r: Option<(
    usize,
    QueueFamilyIndices,
)>)
    requires
        forall|d: int| 0 <= d < devices@.len() ==> #[trigger] devices@[d]@.len() <= u32::MAX,
    ensures
        match r {
            Some(pick) => {
                &&& pick.0 < devices@.len()
                &&& pick.1 == spec_find_queue_families(devices@[pick.0 as int]@)
                &&& pick.1.spec_is_complete()
                &&& forall|d: int|
                    0 <= d < pick.0 ==> !spec_find_queue_families(
                        #[trigger] devices@[d]@,
                    ).spec_is_complete()
            },
            None => forall|d: int|
                0 <= d < devices@.len() ==> !spec_find_queue_families(
                    #[trigger] devices@[d]@,
                ).spec_is_complete(),
        },
{
    let mut d: usize = 0;
    while d < devices.len()
        invariant
            0 <= d <= devices@.len(),
            forall|k: int| 0 <= k < devices@.len() ==> #[trigger] devices@[k]@.len() <= u32::MAX,
            forall|k: int|
                0 <= k < d ==> !spec_find_queue_families(
                    #[trigger] devices@[k]@,
                ).spec_is_complete(),
        decreases devices@.len() - d,
    {
        let indices = find_queue_families(&devices[d]);
        if indices.is_complete() {
            return Some((d, indices));
        }
        d = d + 1;
    }
    None
}

/// One surface format the driver offers: an image format code paired with
/// a color-space code, both as the graphics API numbers them.
#[derive(Clone, Copy, Debug)]
pub struct SurfaceFormat {
    pub format: u32,
    pub color_space: u32,
}

/// Format code of 8-bit BGRA with sRGB encoding.
pub const FORMAT_B8G8R8A8_SRGB: u32 = 50;

/// Color-space code of non-linear sRGB.
pub const COLOR_SPACE_SRGB_NONLINEAR: u32 = 0;

pub open spec fn spec_is_srgb_format(f: SurfaceFormat) -> bool {
    f.format == FORMAT_B8G8R8A8_SRGB && f.color_space == COLOR_SPACE_SRGB_NONLINEAR
}

/// Prefer an sRGB-capable surface format; fall back to the first format
/// offered.
pub fn choose_surface_format(formats: &Vec<SurfaceFormat>) -> (r: SurfaceFormat)
    requires
        formats@.len() > 0,
    ensures
        (exists|i: int|
            0 <= i < formats@.len() && spec_is_srgb_format(#[trigger] formats@[i])) ==> {
            &&& spec_is_srgb_format(r)
            &&& exists|i: int|
                {
                    &&& 0 <= i < formats@.len()
                    &&& r == #[trigger] formats@[i]
                    &&& forall|j: int| 0 <= j < i ==> !spec_is_srgb_format(#[trigger] formats@[j])
                }
        },
        (forall|i: int| 0 <= i < formats@.len() ==> !spec_is_srgb_format(#[trigger] formats@[i]))
            ==> r == formats@[0],
{
    let mut i: usize = 0;
    while i < formats.len()
        invariant
            0 <= i <= formats@.len(),
            formats@.len() > 0,
            forall|j: int| 0 <= j < i ==> !spec_is_srgb_format(#[trigger] formats@[j]),
        decreases formats@.len() - i,
    {
        let f = formats[i];
        if f.format == FORMAT_B8G8R8A8_SRGB && f.color_space == COLOR_SPACE_SRGB_NONLINEAR {
            return f;
        }
        i = i + 1;
    }
    formats[0]
}

/// Present-mode code: frames are shown immediately, tearing allowed.
pub const PRESENT_MODE_IMMEDIATE: u32 = 0;

/// Present-mode code: triple buffering, the newest ready frame is shown.
pub const PRESENT_MODE_MAILBOX: u32 = 1;

/// Present-mode code: vsync'd first-in first-out; always available.
pub const PRESENT_MODE_FIFO: u32 = 2;

/// Rank the offered present modes: triple buffering, else uncapped
/// tearing, else vsync'd FIFO (the guaranteed last resort).
pub fn choose_present_mode(modes: &Vec<u32>) -> (r: u32)
    ensures
        modes@.contains(PRESENT_MODE_MAILBOX) ==> r == PRESENT_MODE_MAILBOX,
        !modes@.contains(PRESENT_MODE_MAILBOX) && modes@.contains(PRESENT_MODE_IMMEDIATE) ==> r
            == PRESENT_MODE_IMMEDIATE,
        !modes@.contains(PRESENT_MODE_MAILBOX) && !modes@.contains(PRESENT_MODE_IMMEDIATE) ==> r
            == PRESENT_MODE_FIFO,
{
    let mut has_mailbox = false;
    let mut has_immediate = false;
    let mut i: usize = 0;
    while i < modes.len()
        invariant
            0 <= i <= modes@.len(),
            has_mailbox == exists|j: int| 0 <= j < i && modes@[j] == PRESENT_MODE_MAILBOX,
            has_immediate == exists|j: int| 0 <= j < i && modes@[j] == PRESENT_MODE_IMMEDIATE,
        decreases modes@.len() - i,
    {
        if modes[i] == PRESENT_MODE_MAILBOX {
            has_mailbox = true;
        }
        if modes[i] == PRESENT_MODE_IMMEDIATE {
            has_immediate = true;
        }
        i = i + 1;
    }
    if has_mailbox {
        PRESENT_MODE_MAILBOX
    } else if has_immediate {
        PRESENT_MODE_IMMEDIATE
    } else {
        PRESENT_MODE_FIFO
    }
}

/// How many swap images to ask for: one more than the surface's minimum,
/// capped by its maximum when the surface reports one (a maximum of zero
/// means unbounded).
pub fn swap_image_count(min_image_count: u32, max_image_count: u32) -> (r: u32)
    requires
        min_image_count < u32::MAX,
    ensures
        r == if min_image_count + 1 <= (if max_image_count > 0 {
            max_image_count as int
        } else {
            u32::MAX as int
        }) {
            min_image_count + 1
        } else if max_image_count > 0 {
            max_image_count as int
        } else {
            u32::MAX as int
        },
{
    let wanted = min_image_count + 1;
    let cap = if max_image_count > 0 {
        max_image_count
    } else {
        u32::MAX
    };
    if wanted <= cap {
        wanted
    } else {
        cap
    }
}

/// Whether memory type `i` is admissible: its bit is set in the resource's
/// type filter and its property flags contain all required properties.
pub open spec fn spec_memory_type_matches(
    type_filter: u32,
    flags: u32,
    required: u32,
    i: int,
) -> bool {
    &&& type_filter & (1u32 << (i as u32)) != 0
    &&& flags & required == required
}

/// First memory type whose bit is set in `type_filter` and whose property
/// flags contain every required property; `None` when no type qualifies,
/// which the engine treats as a fatal resource-creation failure.
pub fn find_memory_type(type_filter: u32, memory_type_flags: &Vec<u32>, required: u32) -> (r:
    Option<u32>)
    requires
        memory_type_flags@.len() <= 32,
    ensures
        match r {
            Some(i) => {
                &&& i < memory_type_flags@.len()
                &&& spec_memory_type_matches(type_filter, memory_type_flags@[i as int], required, i as int)
                &&& forall|j: int|
                    0 <= j < i ==> !spec_memory_type_matches(
                        type_filter,
                        #[trigger] memory_type_flags@[j],
                        required,
                        j,
                    )
            },
            None => forall|j: int|
                0 <= j < memory_type_flags@.len() ==> !spec_memory_type_matches(
                    type_filter,
                    #[trigger] memory_type_flags@[j],
                    required,
                    j,
                ),
        },
{
    let mut i: usize = 0;
    while i < memory_type_flags.len()
        invariant
            0 <= i <= memory_type_flags@.len(),
            memory_type_flags@.len() <= 32,
            forall|j: int|
                0 <= j < i ==> !spec_memory_type_matches(
                    type_filter,
                    #[trigger] memory_type_flags@[j],
                    required,
                    j,
                ),
        decreases memory_type_flags@.len() - i,
    {
        let flags = memory_type_flags[i];
        if (type_filter & (1u32 << (i as u32))) != 0 && (flags & required) == required {
            return Some(i as u32);
        }
        i = i + 1;
    }
    None
}

/// The little-endian 32-bit word starting at byte `4 * i`.
pub open spec fn spec_le_word(bytes: Seq<u8>, i: int) -> int {
    bytes[4 * i] + 256 * bytes[4 * i + 1] + 65536 * bytes[4 * i + 2] + 16777216 * bytes[4 * i + 3]
}

/// Pack a shader binary into the 32-bit little-endian words the driver
/// expects; a trailing partial word is dropped.
pub fn pack_shader_words(code: &Vec<u8>) -> (r: Vec<u32>)
    ensures
        r@.len() == code@.len() / 4,
        forall|i: int| 0 <= i < r@.len() ==> #[trigger] r@[i] == spec_le_word(code@, i),
{
    let n = code.len() / 4;
    let mut words: Vec<u32> = Vec::new();
    let mut i: usize = 0;
    while i < n
        invariant
            0 <= i <= n,
            n == code@.len() / 4,
            4 * n <= code@.len(),
            code@.len() <= usize::MAX,
            words@.len() == i,
            forall|k: int| 0 <= k < i ==> #[trigger] words@[k] == spec_le_word(code@, k),
        decreases n - i,
    {
        proof {
            assert(4 * i + 3 < code@.len());
        }
        let b0 = code[4 * i] as u32;
        let b1 = code[4 * i + 1] as u32;
        let b2 = code[4 * i + 2] as u32;
        let b3 = code[4 * i + 3] as u32;
        let w = b0 + 256 * b1 + 65536 * b2 + 16777216 * b3;
        words.push(w);
        i = i + 1;
    }
    words
}

} // verus!
