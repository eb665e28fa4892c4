use samply_core::bias::{compute_vma_bias_impl, SvmaFileRange};

fn r(svma: u64, file_offset: u64, size: u64) -> SvmaFileRange {
    SvmaFileRange { svma, file_offset, size }
}

#[test]
fn test_compute_base_avma_impl() {
    // From a local build of the Spidermonkey shell ("js")
    let js_segments = &[
        r(0x0, 0x0, 0x14bd0bc),
        r(0x14be0c0, 0x14bd0c0, 0xf5bf60),
        r(0x241b020, 0x2419020, 0x08e920),
        r(0x24aa940, 0x24a7940, 0x002d48),
    ];
    assert_eq!(
        compute_vma_bias_impl(js_segments, 0x14bd0c0, 0x100014be0c0, 0xf5bf60),
        Some(0x10000000000)
    );
    assert_eq!(
        compute_vma_bias_impl(js_segments, 0x14bd000, 0x55d605384000, 0xf5d000),
        Some(0x55d603ec6000)
    );

    // From a local build of the V8 shell ("d8")
    let d8_segments = &[
        r(0x0, 0x0, 0x3c8ed8),
        r(0x03ca000, 0x3c9000, 0xfec770),
        r(0x13b7770, 0x13b5770, 0x0528d0),
        r(0x140c000, 0x1409000, 0x0118f0),
    ];
    assert_eq!(
        compute_vma_bias_impl(d8_segments, 0x1056000, 0x55d15fe80000, 0x180000),
        Some(0x55d15ee29000)
    );
}

#[test]
fn bias_easy_case() {
    let segments = &[r(0, 0, 0x1000), r(0x2000, 0x1000, 0x1000)];
    assert_eq!(compute_vma_bias_impl(segments, 0x1000, 0x55f000, 0x1000), Some(0x55d000));
}

#[test]
fn bias_without_reference_is_none() {
    let segments = &[r(0, 0, 0x1000)];
    assert_eq!(compute_vma_bias_impl(segments, 0x800, 0x10000, 0x1000), None);
    assert_eq!(compute_vma_bias_impl(&[], 0, 0x10000, 0x1000), None);
}

#[test]
fn bias_wraps_below_svma() {
    let segments = &[r(0x5000, 0, 0x1000)];
    assert_eq!(compute_vma_bias_impl(segments, 0, 0x1000, 0x1000), Some(0u64.wrapping_sub(0x4000)));
}

#[test]
fn file_range_containment() {
    let c = r(0x2000, 0x1000, 0x1000);
    assert!(c.encompasses_file_range(0x1000, 0x800));
    assert!(!c.encompasses_file_range(0x800, 0x1000));
    assert!(c.is_encompassed_by_file_range(0x0, 0x3000));
    assert!(!c.is_encompassed_by_file_range(0x1800, 0x3000));
    let big = r(0, u64::MAX, 2);
    assert!(!big.encompasses_file_range(u64::MAX, 3));
    assert!(big.encompasses_file_range(u64::MAX, 2));
}

#[test]
fn ranges_from_segments_and_sections() {
    assert_eq!(SvmaFileRange::from_segment(0x2000, (0x1000, 0x800)), r(0x2000, 0x1000, 0x800));
    assert_eq!(SvmaFileRange::from_section(0x40, Some((0x80, 0x10))), Some(r(0x40, 0x80, 0x10)));
    assert_eq!(SvmaFileRange::from_section(0x40, None), None);
}
