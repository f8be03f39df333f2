use aetherstream::text::{owned, trim_end_matches_char};
use aetherstream::video::local::is_video_extension;

#[test]
fn text_helpers() {
    assert_eq!(trim_end_matches_char("a///", '/'), "a");
    assert_eq!(trim_end_matches_char("///", '/'), "");
    assert_eq!(owned("x"), "x");
}

#[test]
fn lowercase_comparison_uses_unicode_case() {
    assert!(is_video_extension("MP4"));
    assert!(is_video_extension("ＭＰ4") == false);
    assert!(is_video_extension("WMV"));
}
