use rpx_core::text::concat3;
use rpx_core::text::contains_str;
use rpx_core::text::dollars_2dp;
use rpx_core::text::is_alphanumeric;
use rpx_core::text::replace_slashes;
use rpx_core::text::slug;
use rpx_core::text::starts_with;
use rpx_core::text::strip_prefix;
use rpx_core::text::to_lowercase;
use rpx_core::text::trim;
use rpx_core::text::trim_dashes;
use rpx_core::text::u64_to_string;
use rpx_core::ui::dim;
use rpx_core::ui::error;
use rpx_core::ui::key_value;
use rpx_core::ui::label;
use rpx_core::ui::spinner_frame;
use rpx_core::ui::success;
use rpx_core::ui::table_header;
use rpx_core::ui::table_row;
use rpx_core::ui::title;
use rpx_core::ui::InlineSpinner;

#[test]
fn styles() {
    assert_eq!(title("rpx"), "\x1b[1;35mrpx\x1b[0m");
    assert_eq!(success("ok"), "\x1b[1;32mok\x1b[0m");
    assert_eq!(error("no"), "\x1b[1;31mno\x1b[0m");
    assert_eq!(dim("x"), "\x1b[2mx\x1b[0m");
    assert_eq!(label("k"), "\x1b[35mk\x1b[0m");
    assert_eq!(key_value("ID", "ep-1"), "  \x1b[35mID:\x1b[0m ep-1");
}

#[test]
fn tables() {
    assert_eq!(table_row(&[("a", 3), ("bcdef", 2), ("z", 1)]), "a   bcdef z");
    assert_eq!(table_row(&[]), "");
    assert_eq!(table_header(&[("NAME", 6), ("GPU", 4)]), "NAME   GPU \n------------");
    // Widths count characters, not bytes.
    assert_eq!(table_row(&[("é", 3)]), "é  ");
}

#[test]
fn spinner() {
    assert_eq!(spinner_frame(0), "⠋");
    assert_eq!(spinner_frame(9), "⠏");
    assert_eq!(spinner_frame(10), "⠋");
    let mut s = InlineSpinner::new("deploying");
    assert_eq!(s.tick_text(), "\r⠋ deploying");
    assert_eq!(s.tick_text(), "\r⠙ deploying");
    assert_eq!(s.frame, 2);
    assert_eq!(s.finish_text("done"), "\r\x1b[1;32m✓\x1b[0m done");
    assert_eq!(s.fail_text("failed"), "\r\x1b[1;31m✗\x1b[0m failed");
}

#[test]
fn text_helpers() {
    assert_eq!(to_lowercase("ÀB-c"), "àb-c");
    assert!(is_alphanumeric('é'));
    assert!(is_alphanumeric('7'));
    assert!(!is_alphanumeric('-'));
    assert_eq!(concat3("a", "b", "c"), "abc");
    assert_eq!(u64_to_string(0), "0");
    assert_eq!(u64_to_string(18_446_744_073_709_551_615), "18446744073709551615");
    assert_eq!(trim("\t x y \u{3000}"), "x y");
    assert_eq!(trim_dashes("--a-b--"), "a-b");
    assert_eq!(slug("Org/Model_v1.5"), "org-model-v1-5");
    assert_eq!(strip_prefix("env:X", "env:"), Some("X".to_string()));
    assert_eq!(strip_prefix("X", "env:"), None);
    assert!(starts_with("/v1/rpx/status", "/v1/rpx/"));
    assert!(!starts_with("/v1", "/v1/rpx/"));
    assert!(contains_str("rpx-llama-8b", "llama"));
    assert!(contains_str("abc", ""));
    assert!(!contains_str("ab", "abc"));
    assert_eq!(replace_slashes("a/b/c"), "a-b-c");
}

#[test]
fn dollar_amounts() {
    assert_eq!(dollars_2dp(0), "0.00");
    assert_eq!(dollars_2dp(1_000_000_000_000), "1.00");
    assert_eq!(dollars_2dp(50_000_000_000_000), "50.00");
    assert_eq!(dollars_2dp(1_234_000_000), "0.00");
    assert_eq!(dollars_2dp(5_000_000_000), "0.01");
    assert_eq!(dollars_2dp(99_990_000_000_000), "99.99");
}
