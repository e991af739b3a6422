use ytdl_gui::models::ProgressSample;
use ytdl_gui::text::{check_blank, i32_decimal, split_ws, str_eq, str_starts_with, u32_decimal};

fn sample(percent_hundredths: u32, speed: &str, eta: &str) -> ProgressSample {
    ProgressSample {
        percent_hundredths,
        speed: speed.to_string(),
        eta: eta.to_string(),
    }
}

#[test]
fn blankness() {
    assert!(check_blank(""));
    assert!(check_blank("   "));
    assert!(check_blank(" \t\r\n"));
    assert!(!check_blank(" a "));
    assert!(!check_blank("url"));
}

#[test]
fn string_equality() {
    assert!(str_eq("at", "at"));
    assert!(!str_eq("at", "At"));
    assert!(!str_eq("at", "ata"));
    assert!(str_eq("", ""));
}

#[test]
fn prefix_test() {
    assert!(str_starts_with("es-ES", "es"));
    assert!(str_starts_with("es-ES", ""));
    assert!(!str_starts_with("es", "es-ES"));
    assert!(!str_starts_with("en-US", "es"));
}

#[test]
fn whitespace_splitting() {
    assert_eq!(split_ws("  a  bb\tccc "), vec!["a", "bb", "ccc"]);
    assert!(split_ws("   ").is_empty());
    assert!(split_ws("").is_empty());
    assert_eq!(split_ws("one"), vec!["one"]);
}

#[test]
fn unsigned_decimal_rendering() {
    assert_eq!(u32_decimal(0), "0");
    assert_eq!(u32_decimal(7), "7");
    assert_eq!(u32_decimal(10), "10");
    assert_eq!(u32_decimal(255), "255");
    assert_eq!(u32_decimal(u32::MAX), "4294967295");
}

#[test]
fn signed_decimal_rendering() {
    assert_eq!(i32_decimal(0), "0");
    assert_eq!(i32_decimal(42), "42");
    assert_eq!(i32_decimal(-1), "-1");
    assert_eq!(i32_decimal(i32::MIN), "-2147483648");
}

#[test]
fn percent_text_truncates_to_one_decimal() {
    assert_eq!(sample(4520, "", "").percent_text(), "45.2");
    assert_eq!(sample(4525, "", "").percent_text(), "45.2");
    assert_eq!(sample(10000, "", "").percent_text(), "100.0");
    assert_eq!(sample(5, "", "").percent_text(), "0.0");
}

#[test]
fn sample_description_lists_what_the_line_carried() {
    assert_eq!(
        sample(4520, "1.20MiB/s", "00:12").describe(),
        "45.2% - 1.20MiB/s - ETA: 00:12"
    );
    assert_eq!(sample(4520, "1.20MiB/s", "").describe(), "45.2% - 1.20MiB/s");
    assert_eq!(sample(4520, "", "00:12").describe(), "45.2%");
    assert_eq!(sample(10000, "", "").describe(), "100.0%");
}
