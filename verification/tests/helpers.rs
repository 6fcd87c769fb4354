use akrond::fee_rate::{FeeFetchState, FeeRateOption, FeeRates};
use akrond::helpers::{
    format_amount, format_amount_number, height_to_future_est, height_to_past_est,
    is_amount_input, is_fee_rate_input, is_recipient_input, is_slabel_input, recipient_from_str,
    Amount,
};
use akrond::icons::Icon;
use akrond::text::{decimal_string, str_eq};

#[test]
fn label_input() {
    assert!(is_slabel_input(""));
    assert!(is_slabel_input("abc-123"));
    assert!(is_slabel_input("z0-9a"));
    assert!(!is_slabel_input("Abc"));
    assert!(!is_slabel_input("a b"));
    assert!(!is_slabel_input("a@b"));
    assert!(!is_slabel_input("a_b"));
    assert!(!is_slabel_input("ä"));
    assert!(!is_slabel_input("abc{"));
    assert!(!is_slabel_input("abc`"));
    assert!(!is_slabel_input("12/"));
    assert!(!is_slabel_input("12:"));
}

#[test]
fn recipient_input() {
    assert!(is_recipient_input(""));
    assert!(is_recipient_input("@alice"));
    assert!(is_recipient_input("bc1q-09az@"));
    assert!(!is_recipient_input("@Alice"));
    assert!(!is_recipient_input("a.b"));
    assert!(!is_recipient_input("a b"));
}

#[test]
fn recipient_is_the_text_unless_empty() {
    assert_eq!(recipient_from_str(""), None);
    assert_eq!(recipient_from_str("@alice"), Some("@alice".to_string()));
    assert_eq!(recipient_from_str(" "), Some(" ".to_string()));
}

#[test]
fn amount_and_fee_rate_input() {
    for check in [is_amount_input, is_fee_rate_input] {
        assert!(check(""));
        assert!(check("0123456789"));
        assert!(!check("1.5"));
        assert!(!check("-1"));
        assert!(!check("1e3"));
        assert!(!check(" 1"));
        assert!(!check("١"));
    }
}

#[test]
fn amounts_are_grouped_by_three() {
    assert_eq!(format_amount_number(0), "0 sat");
    assert_eq!(format_amount_number(7), "7 sat");
    assert_eq!(format_amount_number(999), "999 sat");
    assert_eq!(format_amount_number(1000), "1\u{2009}000 sat");
    assert_eq!(format_amount_number(1005), "1\u{2009}005 sat");
    assert_eq!(format_amount_number(12345), "12\u{2009}345 sat");
    assert_eq!(format_amount_number(123456), "123\u{2009}456 sat");
    assert_eq!(format_amount_number(1234567), "1\u{2009}234\u{2009}567 sat");
    assert_eq!(format_amount_number(100000000), "100\u{2009}000\u{2009}000 sat");
    assert_eq!(
        format_amount_number(u64::MAX),
        "18\u{2009}446\u{2009}744\u{2009}073\u{2009}709\u{2009}551\u{2009}615 sat"
    );
}

#[test]
fn amounts_are_written_in_satoshi() {
    assert_eq!(format_amount(Amount::from_sat(2100000)), "2\u{2009}100\u{2009}000 sat");
    assert_eq!(Amount::from_sat(5).to_sat(), 5);
}

#[test]
fn blocks_ahead() {
    assert_eq!(height_to_future_est(100, 100), "now");
    assert_eq!(height_to_future_est(99, 100), "now");
    assert_eq!(height_to_future_est(101, 100), "in 10 minutes");
    assert_eq!(height_to_future_est(105, 100), "in 50 minutes");
    assert_eq!(height_to_future_est(106, 100), "in 1 hours");
    assert_eq!(height_to_future_est(107, 100), "in 1 hours 10 minutes");
    assert_eq!(height_to_future_est(111, 100), "in 1 hours 50 minutes");
    assert_eq!(height_to_future_est(244, 100), "in 24 hours");
    assert_eq!(height_to_future_est(245, 100), "in 1 days");
    assert_eq!(height_to_future_est(249, 100), "in 1 days");
    assert_eq!(height_to_future_est(250, 100), "in 1 days 1 hours");
    assert_eq!(height_to_future_est(100 + 144 * 3 + 6 * 23 + 5, 100), "in 3 days 23 hours");
    assert_eq!(height_to_future_est(u32::MAX, 0), "in 29826161 days 18 hours");
}

#[test]
fn blocks_behind() {
    assert_eq!(height_to_past_est(100, 100), "just now");
    assert_eq!(height_to_past_est(101, 100), "just now");
    assert_eq!(height_to_past_est(99, 100), "10 minutes ago");
    assert_eq!(height_to_past_est(95, 100), "50 minutes ago");
    assert_eq!(height_to_past_est(94, 100), "1 hours ago");
    assert_eq!(height_to_past_est(92, 100), "1 hours ago");
    assert_eq!(height_to_past_est(91, 100), "2 hours ago");
    assert_eq!(height_to_past_est(1000 - 144, 1000), "24 hours ago");
    assert_eq!(height_to_past_est(1000 - 145, 1000), "1 days ago");
    assert_eq!(height_to_past_est(1000 - 215, 1000), "1 days ago");
    assert_eq!(height_to_past_est(1000 - 216, 1000), "2 days ago");
    assert_eq!(height_to_past_est(0, u32::MAX), "29826162 days ago");
}

#[test]
fn numerals() {
    assert_eq!(decimal_string(0), "0");
    assert_eq!(decimal_string(9), "9");
    assert_eq!(decimal_string(10), "10");
    assert_eq!(decimal_string(1002003), "1002003");
    assert_eq!(decimal_string(u64::MAX), "18446744073709551615");
}

#[test]
fn string_slices_compare_by_their_characters() {
    assert!(str_eq("", ""));
    assert!(str_eq("añb", "añb"));
    assert!(!str_eq("a", ""));
    assert!(!str_eq("", "a"));
    assert!(!str_eq("abc", "abd"));
    assert!(!str_eq("abc", "abcd"));
}

#[test]
fn fee_rate_options_have_labels() {
    assert_eq!(FeeRateOption::Fastest.label(), "Fast");
    assert_eq!(FeeRateOption::HalfHour.label(), "Normal");
    assert_eq!(FeeRateOption::Hour.label(), "Slow");
    assert_eq!(FeeRateOption::Custom.label(), "Custom");
    assert_eq!(FeeRateOption::Fastest.description(), "~10 - 20 minutes");
    assert_eq!(FeeRateOption::HalfHour.description(), "~20 - 60 minutes");
    assert_eq!(FeeRateOption::Hour.description(), "~1 - 2 hours");
    assert_eq!(FeeRateOption::Custom.description(), "Custom");
}

#[test]
fn fee_rate_options_pick_their_rate() {
    let rates = FeeRates { fastest_fee: 30, half_hour_fee: 20, hour_fee: 10 };
    assert_eq!(FeeRateOption::Fastest.fee_rate(&rates), 30);
    assert_eq!(FeeRateOption::HalfHour.fee_rate(&rates), 20);
    assert_eq!(FeeRateOption::Hour.fee_rate(&rates), 10);
    assert_eq!(FeeRateOption::Custom.fee_rate(&rates), 0);
}

#[test]
fn fee_rate_options_show_their_value() {
    let rates = FeeRates { fastest_fee: 30, half_hour_fee: 20, hour_fee: 0 };
    assert_eq!(
        FeeRateOption::Fastest.display_value(Some(&rates), &FeeFetchState::Idle),
        "30 sat/vB"
    );
    assert_eq!(FeeRateOption::Hour.display_value(Some(&rates), &FeeFetchState::Idle), "0 sat/vB");
    assert_eq!(FeeRateOption::Fastest.display_value(None, &FeeFetchState::Idle), "--");
    assert_eq!(FeeRateOption::HalfHour.display_value(Some(&rates), &FeeFetchState::Fetching), "--");
    assert_eq!(FeeRateOption::HalfHour.display_value(Some(&rates), &FeeFetchState::Failed), "--");
    assert_eq!(FeeRateOption::Custom.display_value(Some(&rates), &FeeFetchState::Idle), "Custom");
    assert_eq!(FeeRateOption::Custom.display_value(None, &FeeFetchState::Failed), "Custom");
}

#[test]
fn fee_rate_options_in_order() {
    assert_eq!(
        FeeRateOption::all(),
        vec![
            FeeRateOption::Fastest,
            FeeRateOption::HalfHour,
            FeeRateOption::Hour,
            FeeRateOption::Custom
        ]
    );
}

#[test]
fn icons_fill_the_private_use_area() {
    let icons = [
        Icon::Settings,
        Icon::WalletMinimal,
        Icon::RotateCcwKey,
        Icon::Copy,
        Icon::CircleDot,
        Icon::ArrowBigUpDash,
        Icon::ChevronDown,
        Icon::ChevronRight,
        Icon::FolderDown,
        Icon::ArrowBigDownDash,
        Icon::ArrowsUpFromLine,
        Icon::Store,
        Icon::ChevronLeft,
        Icon::UserRoundPen,
        Icon::Bitcoin,
        Icon::Circle,
        Icon::Bolt,
        Icon::AtSign,
    ];
    for (i, icon) in icons.iter().enumerate() {
        assert_eq!(icon.as_char() as u32, 0xE000 + i as u32);
    }
    assert_eq!(Icon::Settings.as_char(), '\u{E000}');
    assert_eq!(Icon::AtSign.as_char(), '\u{E011}');
}
