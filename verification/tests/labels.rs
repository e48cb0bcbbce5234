use ddpm::device::i2c_device_path;
use ddpm::inputs::{input_label, INPUT_SOURCES};
use ddpm::text::{parse_u64, push_decimal, push_hex_byte, push_hex_word};
use ddpm::vcp::{feature_name, format_value, VCP_BRIGHTNESS, VCP_CONTRAST, VCP_INPUT_SOURCE};

#[test]
fn input_labels() {
    assert_eq!(input_label(0x11), "HDMI-1");
    assert_eq!(input_label(0x19), "USB-C-1");
    assert_eq!(input_label(0x1C), "Unknown (0x1C)");
}

#[test]
fn every_table_entry_is_labelled_by_its_name() {
    for (code, label) in INPUT_SOURCES {
        assert_eq!(input_label(code), label);
    }
    assert_eq!(input_label(0x00), "Unknown (0x00)");
    assert_eq!(input_label(0xAF), "Unknown (0xAF)");
    assert_eq!(input_label(0xFF), "Unknown (0xFF)");
}

#[test]
fn no_two_inputs_share_a_label() {
    let labels: Vec<String> = (0..=255u8).map(input_label).collect();
    for (i, label) in labels.iter().enumerate() {
        assert!(!labels[..i].contains(label), "{label}");
    }
}

#[test]
fn i2c_path_from_rdev() {
    // major 89, minor 5
    assert_eq!(i2c_device_path("22789").as_deref(), Some("/dev/i2c-5"));
    // major 1 (mem) is not an i2c device
    assert_eq!(i2c_device_path("259"), None);
    assert_eq!(i2c_device_path("not a number"), None);
}

#[test]
fn i2c_path_of_large_minor_numbers() {
    // The minor number is split: its low eight bits stand below the major number.
    assert_eq!(i2c_device_path("22784").as_deref(), Some("/dev/i2c-0"));
    let dev: u64 = (89 << 8) | (1 << 20) | 7;
    assert_eq!(i2c_device_path(&format!("{dev}")).as_deref(), Some("/dev/i2c-263"));
    let dev: u64 = (89 << 8) | (0xffff_ff00 << 12) | 0xff;
    assert_eq!(i2c_device_path(&format!("{dev}")).as_deref(), Some("/dev/i2c-4294967295"));
    // A major number above twelve bits that ends in 89.
    let dev: u64 = (89 << 8) | (1 << 44);
    assert_eq!(i2c_device_path(&format!("{dev}")), None);
}

#[test]
fn numbers_are_read_like_std_reads_them() {
    let texts = [
        "", "+", "-", "0", "+0", "-0", "00", "007", "42", "+42", "-42", "++1", "1+", " 1", "1 ", "1_0",
        "18446744073709551615", "+18446744073709551615", "018446744073709551615",
        "18446744073709551616", "18446744073709551620", "99999999999999999999", "12a", "0x10",
        "\u{0661}",
    ];
    for text in texts {
        assert_eq!(parse_u64(text), text.parse::<u64>().ok(), "{text:?}");
    }
}

#[test]
fn numbers_are_written_like_std_writes_them() {
    for n in [0u64, 7, 9, 10, 19, 100, 65535, 1_000_000_007, u64::MAX] {
        let mut out = String::from("n=");
        push_decimal(&mut out, n);
        assert_eq!(out, format!("n={n}"));
        assert_eq!(parse_u64(&out[2..]), Some(n));
    }
    for n in 0..=255u8 {
        let mut out = String::new();
        push_hex_byte(&mut out, n);
        assert_eq!(out, format!("{n:02X}"));
    }
    for n in [0u16, 1, 0xf, 0x10, 0x0abc, 0x1234, 0xffff] {
        let mut out = String::from("0x");
        push_hex_word(&mut out, n);
        assert_eq!(out, format!("{n:#06x}"));
    }
}

#[test]
fn value_formatting() {
    assert_eq!(format_value(&format!("{:.0}", 42.0), 100), "42%");
    assert_eq!(format_value(&format!("{:.0}", 128.0), 255), "128 / 255");
}

#[test]
fn feature_names() {
    assert_eq!(feature_name(VCP_BRIGHTNESS), "brightness");
    assert_eq!(feature_name(VCP_CONTRAST), "contrast");
    assert_eq!(feature_name(VCP_INPUT_SOURCE), "input");
    assert_eq!(feature_name(0xD6), "feature");
}
