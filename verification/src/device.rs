//! Device numbers of i2c bus adapters.

use crate::text;
use vstd::prelude::*;
use vstd::string::*;

verus! {

/// The character-device major number of i2c-dev.
pub const I2C_MAJOR: u64 = 89;

/// The major number packed into a Linux device number.
pub open spec fn major_of(dev: u64) -> u64 {
    ((dev >> 8) & 0xfff) | ((dev >> 32) & !0xfffu64)
}

/// The minor number packed into a Linux device number.
pub open spec fn minor_of(dev: u64) -> u64 {
    (dev & 0xff) | ((dev >> 12) & !0xffu64)
}

/// The Linux device number with the given major and minor number.
pub open spec fn make_dev(major: u32, minor: u32) -> u64 {
    ((major as u64 & 0xffff_f000) << 32) | ((major as u64 & 0xfff) << 8) | ((minor as u64
        & 0xffff_ff00) << 12) | (minor as u64 & 0xff)
}

/// The path of the i2c device node whose device number `rdev` is, in decimal.
pub open spec fn i2c_path(rdev: Seq<char>) -> Option<Seq<char>> {
    match text::parsed_u64(rdev) {
        Some(dev) => if major_of(dev) == I2C_MAJOR {
            Some("/dev/i2c-"@ + text::decimal(minor_of(dev) as nat))
        } else {
            None
        },
        None => None,
    }
}

/// A Linux display is identified by the decimal device number of its device node. Turns that
/// back into `/dev/i2c-N`; `None` if it is no number or not the number of an i2c device.
pub fn i2c_device_path(rdev: &str) -> (path: Option<String>)
    ensures
        text::opt_view(path) == i2c_path(rdev@),
{
    match text::parse_u64(rdev) {
        None => None,
        Some(dev) => {
            let major: u64 = ((dev >> 8) & 0xfff) | ((dev >> 32) & !0xfffu64);
            let minor: u64 = (dev & 0xff) | ((dev >> 12) & !0xffu64);
            if major == I2C_MAJOR {
                let mut path = "/dev/i2c-".to_string();
                text::push_decimal(&mut path, minor);
                Some(path)
            } else {
                None
            }
        },
    }
}

/// Packing a major and a minor number keeps the major number, and the minor number too where
/// the major number has no more than twelve bits.
pub proof fn law_device_number_keeps_parts(major: u32, minor: u32)
    ensures
        major_of(make_dev(major, minor)) == major,
        major < 0x1000 ==> minor_of(make_dev(major, minor)) == minor,
{
    let a = major as u64;
    let i = minor as u64;
    assert({
        let dev = ((a & 0xffff_f000) << 32) | ((a & 0xfff) << 8) | ((i & 0xffff_ff00) << 12) | (i
            & 0xff);
        &&& ((dev >> 8) & 0xfff) | ((dev >> 32) & !0xfffu64) == a
        &&& a < 0x1000 ==> (dev & 0xff) | ((dev >> 12) & !0xffu64) == i
    }) by (bit_vector)
        requires
            a <= 0xffff_ffff,
            i <= 0xffff_ffff,
    ;
}

/// The path found for the device number of an i2c adapter is that of its device node, for
/// every minor number.
pub proof fn law_path_of_i2c_adapter(minor: u32)
    ensures
        i2c_path(text::decimal(make_dev(89, minor) as nat)) == Some(
            "/dev/i2c-"@ + text::decimal(minor as nat),
        ),
{
    text::law_decimal_reads_back(make_dev(89, minor));
    law_device_number_keeps_parts(89, minor);
}

/// A path is found only for the device number of an i2c adapter, and it names its minor number.
pub proof fn law_path_only_of_i2c_adapter(rdev: Seq<char>)
    requires
        i2c_path(rdev) is Some,
    ensures
        exists|minor: u32| #[trigger]
            make_dev(89, minor) == text::parsed_u64(rdev)->0 && i2c_path(rdev) == Some(
                "/dev/i2c-"@ + text::decimal(minor as nat),
            ),
{
    let dev = text::parsed_u64(rdev)->0;
    assert({
        let m = (dev & 0xff) | ((dev >> 12) & !0xffu64);
        &&& m <= 0xffff_ffff
        &&& dev == ((89u64 & 0xffff_f000) << 32) | ((89u64 & 0xfff) << 8) | ((m & 0xffff_ff00)
            << 12) | (m & 0xff)
    }) by (bit_vector)
        requires
            ((dev >> 8) & 0xfff) | ((dev >> 32) & !0xfffu64) == 89u64,
    ;
    let minor = minor_of(dev) as u32;
    assert(minor as u64 == minor_of(dev));
    assert(make_dev(89, minor) == dev);
}

/// The device number of an i2c adapter is 89 times 256, and the minor number with its low byte at
/// the very end and the rest above the lowest twenty bits. Its path names the minor number. No
/// other number has a path, and no text that is not a number.
pub proof fn law_path_by_arithmetic(rdev: Seq<char>, minor: u32)
    ensures
        text::parsed_u64(rdev) == Some(
            ((minor / 256) * 0x10_0000 + 89 * 256 + minor % 256) as u64,
        ) ==> i2c_path(rdev) == Some("/dev/i2c-"@ + text::decimal(minor as nat)),
        i2c_path(rdev) is Some ==> exists|m: u32|
            text::parsed_u64(rdev) == Some(
                ((#[trigger] (m / 256)) * 0x10_0000 + 89 * 256 + m % 256) as u64,
            ),
        text::parsed_u64(rdev) is None ==> i2c_path(rdev) is None,
{
    lemma_i2c_number(minor);
    law_device_number_keeps_parts(89, minor);
    if i2c_path(rdev) is Some {
        law_path_only_of_i2c_adapter(rdev);
        let m = choose|m: u32| #[trigger] make_dev(89, m) == text::parsed_u64(rdev)->0;
        lemma_i2c_number(m);
        assert(text::parsed_u64(rdev) == Some(
            ((m / 256) * 0x10_0000 + 89 * 256 + m % 256) as u64,
        ));
    }
}

proof fn lemma_i2c_number(minor: u32)
    ensures
        make_dev(89, minor) == (minor / 256) * 0x10_0000 + 89 * 256 + minor % 256,
{
    let i = minor as u64;
    assert(((89u64 & 0xffff_f000) << 32) | ((89u64 & 0xfff) << 8) | ((i & 0xffff_ff00) << 12) | (i
        & 0xff) == (i / 256) * 0x10_0000 + 89 * 256 + i % 256) by (bit_vector)
        requires
            i <= 0xffff_ffff,
    ;
}

} // verus!
