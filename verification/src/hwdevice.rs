//! Frame layout and report parsing for the ROCCAT Kain 2xx mouse.
//!
//! The HID transport lives outside the library; here stand the computable
//! parts of the device protocol: the layout of an LED feature report, the
//! status query, the acceptance rule for polled feature reports, and the
//! big-endian fields of a status report.

use vstd::prelude::*;

use crate::pixel::Pixel;

verus! {

/// Length of the Kain's feature reports, in bytes.
pub const KAIN_REPORT_LEN: usize = 22;

/// The LED feature report for the first two LEDs of the map: header
/// `08 09 33 00`, six colour bytes, the checksum over those six bytes at
/// offset 10, zero padding after.  The checksum is computed by the caller
/// over bytes 4 to 9.
pub open spec fn spec_kain_led_frame(p0: Pixel, p1: Pixel, crc: u8) -> Seq<u8> {
    seq![
        0x08u8,
        0x09u8,
        0x33u8,
        0x00u8,
        p0.r,
        p0.g,
        p0.b,
        p1.r,
        p1.g,
        p1.b,
        crc,
        0u8,
        0u8,
        0u8,
        0u8,
        0u8,
        0u8,
        0u8,
        0u8,
        0u8,
        0u8,
        0u8,
    ]
}

/// Builds the LED feature report from the first two pixels of the map.
pub fn kain_led_frame(led_map: &Vec<Pixel>, crc: u8) -> (buf: Vec<u8>)
    requires
        led_map@.len() >= 2,
    ensures
        buf@ == spec_kain_led_frame(led_map@[0], led_map@[1], crc),
{
    let p0 = led_map[0];
    let p1 = led_map[1];
    let mut buf: Vec<u8> = Vec::new();
    buf.push(0x08);
    buf.push(0x09);
    buf.push(0x33);
    buf.push(0x00);
    buf.push(p0.r);
    buf.push(p0.g);
    buf.push(p0.b);
    buf.push(p1.r);
    buf.push(p1.g);
    buf.push(p1.b);
    buf.push(crc);
    let ghost head = buf@;
    proof {
        assert(buf@.subrange(0, 11) =~= head);
    }
    let mut i: usize = 0;
    while i < 11
        invariant
            i <= 11,
            buf@.len() == 11 + i,
            buf@.subrange(0, 11) == head,
            head.len() == 11,
            forall|j: int| 11 <= j < buf@.len() ==> buf@[j] == 0u8,
        decreases 11 - i,
    {
        let ghost before = buf@;
        buf.push(0);
        proof {
            assert(buf@.subrange(0, 11) =~= before.subrange(0, 11));
        }
        i = i + 1;
    }
    proof {
        assert forall|j: int| 0 <= j < 11 implies buf@[j] == spec_kain_led_frame(
            led_map@[0],
            led_map@[1],
            crc,
        )[j] by {
            assert(buf@[j] == head[j]);
        }
        assert(buf@ =~= spec_kain_led_frame(led_map@[0], led_map@[1], crc));
    }
    buf
}

/// The feature report that asks the device for its status.
pub fn kain_status_query() -> (buf: Vec<u8>)
    ensures
        buf@.len() == KAIN_REPORT_LEN,
        buf@[0] == 0x08u8,
        buf@[1] == 0x03u8,
        buf@[2] == 0x53u8,
        buf@[4] == 0x58u8,
        forall|j: int| 5 <= j < buf@.len() ==> buf@[j] == 0u8,
        buf@[3] == 0u8,
    {
        let mut buf: Vec<u8> = Vec::new();
        buf.push(0x08);
        buf.push(0x03);
        buf.push(0x53);
        buf.push(0x00);
        buf.push(0x58);
        let mut i: usize = 0;
        while i < 17
            invariant
                i <= 17,
                buf@.len() == 5 + i,
                buf@[0] == 0x08u8,
                buf@[1] == 0x03u8,
                buf@[2] == 0x53u8,
                buf@[3] == 0u8,
                buf@[4] == 0x58u8,
                forall|j: int| 5 <= j < buf@.len() ==> buf@[j] == 0u8,
            decreases 17 - i,
        {
            buf.push(0);
            i = i + 1;
        }
        buf
    }

/// Whether a polled feature report is the answer, rather than a busy or
/// echo frame to be read past: report id `0x01` and the two in-progress
/// headers `07 14` and `07 04` are skipped.
pub fn kain_report_accepted(buf: &Vec<u8>) -> (accepted: bool)
    requires
        buf@.len() >= 2,
    ensures
        accepted == (buf@[0] != 0x01u8 && !(buf@[0] == 0x07u8 && (buf@[1] == 0x14u8 || buf@[1]
            == 0x04u8))),
{
    if buf[0] == 0x01 {
        false
    } else if buf[0] == 0x07 && (buf[1] == 0x14 || buf[1] == 0x04) {
        false
    } else {
        true
    }
}

/// The three two-LED maps of the device's test pattern, in the order they
/// are shown: red/blue, sky-blue/black, blue/red.
pub fn kain_test_pattern_frames() -> (frames: Vec<Vec<Pixel>>)
    ensures
        frames@.len() == 3,
        frames@[0]@ == seq![
            Pixel { r: 255, g: 0, b: 0, a: 255 },
            Pixel { r: 0, g: 0, b: 255, a: 255 },
        ],
        frames@[1]@ == seq![
            Pixel { r: 0x59, g: 0xa5, b: 0xff, a: 0xff },
            Pixel { r: 0, g: 0, b: 0, a: 255 },
        ],
        frames@[2]@ == seq![
            Pixel { r: 0, g: 0, b: 255, a: 255 },
            Pixel { r: 255, g: 0, b: 0, a: 255 },
        ],
{
    let mut first: Vec<Pixel> = Vec::new();
    first.push(Pixel { r: 255, g: 0, b: 0, a: 255 });
    first.push(Pixel { r: 0, g: 0, b: 255, a: 255 });
    let mut second: Vec<Pixel> = Vec::new();
    second.push(Pixel { r: 0x59, g: 0xa5, b: 0xff, a: 0xff });
    second.push(Pixel { r: 0, g: 0, b: 0, a: 255 });
    let mut third: Vec<Pixel> = Vec::new();
    third.push(Pixel { r: 0, g: 0, b: 255, a: 255 });
    third.push(Pixel { r: 255, g: 0, b: 0, a: 255 });
    let mut frames: Vec<Vec<Pixel>> = Vec::new();
    frames.push(first);
    frames.push(second);
    frames.push(third);
    proof {
        assert(frames@[0]@ =~= seq![
            Pixel { r: 255, g: 0, b: 0, a: 255 },
            Pixel { r: 0, g: 0, b: 255, a: 255 },
        ]);
        assert(frames@[1]@ =~= seq![
            Pixel { r: 0x59, g: 0xa5, b: 0xff, a: 0xff },
            Pixel { r: 0, g: 0, b: 0, a: 255 },
        ]);
        assert(frames@[2]@ =~= seq![
            Pixel { r: 0, g: 0, b: 255, a: 255 },
            Pixel { r: 255, g: 0, b: 0, a: 255 },
        ]);
    }
    frames
}

/// A big-endian 16-bit field of a report.
pub open spec fn spec_be_u16(hi: u8, lo: u8) -> u16 {
    (hi as u16 * 256 + lo as u16) as u16
}

/// The battery level and signal strength carried by a status report, as
/// big-endian fields at offsets 5 and 7.
pub fn parse_kain_status(buf: &Vec<u8>) -> (r: (u16, u16))
    requires
        buf@.len() >= 9,
    ensures
        r.0 == spec_be_u16(buf@[5], buf@[6]),
        r.1 == spec_be_u16(buf@[7], buf@[8]),
{
    let battery_level: u16 = (buf[5] as u16) * 256 + (buf[6] as u16);
    let snr: u16 = (buf[7] as u16) * 256 + (buf[8] as u16);
    (battery_level, snr)
}

} // verus!
