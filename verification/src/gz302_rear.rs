//! GZ302EA rear-window lighting on USB 0b05:18c6.
//!
//! Interface 0 carries ASUS Aura output reports that wake and power the rear
//! controller. Interface 1 is an eleven-lamp HID LampArray whose feature
//! reports control the visible RGB colour. The 1a30 keyboard is separate.

use vstd::prelude::*;

use crate::lighting::{brightness_level, Colour, LedBrightness};

verus! {

pub const AURA_REPORT_LEN: usize = 64;

pub const LAMP_COUNT: usize = 11;

pub const MULTI_REPORT_LEN: usize = 51;

/// A full-length Aura report: `payload` first, zeros after it.
pub open spec fn padded(payload: Seq<u8>) -> Seq<u8> {
    Seq::new(AURA_REPORT_LEN as nat, |i: int| if i < payload.len() { payload[i] } else { 0u8 })
}

/// Places `payload` at the start of an otherwise zeroed Aura report.
pub fn aura_report(payload: &[u8]) -> (report: [u8; AURA_REPORT_LEN])
    requires
        payload@.len() <= AURA_REPORT_LEN,
    ensures
        report@ == padded(payload@),
{
    let mut report = [0u8; AURA_REPORT_LEN];
    let mut i: usize = 0;
    while i < payload.len()
        invariant
            payload@.len() <= AURA_REPORT_LEN,
            i <= payload@.len(),
            report@.len() == AURA_REPORT_LEN,
            forall|j: int| 0 <= j < i ==> report@[j] == payload@[j],
            forall|j: int| i <= j < AURA_REPORT_LEN ==> report@[j] == 0,
        decreases payload@.len() - i,
    {
        report[i] = payload[i];
        i += 1;
    }
    assert(report@ =~= padded(payload@));
    report
}

/// The identity report body, the ASCII text "]ASUS Tech.Inc.".
pub open spec fn asus_identity() -> Seq<u8> {
    seq![0x5du8, 0x41, 0x53, 0x55, 0x53, 0x20, 0x54, 0x65, 0x63, 0x68, 0x2e, 0x49, 0x6e, 0x63, 0x2e]
}

/// The power report body: all zones off for `Off`, all on otherwise.
pub open spec fn power_payload(brightness: LedBrightness) -> Seq<u8> {
    if brightness == LedBrightness::Off {
        seq![0x5du8, 0xbd, 0x01, 0, 0, 0, 0, 0xff]
    } else {
        seq![0x5du8, 0xbd, 0x01, 0xff, 0x1f, 0xff, 0xff, 0xff]
    }
}

/// The body of report `k` of the wake sequence.
pub open spec fn wake_payload(brightness: LedBrightness, k: int) -> Seq<u8> {
    if k == 0 {
        seq![0x5du8, 0xb9]
    } else if k == 1 {
        asus_identity()
    } else if k == 2 {
        seq![0x5du8, 0x05, 0x20, 0x31, 0, 0x1a]
    } else if k == 3 {
        seq![0x5du8, 0xc0, 0x03, 0x01]
    } else if k == 4 {
        power_payload(brightness)
    } else {
        seq![0x5du8, 0xba, 0xc5, 0xc4, brightness_level(brightness)]
    }
}

/// The wake, identity, configuration, power and brightness sequence of the
/// rear controller. A zone effect report is left out of it on purpose: it
/// wakes the rear light but does not set the visible colour.
pub fn wake_reports(brightness: LedBrightness) -> (reports: [[u8; AURA_REPORT_LEN]; 6])
    ensures
        forall|k: int| 0 <= k < 6 ==> #[trigger] reports@[k]@ == padded(wake_payload(brightness, k)),
{
    let power = if brightness == LedBrightness::Off {
        aura_report(&[0x5du8, 0xbd, 0x01, 0, 0, 0, 0, 0xff])
    } else {
        aura_report(&[0x5du8, 0xbd, 0x01, 0xff, 0x1f, 0xff, 0xff, 0xff])
    };
    let wake = aura_report(&[0x5du8, 0xb9]);
    let identity = aura_report(
        &[0x5du8, 0x41, 0x53, 0x55, 0x53, 0x20, 0x54, 0x65, 0x63, 0x68, 0x2e, 0x49, 0x6e, 0x63, 0x2e],
    );
    let config = aura_report(&[0x5du8, 0x05, 0x20, 0x31, 0, 0x1a]);
    let enable = aura_report(&[0x5du8, 0xc0, 0x03, 0x01]);
    let level = aura_report(&[0x5du8, 0xba, 0xc5, 0xc4, brightness.level()]);
    let reports = [wake, identity, config, enable, power, level];
    assert forall|k: int| 0 <= k < 6 implies #[trigger] reports@[k]@ == padded(
        wake_payload(brightness, k),
    ) by {
        if k == 1 {
            assert(identity@ == padded(asus_identity()));
        }
    }
    reports
}

/// Standard HID LampArrayControl feature report, including report ID 6.
pub fn lamp_control(autonomous: bool) -> (report: [u8; 2])
    ensures
        report@ == seq![6u8, if autonomous { 1u8 } else { 0u8 }],
{
    let mode: u8 = if autonomous { 1 } else { 0 };
    let report = [6u8, mode];
    assert(report@ =~= seq![6u8, mode]);
    report
}

/// Byte `i` of a LampMultiUpdate report (report ID 4) that lists `count`
/// lamps from lamp `start` on, all in `colour` at intensity 1. Lamp IDs are
/// little-endian 16-bit values from byte 3 on, colours four bytes each from
/// byte 19 on; byte 2 is set when the report lists the last lamp.
pub open spec fn multi_update_byte(colour: Colour, start: int, count: int, i: int) -> u8 {
    if i == 0 {
        4
    } else if i == 1 {
        count as u8
    } else if i == 2 {
        if start + count == LAMP_COUNT {
            1
        } else {
            0
        }
    } else if 3 <= i < 3 + 2 * count {
        let lamp = start + (i - 3) / 2;
        if (i - 3) % 2 == 0 {
            (lamp % 256) as u8
        } else {
            (lamp / 256) as u8
        }
    } else if 19 <= i < 19 + 4 * count {
        let channel = (i - 19) % 4;
        if channel == 0 {
            colour.r
        } else if channel == 1 {
            colour.g
        } else if channel == 2 {
            colour.b
        } else {
            1
        }
    } else {
        0
    }
}

/// How many lamps the batch that starts at lamp `start` lists: at most eight.
pub open spec fn batch_count(start: int) -> int {
    if LAMP_COUNT - start < 8 {
        LAMP_COUNT - start
    } else {
        8
    }
}

/// The LampMultiUpdate report for the batch that starts at lamp `start`.
pub open spec fn multi_update_report(colour: Colour, start: int) -> Seq<u8> {
    Seq::new(
        MULTI_REPORT_LEN as nat,
        |i: int| multi_update_byte(colour, start, batch_count(start), i),
    )
}

/// The report of batch `batch` (0 or 1) of the static colour update.
pub open spec fn colour_batch(colour: Colour, batch: int) -> Seq<u8> {
    multi_update_report(colour, 8 * batch)
}

fn multi_update(colour: Colour, start: usize) -> (report: [u8; MULTI_REPORT_LEN])
    requires
        start < LAMP_COUNT,
    ensures
        report@ == multi_update_report(colour, start as int),
{
    let count: usize = if LAMP_COUNT - start < 8 {
        LAMP_COUNT - start
    } else {
        8
    };
    let mut report = [0u8; MULTI_REPORT_LEN];
    report[0] = 4;
    report[1] = count as u8;
    report[2] = if start + count == LAMP_COUNT {
        1
    } else {
        0
    };
    let mut slot: usize = 0;
    while slot < count
        invariant
            start < LAMP_COUNT,
            count == batch_count(start as int),
            slot <= count,
            report@.len() == MULTI_REPORT_LEN,
            report@[0] == 4,
            report@[1] == count as u8,
            report@[2] == (if start + count == LAMP_COUNT {
                1u8
            } else {
                0u8
            }),
            forall|s: int| 0 <= s < slot ==> #[trigger] report@[3 + 2 * s] == ((start + s) % 256) as u8,
            forall|s: int| 0 <= s < slot ==> #[trigger] report@[4 + 2 * s] == ((start + s) / 256) as u8,
            forall|s: int| 0 <= s < slot ==> #[trigger] report@[19 + 4 * s] == colour.r,
            forall|s: int| 0 <= s < slot ==> #[trigger] report@[20 + 4 * s] == colour.g,
            forall|s: int| 0 <= s < slot ==> #[trigger] report@[21 + 4 * s] == colour.b,
            forall|s: int| 0 <= s < slot ==> #[trigger] report@[22 + 4 * s] == 1,
            forall|j: int|
                (3 + 2 * slot <= j < 19 || 19 + 4 * slot <= j < MULTI_REPORT_LEN) ==> report@[j]
                    == 0,
        decreases count - slot,
    {
        let lamp_id: u16 = (start + slot) as u16;
        report[3 + slot * 2] = (lamp_id % 256) as u8;
        report[4 + slot * 2] = (lamp_id / 256) as u8;
        report[19 + slot * 4] = colour.r;
        report[20 + slot * 4] = colour.g;
        report[21 + slot * 4] = colour.b;
        report[22 + slot * 4] = 1;
        slot += 1;
    }
    assert forall|i: int| 0 <= i < MULTI_REPORT_LEN implies report@[i] == multi_update_byte(
        colour,
        start as int,
        count as int,
        i,
    ) by {
        if 3 <= i < 3 + 2 * count {
            let s = (i - 3) / 2;
            if (i - 3) % 2 == 0 {
                assert(i == 3 + 2 * s);
                assert(report@[3 + 2 * s] == ((start + s) % 256) as u8);
            } else {
                assert(i == 4 + 2 * s);
                assert(report@[4 + 2 * s] == ((start + s) / 256) as u8);
            }
        } else if 19 <= i < 19 + 4 * count {
            let s = (i - 19) / 4;
            let channel = (i - 19) % 4;
            assert(i == 19 + 4 * s + channel);
            if channel == 0 {
                assert(report@[19 + 4 * s] == colour.r);
            } else if channel == 1 {
                assert(report@[20 + 4 * s] == colour.g);
            } else if channel == 2 {
                assert(report@[21 + 4 * s] == colour.b);
            } else {
                assert(report@[22 + 4 * s] == 1);
            }
        }
    }
    assert(report@ =~= multi_update_report(colour, start as int));
    report
}

/// Standard HID LampMultiUpdate report 4 in two batches of eight and three.
/// The GZ302EA lamp attributes report 11 programmable lamps and one nonzero
/// intensity level, so every active lamp uses intensity 1.
pub fn static_colour_reports(colour: Colour) -> (reports: [[u8; MULTI_REPORT_LEN]; 2])
    ensures
        reports@[0]@ == colour_batch(colour, 0),
        reports@[1]@ == colour_batch(colour, 1),
{
    let first = multi_update(colour, 0);
    let second = multi_update(colour, 8);
    [first, second]
}

/// Only the brightness level changes the wake sequence, and only in the power
/// report (all zones off at `Off`, all on otherwise) and in the last byte of
/// the brightness report, which carries the level.
pub proof fn lemma_wake_depends_only_on_level(a: LedBrightness, b: LedBrightness, k: int)
    requires
        0 <= k < 6,
    ensures
        k != 4 && k != 5 ==> padded(wake_payload(a, k)) == padded(wake_payload(b, k)),
        padded(wake_payload(a, 5))[4] == brightness_level(a),
        padded(wake_payload(a, 5)).subrange(0, 4) == padded(wake_payload(b, 5)).subrange(0, 4),
        padded(wake_payload(a, 4))[3] == 0 <==> a == LedBrightness::Off,
        a != LedBrightness::Off && b != LedBrightness::Off ==> padded(wake_payload(a, 4)) == padded(
            wake_payload(b, 4),
        ),
{
    assert(padded(wake_payload(a, 5)).subrange(0, 4) =~= padded(wake_payload(b, 5)).subrange(0, 4));
}

/// Every lamp is listed: lamp `lamp` stands in batch `lamp / 8` at slot
/// `lamp % 8`, with its little-endian ID and with `colour` at intensity 1.
pub proof fn lemma_each_lamp_listed(colour: Colour, lamp: int)
    requires
        0 <= lamp < LAMP_COUNT,
    ensures
        ({
            let batch = lamp / 8;
            let slot = lamp % 8;
            let report = colour_batch(colour, batch);
            &&& 0 <= batch < 2
            &&& slot < report[1]
            &&& report[3 + 2 * slot] == lamp
            &&& report[4 + 2 * slot] == 0
            &&& report[19 + 4 * slot] == colour.r
            &&& report[20 + 4 * slot] == colour.g
            &&& report[21 + 4 * slot] == colour.b
            &&& report[22 + 4 * slot] == 1
        }),
{
    let batch = lamp / 8;
    let slot = lamp % 8;
    assert(lamp == 8 * batch + slot);
    assert(((3 + 2 * slot) - 3) / 2 == slot);
    assert(((4 + 2 * slot) - 3) / 2 == slot);
    assert(((4 + 2 * slot) - 3) % 2 == 1);
    assert(((19 + 4 * slot) - 19) % 4 == 0);
    assert(((20 + 4 * slot) - 19) % 4 == 1);
    assert(((21 + 4 * slot) - 19) % 4 == 2);
    assert(((22 + 4 * slot) - 19) % 4 == 3);
}

/// No lamp is listed twice: slot `slot` of batch `batch` names lamp
/// `8 * batch + slot`, which is a lamp of the array.
pub proof fn lemma_slots_name_distinct_lamps(colour: Colour, batch: int, slot: int)
    requires
        0 <= batch < 2,
        0 <= slot < colour_batch(colour, batch)[1],
    ensures
        colour_batch(colour, batch)[3 + 2 * slot] == 8 * batch + slot,
        colour_batch(colour, batch)[4 + 2 * slot] == 0,
        8 * batch + slot < LAMP_COUNT,
{
    assert(((3 + 2 * slot) - 3) / 2 == slot);
    assert(((4 + 2 * slot) - 3) / 2 == slot);
    assert(((4 + 2 * slot) - 3) % 2 == 1);
}

/// The update is two LampMultiUpdate reports of eight and three lamps, and
/// only the second one marks the update complete.
pub proof fn lemma_update_in_two_batches(colour: Colour)
    ensures
        colour_batch(colour, 0)[0] == 4,
        colour_batch(colour, 1)[0] == 4,
        colour_batch(colour, 0)[1] == 8,
        colour_batch(colour, 1)[1] == 3,
        colour_batch(colour, 0)[1] + colour_batch(colour, 1)[1] == LAMP_COUNT,
        colour_batch(colour, 0)[2] == 0,
        colour_batch(colour, 1)[2] == 1,
{
}

} // verus!
