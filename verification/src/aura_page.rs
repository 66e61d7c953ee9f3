//! The decisions of the Aura settings page: device names and order, the
//! modes and power zones it offers, and which rear light to keep in step.

use vstd::prelude::*;

use crate::device::{power_zone_value, AuraDeviceType, PowerZones};
use crate::lighting::LedBrightness;

verus! {

/// The name the page shows for an Aura device.
#[derive(Clone, Copy, Debug, PartialEq, Eq, Hash, Structural)]
pub enum DeviceLabel {
    RearWindow,
    Keyboard,
    AuraDevice,
}

pub open spec fn label_for(t: AuraDeviceType) -> DeviceLabel {
    match t {
        AuraDeviceType::RearGlow => DeviceLabel::RearWindow,
        AuraDeviceType::LaptopKeyboard2021
        | AuraDeviceType::LaptopKeyboardPre2021
        | AuraDeviceType::LaptopKeyboardTuf => DeviceLabel::Keyboard,
        _ => DeviceLabel::AuraDevice,
    }
}

pub open spec fn label_text(l: DeviceLabel) -> Seq<char> {
    match l {
        DeviceLabel::RearWindow => "Rear window"@,
        DeviceLabel::Keyboard => "Keyboard"@,
        DeviceLabel::AuraDevice => "Aura device"@,
    }
}

/// The name shown for a device of type `t`: the rear window, a keyboard of
/// any laptop generation, or any other Aura device.
pub fn device_label(t: AuraDeviceType) -> (l: DeviceLabel)
    ensures
        l == label_for(t),
        l == DeviceLabel::Keyboard <==> (t == AuraDeviceType::LaptopKeyboard2021 || t
            == AuraDeviceType::LaptopKeyboardPre2021 || t == AuraDeviceType::LaptopKeyboardTuf),
        l == DeviceLabel::RearWindow <==> t == AuraDeviceType::RearGlow,
{
    proof {
        lemma_device_labels(t);
    }
    match t {
        AuraDeviceType::RearGlow => DeviceLabel::RearWindow,
        AuraDeviceType::LaptopKeyboard2021
        | AuraDeviceType::LaptopKeyboardPre2021
        | AuraDeviceType::LaptopKeyboardTuf => DeviceLabel::Keyboard,
        _ => DeviceLabel::AuraDevice,
    }
}

impl DeviceLabel {
    /// The text of the name.
    pub fn text(&self) -> (s: &'static str)
        ensures
            s@ == label_text(*self),
    {
        match self {
            DeviceLabel::RearWindow => "Rear window",
            DeviceLabel::Keyboard => "Keyboard",
            DeviceLabel::AuraDevice => "Aura device",
        }
    }
}

/// The indices below `n` whose label is (for `keyboards`) or is not a
/// keyboard, in increasing order.
pub open spec fn indices_where(labels: Seq<DeviceLabel>, keyboards: bool, n: nat) -> Seq<usize>
    decreases n,
{
    if n == 0 {
        seq![]
    } else {
        let prev = indices_where(labels, keyboards, (n - 1) as nat);
        if (labels[n - 1] == DeviceLabel::Keyboard) == keyboards {
            prev.push((n - 1) as usize)
        } else {
            prev
        }
    }
}

/// The page's device order: keyboards first, then the rest, each group in
/// its given order.
pub open spec fn keyboard_first_order(labels: Seq<DeviceLabel>) -> Seq<usize> {
    indices_where(labels, true, labels.len()) + indices_where(labels, false, labels.len())
}

fn collect_indices(labels: &Vec<DeviceLabel>, keyboards: bool, out: &mut Vec<usize>)
    ensures
        final(out)@ == old(out)@ + indices_where(labels@, keyboards, labels@.len()),
{
    let ghost start = out@;
    let mut i: usize = 0;
    while i < labels.len()
        invariant
            i <= labels@.len(),
            out@ == start + indices_where(labels@, keyboards, i as nat),
        decreases labels@.len() - i,
    {
        let is_keyboard = labels[i] == DeviceLabel::Keyboard;
        if is_keyboard == keyboards {
            out.push(i);
        }
        proof {
            assert(indices_where(labels@, keyboards, (i + 1) as nat) == if (labels@[i as int]
                == DeviceLabel::Keyboard) == keyboards {
                indices_where(labels@, keyboards, i as nat).push(i)
            } else {
                indices_where(labels@, keyboards, i as nat)
            });
        }
        i += 1;
    }
}

/// The order in which the page lists devices with these labels: keyboards
/// first, each group keeping the order it was found in.
pub fn keyboard_first(labels: &Vec<DeviceLabel>) -> (order: Vec<usize>)
    ensures
        order@ == keyboard_first_order(labels@),
{
    let mut order: Vec<usize> = Vec::new();
    collect_indices(labels, true, &mut order);
    collect_indices(labels, false, &mut order);
    order
}

proof fn lemma_indices_where(labels: Seq<DeviceLabel>, keyboards: bool, n: nat)
    requires
        n <= labels.len(),
        labels.len() <= usize::MAX,
    ensures
        ({
            let iw = indices_where(labels, keyboards, n);
            &&& forall|k: int|
                0 <= k < iw.len() ==> #[trigger] iw[k] < n && (labels[iw[k] as int]
                    == DeviceLabel::Keyboard) == keyboards
            &&& forall|j: int, k: int| 0 <= j < k < iw.len() ==> iw[j] < iw[k]
            &&& forall|i: int|
                0 <= i < n && (labels[i] == DeviceLabel::Keyboard) == keyboards ==> iw.contains(
                    i as usize,
                )
        }),
        indices_where(labels, true, n).len() + indices_where(labels, false, n).len() == n,
    decreases n,
{
    if n > 0 {
        lemma_indices_where(labels, keyboards, (n - 1) as nat);
        let prev = indices_where(labels, keyboards, (n - 1) as nat);
        let iw = indices_where(labels, keyboards, n);
        assert(((n - 1) as usize) as int == n - 1);
        if (labels[n - 1] == DeviceLabel::Keyboard) == keyboards {
            assert(iw == prev.push((n - 1) as usize));
        } else {
            assert(iw == prev);
        }
        assert forall|k: int| 0 <= k < iw.len() implies #[trigger] iw[k] < n && (labels[iw[k] as int]
            == DeviceLabel::Keyboard) == keyboards by {
            if k < prev.len() {
                assert(iw[k] == prev[k]);
            }
        }
        assert forall|j: int, k: int| 0 <= j < k < iw.len() implies iw[j] < iw[k] by {
            if k < prev.len() {
                assert(iw[k] == prev[k]);
            } else {
                assert(prev[j] < n - 1);
            }
        }
        assert forall|i: int|
            0 <= i < n && (labels[i] == DeviceLabel::Keyboard) == keyboards implies iw.contains(
            i as usize,
        ) by {
            if i < n - 1 {
                let k = choose|k: int| 0 <= k < prev.len() && prev[k] == i as usize;
                assert(iw[k] == i as usize);
            } else {
                assert(iw[iw.len() - 1] == i as usize);
            }
        }
    }
}

/// The page lists every device exactly once, keyboards before all others.
pub proof fn lemma_order_lists_each_device_once(labels: Seq<DeviceLabel>)
    requires
        labels.len() <= usize::MAX,
    ensures
        ({
            let order = keyboard_first_order(labels);
            &&& order.len() == labels.len()
            &&& forall|k: int| 0 <= k < order.len() ==> #[trigger] order[k] < labels.len()
            &&& forall|i: usize| i < labels.len() ==> #[trigger] order.contains(i)
            &&& forall|j: int, k: int| 0 <= j < k < order.len() ==> order[j] != order[k]
            &&& forall|j: int, k: int|
                0 <= j < k < order.len() && labels[order[k] as int] == DeviceLabel::Keyboard
                    ==> labels[order[j] as int] == DeviceLabel::Keyboard
        }),
{
    let n = labels.len();
    lemma_indices_where(labels, true, n);
    lemma_indices_where(labels, false, n);
    let a = indices_where(labels, true, n);
    let b = indices_where(labels, false, n);
    let order = a + b;
    assert forall|i: usize| i < labels.len() implies #[trigger] order.contains(i) by {
        if labels[i as int] == DeviceLabel::Keyboard {
            assert(a.contains(i));
            let k = choose|k: int| 0 <= k < a.len() && a[k] == i;
            assert(order[k] == i);
        } else {
            assert(b.contains(i));
            let k = choose|k: int| 0 <= k < b.len() && b[k] == i;
            assert(order[a.len() + k] == i);
        }
    }
    assert forall|j: int, k: int| 0 <= j < k < order.len() implies order[j] != order[k] by {
        if k < a.len() {
            assert(a[j] < a[k]);
        } else if j >= a.len() {
            assert(b[j - a.len()] < b[k - a.len()]);
        } else {
            assert(labels[a[j] as int] == DeviceLabel::Keyboard);
            assert(labels[b[k - a.len()] as int] != DeviceLabel::Keyboard);
        }
    }
    assert forall|j: int, k: int|
        0 <= j < k < order.len() && labels[order[k] as int] == DeviceLabel::Keyboard implies labels[order[j] as int]
        == DeviceLabel::Keyboard by {
        if k >= a.len() {
            assert(labels[b[k - a.len()] as int] != DeviceLabel::Keyboard);
        } else {
            assert(order[j] == a[j]);
            assert(labels[a[j] as int] == DeviceLabel::Keyboard);
        }
    }
    assert forall|k: int| 0 <= k < order.len() implies #[trigger] order[k] < labels.len() by {
        if k < a.len() {
            assert(a[k] < n);
        } else {
            assert(b[k - a.len()] < n);
        }
    }
    assert(order.len() == labels.len());
}

/// The first device named as the rear window, if any.
pub fn rear_window_index(labels: &Vec<DeviceLabel>) -> (r: Option<usize>)
    ensures
        match r {
            Some(i) => i < labels@.len() && labels@[i as int] == DeviceLabel::RearWindow && forall|
                j: int,
            | 0 <= j < i ==> labels@[j] != DeviceLabel::RearWindow,
            None => forall|j: int| 0 <= j < labels@.len() ==> labels@[j] != DeviceLabel::RearWindow,
        },
{
    let mut i: usize = 0;
    while i < labels.len()
        invariant
            i <= labels@.len(),
            forall|j: int| 0 <= j < i ==> labels@[j] != DeviceLabel::RearWindow,
        decreases labels@.len() - i,
    {
        if labels[i] == DeviceLabel::RearWindow {
            return Some(i);
        }
        i += 1;
    }
    None
}

/// The rear light to bring back in step after device `index` changes
/// brightness: the rear window `rear`, when the device is a keyboard.
pub fn rear_to_reassert(labels: &Vec<DeviceLabel>, index: usize, rear: Option<usize>) -> (r:
    Option<usize>)
    requires
        index < labels@.len(),
    ensures
        r == (if labels@[index as int] == DeviceLabel::Keyboard {
            rear
        } else {
            None
        }),
{
    if labels[index] == DeviceLabel::Keyboard {
        rear
    } else {
        None
    }
}

/// The mode that the page never offers, whatever the device supports.
pub const HIDDEN_MODE: usize = 9;

/// The positions among the first `n` mode names that the page offers: those
/// whose number the device supports, except the hidden mode.
pub open spec fn offered_modes(n: nat, supported: Seq<i32>) -> Seq<usize>
    decreases n,
{
    if n == 0 {
        seq![]
    } else {
        let prev = offered_modes((n - 1) as nat, supported);
        let i = (n - 1) as usize;
        if supported.contains(i as i32) && i != HIDDEN_MODE {
            prev.push(i)
        } else {
            prev
        }
    }
}

fn contains_mode(modes: &Vec<i32>, raw: i32) -> (r: bool)
    ensures
        r == modes@.contains(raw),
{
    let mut j: usize = 0;
    while j < modes.len()
        invariant
            j <= modes@.len(),
            forall|k: int| 0 <= k < j ==> modes@[k] != raw,
        decreases modes@.len() - j,
    {
        if modes[j] == raw {
            assert(modes@[j as int] == raw);
            return true;
        }
        j += 1;
    }
    false
}

/// Which of the page's `name_count` mode names to offer for a device that
/// supports the modes numbered in `supported`; a name's position is its
/// mode number.
pub fn offered_mode_indices(name_count: usize, supported: &Vec<i32>) -> (shown: Vec<usize>)
    ensures
        shown@ == offered_modes(name_count as nat, supported@),
{
    let mut shown: Vec<usize> = Vec::new();
    let mut i: usize = 0;
    while i < name_count
        invariant
            i <= name_count,
            shown@ == offered_modes(i as nat, supported@),
        decreases name_count - i,
    {
        #[verifier::truncate]
        let raw = i as i32;
        if contains_mode(supported, raw) && i != HIDDEN_MODE {
            shown.push(i);
        }
        i += 1;
    }
    shown
}

/// Where mode `raw` stands among the offered modes `raws`: its first
/// position, or 0 when it is not offered.
pub fn mode_position(raws: &Vec<i32>, raw: i32) -> (pos: usize)
    ensures
        raws@.contains(raw) ==> pos < raws@.len() && raws@[pos as int] == raw && forall|j: int|
            0 <= j < pos ==> raws@[j] != raw,
        !raws@.contains(raw) ==> pos == 0,
{
    let mut j: usize = 0;
    while j < raws.len()
        invariant
            j <= raws@.len(),
            forall|k: int| 0 <= k < j ==> raws@[k] != raw,
        decreases raws@.len() - j,
    {
        if raws[j] == raw {
            return j;
        }
        j += 1;
    }
    0
}

/// `zones` without the "no zone" entries, in their order.
pub open spec fn real_zones(zones: Seq<PowerZones>) -> Seq<PowerZones>
    decreases zones.len(),
{
    if zones.len() == 0 {
        seq![]
    } else {
        let prev = real_zones(zones.drop_last());
        if zones.last() != PowerZones::NoZone {
            prev.push(zones.last())
        } else {
            prev
        }
    }
}

/// The power zones the page shows for a device: all it reports but the
/// "no zone" entry.
pub fn visible_power_zones(zones: &Vec<PowerZones>) -> (shown: Vec<PowerZones>)
    ensures
        shown@ == real_zones(zones@),
        shown@ == zones@.filter(zone_entry()),
{
    proof {
        lemma_real_zones_keep_order(zones@);
    }
    let mut shown: Vec<PowerZones> = Vec::new();
    let mut i: usize = 0;
    while i < zones.len()
        invariant
            i <= zones@.len(),
            shown@ == real_zones(zones@.subrange(0, i as int)),
        decreases zones@.len() - i,
    {
        let z = zones[i];
        assert(zones@.subrange(0, i + 1).drop_last() =~= zones@.subrange(0, i as int));
        if z != PowerZones::NoZone {
            shown.push(z);
        }
        i += 1;
    }
    assert(zones@.subrange(0, zones@.len() as int) =~= zones@);
    shown
}

/// The page offers exactly the supported modes among its names, in order,
/// and never the hidden mode.
pub proof fn lemma_offered_modes(n: nat, supported: Seq<i32>)
    requires
        n <= usize::MAX,
    ensures
        ({
            let shown = offered_modes(n, supported);
            &&& forall|k: int|
                0 <= k < shown.len() ==> #[trigger] shown[k] < n && shown[k] != HIDDEN_MODE
                    && supported.contains(shown[k] as i32)
            &&& forall|j: int, k: int| 0 <= j < k < shown.len() ==> shown[j] < shown[k]
            &&& forall|i: usize|
                i < n && i != HIDDEN_MODE && supported.contains(i as i32) ==> #[trigger] shown.contains(i)
        }),
    decreases n,
{
    if n > 0 {
        lemma_offered_modes((n - 1) as nat, supported);
        let prev = offered_modes((n - 1) as nat, supported);
        let shown = offered_modes(n, supported);
        let last = (n - 1) as usize;
        assert(last as int == n - 1);
        assert forall|k: int| 0 <= k < shown.len() implies #[trigger] shown[k] < n && shown[k]
            != HIDDEN_MODE && supported.contains(shown[k] as i32) by {
            if k < prev.len() {
                assert(shown[k] == prev[k]);
            }
        }
        assert forall|j: int, k: int| 0 <= j < k < shown.len() implies shown[j] < shown[k] by {
            if k < prev.len() {
                assert(shown[k] == prev[k]);
            } else {
                assert(prev[j] < n - 1);
            }
        }
        assert forall|i: usize|
            i < n && i != HIDDEN_MODE && supported.contains(i as i32) implies #[trigger] shown.contains(
            i,
        ) by {
            if i < n - 1 {
                assert(prev.contains(i));
                let k = choose|k: int| 0 <= k < prev.len() && prev[k] == i;
                assert(shown[k] == i);
            } else {
                assert(shown[shown.len() - 1] == i);
            }
        }
    }
}

/// The shown power zones are the reported ones, in order, with only the
/// "no zone" entries left out.
pub proof fn lemma_real_zones(zones: Seq<PowerZones>)
    ensures
        forall|k: int|
            0 <= k < real_zones(zones).len() ==> #[trigger] real_zones(zones)[k]
                != PowerZones::NoZone,
        forall|i: int|
            0 <= i < zones.len() && zones[i] != PowerZones::NoZone ==> real_zones(zones).contains(
                #[trigger] zones[i],
            ),
        real_zones(zones).len() <= zones.len(),
    decreases zones.len(),
{
    if zones.len() > 0 {
        let init = zones.drop_last();
        lemma_real_zones(init);
        let prev = real_zones(init);
        let shown = real_zones(zones);
        assert forall|k: int| 0 <= k < shown.len() implies #[trigger] shown[k]
            != PowerZones::NoZone by {
            if k < prev.len() {
                assert(shown[k] == prev[k]);
            }
        }
        assert forall|i: int| 0 <= i < zones.len() && zones[i] != PowerZones::NoZone implies shown.contains(
            #[trigger] zones[i],
        ) by {
            if i < zones.len() - 1 {
                assert(init[i] == zones[i]);
                let k = choose|k: int| 0 <= k < prev.len() && prev[k] == init[i];
                assert(shown[k] == zones[i]);
            } else {
                assert(shown[shown.len() - 1] == zones[i]);
            }
        }
    }
}

/// Whether `pos` is where mode `raw` stands among `raws`: its first position,
/// or 0 when it is not there.
pub open spec fn is_mode_position(raws: Seq<i32>, raw: i32, pos: usize) -> bool {
    &&& raws.contains(raw) ==> pos < raws.len() && raws[pos as int] == raw && forall|j: int|
        0 <= j < pos ==> raws[j] != raw
    &&& !raws.contains(raw) ==> pos == 0
}

/// The display-name positions of the zones an older laptop shows.
pub open spec fn zone_name_indices(zones: Seq<PowerZones>) -> Seq<usize> {
    real_zones(zones).map_values(|z: PowerZones| power_zone_value(z) as usize)
}

/// The mode numbers of the modes at these name positions.
pub open spec fn mode_numbers_of(offered: Seq<usize>) -> Seq<i32> {
    offered.map_values(|i: usize| i as i32)
}

fn mode_numbers(offered: &Vec<usize>) -> (raws: Vec<i32>)
    ensures
        raws@ == mode_numbers_of(offered@),
{
    let mut raws: Vec<i32> = Vec::new();
    let mut k: usize = 0;
    while k < offered.len()
        invariant
            k <= offered@.len(),
            raws@ == mode_numbers_of(offered@.subrange(0, k as int)),
        decreases offered@.len() - k,
    {
        #[verifier::truncate]
        let raw = offered[k] as i32;
        raws.push(raw);
        assert(mode_numbers_of(offered@.subrange(0, k + 1)) =~= raws@);
        k += 1;
    }
    assert(offered@.subrange(0, offered@.len() as int) =~= offered@);
    raws
}

/// Something the page learnt from a device or its user, for the selection
/// that asked.
#[derive(Debug, PartialEq, Eq)]
pub enum PageEvent {
    /// The page was asked to load the selected device's settings.
    LoadRequested,
    /// The device's LED power state was read.
    LedPower,
    /// The device's supported modes were read, with `name_count` mode names
    /// on the page; `restored` is the mode number of the saved effect, if
    /// one was read back.
    ModesRead { name_count: usize, supported: Vec<i32>, restored: Option<i32> },
    /// The user applied the edited LED mode.
    LedModeChosen,
    /// The user changed the LED power state.
    LedPowerChosen,
    /// The device's brightness was read or changed.
    Brightness(LedBrightness),
    /// The device's type was read.
    DeviceType(AuraDeviceType),
    /// The device's mode changed to mode number `raw`; `offered` are the
    /// mode numbers the page offers.
    ModeChanged { raw: i32, offered: Vec<i32> },
    /// The device's power zones were read; `device` is its type.
    PowerZones { device: AuraDeviceType, zones: Vec<PowerZones> },
}

/// What the page does in answer to an event.
#[derive(Debug, PartialEq, Eq)]
pub enum PageAction {
    /// Nothing: the event belongs to a selection that is no longer current.
    Ignore,
    /// Read the device's settings.
    StartLoad,
    ShowLedPower,
    /// Offer the modes at these name positions; with `restore`, show the
    /// saved effect and select the offered mode at that position.
    ShowModes { offered: Vec<usize>, restore: Option<usize> },
    /// Write the edited LED mode to the device.
    WriteLedMode,
    /// Write the chosen LED power state to the device.
    WriteLedPower,
    ShowBrightness(LedBrightness),
    ShowDeviceType(AuraDeviceType),
    /// Select the offered mode at this position.
    SelectMode(usize),
    /// An older laptop: show the zone names at these positions.
    ShowZoneNames(Vec<usize>),
    ShowZones(Vec<PowerZones>),
}

/// The page's answer to `event`, which the selection made at generation
/// `selected` asked for, when the selection counter reads `current`. An event
/// of a stale selection changes nothing.
pub fn page_step(current: usize, selected: usize, event: PageEvent) -> (action: PageAction)
    ensures
        current != selected ==> action == PageAction::Ignore,
        current == selected ==> match event {
            PageEvent::LoadRequested => action == PageAction::StartLoad,
            PageEvent::LedPower => action == PageAction::ShowLedPower,
            PageEvent::ModesRead { name_count, supported, restored } => action matches PageAction::ShowModes { offered, restore }
                && offered@ == offered_modes(name_count as nat, supported@) && match restored {
                None => restore is None,
                Some(raw) => restore matches Some(pos) && is_mode_position(
                    mode_numbers_of(offered_modes(name_count as nat, supported@)),
                    raw,
                    pos,
                ),
            },
            PageEvent::LedModeChosen => action == PageAction::WriteLedMode,
            PageEvent::LedPowerChosen => action == PageAction::WriteLedPower,
            PageEvent::Brightness(b) => action == PageAction::ShowBrightness(b),
            PageEvent::DeviceType(t) => action == PageAction::ShowDeviceType(t),
            PageEvent::ModeChanged { raw, offered } => action matches PageAction::SelectMode(pos)
                && is_mode_position(offered@, raw, pos),
            PageEvent::PowerZones { device, zones } => if device
                == AuraDeviceType::LaptopKeyboardPre2021 {
                action matches PageAction::ShowZoneNames(names) && names@ == zone_name_indices(
                    zones@,
                )
            } else {
                action matches PageAction::ShowZones(shown) && shown@ == real_zones(zones@)
            },
        },
{
    if current != selected {
        return PageAction::Ignore;
    }
    match event {
        PageEvent::LoadRequested => PageAction::StartLoad,
        PageEvent::LedPower => PageAction::ShowLedPower,
        PageEvent::ModesRead { name_count, supported, restored } => {
            let offered = offered_mode_indices(name_count, &supported);
            let restore = match restored {
                Some(raw) => {
                    let raws = mode_numbers(&offered);
                    Some(mode_position(&raws, raw))
                },
                None => None,
            };
            PageAction::ShowModes { offered, restore }
        },
        PageEvent::LedModeChosen => PageAction::WriteLedMode,
        PageEvent::LedPowerChosen => PageAction::WriteLedPower,
        PageEvent::Brightness(b) => PageAction::ShowBrightness(b),
        PageEvent::DeviceType(t) => PageAction::ShowDeviceType(t),
        PageEvent::ModeChanged { raw, offered } => PageAction::SelectMode(
            mode_position(&offered, raw),
        ),
        PageEvent::PowerZones { device, zones } => {
            let shown = visible_power_zones(&zones);
            if device.is_old_laptop() {
                let mut names: Vec<usize> = Vec::new();
                let mut i: usize = 0;
                while i < shown.len()
                    invariant
                        i <= shown@.len(),
                        names@ == shown@.subrange(0, i as int).map_values(
                            |z: PowerZones| power_zone_value(z) as usize,
                        ),
                    decreases shown@.len() - i,
                {
                    let value = shown[i].value();
                    names.push(value as usize);
                    assert(shown@.subrange(0, i + 1).map_values(
                        |z: PowerZones| power_zone_value(z) as usize,
                    ) =~= names@);
                    i += 1;
                }
                assert(shown@.subrange(0, shown@.len() as int) =~= shown@);
                PageAction::ShowZoneNames(names)
            } else {
                PageAction::ShowZones(shown)
            }
        },
    }
}

/// What choosing device `index` of the page's list does: nothing for an
/// index outside the list; otherwise the selection counter, at
/// `generation`, moves on by one, and the result is the new generation and
/// the rear light to keep in step with the chosen device.
pub fn select_step(labels: &Vec<DeviceLabel>, index: usize, generation: usize, rear: Option<usize>) -> (r:
    Option<(usize, Option<usize>)>)
    requires
        index < labels@.len() ==> generation < usize::MAX,
    ensures
        index >= labels@.len() ==> r is None,
        index < labels@.len() ==> r == Some(
            (
                (generation + 1) as usize,
                if labels@[index as int] == DeviceLabel::Keyboard {
                    rear
                } else {
                    None
                },
            ),
        ),
{
    if index >= labels.len() {
        return None;
    }
    Some((generation + 1, rear_to_reassert(labels, index, rear)))
}

/// A step of the brightness change that the user asks for.
#[derive(Debug, PartialEq, Eq)]
pub enum BrightnessEvent {
    /// The user chose a brightness.
    Chosen,
    /// Writing the chosen brightness to the device succeeded or failed.
    DeviceWritten(bool),
    /// Reading the rear light's brightness gave this level, or failed.
    RearRead(Option<LedBrightness>),
    /// Writing the rear light's brightness back succeeded or failed.
    RearWritten(bool),
}

/// What the brightness change does next.
#[derive(Debug, PartialEq, Eq)]
pub enum BrightnessAction {
    /// Nothing: the choice belongs to a selection that is no longer current.
    Ignore,
    /// Write the chosen brightness to the device.
    WriteDevice(i32),
    /// Read the rear light's brightness.
    ReadRear,
    /// Write this brightness to the rear light again.
    WriteRear(LedBrightness),
    /// Tell the user the brightness is set to this value.
    ReportSuccess(i32),
    /// Tell the user the brightness change failed.
    ReportFailure,
}

/// The next action of a brightness change to `value`. `rear` says whether a
/// rear light is kept in step; `current` and `selected` are the selection
/// counter and the selection the page was loaded for. The first failure ends
/// the change with a failure report.
pub open spec fn brightness_action(
    current: usize,
    selected: usize,
    value: i32,
    rear: bool,
    event: BrightnessEvent,
) -> BrightnessAction {
    match event {
        BrightnessEvent::Chosen => if current != selected {
            BrightnessAction::Ignore
        } else {
            BrightnessAction::WriteDevice(value)
        },
        BrightnessEvent::DeviceWritten(ok) => if !ok {
            BrightnessAction::ReportFailure
        } else if rear {
            BrightnessAction::ReadRear
        } else {
            BrightnessAction::ReportSuccess(value)
        },
        BrightnessEvent::RearRead(level) => match level {
            Some(b) => BrightnessAction::WriteRear(b),
            None => BrightnessAction::ReportFailure,
        },
        BrightnessEvent::RearWritten(ok) => if ok {
            BrightnessAction::ReportSuccess(value)
        } else {
            BrightnessAction::ReportFailure
        },
    }
}

/// The next action of a brightness change; see `brightness_action`.
pub fn brightness_step(
    current: usize,
    selected: usize,
    value: i32,
    rear: bool,
    event: BrightnessEvent,
) -> (action: BrightnessAction)
    ensures
        action == brightness_action(current, selected, value, rear, event),
{
    match event {
        BrightnessEvent::Chosen => if current != selected {
            BrightnessAction::Ignore
        } else {
            BrightnessAction::WriteDevice(value)
        },
        BrightnessEvent::DeviceWritten(ok) => if !ok {
            BrightnessAction::ReportFailure
        } else if rear {
            BrightnessAction::ReadRear
        } else {
            BrightnessAction::ReportSuccess(value)
        },
        BrightnessEvent::RearRead(level) => match level {
            Some(b) => BrightnessAction::WriteRear(b),
            None => BrightnessAction::ReportFailure,
        },
        BrightnessEvent::RearWritten(ok) => if ok {
            BrightnessAction::ReportSuccess(value)
        } else {
            BrightnessAction::ReportFailure
        },
    }
}

/// Only the three laptop keyboard generations are named "Keyboard", only
/// the rear-window controller is named "Rear window", and every other device
/// (an external disk, an Ally, an AniMe or Slash display, an unknown device)
/// is an "Aura device".
pub proof fn lemma_device_labels(t: AuraDeviceType)
    ensures
        label_for(t) == DeviceLabel::Keyboard <==> (t == AuraDeviceType::LaptopKeyboard2021 || t
            == AuraDeviceType::LaptopKeyboardPre2021 || t == AuraDeviceType::LaptopKeyboardTuf),
        label_for(t) == DeviceLabel::RearWindow <==> t == AuraDeviceType::RearGlow,
        label_for(t) == DeviceLabel::AuraDevice <==> (t == AuraDeviceType::ScsiExtDisk || t
            == AuraDeviceType::Ally || t == AuraDeviceType::AnimeOrSlash || t
            == AuraDeviceType::Unknown),
{
}

/// Whether an entry of a device's zone list is a zone at all.
pub open spec fn zone_entry() -> spec_fn(PowerZones) -> bool {
    |z: PowerZones| z != PowerZones::NoZone
}

/// The shown zones are the reported ones in their reported order, with just
/// the "no zone" entries taken out.
pub proof fn lemma_real_zones_keep_order(zones: Seq<PowerZones>)
    ensures
        real_zones(zones) == zones.filter(zone_entry()),
    decreases zones.len(),
{
    reveal_with_fuel(Seq::filter, 1);
    if zones.len() > 0 {
        lemma_real_zones_keep_order(zones.drop_last());
    }
}

/// A write to the chosen device that fails ends the change with a failure
/// report, whether or not a rear light is kept in step.
pub proof fn lemma_failed_device_write_fails(current: usize, selected: usize, value: i32, rear: bool)
    ensures
        brightness_action(current, selected, value, rear, BrightnessEvent::DeviceWritten(false))
            == BrightnessAction::ReportFailure,
{
}

/// How a whole brightness change ends when its steps are run one after the
/// other: the device write succeeds or not (`device_ok`); `rear` is `None`
/// with no rear light kept in step, else what reading it gave; `rear_ok` is
/// whether writing it back succeeds.
pub open spec fn brightness_outcome(
    current: usize,
    selected: usize,
    value: i32,
    rear: Option<Option<LedBrightness>>,
    device_ok: bool,
    rear_ok: bool,
) -> BrightnessAction {
    let has_rear = rear is Some;
    let first = brightness_action(current, selected, value, has_rear, BrightnessEvent::Chosen);
    if !(first is WriteDevice) {
        first
    } else {
        let second = brightness_action(
            current,
            selected,
            value,
            has_rear,
            BrightnessEvent::DeviceWritten(device_ok),
        );
        if !(second is ReadRear) {
            second
        } else {
            let read = match rear {
                Some(level) => level,
                None => None,
            };
            let third = brightness_action(
                current,
                selected,
                value,
                has_rear,
                BrightnessEvent::RearRead(read),
            );
            if third is WriteRear {
                brightness_action(
                    current,
                    selected,
                    value,
                    has_rear,
                    BrightnessEvent::RearWritten(rear_ok),
                )
            } else {
                third
            }
        }
    }
}

/// A brightness change of a current selection reports success, with the
/// chosen value, exactly when the device write succeeded and, with a rear
/// light kept in step, reading and writing it back succeeded too; any failure
/// is reported as one. A stale selection's change does nothing.
pub proof fn lemma_brightness_outcome(
    current: usize,
    selected: usize,
    value: i32,
    rear: Option<Option<LedBrightness>>,
    device_ok: bool,
    rear_ok: bool,
)
    ensures
        ({
            let outcome = brightness_outcome(current, selected, value, rear, device_ok, rear_ok);
            let all_ok = device_ok && match rear {
                None => true,
                Some(None) => false,
                Some(Some(_)) => rear_ok,
            };
            &&& current != selected ==> outcome == BrightnessAction::Ignore
            &&& current == selected && all_ok ==> outcome == BrightnessAction::ReportSuccess(value)
            &&& current == selected && !all_ok ==> outcome == BrightnessAction::ReportFailure
        }),
{
}

} // verus!
