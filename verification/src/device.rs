//! Aura device roles and how a USB product ID and a board name resolve to one.

use vstd::prelude::*;
use vstd::string::StringSliceAdditionalSpecFns;

verus! {

/// What kind of Aura device a USB product ID is.
#[derive(Clone, Copy, Debug, PartialEq, Eq, Hash, Structural)]
pub enum AuraDeviceType {
    /// Most new laptops
    LaptopKeyboard2021,
    LaptopKeyboardPre2021,
    LaptopKeyboardTuf,
    ScsiExtDisk,
    Ally,
    AnimeOrSlash,
    /// GZ302EA 18c6 rear-window Aura controller, separate from its keyboard.
    RearGlow,
    Unknown,
}

/// The power zones a laptop supports.
#[derive(Clone, Copy, Debug, PartialEq, Eq, Hash, Structural)]
pub enum PowerZones {
    /// The logo on some laptop lids
    Logo,
    /// The full keyboard (not zones)
    Keyboard,
    /// The lightbar, typically on the front of the laptop
    Lightbar,
    /// The leds that may be placed around the edge of the laptop lid
    Lid,
    /// The led strip on the rear of some laptops
    RearGlow,
    /// Exists for the older 0x1866 models
    KeyboardAndLightbar,
    /// Ally specific for creating correct packet
    Ally,
    NoZone,
}

/// Most new laptops: the type assumed where none is known.
impl Default for AuraDeviceType {
    fn default() -> (t: Self)
        ensures
            t == AuraDeviceType::LaptopKeyboard2021,
    {
        AuraDeviceType::LaptopKeyboard2021
    }
}

/// The full keyboard: the zone assumed where none is given.
impl Default for PowerZones {
    fn default() -> (z: Self)
        ensures
            z == PowerZones::Keyboard,
    {
        PowerZones::Keyboard
    }
}

/// The wire value of each device type.
pub open spec fn device_type_value(t: AuraDeviceType) -> u8 {
    match t {
        AuraDeviceType::LaptopKeyboard2021 => 0,
        AuraDeviceType::LaptopKeyboardPre2021 => 1,
        AuraDeviceType::LaptopKeyboardTuf => 2,
        AuraDeviceType::ScsiExtDisk => 3,
        AuraDeviceType::Ally => 4,
        AuraDeviceType::AnimeOrSlash => 5,
        AuraDeviceType::RearGlow => 6,
        AuraDeviceType::Unknown => 255,
    }
}

/// The wire value of each power zone.
pub open spec fn power_zone_value(z: PowerZones) -> u8 {
    match z {
        PowerZones::Logo => 0,
        PowerZones::Keyboard => 1,
        PowerZones::Lightbar => 2,
        PowerZones::Lid => 3,
        PowerZones::RearGlow => 4,
        PowerZones::KeyboardAndLightbar => 5,
        PowerZones::Ally => 6,
        PowerZones::NoZone => 255,
    }
}

impl PowerZones {
    /// The zone's wire value, which also indexes the zone's display name.
    pub fn value(self) -> (v: u8)
        ensures
            v == power_zone_value(self),
    {
        match self {
            PowerZones::Logo => 0,
            PowerZones::Keyboard => 1,
            PowerZones::Lightbar => 2,
            PowerZones::Lid => 3,
            PowerZones::RearGlow => 4,
            PowerZones::KeyboardAndLightbar => 5,
            PowerZones::Ally => 6,
            PowerZones::NoZone => 255,
        }
    }
}

/// ASCII lowercasing of one byte; every other byte stays as it is.
pub open spec fn ascii_lower(b: u8) -> u8 {
    if 0x41 <= b <= 0x5a {
        (b + 0x20) as u8
    } else {
        b
    }
}

pub open spec fn lower_bytes(s: Seq<u8>) -> Seq<u8> {
    s.map_values(|b: u8| ascii_lower(b))
}

/// `s` with every leading "0x" removed.
pub open spec fn trim_hex_prefix(s: Seq<u8>) -> Seq<u8>
    decreases s.len(),
{
    if s.len() >= 2 && s[0] == 0x30 && s[1] == 0x78 {
        trim_hex_prefix(s.subrange(2, s.len() as int))
    } else {
        s
    }
}

/// The device type of a USB product ID (given as UTF-8 bytes): ASCII case and
/// leading "0x" prefixes do not matter.
pub open spec fn device_type_for_id(id: Seq<u8>) -> AuraDeviceType {
    let t = trim_hex_prefix(lower_bytes(id));
    if t == "tuf".spec_bytes() {
        AuraDeviceType::LaptopKeyboardTuf
    } else if t == "1932".spec_bytes() {
        AuraDeviceType::ScsiExtDisk
    } else if t == "1866".spec_bytes() || t == "18c6".spec_bytes() || t == "1869".spec_bytes()
        || t == "1854".spec_bytes() {
        AuraDeviceType::LaptopKeyboardPre2021
    } else if t == "1abe".spec_bytes() || t == "1b4c".spec_bytes() {
        AuraDeviceType::Ally
    } else if t == "19b3".spec_bytes() || t == "193b".spec_bytes() {
        AuraDeviceType::AnimeOrSlash
    } else if t == "19b6".spec_bytes() || t == "1a30".spec_bytes() || t == "1ce6".spec_bytes() {
        AuraDeviceType::LaptopKeyboard2021
    } else {
        AuraDeviceType::Unknown
    }
}

/// The product ID of the GZ302EA rear-window controller: "18c6" in any ASCII
/// case, after leading "0x" prefixes (lower case only) are removed.
pub open spec fn is_rear_glow_id(id: Seq<u8>) -> bool {
    lower_bytes(trim_hex_prefix(id)) == lower_bytes("18c6".spec_bytes())
}

/// The role of a device with USB product ID `product` on the board `board`.
pub open spec fn device_role(product: Seq<u8>, board: Seq<char>) -> AuraDeviceType {
    if board == "GZ302EA"@ && is_rear_glow_id(product) {
        AuraDeviceType::RearGlow
    } else {
        device_type_for_id(product)
    }
}

/// Whether `a` from `start` on is exactly `b`.
fn tail_equals(a: &[u8], start: usize, b: &[u8]) -> (r: bool)
    requires
        start <= a@.len(),
    ensures
        r == (a@.subrange(start as int, a@.len() as int) == b@),
{
    if a.len() - start != b.len() {
        assert(a@.subrange(start as int, a@.len() as int).len() != b@.len());
        return false;
    }
    let mut i: usize = 0;
    while i < b.len()
        invariant
            start <= a@.len(),
            a@.len() == a.len(),
            a@.len() - start == b@.len(),
            i <= b@.len(),
            forall|j: int| 0 <= j < i ==> a@[start + j] == b@[j],
        decreases b@.len() - i,
    {
        if a[start + i] != b[i] {
            assert(a@.subrange(start as int, a@.len() as int)[i as int] != b@[i as int]);
            return false;
        }
        i += 1;
    }
    assert(a@.subrange(start as int, a@.len() as int) =~= b@);
    true
}

/// Whether `a` from `start` on equals `b` when ASCII case is ignored.
fn tail_equals_ignore_ascii_case(a: &[u8], start: usize, b: &[u8]) -> (r: bool)
    requires
        start <= a@.len(),
    ensures
        r == (lower_bytes(a@.subrange(start as int, a@.len() as int)) == lower_bytes(b@)),
{
    let ghost tail = a@.subrange(start as int, a@.len() as int);
    if a.len() - start != b.len() {
        assert(lower_bytes(tail).len() != lower_bytes(b@).len());
        return false;
    }
    let mut i: usize = 0;
    while i < b.len()
        invariant
            start <= a@.len(),
            a@.len() == a.len(),
            a@.len() - start == b@.len(),
            tail == a@.subrange(start as int, a@.len() as int),
            i <= b@.len(),
            forall|j: int| 0 <= j < i ==> ascii_lower(a@[start + j]) == ascii_lower(b@[j]),
        decreases b@.len() - i,
    {
        if to_ascii_lower(a[start + i]) != to_ascii_lower(b[i]) {
            assert(lower_bytes(tail)[i as int] != lower_bytes(b@)[i as int]);
            return false;
        }
        i += 1;
    }
    assert(lower_bytes(tail) =~= lower_bytes(b@));
    true
}

fn to_ascii_lower(b: u8) -> (r: u8)
    ensures
        r == ascii_lower(b),
{
    if 0x41 <= b && b <= 0x5a {
        b + 0x20
    } else {
        b
    }
}

/// The index in `s` after every leading "0x".
fn skip_hex_prefix(s: &[u8]) -> (start: usize)
    ensures
        start <= s@.len(),
        s@.subrange(start as int, s@.len() as int) == trim_hex_prefix(s@),
{
    let mut i: usize = 0;
    assert(s@.subrange(0, s@.len() as int) =~= s@);
    while s.len() - i >= 2 && s[i] == 0x30 && s[i + 1] == 0x78
        invariant
            i <= s@.len(),
            trim_hex_prefix(s@.subrange(i as int, s@.len() as int)) == trim_hex_prefix(s@),
        decreases s@.len() - i,
    {
        let ghost rest = s@.subrange(i as int, s@.len() as int);
        assert(rest.subrange(2, rest.len() as int) =~= s@.subrange(i + 2, s@.len() as int));
        i += 2;
    }
    let ghost rest = s@.subrange(i as int, s@.len() as int);
    assert(trim_hex_prefix(rest) == rest);
    i
}

fn lowercase_bytes(s: &[u8]) -> (r: Vec<u8>)
    ensures
        r@ == lower_bytes(s@),
{
    let mut r: Vec<u8> = Vec::new();
    let mut i: usize = 0;
    while i < s.len()
        invariant
            i <= s@.len(),
            r@ == lower_bytes(s@.subrange(0, i as int)),
        decreases s@.len() - i,
    {
        r.push(to_ascii_lower(s[i]));
        assert(s@.subrange(0, i + 1) =~= s@.subrange(0, i as int).push(s@[i as int]));
        assert(lower_bytes(s@.subrange(0, i + 1)) =~= lower_bytes(s@.subrange(0, i as int)).push(
            ascii_lower(s@[i as int]),
        ));
        i += 1;
    }
    assert(s@.subrange(0, s@.len() as int) =~= s@);
    r
}

impl AuraDeviceType {
    /// The type's wire value.
    pub fn value(self) -> (v: u8)
        ensures
            v == device_type_value(self),
    {
        match self {
            AuraDeviceType::LaptopKeyboard2021 => 0,
            AuraDeviceType::LaptopKeyboardPre2021 => 1,
            AuraDeviceType::LaptopKeyboardTuf => 2,
            AuraDeviceType::ScsiExtDisk => 3,
            AuraDeviceType::Ally => 4,
            AuraDeviceType::AnimeOrSlash => 5,
            AuraDeviceType::RearGlow => 6,
            AuraDeviceType::Unknown => 255,
        }
    }

    /// Resolve roles that depend on both the laptop model and USB product ID.
    pub fn for_product_and_board(product_id: &str, board_name: &str) -> (r: Self)
        ensures
            r == device_role(product_id.spec_bytes(), board_name@),
    {
        let board = board_name.as_bytes();
        let expected = "GZ302EA".as_bytes();
        let on_board = tail_equals(board, 0, expected);
        proof {
            assert(board@.subrange(0, board@.len() as int) =~= board@);
            vstd::utf8::encode_utf8_decode_utf8(board_name@);
            vstd::utf8::encode_utf8_decode_utf8("GZ302EA"@);
        }
        if on_board {
            let id = product_id.as_bytes();
            let start = skip_hex_prefix(id);
            if tail_equals_ignore_ascii_case(id, start, "18c6".as_bytes()) {
                return AuraDeviceType::RearGlow;
            }
        }
        Self::from(product_id)
    }

    pub fn is_old_laptop(&self) -> (r: bool)
        ensures
            r == (*self == AuraDeviceType::LaptopKeyboardPre2021),
    {
        *self == AuraDeviceType::LaptopKeyboardPre2021
    }

    pub fn is_tuf_laptop(&self) -> (r: bool)
        ensures
            r == (*self == AuraDeviceType::LaptopKeyboardTuf),
    {
        *self == AuraDeviceType::LaptopKeyboardTuf
    }

    pub fn is_new_laptop(&self) -> (r: bool)
        ensures
            r == (*self == AuraDeviceType::LaptopKeyboard2021),
    {
        *self == AuraDeviceType::LaptopKeyboard2021
    }
}

/// Maps a USB product ID to its device type. Identifiers are matched with
/// ASCII letters lowered: every known identifier and the "0x" prefix are
/// ASCII without the letters `i` and `k`, the only ASCII letters that a
/// non-ASCII character lowers to, so this decides as a full lowering would.
impl From<&str> for AuraDeviceType {
    fn from(s: &str) -> (r: Self) {
        let lower = lowercase_bytes(s.as_bytes());
        let t = lower.as_slice();
        let start = skip_hex_prefix(t);
        if tail_equals(t, start, "tuf".as_bytes()) {
            AuraDeviceType::LaptopKeyboardTuf
        } else if tail_equals(t, start, "1932".as_bytes()) {
            AuraDeviceType::ScsiExtDisk
        } else if tail_equals(t, start, "1866".as_bytes()) || tail_equals(t, start, "18c6".as_bytes())
            || tail_equals(t, start, "1869".as_bytes()) || tail_equals(t, start, "1854".as_bytes()) {
            AuraDeviceType::LaptopKeyboardPre2021
        } else if tail_equals(t, start, "1abe".as_bytes()) || tail_equals(t, start, "1b4c".as_bytes()) {
            AuraDeviceType::Ally
        } else if tail_equals(t, start, "19b3".as_bytes()) || tail_equals(t, start, "193b".as_bytes()) {
            AuraDeviceType::AnimeOrSlash
        } else if tail_equals(t, start, "19b6".as_bytes()) || tail_equals(t, start, "1a30".as_bytes())
            || tail_equals(t, start, "1ce6".as_bytes()) {
            AuraDeviceType::LaptopKeyboard2021
        } else {
            AuraDeviceType::Unknown
        }
    }
}

impl vstd::std_specs::convert::FromSpecImpl<&str> for AuraDeviceType {
    open spec fn obeys_from_spec() -> bool {
        true
    }

    open spec fn from_spec(s: &str) -> Self {
        device_type_for_id(s.spec_bytes())
    }
}

/// A device is the rear window exactly when it is on a GZ302EA board and has
/// the rear controller's product ID: a product ID alone never means it.
pub proof fn lemma_rear_glow_needs_board(product: Seq<u8>, board: Seq<char>)
    ensures
        device_type_for_id(product) != AuraDeviceType::RearGlow,
        device_role(product, board) == AuraDeviceType::RearGlow <==> (board == "GZ302EA"@
            && is_rear_glow_id(product)),
{
}

/// Off the GZ302EA board, the role is what the product ID alone says.
pub proof fn lemma_other_boards_follow_product_id(product: Seq<u8>, board: Seq<char>)
    requires
        board != "GZ302EA"@,
    ensures
        device_role(product, board) == device_type_for_id(product),
{
}

/// Product IDs are read without regard to ASCII case.
pub proof fn lemma_id_ignores_ascii_case(a: Seq<u8>, b: Seq<u8>)
    requires
        lower_bytes(a) == lower_bytes(b),
    ensures
        device_type_for_id(a) == device_type_for_id(b),
{
}

/// A leading "0x" or "0X" does not change what a product ID means.
pub proof fn lemma_id_ignores_hex_prefix(id: Seq<u8>, x: u8)
    requires
        x == 0x78 || x == 0x58,
    ensures
        device_type_for_id(seq![0x30u8, x] + id) == device_type_for_id(id),
{
    let prefixed = seq![0x30u8, x] + id;
    let lowered = lower_bytes(prefixed);
    assert(lowered.subrange(2, lowered.len() as int) =~= lower_bytes(id));
    assert(lowered[0] == 0x30 && lowered[1] == 0x78);
}

} // verus!
