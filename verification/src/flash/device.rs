//! The flash chips that are known, and the ids by which they name themselves.

use vstd::prelude::*;
use vstd::std_specs::convert::TryFromSpec;
use vstd::std_specs::convert::TryFromSpecImpl;

verus! {

/// An unknown device ID.
///
/// There are several different common devices used in GBA cartridges for flash data. These devices
/// identify themselves using an ID. When [`Flash`] is initialized, it attempts to identify the
/// current device. This type will be returned if the device returned an unrecognized ID.
///
/// An unknown device ID indicates that the driver cannot tell what type of device is installed,
/// and therefore cannot know how to interact with it.
///
/// [`Flash`]: crate::flash::Flash
#[derive(Clone, Copy, Debug, PartialEq, Eq, Structural, Hash)]
pub struct UnknownDeviceId(pub u16);

/// The character that stands for `nibble` in lower-case hexadecimal.
pub open spec fn hex_digit(nibble: u16) -> char {
    if nibble == 0 {
        '0'
    } else if nibble == 1 {
        '1'
    } else if nibble == 2 {
        '2'
    } else if nibble == 3 {
        '3'
    } else if nibble == 4 {
        '4'
    } else if nibble == 5 {
        '5'
    } else if nibble == 6 {
        '6'
    } else if nibble == 7 {
        '7'
    } else if nibble == 8 {
        '8'
    } else if nibble == 9 {
        '9'
    } else if nibble == 10 {
        'a'
    } else if nibble == 11 {
        'b'
    } else if nibble == 12 {
        'c'
    } else if nibble == 13 {
        'd'
    } else if nibble == 14 {
        'e'
    } else {
        'f'
    }
}

/// The four lower-case hexadecimal digits of `value`, the highest first.
pub open spec fn hex_digits(value: u16) -> Seq<char> {
    seq![
        hex_digit(value >> 12),
        hex_digit((value >> 8) & 0xf),
        hex_digit((value >> 4) & 0xf),
        hex_digit(value & 0xf),
    ]
}

fn push_hex_digit(text: &mut String, nibble: u16)
    requires
        nibble < 16,
    ensures
        final(text)@ == old(text)@.push(hex_digit(nibble)),
{
    proof {
        reveal_strlit("0");
        reveal_strlit("1");
        reveal_strlit("2");
        reveal_strlit("3");
        reveal_strlit("4");
        reveal_strlit("5");
        reveal_strlit("6");
        reveal_strlit("7");
        reveal_strlit("8");
        reveal_strlit("9");
        reveal_strlit("a");
        reveal_strlit("b");
        reveal_strlit("c");
        reveal_strlit("d");
        reveal_strlit("e");
        reveal_strlit("f");
    }
    let digit = if nibble == 0 {
        "0"
    } else if nibble == 1 {
        "1"
    } else if nibble == 2 {
        "2"
    } else if nibble == 3 {
        "3"
    } else if nibble == 4 {
        "4"
    } else if nibble == 5 {
        "5"
    } else if nibble == 6 {
        "6"
    } else if nibble == 7 {
        "7"
    } else if nibble == 8 {
        "8"
    } else if nibble == 9 {
        "9"
    } else if nibble == 10 {
        "a"
    } else if nibble == 11 {
        "b"
    } else if nibble == 12 {
        "c"
    } else if nibble == 13 {
        "d"
    } else if nibble == 14 {
        "e"
    } else {
        "f"
    };
    assert(digit@ =~= seq![hex_digit(nibble)]);
    text.append(digit);
    assert(text@ =~= old(text)@.push(hex_digit(nibble)));
}

impl UnknownDeviceId {
    /// The sentence that names this id.
    pub open spec fn message(self) -> Seq<char> {
        "Unknown Device ID: 0x"@ + hex_digits(self.0)
    }

    /// Returns the sentence that names this id, with the id as four hexadecimal digits.
    pub fn to_string(&self) -> (text: String)
        ensures
            text@ == self.message(),
    {
        let id = self.0;
        assert(id >> 12 < 16 && (id >> 8) & 0xf < 16 && (id >> 4) & 0xf < 16 && id & 0xf < 16)
            by (bit_vector);
        let mut text = String::from_str("Unknown Device ID: 0x");
        push_hex_digit(&mut text, id >> 12);
        push_hex_digit(&mut text, (id >> 8) & 0xf);
        push_hex_digit(&mut text, (id >> 4) & 0xf);
        push_hex_digit(&mut text, id & 0xf);
        assert(text@ =~= self.message());
        text
    }
}

/// How a flash chip is driven.
#[derive(Clone, Copy, Debug, PartialEq, Eq, Structural)]
pub enum Class {
    /// 64KiB, written byte by byte and erased by sectors.
    Flash64K,
    /// 64KiB made by Atmel, written in pages of 128 bytes.
    Flash64KAtmel,
    /// 128KiB in two banks of 64KiB, written byte by byte and erased by sectors.
    Flash128K,
}

/// Different flash chip devices, by ID code.
#[derive(Clone, Copy, Debug, PartialEq, Eq, Structural)]
pub enum Device {
    /// Macronix 128K
    MX29L010,
    /// Sanyo
    LE26FV10N1TS,
    /// Panasonic
    MN63F805MNP,
    /// Macronix 64K
    MX29L512,
    /// Atmel
    AT29LV512,
    /// SST
    LE39FW512,
}

impl Device {
    /// The device that names itself by `id`, if there is one.
    pub open spec fn lookup(id: u16) -> Option<Device> {
        if id == 0x09c2 {
            Some(Device::MX29L010)
        } else if id == 0x1362 {
            Some(Device::LE26FV10N1TS)
        } else if id == 0x1b32 {
            Some(Device::MN63F805MNP)
        } else if id == 0x1cc2 {
            Some(Device::MX29L512)
        } else if id == 0x3d1f {
            Some(Device::AT29LV512)
        } else if id == 0xd4bf {
            Some(Device::LE39FW512)
        } else {
            None
        }
    }

    /// The id by which this device names itself.
    pub open spec fn spec_id(self) -> u16 {
        match self {
            Device::MX29L010 => 0x09c2,
            Device::LE26FV10N1TS => 0x1362,
            Device::MN63F805MNP => 0x1b32,
            Device::MX29L512 => 0x1cc2,
            Device::AT29LV512 => 0x3d1f,
            Device::LE39FW512 => 0xd4bf,
        }
    }

    /// How this device is driven.
    pub open spec fn spec_class(self) -> Class {
        match self {
            Device::AT29LV512 => Class::Flash64KAtmel,
            Device::MX29L010 | Device::LE26FV10N1TS => Class::Flash128K,
            _ => Class::Flash64K,
        }
    }

    /// Returns the id by which this device names itself.
    #[verifier::when_used_as_spec(spec_id)]
    pub fn id(self) -> (id: u16)
        ensures
            id == self.spec_id(),
    {
        match self {
            Device::MX29L010 => 0x09c2,
            Device::LE26FV10N1TS => 0x1362,
            Device::MN63F805MNP => 0x1b32,
            Device::MX29L512 => 0x1cc2,
            Device::AT29LV512 => 0x3d1f,
            Device::LE39FW512 => 0xd4bf,
        }
    }

    /// Returns how this device is driven.
    #[verifier::when_used_as_spec(spec_class)]
    pub fn class(self) -> (class: Class)
        ensures
            class == self.spec_class(),
    {
        match self {
            Device::AT29LV512 => Class::Flash64KAtmel,
            Device::MX29L010 | Device::LE26FV10N1TS => Class::Flash128K,
            _ => Class::Flash64K,
        }
    }

    /// The sentence that describes this device.
    pub open spec fn message(self) -> Seq<char> {
        match self {
            Device::MX29L010 => "Macronix 128KiB (ID: 0x09c2, chip: MX29L010)"@,
            Device::LE26FV10N1TS => "Sanyo 128KiB (ID: 0x1362, chip: LE26FV10N1TS)"@,
            Device::MN63F805MNP => "Panasonic 64KiB (ID: 0x1b32, chip: MN63F805MNP)"@,
            Device::MX29L512 => "Macronix 64KiB (ID: 0x1cc2, chip: MX29L512)"@,
            Device::AT29LV512 => "Atmel 64KiB (ID: 0x3d1f, chip: AT29LV512)"@,
            Device::LE39FW512 => "SST 64KiB (ID: 0xd4bf, chip: LE39FW512)"@,
        }
    }

    /// Returns the sentence that describes this device.
    pub fn to_string(&self) -> (text: String)
        ensures
            text@ == self.message(),
    {
        match self {
            Device::MX29L010 => String::from_str("Macronix 128KiB (ID: 0x09c2, chip: MX29L010)"),
            Device::LE26FV10N1TS => String::from_str(
                "Sanyo 128KiB (ID: 0x1362, chip: LE26FV10N1TS)",
            ),
            Device::MN63F805MNP => String::from_str(
                "Panasonic 64KiB (ID: 0x1b32, chip: MN63F805MNP)",
            ),
            Device::MX29L512 => String::from_str("Macronix 64KiB (ID: 0x1cc2, chip: MX29L512)"),
            Device::AT29LV512 => String::from_str("Atmel 64KiB (ID: 0x3d1f, chip: AT29LV512)"),
            Device::LE39FW512 => String::from_str("SST 64KiB (ID: 0xd4bf, chip: LE39FW512)"),
        }
    }
}

impl TryFrom<u16> for Device {
    type Error = UnknownDeviceId;

    /// Finds the device that names itself by `id`. An id that no known device has comes back
    /// in the error.
    fn try_from(id: u16) -> (result: Result<Self, Self::Error>) {
        match id {
            0x09c2 => Ok(Device::MX29L010),
            0x1362 => Ok(Device::LE26FV10N1TS),
            0x1b32 => Ok(Device::MN63F805MNP),
            0x1cc2 => Ok(Device::MX29L512),
            0x3d1f => Ok(Device::AT29LV512),
            0xd4bf => Ok(Device::LE39FW512),
            _ => Err(UnknownDeviceId(id)),
        }
    }
}

impl TryFromSpecImpl<u16> for Device {
    open spec fn obeys_try_from_spec() -> bool {
        true
    }

    open spec fn try_from_spec(id: u16) -> Result<Self, Self::Error> {
        match Device::lookup(id) {
            Some(device) => Ok(device),
            None => Err(UnknownDeviceId(id)),
        }
    }
}

/// The table of ids is one to one: the device found for an id has that id, every device is
/// found by its own id, and an id that no device has is refused with that id in the error.
pub proof fn lemma_device_table(id: u16, device: Device)
    ensures
        Device::lookup(id) == Some(device) <==> device.spec_id() == id,
        <Device as TryFromSpec<u16>>::try_from_spec(id) == Ok::<Device, UnknownDeviceId>(device)
            <==> device.spec_id() == id,
        Device::lookup(id) is None ==> <Device as TryFromSpec<u16>>::try_from_spec(id) == Err::<
            Device,
            UnknownDeviceId,
        >(UnknownDeviceId(id)),
{
}

} // verus!
