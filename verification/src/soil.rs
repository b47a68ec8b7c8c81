//! The analog-to-digital converter behind the soil probe: the image of its
//! configuration register, the check of what the device reads back, and the
//! decoding of a conversion.

use vstd::prelude::*;

verus! {

/// Address of the configuration register.
pub const CONFIG_REG_ADDR: u8 = 1;

/// Address of the conversion register.
pub const CONVERSION_REG_ADDR: u8 = 0;

/// Full-scale range of the programmable gain amplifier.
#[derive(Clone, Copy, Debug, PartialEq, Eq, Structural)]
pub enum Scale {
    /// ±6.144 V
    FsPm6_144v,
    /// ±4.096 V
    FsPm4_096v,
    /// ±2.048 V
    FsPm2_048v,
    /// ±1.024 V
    FsPm1_024v,
    /// ±0.512 V
    FsPm0_512v,
    /// ±0.256 V
    FsPm0_256v,
}

impl Scale {
    /// The three bits that select this range in the configuration register.
    pub open spec fn bits(&self) -> u8 {
        match self {
            Scale::FsPm6_144v => 0b000,
            Scale::FsPm4_096v => 0b001,
            Scale::FsPm2_048v => 0b010,
            Scale::FsPm1_024v => 0b011,
            Scale::FsPm0_512v => 0b100,
            Scale::FsPm0_256v => 0b101,
        }
    }

    /// The positive end of the range, in millivolts.
    pub open spec fn millivolts(&self) -> u16 {
        match self {
            Scale::FsPm6_144v => 6144,
            Scale::FsPm4_096v => 4096,
            Scale::FsPm2_048v => 2048,
            Scale::FsPm1_024v => 1024,
            Scale::FsPm0_512v => 512,
            Scale::FsPm0_256v => 256,
        }
    }

    /// The three bits that select this range in the configuration register.
    pub fn into_bits(&self) -> (bits: u8)
        ensures
            bits == self.bits(),
    {
        match self {
            Scale::FsPm6_144v => 0b000,
            Scale::FsPm4_096v => 0b001,
            Scale::FsPm2_048v => 0b010,
            Scale::FsPm1_024v => 0b011,
            Scale::FsPm0_512v => 0b100,
            Scale::FsPm0_256v => 0b101,
        }
    }

    /// The positive end of the range, in millivolts. A conversion code
    /// counts steps of this voltage divided by two to the fifteenth.
    pub fn full_scale_millivolts(&self) -> (millivolts: u16)
        ensures
            millivolts == self.millivolts(),
    {
        match self {
            Scale::FsPm6_144v => 6144,
            Scale::FsPm4_096v => 4096,
            Scale::FsPm2_048v => 2048,
            Scale::FsPm1_024v => 1024,
            Scale::FsPm0_512v => 512,
            Scale::FsPm0_256v => 256,
        }
    }
}

/// Why the converter cannot be used.
#[derive(Clone, Copy, Debug, PartialEq, Eq, Structural)]
pub enum ConfigError {
    /// The bus did not hand back the two bytes of the register.
    BusError,
    /// The register read back differs from what was written to it.
    ConfigWriteMismatch,
}

/// The signed number that a 16-bit two's-complement code stands for.
pub open spec fn signed_16(msb: u8, lsb: u8) -> int {
    if msb >= 128 {
        msb * 256 + lsb - 65536
    } else {
        msb * 256 + lsb
    }
}

/// The signed value of a conversion register read as two bytes, high byte
/// first. The top bit is the sign of a two's-complement number: a code with
/// that bit set stands for the code less two to the sixteenth.
pub fn conversion_value(msb: u8, lsb: u8) -> (value: i16)
    ensures
        value == signed_16(msb, lsb),
{
    let code: u16 = (msb as u16) << 8 | (lsb as u16);
    assert(code == msb * 256 + lsb) by (bit_vector)
        requires
            code == (msb as u16) << 8 | (lsb as u16),
    ;
    if code >= 0x8000 {
        let magnitude: u16 = 0xFFFF - code;
        -(magnitude as i16) - 1
    } else {
        code as i16
    }
}

/// The converter: its bus address, the image of its configuration register,
/// and the range that the image selects.
#[derive(Clone, Copy, Debug, PartialEq, Eq, Structural)]
pub struct ADS1115 {
    pub address: u8,
    pub conf_reg_msb: u8,
    pub conf_reg_lsb: u8,
    pub scale: Scale,
}

impl ADS1115 {
    /// The range that scales the conversions is the one that the register
    /// image selects: bits three to one of the upper byte.
    pub open spec fn wf(&self) -> bool {
        (self.conf_reg_msb / 2) % 8 == self.scale.bits()
    }

    /// The register image as the device may report it: the upper byte as
    /// written or with its top bit, the conversion status, the other way
    /// round; the lower byte as written.
    pub open spec fn confirmed_by(&self, msb: u8, lsb: u8) -> bool {
        &&& msb % 128 == self.conf_reg_msb % 128
        &&& lsb == self.conf_reg_lsb
    }

    /// A converter at `address` with the configuration it starts from: input
    /// zero against ground, the ±2.048 V range, continuous conversion, 128
    /// samples per second, comparator off.
    pub fn new(address: u8) -> (adc: Self)
        ensures
            adc.wf(),
            adc == (ADS1115 {
                address,
                conf_reg_msb: 0b01000100,
                conf_reg_lsb: 0b10000011,
                scale: Scale::FsPm2_048v,
            }),
    {
        let adc = Self {
            address,
            conf_reg_msb: 0b01000100,
            conf_reg_lsb: 0b10000011,
            scale: Scale::FsPm2_048v,
        };
        assert((0b01000100u8 / 2) % 8 == 0b010) by (bit_vector);
        adc
    }

    /// The signed value of a conversion read as two bytes, high byte first.
    pub fn measure(&self, msb: u8, lsb: u8) -> (value: i16)
        ensures
            value == signed_16(msb, lsb),
    {
        conversion_value(msb, lsb)
    }

    /// Selects the full-scale range: its bits replace bits three to one of
    /// the upper byte, and it becomes the range that scales the conversions.
    pub fn set_full_scale(&mut self, scale: Scale)
        ensures
            final(self).wf(),
            final(self).scale == scale,
            final(self).conf_reg_msb == old(self).conf_reg_msb - ((old(self).conf_reg_msb / 2) % 8)
                * 2 + scale.bits() * 2,
            final(self).conf_reg_lsb == old(self).conf_reg_lsb,
            final(self).address == old(self).address,
    {
        let before: u8 = self.conf_reg_msb;
        let bits: u8 = scale.into_bits();
        let after: u8 = (before & !0b00001110) | bits << 1;
        assert(after == before - ((before / 2) % 8) * 2 + bits * 2 && (after / 2) % 8 == bits)
            by (bit_vector)
            requires
                after == (before & !0b00001110) | bits << 1,
                bits <= 5,
        ;
        self.conf_reg_msb = after;
        self.scale = scale;
    }

    /// Selects the input that is measured against ground: bit six of the
    /// upper byte is set, and the channel number replaces bits five and four.
    pub fn set_channel(&mut self, channel: u8)
        requires
            channel < 4,
        ensures
            final(self).wf() == old(self).wf(),
            final(self).conf_reg_msb == (old(self).conf_reg_msb / 128) * 128 + 64 + channel * 16
                + old(self).conf_reg_msb % 16,
            final(self).conf_reg_lsb == old(self).conf_reg_lsb,
            final(self).scale == old(self).scale,
            final(self).address == old(self).address,
    {
        let before: u8 = self.conf_reg_msb;
        let after: u8 = (before & !0b01110000) | (0b01000000 | (channel << 4));
        assert(after == (before / 128) * 128 + 64 + channel * 16 + before % 16 && (after / 2) % 8
            == (before / 2) % 8) by (bit_vector)
            requires
                after == (before & !0b01110000) | (0b01000000 | (channel << 4)),
                channel < 4,
        ;
        self.conf_reg_msb = after;
    }

    /// The bytes that write the register image to the device: the address
    /// of the configuration register, then the upper and the lower byte.
    pub fn write_to_config_reg(data_msb: u8, data_lsb: u8) -> (frame: [u8; 3])
        ensures
            frame@ == seq![CONFIG_REG_ADDR, data_msb, data_lsb],
    {
        let frame: [u8; 3] = [CONFIG_REG_ADDR, data_msb, data_lsb];
        frame
    }

    /// The bytes that bring the register image to the device.
    pub fn update_config(&self) -> (frame: [u8; 3])
        ensures
            frame@ == seq![CONFIG_REG_ADDR, self.conf_reg_msb, self.conf_reg_lsb],
    {
        Self::write_to_config_reg(self.conf_reg_msb, self.conf_reg_lsb)
    }

    /// Checks the configuration register as read back from the device. The
    /// top bit of the upper byte reports a running conversion and may differ;
    /// every other bit must be as written.
    pub fn check_config_reg(&self, data: &[u8]) -> (check: Result<(), ConfigError>)
        ensures
            check == (if data@.len() != 2 {
                Err(ConfigError::BusError)
            } else if self.confirmed_by(data@[0], data@[1]) {
                Ok(())
            } else {
                Err(ConfigError::ConfigWriteMismatch)
            }),
    {
        if data.len() != 2 {
            return Err(ConfigError::BusError);
        }
        let mut err: bool = false;
        let msb: u8 = self.conf_reg_msb;
        let read: u8 = data[0];
        assert((msb != read && (0b10000000 ^ msb) != read) == (msb % 128 != read % 128))
            by (bit_vector);
        if self.conf_reg_msb != data[0] && (0b10000000 ^ self.conf_reg_msb) != data[0] {
            err = true;
        }
        if self.conf_reg_lsb != data[1] {
            err = true;
        }
        if err {
            Err(ConfigError::ConfigWriteMismatch)
        } else {
            Ok(())
        }
    }
}

/// The soil probe: a converter set to the ±4.096 V range.
#[derive(Clone, Copy, Debug, PartialEq, Eq, Structural)]
pub struct SoilSensor {
    pub adc: ADS1115,
}

impl SoilSensor {
    /// A probe on the converter at `address`.
    pub fn new(address: u8) -> (sensor: Self)
        ensures
            sensor.adc.wf(),
            sensor.adc == (ADS1115 {
                address,
                conf_reg_msb: 0b01000010,
                conf_reg_lsb: 0b10000011,
                scale: Scale::FsPm4_096v,
            }),
    {
        let mut adc = ADS1115::new(address);
        adc.set_full_scale(Scale::FsPm4_096v);
        Self { adc }
    }

    /// The signed value of a conversion read as two bytes, high byte first.
    pub fn measure(&self, msb: u8, lsb: u8) -> (value: i16)
        ensures
            value == signed_16(msb, lsb),
    {
        self.adc.measure(msb, lsb)
    }
}

} // verus!
