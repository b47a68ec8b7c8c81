//! Register-level driver of the environmental sensor: its settings and the
//! bytes they put in the control registers, the transactions that initialise
//! and sample it, the parsing of its calibration blocks and of a measurement
//! burst. The driver owns no bus: it names the transactions, and takes what
//! they brought back.

use vstd::prelude::*;
use vstd::std_specs::convert::FromSpec;
use crate::bus::BusReply;
use crate::bus::Session;
use crate::bus::Transaction;

verus! {

/// First register of the measurement burst: pressure, most significant byte.
pub const PRESSURE_2_REG: u8 = 0xF7;

/// Filter and interface options.
pub const CONFIG_REG: u8 = 0xF5;

/// Temperature and pressure oversampling, and the power mode.
pub const CONTROL_MEASURE_REG: u8 = 0xF4;

/// Humidity oversampling.
pub const CONTROL_HUM_REG: u8 = 0xF2;

/// First register of the second calibration block.
pub const CALIB_REG_1: u8 = 0xE1;

/// Reset register.
pub const RESET_REG: u8 = 0xE0;

/// Chip identification register.
pub const ID_REG: u8 = 0xD0;

/// First register of the first calibration block.
pub const CALIB_REG_0: u8 = 0x88;

/// Number of bytes in the first calibration block.
pub const CALIB_0_LEN: usize = 25;

/// Number of bytes in the second calibration block.
pub const CALIB_1_LEN: usize = 8;

/// Number of bytes in a measurement burst.
pub const MEASUREMENT_LEN: usize = 8;

/// The value that resets the device when written to the reset register.
pub const RESET_COMMAND: u8 = 0xB6;

/// The identification that the device answers with.
pub const CHIP_ID: u8 = 0x60;

/// A 20-bit code with every bit set: the channel was not sampled.
pub const UNSET_20: u32 = 0xFFFFF;

/// A 16-bit code with every bit set: the channel was not sampled.
pub const UNSET_16: u32 = 0xFFFF;

/// The two bus addresses the device can be strapped to.
#[derive(Clone, Copy, Debug, PartialEq, Eq, Structural)]
pub enum BME280Addr {
    LowAddr,
    HighAddr,
}

impl From<BME280Addr> for u16 {
    fn from(addr: BME280Addr) -> (bus_addr: Self) {
        match addr {
            BME280Addr::LowAddr => 0x76,
            BME280Addr::HighAddr => 0x77,
        }
    }
}

impl vstd::std_specs::convert::FromSpecImpl<BME280Addr> for u16 {
    open spec fn obeys_from_spec() -> bool {
        true
    }

    open spec fn from_spec(addr: BME280Addr) -> Self {
        match addr {
            BME280Addr::LowAddr => 0x76,
            BME280Addr::HighAddr => 0x77,
        }
    }
}

/// What can go wrong between the driver and the device.
#[derive(Clone, Copy, Debug, PartialEq, Eq, Structural)]
pub enum BME280Error {
    /// The device answered with another identification.
    InvalidId,
    /// A transaction on the bus failed, or gave a reply of the wrong shape.
    BusError,
    /// A register read back differs from what was written to it.
    ConfigWriteMismatch,
    /// A channel of the burst holds the all-ones code of a channel not sampled.
    ValueNotSet,
    /// The calibration has not been loaded yet.
    NotInitialized,
}

/// How the device schedules its conversions.
#[derive(Clone, Copy, Debug, PartialEq, Eq, Structural)]
pub enum BME280PowerMode {
    Sleep,
    ForcedMode,
    NormalMode,
}

impl BME280PowerMode {
    /// The bits that select this setting in its register field.
    pub open spec fn bits(self) -> u8 {
        match self {
            BME280PowerMode::Sleep => 0b00,
            BME280PowerMode::ForcedMode => 0b01,
            BME280PowerMode::NormalMode => 0b11,
        }
    }
}

impl From<BME280PowerMode> for u8 {
    fn from(other: BME280PowerMode) -> (bits: u8) {
        match other {
            BME280PowerMode::Sleep => 0b00,
            BME280PowerMode::ForcedMode => 0b01,
            BME280PowerMode::NormalMode => 0b11,
        }
    }
}

impl vstd::std_specs::convert::FromSpecImpl<BME280PowerMode> for u8 {
    open spec fn obeys_from_spec() -> bool {
        true
    }

    open spec fn from_spec(other: BME280PowerMode) -> u8 {
        other.bits()
    }
}

/// Oversampling of one channel; `Skip` switches the channel off.
#[derive(Clone, Copy, Debug, PartialEq, Eq, Structural)]
pub enum BME280SampleRate {
    Skip,
    X1,
    X2,
    X4,
    X8,
    X16,
}

impl BME280SampleRate {
    /// The bits that select this setting in its register field.
    pub open spec fn bits(self) -> u8 {
        match self {
            BME280SampleRate::Skip => 0b000,
            BME280SampleRate::X1 => 0b001,
            BME280SampleRate::X2 => 0b010,
            BME280SampleRate::X4 => 0b011,
            BME280SampleRate::X8 => 0b100,
            BME280SampleRate::X16 => 0b101,
        }
    }
}

impl From<BME280SampleRate> for u8 {
    fn from(other: BME280SampleRate) -> (bits: u8) {
        match other {
            BME280SampleRate::Skip => 0b000,
            BME280SampleRate::X1 => 0b001,
            BME280SampleRate::X2 => 0b010,
            BME280SampleRate::X4 => 0b011,
            BME280SampleRate::X8 => 0b100,
            BME280SampleRate::X16 => 0b101,
        }
    }
}

impl vstd::std_specs::convert::FromSpecImpl<BME280SampleRate> for u8 {
    open spec fn obeys_from_spec() -> bool {
        true
    }

    open spec fn from_spec(other: BME280SampleRate) -> u8 {
        other.bits()
    }
}

/// Coefficient of the device's smoothing filter.
#[derive(Clone, Copy, Debug, PartialEq, Eq, Structural)]
pub enum BME280FilterCoefs {
    Off,
    X2,
    X4,
    X8,
    X16,
}

impl BME280FilterCoefs {
    /// The bits that select this setting in its register field.
    pub open spec fn bits(self) -> u8 {
        match self {
            BME280FilterCoefs::Off => 0b000,
            BME280FilterCoefs::X2 => 0b001,
            BME280FilterCoefs::X4 => 0b010,
            BME280FilterCoefs::X8 => 0b011,
            BME280FilterCoefs::X16 => 0b100,
        }
    }
}

impl From<BME280FilterCoefs> for u8 {
    fn from(other: BME280FilterCoefs) -> (bits: u8) {
        match other {
            BME280FilterCoefs::Off => 0b000,
            BME280FilterCoefs::X2 => 0b001,
            BME280FilterCoefs::X4 => 0b010,
            BME280FilterCoefs::X8 => 0b011,
            BME280FilterCoefs::X16 => 0b100,
        }
    }
}

impl vstd::std_specs::convert::FromSpecImpl<BME280FilterCoefs> for u8 {
    open spec fn obeys_from_spec() -> bool {
        true
    }

    open spec fn from_spec(other: BME280FilterCoefs) -> u8 {
        other.bits()
    }
}

/// The 16-bit number with the given low and high byte.
pub open spec fn word(lsb: u8, msb: u8) -> int {
    msb * 256 + lsb
}

/// The 20-bit code packed into three bytes: the first two whole, then the
/// upper half of the third.
pub open spec fn code_20(msb: u8, lsb: u8, xlsb: u8) -> int {
    msb * 4096 + lsb * 16 + xlsb / 16
}

/// The factory coefficients of one device: three for temperature, nine for
/// pressure, six for humidity, each taken as an unsigned number.
#[derive(Clone, Copy, Debug, PartialEq, Eq)]
pub struct CalibrationSet {
    pub t_comp_vals: [u32; 3],
    pub p_comp_vals: [u32; 9],
    pub h_comp_vals: [u32; 6],
}

impl CalibrationSet {
    /// The coefficients are those that the two calibration blocks hold. The
    /// first block holds the temperature and pressure coefficients as twelve
    /// words, low byte first, and the first humidity coefficient in its last
    /// byte. The second holds the other humidity coefficients: a word, a
    /// byte, two numbers of twelve bits that share the low half of the fifth
    /// byte, and a byte.
    pub open spec fn holds(&self, low: Seq<u8>, high: Seq<u8>) -> bool {
        &&& forall|i: int|
            0 <= i < 3 ==> #[trigger] self.t_comp_vals[i] == word(low[2 * i], low[2 * i + 1])
        &&& forall|i: int|
            0 <= i < 9 ==> #[trigger] self.p_comp_vals[i] == word(low[2 * i + 6], low[2 * i + 7])
        &&& self.h_comp_vals[0] == low[24]
        &&& self.h_comp_vals[1] == word(high[0], high[1])
        &&& self.h_comp_vals[2] == high[2]
        &&& self.h_comp_vals[3] == high[3] * 16 + high[4] % 16
        &&& self.h_comp_vals[4] == high[5] * 16 + high[4] % 16
        &&& self.h_comp_vals[5] == high[6]
    }

    /// Parses the two calibration blocks.
    fn parse(low: &[u8], high: &[u8]) -> (set: Self)
        requires
            low.len() == CALIB_0_LEN,
            high.len() == CALIB_1_LEN,
        ensures
            set.holds(low@, high@),
    {
        let mut t_comp_vals: [u32; 3] = [0; 3];
        let mut p_comp_vals: [u32; 9] = [0; 9];
        let mut h_comp_vals: [u32; 6] = [0; 6];
        let mut i: usize = 0;
        while i < 12
            invariant
                i <= 12,
                low.len() == CALIB_0_LEN,
                forall|k: int|
                    0 <= k < 3 && k < i ==> #[trigger] t_comp_vals[k] == word(
                        low[2 * k],
                        low[2 * k + 1],
                    ),
                forall|k: int|
                    0 <= k < 9 && k + 3 < i ==> #[trigger] p_comp_vals[k] == word(
                        low[2 * k + 6],
                        low[2 * k + 7],
                    ),
            decreases 12 - i,
        {
            if i < 3 {
                t_comp_vals[i] = BME280::concat(low[2 * i + 1], low[2 * i]);
            } else {
                p_comp_vals[i - 3] = BME280::concat(low[2 * i + 1], low[2 * i]);
            }
            i += 1;
        }
        h_comp_vals[0] = low[24] as u32;
        h_comp_vals[1] = BME280::concat(high[1], high[0]);
        h_comp_vals[2] = high[2] as u32;
        let h3: u32 = high[3] as u32;
        let h4: u32 = high[4] as u32;
        let h5: u32 = high[5] as u32;
        h_comp_vals[3] = h3 << 4 | (h4 & 0b00001111);
        h_comp_vals[4] = (h4 & 0b00001111) | h5 << 4;
        h_comp_vals[5] = high[6] as u32;
        proof {
            assert(h3 << 4 | (h4 & 0b00001111) == h3 * 16 + h4 % 16) by (bit_vector)
                requires
                    h3 < 256,
                    h4 < 256,
            ;
            assert((h4 & 0b00001111) | h5 << 4 == h5 * 16 + h4 % 16) by (bit_vector)
                requires
                    h5 < 256,
                    h4 < 256,
            ;
        }
        CalibrationSet { t_comp_vals, p_comp_vals, h_comp_vals }
    }
}

/// The three codes of one measurement burst, as the converter gave them.
#[derive(Clone, Copy, Debug, PartialEq, Eq, Structural)]
pub struct RawReading {
    pub raw_temp: u32,
    pub raw_preasure: u32,
    pub raw_humidity: u32,
}

impl RawReading {
    /// The codes that a burst of eight bytes holds: pressure and temperature
    /// as 20-bit codes in three bytes each, humidity as a word, high byte first.
    pub open spec fn of_burst(data: Seq<u8>) -> RawReading {
        RawReading {
            raw_preasure: code_20(data[0], data[1], data[2]) as u32,
            raw_temp: code_20(data[3], data[4], data[5]) as u32,
            raw_humidity: word(data[7], data[6]) as u32,
        }
    }

    /// Some channel holds the all-ones code of a channel that was not sampled.
    pub open spec fn unset(&self) -> bool {
        self.raw_preasure == UNSET_20 || self.raw_temp == UNSET_20 || self.raw_humidity
            == UNSET_16
    }
}

/// The driver: the address of the device, its settings, and, once loaded, its
/// calibration.
#[derive(Clone, Copy, Debug, PartialEq, Eq)]
pub struct BME280 {
    pub addr: u16,
    pub p_sample_rate: BME280SampleRate,
    pub t_sample_rate: BME280SampleRate,
    pub h_sample_rate: BME280SampleRate,
    pub power_mode: BME280PowerMode,
    pub filtering: BME280FilterCoefs,
    pub calibration: Option<CalibrationSet>,
}

impl BME280 {
    /// The byte for the humidity control register.
    pub open spec fn control_humidity(&self) -> u8 {
        self.h_sample_rate.bits()
    }

    /// The byte for the measurement control register with the given power
    /// mode: temperature oversampling in the upper three bits, pressure
    /// oversampling in the next three, the mode in the lowest two.
    pub open spec fn control_measure(&self, mode: BME280PowerMode) -> u8 {
        (self.t_sample_rate.bits() * 32 + self.p_sample_rate.bits() * 4 + mode.bits()) as u8
    }

    /// The byte for the configuration register: the filter coefficient above
    /// two zero bits.
    pub open spec fn config(&self) -> u8 {
        (self.filtering.bits() * 4) as u8
    }

    /// A write to a register followed by the read that verifies it.
    pub open spec fn checked_write(addr: u8, data: u8) -> Seq<Transaction> {
        seq![
            Transaction::Write { register: addr, value: data },
            Transaction::ReadBack {
                register: addr,
                expected: data,
                mismatch: BME280Error::ConfigWriteMismatch,
            },
        ]
    }

    /// A driver for the device at `addr`, with the settings the device powers
    /// on with, and no calibration.
    pub fn new(addr: BME280Addr) -> (driver: Self)
        ensures
            driver.addr == u16::from_spec(addr),
            driver.p_sample_rate == BME280SampleRate::Skip,
            driver.t_sample_rate == BME280SampleRate::Skip,
            driver.h_sample_rate == BME280SampleRate::Skip,
            driver.power_mode == BME280PowerMode::Sleep,
            driver.filtering == BME280FilterCoefs::Off,
            driver.calibration is None,
    {
        Self {
            addr: u16::from(addr),
            p_sample_rate: BME280SampleRate::Skip,
            t_sample_rate: BME280SampleRate::Skip,
            h_sample_rate: BME280SampleRate::Skip,
            power_mode: BME280PowerMode::Sleep,
            filtering: BME280FilterCoefs::Off,
            calibration: None,
        }
    }

    /// The word with the given high and low byte.
    pub fn concat(msb: u8, lsb: u8) -> (value: u32)
        ensures
            value == word(lsb, msb),
    {
        let high: u32 = msb as u32;
        let low: u32 = lsb as u32;
        assert(high << 8 | low == high * 256 + low) by (bit_vector)
            requires
                high < 256,
                low < 256,
        ;
        high << 8 | low
    }

    /// The transactions that write `data` to the register at `addr` and
    /// verify the write by reading the register back.
    pub fn write_and_check(addr: u8, data: u8) -> (plan: Vec<Transaction>)
        ensures
            plan@ == Self::checked_write(addr, data),
    {
        vec![
            Transaction::Write { register: addr, value: data },
            Transaction::ReadBack {
                register: addr,
                expected: data,
                mismatch: BME280Error::ConfigWriteMismatch,
            },
        ]
    }

    /// Sets the temperature oversampling; nothing reaches the device before
    /// the control registers are written again.
    pub fn set_temp_sample_rate(&mut self, s: BME280SampleRate)
        ensures
            *final(self) == (Self { t_sample_rate: s, ..*old(self) }),
    {
        self.t_sample_rate = s;
    }

    /// Sets the pressure oversampling.
    pub fn set_preasure_sample_rate(&mut self, s: BME280SampleRate)
        ensures
            *final(self) == (Self { p_sample_rate: s, ..*old(self) }),
    {
        self.p_sample_rate = s;
    }

    /// Sets the humidity oversampling.
    pub fn set_humidity_sample_rate(&mut self, s: BME280SampleRate)
        ensures
            *final(self) == (Self { h_sample_rate: s, ..*old(self) }),
    {
        self.h_sample_rate = s;
    }

    /// Sets the power mode.
    pub fn set_power_mode(&mut self, p: BME280PowerMode)
        ensures
            *final(self) == (Self { power_mode: p, ..*old(self) }),
    {
        self.power_mode = p;
    }

    /// Sets the filter coefficient.
    pub fn set_filtering(&mut self, f: BME280FilterCoefs)
        ensures
            *final(self) == (Self { filtering: f, ..*old(self) }),
    {
        self.filtering = f;
    }

    /// The byte of the measurement control register for the given power mode.
    fn control_measure_byte(&self, mode: BME280PowerMode) -> (ctrl_meas: u8)
        ensures
            ctrl_meas == self.control_measure(mode),
    {
        let t: u8 = u8::from(self.t_sample_rate);
        let p: u8 = u8::from(self.p_sample_rate);
        let m: u8 = u8::from(mode);
        assert(t << 5 | p << 2 | m == t * 32 + p * 4 + m) by (bit_vector)
            requires
                t <= 5,
                p <= 5,
                m <= 3,
        ;
        t << 5 | p << 2 | m
    }

    /// The transactions that bring the oversampling settings and the power
    /// mode to the device: the humidity control register, then the
    /// measurement control register, each write verified.
    pub fn update_control(&self) -> (plan: Vec<Transaction>)
        ensures
            plan@ == Self::checked_write(CONTROL_HUM_REG, self.control_humidity())
                + Self::checked_write(CONTROL_MEASURE_REG, self.control_measure(self.power_mode)),
    {
        let ctrl_hum: u8 = u8::from(self.h_sample_rate);
        let mut plan = Self::write_and_check(CONTROL_HUM_REG, ctrl_hum);
        let ctrl_meas: u8 = self.control_measure_byte(self.power_mode);
        let mut second = Self::write_and_check(CONTROL_MEASURE_REG, ctrl_meas);
        plan.append(&mut second);
        plan
    }

    /// The transactions that bring the filter setting to the device, the
    /// write verified.
    pub fn update_config(&self) -> (plan: Vec<Transaction>)
        ensures
            plan@ == Self::checked_write(CONFIG_REG, self.config()),
    {
        let f: u8 = u8::from(self.filtering);
        assert(f << 2 == f * 4) by (bit_vector)
            requires
                f <= 4,
        ;
        let config: u8 = f << 2;
        Self::write_and_check(CONFIG_REG, config)
    }

    /// The transactions that start one conversion: the measurement control
    /// register written with the forced mode in place of the driver's own,
    /// the write verified.
    pub fn force_sample(&self) -> (plan: Vec<Transaction>)
        ensures
            plan@ == Self::checked_write(
                CONTROL_MEASURE_REG,
                self.control_measure(BME280PowerMode::ForcedMode),
            ),
    {
        let ctrl_meas: u8 = self.control_measure_byte(BME280PowerMode::ForcedMode);
        Self::write_and_check(CONTROL_MEASURE_REG, ctrl_meas)
    }

    /// The transaction that checks the identification of the device.
    pub fn check_id(&self) -> (check: Transaction)
        ensures
            check == (Transaction::ReadBack {
                register: ID_REG,
                expected: CHIP_ID,
                mismatch: BME280Error::InvalidId,
            }),
    {
        self.check_id_against(CHIP_ID)
    }

    /// The transaction that checks the identification against `ref_id`.
    pub fn check_id_against(&self, ref_id: u8) -> (check: Transaction)
        ensures
            check == (Transaction::ReadBack {
                register: ID_REG,
                expected: ref_id,
                mismatch: BME280Error::InvalidId,
            }),
    {
        Transaction::ReadBack { register: ID_REG, expected: ref_id, mismatch: BME280Error::InvalidId }
    }

    /// The transaction that resets the device.
    pub fn reset(&self) -> (write: Transaction)
        ensures
            write == (Transaction::Write { register: RESET_REG, value: RESET_COMMAND }),
    {
        Transaction::Write { register: RESET_REG, value: RESET_COMMAND }
    }

    /// The transactions of an initialisation, in their order: the control
    /// registers, then the configuration register, each write verified, then
    /// the bursts that read the two calibration blocks.
    pub open spec fn init_plan(&self) -> Seq<Transaction> {
        Self::checked_write(CONTROL_HUM_REG, self.control_humidity()) + Self::checked_write(
            CONTROL_MEASURE_REG,
            self.control_measure(self.power_mode),
        ) + Self::checked_write(CONFIG_REG, self.config()) + seq![
            Transaction::Burst { register: CALIB_REG_0, len: CALIB_0_LEN },
            Transaction::Burst { register: CALIB_REG_1, len: CALIB_1_LEN },
        ]
    }

    /// The transactions of an initialisation. The bytes of its two bursts go
    /// to `load_calibration`.
    pub fn init(&self) -> (plan: Vec<Transaction>)
        ensures
            plan@ == self.init_plan(),
    {
        let mut plan = self.update_control();
        let mut config = self.update_config();
        plan.append(&mut config);
        plan.push(Transaction::Burst { register: CALIB_REG_0, len: CALIB_0_LEN });
        plan.push(Transaction::Burst { register: CALIB_REG_1, len: CALIB_1_LEN });
        plan
    }

    /// Ends an initialisation: parses the two calibration blocks and keeps
    /// the coefficients. Blocks of another length are a bus error, and leave
    /// the driver as it was.
    pub fn load_calibration(&mut self, low: &[u8], high: &[u8]) -> (loaded: Result<
        (),
        BME280Error,
    >)
        ensures
            low.len() == CALIB_0_LEN && high.len() == CALIB_1_LEN ==> {
                &&& loaded == Ok::<(), BME280Error>(())
                &&& final(self).calibration is Some
                &&& final(self).calibration->0.holds(low@, high@)
                &&& *final(self) == (Self { calibration: final(self).calibration, ..*old(self) })
            },
            low.len() != CALIB_0_LEN || high.len() != CALIB_1_LEN ==> {
                &&& loaded == Err::<(), BME280Error>(BME280Error::BusError)
                &&& *final(self) == *old(self)
            },
    {
        if low.len() != CALIB_0_LEN || high.len() != CALIB_1_LEN {
            return Err(BME280Error::BusError);
        }
        self.calibration = Some(CalibrationSet::parse(low, high));
        Ok(())
    }

    /// Ends an initialisation from the session that carried it out. A failed
    /// session leaves the driver as it was and hands on its error, and so
    /// does, as a bus error, a session that is not a finished initialisation
    /// of this driver with its present settings. From any other session the
    /// two calibration blocks are taken and parsed.
    pub fn finish_init(&mut self, session: &Session) -> (done: Result<(), BME280Error>)
        requires
            session@.wf(),
        ensures
            done == (if session@.failure is Some {
                Err(session@.failure->0)
            } else if session@.plan == old(self).init_plan() && session@.replies.len()
                == session@.plan.len() {
                Ok(())
            } else {
                Err(BME280Error::BusError)
            }),
            done is Err ==> *final(self) == *old(self),
            done is Ok ==> {
                &&& final(self).calibration is Some
                &&& final(self).calibration->0.holds(
                    session@.replies[6]->0@,
                    session@.replies[7]->0@,
                )
                &&& *final(self) == (Self { calibration: final(self).calibration, ..*old(self) })
            },
    {
        if let Some(error) = session.failure {
            return Err(error);
        }
        let plan = self.init();
        if !same_plan(&session.plan, &plan) || session.replies.len() != session.plan.len() {
            return Err(BME280Error::BusError);
        }
        // the last two transactions of the plan are the bursts, and a
        // finished session holds what each of them read
        match (&session.replies[6], &session.replies[7]) {
            (BusReply::Data(low), BusReply::Data(high)) => self.load_calibration(
                low.as_slice(),
                high.as_slice(),
            ),
            _ => Err(BME280Error::BusError),
        }
    }

    /// The burst that reads one measurement.
    pub fn read_request(&self) -> (burst: Transaction)
        ensures
            burst == (Transaction::Burst { register: PRESSURE_2_REG, len: MEASUREMENT_LEN }),
    {
        Transaction::Burst { register: PRESSURE_2_REG, len: MEASUREMENT_LEN }
    }

    /// Unpacks a measurement burst. A driver without calibration refuses; a
    /// burst of another length than eight is a bus error; a burst in which a
    /// channel holds the all-ones code is reported as not set; any other
    /// burst gives its three codes.
    pub fn read(&self, data: &[u8]) -> (reading: Result<RawReading, BME280Error>)
        ensures
            reading == (if self.calibration is None {
                Err(BME280Error::NotInitialized)
            } else if data@.len() != MEASUREMENT_LEN {
                Err(BME280Error::BusError)
            } else if RawReading::of_burst(data@).unset() {
                Err(BME280Error::ValueNotSet)
            } else {
                Ok(RawReading::of_burst(data@))
            }),
    {
        if self.calibration.is_none() {
            return Err(BME280Error::NotInitialized);
        }
        if data.len() != MEASUREMENT_LEN {
            return Err(BME280Error::BusError);
        }
        let d0: u32 = data[0] as u32;
        let d1: u32 = data[1] as u32;
        let d2: u32 = data[2] as u32;
        let d3: u32 = data[3] as u32;
        let d4: u32 = data[4] as u32;
        let d5: u32 = data[5] as u32;
        let d6: u32 = data[6] as u32;
        let d7: u32 = data[7] as u32;
        let raw_preasure: u32 = (d0 << 12) | (d1 << 4) | (d2 >> 4);
        let raw_temp: u32 = (d3 << 12) | (d4 << 4) | (d5 >> 4);
        let raw_humidity: u32 = (d6 << 8) | d7;
        proof {
            assert((d0 << 12) | (d1 << 4) | (d2 >> 4) == d0 * 4096 + d1 * 16 + d2 / 16)
                by (bit_vector)
                requires
                    d0 < 256,
                    d1 < 256,
                    d2 < 256,
            ;
            assert((d3 << 12) | (d4 << 4) | (d5 >> 4) == d3 * 4096 + d4 * 16 + d5 / 16)
                by (bit_vector)
                requires
                    d3 < 256,
                    d4 < 256,
                    d5 < 256,
            ;
            assert((d6 << 8) | d7 == d6 * 256 + d7) by (bit_vector)
                requires
                    d6 < 256,
                    d7 < 256,
            ;
        }
        let raw = RawReading { raw_temp, raw_preasure, raw_humidity };
        if raw_preasure == UNSET_20 || raw_temp == UNSET_20 || raw_humidity == UNSET_16 {
            return Err(BME280Error::ValueNotSet);
        }
        Ok(raw)
    }

    /// Unpacks the measurement that a session has read. A failed session
    /// hands on its error; a session that is not a finished reading is a bus
    /// error; from any other the burst is unpacked as `read` does.
    pub fn finish_read(&self, session: &Session) -> (reading: Result<RawReading, BME280Error>)
        requires
            session@.wf(),
        ensures
            reading == (if session@.failure is Some {
                Err(session@.failure->0)
            } else if session@.plan == seq![
                Transaction::Burst { register: PRESSURE_2_REG, len: MEASUREMENT_LEN },
            ] && session@.replies.len() == 1 {
                if self.calibration is None {
                    Err(BME280Error::NotInitialized)
                } else if RawReading::of_burst(session@.replies[0]->0@).unset() {
                    Err(BME280Error::ValueNotSet)
                } else {
                    Ok(RawReading::of_burst(session@.replies[0]->0@))
                }
            } else {
                Err(BME280Error::BusError)
            }),
    {
        if let Some(error) = session.failure {
            return Err(error);
        }
        if session.plan.len() != 1 || session.replies.len() != 1 || session.plan[0]
            != self.read_request() {
            return Err(BME280Error::BusError);
        }
        assert(session@.plan =~= seq![
            Transaction::Burst { register: PRESSURE_2_REG, len: MEASUREMENT_LEN },
        ]);
        match &session.replies[0] {
            BusReply::Data(data) => self.read(data.as_slice()),
            _ => Err(BME280Error::BusError),
        }
    }
}

/// Tells whether two plans hold the same transactions in the same order.
fn same_plan(a: &Vec<Transaction>, b: &Vec<Transaction>) -> (same: bool)
    ensures
        same == (a@ == b@),
{
    if a.len() != b.len() {
        return false;
    }
    let mut i: usize = 0;
    while i < a.len()
        invariant
            i <= a.len(),
            a.len() == b.len(),
            forall|k: int| 0 <= k < i ==> a@[k] == b@[k],
        decreases a.len() - i,
    {
        if a[i] != b[i] {
            return false;
        }
        i += 1;
    }
    assert(a@ =~= b@);
    true
}

/// Every write of an initialisation is verified: the transaction that
/// follows it reads the same register back, expects the byte that was
/// written, and reports any other as a mismatch of the configuration. The
/// calibration blocks are read only after the last such check.
pub proof fn lemma_init_verifies_every_write(driver: BME280)
    ensures
        forall|i: int|
            0 <= i < driver.init_plan().len() ==> match #[trigger] driver.init_plan()[i] {
                Transaction::Write { register, value } => i + 1 < driver.init_plan().len()
                    && driver.init_plan()[i + 1] == (Transaction::ReadBack {
                    register,
                    expected: value,
                    mismatch: BME280Error::ConfigWriteMismatch,
                }),
                Transaction::ReadBack { .. } => i < 6,
                Transaction::Burst { .. } => i >= 6,
            },
{
}

} // verus!
