use plant_monitor::soil::{
    conversion_value, ConfigError, Scale, SoilSensor, ADS1115, CONFIG_REG_ADDR,
    CONVERSION_REG_ADDR,
};

#[test]
fn negative_code_is_sign_extended() {
    let adc = ADS1115::new(0x48);
    let code: u16 = 0b1001110001010100;
    let value = adc.measure((code >> 8) as u8, (code & 0xFF) as u8);
    assert!(value < 0);
    assert_eq!(value, -25516);
    assert_eq!(value, code as i16);
    assert_ne!(value as i32, (code & 0x7FFF) as i32);
    assert_ne!(value as i32, -((code & 0x7FFF) as i32));
}

#[test]
fn every_code_is_its_twos_complement_value() {
    for code in 0..=u16::MAX {
        let bytes = code.to_be_bytes();
        assert_eq!(conversion_value(bytes[0], bytes[1]), code as i16);
    }
}

#[test]
fn conversion_codes_at_the_edges() {
    let adc = ADS1115::new(0x48);
    assert_eq!(adc.measure(0x00, 0x00), 0);
    assert_eq!(adc.measure(0x00, 0x01), 1);
    assert_eq!(adc.measure(0x7F, 0xFF), 32767);
    assert_eq!(adc.measure(0x80, 0x00), -32768);
    assert_eq!(adc.measure(0xFF, 0xFF), -1);
    assert_eq!(adc.measure(0x12, 0x34), 0x1234);
}

#[test]
fn scale_bits_and_ranges() {
    assert_eq!(Scale::FsPm6_144v.into_bits(), 0b000);
    assert_eq!(Scale::FsPm4_096v.into_bits(), 0b001);
    assert_eq!(Scale::FsPm2_048v.into_bits(), 0b010);
    assert_eq!(Scale::FsPm1_024v.into_bits(), 0b011);
    assert_eq!(Scale::FsPm0_512v.into_bits(), 0b100);
    assert_eq!(Scale::FsPm0_256v.into_bits(), 0b101);
    assert_eq!(Scale::FsPm6_144v.full_scale_millivolts(), 6144);
    assert_eq!(Scale::FsPm4_096v.full_scale_millivolts(), 4096);
    assert_eq!(Scale::FsPm2_048v.full_scale_millivolts(), 2048);
    assert_eq!(Scale::FsPm1_024v.full_scale_millivolts(), 1024);
    assert_eq!(Scale::FsPm0_512v.full_scale_millivolts(), 512);
    assert_eq!(Scale::FsPm0_256v.full_scale_millivolts(), 256);
}

#[test]
fn converter_starts_from_default_image() {
    let adc = ADS1115::new(0x48);
    assert_eq!(
        adc,
        ADS1115 {
            address: 0x48,
            conf_reg_msb: 0b01000100,
            conf_reg_lsb: 0b10000011,
            scale: Scale::FsPm2_048v
        }
    );
    assert_eq!(adc.update_config(), [CONFIG_REG_ADDR, 0b01000100, 0b10000011]);
    assert_eq!(CONVERSION_REG_ADDR, 0);
    assert_eq!(ADS1115::write_to_config_reg(0xAB, 0xCD), [1, 0xAB, 0xCD]);
}

#[test]
fn full_scale_replaces_gain_bits_only() {
    let mut adc = ADS1115::new(0x48);
    adc.set_full_scale(Scale::FsPm6_144v);
    assert_eq!(adc.conf_reg_msb, 0b01000000);
    assert_eq!(adc.scale, Scale::FsPm6_144v);
    adc.set_full_scale(Scale::FsPm0_256v);
    assert_eq!(adc.conf_reg_msb, 0b01001010);
    assert_eq!(adc.scale, Scale::FsPm0_256v);
    adc.set_full_scale(Scale::FsPm4_096v);
    assert_eq!(adc.conf_reg_msb, 0b01000010);
    assert_eq!(adc.conf_reg_lsb, 0b10000011);
    assert_eq!(adc.address, 0x48);
    let mut other = ADS1115 {
        address: 1,
        conf_reg_msb: 0b11111111,
        conf_reg_lsb: 0,
        scale: Scale::FsPm0_256v,
    };
    other.set_full_scale(Scale::FsPm1_024v);
    assert_eq!(other.conf_reg_msb, 0b11110111);
}

#[test]
fn channel_replaces_input_bits_only() {
    let mut adc = ADS1115::new(0x48);
    adc.set_channel(1);
    assert_eq!(adc.conf_reg_msb, 0b01010100);
    adc.set_channel(3);
    assert_eq!(adc.conf_reg_msb, 0b01110100);
    adc.set_channel(0);
    assert_eq!(adc.conf_reg_msb, 0b01000100);
    assert_eq!(adc.scale, Scale::FsPm2_048v);
    let mut other = ADS1115 {
        address: 1,
        conf_reg_msb: 0b10001111,
        conf_reg_lsb: 0,
        scale: Scale::FsPm0_256v,
    };
    other.set_channel(2);
    assert_eq!(other.conf_reg_msb, 0b11101111);
}

#[test]
fn read_back_is_checked() {
    let adc = ADS1115::new(0x48);
    assert_eq!(adc.check_config_reg(&[0b01000100, 0b10000011]), Ok(()));
    assert_eq!(adc.check_config_reg(&[0b11000100, 0b10000011]), Ok(()));
    assert_eq!(
        adc.check_config_reg(&[0b01000101, 0b10000011]),
        Err(ConfigError::ConfigWriteMismatch)
    );
    assert_eq!(
        adc.check_config_reg(&[0b01000100, 0b10000010]),
        Err(ConfigError::ConfigWriteMismatch)
    );
    assert_eq!(
        adc.check_config_reg(&[0b00000100, 0b10000011]),
        Err(ConfigError::ConfigWriteMismatch)
    );
    assert_eq!(adc.check_config_reg(&[0b01000100]), Err(ConfigError::BusError));
    assert_eq!(adc.check_config_reg(&[0b01000100, 0b10000011, 0]), Err(ConfigError::BusError));
}

#[test]
fn soil_probe_uses_four_volt_range() {
    let probe = SoilSensor::new(0x48);
    assert_eq!(probe.adc.scale, Scale::FsPm4_096v);
    assert_eq!(probe.adc.conf_reg_msb, 0b01000010);
    assert_eq!(probe.adc.conf_reg_lsb, 0b10000011);
    assert_eq!(probe.adc.scale.into_bits(), (probe.adc.conf_reg_msb >> 1) & 0b111);
    assert_eq!(probe.measure(0x9C, 0x54), -25516);
    assert_eq!(probe.measure(0x40, 0x00), 16384);
}
