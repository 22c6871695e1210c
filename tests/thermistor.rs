use bms_acquisition::{lut_ntu_cell_module_d, Thermistor};

fn ntc_d() -> Thermistor {
    Thermistor::new(3000, 10000, -20, 80, 1, 101, lut_ntu_cell_module_d())
}

#[test]
fn table_is_a_valid_calibration() {
    let lut = lut_ntu_cell_module_d();
    assert_eq!(lut.len(), 101);
    assert_eq!(lut[45], 10000);
    assert!(Thermistor::is_valid_calibration(3000, 10000, -20, 80, 1, 101, &lut));
}

#[test]
fn invalid_calibrations_are_refused() {
    let lut = lut_ntu_cell_module_d();
    // stored length differs from the table
    assert!(!Thermistor::is_valid_calibration(3000, 10000, -20, 80, 1, 100, &lut));
    // range does not match the table
    assert!(!Thermistor::is_valid_calibration(3000, 10000, -20, 81, 1, 101, &lut));
    // zero supply
    assert!(!Thermistor::is_valid_calibration(0, 10000, -20, 80, 1, 101, &lut));
    // table not strictly decreasing
    let flat = vec![300u32, 200, 200, 100];
    assert!(!Thermistor::is_valid_calibration(3000, 10000, 0, 3, 1, 4, &flat));
    let rising = vec![100u32, 200];
    assert!(!Thermistor::is_valid_calibration(3000, 10000, 0, 1, 1, 2, &rising));
    // tenths of the range would not fit
    let short = vec![200u32, 100];
    assert!(!Thermistor::is_valid_calibration(3000, 10000, 3276, 3277, 1, 2, &short));
    assert!(Thermistor::is_valid_calibration(3000, 10000, 3275, 3276, 1, 2, &short));
    // empty table
    assert!(!Thermistor::is_valid_calibration(3000, 10000, 0, 0, 1, 0, &Vec::new()));
}

#[test]
fn exact_lut_hit() {
    // ratio 0.5 of 3 V: the resistance equals the fixed 10 kOhm, entry 45
    assert_eq!(ntc_d().convert_volt_to_temp(15000), 250);
}

#[test]
fn zero_input_is_warm_end() {
    assert_eq!(ntc_d().convert_volt_to_temp(0), 800);
}

#[test]
fn saturation_is_cold_end() {
    assert_eq!(ntc_d().convert_volt_to_temp(29999), -200);
    // ratio one: unbounded resistance
    assert_eq!(ntc_d().convert_volt_to_temp(30000), -200);
}

#[test]
fn above_supply_is_warm_end() {
    assert_eq!(ntc_d().convert_volt_to_temp(40000), 800);
    assert_eq!(ntc_d().convert_volt_to_temp(u16::MAX), 800);
}

#[test]
fn interpolation_values() {
    let t = ntc_d();
    assert_eq!(t.convert_volt_to_temp(16000), 216);
    assert_eq!(t.convert_volt_to_temp(10000), 440);
    assert_eq!(t.convert_volt_to_temp(20000), 79);
    assert_eq!(t.convert_volt_to_temp(5000), 728);
    assert_eq!(t.convert_volt_to_temp(25000), -120);
}

#[test]
fn clamping_at_table_ends() {
    let t = ntc_d();
    // resistance 74865 and 74889.6 ohms: just below the first entry
    assert_eq!(t.convert_volt_to_temp(26466), -200);
    // resistance above the first entry
    assert_eq!(t.convert_volt_to_temp(26467), -200);
    assert_eq!(t.convert_volt_to_temp(28000), -200);
    // resistance at or below the last entry
    assert_eq!(t.convert_volt_to_temp(4191), 800);
    assert_eq!(t.convert_volt_to_temp(1234), 800);
}

#[test]
fn larger_resistance_never_reads_warmer() {
    let t = ntc_d();
    let mut prev = t.convert_volt_to_temp(0);
    let mut code: u16 = 1;
    while code < 30000 {
        let now = t.convert_volt_to_temp(code);
        assert!(now <= prev, "code {} reads {} after {}", code, now, prev);
        prev = now;
        code += 1;
    }
}

#[test]
fn single_entry_table() {
    let t = Thermistor::new(3000, 10000, 25, 25, 1, 1, vec![10000]);
    assert_eq!(t.convert_volt_to_temp(15000), 250);
    assert_eq!(t.convert_volt_to_temp(100), 250);
    assert_eq!(t.convert_volt_to_temp(29000), 250);
}

#[test]
fn coarse_table_rounds_to_nearest_tenth() {
    // steps of 5 degrees
    let t = Thermistor::new(3000, 10000, 0, 10, 5, 3, vec![20000, 5000, 1000]);
    // code 18000: resistance 18000 * 10000 / 12000 = 15000 ohms, between
    // entries 0 and 1: 0 + 5 * (1 - (15000 - 5000) / 15000) = 1.666 degrees
    assert_eq!(t.convert_volt_to_temp(18000), 17);
}
