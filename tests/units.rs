use chrono::{TimeZone, Utc};
use mapper_lora::gps::latlon::{self, Degrees, Unit};
use mapper_lora::gps::time::{self, Timestamp};
use mapper_lora::gps::{altitude, hdop, speed};
use mapper_lora::lora_gw::{frequency, rssi, snr};
use mapper_lora::Decimal;
use rand::Rng;

fn at(year: i32, month: u32, day: u32, hour: u32, min: u32, sec: u32) -> Timestamp {
    let datetime = Utc
        .with_ymd_and_hms(year, month, day, hour, min, sec)
        .unwrap();
    Timestamp::from_unix_seconds(datetime.timestamp())
}

#[test]
fn time_to_lora_units() {
    let datetime = at(2023, 1, 1, 0, 0, 5);
    assert_eq!(time::to_lora_units(datetime), 5);
}

#[test]
fn time_from_lora_units() {
    let datetime = at(2023, 1, 1, 0, 0, 5);
    assert_eq!(time::from_lora_units(5), datetime);
}

#[test]
fn time_to_proto_units() {
    let datetime = at(2023, 1, 1, 0, 0, 5);
    assert_eq!(time::to_proto_units(datetime), 1672531205);
}

#[test]
fn time_from_proto_units() {
    let datetime = at(2023, 1, 1, 0, 0, 5);
    assert_eq!(time::from_proto_units(1672531205), datetime);
}

#[test]
fn time_reference_epoch_is_zero() {
    let datetime = at(2023, 1, 1, 0, 0, 0);
    assert_eq!(time::to_lora_units(datetime), 0);
    assert_eq!(time::from_lora_units(0), datetime);
}

#[test]
fn time_largest_frame_value_round_trips() {
    let largest: u32 = (1 << 30) - 1;
    let datetime = time::from_lora_units(largest);
    assert_eq!(datetime.seconds, time::REFERENCE + largest as i64);
    assert_eq!(time::to_lora_units(datetime), largest);
}

#[test]
fn time_unix_epoch_in_proto_units() {
    let datetime = at(1970, 1, 1, 0, 0, 0);
    assert_eq!(time::to_proto_units(datetime), 0);
    assert_eq!(time::from_proto_units(0), datetime);
}

#[test]
fn lat_constant() {
    assert_eq!(latlon::lat_offset().to_string(), "90.00000");
}

#[test]
fn lon_constant() {
    assert_eq!(latlon::lon_offset().to_string(), "180.00000");
}

#[test]
fn altitude_offset() {
    assert_eq!(altitude::altitude_offset().to_string(), "110.00");
}

#[test]
fn roundtrip_lat_lora() {
    let mut rng = rand::thread_rng();
    let random_lat = rng.gen_range(-90_00000..90_00000);
    let lat = Decimal::new(random_lat, 5);
    let units = latlon::to_lora_units(Degrees::Lat(lat));
    let degrees = latlon::from_lora_units(Unit::Lat(units));
    assert_eq!(lat, degrees);
}

#[test]
fn roundtrip_lon_lora() {
    let mut rng = rand::thread_rng();
    let random_lon = rng.gen_range(-180_00000..180_00000);
    let lon = Decimal::new(random_lon, 5);
    let units = latlon::to_lora_units(Degrees::Lon(lon));
    let degrees = latlon::from_lora_units(Unit::Lon(units));
    assert_eq!(lon, degrees);
}

#[test]
fn roundtrip_latlon_proto() {
    let mut rng = rand::thread_rng();
    let random_lat = rng.gen_range(-90_00000..90_00000);
    let lat = Decimal::new(random_lat, 5);
    let units = latlon::to_proto_units(lat);
    let degrees = latlon::from_proto_units(units);
    assert_eq!(lat, degrees);
}

#[test]
fn latlon_lora_units_exact_values() {
    assert_eq!(latlon::to_lora_units(Degrees::Lat(Decimal::new(-90_00000, 5))), 0);
    assert_eq!(latlon::to_lora_units(Degrees::Lat(Decimal::new(90_00000, 5))), 18000000);
    assert_eq!(latlon::to_lora_units(Degrees::Lon(Decimal::new(-180_00000, 5))), 0);
    assert_eq!(latlon::to_lora_units(Degrees::Lon(Decimal::new(180_00000, 5))), 36000000);
    assert_eq!(latlon::to_lora_units(Degrees::Lat(Decimal::new(-50_12345, 5))), 3987655);
    assert_eq!(latlon::to_lora_units(Degrees::Lat(Decimal::new(1, 0))), 9100000);
    assert_eq!(latlon::from_lora_units(Unit::Lon(0)).to_string(), "-180.00000");
}

#[test]
fn latlon_rounds_halves_away_from_zero() {
    // 0.000005 degrees is half a unit: away from zero on both sides.
    assert_eq!(latlon::to_proto_units(Decimal::new(5, 6)), 1);
    assert_eq!(latlon::to_proto_units(Decimal::new(-5, 6)), -1);
    assert_eq!(latlon::to_proto_units(Decimal::new(-4, 6)), 0);
    assert_eq!(latlon::to_proto_units(Decimal::new(15, 6)), 2);
    assert_eq!(latlon::to_proto_units(Decimal::new(25, 6)), 3);
}

#[test]
fn altitude_lower_limit_roundtrip_lora() {
    let altitude = Decimal::new(-110_00, 2);
    assert_eq!(altitude.to_string(), "-110.00");
    let units = altitude::to_lora_units(altitude);
    assert_eq!(0, units);
    let altitude = altitude::from_lora_units(units);
    assert_eq!(altitude.to_string(), "-110.00");
}

#[test]
fn altitude_zero_roundtrip_lora() {
    let altitude = Decimal::new(0, 2);
    assert_eq!(altitude.to_string(), "0.00");
    let units = altitude::to_lora_units(altitude);
    assert_eq!(110_00 / 25, units);
    let altitude = altitude::from_lora_units(units);
    assert_eq!(altitude.to_string(), "0.00");
}

#[test]
fn altitude_round_down_lora() {
    let altitude = Decimal::new(10_12, 2);
    assert_eq!(altitude.to_string(), "10.12");
    let altitude = altitude::from_lora_units(altitude::to_lora_units(altitude));
    assert_eq!(altitude.to_string(), "10.00");
}

#[test]
fn altitude_round_up_lora() {
    let altitude = Decimal::new(10_21, 2);
    assert_eq!(altitude.to_string(), "10.21");
    let altitude = altitude::from_lora_units(altitude::to_lora_units(altitude));
    assert_eq!(altitude.to_string(), "10.25");
}

#[test]
fn altitude_upper_end_and_proto_units() {
    assert_eq!(altitude::to_lora_units(Decimal::new(145_75, 2)), 1023);
    assert_eq!(altitude::to_proto_units(Decimal::new(-106_12, 2)), -10612);
    assert_eq!(altitude::from_proto_units(-10612).to_string(), "-106.12");
    // 0.125 m is half a quarter: it rounds away from zero.
    assert_eq!(altitude::to_lora_units(Decimal::new(-109_875, 3)), 1);
}

#[test]
fn speed_upper_limit_roundtrip_lora() {
    let speed = Decimal::new(80_00, 2);
    assert_eq!(speed.to_string(), "80.00");
    let units = speed::to_lora_units(speed);
    assert_eq!(80_00 / 25, units);
    let speed = speed::from_lora_units(units);
    assert_eq!(speed.to_string(), "80.00");
}

#[test]
fn speed_round_down_lora() {
    let altitude = Decimal::new(20_12, 2);
    assert_eq!(altitude.to_string(), "20.12");
    let altitude = speed::from_lora_units(speed::to_lora_units(altitude));
    assert_eq!(altitude.to_string(), "20.00");
}

#[test]
fn speed_round_up_lora() {
    let altitude = Decimal::new(20_13, 2);
    assert_eq!(altitude.to_string(), "20.13");
    let altitude = speed::from_lora_units(speed::to_lora_units(altitude));
    assert_eq!(altitude.to_string(), "20.25");
}

#[test]
fn speed_proto_units() {
    assert_eq!(speed::to_proto_units(Decimal::new(50_505, 3)), 5051);
    assert_eq!(speed::from_proto_units(5050).to_string(), "50.50");
    assert_eq!(speed::to_lora_units(Decimal::new(20_125, 3)), 81);
}

#[test]
fn hdop_units() {
    assert_eq!(hdop::to_units(Decimal::new(9_05, 2)), 905);
    assert_eq!(hdop::to_units(Decimal::new(9_999, 3)), 1000);
    assert_eq!(hdop::to_units(Decimal::new(1, 0)), 100);
    assert_eq!(hdop::from_units(905).to_string(), "9.05");
}

#[test]
fn gateway_units() {
    assert_eq!(snr::to_proto_units(Decimal::new(125, 1)), 125);
    assert_eq!(snr::to_proto_units(Decimal::new(1, 0)), 10);
    assert_eq!(snr::from_proto_units(125).to_string(), "12.5");
    assert_eq!(rssi::to_proto_units(Decimal::new(-1205, 1)), -12050);
    assert_eq!(rssi::from_proto_units(-12050).to_string(), "-120.50");
    assert_eq!(frequency::to_proto_units(Decimal::new(9041, 1)), 904100);
    assert_eq!(frequency::from_proto_units(904100).to_string(), "904.100");
}

#[test]
fn decimal_equality_by_value() {
    assert_eq!(Decimal::new(150, 2), Decimal::new(15, 1));
    assert_eq!(Decimal::new(0, 0), Decimal::new(0, 28));
    assert_ne!(Decimal::new(150, 2), Decimal::new(151, 2));
    assert_ne!(Decimal::new(1, 0), Decimal::new(1, 28));
    assert_eq!(Decimal::new(-5, 0), Decimal::new(-500000, 5));
}

#[test]
fn decimal_text() {
    assert_eq!(Decimal::new(-5012345, 5).to_string(), "-50.12345");
    assert_eq!(Decimal::new(7, 0).to_string(), "7");
    assert_eq!(Decimal::new(5, 3).to_string(), "0.005");
}
