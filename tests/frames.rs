use chrono::{TimeZone, Utc};
use mapper_lora::gps::time::Timestamp;
use mapper_lora::lora_payload::IntoFromLoraPayload;
use mapper_lora::{
    AttachCandidate, Beacon, CellAttach, CellAttachResult, CellScan, CellScanResult, Decimal,
    Error, Gps, Payload,
};

fn fix_2023() -> Timestamp {
    let datetime = Utc.with_ymd_and_hms(2023, 1, 1, 0, 0, 5).unwrap();
    Timestamp::from_unix_seconds(datetime.timestamp())
}

fn sample_beacon() -> Beacon {
    Beacon {
        gps: Gps {
            timestamp: fix_2023(),
            lat: Decimal::new(-50_12345, 5),
            lon: Decimal::new(120_12345, 5),
            hdop: Decimal::new(10_05, 2),
            altitude: Decimal::new(10_25, 2),
            num_sats: 5,
            speed: Decimal::new(50_50, 2),
        },
        signature: vec![0xAB, 0xCD],
    }
}

#[test]
fn beacon_payload_roundtrip_lora() {
    let payload = sample_beacon();
    let bytes = payload.clone().into_lora_bytes();
    let payload_returned = Beacon::from_lora_bytes(bytes).unwrap();
    assert_eq!(payload, payload_returned);
}

#[test]
fn beacon_frame_bytes() {
    // time 5, latitude 3987655, longitude 30012345, HDOP 1005, altitude 481,
    // speed 202, 5 satellites, tag 0xABCD, then six zero bits.
    let bytes = sample_beacon().into_lora_bytes();
    assert_eq!(
        bytes,
        [
            0x00, 0x00, 0x00, 0x14, 0x79, 0xb1, 0x8e, 0xe4, 0xf9, 0xdc, 0xfd, 0xaf, 0x0b, 0x29,
            0x6a, 0xf3, 0x40
        ]
    );
}

#[test]
fn beacon_keeps_first_two_signature_bytes() {
    let mut payload = sample_beacon();
    payload.signature = vec![0x12, 0x34, 0x56];
    let returned = Beacon::from_lora_bytes(payload.into_lora_bytes()).unwrap();
    assert_eq!(returned.signature, vec![0x12, 0x34]);
}

#[test]
fn beacon_extremes_round_trip() {
    let payload = Beacon {
        gps: Gps {
            timestamp: Timestamp::from_unix_seconds(mapper_lora::gps::time::REFERENCE + (1 << 30) - 1),
            lat: Decimal::new(90_00000, 5),
            lon: Decimal::new(-180_00000, 5),
            hdop: Decimal::new(10_23, 2),
            altitude: Decimal::new(-110_00, 2),
            num_sats: 15,
            speed: Decimal::new(80_00, 2),
        },
        signature: vec![0xFF, 0xFF],
    };
    let returned = Beacon::from_lora_bytes(payload.clone().into_lora_bytes()).unwrap();
    assert_eq!(payload, returned);
}

#[test]
fn gps_rounded_round_trips_in_beacon() {
    let payload = Beacon::new(Gps::rounded(), vec![1, 2]);
    let returned = Beacon::from_lora_bytes(payload.clone().into_lora_bytes()).unwrap();
    assert_eq!(payload, returned);
}

#[test]
fn gps_random_is_in_range() {
    for _ in 0..20 {
        let gps = Gps::random();
        assert!(gps.num_sats < 12);
        assert!(gps.hdop.mantissa() >= 0 && gps.hdop.mantissa() < 1000);
        assert_eq!(gps.timestamp, fix_2023());
    }
}

#[test]
fn gps_is_locked() {
    let mut gps = Gps::rounded();
    assert!(gps.is_locked());
    gps.num_sats = 2;
    assert!(!gps.is_locked());
    gps.num_sats = 3;
    gps.hdop = Decimal::new(0, 2);
    assert!(!gps.is_locked());
}

fn sample_attach(result: CellAttachResult) -> CellAttach {
    CellAttach {
        attach_counter: 5,
        gps: Gps::rounded(),
        candidate: AttachCandidate::from(CellScanResult::random()),
        result,
    }
}

#[test]
fn cell_attach_payload_roundtrip_lora() {
    let payload = sample_attach(CellAttachResult::Connected);
    let bytes = payload.into_lora_bytes();
    let payload_returned = CellAttach::from_lora_bytes(bytes).unwrap();
    assert_eq!(payload, payload_returned);
}

#[test]
fn cell_attach_every_result_round_trips() {
    for result in [
        CellAttachResult::NoAttach,
        CellAttachResult::Connected,
        CellAttachResult::LimitedService,
        CellAttachResult::NoConnection,
        CellAttachResult::Search,
        CellAttachResult::NoNetworkService,
    ] {
        let payload = sample_attach(result);
        let returned = CellAttach::from_lora_bytes(payload.into_lora_bytes()).unwrap();
        assert_eq!(payload, returned);
    }
}

#[test]
fn cell_attach_frame_layout() {
    let payload = CellAttach {
        attach_counter: 0xDEADBEEF,
        gps: Gps::rounded(),
        candidate: AttachCandidate {
            from_scan: 0,
            delay: 1023,
            cell_id: 0x01020304,
            fcn: 0xBEEF,
            rsrp: -150,
            rsrq: 225,
        },
        result: CellAttachResult::NoNetworkService,
    };
    let bytes = payload.into_lora_bytes();
    assert_eq!(
        bytes,
        [
            0x00, 0x00, 0x00, 0x14, 0x79, 0xb1, 0x8e, 0xe4, 0xf9, 0xdc, 0xf1, 0x2e, 0xeb, 0x29,
            0x77, 0xab, 0x6f, 0xbb, 0xc0, 0x00, 0x00, 0x00, 0x3f, 0xf0, 0x10, 0x20, 0x30, 0x4b,
            0xee, 0xf0, 0x0f, 0xfa
        ]
    );
    assert_eq!(CellAttach::from_lora_bytes(bytes).unwrap(), payload);
}

#[test]
fn cell_attach_reserved_slot_is_zero() {
    let mut payload = sample_attach(CellAttachResult::Search);
    payload.candidate.from_scan = 7;
    let mut zeroed = payload;
    zeroed.candidate.from_scan = 0;
    assert_eq!(payload.into_lora_bytes(), zeroed.into_lora_bytes());
    let returned = CellAttach::from_lora_bytes(payload.into_lora_bytes()).unwrap();
    assert_eq!(returned.candidate.from_scan, 0);
}

#[test]
fn cell_attach_invalid_result_ordinal() {
    let mut bytes = sample_attach(CellAttachResult::NoAttach).into_lora_bytes();
    // the result sits in bits 1..4 of the last byte
    bytes[31] = (bytes[31] & !0x0E) | (6 << 1);
    match CellAttach::from_lora_bytes(bytes) {
        Err(Error::InvalidAttachResultInt { value }) => assert_eq!(value, 6),
        other => panic!("unexpected {:?}", other),
    }
    bytes[31] |= 7 << 1;
    match CellAttach::from_lora_bytes(bytes) {
        Err(Error::InvalidAttachResultInt { value }) => assert_eq!(value, 7),
        other => panic!("unexpected {:?}", other),
    }
}

#[test]
fn attach_result_ordinals() {
    for value in 0..6 {
        let result = CellAttachResult::from_ordinal(value).unwrap();
        assert_eq!(result.to_ordinal() as i32, value);
    }
    for value in [6, 7, -1] {
        match CellAttachResult::from_ordinal(value) {
            Err(Error::InvalidAttachResultInt { value: v }) => assert_eq!(v, value),
            other => panic!("unexpected {:?}", other),
        }
    }
}

#[test]
fn attach_result_aliases() {
    let parse = |s: &str| s.parse::<CellAttachResult>();
    assert_eq!(parse("NONE").unwrap(), CellAttachResult::NoAttach);
    assert_eq!(parse("CONNECT").unwrap(), CellAttachResult::Connected);
    assert_eq!(parse("LIMSERV").unwrap(), CellAttachResult::LimitedService);
    assert_eq!(parse("NOCONN").unwrap(), CellAttachResult::NoConnection);
    assert_eq!(parse("SEARCH").unwrap(), CellAttachResult::Search);
    for token in ["connect", "", "NOSERV", "NONE "] {
        match parse(token) {
            Err(Error::UnexpectedAttachResultStr(s)) => assert_eq!(s, token),
            other => panic!("unexpected {:?}", other),
        }
    }
    assert!(!CellAttachResult::NoAttach.is_successful());
    assert!(CellAttachResult::Search.is_successful());
}

#[test]
fn candidate_from_scan_result_with_config() {
    let scan = CellScanResult {
        mcc: 315,
        mnc: 10,
        earfcn: 0x1_0005,
        physical_cell_id: 7,
        rsrp: -100,
        rsrq: -10,
        cell_id: 0x1_0000_0009,
        bandwidth: 20,
        lte: true,
    };
    let config = mapper_lora::AttachCandidateConfig { from_scan: 3, delay: 9 };
    let candidate = AttachCandidate::from_scan_result_with_config(scan, config);
    assert_eq!(
        candidate,
        AttachCandidate { from_scan: 3, delay: 9, cell_id: 9, fcn: 5, rsrp: -100, rsrq: -10 }
    );
}

#[test]
fn our_network() {
    let mut scan = CellScanResult::random();
    scan.mcc = 315;
    scan.mnc = 10;
    scan.cell_id = 0x0099D00;
    assert!(scan.is_our_network().unwrap());
    scan.cell_id = 0x00A00FF;
    assert!(scan.is_our_network().unwrap());
    scan.cell_id = 0x00A0100;
    assert!(!scan.is_our_network().unwrap());
    scan.cell_id = 0x0099CFF;
    assert!(!scan.is_our_network().unwrap());
    scan.cell_id = 0x0099D00;
    scan.mnc = 11;
    assert!(!scan.is_our_network().unwrap());
}

#[test]
fn scan_random_shape() {
    let scan = CellScan::random();
    assert_eq!(scan.scan_counter, 24);
    assert!(!scan.results.is_empty() && scan.results.len() < 40);
    assert_eq!(scan.gps, Gps::rounded());
}

#[test]
fn payload_from_frames() {
    let beacon = sample_beacon();
    assert_eq!(Payload::from(beacon.clone()), Payload::Beacon(beacon));
}
