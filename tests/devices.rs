use dlux::brightness::{
    settle_max, to_fraction, to_raw, Device, FeatureValue, Fraction, HardwareError, Transport, BRIGHTNESS_CODE,
};
use dlux::config::DeviceConfig;
use dlux::displays::{
    bind_displays, check_discovery, keep_answering, BrightnessOps, DiscoveryError, Displays, IdentityError,
};
use dlux::edid::DeviceInfo;
use dlux::edid::ParseError;
use dlux::matcher::{DeviceMatcher, Pattern};

struct Stub {
    value: u16,
    maximum: u16,
    probe_ok: bool,
    get_failures: usize,
    set_failures: usize,
    gets: usize,
    writes: Vec<(u8, u16)>,
    block: Option<Vec<u8>>,
}

impl Stub {
    fn new(maximum: u16) -> Stub {
        Stub {
            value: 30,
            maximum,
            probe_ok: true,
            get_failures: 0,
            set_failures: 0,
            gets: 0,
            writes: vec![],
            block: None,
        }
    }
}

impl Transport for Stub {
    fn get_feature(&mut self, code: u8) -> Result<FeatureValue, HardwareError> {
        assert_eq!(code, BRIGHTNESS_CODE);
        self.gets += 1;
        if !self.probe_ok || self.get_failures > 0 {
            self.get_failures = self.get_failures.saturating_sub(1);
            return Err(HardwareError);
        }
        Ok(FeatureValue { value: self.value, maximum: self.maximum })
    }

    fn set_feature(&mut self, code: u8, value: u16) -> Result<(), HardwareError> {
        if self.set_failures > 0 {
            self.set_failures -= 1;
            return Err(HardwareError);
        }
        self.writes.push((code, value));
        Ok(())
    }

    fn read_identity_block(&mut self) -> Result<Vec<u8>, HardwareError> {
        self.block.clone().ok_or(HardwareError)
    }
}

fn descriptor(tag: u8, text: &[u8]) -> Vec<u8> {
    let mut d = vec![0u8, 0, 0, tag, 0];
    d.extend_from_slice(text);
    while d.len() < 18 {
        d.push(b' ');
    }
    d
}

fn identity(mfg: [u8; 2], model: &[u8], serial: &[u8]) -> Vec<u8> {
    let mut b = vec![0u8; 128];
    b[8] = mfg[0];
    b[9] = mfg[1];
    b[54..72].copy_from_slice(&descriptor(0xFC, model));
    b[72..90].copy_from_slice(&descriptor(0xFF, serial));
    b
}

#[test]
fn raw_conversion_truncates() {
    assert_eq!(to_raw(50, 100), 50);
    assert_eq!(to_raw(29, 100), 29);
    assert_eq!(to_raw(33, 255), 84);
    assert_eq!(to_raw(100, 65535), 65535);
    assert_eq!(to_raw(200, 65535), 65535);
    assert_eq!(to_raw(0, 80), 0);
}

#[test]
fn idempotent_set() {
    let mut d = Device::new("dev".to_string(), Stub::new(200));
    let a = d.set_level(50).unwrap();
    let b = d.set_level(50).unwrap();
    assert_eq!(a, 100);
    assert_eq!(a, b);
}

#[test]
fn max_is_queried_once() {
    let mut d = Device::new("dev".to_string(), Stub::new(80));
    assert_eq!(d.max_brightness(), Ok(80));
    assert_eq!(d.max_brightness(), Ok(80));
    d.set_level(75).unwrap();
    assert_eq!(d.set_level(75), Ok(60));
}

#[test]
fn failed_max_query_propagates() {
    let mut stub = Stub::new(80);
    stub.get_failures = 1;
    let mut d = Device::new("dev".to_string(), stub);
    assert_eq!(d.max_brightness(), Err(HardwareError));
    assert_eq!(d.set_level(50), Ok(40));
}

#[test]
fn brightness_is_a_fraction_of_max() {
    let mut d = Device::new("dev".to_string(), Stub::new(120));
    assert_eq!(d.brightness(), Ok(Fraction { num: 30, den: 120 }));
    assert_eq!(d.name(), "dev");
}

#[test]
fn retry_until_set_succeeds() {
    let mut stub = Stub::new(100);
    stub.set_failures = 3;
    let mut d = Device::new("dev".to_string(), stub);
    let mut tries = 0;
    loop {
        tries += 1;
        if d.set_level(40).is_ok() {
            break;
        }
    }
    assert_eq!(tries, 4);
}

#[test]
fn discovery_outcomes() {
    assert_eq!(check_discovery(0, 0), Err(DiscoveryError::NoDevices));
    assert_eq!(check_discovery(3, 0), Err(DiscoveryError::NoCompatibleDevices(3)));
    assert_eq!(check_discovery(3, 1), Ok(()));
}

fn rules() -> Vec<DeviceConfig> {
    vec![
        DeviceConfig {
            matcher: DeviceMatcher { model: None, mfg: None, serial: Some("SN1".to_string()) },
            day_brightness: 90,
            night_brightness: 20,
        },
        DeviceConfig {
            matcher: DeviceMatcher { model: Some(Pattern::new("U27").unwrap()), mfg: None, serial: None },
            day_brightness: 70,
            night_brightness: 30,
        },
    ]
}

#[test]
fn displays_bind_first_matching_rule() {
    let mut a = Stub::new(100);
    a.block = Some(identity([0x10, 0xAC], b"DELL U2720Q", b"SN1"));
    let mut b = Stub::new(100);
    b.block = Some(identity([0x10, 0xAC], b"DELL U2720Q", b"SN2"));
    let mut c = Stub::new(100);
    c.block = Some(identity([0x10, 0xAC], b"DELL P2419H", b"SN3"));
    let mut dead = Stub::new(100);
    dead.probe_ok = false;
    let mut unreadable = Stub::new(100);
    unreadable.block = None;
    let found = vec![
        Device::new("a".to_string(), a),
        Device::new("b".to_string(), b),
        Device::new("c".to_string(), c),
        Device::new("dead".to_string(), dead),
        Device::new("unreadable".to_string(), unreadable),
    ];
    let mut ds = Displays::new(&rules(), found).unwrap();
    assert_eq!(ds.len(), 2);
    assert_eq!(ds.displays[0].rule, 0);
    assert_eq!(ds.displays[0].display_info().serial, "SN1");
    assert_eq!(ds.displays[1].rule, 1);
    assert_eq!(ds.displays[1].device.name(), "b");
    assert_eq!(ds.displays[0].apply_level(true), Ok(90));
    assert_eq!(ds.displays[1].apply_level(false), Ok(30));
    assert!(ds.displays[1].update_brightness(true).is_ok());
}

#[test]
fn displays_none_found() {
    let r = Displays::<Stub>::new(&rules(), vec![]);
    assert!(matches!(r, Err(DiscoveryError::NoDevices)));
}

#[test]
fn displays_none_compatible() {
    let mut dead = Stub::new(100);
    dead.probe_ok = false;
    let r = Displays::new(&rules(), vec![Device::new("dead".to_string(), dead)]);
    assert!(matches!(r, Err(DiscoveryError::NoCompatibleDevices(1))));
}

#[test]
fn healthy_device_unaffected_by_failing_one() {
    let mut bad = Stub::new(100);
    bad.set_failures = usize::MAX;
    bad.block = Some(identity([0x10, 0xAC], b"X", b"SN1"));
    let mut good = Stub::new(100);
    good.block = Some(identity([0x10, 0xAC], b"U2720Q", b"SN9"));
    let found = vec![Device::new("bad".to_string(), bad), Device::new("good".to_string(), good)];
    let mut ds = Displays::new(&rules(), found).unwrap();
    for _ in 0..5 {
        assert!(ds.displays[0].update_brightness(true).is_err());
    }
    assert_eq!(ds.displays[1].apply_level(true), Ok(70));
}

#[test]
fn device_display_info_outcomes() {
    let mut ok = Stub::new(100);
    ok.block = Some(identity([0x24, 0x4D], b"ThinkVision", b"V1"));
    let info = Device::new("ok".to_string(), ok).display_info().unwrap();
    assert_eq!(info.to_string(), "IBM ThinkVision (SN: V1)");

    let unreadable = Stub::new(100);
    assert!(matches!(
        Device::new("u".to_string(), unreadable).display_info(),
        Err(IdentityError::Read(HardwareError))
    ));

    let mut short = Stub::new(100);
    short.block = Some(vec![0u8; 64]);
    assert!(matches!(
        Device::new("s".to_string(), short).display_info(),
        Err(IdentityError::Parse(ParseError::Truncated))
    ));
}

#[test]
fn settle_max_steps() {
    let fv = FeatureValue { value: 10, maximum: 80 };
    assert_eq!(settle_max(Some(50), Ok(fv)), (Some(50), Ok(50)));
    assert_eq!(settle_max(Some(50), Err(HardwareError)), (Some(50), Ok(50)));
    assert_eq!(settle_max(None, Ok(fv)), (Some(80), Ok(80)));
    assert_eq!(settle_max(None, Err(HardwareError)), (None, Err(HardwareError)));
}

#[test]
fn fraction_steps() {
    let fv = FeatureValue { value: 10, maximum: 80 };
    assert_eq!(to_fraction(Ok(fv), Ok(40)), Ok(Fraction { num: 10, den: 40 }));
    assert_eq!(to_fraction(Err(HardwareError), Ok(40)), Err(HardwareError));
    assert_eq!(to_fraction(Ok(fv), Err(HardwareError)), Err(HardwareError));
}

#[test]
fn failed_max_query_writes_nothing() {
    let mut stub = Stub::new(80);
    stub.get_failures = 1;
    let mut d = Device::new("dev".to_string(), stub);
    assert_eq!(d.set_level(50), Err(HardwareError));
    assert_eq!(d.brightness(), Ok(Fraction { num: 30, den: 80 }));
}

#[test]
fn keep_answering_filters_in_order() {
    let probed = vec![
        (Device::new("a".to_string(), Stub::new(1)), Ok(())),
        (Device::new("b".to_string(), Stub::new(1)), Err(HardwareError)),
        (Device::new("c".to_string(), Stub::new(1)), Ok(())),
    ];
    let kept = keep_answering(probed).unwrap();
    let names: Vec<&str> = kept.iter().map(|d| d.name().as_str()).collect();
    assert_eq!(names, vec!["a", "c"]);

    let silent = vec![(Device::new("x".to_string(), Stub::new(1)), Err(HardwareError))];
    assert!(matches!(keep_answering(silent), Err(DiscoveryError::NoCompatibleDevices(1))));
    assert!(matches!(keep_answering::<Stub>(vec![]), Err(DiscoveryError::NoDevices)));
}

fn ident(model: &str, serial: &str) -> Result<DeviceInfo, IdentityError> {
    Ok(DeviceInfo { manufacturer: "DEL".to_string(), model: model.to_string(), serial: serial.to_string() })
}

#[test]
fn bind_displays_keeps_matches_in_order() {
    let ids = vec![
        (Device::new("a".to_string(), Stub::new(1)), ident("P2419H", "SN7")),
        (Device::new("b".to_string(), Stub::new(1)), Err(IdentityError::Parse(ParseError::Truncated))),
        (Device::new("c".to_string(), Stub::new(1)), ident("U2720Q", "SN1")),
        (Device::new("d".to_string(), Stub::new(1)), ident("U2721DE", "SN8")),
        (Device::new("e".to_string(), Stub::new(1)), Err(IdentityError::Read(HardwareError))),
    ];
    let ds = bind_displays(&rules(), ids);
    let got: Vec<(&str, usize, u16, u16)> = ds
        .iter()
        .map(|d| (d.device.name().as_str(), d.rule, d.day_brightness, d.night_brightness))
        .collect();
    assert_eq!(got, vec![("c", 0, 90, 20), ("d", 1, 70, 30)]);
}
