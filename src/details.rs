//! The detail view of one display: what each read contributes, and which
//! failed reads count as errors. The reads themselves are made by the
//! caller, one per step, and handed in.

use vstd::prelude::*;
use crate::caps::{capabilities_of, parse_capabilities, Capabilities};
use crate::ddc::{DdcError, VcpReading};
use crate::edid::{decoded_as, decode_edid, edid_identity, header_valid, MonitorIdentity};
use crate::text::{hex_fixed, hex_fixed_bytes, lossy_text, text_of, trim_bounds, trim_spaces};

verus! {

/// Features read for the detail view, in order: brightness, contrast,
/// input source, volume, the three colour gains, backlight and power mode.
pub open spec fn detail_features() -> Seq<u8> {
    seq![0x10u8, 0x12u8, 0x60u8, 0x62u8, 0x16u8, 0x18u8, 0x1Au8, 0x13u8, 0xD6u8]
}

/// The DDC/CI reads the detail view makes of one display.
#[derive(Debug, Clone)]
pub struct DetailReads {
    /// Whether to read the capabilities string.
    pub capabilities: bool,
    /// The features to read, in order.
    pub features: Vec<u8>,
}

/// The DDC/CI reads for a display: the capabilities and every detail
/// feature when it answers DDC/CI, nothing otherwise.
pub fn detail_reads(supports_ddc: bool) -> (r: DetailReads)
    ensures
        r.capabilities == supports_ddc,
        supports_ddc ==> r.features@ == detail_features(),
        !supports_ddc ==> r.features@.len() == 0,
{
    if supports_ddc {
        let features: Vec<u8> = vec![0x10, 0x12, 0x60, 0x62, 0x16, 0x18, 0x1A, 0x13, 0xD6];
        assert(features@ =~= detail_features());
        DetailReads { capabilities: true, features }
    } else {
        DetailReads { capabilities: false, features: Vec::new() }
    }
}

/// Name of an input-source value of feature 0x60.
pub open spec fn input_source_spec(v: u8) -> Seq<u8> {
    if v == 0x0F {
        seq![
            'D' as u8, 'i' as u8, 's' as u8, 'p' as u8, 'l' as u8, 'a' as u8, 'y' as u8, 'P' as u8,
            'o' as u8, 'r' as u8, 't' as u8, '-' as u8, '1' as u8,
        ]
    } else if v == 0x11 {
        seq!['H' as u8, 'D' as u8, 'M' as u8, 'I' as u8, '-' as u8, '1' as u8]
    } else if v == 0x12 {
        seq!['H' as u8, 'D' as u8, 'M' as u8, 'I' as u8, '-' as u8, '2' as u8]
    } else {
        seq!['U' as u8, 'n' as u8, 'k' as u8, 'n' as u8, 'o' as u8, 'w' as u8, 'n' as u8]
    }
}

/// Name of an input-source value of feature 0x60.
pub fn input_source_name(v: u8) -> (r: String)
    ensures
        r@ == lossy_text(input_source_spec(v)),
{
    let b: Vec<u8> = if v == 0x0F {
        let t: Vec<u8> = vec![
            'D' as u8, 'i' as u8, 's' as u8, 'p' as u8, 'l' as u8, 'a' as u8, 'y' as u8, 'P' as u8,
            'o' as u8, 'r' as u8, 't' as u8, '-' as u8, '1' as u8,
        ];
        assert(t@ =~= seq![
            'D' as u8, 'i' as u8, 's' as u8, 'p' as u8, 'l' as u8, 'a' as u8, 'y' as u8, 'P' as u8,
            'o' as u8, 'r' as u8, 't' as u8, '-' as u8, '1' as u8,
        ]);
        t
    } else if v == 0x11 {
        let t: Vec<u8> = vec!['H' as u8, 'D' as u8, 'M' as u8, 'I' as u8, '-' as u8, '1' as u8];
        assert(t@ =~= seq!['H' as u8, 'D' as u8, 'M' as u8, 'I' as u8, '-' as u8, '1' as u8]);
        t
    } else if v == 0x12 {
        let t: Vec<u8> = vec!['H' as u8, 'D' as u8, 'M' as u8, 'I' as u8, '-' as u8, '2' as u8];
        assert(t@ =~= seq!['H' as u8, 'D' as u8, 'M' as u8, 'I' as u8, '-' as u8, '2' as u8]);
        t
    } else {
        let t: Vec<u8> = vec!['U' as u8, 'n' as u8, 'k' as u8, 'n' as u8, 'o' as u8, 'w' as u8, 'n' as u8];
        assert(t@ =~= seq!['U' as u8, 'n' as u8, 'k' as u8, 'n' as u8, 'o' as u8, 'w' as u8, 'n' as u8]);
        t
    };
    text_of(b.as_slice())
}

/// Name of a power-mode value of feature 0xD6.
pub open spec fn power_state_spec(v: u8) -> Seq<u8> {
    if v == 0x01 {
        seq!['O' as u8, 'n' as u8]
    } else if v == 0x02 {
        seq!['S' as u8, 't' as u8, 'a' as u8, 'n' as u8, 'd' as u8, 'b' as u8, 'y' as u8]
    } else if v == 0x03 {
        seq!['S' as u8, 'u' as u8, 's' as u8, 'p' as u8, 'e' as u8, 'n' as u8, 'd' as u8]
    } else if v == 0x04 {
        seq![
            'O' as u8, 'f' as u8, 'f' as u8, ' ' as u8, '(' as u8, 'S' as u8, 'o' as u8, 'f' as u8,
            't' as u8, ')' as u8,
        ]
    } else if v == 0x05 {
        seq![
            'O' as u8, 'f' as u8, 'f' as u8, ' ' as u8, '(' as u8, 'H' as u8, 'a' as u8, 'r' as u8,
            'd' as u8, ')' as u8,
        ]
    } else {
        seq!['U' as u8, 'n' as u8, 'k' as u8, 'n' as u8, 'o' as u8, 'w' as u8, 'n' as u8]
    }
}

/// Name of a power-mode value of feature 0xD6.
fn power_state_bytes(v: u8) -> (r: Vec<u8>)
    ensures
        r@ == power_state_spec(v),
{
    let b: Vec<u8> = if v == 0x01 {
        let t: Vec<u8> = vec!['O' as u8, 'n' as u8];
        assert(t@ =~= seq!['O' as u8, 'n' as u8]);
        t
    } else if v == 0x02 {
        let t: Vec<u8> = vec!['S' as u8, 't' as u8, 'a' as u8, 'n' as u8, 'd' as u8, 'b' as u8, 'y' as u8];
        assert(t@ =~= seq!['S' as u8, 't' as u8, 'a' as u8, 'n' as u8, 'd' as u8, 'b' as u8, 'y' as u8]);
        t
    } else if v == 0x03 {
        let t: Vec<u8> = vec!['S' as u8, 'u' as u8, 's' as u8, 'p' as u8, 'e' as u8, 'n' as u8, 'd' as u8];
        assert(t@ =~= seq!['S' as u8, 'u' as u8, 's' as u8, 'p' as u8, 'e' as u8, 'n' as u8, 'd' as u8]);
        t
    } else if v == 0x04 {
        let t: Vec<u8> = vec![
            'O' as u8, 'f' as u8, 'f' as u8, ' ' as u8, '(' as u8, 'S' as u8, 'o' as u8, 'f' as u8,
            't' as u8, ')' as u8,
        ];
        assert(t@ =~= seq![
            'O' as u8, 'f' as u8, 'f' as u8, ' ' as u8, '(' as u8, 'S' as u8, 'o' as u8, 'f' as u8,
            't' as u8, ')' as u8,
        ]);
        t
    } else if v == 0x05 {
        let t: Vec<u8> = vec![
            'O' as u8, 'f' as u8, 'f' as u8, ' ' as u8, '(' as u8, 'H' as u8, 'a' as u8, 'r' as u8,
            'd' as u8, ')' as u8,
        ];
        assert(t@ =~= seq![
            'O' as u8, 'f' as u8, 'f' as u8, ' ' as u8, '(' as u8, 'H' as u8, 'a' as u8, 'r' as u8,
            'd' as u8, ')' as u8,
        ]);
        t
    } else {
        let t: Vec<u8> = vec!['U' as u8, 'n' as u8, 'k' as u8, 'n' as u8, 'o' as u8, 'w' as u8, 'n' as u8];
        assert(t@ =~= seq!['U' as u8, 'n' as u8, 'k' as u8, 'n' as u8, 'o' as u8, 'w' as u8, 'n' as u8]);
        t
    };
    b
}

/// Name of a power-mode value of feature 0xD6.
pub fn power_state_name(v: u8) -> (r: String)
    ensures
        r@ == lossy_text(power_state_spec(v)),
{
    let b = power_state_bytes(v);
    text_of(b.as_slice())
}

/// Whether the video input definition byte declares a digital input.
pub fn is_digital_input(b: u8) -> (r: bool)
    ensures
        r == (b >= 0x80),
{
    b >= 0x80
}

/// Everything gathered about one display.
#[derive(Debug)]
pub struct MonitorDetails {
    pub i2c_bus: u8,
    pub identity: Option<MonitorIdentity>,
    pub capabilities: Option<Capabilities>,
    /// The capabilities string as the monitor sent it, cleaned.
    pub capabilities_text: Option<String>,
    pub brightness: Option<VcpReading>,
    pub contrast: Option<VcpReading>,
    pub input_source: Option<u8>,
    pub volume: Option<VcpReading>,
    pub red_gain: Option<u8>,
    pub green_gain: Option<u8>,
    pub blue_gain: Option<u8>,
    pub backlight: Option<u8>,
    pub power_state: Option<u8>,
    /// The EDID block the identity was decoded from.
    pub edid: Option<Vec<u8>>,
    pub drm_connector: Option<String>,
    /// Kernel module driving the adapter.
    pub driver: Option<String>,
    /// Sysfs path of the adapter's PCI device.
    pub pci_path: Option<String>,
    /// PCI vendor and device ID, as `vendor:device`.
    pub pci_id: Option<String>,
    /// The connector's DPMS state, trimmed.
    pub dpms: Option<Vec<u8>>,
    pub read_errors: u32,
}

/// `d` with reading `v` of feature `code` in the field of that feature;
/// a feature without a field leaves `d` as it is.
pub open spec fn with_reading(d: MonitorDetails, code: u8, v: VcpReading) -> MonitorDetails {
    if code == 0x10 {
        MonitorDetails { brightness: Some(v), ..d }
    } else if code == 0x12 {
        MonitorDetails { contrast: Some(v), ..d }
    } else if code == 0x60 {
        MonitorDetails { input_source: Some(v.current), ..d }
    } else if code == 0x62 {
        MonitorDetails { volume: Some(v), ..d }
    } else if code == 0x16 {
        MonitorDetails { red_gain: Some(v.current), ..d }
    } else if code == 0x18 {
        MonitorDetails { green_gain: Some(v.current), ..d }
    } else if code == 0x1A {
        MonitorDetails { blue_gain: Some(v.current), ..d }
    } else if code == 0x13 {
        MonitorDetails { backlight: Some(v.current), ..d }
    } else if code == 0xD6 {
        MonitorDetails { power_state: Some(v.current), ..d }
    } else {
        d
    }
}

/// A failed read of `code` counts as an error; brightness, contrast and
/// input source are optional features and do not.
pub open spec fn failure_counts(code: u8) -> bool {
    code != 0x10 && code != 0x12 && code != 0x60
}

impl MonitorDetails {
    /// Details of bus `i2c_bus` before any read.
    pub fn new(i2c_bus: u8) -> (r: MonitorDetails)
        ensures
            r.i2c_bus == i2c_bus,
            r.identity is None,
            r.capabilities is None && r.capabilities_text is None,
            r.brightness is None && r.contrast is None && r.input_source is None && r.volume is None,
            r.red_gain is None && r.green_gain is None && r.blue_gain is None,
            r.backlight is None && r.power_state is None,
            r.edid is None && r.drm_connector is None && r.driver is None,
            r.pci_path is None && r.pci_id is None && r.dpms is None,
            r.read_errors == 0,
    {
        MonitorDetails {
            i2c_bus,
            identity: None,
            capabilities: None,
            capabilities_text: None,
            brightness: None,
            contrast: None,
            input_source: None,
            volume: None,
            red_gain: None,
            green_gain: None,
            blue_gain: None,
            backlight: None,
            power_state: None,
            edid: None,
            drm_connector: None,
            driver: None,
            pci_path: None,
            pci_id: None,
            dpms: None,
            read_errors: 0,
        }
    }

    /// Takes in an EDID read from the bus; one that does not decode leaves
    /// the identity as it was.
    pub fn record_edid(&mut self, edid: &[u8])
        ensures
            header_valid(edid@) ==> final(self).identity is Some && final(self).identity->Some_0@
                == edid_identity(edid@) && final(self).edid is Some && final(self).edid->Some_0@ == edid@,
            header_valid(edid@) ==> *final(self) == (MonitorDetails {
                identity: final(self).identity,
                edid: final(self).edid,
                ..*old(self)
            }),
            !header_valid(edid@) ==> *final(self) == *old(self),
    {
        match decode_edid(edid) {
            Ok(id) => {
                self.identity = Some(id);
                self.edid = Some(vstd::slice::slice_to_vec(edid));
            },
            Err(_) => {},
        }
    }

    /// Takes in the result of a capabilities read; a failure is an error.
    pub fn record_capabilities(&mut self, result: Result<Vec<u8>, DdcError>)
        ensures
            result is Ok ==> final(self).capabilities is Some && capabilities_of(
                final(self).capabilities->Some_0,
                result->Ok_0@,
            ),
            result is Ok ==> crate::text::opt_text(final(self).capabilities_text) == Some(
                lossy_text(result->Ok_0@),
            ) && decoded_as(final(self).capabilities_text, Some(result->Ok_0@)),
            result is Ok ==> *final(self) == (MonitorDetails {
                capabilities: final(self).capabilities,
                capabilities_text: final(self).capabilities_text,
                ..*old(self)
            }),
            result is Err ==> *final(self) == (MonitorDetails {
                read_errors: add_errors(old(self).read_errors, 1),
                ..*old(self)
            }),
    {
        match result {
            Ok(text) => {
                self.capabilities = Some(parse_capabilities(text.as_slice()));
                self.capabilities_text = Some(text_of(text.as_slice()));
            },
            Err(_) => {
                self.count_error();
            },
        }
    }

    /// Counts one failed read, saturating.
    pub fn count_error(&mut self)
        ensures
            *final(self) == (MonitorDetails { read_errors: add_errors(old(self).read_errors, 1), ..*old(self) }),
    {
        if self.read_errors < u32::MAX {
            self.read_errors = self.read_errors + 1;
        }
    }

    /// Takes in the result of reading feature `code`: a reading fills the
    /// field of that feature, a failure of a feature that is not optional
    /// counts as an error.
    pub fn record_vcp(&mut self, code: u8, result: Result<VcpReading, DdcError>)
        ensures
            result is Ok ==> *final(self) == with_reading(*old(self), code, result->Ok_0),
            result is Err && failure_counts(code) ==> *final(self) == (MonitorDetails {
                read_errors: add_errors(old(self).read_errors, 1),
                ..*old(self)
            }),
            result is Err && !failure_counts(code) ==> *final(self) == *old(self),
    {
        match result {
            Ok(v) => {
                if code == 0x10 {
                    self.brightness = Some(v);
                } else if code == 0x12 {
                    self.contrast = Some(v);
                } else if code == 0x60 {
                    self.input_source = Some(v.current);
                } else if code == 0x62 {
                    self.volume = Some(v);
                } else if code == 0x16 {
                    self.red_gain = Some(v.current);
                } else if code == 0x18 {
                    self.green_gain = Some(v.current);
                } else if code == 0x1A {
                    self.blue_gain = Some(v.current);
                } else if code == 0x13 {
                    self.backlight = Some(v.current);
                } else if code == 0xD6 {
                    self.power_state = Some(v.current);
                }
            },
            Err(_) => {
                if code != 0x10 && code != 0x12 && code != 0x60 && self.read_errors < u32::MAX {
                    self.read_errors = self.read_errors + 1;
                }
            },
        }
    }
}


/// `a` plus `n`, saturating.
pub open spec fn add_errors(a: u32, n: nat) -> u32 {
    if a + n > u32::MAX {
        u32::MAX
    } else {
        (a + n) as u32
    }
}

/// `/sys/devices`
pub open spec fn sys_devices() -> Seq<u8> {
    seq!['/' as u8, 's' as u8, 'y' as u8, 's' as u8, '/' as u8, 'd' as u8, 'e' as u8, 'v' as u8, 'i' as u8, 'c' as u8, 'e' as u8, 's' as u8]
}

/// `DPMS: `
pub open spec fn dpms_prefix() -> Seq<u8> {
    seq!['D' as u8, 'P' as u8, 'M' as u8, 'S' as u8, ':' as u8, ' ' as u8]
}

/// Label of the power state: the feature 0xD6 value with its name and
/// hex code, else the DPMS state.
pub open spec fn power_label(power_state: Option<u8>, dpms: Option<Seq<u8>>) -> Option<Seq<u8>> {
    match power_state {
        Some(v) => Some(power_state_spec(v) + seq![' ' as u8, '(' as u8, '0' as u8, 'x' as u8] + hex_fixed(v as nat, 2) + seq![')' as u8]),
        None => match dpms {
            Some(t) => Some(dpms_prefix() + t),
            None => None,
        },
    }
}

fn trimmed(b: &[u8]) -> (r: Vec<u8>)
    ensures
        r@ == trim_spaces(b@),
{
    let (lo, hi) = trim_bounds(b);
    vstd::slice::slice_to_vec(&b[lo..hi])
}

impl MonitorDetails {
    /// Takes in what the system reports about the display's connector: a
    /// missing connector is an error, and so is each of the driver and the
    /// PCI path that could not be read. `pci_link` is the target of the
    /// adapter's device link, `pci_ids` its vendor and device ID files.
    pub fn record_system(
        &mut self,
        connector: Option<&[u8]>,
        driver: Option<&[u8]>,
        pci_link: Option<&[u8]>,
        pci_ids: Option<(&[u8], &[u8])>,
        dpms: Option<&[u8]>,
    )
        ensures
            connector is None ==> *final(self) == (MonitorDetails {
                read_errors: add_errors(old(self).read_errors, 1),
                ..*old(self)
            }),
            connector is Some ==> *final(self) == (MonitorDetails {
                drm_connector: final(self).drm_connector,
                driver: final(self).driver,
                pci_path: final(self).pci_path,
                pci_id: final(self).pci_id,
                dpms: final(self).dpms,
                read_errors: final(self).read_errors,
                ..*old(self)
            }),
            connector matches Some(c) ==> {
                &&& crate::text::opt_text(final(self).drm_connector) == Some(lossy_text(c@))
                &&& crate::text::opt_text(final(self).driver) == match driver {
                    Some(d) => Some(lossy_text(trim_spaces(d@))),
                    None => None,
                }
                &&& crate::text::opt_text(final(self).pci_path) == match pci_link {
                    Some(l) => Some(lossy_text(sys_devices() + l@)),
                    None => None,
                }
                &&& crate::text::opt_text(final(self).pci_id) == match pci_ids {
                    Some((v, d)) => Some(lossy_text(trim_spaces(v@) + seq![':' as u8] + trim_spaces(d@))),
                    None => None,
                }
                &&& crate::text::opt_bytes(final(self).dpms) == match dpms {
                    Some(x) => Some(trim_spaces(x@)),
                    None => None,
                }
                &&& final(self).read_errors == add_errors(
                    old(self).read_errors,
                    (if driver is None { 1nat } else { 0nat }) + (if pci_link is None { 1nat } else { 0nat }),
                )
            },
    {
        let c = match connector {
            Some(c) => c,
            None => {
                self.count_error();
                return;
            },
        };
        let ghost start = self.read_errors;
        self.drm_connector = Some(text_of(c));
        self.driver = match driver {
            Some(d) => Some(text_of(trimmed(d).as_slice())),
            None => {
                self.count_error();
                None
            },
        };
        self.pci_path = match pci_link {
            Some(l) => {
                let mut p: Vec<u8> = vec!['/' as u8, 's' as u8, 'y' as u8, 's' as u8, '/' as u8, 'd' as u8, 'e' as u8, 'v' as u8, 'i' as u8, 'c' as u8, 'e' as u8, 's' as u8];
                assert(p@ =~= sys_devices());
                let mut t = vstd::slice::slice_to_vec(l);
                p.append(&mut t);
                Some(text_of(p.as_slice()))
            },
            None => {
                self.count_error();
                None
            },
        };
        self.pci_id = match pci_ids {
            Some((v, d)) => {
                let mut p = trimmed(v);
                p.push(':' as u8);
                let mut t = trimmed(d);
                p.append(&mut t);
                assert(p@ =~= trim_spaces(v@) + seq![':' as u8] + trim_spaces(d@));
                Some(text_of(p.as_slice()))
            },
            None => None,
        };
        self.dpms = match dpms {
            Some(x) => Some(trimmed(x)),
            None => None,
        };
        proof {
            let n: nat = (if driver is None { 1nat } else { 0nat }) + (if pci_link is None { 1nat } else { 0nat });
            assert(self.read_errors == add_errors(start, n));
        }
    }

    /// The model: the EDID's monitor name, else the one the capabilities
    /// string gives.
    pub fn model_name(&self) -> (r: Option<String>)
        ensures
            crate::text::opt_text(r) == match self.identity {
                Some(id) => match id.model {
                    Some(m) => Some(m@),
                    None => match self.capabilities {
                        Some(c) => crate::text::opt_text(c.model),
                        None => None,
                    },
                },
                None => match self.capabilities {
                    Some(c) => crate::text::opt_text(c.model),
                    None => None,
                },
            },
    {
        match &self.identity {
            Some(id) => match &id.model {
                Some(m) => {
                    return Some(m.clone());
                },
                None => {},
            },
            None => {},
        }
        match &self.capabilities {
            Some(c) => match &c.model {
                Some(m) => Some(m.clone()),
                None => None,
            },
            None => None,
        }
    }

    /// The power state for people: the feature 0xD6 value with its name and
    /// hex code, else the DPMS state.
    pub fn power_state_label(&self) -> (r: Option<String>)
        ensures
            crate::text::opt_text(r) == match power_label(self.power_state, crate::text::opt_bytes(self.dpms)) {
                Some(t) => Some(lossy_text(t)),
                None => None,
            },
    {
        match self.power_state {
            Some(v) => {
                let mut t = power_state_bytes(v);
                let mut mid: Vec<u8> = vec![' ' as u8, '(' as u8, '0' as u8, 'x' as u8];
                t.append(&mut mid);
                let mut h = hex_fixed_bytes(v as u32, 2);
                t.append(&mut h);
                t.push(')' as u8);
                assert(t@ =~= power_label(self.power_state, crate::text::opt_bytes(self.dpms))->Some_0);
                Some(text_of(t.as_slice()))
            },
            None => match &self.dpms {
                Some(x) => {
                    let mut t: Vec<u8> = vec!['D' as u8, 'P' as u8, 'M' as u8, 'S' as u8, ':' as u8, ' ' as u8];
                    let mut y = vstd::slice::slice_to_vec(x.as_slice());
                    t.append(&mut y);
                    assert(t@ =~= power_label(self.power_state, crate::text::opt_bytes(self.dpms))->Some_0);
                    Some(text_of(t.as_slice()))
                },
                None => None,
            },
        }
    }
}

} // verus!
