//! The device report of `sensors -j`, and the reading of the one CPU sensor
//! family that this library knows (the `k10temp` driver of Zen 2 processors).
use vstd::prelude::*;

use crate::sensors::CpuTemp;
use crate::text::{
    chars_eq, chars_of, first_where, lemma_first_where_none, lemma_first_where_some, occurs_here,
    starts_with, string_of,
};

verus! {

/// A value of the report: a number (the bit pattern of its `f64` value), an
/// object of named values in the report's order, or anything else.
#[derive(Debug)]
pub enum FieldValue {
    Number(u64),
    Object(Vec<(String, FieldValue)>),
    Other,
}

/// One device of the report: its adapter and its named values.
#[derive(Debug)]
pub struct Device {
    pub adapter: String,
    pub extra: Vec<(String, FieldValue)>,
}

/// The devices of the report, each under its identifier.
#[derive(Debug)]
pub struct Devices(pub Vec<(String, Device)>);

/// The eight readings of a Zen 2 processor.
#[derive(Clone, Copy, Debug, PartialEq, Eq, Structural)]
pub enum Zen2Field {
    Vcore,
    Vsoc,
    Icore,
    Isoc,
    Tdie,
    Tctl,
    Tccd1,
    Tccd2,
}

/// Why no Zen 2 reading could be taken from a report.
#[derive(Clone, Copy, Debug, PartialEq, Eq, Structural)]
pub enum Error {
    /// No device of the report belongs to the `k10temp` driver.
    UnsupportedCpuFamily,
    /// The CPU device lacks this reading, or it is not a number.
    MissingTelemetryField { field: Zen2Field },
}

impl Zen2Field {
    /// The name of the object that holds this reading.
    pub open spec fn outer(self) -> Seq<char> {
        match self {
            Zen2Field::Vcore => seq!['V', 'c', 'o', 'r', 'e'],
            Zen2Field::Vsoc => seq!['V', 's', 'o', 'c'],
            Zen2Field::Icore => seq!['I', 'c', 'o', 'r', 'e'],
            Zen2Field::Isoc => seq!['I', 's', 'o', 'c'],
            Zen2Field::Tdie => seq!['T', 'd', 'i', 'e'],
            Zen2Field::Tctl => seq!['T', 'c', 't', 'l'],
            Zen2Field::Tccd1 => seq!['T', 'c', 'c', 'd', '1'],
            Zen2Field::Tccd2 => seq!['T', 'c', 'c', 'd', '2'],
        }
    }

    /// The name of the reading inside that object.
    pub open spec fn inner(self) -> Seq<char> {
        match self {
            Zen2Field::Vcore => seq!['i', 'n', '0', '_', 'i', 'n', 'p', 'u', 't'],
            Zen2Field::Vsoc => seq!['i', 'n', '1', '_', 'i', 'n', 'p', 'u', 't'],
            Zen2Field::Icore => seq!['c', 'u', 'r', 'r', '1', '_', 'i', 'n', 'p', 'u', 't'],
            Zen2Field::Isoc => seq!['c', 'u', 'r', 'r', '2', '_', 'i', 'n', 'p', 'u', 't'],
            Zen2Field::Tdie => seq!['t', 'e', 'm', 'p', '1', '_', 'i', 'n', 'p', 'u', 't'],
            Zen2Field::Tctl => seq!['t', 'e', 'm', 'p', '2', '_', 'i', 'n', 'p', 'u', 't'],
            Zen2Field::Tccd1 => seq!['t', 'e', 'm', 'p', '3', '_', 'i', 'n', 'p', 'u', 't'],
            Zen2Field::Tccd2 => seq!['t', 'e', 'm', 'p', '4', '_', 'i', 'n', 'p', 'u', 't'],
        }
    }

    pub fn outer_chars(self) -> (r: Vec<char>)
        ensures
            r@ == self.outer(),
    {
        let r = match self {
            Zen2Field::Vcore => vec!['V', 'c', 'o', 'r', 'e'],
            Zen2Field::Vsoc => vec!['V', 's', 'o', 'c'],
            Zen2Field::Icore => vec!['I', 'c', 'o', 'r', 'e'],
            Zen2Field::Isoc => vec!['I', 's', 'o', 'c'],
            Zen2Field::Tdie => vec!['T', 'd', 'i', 'e'],
            Zen2Field::Tctl => vec!['T', 'c', 't', 'l'],
            Zen2Field::Tccd1 => vec!['T', 'c', 'c', 'd', '1'],
            Zen2Field::Tccd2 => vec!['T', 'c', 'c', 'd', '2'],
        };
        assert(r@ =~= self.outer());
        r
    }

    pub fn inner_chars(self) -> (r: Vec<char>)
        ensures
            r@ == self.inner(),
    {
        let r = match self {
            Zen2Field::Vcore => vec!['i', 'n', '0', '_', 'i', 'n', 'p', 'u', 't'],
            Zen2Field::Vsoc => vec!['i', 'n', '1', '_', 'i', 'n', 'p', 'u', 't'],
            Zen2Field::Icore => vec!['c', 'u', 'r', 'r', '1', '_', 'i', 'n', 'p', 'u', 't'],
            Zen2Field::Isoc => vec!['c', 'u', 'r', 'r', '2', '_', 'i', 'n', 'p', 'u', 't'],
            Zen2Field::Tdie => vec!['t', 'e', 'm', 'p', '1', '_', 'i', 'n', 'p', 'u', 't'],
            Zen2Field::Tctl => vec!['t', 'e', 'm', 'p', '2', '_', 'i', 'n', 'p', 'u', 't'],
            Zen2Field::Tccd1 => vec!['t', 'e', 'm', 'p', '3', '_', 'i', 'n', 'p', 'u', 't'],
            Zen2Field::Tccd2 => vec!['t', 'e', 'm', 'p', '4', '_', 'i', 'n', 'p', 'u', 't'],
        };
        assert(r@ =~= self.inner());
        r
    }

    /// The name of the object that holds this reading.
    pub fn outer_name(self) -> (r: String)
        ensures
            r@ == self.outer(),
    {
        string_of(self.outer_chars().as_slice())
    }

    /// The name of the reading inside that object.
    pub fn inner_name(self) -> (r: String)
        ensures
            r@ == self.inner(),
    {
        string_of(self.inner_chars().as_slice())
    }
}

/// The identifier prefix of the devices of the `k10temp` driver.
pub open spec fn cpu_prefix() -> Seq<char> {
    seq!['k', '1', '0', 't', 'e', 'm', 'p']
}

/// Whether the entry at `i` is named `key`.
pub open spec fn named_at(entries: Seq<(String, FieldValue)>, key: Seq<char>, i: int) -> bool {
    entries[i].0@ == key
}

/// The index of the first entry named `key`.
pub open spec fn key_index(entries: Seq<(String, FieldValue)>, key: Seq<char>) -> Option<int> {
    first_where(entries.len() as int, |i: int| named_at(entries, key, i))
}

/// The value under `key`: that of the first entry with that name.
pub open spec fn lookup(entries: Seq<(String, FieldValue)>, key: Seq<char>) -> Option<FieldValue> {
    match key_index(entries, key) {
        Some(i) => Some(entries[i].1),
        None => None,
    }
}

/// The index of the first device whose identifier starts with the prefix.
pub open spec fn cpu_device(ds: Seq<(String, Device)>) -> Option<int> {
    first_where(ds.len() as int, |i: int| starts_with(ds[i].0@, cpu_prefix()))
}

/// The number read for `f` on `d`: under `f.outer()`, an object whose value
/// under `f.inner()` is a number.
pub open spec fn field_value(d: Device, f: Zen2Field) -> Option<u64> {
    match lookup(d.extra@, f.outer()) {
        Some(FieldValue::Object(inner)) => match lookup(inner@, f.inner()) {
            Some(FieldValue::Number(b)) => Some(b),
            _ => None,
        },
        _ => None,
    }
}

/// The Zen 2 reading of a device, or the first of the eight readings, in the
/// order of the fields of `CpuTemp::Zen2`, that it lacks.
pub open spec fn zen2_of(d: Device) -> Result<CpuTemp, Error> {
    let missing = |f: Zen2Field| Err(Error::MissingTelemetryField { field: f });
    if field_value(d, Zen2Field::Vcore) is None {
        missing(Zen2Field::Vcore)
    } else if field_value(d, Zen2Field::Vsoc) is None {
        missing(Zen2Field::Vsoc)
    } else if field_value(d, Zen2Field::Icore) is None {
        missing(Zen2Field::Icore)
    } else if field_value(d, Zen2Field::Isoc) is None {
        missing(Zen2Field::Isoc)
    } else if field_value(d, Zen2Field::Tdie) is None {
        missing(Zen2Field::Tdie)
    } else if field_value(d, Zen2Field::Tctl) is None {
        missing(Zen2Field::Tctl)
    } else if field_value(d, Zen2Field::Tccd1) is None {
        missing(Zen2Field::Tccd1)
    } else if field_value(d, Zen2Field::Tccd2) is None {
        missing(Zen2Field::Tccd2)
    } else {
        Ok(zen2_reading(d))
    }
}

/// The eight numbers of `d`, read as they stand.
pub open spec fn zen2_reading(d: Device) -> CpuTemp {
    CpuTemp::Zen2 {
        voltage_core: field_value(d, Zen2Field::Vcore)->0,
        voltage_so_c: field_value(d, Zen2Field::Vsoc)->0,
        current_core: field_value(d, Zen2Field::Icore)->0,
        current_so_c: field_value(d, Zen2Field::Isoc)->0,
        temp_die: field_value(d, Zen2Field::Tdie)->0,
        temp_ctl: field_value(d, Zen2Field::Tctl)->0,
        temp_ccd1: field_value(d, Zen2Field::Tccd1)->0,
        temp_ccd2: field_value(d, Zen2Field::Tccd2)->0,
    }
}

/// What a report decodes to: the Zen 2 reading of its first `k10temp` device.
pub open spec fn decoded(ds: Devices) -> Result<CpuTemp, Error> {
    match cpu_device(ds.0@) {
        Some(i) => zen2_of(ds.0@[i].1),
        None => Err(Error::UnsupportedCpuFamily),
    }
}

proof fn lemma_lookup_some(entries: Seq<(String, FieldValue)>, key: Seq<char>, i: int)
    requires
        0 <= i < entries.len(),
        entries[i].0@ == key,
        forall|j: int| 0 <= j < i ==> (#[trigger] entries[j]).0@ != key,
    ensures
        lookup(entries, key) == Some(entries[i].1),
{
    lemma_first_where_some(entries.len() as int, |i: int| named_at(entries, key, i), i);
}

proof fn lemma_lookup_none(entries: Seq<(String, FieldValue)>, key: Seq<char>)
    requires
        forall|j: int| 0 <= j < entries.len() ==> (#[trigger] entries[j]).0@ != key,
    ensures
        lookup(entries, key) is None,
{
    lemma_first_where_none(entries.len() as int, |i: int| named_at(entries, key, i));
}

/// The value under `key` in `entries`.
pub fn lookup_value<'a>(entries: &'a Vec<(String, FieldValue)>, key: &Vec<char>) -> (r: Option<
    &'a FieldValue,
>)
    ensures
        match r {
            Some(v) => lookup(entries@, key@) == Some(*v),
            None => lookup(entries@, key@) is None,
        },
{
    let mut i: usize = 0;
    while i < entries.len()
        invariant
            i <= entries@.len(),
            forall|j: int| 0 <= j < i ==> (#[trigger] entries@[j]).0@ != key@,
        decreases entries@.len() - i,
    {
        let name = chars_of(entries[i].0.as_str());
        if chars_eq(&name, key) {
            proof {
                lemma_lookup_some(entries@, key@, i as int);
            }
            return Some(&entries[i].1);
        }
        i += 1;
    }
    proof {
        lemma_lookup_none(entries@, key@);
    }
    None
}

/// The number read for `f` on `d`.
pub fn field(d: &Device, f: Zen2Field) -> (r: Option<u64>)
    ensures
        r == field_value(*d, f),
{
    match lookup_value(&d.extra, &f.outer_chars()) {
        Some(FieldValue::Object(inner)) => match lookup_value(inner, &f.inner_chars()) {
            Some(FieldValue::Number(b)) => Some(*b),
            _ => None,
        },
        _ => None,
    }
}

/// The Zen 2 reading of a CPU device: its eight numbers as they stand, or the
/// first of them that it lacks.
pub fn parse_zen2(cpu: &Device) -> (r: Result<CpuTemp, Error>)
    ensures
        r == zen2_of(*cpu),
{
    let voltage_core = match field(cpu, Zen2Field::Vcore) {
        Some(v) => v,
        None => return Err(Error::MissingTelemetryField { field: Zen2Field::Vcore }),
    };
    let voltage_so_c = match field(cpu, Zen2Field::Vsoc) {
        Some(v) => v,
        None => return Err(Error::MissingTelemetryField { field: Zen2Field::Vsoc }),
    };
    let current_core = match field(cpu, Zen2Field::Icore) {
        Some(v) => v,
        None => return Err(Error::MissingTelemetryField { field: Zen2Field::Icore }),
    };
    let current_so_c = match field(cpu, Zen2Field::Isoc) {
        Some(v) => v,
        None => return Err(Error::MissingTelemetryField { field: Zen2Field::Isoc }),
    };
    let temp_die = match field(cpu, Zen2Field::Tdie) {
        Some(v) => v,
        None => return Err(Error::MissingTelemetryField { field: Zen2Field::Tdie }),
    };
    let temp_ctl = match field(cpu, Zen2Field::Tctl) {
        Some(v) => v,
        None => return Err(Error::MissingTelemetryField { field: Zen2Field::Tctl }),
    };
    let temp_ccd1 = match field(cpu, Zen2Field::Tccd1) {
        Some(v) => v,
        None => return Err(Error::MissingTelemetryField { field: Zen2Field::Tccd1 }),
    };
    let temp_ccd2 = match field(cpu, Zen2Field::Tccd2) {
        Some(v) => v,
        None => return Err(Error::MissingTelemetryField { field: Zen2Field::Tccd2 }),
    };
    Ok(
        CpuTemp::Zen2 {
            voltage_core,
            voltage_so_c,
            current_core,
            current_so_c,
            temp_die,
            temp_ctl,
            temp_ccd1,
            temp_ccd2,
        },
    )
}

proof fn lemma_cpu_device_some(ds: Seq<(String, Device)>, i: int)
    requires
        0 <= i < ds.len(),
        starts_with(ds[i].0@, cpu_prefix()),
        forall|j: int| 0 <= j < i ==> !starts_with((#[trigger] ds[j]).0@, cpu_prefix()),
    ensures
        cpu_device(ds) == Some(i),
{
    lemma_first_where_some(ds.len() as int, |i: int| starts_with(ds[i].0@, cpu_prefix()), i);
}

proof fn lemma_cpu_device_none(ds: Seq<(String, Device)>)
    requires
        forall|j: int| 0 <= j < ds.len() ==> !starts_with((#[trigger] ds[j]).0@, cpu_prefix()),
    ensures
        cpu_device(ds) is None,
{
    lemma_first_where_none(ds.len() as int, |i: int| starts_with(ds[i].0@, cpu_prefix()));
}

/// The index of the first device of the `k10temp` driver.
pub fn find_cpu(devices: &Devices) -> (r: Option<usize>)
    ensures
        match r {
            Some(i) => cpu_device(devices.0@) == Some(i as int),
            None => cpu_device(devices.0@) is None,
        },
{
    let prefix: Vec<char> = vec!['k', '1', '0', 't', 'e', 'm', 'p'];
    assert(prefix@ =~= cpu_prefix());
    let ds = &devices.0;
    let mut i: usize = 0;
    while i < ds.len()
        invariant
            prefix@ == cpu_prefix(),
            ds@ == devices.0@,
            i <= ds@.len(),
            forall|j: int| 0 <= j < i ==> !starts_with((#[trigger] ds@[j]).0@, cpu_prefix()),
        decreases ds@.len() - i,
    {
        let name = chars_of(ds[i].0.as_str());
        if occurs_here(&name, &prefix, 0) {
            proof {
                lemma_cpu_device_some(ds@, i as int);
            }
            return Some(i);
        }
        i += 1;
    }
    proof {
        lemma_cpu_device_none(ds@);
    }
    None
}

/// The Zen 2 reading of the report: that of its first device of the
/// `k10temp` driver; `UnsupportedCpuFamily` where it has none.
pub fn decode(devices: &Devices) -> (r: Result<CpuTemp, Error>)
    ensures
        r == decoded(*devices),
{
    match find_cpu(devices) {
        Some(i) => parse_zen2(&devices.0[i].1),
        None => Err(Error::UnsupportedCpuFamily),
    }
}

/// A report whose first `k10temp` device carries all eight readings as
/// numbers decodes to exactly those numbers.
pub proof fn lemma_decode_exact(ds: Devices, i: int)
    requires
        0 <= i < ds.0@.len(),
        starts_with(ds.0@[i].0@, cpu_prefix()),
        forall|j: int| 0 <= j < i ==> !starts_with((#[trigger] ds.0@[j]).0@, cpu_prefix()),
        forall|f: Zen2Field| #[trigger] field_value(ds.0@[i].1, f) is Some,
    ensures
        decoded(ds) == Ok::<CpuTemp, Error>(
            CpuTemp::Zen2 {
                voltage_core: field_value(ds.0@[i].1, Zen2Field::Vcore)->0,
                voltage_so_c: field_value(ds.0@[i].1, Zen2Field::Vsoc)->0,
                current_core: field_value(ds.0@[i].1, Zen2Field::Icore)->0,
                current_so_c: field_value(ds.0@[i].1, Zen2Field::Isoc)->0,
                temp_die: field_value(ds.0@[i].1, Zen2Field::Tdie)->0,
                temp_ctl: field_value(ds.0@[i].1, Zen2Field::Tctl)->0,
                temp_ccd1: field_value(ds.0@[i].1, Zen2Field::Tccd1)->0,
                temp_ccd2: field_value(ds.0@[i].1, Zen2Field::Tccd2)->0,
            },
        ),
{
    lemma_cpu_device_some(ds.0@, i);
    let d = ds.0@[i].1;
    assert(field_value(d, Zen2Field::Vcore) is Some);
    assert(field_value(d, Zen2Field::Vsoc) is Some);
    assert(field_value(d, Zen2Field::Icore) is Some);
    assert(field_value(d, Zen2Field::Isoc) is Some);
    assert(field_value(d, Zen2Field::Tdie) is Some);
    assert(field_value(d, Zen2Field::Tctl) is Some);
    assert(field_value(d, Zen2Field::Tccd1) is Some);
    assert(field_value(d, Zen2Field::Tccd2) is Some);
}

/// A report with no `k10temp` device decodes to `UnsupportedCpuFamily`.
pub proof fn lemma_decode_unsupported(ds: Devices)
    requires
        forall|j: int| 0 <= j < ds.0@.len() ==> !starts_with((#[trigger] ds.0@[j]).0@, cpu_prefix()),
    ensures
        decoded(ds) == Err::<CpuTemp, Error>(Error::UnsupportedCpuFamily),
{
    lemma_cpu_device_none(ds.0@);
}

/// A report whose first `k10temp` device lacks exactly one of the eight
/// readings decodes to `MissingTelemetryField` naming that reading.
pub proof fn lemma_decode_missing(ds: Devices, i: int, missing: Zen2Field)
    requires
        0 <= i < ds.0@.len(),
        starts_with(ds.0@[i].0@, cpu_prefix()),
        forall|j: int| 0 <= j < i ==> !starts_with((#[trigger] ds.0@[j]).0@, cpu_prefix()),
        field_value(ds.0@[i].1, missing) is None,
        forall|f: Zen2Field| f != missing ==> #[trigger] field_value(ds.0@[i].1, f) is Some,
    ensures
        decoded(ds) == Err::<CpuTemp, Error>(Error::MissingTelemetryField { field: missing }),
{
    lemma_cpu_device_some(ds.0@, i);
    let d = ds.0@[i].1;
    assert(missing != Zen2Field::Vcore ==> field_value(d, Zen2Field::Vcore) is Some);
    assert(missing != Zen2Field::Vsoc ==> field_value(d, Zen2Field::Vsoc) is Some);
    assert(missing != Zen2Field::Icore ==> field_value(d, Zen2Field::Icore) is Some);
    assert(missing != Zen2Field::Isoc ==> field_value(d, Zen2Field::Isoc) is Some);
    assert(missing != Zen2Field::Tdie ==> field_value(d, Zen2Field::Tdie) is Some);
    assert(missing != Zen2Field::Tctl ==> field_value(d, Zen2Field::Tctl) is Some);
    assert(missing != Zen2Field::Tccd1 ==> field_value(d, Zen2Field::Tccd1) is Some);
    assert(missing != Zen2Field::Tccd2 ==> field_value(d, Zen2Field::Tccd2) is Some);
}

} // verus!
