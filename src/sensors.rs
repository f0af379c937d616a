//! The snapshot of CPU telemetry and the steps that build it.
use std::io::Error as IoError;
use std::sync::Arc;
use vstd::prelude::*;

use crate::cpu_info;
use crate::json::{self, decode, decoded, Devices};

verus! {

/// One core: its clock frequency in MHz, as the bit pattern of an `f64`.
#[derive(Clone, Copy, Debug, PartialEq, Eq, Structural)]
pub struct CpuCore {
    pub freq: u64,
}

/// The temperatures, voltages and currents of the CPU, each as the bit
/// pattern of an `f64` in the unit of its sensor (V, A, degrees Celsius).
#[derive(Clone, Copy, Debug, PartialEq, Eq, Structural)]
pub enum CpuTemp {
    Zen2 {
        voltage_core: u64,
        voltage_so_c: u64,
        current_core: u64,
        current_so_c: u64,
        temp_die: u64,
        temp_ctl: u64,
        temp_ccd1: u64,
        temp_ccd2: u64,
    },
}

/// What the CPU reported: its cores in discovery order and its sensors.
#[derive(Clone, Debug)]
pub struct Cpu {
    pub cores: Vec<CpuCore>,
    pub temp: CpuTemp,
}

/// Readings of a graphics card; none are taken yet.
#[derive(Clone, Debug)]
pub struct Graphics {}

/// Readings of another device; none are taken yet.
#[derive(Clone, Debug)]
pub struct Generic {}

/// One complete snapshot of the readings.
#[derive(Clone, Debug)]
pub struct Sensors {
    pub cpu: Option<Cpu>,
    pub graphics: Option<Graphics>,
    pub others: Vec<Generic>,
}

impl Default for Sensors {
    fn default() -> (r: Sensors)
        ensures
            r.cpu is None,
            r.graphics is None,
            r.others@.len() == 0,
    {
        Sensors { cpu: None, graphics: None, others: Vec::new() }
    }
}

/// The program that reports the sensors, and its argument asking for JSON.
pub const SENSORS_PROGRAM: &'static str = "sensors";

pub const SENSORS_ARG: &'static str = "-j";

/// The command line, as errors name it.
pub const SENSORS_COMMAND: &'static str = "sensors -j";

/// What running the sensors program gave: whether it exited with success,
/// and its standard output.
#[derive(Clone, Debug)]
pub struct CommandOutput {
    pub success: bool,
    pub stdout: Vec<u8>,
}

/// Why a snapshot could not be taken.
#[derive(Clone, Debug)]
pub enum Error {
    /// The sensors program could not be started.
    SpawnCommand { cmd: &'static str, source: Arc<IoError> },
    /// The sensors program exited with a failure status.
    SensorsCmdFailed,
    /// Its output is not a report of devices; the decoder's message.
    CannotParseSensorsJson { message: String },
    /// The report holds no usable CPU reading.
    ReadJsonSensorData { source: json::Error },
    /// The per-core frequencies could not be read.
    CpuInfoFailure { source: cpu_info::Error },
}

impl Sensors {
    /// The output of the sensors program to decode: its standard output where
    /// it ran and succeeded.
    pub fn command_output(outcome: Result<CommandOutput, Arc<IoError>>) -> (r: Result<
        Vec<u8>,
        Error,
    >)
        ensures
            match outcome {
                Err(e) => r matches Err(Error::SpawnCommand { cmd, source }) && source == e
                    && cmd == SENSORS_COMMAND,
                Ok(o) => if o.success {
                    r matches Ok(out) && out@ == o.stdout@
                } else {
                    r matches Err(Error::SensorsCmdFailed)
                },
            },
    {
        match outcome {
            Err(e) => Err(Error::SpawnCommand { cmd: SENSORS_COMMAND, source: e }),
            Ok(o) => if o.success {
                Ok(o.stdout)
            } else {
                Err(Error::SensorsCmdFailed)
            },
        }
    }

    /// The CPU reading of the decoded report.
    pub fn cpu_temp(report: Result<Devices, String>) -> (r: Result<CpuTemp, Error>)
        ensures
            match report {
                Err(e) => r matches Err(Error::CannotParseSensorsJson { message }) && message
                    == e,
                Ok(ds) => match decoded(ds) {
                    Ok(t) => r == Ok::<CpuTemp, Error>(t),
                    Err(je) => r matches Err(Error::ReadJsonSensorData { source }) && source
                        == je,
                },
            },
    {
        match report {
            Err(e) => Err(Error::CannotParseSensorsJson { message: e }),
            Ok(ds) => match decode(&ds) {
                Ok(t) => Ok(t),
                Err(je) => Err(Error::ReadJsonSensorData { source: je }),
            },
        }
    }

    /// The snapshot of a CPU reading and the cores: the CPU with both, no
    /// graphics card and no other device; or the failure to read the cores.
    pub fn assemble(temp: CpuTemp, cores: Result<Vec<CpuCore>, cpu_info::Error>) -> (r: Result<
        Sensors,
        Error,
    >)
        ensures
            match cores {
                Err(e) => r matches Err(Error::CpuInfoFailure { source }) && source == e,
                Ok(cs) => r matches Ok(s) && s.cpu matches Some(c) && c.cores@ == cs@ && c.temp
                    == temp && s.graphics is None && s.others@.len() == 0,
            },
    {
        match cores {
            Err(e) => Err(Error::CpuInfoFailure { source: e }),
            Ok(cs) => Ok(
                Sensors {
                    cpu: Some(Cpu { cores: cs, temp }),
                    graphics: None,
                    others: Vec::new(),
                },
            ),
        }
    }
}

} // verus!
