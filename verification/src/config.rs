//! What the configuration decides: which reading sources run, the default
//! register type, and the poller a `modbus` section describes.
use vstd::prelude::*;
use vstd::string::*;
use crate::modbus_connector::ModbusConnector;
use crate::text::str_eq;

verus! {

/// The register type assumed when a register names none.
pub fn default_register_type() -> (r: String)
    ensures
        r@ == "holding"@,
{
    String::from_str("holding")
}

/// Whether a mode runs the simulator: `"simulator"` or `"both"`.
pub open spec fn mode_runs_simulator(mode: Seq<char>) -> bool {
    mode == "simulator"@ || mode == "both"@
}

/// Whether a mode polls a Modbus server: `"modbus"` or `"both"`.
pub open spec fn mode_runs_modbus(mode: Seq<char>) -> bool {
    mode == "modbus"@ || mode == "both"@
}

/// Whether `mode` runs the simulator.
pub fn runs_simulator(mode: &str) -> (r: bool)
    ensures
        r == mode_runs_simulator(mode@),
{
    str_eq(mode, "simulator") || str_eq(mode, "both")
}

/// Whether `mode` polls a Modbus server.
pub fn runs_modbus(mode: &str) -> (r: bool)
    ensures
        r == mode_runs_modbus(mode@),
{
    str_eq(mode, "modbus") || str_eq(mode, "both")
}

/// A configuration that cannot be run.
pub enum ConfigError {
    /// The mode polls Modbus but no `modbus` section is given; carries the mode.
    MissingModbusSection(String),
}

impl ConfigError {
    /// The text of the error.
    pub fn message(&self) -> (r: String)
        ensures
            match self {
                ConfigError::MissingModbusSection(mode) => r@ == "Mode '"@ + mode@ + "' requires a 'modbus' section in config.yaml"@,
            },
    {
        match self {
            ConfigError::MissingModbusSection(mode) => {
                let mut s = String::new();
                s.append("Mode '");
                s.append(mode.as_str());
                s.append("' requires a 'modbus' section in config.yaml");
                proof {
                    assert(s@ =~= "Mode '"@ + mode@ + "' requires a 'modbus' section in config.yaml"@);
                }
                s
            },
        }
    }
}

/// Accepts a configuration unless its mode polls Modbus without a `modbus` section.
pub fn check_mode(mode: &str, has_modbus_section: bool) -> (r: Result<(), ConfigError>)
    ensures
        r is Ok <==> !(mode_runs_modbus(mode@) && !has_modbus_section),
        r matches Err(ConfigError::MissingModbusSection(m)) ==> m@ == mode@,
{
    if runs_modbus(mode) && !has_modbus_section {
        Err(ConfigError::MissingModbusSection(String::from_str(mode)))
    } else {
        Ok(())
    }
}

/// One register of a `modbus` section.
pub struct RegisterConfig {
    pub address: u16,
    pub parameter: String,
    pub unit: String,
    pub register_type: String,
}

/// The poller a `modbus` section describes, registers in the configured order.
pub fn connector_from_config(addr: &str, interval_secs: u64, registers: &Vec<RegisterConfig>) -> (c: ModbusConnector)
    ensures
        c.addr@ == addr@,
        c.interval_secs == interval_secs,
        c.registers@.len() == registers@.len(),
        forall|i: int| 0 <= i < registers@.len() ==> {
            &&& (#[trigger] c.registers@[i]).0 == registers@[i].address
            &&& c.registers@[i].1@ == registers@[i].parameter@
            &&& c.registers@[i].2@ == registers@[i].unit@
            &&& c.registers@[i].3@ == registers@[i].register_type@
        },
{
    let mut regs: Vec<(u16, String, String, String)> = Vec::new();
    let n = registers.len();
    let mut i: usize = 0;
    while i < n
        invariant
            n == registers@.len(),
            i <= n,
            regs@.len() == i,
            forall|j: int| 0 <= j < i ==> {
                &&& (#[trigger] regs@[j]).0 == registers@[j].address
                &&& regs@[j].1@ == registers@[j].parameter@
                &&& regs@[j].2@ == registers@[j].unit@
                &&& regs@[j].3@ == registers@[j].register_type@
            },
        decreases n - i,
    {
        let r = &registers[i];
        regs.push((r.address, r.parameter.clone(), r.unit.clone(), r.register_type.clone()));
        i = i + 1;
    }
    ModbusConnector { addr: String::from_str(addr), registers: regs, interval_secs }
}

} // verus!
