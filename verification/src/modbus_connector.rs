//! The Modbus polling schedule: connect with capped exponential back-off,
//! read the configured registers in order on every tick, publish the first
//! word of each successful read, reconnect after a failed read, and stop when
//! readings can no longer be delivered.
//!
//! The network work itself (connecting, sleeping, reading, sending) is done by
//! the caller, who reports each outcome as an [`Event`] and performs the
//! [`Action`] that [`ConnectorMachine::step`] answers.
use vstd::prelude::*;
use vstd::string::*;
use crate::models::{Instant, ReadingQuality, SensorReading};
use crate::text::{decimal, push_decimal, str_eq};

verus! {

/// Seconds to wait after the first failure.
pub const INITIAL_RETRY_DELAY_SECS: u64 = 1;

/// The longest wait between connection attempts.
pub const MAX_RETRY_DELAY_SECS: u64 = 30;

/// The wait after the next failure: twice the current one, at most the cap.
pub open spec fn next_retry_delay(d: u64) -> u64 {
    if 2 * d < MAX_RETRY_DELAY_SECS {
        (2 * d) as u64
    } else {
        MAX_RETRY_DELAY_SECS
    }
}

/// The Modbus server to poll and its registers: (address, parameter, unit, register type).
pub struct ModbusConnector {
    pub addr: String,
    pub registers: Vec<(u16, String, String, String)>,
    pub interval_secs: u64,
}

/// Which Modbus function reads a register.
#[derive(Debug, Clone, Copy, PartialEq, Eq, Structural)]
pub enum RegisterKind {
    Input,
    Coil,
    Holding,
}

/// The kind a register type names: `"input"`, `"coil"`, anything else a holding register.
pub open spec fn register_kind_of(t: Seq<char>) -> RegisterKind {
    if t == "input"@ {
        RegisterKind::Input
    } else if t == "coil"@ {
        RegisterKind::Coil
    } else {
        RegisterKind::Holding
    }
}

/// The kind of read for a configured register type.
pub fn register_kind(reg_type: &str) -> (k: RegisterKind)
    ensures
        k == register_kind_of(reg_type@),
{
    if str_eq(reg_type, "input") {
        RegisterKind::Input
    } else if str_eq(reg_type, "coil") {
        RegisterKind::Coil
    } else {
        RegisterKind::Holding
    }
}

/// Coil states as register words: 1 for on, 0 for off.
pub fn coils_to_words(coils: &Vec<bool>) -> (words: Vec<u16>)
    ensures
        words@.len() == coils@.len(),
        forall|i: int| 0 <= i < coils@.len() ==> #[trigger] words@[i] == (if coils@[i] { 1u16 } else { 0u16 }),
{
    let mut words: Vec<u16> = Vec::new();
    let n = coils.len();
    let mut i: usize = 0;
    while i < n
        invariant
            n == coils@.len(),
            i <= n,
            words@.len() == i,
            forall|j: int| 0 <= j < i ==> #[trigger] words@[j] == (if coils@[j] { 1u16 } else { 0u16 }),
        decreases n - i,
    {
        words.push(if coils[i] { 1u16 } else { 0u16 });
        i = i + 1;
    }
    words
}

/// The source label of a reading: `modbus:<addr>/register/<address>/<type>`.
pub open spec fn source_text(addr: Seq<char>, address: u16, reg_type: Seq<char>) -> Seq<char> {
    "modbus:"@ + addr + "/register/"@ + decimal(address as nat) + "/"@ + reg_type
}

/// The source label of a reading taken from register `address` of `addr`.
pub fn reading_source(addr: &str, address: u16, reg_type: &str) -> (r: String)
    ensures
        r@ == source_text(addr@, address, reg_type@),
{
    let mut s = String::new();
    s.append("modbus:");
    s.append(addr);
    s.append("/register/");
    push_decimal(&mut s, address as u64);
    s.append("/");
    s.append(reg_type);
    proof {
        assert(s@ =~= source_text(addr@, address, reg_type@));
    }
    s
}

/// The reading published for a register word: the given source, parameter,
/// unit, value and instant, with quality good.
pub fn modbus_reading<V>(source: String, parameter: String, unit: String, value: V, timestamp: Instant) -> (r: SensorReading<V>)
    ensures
        r.source == source,
        r.parameter == parameter,
        r.unit == unit,
        r.value == value,
        r.quality == ReadingQuality::Good,
        r.timestamp == timestamp,
{
    SensorReading { source, parameter, value, unit, quality: ReadingQuality::Good, timestamp }
}

/// Where the poller is.
#[derive(Debug, Clone, Copy, PartialEq, Eq, Structural)]
pub enum Phase {
    /// A connection attempt is under way.
    Connecting,
    /// Connected; waiting for the next tick.
    WaitingTick,
    /// Register `index` is being read.
    Reading { index: usize },
    /// The reading of register `index` is being delivered.
    Publishing { index: usize },
    /// Readings can no longer be delivered; the poller has ended.
    Stopped,
}

/// An outcome the caller reports.
pub enum Event {
    Connected,
    ConnectFailed,
    Ticked,
    ReadSucceeded(Vec<u16>),
    ReadFailed,
    Sent,
    SendFailed,
}

/// What the caller is to do next.
pub enum Action {
    /// Open the connection.
    Connect,
    /// Wait this many seconds, then open the connection again.
    SleepThenConnect(u64),
    /// Start a fresh tick interval of this many seconds and wait for its first tick.
    StartPolling(u64),
    /// Wait for the next tick.
    WaitTick,
    /// Read one word of this kind at this address (register `index` of the list).
    Read { index: usize, kind: RegisterKind, address: u16 },
    /// Deliver a reading with this source, parameter, unit and raw word.
    Publish { index: usize, source: String, parameter: String, unit: String, raw: u16 },
    /// End the poller.
    Stop,
    /// The event does not belong to the current phase; nothing changed.
    Unexpected,
}

/// The poller: its configuration, the current back-off and the phase.
pub struct ConnectorMachine {
    pub config: ModbusConnector,
    pub retry_delay_secs: u64,
    pub phase: Phase,
}

/// The read request for register `i` of `regs`.
pub open spec fn read_action(regs: Seq<(u16, String, String, String)>, i: int) -> Action {
    Action::Read { index: i as usize, kind: register_kind_of(regs[i].3@), address: regs[i].0 }
}

impl ConnectorMachine {
    /// Well-formedness: the back-off lies between 1 and the cap, and a register index is in range.
    pub open spec fn wf(&self) -> bool {
        &&& 1 <= self.retry_delay_secs <= MAX_RETRY_DELAY_SECS
        &&& match self.phase {
            Phase::Reading { index } => index < self.config.registers@.len(),
            Phase::Publishing { index } => index < self.config.registers@.len(),
            _ => true,
        }
    }

    /// A poller about to make its first connection attempt, which is the action to perform.
    pub fn start(config: ModbusConnector) -> (r: (Self, Action))
        ensures
            r.0.wf(),
            r.0.config == config,
            r.0.retry_delay_secs == INITIAL_RETRY_DELAY_SECS,
            r.0.phase == Phase::Connecting,
            r.1 == Action::Connect,
    {
        (ConnectorMachine { config, retry_delay_secs: INITIAL_RETRY_DELAY_SECS, phase: Phase::Connecting }, Action::Connect)
    }

    fn next_delay(d: u64) -> (r: u64)
        requires
            d <= MAX_RETRY_DELAY_SECS,
        ensures
            r == next_retry_delay(d),
    {
        if 2 * d < MAX_RETRY_DELAY_SECS {
            2 * d
        } else {
            MAX_RETRY_DELAY_SECS
        }
    }

    fn read_request(&self, i: usize) -> (a: Action)
        requires
            i < self.config.registers@.len(),
        ensures
            a == read_action(self.config.registers@, i as int),
    {
        let reg = &self.config.registers[i];
        Action::Read { index: i, kind: register_kind(reg.3.as_str()), address: reg.0 }
    }

    /// After register `i` is done: read the next one, or wait for the next tick after the last.
    fn advance(&mut self, i: usize) -> (a: Action)
        requires
            old(self).wf(),
            i < old(self).config.registers@.len(),
        ensures
            final(self).wf(),
            final(self).config == old(self).config,
            final(self).retry_delay_secs == old(self).retry_delay_secs,
            i + 1 < old(self).config.registers@.len() ==> final(self).phase == (Phase::Reading { index: (i + 1) as usize })
                && a == read_action(old(self).config.registers@, i + 1),
            i + 1 >= old(self).config.registers@.len() ==> final(self).phase == Phase::WaitingTick && a == Action::WaitTick,
    {
        let n = self.config.registers.len();
        if i + 1 < n {
            self.phase = Phase::Reading { index: i + 1 };
            self.read_request(i + 1)
        } else {
            self.phase = Phase::WaitingTick;
            Action::WaitTick
        }
    }

    /// Loses the connection: wait the current back-off, then reconnect with it doubled.
    fn reconnect(&mut self) -> (a: Action)
        requires
            old(self).wf(),
        ensures
            final(self).wf(),
            final(self).config == old(self).config,
            final(self).retry_delay_secs == next_retry_delay(old(self).retry_delay_secs),
            final(self).phase == Phase::Connecting,
            a == Action::SleepThenConnect(old(self).retry_delay_secs),
    {
        let d = self.retry_delay_secs;
        self.retry_delay_secs = Self::next_delay(d);
        self.phase = Phase::Connecting;
        Action::SleepThenConnect(d)
    }

    /// Takes one reported outcome and answers the next action.
    pub fn step(&mut self, event: Event) -> (a: Action)
        requires
            old(self).wf(),
        ensures
            final(self).wf(),
            final(self).config == old(self).config,
            ({
                let regs = old(self).config.registers@;
                let d = old(self).retry_delay_secs;
                match (old(self).phase, event) {
                    (Phase::Connecting, Event::Connected) => final(self).retry_delay_secs == INITIAL_RETRY_DELAY_SECS
                        && final(self).phase == Phase::WaitingTick
                        && a == Action::StartPolling(old(self).config.interval_secs),
                    (Phase::Connecting, Event::ConnectFailed) => final(self).retry_delay_secs == next_retry_delay(d)
                        && final(self).phase == Phase::Connecting
                        && a == Action::SleepThenConnect(d),
                    (Phase::WaitingTick, Event::Ticked) => final(self).retry_delay_secs == d
                        && if regs.len() == 0 {
                            final(self).phase == Phase::WaitingTick && a == Action::WaitTick
                        } else {
                            final(self).phase == (Phase::Reading { index: 0 }) && a == read_action(regs, 0)
                        },
                    (Phase::Reading { index }, Event::ReadSucceeded(data)) => final(self).retry_delay_secs == d
                        && if data@.len() > 0 {
                            &&& final(self).phase == (Phase::Publishing { index })
                            &&& a matches Action::Publish { index: pi, source, parameter, unit, raw }
                            &&& pi == index
                            &&& source@ == source_text(old(self).config.addr@, regs[index as int].0, regs[index as int].3@)
                            &&& parameter@ == regs[index as int].1@
                            &&& unit@ == regs[index as int].2@
                            &&& raw == data@[0]
                        } else if index + 1 < regs.len() {
                            final(self).phase == (Phase::Reading { index: (index + 1) as usize }) && a == read_action(regs, index + 1)
                        } else {
                            final(self).phase == Phase::WaitingTick && a == Action::WaitTick
                        },
                    (Phase::Reading { index }, Event::ReadFailed) => final(self).retry_delay_secs == next_retry_delay(d)
                        && final(self).phase == Phase::Connecting
                        && a == Action::SleepThenConnect(d),
                    (Phase::Publishing { index }, Event::Sent) => final(self).retry_delay_secs == d
                        && if index + 1 < regs.len() {
                            final(self).phase == (Phase::Reading { index: (index + 1) as usize }) && a == read_action(regs, index + 1)
                        } else {
                            final(self).phase == Phase::WaitingTick && a == Action::WaitTick
                        },
                    (Phase::Publishing { index }, Event::SendFailed) => final(self).retry_delay_secs == d
                        && final(self).phase == Phase::Stopped
                        && a == Action::Stop,
                    (Phase::Stopped, _) => final(self).retry_delay_secs == d
                        && final(self).phase == Phase::Stopped
                        && a == Action::Stop,
                    _ => final(self).retry_delay_secs == d
                        && final(self).phase == old(self).phase
                        && a == Action::Unexpected,
                }
            }),
    {
        match (self.phase, event) {
            (Phase::Connecting, Event::Connected) => {
                self.retry_delay_secs = INITIAL_RETRY_DELAY_SECS;
                self.phase = Phase::WaitingTick;
                Action::StartPolling(self.config.interval_secs)
            },
            (Phase::Connecting, Event::ConnectFailed) => self.reconnect(),
            (Phase::WaitingTick, Event::Ticked) => {
                if self.config.registers.len() == 0 {
                    Action::WaitTick
                } else {
                    self.phase = Phase::Reading { index: 0 };
                    self.read_request(0)
                }
            },
            (Phase::Reading { index }, Event::ReadSucceeded(data)) => {
                if data.len() > 0 {
                    let reg = &self.config.registers[index];
                    let source = reading_source(self.config.addr.as_str(), reg.0, reg.3.as_str());
                    let parameter = reg.1.clone();
                    let unit = reg.2.clone();
                    self.phase = Phase::Publishing { index };
                    Action::Publish { index, source, parameter, unit, raw: data[0] }
                } else {
                    self.advance(index)
                }
            },
            (Phase::Reading { index: _ }, Event::ReadFailed) => self.reconnect(),
            (Phase::Publishing { index }, Event::Sent) => self.advance(index),
            (Phase::Publishing { index: _ }, Event::SendFailed) => {
                self.phase = Phase::Stopped;
                Action::Stop
            },
            (Phase::Stopped, _) => Action::Stop,
            _ => Action::Unexpected,
        }
    }
}

/// The wait after `k` consecutive failed attempts following a fresh start or a successful connection.
pub open spec fn delay_after_failures(k: nat) -> u64
    decreases k,
{
    if k == 0 {
        INITIAL_RETRY_DELAY_SECS
    } else {
        next_retry_delay(delay_after_failures((k - 1) as nat))
    }
}

/// The back-off stays between one second and the cap and never shrinks while attempts fail.
pub proof fn law_retry_delay_within_bounds(d: u64)
    requires
        1 <= d <= MAX_RETRY_DELAY_SECS,
    ensures
        1 <= next_retry_delay(d) <= MAX_RETRY_DELAY_SECS,
        d <= next_retry_delay(d),
{
}

/// Successive waits are 1, 2, 4, 8 and 16 seconds, then 30 seconds from the sixth failure on.
pub proof fn law_backoff_sequence(k: nat)
    ensures
        k == 0 ==> delay_after_failures(k) == 1,
        k == 1 ==> delay_after_failures(k) == 2,
        k == 2 ==> delay_after_failures(k) == 4,
        k == 3 ==> delay_after_failures(k) == 8,
        k == 4 ==> delay_after_failures(k) == 16,
        k >= 5 ==> delay_after_failures(k) == MAX_RETRY_DELAY_SECS,
    decreases k,
{
    reveal_with_fuel(delay_after_failures, 6);
    if k > 5 {
        law_backoff_sequence((k - 1) as nat);
    }
}

} // verus!
