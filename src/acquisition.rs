use vstd::prelude::*;
use crate::registers::assemble_aux_banks;
use crate::thermistor::{Calibration, Thermistor};

verus! {

/// Cell channels of one device.
pub const CELL_CHANNELS: usize = 12;

/// Where the acquisition cycle stands.
#[derive(Clone, Copy, Debug, PartialEq, Eq, Structural)]
pub enum Phase {
    WakeCells,
    StartCellConversion,
    PollReady,
    ReadVoltages,
    WakeAux,
    StartAuxConversion,
    ReadAuxBankA,
    ReadAuxBankB,
    Publish,
    Throttle,
}

/// The operation that the caller performs next on the chain or the sink.
#[derive(Clone, Copy, Debug, PartialEq, Eq, Structural)]
pub enum Action {
    /// Wake the chain; the outcome does not matter.
    WakeUp,
    /// Start the conversion of every cell channel.
    StartCellConversion,
    /// Ask once whether the conversion has finished.
    QueryReady,
    /// Read the cell voltages of every device.
    ReadVoltages,
    /// Start the conversion of every auxiliary channel.
    StartAuxConversion,
    /// Read the first auxiliary register bank of every device.
    ReadAuxBankA,
    /// Read the second auxiliary register bank of every device.
    ReadAuxBankB,
    /// Hand both matrices to the sink and toggle the status signal.
    Publish,
    /// Wait until the cycle period has elapsed.
    WaitPeriod,
}

/// What came of the last action.
pub enum Event {
    /// The action went through, or its outcome is of no interest.
    Done,
    /// The chain reported an error.
    Failed,
    /// Answer to a readiness query.
    Ready(bool),
    /// Cell voltages, one row per device.
    Voltages(Vec<[u16; 12]>),
    /// One auxiliary register bank, one row per device.
    AuxBank(Vec<[u16; 3]>),
}

/// The operation that each phase asks for.
pub open spec fn action_of(phase: Phase) -> Action {
    match phase {
        Phase::WakeCells => Action::WakeUp,
        Phase::StartCellConversion => Action::StartCellConversion,
        Phase::PollReady => Action::QueryReady,
        Phase::ReadVoltages => Action::ReadVoltages,
        Phase::WakeAux => Action::WakeUp,
        Phase::StartAuxConversion => Action::StartAuxConversion,
        Phase::ReadAuxBankA => Action::ReadAuxBankA,
        Phase::ReadAuxBankB => Action::ReadAuxBankB,
        Phase::Publish => Action::Publish,
        Phase::Throttle => Action::WaitPeriod,
    }
}

/// The controller as mathematical values.
pub struct ControllerView {
    pub phase: Phase,
    pub devices: nat,
    pub poll_budget: nat,
    pub polls: nat,
    pub voltages: Seq<[u16; 12]>,
    pub voltages_stale: bool,
    pub bank_a: Seq<[u16; 3]>,
    pub temperatures: Seq<[i16; 6]>,
    pub temperatures_stale: bool,
    pub calibration: Calibration,
}

/// The readiness query came back true.
pub open spec fn is_ready(event: Event) -> bool {
    match event {
        Event::Ready(b) => b,
        _ => false,
    }
}

/// The event carries cell voltages with one row per device.
pub open spec fn voltages_fit(event: Event, devices: nat) -> bool {
    match event {
        Event::Voltages(v) => v@.len() == devices,
        _ => false,
    }
}

/// The event carries a register bank with one row per device.
pub open spec fn bank_fits(event: Event, devices: nat) -> bool {
    match event {
        Event::AuxBank(b) => b@.len() == devices,
        _ => false,
    }
}

/// The rows that an event carries (empty for other events).
pub open spec fn voltage_rows(event: Event) -> Seq<[u16; 12]> {
    match event {
        Event::Voltages(v) => v@,
        _ => Seq::empty(),
    }
}

/// The rows that an event carries (empty for other events).
pub open spec fn bank_rows(event: Event) -> Seq<[u16; 3]> {
    match event {
        Event::AuxBank(b) => b@,
        _ => Seq::empty(),
    }
}

/// The readiness poll gives up at this event: it is not a positive answer
/// and it uses the last query of the budget.
pub open spec fn poll_gives_up(v: ControllerView, event: Event) -> bool {
    v.phase == Phase::PollReady && !is_ready(event) && v.polls + 1 >= v.poll_budget
}

/// The phase after an event.
pub open spec fn next_phase(v: ControllerView, event: Event) -> Phase {
    match v.phase {
        Phase::WakeCells => Phase::StartCellConversion,
        Phase::StartCellConversion => Phase::PollReady,
        Phase::PollReady => if is_ready(event) {
            Phase::ReadVoltages
        } else if v.polls + 1 >= v.poll_budget {
            Phase::WakeAux
        } else {
            Phase::PollReady
        },
        Phase::ReadVoltages => Phase::WakeAux,
        Phase::WakeAux => Phase::StartAuxConversion,
        Phase::StartAuxConversion => Phase::ReadAuxBankA,
        Phase::ReadAuxBankA => if bank_fits(event, v.devices) {
            Phase::ReadAuxBankB
        } else {
            Phase::Publish
        },
        Phase::ReadAuxBankB => Phase::Publish,
        Phase::Publish => Phase::Throttle,
        Phase::Throttle => Phase::WakeCells,
    }
}

/// Queries spent in the current poll: one more after each negative answer.
pub open spec fn next_polls(v: ControllerView, event: Event) -> nat {
    if v.phase == Phase::PollReady && !is_ready(event) && v.polls + 1 < v.poll_budget {
        (v.polls + 1) as nat
    } else {
        0
    }
}

/// The temperature rows for the two banks of every device.
pub open spec fn temperatures_of(
    cal: Calibration,
    a: Seq<[u16; 3]>,
    b: Seq<[u16; 3]>,
    t: Seq<[i16; 6]>,
) -> bool {
    &&& t.len() == a.len()
    &&& forall|k: int, j: int|
        0 <= k < t.len() && 0 <= j < 6 ==> #[trigger] t[k]@[j] as int == cal.tenths_at_code(
            (a[k]@ + b[k]@)[j] as int,
        )
}

/// Assembles the two auxiliary banks of every device and converts each
/// channel to tenths of a degree.
pub fn temperatures_from_banks(
    thermistor: &Thermistor,
    bank_a: &Vec<[u16; 3]>,
    bank_b: &Vec<[u16; 3]>,
) -> (r: Vec<[i16; 6]>)
    requires
        thermistor.wf(),
        bank_a@.len() == bank_b@.len(),
    ensures
        temperatures_of(thermistor@, bank_a@, bank_b@, r@),
{
    let mut r: Vec<[i16; 6]> = Vec::new();
    let mut k: usize = 0;
    while k < bank_a.len()
        invariant
            k <= bank_a@.len(),
            bank_a@.len() == bank_b@.len(),
            thermistor.wf(),
            r@.len() == k,
            forall|i: int, j: int|
                0 <= i < k && 0 <= j < 6 ==> #[trigger] r@[i]@[j] as int
                    == thermistor@.tenths_at_code((bank_a@[i]@ + bank_b@[i]@)[j] as int),
        decreases bank_a@.len() - k,
    {
        let raw = assemble_aux_banks(&bank_a[k], &bank_b[k]);
        let mut row: [i16; 6] = [0i16; 6];
        let mut j: usize = 0;
        while j < 6
            invariant
                j <= 6,
                k < bank_a@.len(),
                bank_a@.len() == bank_b@.len(),
                raw@ == bank_a@[k as int]@ + bank_b@[k as int]@,
                thermistor.wf(),
                forall|c: int| 0 <= c < j ==> #[trigger] row@[c] as int
                    == thermistor@.tenths_at_code(raw@[c] as int),
            decreases 6 - j,
        {
            row[j] = thermistor.convert_volt_to_temp(raw[j]);
            j = j + 1;
        }
        r.push(row);
        k = k + 1;
    }
    r
}

pub struct AcquisitionController {
    phase: Phase,
    devices: usize,
    poll_budget: u32,
    polls: u32,
    voltages: Vec<[u16; 12]>,
    voltages_stale: bool,
    bank_a: Vec<[u16; 3]>,
    temperatures: Vec<[i16; 6]>,
    temperatures_stale: bool,
    thermistor: Thermistor,
}

impl View for AcquisitionController {
    type V = ControllerView;

    closed spec fn view(&self) -> ControllerView {
        ControllerView {
            phase: self.phase,
            devices: self.devices as nat,
            poll_budget: self.poll_budget as nat,
            polls: self.polls as nat,
            voltages: self.voltages@,
            voltages_stale: self.voltages_stale,
            bank_a: self.bank_a@,
            temperatures: self.temperatures@,
            temperatures_stale: self.temperatures_stale,
            calibration: self.thermistor@,
        }
    }
}

impl ControllerView {
    /// One row per device in every matrix, and a poll count inside its
    /// budget that only a running poll holds.
    pub open spec fn wf(self) -> bool {
        &&& self.voltages.len() == self.devices
        &&& self.bank_a.len() == self.devices
        &&& self.temperatures.len() == self.devices
        &&& self.polls < self.poll_budget
        &&& self.phase != Phase::PollReady ==> self.polls == 0
    }
}

impl AcquisitionController {
    pub closed spec fn wf(&self) -> bool {
        &&& self@.wf()
        &&& self.thermistor.wf()
    }

    /// A controller at the start of a cycle, with zeroed matrices. A poll
    /// gives up after `poll_budget` queries without a positive answer.
    pub fn new(devices: usize, thermistor: Thermistor, poll_budget: u32) -> (r: Self)
        requires
            thermistor.wf(),
            poll_budget > 0,
        ensures
            r.wf(),
            r@.wf(),
            r@.phase == Phase::WakeCells,
            r@.devices == devices,
            r@.poll_budget == poll_budget,
            r@.calibration == thermistor@,
            forall|k: int, j: int| 0 <= k < devices && 0 <= j < 12 ==> #[trigger] r@.voltages[k]@[j] == 0,
            forall|k: int, j: int|
                0 <= k < devices && 0 <= j < 6 ==> #[trigger] r@.temperatures[k]@[j] == 0,
            !r@.voltages_stale,
            !r@.temperatures_stale,
    {
        let mut voltages: Vec<[u16; 12]> = Vec::new();
        let mut bank_a: Vec<[u16; 3]> = Vec::new();
        let mut temperatures: Vec<[i16; 6]> = Vec::new();
        let mut k: usize = 0;
        while k < devices
            invariant
                k <= devices,
                voltages@.len() == k,
                temperatures@.len() == k,
                bank_a@.len() == k,
                forall|i: int, j: int| 0 <= i < k && 0 <= j < 12 ==> #[trigger] voltages@[i]@[j] == 0,
                forall|i: int, j: int| 0 <= i < k && 0 <= j < 6 ==> #[trigger] temperatures@[i]@[j] == 0,
            decreases devices - k,
        {
            voltages.push([0u16; 12]);
            bank_a.push([0u16; 3]);
            temperatures.push([0i16; 6]);
            k = k + 1;
        }
        AcquisitionController {
            phase: Phase::WakeCells,
            devices,
            poll_budget,
            polls: 0,
            voltages,
            voltages_stale: false,
            bank_a,
            temperatures,
            temperatures_stale: false,
            thermistor,
        }
    }

    /// Takes in what came of the last action and moves to the next phase.
    /// Voltages and register banks with a row count other than the device
    /// count are treated as failed reads: the matrices keep their rows and
    /// are marked stale.
    pub fn on_event(&mut self, event: Event)
        requires
            old(self).wf(),
        ensures
            final(self).wf(),
            final(self)@.wf(),
            final(self)@.voltages.len() == old(self)@.devices,
            final(self)@.temperatures.len() == old(self)@.devices,
            final(self)@.devices == old(self)@.devices,
            final(self)@.poll_budget == old(self)@.poll_budget,
            final(self)@.calibration == old(self)@.calibration,
            final(self)@.phase == next_phase(old(self)@, event),
            final(self)@.polls == next_polls(old(self)@, event),
            final(self)@.voltages == if old(self)@.phase == Phase::ReadVoltages && voltages_fit(
                event,
                old(self)@.devices,
            ) {
                voltage_rows(event)
            } else {
                old(self)@.voltages
            },
            final(self)@.voltages_stale == if old(self)@.phase == Phase::ReadVoltages {
                !voltages_fit(event, old(self)@.devices)
            } else {
                old(self)@.voltages_stale || poll_gives_up(old(self)@, event)
            },
            final(self)@.bank_a == if old(self)@.phase == Phase::ReadAuxBankA && bank_fits(
                event,
                old(self)@.devices,
            ) {
                bank_rows(event)
            } else {
                old(self)@.bank_a
            },
            old(self)@.phase == Phase::ReadAuxBankB && bank_fits(event, old(self)@.devices)
                ==> temperatures_of(
                old(self)@.calibration,
                old(self)@.bank_a,
                bank_rows(event),
                final(self)@.temperatures,
            ),
            !(old(self)@.phase == Phase::ReadAuxBankB && bank_fits(event, old(self)@.devices))
                ==> final(self)@.temperatures == old(self)@.temperatures,
            final(self)@.temperatures_stale == if old(self)@.phase == Phase::ReadAuxBankA {
                old(self)@.temperatures_stale || !bank_fits(event, old(self)@.devices)
            } else if old(self)@.phase == Phase::ReadAuxBankB {
                !bank_fits(event, old(self)@.devices)
            } else {
                old(self)@.temperatures_stale
            },
    {
        match self.phase {
            Phase::WakeCells => {
                self.phase = Phase::StartCellConversion;
            },
            Phase::StartCellConversion => {
                self.phase = Phase::PollReady;
            },
            Phase::PollReady => {
                let ready = match event {
                    Event::Ready(b) => b,
                    _ => false,
                };
                if ready {
                    self.polls = 0;
                    self.phase = Phase::ReadVoltages;
                } else if self.polls + 1 >= self.poll_budget {
                    self.polls = 0;
                    self.voltages_stale = true;
                    self.phase = Phase::WakeAux;
                } else {
                    self.polls = self.polls + 1;
                }
            },
            Phase::ReadVoltages => {
                match event {
                    Event::Voltages(v) => {
                        if v.len() == self.devices {
                            self.voltages = v;
                            self.voltages_stale = false;
                        } else {
                            self.voltages_stale = true;
                        }
                    },
                    _ => {
                        self.voltages_stale = true;
                    },
                }
                self.phase = Phase::WakeAux;
            },
            Phase::WakeAux => {
                self.phase = Phase::StartAuxConversion;
            },
            Phase::StartAuxConversion => {
                self.phase = Phase::ReadAuxBankA;
            },
            Phase::ReadAuxBankA => {
                match event {
                    Event::AuxBank(b) => {
                        if b.len() == self.devices {
                            self.bank_a = b;
                            self.phase = Phase::ReadAuxBankB;
                        } else {
                            self.temperatures_stale = true;
                            self.phase = Phase::Publish;
                        }
                    },
                    _ => {
                        self.temperatures_stale = true;
                        self.phase = Phase::Publish;
                    },
                }
            },
            Phase::ReadAuxBankB => {
                match event {
                    Event::AuxBank(b) => {
                        if b.len() == self.devices {
                            self.temperatures = temperatures_from_banks(
                                &self.thermistor,
                                &self.bank_a,
                                &b,
                            );
                            self.temperatures_stale = false;
                        } else {
                            self.temperatures_stale = true;
                        }
                    },
                    _ => {
                        self.temperatures_stale = true;
                    },
                }
                self.phase = Phase::Publish;
            },
            Phase::Publish => {
                self.phase = Phase::Throttle;
            },
            Phase::Throttle => {
                self.phase = Phase::WakeCells;
            },
        }
    }

    /// The cell voltage matrix: one row per device, in raw codes.
    pub fn voltages(&self) -> (r: &Vec<[u16; 12]>)
        ensures
            r@ == self@.voltages,
    {
        &self.voltages
    }

    /// The temperature matrix: one row per device, in tenths of a degree.
    pub fn temperatures(&self) -> (r: &Vec<[i16; 6]>)
        ensures
            r@ == self@.temperatures,
    {
        &self.temperatures
    }

    /// Whether the last cycle left the voltage matrix unrefreshed.
    pub fn voltages_stale(&self) -> (r: bool)
        ensures
            r == self@.voltages_stale,
    {
        self.voltages_stale
    }

    /// Whether the last cycle left the temperature matrix unrefreshed.
    pub fn temperatures_stale(&self) -> (r: bool)
        ensures
            r == self@.temperatures_stale,
    {
        self.temperatures_stale
    }

    /// The current phase.
    pub fn phase(&self) -> (r: Phase)
        ensures
            r == self@.phase,
    {
        self.phase
    }

    /// The operation to perform next.
    pub fn action(&self) -> (r: Action)
        ensures
            r == action_of(self@.phase),
    {
        match self.phase {
            Phase::WakeCells => Action::WakeUp,
            Phase::StartCellConversion => Action::StartCellConversion,
            Phase::PollReady => Action::QueryReady,
            Phase::ReadVoltages => Action::ReadVoltages,
            Phase::WakeAux => Action::WakeUp,
            Phase::StartAuxConversion => Action::StartAuxConversion,
            Phase::ReadAuxBankA => Action::ReadAuxBankA,
            Phase::ReadAuxBankB => Action::ReadAuxBankB,
            Phase::Publish => Action::Publish,
            Phase::Throttle => Action::WaitPeriod,
        }
    }
}

} // verus!
