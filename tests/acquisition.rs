use bms_acquisition::{
    lut_ntu_cell_module_d, temperatures_from_banks, AcquisitionController, Action, Event, Phase,
    Thermistor,
};

fn ntc_d() -> Thermistor {
    Thermistor::new(3000, 10000, -20, 80, 1, 101, lut_ntu_cell_module_d())
}

fn cell_rows(base: u16) -> Vec<[u16; 12]> {
    let mut rows = Vec::new();
    for d in 0..2u16 {
        let mut row = [0u16; 12];
        for (i, v) in row.iter_mut().enumerate() {
            *v = base + d * 100 + i as u16;
        }
        rows.push(row);
    }
    rows
}

fn bank_a() -> Vec<[u16; 3]> {
    vec![[15000, 0, 29999], [12000, 13000, 14000]]
}

fn bank_b() -> Vec<[u16; 3]> {
    vec![[16000, 10000, 30000], [17000, 18000, 40000]]
}

/// Runs the controller through one cycle from `WakeCells`, answering each
/// action with the given responder, and returns the actions seen.
fn run_cycle(c: &mut AcquisitionController, mut answer: impl FnMut(Action) -> Event) -> Vec<Action> {
    let mut seen = Vec::new();
    loop {
        let a = c.action();
        seen.push(a);
        c.on_event(answer(a));
        if a == Action::WaitPeriod {
            break;
        }
    }
    seen
}

#[test]
fn banks_to_temperatures() {
    let t = temperatures_from_banks(&ntc_d(), &bank_a(), &bank_b());
    assert_eq!(t, vec![[250, 800, -200, 216, 440, -200], [359, 321, 285, 182, 148, 800]]);
}

#[test]
fn starts_zeroed_at_wake() {
    let c = AcquisitionController::new(2, ntc_d(), 5);
    assert_eq!(c.phase(), Phase::WakeCells);
    assert_eq!(c.action(), Action::WakeUp);
    assert_eq!(c.voltages(), &vec![[0u16; 12]; 2]);
    assert_eq!(c.temperatures(), &vec![[0i16; 6]; 2]);
    assert!(!c.voltages_stale());
    assert!(!c.temperatures_stale());
}

#[test]
fn full_cycle_in_order() {
    let mut c = AcquisitionController::new(2, ntc_d(), 5);
    let seen = run_cycle(&mut c, |a| match a {
        Action::QueryReady => Event::Ready(true),
        Action::ReadVoltages => Event::Voltages(cell_rows(1000)),
        Action::ReadAuxBankA => Event::AuxBank(bank_a()),
        Action::ReadAuxBankB => Event::AuxBank(bank_b()),
        _ => Event::Done,
    });
    assert_eq!(
        seen,
        vec![
            Action::WakeUp,
            Action::StartCellConversion,
            Action::QueryReady,
            Action::ReadVoltages,
            Action::WakeUp,
            Action::StartAuxConversion,
            Action::ReadAuxBankA,
            Action::ReadAuxBankB,
            Action::Publish,
            Action::WaitPeriod,
        ]
    );
    assert_eq!(c.phase(), Phase::WakeCells);
    assert_eq!(c.voltages(), &cell_rows(1000));
    assert_eq!(
        c.temperatures(),
        &vec![[250, 800, -200, 216, 440, -200], [359, 321, 285, 182, 148, 800]]
    );
    assert!(!c.voltages_stale());
    assert!(!c.temperatures_stale());
}

#[test]
fn failed_read_keeps_matrix_shape() {
    let mut c = AcquisitionController::new(2, ntc_d(), 5);
    run_cycle(&mut c, |a| match a {
        Action::QueryReady => Event::Ready(true),
        Action::ReadVoltages => Event::Failed,
        Action::ReadAuxBankA => Event::AuxBank(bank_a()),
        Action::ReadAuxBankB => Event::AuxBank(bank_b()),
        _ => Event::Done,
    });
    assert_eq!(c.voltages().len(), 2);
    assert!(c.voltages().iter().all(|row| row.len() == 12 && row.iter().all(|v| *v == 0)));
    assert_eq!(c.temperatures().len(), 2);
    assert!(c.temperatures().iter().all(|row| row.len() == 6));
    assert!(c.voltages_stale());
    assert!(!c.temperatures_stale());

    // a second cycle refreshes the voltages and then loses the aux banks
    run_cycle(&mut c, |a| match a {
        Action::QueryReady => Event::Ready(true),
        Action::ReadVoltages => Event::Voltages(cell_rows(2000)),
        Action::ReadAuxBankA => Event::Failed,
        _ => Event::Done,
    });
    assert_eq!(c.voltages(), &cell_rows(2000));
    assert!(!c.voltages_stale());
    assert_eq!(
        c.temperatures(),
        &vec![[250, 800, -200, 216, 440, -200], [359, 321, 285, 182, 148, 800]]
    );
    assert!(c.temperatures_stale());
}

#[test]
fn wrong_row_count_counts_as_failure() {
    let mut c = AcquisitionController::new(2, ntc_d(), 5);
    run_cycle(&mut c, |a| match a {
        Action::QueryReady => Event::Ready(true),
        Action::ReadVoltages => Event::Voltages(vec![[7u16; 12]]),
        Action::ReadAuxBankA => Event::AuxBank(bank_a()),
        Action::ReadAuxBankB => Event::AuxBank(vec![[1, 2, 3]]),
        _ => Event::Done,
    });
    assert_eq!(c.voltages(), &vec![[0u16; 12]; 2]);
    assert_eq!(c.temperatures(), &vec![[0i16; 6]; 2]);
    assert!(c.voltages_stale());
    assert!(c.temperatures_stale());
}

#[test]
fn poll_gives_up_after_budget() {
    let mut c = AcquisitionController::new(2, ntc_d(), 3);
    let seen = run_cycle(&mut c, |a| match a {
        Action::QueryReady => Event::Ready(false),
        Action::ReadAuxBankA => Event::AuxBank(bank_a()),
        Action::ReadAuxBankB => Event::AuxBank(bank_b()),
        _ => Event::Done,
    });
    assert_eq!(
        seen,
        vec![
            Action::WakeUp,
            Action::StartCellConversion,
            Action::QueryReady,
            Action::QueryReady,
            Action::QueryReady,
            Action::WakeUp,
            Action::StartAuxConversion,
            Action::ReadAuxBankA,
            Action::ReadAuxBankB,
            Action::Publish,
            Action::WaitPeriod,
        ]
    );
    assert!(c.voltages_stale());
    assert_eq!(c.voltages(), &vec![[0u16; 12]; 2]);
    assert!(!c.temperatures_stale());
}

#[test]
fn poll_error_counts_against_budget() {
    let mut c = AcquisitionController::new(1, ntc_d(), 2);
    c.on_event(Event::Done);
    c.on_event(Event::Failed);
    assert_eq!(c.phase(), Phase::PollReady);
    c.on_event(Event::Failed);
    assert_eq!(c.phase(), Phase::PollReady);
    c.on_event(Event::Ready(true));
    assert_eq!(c.phase(), Phase::ReadVoltages);
}
