//! Acquisition core of a battery-pack monitor: cycles a chain of analog
//! front ends through conversion and readout, joins the auxiliary register
//! banks of each device, and turns thermistor codes into temperatures by
//! table interpolation.
mod acquisition;
mod registers;
mod rounding;
mod thermistor;

pub use acquisition::{
    temperatures_from_banks, AcquisitionController, Action, ControllerView, Event, Phase,
    CELL_CHANNELS,
};
pub use registers::{assemble_aux_banks, AUX_CHANNELS, BANK_WIDTH};
pub use thermistor::{
    lut_ntu_cell_module_d, Calibration, Thermistor, CODES_PER_MILLIVOLT, TEMP_LIMIT,
};
