//! Patient and medication records for a single-user desk application: the
//! record model, the identifiers under which records are stored, the search
//! and ordering of the patient list, and the screens with their transitions.
//!
//! The library decides; it performs no input or output. Each transition
//! returns the command that the front end is to carry out on the record
//! store.

mod clock;
pub mod ident;
pub mod listing;
pub mod record;
pub mod session;
pub mod store;
pub mod text;

pub use record::{CalendarDate, Medication, MedicationView, PatientRecord, PatientView};
pub use session::{
    Command, Event, MainEvent, MedicationFormEvent, PatientFormEvent, PatientListEvent, Screens,
    Session,
};
