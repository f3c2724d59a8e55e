//! The screens and what each user action does.
//!
//! A session holds the screen that is shown and the two form buffers. Every
//! user action is an event; a step takes the session to its next state and
//! returns the command that the front end has to carry out. The steps
//! themselves neither touch the record store nor end the process.

use vstd::prelude::*;
use crate::clock::now_millis;
use crate::ident::{lemma_decimal_nonempty, lemma_patient_ids_distinct};
use crate::ident::{medication_id, medication_id_at, patient_id, patient_id_at};
use crate::record::{Medication, MedicationView, PatientRecord, PatientView};

verus! {

/// The screens of the application; exactly one is shown at a time.
#[derive(Clone, Copy, Debug, PartialEq, Eq, Structural)]
pub enum Screens {
    Main,
    PatientForm,
    Patients,
    MedicationForm,
}

/// What the front end is asked to do after a step.
#[derive(Clone, Debug, PartialEq, Eq)]
pub enum Command {
    /// Nothing.
    Idle,
    /// End the process.
    Exit,
    /// Write `record` to the store under `key`, replacing what is there, and
    /// flush.
    PutPatient { key: String, record: PatientRecord },
    /// Remove the entry under `key` from the store and flush.
    RemovePatient { key: String },
    /// Write `medication` to the store under `key` and flush.
    PutMedication { key: String, medication: Medication },
}

/// What a `Command` holds.
pub ghost enum CommandView {
    Idle,
    Exit,
    PutPatient { key: Seq<char>, record: PatientView },
    RemovePatient { key: Seq<char> },
    PutMedication { key: Seq<char>, medication: MedicationView },
}

impl View for Command {
    type V = CommandView;

    open spec fn view(&self) -> CommandView {
        match *self {
            Command::Idle => CommandView::Idle,
            Command::Exit => CommandView::Exit,
            Command::PutPatient { key, record } => CommandView::PutPatient {
                key: key@,
                record: record@,
            },
            Command::RemovePatient { key } => CommandView::RemovePatient { key: key@ },
            Command::PutMedication { key, medication } => CommandView::PutMedication {
                key: key@,
                medication: medication@,
            },
        }
    }
}

/// The buttons of the main screen.
#[derive(Clone, Copy, Debug, PartialEq, Eq, Structural)]
pub enum MainEvent {
    AddPatient,
    ViewPatients,
    AddMedication,
    Exit,
}

/// The buttons of the patient form.
#[derive(Clone, Copy, Debug, PartialEq, Eq, Structural)]
pub enum PatientFormEvent {
    Delete,
    Save,
    SaveAndReturn,
    Back,
}

/// The actions of the patient list.
#[derive(Clone, Debug, PartialEq, Eq)]
pub enum PatientListEvent {
    /// The entry of this patient was chosen.
    Select(PatientRecord),
    Back,
}

/// What a `PatientListEvent` holds.
pub ghost enum PatientListEventView {
    Select(PatientView),
    Back,
}

impl View for PatientListEvent {
    type V = PatientListEventView;

    open spec fn view(&self) -> PatientListEventView {
        match *self {
            PatientListEvent::Select(record) => PatientListEventView::Select(record@),
            PatientListEvent::Back => PatientListEventView::Back,
        }
    }
}

/// The buttons of the medication form.
#[derive(Clone, Copy, Debug, PartialEq, Eq, Structural)]
pub enum MedicationFormEvent {
    Save,
    SaveAndReturn,
    Back,
}

/// A user action, tagged with the screen it was made on.
#[derive(Clone, Debug, PartialEq, Eq)]
pub enum Event {
    Main(MainEvent),
    PatientForm(PatientFormEvent),
    Patients(PatientListEvent),
    MedicationForm(MedicationFormEvent),
}

/// What an `Event` holds.
pub ghost enum EventView {
    Main(MainEvent),
    PatientForm(PatientFormEvent),
    Patients(PatientListEventView),
    MedicationForm(MedicationFormEvent),
}

impl View for Event {
    type V = EventView;

    open spec fn view(&self) -> EventView {
        match *self {
            Event::Main(e) => EventView::Main(e),
            Event::PatientForm(e) => EventView::PatientForm(e),
            Event::Patients(e) => EventView::Patients(e@),
            Event::MedicationForm(e) => EventView::MedicationForm(e),
        }
    }
}

/// The state of a running application.
#[derive(Clone, Debug, PartialEq, Eq)]
pub struct Session {
    /// The buffer of the patient form.
    pub patient: PatientRecord,
    /// The buffer of the medication form.
    pub medicine: Medication,
    /// Whether the patient form holds a record that was chosen from the
    /// list.
    pub patient_provided: bool,
    /// The screen that is shown.
    pub screen: Screens,
}

/// What a `Session` holds.
pub ghost struct SessionView {
    pub patient: PatientView,
    pub medicine: MedicationView,
    pub patient_provided: bool,
    pub screen: Screens,
}

impl View for Session {
    type V = SessionView;

    open spec fn view(&self) -> SessionView {
        SessionView {
            patient: self.patient@,
            medicine: self.medicine@,
            patient_provided: self.patient_provided,
            screen: self.screen,
        }
    }
}

impl SessionView {
    /// The state at start: the main screen over two empty forms.
    pub open spec fn initial() -> SessionView {
        SessionView {
            patient: PatientView::empty(),
            medicine: MedicationView::empty(),
            patient_provided: false,
            screen: Screens::Main,
        }
    }

    /// The same state with the patient form emptied.
    pub open spec fn without_patient(self) -> SessionView {
        SessionView { patient: PatientView::empty(), patient_provided: false, ..self }
    }

    /// The same state with the medication form emptied.
    pub open spec fn without_medicine(self) -> SessionView {
        SessionView { medicine: MedicationView::empty(), ..self }
    }

    /// The same state showing `screen`.
    pub open spec fn showing(self, screen: Screens) -> SessionView {
        SessionView { screen, ..self }
    }
}

/// The record that saving the form `p` at `millis` stores: `p` itself where
/// it has an identifier, else `p` under the identifier made from `millis`.
pub open spec fn stored_patient(p: PatientView, millis: int) -> PatientView {
    if p.patient_id.len() == 0 {
        p.with_id(patient_id_at(millis))
    } else {
        p
    }
}

/// The main screen: three buttons change the screen and leave the forms as
/// they are, the fourth asks to end the process.
pub open spec fn main_screen_next(s: SessionView, e: MainEvent) -> (SessionView, CommandView) {
    match e {
        MainEvent::AddPatient => (s.showing(Screens::PatientForm), CommandView::Idle),
        MainEvent::ViewPatients => (s.showing(Screens::Patients), CommandView::Idle),
        MainEvent::AddMedication => (s.showing(Screens::MedicationForm), CommandView::Idle),
        MainEvent::Exit => (s, CommandView::Exit),
    }
}

/// The patient form at time `millis`.
///
/// Delete does nothing at all where the form has no identifier; else it
/// asks for the removal of the record, empties the form and returns to the
/// main screen. Save and Save-and-Return ask for `stored_patient` to be
/// written under its identifier and empty the form; the second also returns
/// to the main screen. Back empties the form and returns to the main screen.
pub open spec fn patient_form_next(s: SessionView, e: PatientFormEvent, millis: int) -> (
    SessionView,
    CommandView,
) {
    match e {
        PatientFormEvent::Delete => if s.patient.patient_id.len() > 0 {
            (
                s.without_patient().showing(Screens::Main),
                CommandView::RemovePatient { key: s.patient.patient_id },
            )
        } else {
            (s, CommandView::Idle)
        },
        PatientFormEvent::Save => (
            s.without_patient(),
            CommandView::PutPatient {
                key: stored_patient(s.patient, millis).patient_id,
                record: stored_patient(s.patient, millis),
            },
        ),
        PatientFormEvent::SaveAndReturn => (
            s.without_patient().showing(Screens::Main),
            CommandView::PutPatient {
                key: stored_patient(s.patient, millis).patient_id,
                record: stored_patient(s.patient, millis),
            },
        ),
        PatientFormEvent::Back => (s.without_patient().showing(Screens::Main), CommandView::Idle),
    }
}

/// The patient list: choosing an entry loads it into the patient form,
/// marks the form as holding a chosen record and shows the form; Back
/// returns to the main screen.
pub open spec fn patient_list_next(s: SessionView, e: PatientListEventView) -> (
    SessionView,
    CommandView,
) {
    match e {
        PatientListEventView::Select(record) => (
            SessionView {
                patient: record,
                patient_provided: true,
                screen: Screens::PatientForm,
                ..s
            },
            CommandView::Idle,
        ),
        PatientListEventView::Back => (s.showing(Screens::Main), CommandView::Idle),
    }
}

/// The medication form at time `millis`.
///
/// Save and Save-and-Return ask for the fixed sample medication to be
/// written under a new identifier made from `millis`, whatever the form
/// holds, and empty the form; the second also returns to the main screen.
/// Back empties the form and returns to the main screen.
pub open spec fn medication_form_next(s: SessionView, e: MedicationFormEvent, millis: int) -> (
    SessionView,
    CommandView,
) {
    match e {
        MedicationFormEvent::Save => (
            s.without_medicine(),
            CommandView::PutMedication {
                key: medication_id_at(millis),
                medication: MedicationView::sample(),
            },
        ),
        MedicationFormEvent::SaveAndReturn => (
            s.without_medicine().showing(Screens::Main),
            CommandView::PutMedication {
                key: medication_id_at(millis),
                medication: MedicationView::sample(),
            },
        ),
        MedicationFormEvent::Back => (
            s.without_medicine().showing(Screens::Main),
            CommandView::Idle,
        ),
    }
}

/// One step of the whole machine at time `millis`: an event of the screen
/// that is shown is handled by that screen, any other event is ignored.
pub open spec fn next(s: SessionView, e: EventView, millis: int) -> (SessionView, CommandView) {
    match e {
        EventView::Main(ev) if s.screen == Screens::Main => main_screen_next(s, ev),
        EventView::PatientForm(ev) if s.screen == Screens::PatientForm => patient_form_next(
            s,
            ev,
            millis,
        ),
        EventView::Patients(ev) if s.screen == Screens::Patients => patient_list_next(s, ev),
        EventView::MedicationForm(ev) if s.screen == Screens::MedicationForm => {
            medication_form_next(s, ev, millis)
        },
        _ => (s, CommandView::Idle),
    }
}

/// Whether the step for `e` in state `s` depends on the time.
pub open spec fn reads_clock(s: SessionView, e: EventView) -> bool {
    match e {
        EventView::PatientForm(ev) => s.screen == Screens::PatientForm
            && s.patient.patient_id.len() == 0 && (ev == PatientFormEvent::Save || ev
            == PatientFormEvent::SaveAndReturn),
        EventView::MedicationForm(ev) => s.screen == Screens::MedicationForm && (ev
            == MedicationFormEvent::Save || ev == MedicationFormEvent::SaveAndReturn),
        _ => false,
    }
}

/// Whether `e` is one of the two buttons that save.
pub open spec fn saves(e: PatientFormEvent) -> bool {
    e == PatientFormEvent::Save || e == PatientFormEvent::SaveAndReturn
}

/// Saving a form without an identifier gives the record a new one, made
/// from the time of the save and never empty, and stores the record under
/// it with every other field as the form held it.
pub proof fn lemma_save_gives_new_identifier(s: SessionView, e: PatientFormEvent, millis: int)
    requires
        saves(e),
        s.patient.patient_id.len() == 0,
    ensures
        patient_form_next(s, e, millis).1 == (CommandView::PutPatient {
            key: patient_id_at(millis),
            record: s.patient.with_id(patient_id_at(millis)),
        }),
        patient_id_at(millis).len() > 0,
{
    lemma_decimal_nonempty(millis);
}

/// Saving a form that has an identifier stores the form as it is under the
/// identifier it has.
pub proof fn lemma_save_keeps_identifier(s: SessionView, e: PatientFormEvent, millis: int)
    requires
        saves(e),
        s.patient.patient_id.len() > 0,
    ensures
        patient_form_next(s, e, millis).1 == (CommandView::PutPatient {
            key: s.patient.patient_id,
            record: s.patient,
        }),
{
}

/// Two forms without identifiers that are saved at different milliseconds
/// are stored under different identifiers.
pub proof fn lemma_saves_at_different_times_differ(
    s1: SessionView,
    e1: PatientFormEvent,
    millis1: int,
    s2: SessionView,
    e2: PatientFormEvent,
    millis2: int,
)
    requires
        saves(e1),
        saves(e2),
        s1.patient.patient_id.len() == 0,
        s2.patient.patient_id.len() == 0,
        millis1 != millis2,
    ensures
        patient_form_next(s1, e1, millis1).1->PutPatient_key != patient_form_next(
            s2,
            e2,
            millis2,
        ).1->PutPatient_key,
{
    lemma_patient_ids_distinct(millis1, millis2);
}

/// From the main screen, View Patients shows the patient list, changes
/// nothing else and asks nothing of the store.
pub proof fn lemma_view_patients_shows_list(s: SessionView, millis: int)
    requires
        s.screen == Screens::Main,
    ensures
        next(s, EventView::Main(MainEvent::ViewPatients), millis) == (
            SessionView { screen: Screens::Patients, ..s },
            CommandView::Idle,
        ),
{
}

/// From the patient list, choosing an entry shows the patient form with
/// that record in it and marked as chosen, leaves the medication form as it
/// is and asks nothing of the store.
pub proof fn lemma_select_loads_form(s: SessionView, record: PatientView, millis: int)
    requires
        s.screen == Screens::Patients,
    ensures
        next(s, EventView::Patients(PatientListEventView::Select(record)), millis) == (
            SessionView {
                patient: record,
                patient_provided: true,
                screen: Screens::PatientForm,
                medicine: s.medicine,
            },
            CommandView::Idle,
        ),
{
}

/// A step that does not read the clock is the same step at every time.
pub proof fn lemma_step_without_clock(s: SessionView, e: EventView, millis1: int, millis2: int)
    requires
        !reads_clock(s, e),
    ensures
        next(s, e, millis1) == next(s, e, millis2),
{
}

impl Session {
    /// The state at start.
    pub fn new() -> (s: Session)
        ensures
            s@ == SessionView::initial(),
    {
        Session {
            patient: PatientRecord::default(),
            medicine: Medication::default(),
            patient_provided: false,
            screen: Screens::Main,
        }
    }

    /// Empties the patient form and returns what it held.
    fn take_patient(&mut self) -> (record: PatientRecord)
        ensures
            record == old(self).patient,
            final(self)@ == old(self)@.without_patient(),
    {
        let mut record = PatientRecord::default();
        core::mem::swap(&mut self.patient, &mut record);
        self.patient_provided = false;
        record
    }

    /// A button of the main screen was pressed.
    pub fn main_screen_step(&mut self, e: MainEvent) -> (cmd: Command)
        ensures
            (final(self)@, cmd@) == main_screen_next(old(self)@, e),
    {
        match e {
            MainEvent::AddPatient => {
                self.screen = Screens::PatientForm;
                Command::Idle
            },
            MainEvent::ViewPatients => {
                self.screen = Screens::Patients;
                Command::Idle
            },
            MainEvent::AddMedication => {
                self.screen = Screens::MedicationForm;
                Command::Idle
            },
            MainEvent::Exit => Command::Exit,
        }
    }

    /// A button of the patient form was pressed at time `millis`.
    pub fn patient_form_step(&mut self, e: PatientFormEvent, millis: i64) -> (cmd: Command)
        ensures
            (final(self)@, cmd@) == patient_form_next(old(self)@, e, millis as int),
    {
        match e {
            PatientFormEvent::Delete => {
                if self.patient.has_id() {
                    let record = self.take_patient();
                    self.screen = Screens::Main;
                    Command::RemovePatient { key: record.patient_id }
                } else {
                    Command::Idle
                }
            },
            PatientFormEvent::Save => self.save_patient(millis),
            PatientFormEvent::SaveAndReturn => {
                let cmd = self.save_patient(millis);
                self.screen = Screens::Main;
                cmd
            },
            PatientFormEvent::Back => {
                let _ = self.take_patient();
                self.screen = Screens::Main;
                Command::Idle
            },
        }
    }

    /// Gives the form an identifier where it has none, empties the form and
    /// asks for what it held to be written.
    fn save_patient(&mut self, millis: i64) -> (cmd: Command)
        ensures
            final(self)@ == old(self)@.without_patient(),
            cmd@ == (CommandView::PutPatient {
                key: stored_patient(old(self)@.patient, millis as int).patient_id,
                record: stored_patient(old(self)@.patient, millis as int),
            }),
    {
        if !self.patient.has_id() {
            self.patient.patient_id = patient_id(millis);
        }
        let record = self.take_patient();
        let key = record.patient_id.clone();
        Command::PutPatient { key, record }
    }

    /// An action of the patient list.
    pub fn patient_list_step(&mut self, e: PatientListEvent) -> (cmd: Command)
        ensures
            (final(self)@, cmd@) == patient_list_next(old(self)@, e@),
    {
        match e {
            PatientListEvent::Select(record) => {
                self.patient = record;
                self.patient_provided = true;
                self.screen = Screens::PatientForm;
                Command::Idle
            },
            PatientListEvent::Back => {
                self.screen = Screens::Main;
                Command::Idle
            },
        }
    }

    /// A button of the medication form was pressed at time `millis`.
    pub fn medication_form_step(&mut self, e: MedicationFormEvent, millis: i64) -> (cmd: Command)
        ensures
            (final(self)@, cmd@) == medication_form_next(old(self)@, e, millis as int),
    {
        match e {
            MedicationFormEvent::Save => {
                self.medicine = Medication::default();
                Command::PutMedication {
                    key: medication_id(millis),
                    medication: Medication::sample(),
                }
            },
            MedicationFormEvent::SaveAndReturn => {
                self.medicine = Medication::default();
                self.screen = Screens::Main;
                Command::PutMedication {
                    key: medication_id(millis),
                    medication: Medication::sample(),
                }
            },
            MedicationFormEvent::Back => {
                self.medicine = Medication::default();
                self.screen = Screens::Main;
                Command::Idle
            },
        }
    }

    /// One step of the whole machine at time `millis`.
    pub fn step(&mut self, e: Event, millis: i64) -> (cmd: Command)
        ensures
            (final(self)@, cmd@) == next(old(self)@, e@, millis as int),
    {
        match e {
            Event::Main(ev) => {
                if self.screen == Screens::Main {
                    self.main_screen_step(ev)
                } else {
                    Command::Idle
                }
            },
            Event::PatientForm(ev) => {
                if self.screen == Screens::PatientForm {
                    self.patient_form_step(ev, millis)
                } else {
                    Command::Idle
                }
            },
            Event::Patients(ev) => {
                if self.screen == Screens::Patients {
                    self.patient_list_step(ev)
                } else {
                    Command::Idle
                }
            },
            Event::MedicationForm(ev) => {
                if self.screen == Screens::MedicationForm {
                    self.medication_form_step(ev, millis)
                } else {
                    Command::Idle
                }
            },
        }
    }

    /// Whether the step for `e` depends on the time.
    pub fn step_reads_clock(&self, e: &Event) -> (b: bool)
        ensures
            b == reads_clock(self@, e@),
    {
        match e {
            Event::PatientForm(ev) => self.screen == Screens::PatientForm && !self.patient.has_id()
                && (*ev == PatientFormEvent::Save || *ev == PatientFormEvent::SaveAndReturn),
            Event::MedicationForm(ev) => self.screen == Screens::MedicationForm && (*ev
                == MedicationFormEvent::Save || *ev == MedicationFormEvent::SaveAndReturn),
            _ => false,
        }
    }

    /// One step of the whole machine, now.
    ///
    /// The clock is read only where the step depends on the time, and
    /// reading it panics where the system clock is set before 1970. The step
    /// taken is the step at some time; where it does not depend on the time
    /// it is the step at every time.
    pub fn handle(&mut self, e: Event) -> (cmd: Command)
        ensures
            exists|millis: i64| (final(self)@, cmd@) == #[trigger] next(old(self)@, e@, millis as int),
            !reads_clock(old(self)@, e@) ==> forall|millis: int|
                (final(self)@, cmd@) == #[trigger] next(old(self)@, e@, millis),
    {
        let millis: i64 = if self.step_reads_clock(&e) {
            now_millis()
        } else {
            0
        };
        let cmd = self.step(e, millis);
        assert((self@, cmd@) == next(old(self)@, e@, millis as int));
        cmd
    }
}

} // verus!
