use patient_records::{
    CalendarDate, Command, Event, MainEvent, Medication, MedicationFormEvent, PatientFormEvent,
    PatientListEvent, PatientRecord, Screens, Session,
};

fn filled_patient() -> PatientRecord {
    PatientRecord {
        patient_name: String::from("Jane Doe"),
        patient_id: String::new(),
        address: String::from("1 Main St"),
        city: String::from("Springfield"),
        phone_number: String::from("555-0100"),
        dob: CalendarDate::new(1990, 5, 17).unwrap(),
        pregnant: true,
        weight_bits: 61.5f32.to_bits(),
        height_bits: 1.68f32.to_bits(),
    }
}

fn filled_medicine() -> Medication {
    Medication {
        name: String::from("Aspirin"),
        medication_string: String::from("100mg"),
        supplier: String::from("Acme"),
        cost_per_pill_bits: 0.25f32.to_bits(),
    }
}

fn on(screen: Screens) -> Session {
    let mut s = Session::new();
    s.screen = screen;
    s
}

#[test]
fn a_session_starts_on_the_main_screen_with_empty_forms() {
    let s = Session::new();
    assert_eq!(s.screen, Screens::Main);
    assert_eq!(s.patient, PatientRecord::default());
    assert_eq!(s.medicine, Medication::default());
    assert!(!s.patient_provided);
}

#[test]
fn view_patients_shows_the_list_and_changes_no_data() {
    let mut s = Session::new();
    s.patient = filled_patient();
    s.medicine = filled_medicine();
    s.patient_provided = true;
    let before = s.clone();
    let cmd = s.step(Event::Main(MainEvent::ViewPatients), 0);
    assert_eq!(cmd, Command::Idle);
    assert_eq!(s.screen, Screens::Patients);
    assert_eq!(s.patient, before.patient);
    assert_eq!(s.medicine, before.medicine);
    assert_eq!(s.patient_provided, before.patient_provided);
}

#[test]
fn choosing_an_entry_loads_the_form_and_marks_it_existing() {
    let mut s = on(Screens::Patients);
    let mut chosen = filled_patient();
    chosen.patient_id = String::from("patient_1700000000000");
    let cmd = s.step(Event::Patients(PatientListEvent::Select(chosen.clone())), 0);
    assert_eq!(cmd, Command::Idle);
    assert_eq!(s.screen, Screens::PatientForm);
    assert_eq!(s.patient, chosen);
    assert!(s.patient_provided);
    assert_eq!(s.medicine, Medication::default());
}

#[test]
fn main_screen_buttons_lead_to_their_screens() {
    let mut s = Session::new();
    assert_eq!(s.main_screen_step(MainEvent::AddPatient), Command::Idle);
    assert_eq!(s.screen, Screens::PatientForm);
    let mut s = Session::new();
    assert_eq!(s.main_screen_step(MainEvent::AddMedication), Command::Idle);
    assert_eq!(s.screen, Screens::MedicationForm);
    let mut s = Session::new();
    assert_eq!(s.main_screen_step(MainEvent::ViewPatients), Command::Idle);
    assert_eq!(s.screen, Screens::Patients);
}

#[test]
fn exit_asks_to_end_the_process_and_changes_nothing() {
    let mut s = Session::new();
    s.patient = filled_patient();
    let before = s.clone();
    assert_eq!(s.step(Event::Main(MainEvent::Exit), 0), Command::Exit);
    assert_eq!(s, before);
}

#[test]
fn save_gives_a_new_record_an_identifier_and_clears_the_form() {
    let mut s = on(Screens::PatientForm);
    s.patient = filled_patient();
    s.medicine = filled_medicine();
    let cmd = s.step(Event::PatientForm(PatientFormEvent::Save), 1700000000000);
    let mut saved = filled_patient();
    saved.patient_id = String::from("patient_1700000000000");
    assert_eq!(
        cmd,
        Command::PutPatient { key: String::from("patient_1700000000000"), record: saved }
    );
    assert_eq!(s.screen, Screens::PatientForm);
    assert_eq!(s.patient, PatientRecord::default());
    assert!(!s.patient_provided);
    assert_eq!(s.medicine, filled_medicine());
}

#[test]
fn save_keeps_the_identifier_of_a_record_that_has_one() {
    let mut s = on(Screens::PatientForm);
    let mut existing = filled_patient();
    existing.patient_id = String::from("patient_42");
    s.patient = existing.clone();
    s.patient_provided = true;
    let cmd = s.step(Event::PatientForm(PatientFormEvent::Save), 1700000000000);
    assert_eq!(cmd, Command::PutPatient { key: String::from("patient_42"), record: existing });
    assert_eq!(s.screen, Screens::PatientForm);
    assert_eq!(s.patient, PatientRecord::default());
    assert!(!s.patient_provided);
}

#[test]
fn save_and_return_saves_and_goes_to_the_main_screen() {
    let mut s = on(Screens::PatientForm);
    s.patient = filled_patient();
    let cmd = s.step(Event::PatientForm(PatientFormEvent::SaveAndReturn), 5);
    let mut saved = filled_patient();
    saved.patient_id = String::from("patient_5");
    assert_eq!(cmd, Command::PutPatient { key: String::from("patient_5"), record: saved });
    assert_eq!(s.screen, Screens::Main);
    assert_eq!(s.patient, PatientRecord::default());
    assert!(!s.patient_provided);
}

#[test]
fn saving_an_empty_form_stores_an_empty_record_under_a_new_identifier() {
    let mut s = on(Screens::PatientForm);
    let cmd = s.patient_form_step(PatientFormEvent::Save, 0);
    let mut saved = PatientRecord::default();
    saved.patient_id = String::from("patient_0");
    assert_eq!(cmd, Command::PutPatient { key: String::from("patient_0"), record: saved });
}

#[test]
fn saves_at_different_times_get_different_identifiers() {
    let mut s = on(Screens::PatientForm);
    let first = s.patient_form_step(PatientFormEvent::Save, 1700000000000);
    let second = s.patient_form_step(PatientFormEvent::Save, 1700000000001);
    match (first, second) {
        (Command::PutPatient { key: a, .. }, Command::PutPatient { key: b, .. }) => {
            assert!(!a.is_empty());
            assert!(!b.is_empty());
            assert_ne!(a, b);
        }
        other => panic!("two saves gave {:?}", other),
    }
}

#[test]
fn delete_removes_a_saved_record_and_returns_to_the_main_screen() {
    let mut s = on(Screens::PatientForm);
    let mut existing = filled_patient();
    existing.patient_id = String::from("patient_42");
    s.patient = existing;
    s.patient_provided = true;
    let cmd = s.step(Event::PatientForm(PatientFormEvent::Delete), 9);
    assert_eq!(cmd, Command::RemovePatient { key: String::from("patient_42") });
    assert_eq!(s.screen, Screens::Main);
    assert_eq!(s.patient, PatientRecord::default());
    assert!(!s.patient_provided);
}

#[test]
fn delete_without_an_identifier_does_nothing() {
    let mut s = on(Screens::PatientForm);
    s.patient = filled_patient();
    s.patient_provided = true;
    let before = s.clone();
    let cmd = s.step(Event::PatientForm(PatientFormEvent::Delete), 9);
    assert_eq!(cmd, Command::Idle);
    assert_eq!(s, before);
    let mut empty = on(Screens::PatientForm);
    assert_eq!(empty.handle(Event::PatientForm(PatientFormEvent::Delete)), Command::Idle);
    assert_eq!(empty, on(Screens::PatientForm));
}

#[test]
fn back_from_the_patient_form_discards_the_edits() {
    let mut s = on(Screens::PatientForm);
    s.patient = filled_patient();
    s.patient_provided = true;
    s.medicine = filled_medicine();
    let cmd = s.step(Event::PatientForm(PatientFormEvent::Back), 9);
    assert_eq!(cmd, Command::Idle);
    assert_eq!(s.screen, Screens::Main);
    assert_eq!(s.patient, PatientRecord::default());
    assert!(!s.patient_provided);
    assert_eq!(s.medicine, filled_medicine());
}

#[test]
fn back_from_the_list_returns_to_the_main_screen() {
    let mut s = on(Screens::Patients);
    s.patient = filled_patient();
    let cmd = s.step(Event::Patients(PatientListEvent::Back), 0);
    assert_eq!(cmd, Command::Idle);
    assert_eq!(s.screen, Screens::Main);
    assert_eq!(s.patient, filled_patient());
}

#[test]
fn saving_a_medication_stores_the_sample_and_clears_the_form() {
    let mut s = on(Screens::MedicationForm);
    s.medicine = filled_medicine();
    s.patient = filled_patient();
    let cmd = s.step(Event::MedicationForm(MedicationFormEvent::Save), 1700000000000);
    assert_eq!(
        cmd,
        Command::PutMedication {
            key: String::from("medication_1700000000000"),
            medication: Medication {
                name: String::from("Sample Medication"),
                medication_string: String::from("Sample String"),
                supplier: String::from("Sample Supplier"),
                cost_per_pill_bits: 0.0f32.to_bits(),
            },
        }
    );
    assert_eq!(s.screen, Screens::MedicationForm);
    assert_eq!(s.medicine, Medication::default());
    assert_eq!(s.patient, filled_patient());
}

#[test]
fn save_and_return_on_the_medication_form_goes_to_the_main_screen() {
    let mut s = on(Screens::MedicationForm);
    s.medicine = filled_medicine();
    let cmd = s.medication_form_step(MedicationFormEvent::SaveAndReturn, 77);
    assert_eq!(
        cmd,
        Command::PutMedication {
            key: String::from("medication_77"),
            medication: Medication::sample(),
        }
    );
    assert_eq!(s.screen, Screens::Main);
    assert_eq!(s.medicine, Medication::default());
}

#[test]
fn back_from_the_medication_form_discards_the_edits() {
    let mut s = on(Screens::MedicationForm);
    s.medicine = filled_medicine();
    let cmd = s.step(Event::MedicationForm(MedicationFormEvent::Back), 0);
    assert_eq!(cmd, Command::Idle);
    assert_eq!(s.screen, Screens::Main);
    assert_eq!(s.medicine, Medication::default());
}

#[test]
fn events_of_a_screen_that_is_not_shown_are_ignored() {
    let screens = [Screens::Main, Screens::PatientForm, Screens::Patients, Screens::MedicationForm];
    for screen in screens {
        let mut chosen = filled_patient();
        chosen.patient_id = String::from("patient_1");
        let events = [
            (Screens::Main, Event::Main(MainEvent::AddPatient)),
            (Screens::Main, Event::Main(MainEvent::Exit)),
            (Screens::PatientForm, Event::PatientForm(PatientFormEvent::Save)),
            (Screens::PatientForm, Event::PatientForm(PatientFormEvent::Back)),
            (Screens::Patients, Event::Patients(PatientListEvent::Select(chosen))),
            (Screens::Patients, Event::Patients(PatientListEvent::Back)),
            (Screens::MedicationForm, Event::MedicationForm(MedicationFormEvent::Save)),
            (Screens::MedicationForm, Event::MedicationForm(MedicationFormEvent::Back)),
        ];
        for (home, event) in events {
            if home == screen {
                continue;
            }
            let mut s = on(screen);
            s.patient = filled_patient();
            s.medicine = filled_medicine();
            let before = s.clone();
            assert_eq!(s.step(event.clone(), 3), Command::Idle, "{:?} on {:?}", event, screen);
            assert_eq!(s, before);
            assert_eq!(s.handle(event), Command::Idle);
            assert_eq!(s, before);
        }
    }
}

#[test]
fn only_saves_that_make_an_identifier_read_the_clock() {
    let mut s = on(Screens::PatientForm);
    assert!(s.step_reads_clock(&Event::PatientForm(PatientFormEvent::Save)));
    assert!(s.step_reads_clock(&Event::PatientForm(PatientFormEvent::SaveAndReturn)));
    assert!(!s.step_reads_clock(&Event::PatientForm(PatientFormEvent::Delete)));
    assert!(!s.step_reads_clock(&Event::PatientForm(PatientFormEvent::Back)));
    assert!(!s.step_reads_clock(&Event::MedicationForm(MedicationFormEvent::Save)));
    assert!(!s.step_reads_clock(&Event::Main(MainEvent::AddPatient)));
    s.patient.patient_id = String::from("patient_1");
    assert!(!s.step_reads_clock(&Event::PatientForm(PatientFormEvent::Save)));
    assert!(!s.step_reads_clock(&Event::PatientForm(PatientFormEvent::SaveAndReturn)));
    let m = on(Screens::MedicationForm);
    assert!(m.step_reads_clock(&Event::MedicationForm(MedicationFormEvent::Save)));
    assert!(m.step_reads_clock(&Event::MedicationForm(MedicationFormEvent::SaveAndReturn)));
    assert!(!m.step_reads_clock(&Event::MedicationForm(MedicationFormEvent::Back)));
    assert!(!m.step_reads_clock(&Event::PatientForm(PatientFormEvent::Save)));
}

#[test]
fn handle_stamps_a_new_record_with_the_present_time() {
    let mut s = on(Screens::PatientForm);
    s.patient = filled_patient();
    let cmd = s.handle(Event::PatientForm(PatientFormEvent::Save));
    match cmd {
        Command::PutPatient { key, record } => {
            assert_eq!(record.patient_id, key);
            let millis: i64 = key.strip_prefix("patient_").unwrap().parse().unwrap();
            // Later than 1 January 2020 and earlier than the year 2200.
            assert!(millis > 1_577_836_800_000);
            assert!(millis < 7_258_118_400_000);
            assert_eq!(record.patient_name, "Jane Doe");
            assert_eq!(record.city, "Springfield");
        }
        other => panic!("save gave {:?}", other),
    }
    assert_eq!(s.patient, PatientRecord::default());
    assert_eq!(s.screen, Screens::PatientForm);
}

#[test]
fn handle_stamps_a_medication_with_the_present_time() {
    let mut s = on(Screens::MedicationForm);
    let cmd = s.handle(Event::MedicationForm(MedicationFormEvent::SaveAndReturn));
    match cmd {
        Command::PutMedication { key, medication } => {
            let millis: i64 = key.strip_prefix("medication_").unwrap().parse().unwrap();
            assert!(millis > 1_577_836_800_000);
            assert_eq!(medication, Medication::sample());
        }
        other => panic!("save gave {:?}", other),
    }
    assert_eq!(s.screen, Screens::Main);
}

#[test]
fn handle_keeps_an_identifier_without_asking_the_time() {
    let mut s = on(Screens::PatientForm);
    let mut existing = filled_patient();
    existing.patient_id = String::from("patient_42");
    s.patient = existing.clone();
    let cmd = s.handle(Event::PatientForm(PatientFormEvent::SaveAndReturn));
    assert_eq!(cmd, Command::PutPatient { key: String::from("patient_42"), record: existing });
    assert_eq!(s.screen, Screens::Main);
}

#[test]
fn a_walk_through_the_screens() {
    let mut s = Session::new();
    assert_eq!(s.handle(Event::Main(MainEvent::AddPatient)), Command::Idle);
    assert_eq!(s.screen, Screens::PatientForm);
    s.patient.patient_name = String::from("Bob");
    let saved = s.step(Event::PatientForm(PatientFormEvent::SaveAndReturn), 1000);
    assert_eq!(s.screen, Screens::Main);
    let record = match saved {
        Command::PutPatient { key, record } => {
            assert_eq!(key, "patient_1000");
            record
        }
        other => panic!("save gave {:?}", other),
    };
    assert_eq!(s.handle(Event::Main(MainEvent::ViewPatients)), Command::Idle);
    assert_eq!(s.handle(Event::Patients(PatientListEvent::Select(record.clone()))), Command::Idle);
    assert_eq!(s.screen, Screens::PatientForm);
    assert!(s.patient_provided);
    assert_eq!(s.patient, record);
    let removed = s.handle(Event::PatientForm(PatientFormEvent::Delete));
    assert_eq!(removed, Command::RemovePatient { key: String::from("patient_1000") });
    assert_eq!(s, Session::new());
}
