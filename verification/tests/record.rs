use patient_records::record::{MAX_YEAR, MIN_YEAR};
use patient_records::{CalendarDate, Medication, PatientRecord};

#[test]
fn empty_patient_has_no_text_and_zero_measures() {
    let p = PatientRecord::default();
    assert_eq!(p.patient_name, "");
    assert_eq!(p.patient_id, "");
    assert_eq!(p.address, "");
    assert_eq!(p.city, "");
    assert_eq!(p.phone_number, "");
    assert_eq!(p.dob, CalendarDate::epoch());
    assert_eq!((p.dob.year(), p.dob.month(), p.dob.day()), (1970, 1, 1));
    assert!(!p.pregnant);
    assert_eq!(f32::from_bits(p.weight_bits), 0.0);
    assert_eq!(f32::from_bits(p.height_bits), 0.0);
    assert_eq!(p.weight_bits, 0);
    assert_eq!(p.height_bits, 0);
    assert!(!p.has_id());
}

#[test]
fn has_id_tells_saved_from_unsaved() {
    let mut p = PatientRecord::default();
    assert!(!p.has_id());
    p.patient_id = String::from("patient_1");
    assert!(p.has_id());
}

#[test]
fn empty_medication_has_no_text_and_zero_cost() {
    let m = Medication::default();
    assert_eq!(m.name, "");
    assert_eq!(m.medication_string, "");
    assert_eq!(m.supplier, "");
    assert_eq!(f32::from_bits(m.cost_per_pill_bits), 0.0);
}

#[test]
fn sample_medication_is_fixed() {
    let m = Medication::sample();
    assert_eq!(m.name, "Sample Medication");
    assert_eq!(m.medication_string, "Sample String");
    assert_eq!(m.supplier, "Sample Supplier");
    assert_eq!(f32::from_bits(m.cost_per_pill_bits), 0.0);
}

fn parts(date: Option<CalendarDate>) -> Option<(i32, u32, u32)> {
    date.map(|d| (d.year(), d.month(), d.day()))
}

#[test]
fn epoch_is_the_first_of_january_1970() {
    let epoch = CalendarDate::epoch();
    assert_eq!((epoch.year(), epoch.month(), epoch.day()), (1970, 1, 1));
    assert_eq!(CalendarDate::new(1970, 1, 1), Some(epoch));
}

#[test]
fn dates_that_exist_are_made() {
    assert_eq!(parts(CalendarDate::new(2015, 3, 14)), Some((2015, 3, 14)));
    assert_eq!(parts(CalendarDate::new(2024, 2, 29)), Some((2024, 2, 29)));
    assert_eq!(parts(CalendarDate::new(2000, 2, 29)), Some((2000, 2, 29)));
    assert_eq!(parts(CalendarDate::new(-4, 2, 29)), Some((-4, 2, 29)));
    assert_eq!(parts(CalendarDate::new(0, 2, 29)), Some((0, 2, 29)));
    assert_eq!(parts(CalendarDate::new(2023, 12, 31)), Some((2023, 12, 31)));
    assert_eq!(parts(CalendarDate::new(2023, 4, 30)), Some((2023, 4, 30)));
    assert_eq!(parts(CalendarDate::new(MIN_YEAR, 1, 1)), Some((MIN_YEAR, 1, 1)));
    assert_eq!(parts(CalendarDate::new(MAX_YEAR, 12, 31)), Some((MAX_YEAR, 12, 31)));
}

#[test]
fn dates_of_the_same_day_are_equal() {
    assert_eq!(CalendarDate::new(1990, 5, 17), CalendarDate::new(1990, 5, 17));
    assert_ne!(CalendarDate::new(1990, 5, 17), CalendarDate::new(1990, 5, 18));
    assert_ne!(CalendarDate::new(1990, 5, 17), CalendarDate::new(1990, 6, 17));
    assert_ne!(CalendarDate::new(1990, 5, 17), CalendarDate::new(1991, 5, 17));
}

#[test]
fn dates_that_do_not_exist_are_refused() {
    assert_eq!(CalendarDate::new(2015, 0, 14), None);
    assert_eq!(CalendarDate::new(2015, 13, 1), None);
    assert_eq!(CalendarDate::new(2015, 1, 0), None);
    assert_eq!(CalendarDate::new(2015, 1, 32), None);
    assert_eq!(CalendarDate::new(2015, 2, 29), None);
    assert_eq!(CalendarDate::new(1900, 2, 29), None);
    assert_eq!(CalendarDate::new(2100, 2, 29), None);
    assert_eq!(CalendarDate::new(-1, 2, 29), None);
    assert_eq!(CalendarDate::new(2023, 4, 31), None);
    assert_eq!(CalendarDate::new(2023, 6, 31), None);
    assert_eq!(CalendarDate::new(2023, 9, 31), None);
    assert_eq!(CalendarDate::new(2023, 11, 31), None);
    assert_eq!(CalendarDate::new(400000, 1, 1), None);
    assert_eq!(CalendarDate::new(-400000, 1, 1), None);
    assert_eq!(CalendarDate::new(MAX_YEAR + 1, 1, 1), None);
    assert_eq!(CalendarDate::new(MIN_YEAR - 1, 12, 31), None);
    assert_eq!(CalendarDate::new(i32::MAX, 1, 1), None);
    assert_eq!(CalendarDate::new(i32::MIN, 1, 1), None);
    assert_eq!(CalendarDate::new(2023, u32::MAX, 1), None);
    assert_eq!(CalendarDate::new(2023, 1, u32::MAX), None);
}

#[test]
fn dates_agree_with_the_calendar_library() {
    let years: [i32; 9] = [-262143, -401, -4, 0, 1900, 2000, 2023, 2024, 262142];
    for year in years {
        for month in 0..14u32 {
            for day in 0..33u32 {
                let ours = CalendarDate::new(year, month, day).is_some();
                let theirs = chrono::NaiveDate::from_ymd_opt(year, month, day).is_some();
                assert_eq!(ours, theirs, "{}-{}-{}", year, month, day);
            }
        }
    }
    assert_eq!(
        chrono::NaiveDate::from_ymd_opt(MIN_YEAR - 1, 6, 1).is_some(),
        CalendarDate::new(MIN_YEAR - 1, 6, 1).is_some()
    );
    assert_eq!(
        chrono::NaiveDate::from_ymd_opt(MAX_YEAR + 1, 6, 1).is_some(),
        CalendarDate::new(MAX_YEAR + 1, 6, 1).is_some()
    );
}
