//! The record model: patients, medications and the calendar date of a birth.
//!
//! Records are flat. Text fields are `String`s whose view is the sequence of
//! their characters; measurements that the front end edits as single-precision
//! numbers are carried here as their IEEE-754 bit patterns, so that a record
//! is held without loss and compared bit for bit.

use vstd::prelude::*;

verus! {

/// The first year a `CalendarDate` may name.
pub const MIN_YEAR: i32 = -262143;

/// The last year a `CalendarDate` may name.
pub const MAX_YEAR: i32 = 262142;

/// Whether `year` is a leap year of the proleptic Gregorian calendar.
pub open spec fn is_leap_year(year: int) -> bool {
    year % 4 == 0 && (year % 100 != 0 || year % 400 == 0)
}

/// The number of days of `month` in `year`; 0 where `month` is no month.
pub open spec fn days_in_month(year: int, month: int) -> int {
    if month == 4 || month == 6 || month == 9 || month == 11 {
        30
    } else if month == 2 {
        if is_leap_year(year) {
            29
        } else {
            28
        }
    } else if 1 <= month <= 12 {
        31
    } else {
        0
    }
}

/// Whether there is a day `day` of month `month` in year `year`, and the
/// year is within the range that a `CalendarDate` can name.
pub open spec fn is_date(year: int, month: int, day: int) -> bool {
    &&& MIN_YEAR <= year <= MAX_YEAR
    &&& 1 <= month <= 12
    &&& 1 <= day <= days_in_month(year, month)
}

/// A day of the proleptic Gregorian calendar, by year, month and day of the
/// month. Every value is a day that exists.
#[derive(Clone, Copy, Debug, PartialEq, Eq, Structural)]
pub struct CalendarDate {
    year: i32,
    month: u32,
    day: u32,
}

impl CalendarDate {
    #[verifier::type_invariant]
    spec fn exists_in_calendar(self) -> bool {
        is_date(self.year as int, self.month as int, self.day as int)
    }

    /// The year.
    pub closed spec fn spec_year(self) -> i32 {
        self.year
    }

    /// The month, from 1 for January.
    pub closed spec fn spec_month(self) -> u32 {
        self.month
    }

    /// The day of the month, from 1.
    pub closed spec fn spec_day(self) -> u32 {
        self.day
    }

    /// 1 January 1970, the date of an empty form.
    pub closed spec fn spec_epoch() -> CalendarDate {
        CalendarDate { year: 1970, month: 1, day: 1 }
    }

    /// The year.
    #[verifier::when_used_as_spec(spec_year)]
    pub fn year(self) -> (y: i32)
        ensures
            y == self.spec_year(),
            is_date(self.spec_year() as int, self.spec_month() as int, self.spec_day() as int),
    {
        proof {
            use_type_invariant(&self);
        }
        self.year
    }

    /// The month, from 1 for January.
    #[verifier::when_used_as_spec(spec_month)]
    pub fn month(self) -> (m: u32)
        ensures
            m == self.spec_month(),
            is_date(self.spec_year() as int, self.spec_month() as int, self.spec_day() as int),
    {
        proof {
            use_type_invariant(&self);
        }
        self.month
    }

    /// The day of the month, from 1.
    #[verifier::when_used_as_spec(spec_day)]
    pub fn day(self) -> (d: u32)
        ensures
            d == self.spec_day(),
            is_date(self.spec_year() as int, self.spec_month() as int, self.spec_day() as int),
    {
        proof {
            use_type_invariant(&self);
        }
        self.day
    }

    /// 1 January 1970, the date of an empty form.
    #[verifier::when_used_as_spec(spec_epoch)]
    pub fn epoch() -> (d: CalendarDate)
        ensures
            d == Self::spec_epoch(),
            d.spec_year() == 1970,
            d.spec_month() == 1,
            d.spec_day() == 1,
    {
        CalendarDate { year: 1970, month: 1, day: 1 }
    }

    /// The date with the given year, month and day, if there is such a day.
    pub fn new(year: i32, month: u32, day: u32) -> (r: Option<CalendarDate>)
        ensures
            r is Some <==> is_date(year as int, month as int, day as int),
            r matches Some(d) ==> d.spec_year() == year && d.spec_month() == month && d.spec_day()
                == day,
    {
        if year < MIN_YEAR || year > MAX_YEAR || month < 1 || month > 12 || day < 1 {
            return None;
        }
        // 262400 is a multiple of 400, so the shift keeps every remainder
        // that the leap-year rule looks at.
        let shifted: u32 = (year + 262400) as u32;
        let leap: bool = shifted % 4 == 0 && (shifted % 100 != 0 || shifted % 400 == 0);
        assert(leap == is_leap_year(year as int));
        let last: u32 = if month == 4 || month == 6 || month == 9 || month == 11 {
            30
        } else if month == 2 {
            if leap {
                29
            } else {
                28
            }
        } else {
            31
        };
        if day <= last {
            Some(CalendarDate { year, month, day })
        } else {
            None
        }
    }

    /// Two dates of the same year, month and day are the same date.
    pub proof fn lemma_same_parts_same_date(self, other: CalendarDate)
        requires
            self.spec_year() == other.spec_year(),
            self.spec_month() == other.spec_month(),
            self.spec_day() == other.spec_day(),
        ensures
            self == other,
    {
    }
}

/// A patient.
///
/// `patient_id` is the key under which the record is stored. It is empty
/// until the record is first saved.
#[derive(Clone, Debug, PartialEq, Eq)]
pub struct PatientRecord {
    pub patient_name: String,
    pub patient_id: String,
    pub address: String,
    pub city: String,
    pub phone_number: String,
    /// Date of birth.
    pub dob: CalendarDate,
    pub pregnant: bool,
    /// Weight, as the bit pattern of a single-precision number.
    pub weight_bits: u32,
    /// Height, as the bit pattern of a single-precision number.
    pub height_bits: u32,
}

/// What a `PatientRecord` holds, field for field.
pub ghost struct PatientView {
    pub patient_name: Seq<char>,
    pub patient_id: Seq<char>,
    pub address: Seq<char>,
    pub city: Seq<char>,
    pub phone_number: Seq<char>,
    pub dob: CalendarDate,
    pub pregnant: bool,
    pub weight_bits: u32,
    pub height_bits: u32,
}

impl PatientView {
    /// The record of an empty form: no text, not pregnant, zero weight and
    /// height, born on 1 January 1970.
    pub open spec fn empty() -> PatientView {
        PatientView {
            patient_name: Seq::empty(),
            patient_id: Seq::empty(),
            address: Seq::empty(),
            city: Seq::empty(),
            phone_number: Seq::empty(),
            dob: CalendarDate::spec_epoch(),
            pregnant: false,
            weight_bits: 0,
            height_bits: 0,
        }
    }

    /// The same record under the identifier `id`.
    pub open spec fn with_id(self, id: Seq<char>) -> PatientView {
        PatientView { patient_id: id, ..self }
    }
}

impl View for PatientRecord {
    type V = PatientView;

    open spec fn view(&self) -> PatientView {
        PatientView {
            patient_name: self.patient_name@,
            patient_id: self.patient_id@,
            address: self.address@,
            city: self.city@,
            phone_number: self.phone_number@,
            dob: self.dob,
            pregnant: self.pregnant,
            weight_bits: self.weight_bits,
            height_bits: self.height_bits,
        }
    }
}

impl Default for PatientRecord {
    /// The record of an empty form.
    fn default() -> (r: PatientRecord)
        ensures
            r@ == PatientView::empty(),
    {
        PatientRecord {
            patient_name: String::new(),
            patient_id: String::new(),
            address: String::new(),
            city: String::new(),
            phone_number: String::new(),
            dob: CalendarDate::epoch(),
            pregnant: false,
            weight_bits: 0,
            height_bits: 0,
        }
    }
}

impl PatientRecord {
    /// Whether the record has been saved before, that is, has an identifier.
    pub fn has_id(&self) -> (b: bool)
        ensures
            b == (self@.patient_id.len() > 0),
    {
        !self.patient_id.as_str().is_empty()
    }
}

/// A medication.
#[derive(Clone, Debug, PartialEq, Eq)]
pub struct Medication {
    pub name: String,
    pub medication_string: String,
    pub supplier: String,
    /// Cost of one pill, as the bit pattern of a single-precision number.
    pub cost_per_pill_bits: u32,
}

/// What a `Medication` holds, field for field.
pub ghost struct MedicationView {
    pub name: Seq<char>,
    pub medication_string: Seq<char>,
    pub supplier: Seq<char>,
    pub cost_per_pill_bits: u32,
}

impl MedicationView {
    /// The medication of an empty form: no text and a cost of zero.
    pub open spec fn empty() -> MedicationView {
        MedicationView {
            name: Seq::empty(),
            medication_string: Seq::empty(),
            supplier: Seq::empty(),
            cost_per_pill_bits: 0,
        }
    }

    /// The fixed sample entry that saving a medication stores.
    pub open spec fn sample() -> MedicationView {
        MedicationView {
            name: "Sample Medication"@,
            medication_string: "Sample String"@,
            supplier: "Sample Supplier"@,
            cost_per_pill_bits: 0,
        }
    }
}

impl View for Medication {
    type V = MedicationView;

    open spec fn view(&self) -> MedicationView {
        MedicationView {
            name: self.name@,
            medication_string: self.medication_string@,
            supplier: self.supplier@,
            cost_per_pill_bits: self.cost_per_pill_bits,
        }
    }
}

impl Default for Medication {
    /// The medication of an empty form.
    fn default() -> (m: Medication)
        ensures
            m@ == MedicationView::empty(),
    {
        Medication {
            name: String::new(),
            medication_string: String::new(),
            supplier: String::new(),
            cost_per_pill_bits: 0,
        }
    }
}

impl Medication {
    /// The fixed sample entry that saving a medication stores.
    pub fn sample() -> (m: Medication)
        ensures
            m@ == MedicationView::sample(),
    {
        Medication {
            name: "Sample Medication".to_string(),
            medication_string: "Sample String".to_string(),
            supplier: "Sample Supplier".to_string(),
            cost_per_pill_bits: 0,
        }
    }
}

} // verus!
