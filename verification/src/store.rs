//! The record store, as the steps of a session see it.
//!
//! The store itself is kept by the front end. What is stated here is what
//! its commands mean, what a scan hands back, and what follows for the
//! patient list after a record was saved or deleted.

use vstd::prelude::*;
use crate::listing::{is_sorted_by_name_of, lemma_sorted_keeps_records, matches_term, chosen};
use crate::listing::{readable, scan_result};
use crate::record::{MedicationView, PatientRecord, PatientView};
use crate::session::{
    next, patient_form_next, stored_patient, CommandView, EventView, PatientFormEvent,
    SessionView,
};

verus! {

/// What stands under one key of the store.
pub ghost enum Stored {
    Patient(PatientView),
    Medication(MedicationView),
}

/// The store after the front end has carried out `cmd` on `contents`.
pub open spec fn after(contents: Map<Seq<char>, Stored>, cmd: CommandView) -> Map<
    Seq<char>,
    Stored,
> {
    match cmd {
        CommandView::PutPatient { key, record } => contents.insert(key, Stored::Patient(record)),
        CommandView::RemovePatient { key } => contents.remove(key),
        CommandView::PutMedication { key, medication } => contents.insert(
            key,
            Stored::Medication(medication),
        ),
        CommandView::Idle => contents,
        CommandView::Exit => contents,
    }
}

/// Every patient in the store stands under its own identifier.
pub open spec fn keyed_by_id(contents: Map<Seq<char>, Stored>) -> bool {
    forall|key: Seq<char>, p: PatientView|
        #[trigger] contents.contains_pair(key, Stored::Patient(p)) ==> p.patient_id == key
}

/// `entries` is what a scan of `contents` hands to the patient list: every
/// entry that could be read is a patient of the store, and every patient of
/// the store is among the entries that could be read. A medication is never
/// read as a patient.
pub open spec fn is_scan_of(
    entries: Seq<Option<PatientRecord>>,
    contents: Map<Seq<char>, Stored>,
) -> bool {
    &&& forall|i: int|
        0 <= i < entries.len() ==> (#[trigger] entries[i] matches Some(record) ==> exists|
            key: Seq<char>,
        |
            contents.contains_pair(key, Stored::Patient(record@)))
    &&& forall|key: Seq<char>, p: PatientView|
        #[trigger] contents.contains_pair(key, Stored::Patient(p)) ==> exists|
            record: PatientRecord,
        |
            record@ == p && #[trigger] entries.contains(Some(record))
}

/// Whatever step a session takes, its command leaves every patient of the
/// store under its own identifier.
pub proof fn lemma_steps_keep_store_keyed(
    contents: Map<Seq<char>, Stored>,
    s: SessionView,
    e: EventView,
    millis: int,
)
    requires
        keyed_by_id(contents),
    ensures
        keyed_by_id(after(contents, next(s, e, millis).1)),
{
    let cmd = next(s, e, millis).1;
    let done = after(contents, cmd);
    assert forall|key: Seq<char>, p: PatientView|
        #[trigger] done.contains_pair(key, Stored::Patient(p)) implies p.patient_id == key by {
        if !contents.contains_pair(key, Stored::Patient(p)) {
            assert(cmd is PutPatient);
        }
    }
}

/// A patient that was saved is in the list: after Save or Save-and-Return,
/// a scan of the store for a term that the saved record matches lists a
/// record equal to it, field for field.
pub proof fn lemma_saved_patient_is_listed(
    contents: Map<Seq<char>, Stored>,
    s: SessionView,
    e: PatientFormEvent,
    millis: int,
    entries: Seq<Option<PatientRecord>>,
    term: Seq<char>,
    list: Seq<PatientRecord>,
)
    requires
        e == PatientFormEvent::Save || e == PatientFormEvent::SaveAndReturn,
        is_scan_of(entries, after(contents, patient_form_next(s, e, millis).1)),
        matches_term(stored_patient(s.patient, millis), term),
        is_sorted_by_name_of(list, scan_result(entries, term)),
    ensures
        exists|i: int| 0 <= i < list.len() && (#[trigger] list[i])@ == stored_patient(
            s.patient,
            millis,
        ),
{
    let saved = stored_patient(s.patient, millis);
    let done = after(contents, patient_form_next(s, e, millis).1);
    assert(done.contains_pair(saved.patient_id, Stored::Patient(saved)));
    let record = choose|record: PatientRecord|
        record@ == saved && #[trigger] entries.contains(Some(record));
    let at = choose|at: int| 0 <= at < entries.len() && entries[at] == Some(record);
    lemma_scan_keeps_match(entries, term, at);
    lemma_sorted_keeps_records(list, scan_result(entries, term));
    assert(list.contains(record));
}

/// A patient that was saved is read back: after Save or Save-and-Return,
/// the list of all entries that can be read holds a record equal to the
/// saved one, field for field.
pub proof fn lemma_saved_patient_is_read(
    contents: Map<Seq<char>, Stored>,
    s: SessionView,
    e: PatientFormEvent,
    millis: int,
    entries: Seq<Option<PatientRecord>>,
    list: Seq<PatientRecord>,
)
    requires
        e == PatientFormEvent::Save || e == PatientFormEvent::SaveAndReturn,
        is_scan_of(entries, after(contents, patient_form_next(s, e, millis).1)),
        is_sorted_by_name_of(list, entries.filter_map(readable())),
    ensures
        exists|i: int| 0 <= i < list.len() && (#[trigger] list[i])@ == stored_patient(
            s.patient,
            millis,
        ),
{
    let saved = stored_patient(s.patient, millis);
    let done = after(contents, patient_form_next(s, e, millis).1);
    assert(done.contains_pair(saved.patient_id, Stored::Patient(saved)));
    let record = choose|record: PatientRecord|
        record@ == saved && #[trigger] entries.contains(Some(record));
    let at = choose|at: int| 0 <= at < entries.len() && entries[at] == Some(record);
    lemma_filter_map_keeps(entries, readable(), at);
    lemma_sorted_keeps_records(list, entries.filter_map(readable()));
    assert(list.contains(record));
}

/// A patient that was deleted is gone: after Delete on a form with an
/// identifier, no scan of the store lists a record with that identifier,
/// whatever the search term.
pub proof fn lemma_deleted_patient_is_not_listed(
    contents: Map<Seq<char>, Stored>,
    s: SessionView,
    millis: int,
    entries: Seq<Option<PatientRecord>>,
    term: Seq<char>,
    list: Seq<PatientRecord>,
)
    requires
        keyed_by_id(contents),
        s.patient.patient_id.len() > 0,
        is_scan_of(
            entries,
            after(contents, patient_form_next(s, PatientFormEvent::Delete, millis).1),
        ),
        is_sorted_by_name_of(list, scan_result(entries, term)),
    ensures
        forall|i: int| 0 <= i < list.len() ==> (#[trigger] list[i])@.patient_id != s.patient.patient_id,
{
    let id = s.patient.patient_id;
    let done = after(contents, patient_form_next(s, PatientFormEvent::Delete, millis).1);
    assert(done == contents.remove(id));
    lemma_sorted_keeps_records(list, scan_result(entries, term));
    assert forall|i: int| 0 <= i < list.len() implies (#[trigger] list[i])@.patient_id != id by {
        let record = list[i];
        assert(list.contains(record));
        entries.lemma_filter_map_contains(chosen(term), record);
        let entry = choose|entry: Option<PatientRecord>| #[trigger]
            entries.contains(entry) && chosen(term)(entry) == Some(record);
        assert(entry == Some(record));
        let at = choose|at: int| 0 <= at < entries.len() && entries[at] == entry;
        let key = choose|key: Seq<char>| done.contains_pair(key, Stored::Patient(record@));
        assert(contents.contains_pair(key, Stored::Patient(record@)));
    }
}

/// Delete on a form without an identifier asks nothing of the store and
/// leaves the session as it is.
pub proof fn lemma_delete_without_id_does_nothing(
    contents: Map<Seq<char>, Stored>,
    s: SessionView,
    millis: int,
)
    requires
        s.patient.patient_id.len() == 0,
    ensures
        patient_form_next(s, PatientFormEvent::Delete, millis) == (s, CommandView::Idle),
        after(contents, patient_form_next(s, PatientFormEvent::Delete, millis).1) == contents,
{
}

/// An entry that can be read and matches the term is in the result of the
/// scan.
proof fn lemma_scan_keeps_match(entries: Seq<Option<PatientRecord>>, term: Seq<char>, at: int)
    requires
        0 <= at < entries.len(),
        entries[at] matches Some(record) && matches_term(record@, term),
    ensures
        scan_result(entries, term).contains(entries[at]->0),
{
    lemma_filter_map_keeps(entries, chosen(term), at);
}

/// What `f` makes of an entry is in what it makes of all of them.
proof fn lemma_filter_map_keeps(
    entries: Seq<Option<PatientRecord>>,
    f: spec_fn(Option<PatientRecord>) -> Option<PatientRecord>,
    at: int,
)
    requires
        0 <= at < entries.len(),
        f(entries[at]) is Some,
    ensures
        entries.filter_map(f).contains(f(entries[at])->0),
    decreases entries.len(),
{
    let rest = entries.drop_last();
    let all = entries.filter_map(f);
    if at == entries.len() - 1 {
        assert(all == rest.filter_map(f) + seq![f(entries[at])->0]);
        assert(all[all.len() - 1] == f(entries[at])->0);
    } else {
        lemma_filter_map_keeps(rest, f, at);
        let found = choose|i: int|
            0 <= i < rest.filter_map(f).len() && rest.filter_map(f)[i] == f(entries[at])->0;
        assert(all[found] == f(entries[at])->0);
    }
}

} // verus!
