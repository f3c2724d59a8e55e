//! The patient list: which entries of the store are shown for a search
//! term, and in what order.

use vstd::prelude::*;
use vstd::string::*;
use vstd::utf8::encode_utf8;
use crate::record::{PatientRecord, PatientView};
use crate::text::{bytes_le, contains, is_substring, lex_le, lowercase, to_lowercase};
use crate::text::{lemma_lex_le_antisymmetric, lemma_lex_le_reflexive, lemma_lex_le_total};
use crate::text::lemma_lex_le_transitive;
use crate::text::lemma_substring_basics;

verus! {

/// The search: the term, in lower case, stands in the identifier or in the
/// name of the patient, both in lower case.
pub open spec fn matches_term(p: PatientView, term: Seq<char>) -> bool {
    is_substring(lowercase(p.patient_id), lowercase(term)) || is_substring(
        lowercase(p.patient_name),
        lowercase(term),
    )
}

/// The same search on a term that is in lower case already.
pub open spec fn matches_folded(p: PatientView, folded: Seq<char>) -> bool {
    is_substring(lowercase(p.patient_id), folded) || is_substring(
        lowercase(p.patient_name),
        folded,
    )
}

/// What the search makes of one entry of the store: the record, where the
/// entry could be read and the record matches the term.
pub open spec fn chosen(term: Seq<char>) -> spec_fn(Option<PatientRecord>) -> Option<
    PatientRecord,
> {
    |entry: Option<PatientRecord>|
        match entry {
            Some(record) => if matches_term(record@, term) {
                Some(record)
            } else {
                None
            },
            None => None,
        }
}

/// What a scan for every record makes of one entry of the store: the record,
/// where the entry could be read.
pub open spec fn readable() -> spec_fn(Option<PatientRecord>) -> Option<PatientRecord> {
    |entry: Option<PatientRecord>| entry
}

/// The records that a scan of `entries` for `term` gives, in the order of
/// the entries. An entry that could not be read is `None` and is passed
/// over.
pub open spec fn scan_result(entries: Seq<Option<PatientRecord>>, term: Seq<char>) -> Seq<
    PatientRecord,
> {
    entries.filter_map(chosen(term))
}

/// The key by which the list is ordered: the name, in UTF-8.
pub open spec fn name_key(record: PatientRecord) -> Seq<u8> {
    encode_utf8(record.patient_name@)
}

/// The records of one name.
pub open spec fn named(key: Seq<u8>) -> spec_fn(PatientRecord) -> bool {
    |record: PatientRecord| name_key(record) == key
}

/// Names ascend: no record comes before one whose name, byte for byte,
/// comes earlier.
pub open spec fn sorted_by_name(s: Seq<PatientRecord>) -> bool {
    forall|i: int, j: int|
        0 <= i < j < s.len() ==> lex_le(#[trigger] name_key(s[i]), #[trigger] name_key(s[j]))
}

/// `out` holds the records of `inp`, each as often, and those of one name
/// in the order they have in `inp`.
pub open spec fn same_within_names(out: Seq<PatientRecord>, inp: Seq<PatientRecord>) -> bool {
    forall|key: Seq<u8>| #[trigger] out.filter(named(key)) == inp.filter(named(key))
}

/// `out` is `inp` sorted by name, records of one name staying in their
/// order.
pub open spec fn is_sorted_by_name_of(out: Seq<PatientRecord>, inp: Seq<PatientRecord>) -> bool {
    sorted_by_name(out) && same_within_names(out, inp)
}

/// Whether the record matches a term that is in lower case already.
pub fn matches_folded_term(record: &PatientRecord, folded: &str) -> (b: bool)
    ensures
        b == matches_folded(record@, folded@),
{
    let id = to_lowercase(record.patient_id.as_str());
    if contains(id.as_str(), folded) {
        return true;
    }
    let name = to_lowercase(record.patient_name.as_str());
    contains(name.as_str(), folded)
}

/// Whether the record matches the search term. Every record matches the
/// empty term.
pub fn matches_search(record: &PatientRecord, term: &str) -> (b: bool)
    ensures
        b == matches_term(record@, term@),
        term@.len() == 0 ==> b,
{
    let folded = to_lowercase(term);
    proof {
        if term@.len() == 0 {
            assert(folded@ =~= Seq::<char>::empty());
            lemma_substring_basics(lowercase(record@.patient_id));
        }
    }
    matches_folded_term(record, folded.as_str())
}

/// The records among `entries` that match `term`, in the order of the
/// entries. For the empty term these are all the entries that could be
/// read.
pub fn scan_filter(entries: Vec<Option<PatientRecord>>, term: &str) -> (out: Vec<PatientRecord>)
    ensures
        out@ == scan_result(entries@, term@),
        term@.len() == 0 ==> out@ == entries@.filter_map(readable()),
{
    let folded = to_lowercase(term);
    let ghost all = entries@;
    let mut out: Vec<PatientRecord> = Vec::new();
    for entry in it: entries
        invariant
            it.seq() == all,
            folded@ == lowercase(term@),
            term@.len() == 0 ==> folded@.len() == 0,
            out@ == all.take(it.index()).filter_map(chosen(term@)),
            term@.len() == 0 ==> out@ == all.take(it.index()).filter_map(readable()),
    {
        proof {
            all.lemma_filter_map_take_succ(chosen(term@), it.index());
            all.lemma_filter_map_take_succ(readable(), it.index());
        }
        match entry {
            Some(record) => {
                proof {
                    if term@.len() == 0 {
                        assert(folded@ =~= Seq::<char>::empty());
                        lemma_substring_basics(lowercase(record@.patient_id));
                    }
                }
                if matches_folded_term(&record, folded.as_str()) {
                    out.push(record);
                }
            },
            None => {},
        }
    }
    assert(all.take(all.len() as int) =~= all);
    out
}

/// Whether the name of `a` comes no later than that of `b`.
fn name_le(a: &PatientRecord, b: &PatientRecord) -> (r: bool)
    ensures
        r == lex_le(name_key(*a), name_key(*b)),
{
    bytes_le(a.patient_name.as_str().as_bytes(), b.patient_name.as_str().as_bytes())
}

/// Puts `record` into the sorted `list`, after every record whose name
/// comes no later than its own.
fn insert_by_name(list: &mut Vec<PatientRecord>, record: PatientRecord)
    requires
        sorted_by_name(old(list)@),
    ensures
        sorted_by_name(final(list)@),
        same_within_names(final(list)@, old(list)@.push(record)),
{
    let mut p: usize = list.len();
    while p > 0 && !name_le(&list[p - 1], &record)
        invariant
            p <= list.len(),
            list@ == old(list)@,
            forall|j: int| p <= j < list.len() ==> !lex_le(name_key(list@[j]), name_key(record)),
        decreases p,
    {
        p -= 1;
    }
    proof {
        lemma_insert_keeps_sorted(list@, p as int, record);
        assert forall|key: Seq<u8>| #[trigger]
            list@.insert(p as int, record).filter(named(key)) == list@.push(record).filter(
                named(key),
            ) by {
            lemma_insert_keeps_names(list@, p as int, record, key);
        }
    }
    list.insert(p, record);
}

/// A record put where all before it come no later and all after it come
/// later leaves the list sorted.
proof fn lemma_insert_keeps_sorted(s: Seq<PatientRecord>, p: int, x: PatientRecord)
    requires
        sorted_by_name(s),
        0 <= p <= s.len(),
        forall|j: int| p <= j < s.len() ==> !lex_le(name_key(s[j]), name_key(x)),
        p > 0 ==> lex_le(name_key(s[p - 1]), name_key(x)),
    ensures
        sorted_by_name(s.insert(p, x)),
{
    let t = s.insert(p, x);
    assert forall|i: int, j: int| 0 <= i < j < t.len() implies lex_le(
        #[trigger] name_key(t[i]),
        #[trigger] name_key(t[j]),
    ) by {
        if j < p {
            assert(t[i] == s[i] && t[j] == s[j]);
        } else if j == p {
            assert(t[i] == s[i] && t[j] == x);
            if i < p - 1 {
                lemma_lex_le_transitive(name_key(s[i]), name_key(s[p - 1]), name_key(x));
            }
        } else if i < p {
            assert(t[i] == s[i] && t[j] == s[j - 1]);
        } else if i == p {
            assert(t[i] == x && t[j] == s[j - 1]);
            lemma_lex_le_total(name_key(x), name_key(s[j - 1]));
        } else {
            assert(t[i] == s[i - 1] && t[j] == s[j - 1]);
        }
    }
}

/// A record put before none of its own name stands, among the records of
/// each name, where it would stand at the end of the list.
proof fn lemma_insert_keeps_names(s: Seq<PatientRecord>, p: int, x: PatientRecord, key: Seq<u8>)
    requires
        0 <= p <= s.len(),
        forall|j: int| p <= j < s.len() ==> !lex_le(name_key(s[j]), name_key(x)),
    ensures
        s.insert(p, x).filter(named(key)) == s.push(x).filter(named(key)),
{
    let f = named(key);
    let head = s.subrange(0, p);
    let tail = s.subrange(p, s.len() as int);
    assert(s =~= head + tail);
    Seq::filter_distributes_over_add(head, tail, f);
    Seq::filter_distributes_over_add(head.push(x), tail, f);
    head.lemma_filter_push(x, f);
    s.lemma_filter_push(x, f);
    if f(x) {
        assert(tail.filter(f).len() == 0) by {
            if tail.filter(f).len() > 0 {
                tail.lemma_filter_pred(f, 0);
                let y = tail.filter(f)[0];
                assert(tail.filter(f).contains(y));
                tail.lemma_filter_contains_rev(f, y);
                let j = choose|j: int| 0 <= j < tail.len() && tail[j] == y;
                assert(s[p + j] == y);
                lemma_lex_le_reflexive(name_key(x));
            }
        }
        assert(head.filter(f).push(x) + tail.filter(f) =~= (head.filter(f) + tail.filter(f)).push(
            x,
        ));
    }
}

/// A sorted list holds the records that were sorted, and no others.
pub proof fn lemma_sorted_keeps_records(out: Seq<PatientRecord>, inp: Seq<PatientRecord>)
    requires
        is_sorted_by_name_of(out, inp),
    ensures
        forall|record: PatientRecord| out.contains(record) <==> inp.contains(record),
{
    assert forall|record: PatientRecord| out.contains(record) <==> inp.contains(record) by {
        let f = named(name_key(record));
        assert(out.filter(f) == inp.filter(f));
        if out.contains(record) {
            let i = choose|i: int| 0 <= i < out.len() && out[i] == record;
            out.lemma_filter_contains(f, i);
            inp.lemma_filter_contains_rev(f, record);
        }
        if inp.contains(record) {
            let i = choose|i: int| 0 <= i < inp.len() && inp[i] == record;
            inp.lemma_filter_contains(f, i);
            out.lemma_filter_contains_rev(f, record);
        }
    }
}

/// Sorting by name has one result: two lists that are both `inp` sorted by
/// name are the same list.
pub proof fn lemma_sorted_by_name_is_unique(
    a: Seq<PatientRecord>,
    b: Seq<PatientRecord>,
    inp: Seq<PatientRecord>,
)
    requires
        is_sorted_by_name_of(a, inp),
        is_sorted_by_name_of(b, inp),
    ensures
        a == b,
{
    assert forall|key: Seq<u8>| #[trigger] a.filter(named(key)) == b.filter(named(key)) by {
        assert(a.filter(named(key)) == inp.filter(named(key)));
        assert(b.filter(named(key)) == inp.filter(named(key)));
    }
    lemma_sorted_alike_are_equal(a, b);
}

/// A list that holds a record holds records of its name.
proof fn lemma_own_name_is_held(s: Seq<PatientRecord>, i: int)
    requires
        0 <= i < s.len(),
    ensures
        s.filter(named(name_key(s[i]))).contains(s[i]),
        s.filter(named(name_key(s[i]))).len() > 0,
{
    s.lemma_filter_contains(named(name_key(s[i])), i);
}

/// In a sorted list no name comes later than that of the last record.
proof fn lemma_last_name_is_latest(s: Seq<PatientRecord>, x: PatientRecord)
    requires
        sorted_by_name(s),
        s.contains(x),
    ensures
        lex_le(name_key(x), name_key(s.last())),
{
    let i = choose|i: int| 0 <= i < s.len() && s[i] == x;
    if i == s.len() - 1 {
        lemma_lex_le_reflexive(name_key(x));
    } else {
        assert(lex_le(name_key(s[i]), name_key(s[s.len() - 1])));
    }
}

/// Two sorted lists that hold, of each name, the same records in the same
/// order are the same list.
proof fn lemma_sorted_alike_are_equal(a: Seq<PatientRecord>, b: Seq<PatientRecord>)
    requires
        sorted_by_name(a),
        sorted_by_name(b),
        same_within_names(a, b),
    ensures
        a == b,
    decreases a.len(),
{
    if a.len() == 0 || b.len() == 0 {
        if a.len() > 0 {
            lemma_own_name_is_held(a, 0);
            assert(a.filter(named(name_key(a[0]))) == b.filter(named(name_key(a[0]))));
            b.lemma_filter_len(named(name_key(a[0])));
        }
        if b.len() > 0 {
            lemma_own_name_is_held(b, 0);
            assert(a.filter(named(name_key(b[0]))) == b.filter(named(name_key(b[0]))));
            a.lemma_filter_len(named(name_key(b[0])));
        }
        assert(a =~= b);
    } else {
        let x = a.last();
        let y = b.last();
        let fx = named(name_key(x));
        let fy = named(name_key(y));
        let a0 = a.drop_last();
        let b0 = b.drop_last();
        assert(a =~= a0.push(x));
        assert(b =~= b0.push(y));
        // Each last record stands in the other list too, so the two last
        // names are the same name.
        lemma_own_name_is_held(a, a.len() - 1);
        assert(a.filter(fx) == b.filter(fx));
        b.lemma_filter_contains_rev(fx, x);
        lemma_last_name_is_latest(b, x);
        lemma_own_name_is_held(b, b.len() - 1);
        assert(a.filter(fy) == b.filter(fy));
        a.lemma_filter_contains_rev(fy, y);
        lemma_last_name_is_latest(a, y);
        lemma_lex_le_antisymmetric(name_key(x), name_key(y));
        // Hence they are the last of the same name, and the same record.
        a0.lemma_filter_push(x, fx);
        b0.lemma_filter_push(y, fx);
        assert(a0.filter(fx).push(x).last() == b0.filter(fx).push(y).last());
        assert(x == y);
        assert forall|key: Seq<u8>| #[trigger]
            a0.filter(named(key)) == b0.filter(named(key)) by {
            a0.lemma_filter_push(x, named(key));
            b0.lemma_filter_push(y, named(key));
            assert(a.filter(named(key)) == b.filter(named(key)));
            if named(key)(x) {
                assert(a0.filter(named(key)).push(x).drop_last() =~= a0.filter(named(key)));
                assert(b0.filter(named(key)).push(y).drop_last() =~= b0.filter(named(key)));
            }
        }
        assert(sorted_by_name(a0)) by {
            assert forall|i: int, j: int| 0 <= i < j < a0.len() implies lex_le(
                #[trigger] name_key(a0[i]),
                #[trigger] name_key(a0[j]),
            ) by {
                assert(a0[i] == a[i] && a0[j] == a[j]);
            }
        }
        assert(sorted_by_name(b0)) by {
            assert forall|i: int, j: int| 0 <= i < j < b0.len() implies lex_le(
                #[trigger] name_key(b0[i]),
                #[trigger] name_key(b0[j]),
            ) by {
                assert(b0[i] == b[i] && b0[j] == b[j]);
            }
        }
        lemma_sorted_alike_are_equal(a0, b0);
    }
}

/// The records sorted by name, ascending. Names are compared byte by byte
/// in UTF-8, which is the order of their code points; records of one name
/// stay in the order in which they came.
pub fn sort_by_name(records: Vec<PatientRecord>) -> (out: Vec<PatientRecord>)
    ensures
        is_sorted_by_name_of(out@, records@),
{
    let ghost all = records@;
    let mut out: Vec<PatientRecord> = Vec::new();
    assert(all.take(0) =~= Seq::<PatientRecord>::empty());
    for record in it: records
        invariant
            it.seq() == all,
            is_sorted_by_name_of(out@, all.take(it.index())),
    {
        let ghost before = out@;
        let ghost seen = all.take(it.index());
        insert_by_name(&mut out, record);
        proof {
            assert(all.take(it.index() + 1) =~= seen.push(record));
            assert forall|key: Seq<u8>| #[trigger]
                out@.filter(named(key)) == seen.push(record).filter(named(key)) by {
                assert(out@.filter(named(key)) == before.push(record).filter(named(key)));
                before.lemma_filter_push(record, named(key));
                seen.lemma_filter_push(record, named(key));
                assert(before.filter(named(key)) == seen.filter(named(key)));
            }
        }
    }
    assert(all.take(all.len() as int) =~= all);
    out
}

/// What the list screen shows for a search term: the entries that match,
/// sorted by name. For the empty term these are all the entries that could
/// be read.
pub fn patient_list(entries: Vec<Option<PatientRecord>>, term: &str) -> (out: Vec<PatientRecord>)
    ensures
        is_sorted_by_name_of(out@, scan_result(entries@, term@)),
        term@.len() == 0 ==> is_sorted_by_name_of(out@, entries@.filter_map(readable())),
{
    sort_by_name(scan_filter(entries, term))
}

} // verus!
