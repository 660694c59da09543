//! The import pipeline's data shapes: one delimited attendance row is
//! parsed into an event name and its attendee list, and an attendee list
//! of size k is expanded into the C(k,2) pairwise "met" merge requests
//! that the store receives.

use vstd::prelude::*;

use crate::text::lower_seq;
use crate::text::normalize_name;

verus! {

/// The error type of the delimited-text reader, opaque to the library.
#[verifier::external_type_specification]
#[verifier::external_body]
pub struct ExCsvError(csv::Error);

/// Why an import batch was rejected.
#[derive(Debug, PartialEq, Eq, Structural, Clone, Copy)]
pub enum ImportError {
    /// A record lacked the four leading columns of the fixed layout.
    MalformedRecord,
    /// The delimited input could not be read as records at all.
    InvalidInput,
}

/// One attendance row: an optional event name and the ordered attendee
/// names, as parsed from the row's fixed column layout.
pub struct AttendanceRecord {
    pub event: Option<String>,
    pub attendees: Vec<String>,
}

/// The attendee names of a row, reading the cells after the event column:
/// the longest prefix of non-empty cells (reading stops at the first
/// empty cell; later cells are ignored).
pub open spec fn attendees_spec(cells: Seq<Seq<char>>) -> Seq<Seq<char>>
    decreases cells.len(),
{
    if cells.len() == 0 || cells[0].len() == 0 {
        Seq::empty()
    } else {
        seq![cells[0]] + attendees_spec(cells.drop_first())
    }
}

/// The normalized pairs (names[i], names[j]) for a fixed i and j ranging
/// over j0..names.len().
pub open spec fn row_pairs(names: Seq<Seq<char>>, i: int, j0: int) -> Seq<(Seq<char>, Seq<char>)>
    decreases names.len() - j0,
{
    if 0 <= j0 && j0 < names.len() {
        seq![(lower_seq(names[i]), lower_seq(names[j0]))] + row_pairs(names, i, j0 + 1)
    } else {
        Seq::empty()
    }
}

/// The normalized pairs (names[i], names[j]) for i0 <= i < j < names.len(),
/// in lexicographic index order.
pub open spec fn pairs_from(names: Seq<Seq<char>>, i0: int) -> Seq<(Seq<char>, Seq<char>)>
    decreases names.len() - i0,
{
    if 0 <= i0 && i0 < names.len() {
        row_pairs(names, i0, i0 + 1) + pairs_from(names, i0 + 1)
    } else {
        Seq::empty()
    }
}

/// All unordered attendee pairs of one row, both endpoints normalized to
/// their store keys: one pair per index pair i < j, in lexicographic
/// index order.
pub open spec fn met_pairs_spec(names: Seq<Seq<char>>) -> Seq<(Seq<char>, Seq<char>)> {
    pairs_from(names, 0)
}

/// One fixed-i block of the expansion: its length and its entries.
proof fn lemma_row_pairs_index(names: Seq<Seq<char>>, i: int, j0: int)
    requires
        0 <= j0 <= names.len(),
    ensures
        row_pairs(names, i, j0).len() == names.len() - j0,
        forall|m: int|
            0 <= m < names.len() - j0 ==> #[trigger] row_pairs(names, i, j0)[m] == (
                lower_seq(names[i]),
                lower_seq(names[j0 + m]),
            ),
    decreases names.len() - j0,
{
    if j0 < names.len() {
        lemma_row_pairs_index(names, i, j0 + 1);
        assert forall|m: int| 0 <= m < names.len() - j0 implies #[trigger] row_pairs(
            names,
            i,
            j0,
        )[m] == (lower_seq(names[i]), lower_seq(names[j0 + m])) by {
            if m > 0 {
                assert(row_pairs(names, i, j0)[m] == row_pairs(names, i, j0 + 1)[m - 1]);
            }
        }
    }
}

/// Every pair of the expansion takes its endpoints from two attendee
/// indices i < j, with i at or after the given start index.
proof fn lemma_pairs_from_member(names: Seq<Seq<char>>, i0: int)
    requires
        0 <= i0,
    ensures
        forall|m: int|
            0 <= m < pairs_from(names, i0).len() ==> exists|i: int, j: int|
                i0 <= i < j < names.len() && #[trigger] pairs_from(names, i0)[m] == (
                    lower_seq(names[i]),
                    lower_seq(names[j]),
                ),
    decreases names.len() - i0,
{
    if i0 < names.len() {
        lemma_row_pairs_index(names, i0, i0 + 1);
        lemma_pairs_from_member(names, i0 + 1);
        let width = names.len() - i0 - 1;
        assert forall|m: int| 0 <= m < pairs_from(names, i0).len() implies exists|i: int, j: int|
            i0 <= i < j < names.len() && #[trigger] pairs_from(names, i0)[m] == (
                lower_seq(names[i]),
                lower_seq(names[j]),
            ) by {
            if m < width {
                assert(pairs_from(names, i0)[m] == row_pairs(names, i0, i0 + 1)[m]);
                assert(i0 <= i0 < i0 + 1 + m < names.len() && pairs_from(names, i0)[m] == (
                    lower_seq(names[i0]),
                    lower_seq(names[i0 + 1 + m]),
                ));
            } else {
                assert(pairs_from(names, i0)[m] == pairs_from(names, i0 + 1)[m - width]);
            }
        }
    }
}

/// The size of the expansion, in doubled form to stay within products.
proof fn lemma_pairs_from_count(names: Seq<Seq<char>>, i0: int)
    requires
        0 <= i0 <= names.len(),
    ensures
        2 * pairs_from(names, i0).len() == (names.len() - i0) * (names.len() - i0 - 1),
    decreases names.len() - i0,
{
    if i0 < names.len() {
        lemma_row_pairs_index(names, i0, i0 + 1);
        lemma_pairs_from_count(names, i0 + 1);
        let a = names.len() - i0;
        assert(pairs_from(names, i0) == row_pairs(names, i0, i0 + 1) + pairs_from(names, i0 + 1));
        assert(pairs_from(names, i0).len() == (a - 1) + pairs_from(names, i0 + 1).len());
        assert(2 * pairs_from(names, i0 + 1).len() == (a - 1) * (a - 2));
        assert(2 * (a - 1) + (a - 1) * (a - 2) == a * (a - 1)) by (nonlinear_arith);
    } else {
        assert(pairs_from(names, i0).len() == 0);
        let a = names.len() - i0;
        assert(a * (a - 1) == 0) by (nonlinear_arith)
            requires
                a == 0,
        ;
    }
}

/// The Expander's count: a row with k attendees yields exactly
/// k*(k-1)/2 merge requests — C(k,2) when k >= 2, and none when k < 2.
pub proof fn lemma_expander_count(names: Seq<Seq<char>>)
    ensures
        met_pairs_spec(names).len() == names.len() * (names.len() as int - 1) / 2,
        names.len() < 2 ==> met_pairs_spec(names).len() == 0,
{
    lemma_pairs_from_count(names, 0);
    let k = names.len() as int;
    let x = met_pairs_spec(names).len() as int;
    assert(x == k * (k - 1) / 2) by (nonlinear_arith)
        requires
            2 * x == k * (k - 1),
    ;
    if names.len() < 2 {
        assert(x == 0) by (nonlinear_arith)
            requires
                2 * x == k * (k - 1),
                0 <= k < 2,
        ;
    }
}

/// The Expander's pairs are distinct: when the normalized attendee names
/// are pairwise distinct, no two emitted merge requests are equal.
pub proof fn lemma_expander_distinct(names: Seq<Seq<char>>)
    requires
        forall|p: int, q: int|
            0 <= p < q < names.len() ==> #[trigger] lower_seq(names[p]) != #[trigger] lower_seq(
                names[q],
            ),
    ensures
        forall|m1: int, m2: int|
            0 <= m1 < m2 < met_pairs_spec(names).len() ==> #[trigger] met_pairs_spec(names)[m1]
                != #[trigger] met_pairs_spec(names)[m2],
{
    lemma_pairs_from_distinct(names, 0);
}

proof fn lemma_pairs_from_distinct(names: Seq<Seq<char>>, i0: int)
    requires
        0 <= i0,
        forall|p: int, q: int|
            0 <= p < q < names.len() ==> #[trigger] lower_seq(names[p]) != #[trigger] lower_seq(
                names[q],
            ),
    ensures
        forall|m1: int, m2: int|
            0 <= m1 < m2 < pairs_from(names, i0).len() ==> #[trigger] pairs_from(names, i0)[m1]
                != #[trigger] pairs_from(names, i0)[m2],
    decreases names.len() - i0,
{
    if i0 < names.len() {
        lemma_row_pairs_index(names, i0, i0 + 1);
        lemma_pairs_from_member(names, i0 + 1);
        lemma_pairs_from_distinct(names, i0 + 1);
        let width = names.len() - i0 - 1;
        assert forall|m1: int, m2: int|
            0 <= m1 < m2 < pairs_from(names, i0).len() implies #[trigger] pairs_from(names, i0)[m1]
            != #[trigger] pairs_from(names, i0)[m2] by {
            if m2 < width {
                assert(pairs_from(names, i0)[m1] == row_pairs(names, i0, i0 + 1)[m1]);
                assert(pairs_from(names, i0)[m2] == row_pairs(names, i0, i0 + 1)[m2]);
                assert(lower_seq(names[i0 + 1 + m1]) != lower_seq(names[i0 + 1 + m2]));
            } else if m1 >= width {
                assert(pairs_from(names, i0)[m1] == pairs_from(names, i0 + 1)[m1 - width]);
                assert(pairs_from(names, i0)[m2] == pairs_from(names, i0 + 1)[m2 - width]);
            } else {
                assert(pairs_from(names, i0)[m1] == row_pairs(names, i0, i0 + 1)[m1]);
                assert(pairs_from(names, i0)[m2] == pairs_from(names, i0 + 1)[m2 - width]);
                assert(pairs_from(names, i0)[m1].0 == lower_seq(names[i0]));
                let (i, j) = choose|i: int, j: int|
                    i0 + 1 <= i < j < names.len() && pairs_from(names, i0 + 1)[m2 - width] == (
                        lower_seq(names[i]),
                        lower_seq(names[j]),
                    );
                assert(lower_seq(names[i0]) != lower_seq(names[i]));
            }
        }
    }
}

/// The Expander is complete: every unordered pair of attendee indices
/// appears among the emitted merge requests.
pub proof fn lemma_expander_complete(names: Seq<Seq<char>>, p: int, q: int)
    requires
        0 <= p < q < names.len(),
    ensures
        exists|m: int|
            0 <= m < met_pairs_spec(names).len() && met_pairs_spec(names)[m] == (
                lower_seq(names[p]),
                lower_seq(names[q]),
            ),
{
    lemma_pairs_from_complete(names, 0, p, q);
    let m0 = choose|m: int|
        0 <= m < pairs_from(names, 0).len() && #[trigger] pairs_from(names, 0)[m] == (
            lower_seq(names[p]),
            lower_seq(names[q]),
        );
    assert(0 <= m0 < met_pairs_spec(names).len() && met_pairs_spec(names)[m0] == (
        lower_seq(names[p]),
        lower_seq(names[q]),
    ));
}

proof fn lemma_pairs_from_complete(names: Seq<Seq<char>>, i0: int, p: int, q: int)
    requires
        0 <= i0 <= p < q < names.len(),
    ensures
        exists|m: int|
            0 <= m < pairs_from(names, i0).len() && pairs_from(names, i0)[m] == (
                lower_seq(names[p]),
                lower_seq(names[q]),
            ),
    decreases p - i0,
{
    lemma_row_pairs_index(names, i0, i0 + 1);
    let width = names.len() - i0 - 1;
    if i0 == p {
        let m = q - i0 - 1;
        assert(pairs_from(names, i0)[m] == row_pairs(names, i0, i0 + 1)[m]);
        assert(0 <= m < pairs_from(names, i0).len() && pairs_from(names, i0)[m] == (
            lower_seq(names[p]),
            lower_seq(names[q]),
        ));
    } else {
        lemma_pairs_from_complete(names, i0 + 1, p, q);
        let m0 = choose|m: int|
            0 <= m < pairs_from(names, i0 + 1).len() && #[trigger] pairs_from(names, i0 + 1)[m]
                == (lower_seq(names[p]), lower_seq(names[q]));
        assert(pairs_from(names, i0)[m0 + width] == pairs_from(names, i0 + 1)[m0]);
        assert(0 <= m0 + width < pairs_from(names, i0).len() && pairs_from(names, i0)[m0 + width]
            == (lower_seq(names[p]), lower_seq(names[q])));
    }
}

/// Parses one delimited row of the fixed import layout: the first three
/// columns are ignored, the fourth is the event name (empty means
/// absent), and the columns after it are attendee names up to the first
/// empty cell. A row with fewer than four columns is malformed.
pub fn parse_row(cells: &Vec<String>) -> (r: Result<AttendanceRecord, ImportError>)
    ensures
        cells@.len() < 4 ==> r == Err::<AttendanceRecord, ImportError>(
            ImportError::MalformedRecord,
        ),
        cells@.len() >= 4 ==> (match r {
            Ok(rec) => {
                &&& (rec.event is Some <==> cells.deep_view()[3].len() > 0)
                &&& (match rec.event {
                    Some(e) => e@ == cells.deep_view()[3],
                    None => true,
                })
                &&& rec.attendees.deep_view() == attendees_spec(cells.deep_view().skip(4))
            },
            Err(_) => false,
        }),
{
    if cells.len() < 4 {
        return Err(ImportError::MalformedRecord);
    }
    let event = if cells[3].as_str().is_empty() {
        None
    } else {
        Some(cells[3].clone())
    };
    let ghost tail = cells.deep_view().skip(4);
    let mut attendees: Vec<String> = Vec::new();
    let mut i: usize = 4;
    while i < cells.len() && !cells[i].as_str().is_empty()
        invariant
            4 <= i <= cells@.len(),
            tail == cells.deep_view().skip(4),
            cells.deep_view().len() == cells@.len(),
            forall|j: int| 4 <= j < i ==> #[trigger] cells.deep_view()[j].len() > 0,
            attendees.deep_view() =~= cells.deep_view().subrange(4, i as int),
        decreases cells@.len() - i,
    {
        let ghost before = attendees.deep_view();
        let c = cells[i].clone();
        proof {
            assert(c.deep_view() == cells.deep_view()[i as int]);
        }
        attendees.push(c);
        proof {
            assert(attendees.deep_view() =~= before.push(cells.deep_view()[i as int]));
            assert(before.push(cells.deep_view()[i as int]) =~= cells.deep_view().subrange(
                4,
                i + 1,
            ));
        }
        i = i + 1;
    }
    proof {
        let k = i - 4;
        lemma_attendees_prefix(tail, k as int);
        assert(tail.take(k as int) =~= cells.deep_view().subrange(4, i as int));
    }
    Ok(AttendanceRecord { event, attendees })
}

/// The attendee prefix rule, pointwise: if the first k cells are
/// non-empty and the cell after them (if any) is empty, the attendee list
/// is exactly those k cells.
proof fn lemma_attendees_prefix(cells: Seq<Seq<char>>, k: int)
    requires
        0 <= k <= cells.len(),
        forall|j: int| 0 <= j < k ==> #[trigger] cells[j].len() > 0,
        k < cells.len() ==> cells[k].len() == 0,
    ensures
        attendees_spec(cells) == cells.take(k),
    decreases k,
{
    if k == 0 {
        assert(attendees_spec(cells) =~= cells.take(0));
    } else {
        lemma_attendees_prefix(cells.drop_first(), k - 1);
        assert(seq![cells[0]] + cells.drop_first().take(k - 1) =~= cells.take(k));
    }
}

/// The merge requests of one parsed record: its attendee columns
/// expanded into normalized pairs. The event column is not propagated to
/// the store.
pub open spec fn row_merge_spec(cells: Seq<Seq<char>>) -> Seq<(Seq<char>, Seq<char>)> {
    met_pairs_spec(attendees_spec(cells.skip(4)))
}

/// The whole batch's merge requests, one group per record, or the error
/// of the first malformed record.
pub open spec fn import_spec(records: Seq<Seq<Seq<char>>>) -> Result<
    Seq<Seq<(Seq<char>, Seq<char>)>>,
    ImportError,
>
    decreases records.len(),
{
    if records.len() == 0 {
        Ok(Seq::empty())
    } else if records[0].len() < 4 {
        Err(ImportError::MalformedRecord)
    } else {
        match import_spec(records.drop_first()) {
            Ok(rest) => Ok(seq![row_merge_spec(records[0])] + rest),
            Err(e) => Err(e),
        }
    }
}

/// The Attendance Group Expander: all unordered pairs of the given
/// attendee names, both endpoints normalized to their store keys. Each
/// pair is one idempotent "met" merge request for the store.
pub fn met_pairs(attendees: &Vec<String>) -> (pairs: Vec<(String, String)>)
    ensures
        pairs.deep_view() == met_pairs_spec(attendees.deep_view()),
{
    let ghost names = attendees.deep_view();
    let n = attendees.len();
    let mut out: Vec<(String, String)> = Vec::new();
    let mut i: usize = 0;
    while i < n
        invariant
            n == attendees@.len(),
            names == attendees.deep_view(),
            names.len() == n,
            i <= n,
            out.deep_view() + pairs_from(names, i as int) == met_pairs_spec(names),
        decreases n - i,
    {
        let a = normalize_name(attendees[i].as_str());
        let mut j: usize = i + 1;
        while j < n
            invariant
                n == attendees@.len(),
                names == attendees.deep_view(),
                names.len() == n,
                i < n,
                i + 1 <= j <= n,
                a@ == lower_seq(names[i as int]),
                out.deep_view() + row_pairs(names, i as int, j as int) + pairs_from(
                    names,
                    i as int + 1,
                ) == met_pairs_spec(names),
            decreases n - j,
        {
            let b = normalize_name(attendees[j].as_str());
            let ghost before = out.deep_view();
            out.push((a.clone(), b));
            proof {
                assert(out.deep_view() =~= before.push(
                    (lower_seq(names[i as int]), lower_seq(names[j as int])),
                ));
                assert(before.push((lower_seq(names[i as int]), lower_seq(names[j as int])))
                    + row_pairs(names, i as int, j as int + 1) + pairs_from(names, i as int + 1)
                    =~= before + row_pairs(names, i as int, j as int) + pairs_from(
                    names,
                    i as int + 1,
                ));
            }
            j = j + 1;
        }
        proof {
            assert(out.deep_view() + row_pairs(names, i as int, n as int) + pairs_from(
                names,
                i as int + 1,
            ) =~= out.deep_view() + pairs_from(names, i as int + 1));
        }
        i = i + 1;
    }
    proof {
        assert(out.deep_view() + pairs_from(names, n as int) =~= out.deep_view());
    }
    out
}

/// The pairs of an expansion that may become store merges: those whose
/// endpoints are two different store keys. An edge's endpoints must
/// differ, so a pair of two attendees who share one normalized name is
/// dropped.
pub open spec fn merge_pairs_spec(pairs: Seq<(Seq<char>, Seq<char>)>) -> Seq<
    (Seq<char>, Seq<char>),
>
    decreases pairs.len(),
{
    if pairs.len() == 0 {
        Seq::empty()
    } else {
        let rest = merge_pairs_spec(pairs.drop_first());
        if pairs[0].0 != pairs[0].1 {
            seq![pairs[0]] + rest
        } else {
            rest
        }
    }
}

/// Which expanded pairs are sent to the store: the pairs whose two
/// endpoints differ, in order. The others would form self-edges, which
/// the edge invariant forbids.
pub fn merge_pairs(pairs: &Vec<(String, String)>) -> (kept: Vec<(String, String)>)
    ensures
        kept.deep_view() == merge_pairs_spec(pairs.deep_view()),
{
    let ghost dv = pairs.deep_view();
    let mut kept: Vec<(String, String)> = Vec::new();
    let mut i: usize = 0;
    proof {
        assert(dv.skip(0) =~= dv);
        assert(kept.deep_view() + merge_pairs_spec(dv) =~= merge_pairs_spec(dv));
    }
    while i < pairs.len()
        invariant
            dv == pairs.deep_view(),
            dv.len() == pairs@.len(),
            i <= pairs@.len(),
            merge_pairs_spec(dv) == kept.deep_view() + merge_pairs_spec(dv.skip(i as int)),
        decreases pairs@.len() - i,
    {
        proof {
            assert(dv.skip(i as int)[0] == dv[i as int]);
            assert(dv.skip(i as int).drop_first() =~= dv.skip(i as int + 1));
        }
        if pairs[i].0 != pairs[i].1 {
            let ghost before = kept.deep_view();
            let a = pairs[i].0.clone();
            let b = pairs[i].1.clone();
            kept.push((a, b));
            proof {
                assert(kept.deep_view() =~= before.push(dv[i as int]));
                assert(before.push(dv[i as int]) + merge_pairs_spec(dv.skip(i as int + 1))
                    =~= before + (seq![dv[i as int]] + merge_pairs_spec(dv.skip(i as int + 1))));
            }
        }
        i = i + 1;
    }
    proof {
        assert(dv.skip(dv.len() as int) =~= Seq::<(Seq<char>, Seq<char>)>::empty());
        assert(kept.deep_view() + Seq::<(Seq<char>, Seq<char>)>::empty() =~= kept.deep_view());
    }
    kept
}

/// Expands a whole batch of parsed records into their merge-request
/// groups, one group per record and in record order. The batch is
/// rejected at the first record that lacks the four leading columns, as
/// the offline import tool treats a malformed record as fatal.
pub fn plan_import(records: &Vec<Vec<String>>) -> (r: Result<
    Vec<Vec<(String, String)>>,
    ImportError,
>)
    ensures
        (match r {
            Ok(groups) => Ok(groups.deep_view()),
            Err(e) => Err(e),
        }) == import_spec(records.deep_view()),
{
    let ghost dv = records.deep_view();
    let mut out: Vec<Vec<(String, String)>> = Vec::new();
    let mut k: usize = 0;
    proof {
        assert(dv.skip(0) =~= dv);
        match import_spec(dv) {
            Ok(rest) => {
                assert(out.deep_view() + rest =~= rest);
            },
            Err(_) => {},
        }
    }
    while k < records.len()
        invariant
            dv == records.deep_view(),
            dv.len() == records@.len(),
            k <= records@.len(),
            import_spec(dv) == (match import_spec(dv.skip(k as int)) {
                Ok(rest) => Ok(out.deep_view() + rest),
                Err(e) => Err::<Seq<Seq<(Seq<char>, Seq<char>)>>, ImportError>(e),
            }),
        decreases records@.len() - k,
    {
        proof {
            assert(dv.skip(k as int).len() > 0);
            assert(dv.skip(k as int)[0] == dv[k as int]);
            assert(dv.skip(k as int).drop_first() =~= dv.skip(k as int + 1));
        }
        let parsed = parse_row(&records[k]);
        match parsed {
            Err(e) => {
                proof {
                    assert(dv[k as int].len() == records@[k as int]@.len());
                }
                return Err(e);
            },
            Ok(rec) => {
                let pairs = met_pairs(&rec.attendees);
                proof {
                    assert(dv[k as int].skip(4) == records.deep_view()[k as int].skip(4));
                    assert(pairs.deep_view() == row_merge_spec(dv[k as int]));
                }
                let ghost before = out.deep_view();
                out.push(pairs);
                proof {
                    assert(out.deep_view() =~= before.push(row_merge_spec(dv[k as int])));
                    match import_spec(dv.skip(k as int + 1)) {
                        Ok(rest) => {
                            assert(before.push(row_merge_spec(dv[k as int])) + rest =~= before + (
                            seq![row_merge_spec(dv[k as int])] + rest));
                        },
                        Err(_) => {},
                    }
                }
            },
        }
        k = k + 1;
    }
    proof {
        assert(dv.skip(dv.len() as int) =~= Seq::<Seq<Seq<char>>>::empty());
        match import_spec(dv) {
            Ok(_) => {
                assert(out.deep_view() + Seq::<Seq<(Seq<char>, Seq<char>)>>::empty()
                    =~= out.deep_view());
            },
            Err(_) => {},
        }
    }
    Ok(out)
}

/// What the delimited-text reader makes of the given bytes: the records
/// after the leading header row, or an error for input it rejects. The
/// result depends on the bytes alone.
pub uninterp spec fn csv_parse(data: Seq<u8>) -> Result<Seq<Seq<Seq<char>>>, ()>;

/// Relies on `csv::Reader::from_reader` and `Reader::records`: parses
/// comma-delimited text into string records, skipping the leading header
/// row, with no dependence on anything but the bytes.
#[verifier::external_body]
fn read_records(data: &Vec<u8>) -> (r: Result<Vec<Vec<String>>, csv::Error>)
    ensures
        match r {
            Ok(records) => csv_parse(data@) == Ok::<Seq<Seq<Seq<char>>>, ()>(records.deep_view()),
            Err(_) => csv_parse(data@) is Err,
        },
{
    let mut rdr = csv::Reader::from_reader(data.as_slice());
    let mut out: Vec<Vec<String>> = Vec::new();
    for record in rdr.records() {
        let record = record?;
        out.push(record.iter().map(|cell| cell.to_owned()).collect());
    }
    Ok(out)
}

/// The import pipeline's computation: reads a delimited attendance batch
/// and expands every record into its group of pairwise merge requests.
/// Input the reader rejects is reported as invalid; a record without the
/// four leading columns rejects the batch.
pub fn import_csv(data: &Vec<u8>) -> (r: Result<Vec<Vec<(String, String)>>, ImportError>)
    ensures
        match csv_parse(data@) {
            Ok(records) => (match r {
                Ok(groups) => Ok(groups.deep_view()),
                Err(e) => Err(e),
            }) == import_spec(records),
            Err(_) => r == Err::<Vec<Vec<(String, String)>>, ImportError>(
                ImportError::InvalidInput,
            ),
        },
{
    match read_records(data) {
        Ok(records) => plan_import(&records),
        Err(_) => Err(ImportError::InvalidInput),
    }
}

} // verus!
