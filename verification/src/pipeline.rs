//! The batch pipeline: decode, parse and filter every input record in order,
//! partitioning the batch into matched and broken records; a record that
//! cleanly fails a filter is silently excluded. One malformed record never
//! aborts the batch.

use vstd::prelude::*;
use crate::Mode;
use crate::decode::{decode, decode_spec, mode_error, DecodeError};
use crate::filters::{execute_filter, execute_filter_spec, Filter, FilterError};
use crate::parser::{edek_from_bytes, edek_from_bytes_spec};
use crate::schema::{DekView, ParseError};

verus! {

/// One input line: caller-supplied identifier, textual encoding of an EDEK.
pub type EdekFileEntry = (String, String);

/// Something with a caller-supplied identifier to print on its own.
pub trait GetIdentifier {
    /// The identifier as a sequence of characters.
    spec fn identifier_spec(&self) -> Seq<char>;

    /// The record's identifier.
    fn identifier(&self) -> (r: String)
        ensures
            r@ == self.identifier_spec(),
    ;
}

impl GetIdentifier for (String, String) {
    open spec fn identifier_spec(&self) -> Seq<char> {
        self.0@
    }

    fn identifier(&self) -> (r: String) {
        self.0.clone()
    }
}

/// Why one record landed in the broken bucket.
pub enum BrokenReason {
    /// Its text did not decode in the batch's mode.
    IncorrectlyFormatted(DecodeError),
    /// Its bytes did not parse as an encrypted-key container with a record.
    UnparsableEdek(ParseError),
    /// At least one filter failed to evaluate; every failure, in filter-set
    /// order.
    FilterFailures(Vec<FilterError>),
}

/// The mathematical value of a [`BrokenReason`].
pub enum ReasonView {
    IncorrectlyFormatted(DecodeError),
    UnparsableEdek(ParseError),
    FilterFailures(Seq<FilterError>),
}

impl View for BrokenReason {
    type V = ReasonView;

    open spec fn view(&self) -> ReasonView {
        match self {
            BrokenReason::IncorrectlyFormatted(e) => ReasonView::IncorrectlyFormatted(*e),
            BrokenReason::UnparsableEdek(e) => ReasonView::UnparsableEdek(*e),
            BrokenReason::FilterFailures(v) => ReasonView::FilterFailures(v@),
        }
    }
}

/// One record of the broken bucket: the original identifier and text, the
/// one-based input line, and the reason.
pub struct BrokenRecord {
    pub identifier: String,
    pub edek: String,
    pub line: usize,
    pub reason: BrokenReason,
}

/// The mathematical value of a [`BrokenRecord`].
pub struct BrokenView {
    pub identifier: Seq<char>,
    pub edek: Seq<char>,
    pub line: int,
    pub reason: ReasonView,
}

impl View for BrokenRecord {
    type V = BrokenView;

    open spec fn view(&self) -> BrokenView {
        BrokenView {
            identifier: self.identifier@,
            edek: self.edek@,
            line: self.line as int,
            reason: self.reason@,
        }
    }
}

impl GetIdentifier for BrokenRecord {
    open spec fn identifier_spec(&self) -> Seq<char> {
        self.identifier@
    }

    fn identifier(&self) -> (r: String) {
        self.identifier.clone()
    }
}

/// Where one record ends up.
pub enum Outcome {
    Matched,
    Dropped,
    Broken(ReasonView),
}

/// The evaluation failures that a filter set produces against one record, in
/// filter-set order.
pub open spec fn filter_failures_spec(filters: Seq<Filter>, d: DekView) -> Seq<FilterError>
    decreases filters.len(),
{
    if filters.len() == 0 {
        Seq::empty()
    } else {
        match execute_filter_spec(filters[0], d) {
            Ok(_) => filter_failures_spec(filters.skip(1), d),
            Err(e) => seq![e] + filter_failures_spec(filters.skip(1), d),
        }
    }
}

/// Every filter of the set evaluates to true against the record.
pub open spec fn all_filters_true(filters: Seq<Filter>, d: DekView) -> bool {
    forall|k: int|
        0 <= k < filters.len() ==> execute_filter_spec(#[trigger] filters[k], d) == Ok::<
            bool,
            FilterError,
        >(true)
}

/// How one record's text classifies: matched when it decodes, parses, and
/// every filter evaluates to true; broken when a stage fails; silently
/// dropped when the filters all evaluate but one answers false.
pub open spec fn classify(edek_text: Seq<char>, mode: Mode, filters: Seq<Filter>) -> Outcome {
    match decode_spec(edek_text, mode) {
        None => Outcome::Broken(ReasonView::IncorrectlyFormatted(mode_error(mode))),
        Some(bytes) => match edek_from_bytes_spec(bytes) {
            Err(e) => Outcome::Broken(ReasonView::UnparsableEdek(e)),
            Ok(d) => {
                let fails = filter_failures_spec(filters, d);
                if fails.len() > 0 {
                    Outcome::Broken(ReasonView::FilterFailures(fails))
                } else if all_filters_true(filters, d) {
                    Outcome::Matched
                } else {
                    Outcome::Dropped
                }
            },
        },
    }
}

/// What `run` produces over a batch, first line number given: the matched
/// entries in input order, and the broken records in input order with their
/// line numbers and reasons.
pub open spec fn run_spec(
    inputs: Seq<(Seq<char>, Seq<char>)>,
    mode: Mode,
    filters: Seq<Filter>,
    line: int,
) -> (Seq<(Seq<char>, Seq<char>)>, Seq<BrokenView>)
    decreases inputs.len(),
{
    if inputs.len() == 0 {
        (Seq::<(Seq<char>, Seq<char>)>::empty(), Seq::<BrokenView>::empty())
    } else {
        let rest = run_spec(inputs.skip(1), mode, filters, line + 1);
        match classify(inputs[0].1, mode, filters) {
            Outcome::Matched => (seq![inputs[0]] + rest.0, rest.1),
            Outcome::Dropped => rest,
            Outcome::Broken(rv) => (
                rest.0,
                seq![
                    BrokenView {
                        identifier: inputs[0].0,
                        edek: inputs[0].1,
                        line: line,
                        reason: rv,
                    },
                ] + rest.1,
            ),
        }
    }
}

/// How many records of the batch are silently dropped.
pub open spec fn count_dropped(
    inputs: Seq<(Seq<char>, Seq<char>)>,
    mode: Mode,
    filters: Seq<Filter>,
) -> int
    decreases inputs.len(),
{
    if inputs.len() == 0 {
        0
    } else {
        (if classify(inputs[0].1, mode, filters) is Dropped {
            1int
        } else {
            0int
        }) + count_dropped(inputs.skip(1), mode, filters)
    }
}

/// Partition law: every input record lands in exactly one of the matched
/// bucket, the broken bucket, or the silently dropped remainder, so the
/// three counts always sum to the batch size (and no record is shared
/// between the two buckets).
pub proof fn lemma_run_partition(
    inputs: Seq<(Seq<char>, Seq<char>)>,
    mode: Mode,
    filters: Seq<Filter>,
    line: int,
)
    ensures
        run_spec(inputs, mode, filters, line).0.len() + run_spec(inputs, mode, filters, line).1.len()
            + count_dropped(inputs, mode, filters) == inputs.len(),
    decreases inputs.len(),
{
    if inputs.len() > 0 {
        lemma_run_partition(inputs.skip(1), mode, filters, line + 1);
    }
}

/// The pairs of identifier and text that a sequence of entries stands for.
pub open spec fn entries_view(v: Seq<EdekFileEntry>) -> Seq<(Seq<char>, Seq<char>)> {
    v.map_values(|e: EdekFileEntry| (e.0@, e.1@))
}

/// The values of a sequence of broken records.
pub open spec fn broken_view(v: Seq<BrokenRecord>) -> Seq<BrokenView> {
    v.map_values(|b: BrokenRecord| b@)
}

/// Where one record ends up, carrying the broken reason.
enum RecordOutcome {
    Matched,
    Dropped,
    Broken(BrokenReason),
}

spec fn outcome_view(o: RecordOutcome) -> Outcome {
    match o {
        RecordOutcome::Matched => Outcome::Matched,
        RecordOutcome::Dropped => Outcome::Dropped,
        RecordOutcome::Broken(r) => Outcome::Broken(r@),
    }
}

/// Decodes, parses and filters one record's text.
fn evaluate_entry(edek: &str, mode: Mode, filters: &Vec<Filter>) -> (r: RecordOutcome)
    ensures
        outcome_view(r) == classify(edek@, mode, filters@),
{
    let bytes = match decode(edek, mode) {
        Err(e) => {
            return RecordOutcome::Broken(BrokenReason::IncorrectlyFormatted(e));
        },
        Ok(b) => b,
    };
    let parsed = match edek_from_bytes(bytes.as_slice()) {
        Err(e) => {
            return RecordOutcome::Broken(BrokenReason::UnparsableEdek(e));
        },
        Ok(d) => d,
    };
    let ghost d = parsed@;
    let mut failures: Vec<FilterError> = Vec::new();
    let mut all_true = true;
    let mut j: usize = 0;
    proof {
        assert(filters@.skip(0) =~= filters@);
    }
    while j < filters.len()
        invariant
            j <= filters.len(),
            parsed@ == d,
            filter_failures_spec(filters@, d) =~= failures@ + filter_failures_spec(
                filters@.skip(j as int),
                d,
            ),
            all_true && failures@.len() == 0 ==> (forall|k: int|
                0 <= k < j ==> execute_filter_spec(#[trigger] filters@[k], d) == Ok::<
                    bool,
                    FilterError,
                >(true)),
            !all_true ==> (exists|k: int|
                0 <= k < j && execute_filter_spec(#[trigger] filters@[k], d) != Ok::<
                    bool,
                    FilterError,
                >(true)),
        decreases filters.len() - j,
    {
        let ghost failures_old = failures@;
        let res = execute_filter(&filters[j], &parsed);
        proof {
            assert(filters@.skip(j as int)[0] == filters@[j as int]);
            assert(filters@.skip(j as int).skip(1) =~= filters@.skip(j as int + 1));
        }
        match res {
            Ok(passed) => {
                if passed {
                    proof {
                        assert(execute_filter_spec(filters@[j as int], d) == Ok::<
                            bool,
                            FilterError,
                        >(true));
                    }
                } else {
                    all_true = false;
                    proof {
                        assert(execute_filter_spec(filters@[j as int], d) != Ok::<
                            bool,
                            FilterError,
                        >(true));
                    }
                }
            },
            Err(e) => {
                failures.push(e);
                proof {
                    assert(failures@ =~= failures_old + seq![e]);
                    assert(failures_old + (seq![e] + filter_failures_spec(
                        filters@.skip(j as int + 1),
                        d,
                    )) =~= failures@ + filter_failures_spec(filters@.skip(j as int + 1), d));
                    assert(execute_filter_spec(filters@[j as int], d) != Ok::<bool, FilterError>(
                        true,
                    ));
                }
            },
        }
        j += 1;
    }
    proof {
        assert(filters@.skip(filters@.len() as int) =~= Seq::<Filter>::empty());
        assert(failures@ + Seq::<FilterError>::empty() =~= failures@);
        assert(filter_failures_spec(filters@, d) == failures@);
    }
    if failures.len() > 0 {
        RecordOutcome::Broken(BrokenReason::FilterFailures(failures))
    } else if all_true {
        RecordOutcome::Matched
    } else {
        RecordOutcome::Dropped
    }
}

/// Runs the whole batch in input order: each record's text is decoded,
/// parsed and filtered, and the record lands in the matched bucket, in the
/// broken bucket with its one-based line number and reason, or in neither.
pub fn run(inputs: &Vec<EdekFileEntry>, mode: Mode, filters: &Vec<Filter>) -> (r: (
    Vec<EdekFileEntry>,
    Vec<BrokenRecord>,
))
    ensures
        entries_view(r.0@) == run_spec(entries_view(inputs@), mode, filters@, 1).0,
        broken_view(r.1@) == run_spec(entries_view(inputs@), mode, filters@, 1).1,
{
    let ghost iv = entries_view(inputs@);
    let mut matched: Vec<EdekFileEntry> = Vec::new();
    let mut broken: Vec<BrokenRecord> = Vec::new();
    let mut i: usize = 0;
    proof {
        assert(iv.skip(0) =~= iv);
        assert(entries_view(matched@) =~= Seq::<(Seq<char>, Seq<char>)>::empty());
        assert(broken_view(broken@) =~= Seq::<BrokenView>::empty());
    }
    while i < inputs.len()
        invariant
            i <= inputs.len(),
            iv == entries_view(inputs@),
            iv.len() == inputs@.len(),
            run_spec(iv, mode, filters@, 1).0 =~= entries_view(matched@) + run_spec(
                iv.skip(i as int),
                mode,
                filters@,
                i as int + 1,
            ).0,
            run_spec(iv, mode, filters@, 1).1 =~= broken_view(broken@) + run_spec(
                iv.skip(i as int),
                mode,
                filters@,
                i as int + 1,
            ).1,
        decreases inputs.len() - i,
    {
        let ghost matched_old = matched@;
        let ghost broken_old = broken@;
        let ghost rest = run_spec(iv.skip(i as int + 1), mode, filters@, i as int + 2);
        proof {
            assert(iv.skip(i as int)[0] == iv[i as int]);
            assert(iv.skip(i as int).skip(1) =~= iv.skip(i as int + 1));
        }
        let entry = &inputs[i];
        let oc = evaluate_entry(entry.1.as_str(), mode, filters);
        match oc {
            RecordOutcome::Matched => {
                matched.push((entry.0.clone(), entry.1.clone()));
                proof {
                    assert(entries_view(matched@) =~= entries_view(matched_old) + seq![
                        iv[i as int],
                    ]);
                    assert((entries_view(matched_old) + seq![iv[i as int]]) + rest.0
                        =~= entries_view(matched_old) + (seq![iv[i as int]] + rest.0));
                }
            },
            RecordOutcome::Dropped => {},
            RecordOutcome::Broken(reason) => {
                let rec = BrokenRecord {
                    identifier: entry.0.clone(),
                    edek: entry.1.clone(),
                    line: i + 1,
                    reason,
                };
                broken.push(rec);
                proof {
                    assert(broken_view(broken@) =~= broken_view(broken_old) + seq![
                        broken@.last()@,
                    ]);
                    assert((broken_view(broken_old) + seq![broken@.last()@]) + rest.1
                        =~= broken_view(broken_old) + (seq![broken@.last()@] + rest.1));
                }
            },
        }
        i += 1;
    }
    proof {
        assert(iv.skip(i as int).len() == 0);
        assert(entries_view(matched@) + run_spec(iv.skip(i as int), mode, filters@, i as int + 1).0
            =~= entries_view(matched@));
        assert(broken_view(broken@) + run_spec(iv.skip(i as int), mode, filters@, i as int + 1).1
            =~= broken_view(broken@));
    }
    (matched, broken)
}

} // verus!
