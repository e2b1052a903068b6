//! The snapshot exporter: content-addressed deduplication and the mapping
//! side table.
//!
//! The exporter never touches the disk itself. For each change it decides
//! whether the snapshot's content still has to be written (the id was not
//! seen in this run) and records one mapping row relating the snapshot id
//! to the change's original file location. The caller performs the writes
//! it is told to perform, in the order they are returned.

use vstd::prelude::*;

use crate::records::{location_of, ChangeRecord, ChangeView};

verus! {

/// One row of the mapping table: an exported snapshot id and the original
/// file location that referenced it.
pub struct MappingRow {
    pub snapshot_id: u64,
    pub location: String,
}

/// Mathematical view of a `MappingRow`.
#[verifier::ext_equal]
pub ghost struct RowView {
    pub snapshot_id: u64,
    pub location: Seq<char>,
}

impl View for MappingRow {
    type V = RowView;

    open spec fn view(&self) -> RowView {
        RowView { snapshot_id: self.snapshot_id, location: self.location@ }
    }
}

/// The mapping row a change produces: its snapshot id and its location,
/// with the empty location substituted when the path cannot be resolved.
/// Only applied to changes whose snapshot id is present.
pub open spec fn spec_row(c: ChangeView) -> RowView {
    RowView {
        snapshot_id: match c.snapshot_id {
            Some(id) => id,
            None => 0,
        },
        location: location_of(c),
    }
}

/// What the exporter tells its caller about one change.
#[derive(Clone, Copy, PartialEq, Eq, Structural, Debug)]
pub struct ExportStep {
    /// The snapshot id of the change, naming the content file.
    pub snapshot_id: u64,
    /// Whether the content must be fetched and written now: true exactly
    /// when this run has not yet exported this id.
    pub write_content: bool,
}

/// Mathematical view of an `Exporter`: the ids written so far in first-seen
/// order, and the mapping rows recorded so far in arrival order.
#[verifier::ext_equal]
pub ghost struct ExporterView {
    pub seen: Seq<u64>,
    pub rows: Seq<RowView>,
}

/// The exporter state of the empty run: nothing written, nothing recorded.
pub open spec fn empty_exporter() -> ExporterView {
    ExporterView { seen: Seq::empty(), rows: Seq::empty() }
}

/// How one change transforms the exporter state: a change without a
/// snapshot id changes nothing; otherwise its id is added to the written
/// set if it is new, and a mapping row is always appended.
pub open spec fn spec_export_step(st: ExporterView, c: ChangeView) -> ExporterView {
    match c.snapshot_id {
        None => st,
        Some(id) => ExporterView {
            seen: if st.seen.contains(id) {
                st.seen
            } else {
                st.seen.push(id)
            },
            rows: st.rows.push(spec_row(c)),
        },
    }
}

/// The exporter state after a whole sequence of changes, in order.
pub open spec fn spec_export_all(st: ExporterView, cs: Seq<ChangeView>) -> ExporterView
    decreases cs.len(),
{
    if cs.len() == 0 {
        st
    } else {
        spec_export_step(spec_export_all(st, cs.drop_last()), cs.last())
    }
}

/// Per-run exporter state: the snapshot ids already materialized to disk
/// and the mapping rows accumulated so far.
pub struct Exporter {
    seen: Vec<u64>,
    rows: Vec<MappingRow>,
}

impl View for Exporter {
    type V = ExporterView;

    closed spec fn view(&self) -> ExporterView {
        ExporterView { seen: self.seen@, rows: self.rows@.map_values(|r: MappingRow| r@) }
    }
}

impl Exporter {
    /// A fresh exporter for one run: no id written, no row recorded.
    pub fn new() -> (e: Exporter)
        ensures
            e@ == empty_exporter(),
    {
        let e = Exporter { seen: Vec::new(), rows: Vec::new() };
        proof {
            assert(e@ =~= empty_exporter());
        }
        e
    }

    /// Whether this run has already exported the id.
    pub fn has_written(&self, id: u64) -> (r: bool)
        ensures
            r == self@.seen.contains(id),
    {
        let mut i: usize = 0;
        while i < self.seen.len()
            invariant
                i <= self.seen@.len(),
                forall|k: int| 0 <= k < i ==> self.seen@[k] != id,
            decreases self.seen@.len() - i,
        {
            if self.seen[i] == id {
                return true;
            }
            i = i + 1;
        }
        false
    }

    /// Feeds one change to the exporter. A change without a snapshot id is
    /// skipped: no step, no row, no state change. Otherwise the returned
    /// step names the snapshot id and says whether its content must be
    /// written now (exactly when the id is new to this run), and one
    /// mapping row is recorded whether or not the id was new.
    pub fn export(&mut self, change: &ChangeRecord) -> (step: Option<ExportStep>)
        ensures
            final(self)@ == spec_export_step(old(self)@, change@),
            change@.snapshot_id is None ==> step is None,
            change@.snapshot_id matches Some(id) ==> step matches Some(s) && s.snapshot_id == id
                && s.write_content == !old(self)@.seen.contains(id),
    {
        match &change.snapshot_id {
            None => None,
            Some(id_ref) => {
                let id: u64 = *id_ref;
                let write_content = !self.has_written(id);
                if write_content {
                    self.seen.push(id);
                }
                let location: String = match &change.path {
                    Some(p) => p.location.clone(),
                    None => String::new(),
                };
                let row = MappingRow { snapshot_id: id, location };
                self.rows.push(row);
                proof {
                    assert(self.rows@.map_values(|r: MappingRow| r@) =~= old(
                        self,
                    )@.rows.push(spec_row(change@)));
                    assert(self@ =~= spec_export_step(old(self)@, change@));
                }
                Some(ExportStep { snapshot_id: id, write_content })
            },
        }
    }

    /// The ids whose content this run has written, in first-seen order.
    pub fn written_ids(&self) -> (r: &Vec<u64>)
        ensures
            r@ == self@.seen,
    {
        &self.seen
    }

    /// The mapping rows recorded so far, in arrival order.
    pub fn rows(&self) -> (r: &Vec<MappingRow>)
        ensures
            r@.map_values(|m: MappingRow| m@) == self@.rows,
    {
        &self.rows
    }

    /// Takes the run's results apart: the written ids in first-seen order
    /// and the mapping rows in arrival order.
    pub fn into_parts(self) -> (r: (Vec<u64>, Vec<MappingRow>))
        ensures
            r.0@ == self@.seen,
            r.1@.map_values(|m: MappingRow| m@) == self@.rows,
    {
        (self.seen, self.rows)
    }
}

/// Exporting one more change after a sequence is one step on the state the
/// sequence left behind.
pub proof fn lemma_export_all_push(st: ExporterView, cs: Seq<ChangeView>, c: ChangeView)
    ensures
        spec_export_all(st, cs.push(c)) == spec_export_step(spec_export_all(st, cs), c),
{
    assert(cs.push(c).drop_last() =~= cs);
    assert(cs.push(c).last() == c);
}

/// When every change carries a snapshot id, each one counts.
pub proof fn lemma_count_with_snapshot_all(cs: Seq<ChangeView>)
    requires
        forall|i: int| 0 <= i < cs.len() ==> #[trigger] cs[i].snapshot_id is Some,
    ensures
        count_with_snapshot(cs) == cs.len(),
    decreases cs.len(),
{
    if cs.len() > 0 {
        assert forall|i: int|
            0 <= i < cs.drop_last().len() implies #[trigger] cs.drop_last()[i].snapshot_id
            is Some by {
            assert(cs.drop_last()[i] == cs[i]);
        }
        lemma_count_with_snapshot_all(cs.drop_last());
    }
}

/// Dedup correctness over a whole run: starting from a state whose written
/// ids are distinct, the written ids stay distinct — one content file per
/// snapshot id — and an id is written if and only if it was written before
/// or some change of the run carries it.
pub proof fn lemma_export_all_dedup(st: ExporterView, cs: Seq<ChangeView>)
    requires
        st.seen.no_duplicates(),
    ensures
        spec_export_all(st, cs).seen.no_duplicates(),
        forall|id: u64|
            #[trigger] spec_export_all(st, cs).seen.contains(id) <==> (st.seen.contains(id)
                || exists|i: int| 0 <= i < cs.len() && #[trigger] cs[i].snapshot_id == Some(id)),
    decreases cs.len(),
{
    if cs.len() > 0 {
        lemma_export_all_dedup(st, cs.drop_last());
        let mid = spec_export_all(st, cs.drop_last());
        assert forall|id: u64| #[trigger]
            spec_export_all(st, cs).seen.contains(id) implies (st.seen.contains(id)
            || exists|i: int| 0 <= i < cs.len() && #[trigger] cs[i].snapshot_id == Some(id)) by {
            if mid.seen.contains(id) {
                if !st.seen.contains(id) {
                    let i = choose|i: int|
                        0 <= i < cs.drop_last().len() && #[trigger] cs.drop_last()[i].snapshot_id
                            == Some(id);
                    assert(cs[i].snapshot_id == Some(id));
                }
            } else {
                assert(cs.last().snapshot_id == Some(id));
                assert(cs[cs.len() - 1].snapshot_id == Some(id));
            }
        }
        assert forall|id: u64|
            (st.seen.contains(id) || exists|i: int|
                0 <= i < cs.len() && #[trigger] cs[i].snapshot_id == Some(
                    id,
                )) implies #[trigger] spec_export_all(st, cs).seen.contains(id) by {
            if mid.seen.contains(id) {
                let k = choose|k: int| 0 <= k < mid.seen.len() && mid.seen[k] == id;
                assert(spec_export_all(st, cs).seen[k] == id);
            } else {
                assert(!st.seen.contains(id));
                let i = choose|i: int|
                    0 <= i < cs.len() && #[trigger] cs[i].snapshot_id == Some(id);
                if i < cs.len() - 1 {
                    assert(cs.drop_last()[i].snapshot_id == Some(id));
                    assert(mid.seen.contains(id));
                } else {
                    assert(cs.last().snapshot_id == Some(id));
                    assert(spec_export_all(st, cs).seen == mid.seen.push(id));
                    assert(spec_export_all(st, cs).seen[mid.seen.len() as int] == id);
                }
            }
        }
    }
}

/// How many changes of a sequence carry a snapshot id.
pub open spec fn count_with_snapshot(cs: Seq<ChangeView>) -> int
    decreases cs.len(),
{
    if cs.len() == 0 {
        0
    } else {
        count_with_snapshot(cs.drop_last()) + if cs.last().snapshot_id is Some {
            1int
        } else {
            0int
        }
    }
}

/// Row-count correctness: a run appends exactly one mapping row per change
/// with a resolvable snapshot id, independent of deduplication.
pub proof fn lemma_export_all_row_count(st: ExporterView, cs: Seq<ChangeView>)
    ensures
        spec_export_all(st, cs).rows.len() == st.rows.len() + count_with_snapshot(cs),
    decreases cs.len(),
{
    if cs.len() > 0 {
        lemma_export_all_row_count(st, cs.drop_last());
    }
}

/// Row-content correctness: when every change of the run carries a snapshot
/// id — as every change selected by the job's filters does — the appended
/// rows are exactly the changes' rows, one each, in arrival order.
pub proof fn lemma_export_all_rows_exact(st: ExporterView, cs: Seq<ChangeView>)
    requires
        forall|i: int| 0 <= i < cs.len() ==> #[trigger] cs[i].snapshot_id is Some,
    ensures
        spec_export_all(st, cs).rows == st.rows + cs.map_values(|c: ChangeView| spec_row(c)),
    decreases cs.len(),
{
    if cs.len() == 0 {
        assert(spec_export_all(st, cs).rows =~= st.rows + cs.map_values(
            |c: ChangeView| spec_row(c),
        ));
    } else {
        lemma_export_all_rows_exact(st, cs.drop_last());
        assert(cs.last().snapshot_id is Some);
        assert(spec_export_all(st, cs).rows =~= st.rows + cs.map_values(
            |c: ChangeView| spec_row(c),
        ));
    }
}

} // verus!
