//! The progress table: one record per device for the latest install run.
//!
//! The table is the only state shared between the workers of a run and the
//! presentation loop. It is a plain value here; whoever shares it guards it
//! with a single lock and performs each operation below under that lock.

use vstd::prelude::*;

verus! {

/// Where one device's install stands.
#[derive(Debug, PartialEq, Eq)]
pub enum Status {
    /// Known to the run, not started yet.
    Pending,
    /// The install is in flight.
    Installing,
    /// The install command reported success.
    Succeeded,
    /// The install failed; holds the reason.
    Failed(String),
}

/// Mathematical value of a [`Status`].
pub enum StatusView {
    Pending,
    Installing,
    Succeeded,
    Failed(Seq<char>),
}

impl StatusView {
    /// A terminal status is never followed by another one in the same run.
    pub open spec fn is_terminal(self) -> bool {
        self is Succeeded || self is Failed
    }
}

impl View for Status {
    type V = StatusView;

    open spec fn view(&self) -> StatusView {
        match self {
            Status::Pending => StatusView::Pending,
            Status::Installing => StatusView::Installing,
            Status::Succeeded => StatusView::Succeeded,
            Status::Failed(reason) => StatusView::Failed(reason@),
        }
    }
}

impl Clone for Status {
    fn clone(&self) -> (copy: Self)
        ensures
            copy@ == self@,
    {
        match self {
            Status::Pending => Status::Pending,
            Status::Installing => Status::Installing,
            Status::Succeeded => Status::Succeeded,
            Status::Failed(reason) => Status::Failed(reason.clone()),
        }
    }
}

impl Status {
    /// Whether the status is `Succeeded` or `Failed`.
    pub fn is_terminal(&self) -> (terminal: bool)
        ensures
            terminal == self@.is_terminal(),
    {
        match self {
            Status::Succeeded => true,
            Status::Failed(_) => true,
            _ => false,
        }
    }
}

/// The status entry of one device during one install run.
#[derive(Debug, PartialEq, Eq)]
pub struct ProgressRecord {
    pub device_id: String,
    pub status: Status,
    pub phase_indicator: String,
}

/// Mathematical value of a [`ProgressRecord`].
pub struct RecordView {
    pub device_id: Seq<char>,
    pub status: StatusView,
    pub phase_indicator: Seq<char>,
}

impl View for ProgressRecord {
    type V = RecordView;

    open spec fn view(&self) -> RecordView {
        RecordView {
            device_id: self.device_id@,
            status: self.status@,
            phase_indicator: self.phase_indicator@,
        }
    }
}

impl Clone for ProgressRecord {
    fn clone(&self) -> (copy: Self)
        ensures
            copy@ == self@,
    {
        ProgressRecord {
            device_id: self.device_id.clone(),
            status: self.status.clone(),
            phase_indicator: self.phase_indicator.clone(),
        }
    }
}

/// Index of the first record of `id` in `records`, or `records.len()` when
/// `id` has none.
pub open spec fn position_of(records: Seq<RecordView>, id: Seq<char>) -> int
    decreases records.len(),
{
    if records.len() == 0 {
        0
    } else if records[0].device_id == id {
        0
    } else {
        1 + position_of(records.drop_first(), id)
    }
}

/// Whether `id` has a record in `records`.
pub open spec fn has_device(records: Seq<RecordView>, id: Seq<char>) -> bool {
    position_of(records, id) < records.len()
}

/// The record of `id` in `records`, if it has one.
pub open spec fn record_of(records: Seq<RecordView>, id: Seq<char>) -> Option<RecordView> {
    if has_device(records, id) {
        Some(records[position_of(records, id)])
    } else {
        None
    }
}

/// No two records track the same device.
pub open spec fn distinct_devices(records: Seq<RecordView>) -> bool {
    forall|i: int, j: int|
        0 <= i < j < records.len() ==> records[i].device_id != records[j].device_id
}

/// `records` after `record` was written: it takes the place of the record
/// of the same device, or goes to the end when the device has none yet.
pub open spec fn upserted(records: Seq<RecordView>, record: RecordView) -> Seq<RecordView> {
    if has_device(records, record.device_id) {
        records.update(position_of(records, record.device_id), record)
    } else {
        records.push(record)
    }
}

/// `position_of` is the least index that holds `id`, and the length when no
/// index does.
pub proof fn lemma_position_of(records: Seq<RecordView>, id: Seq<char>)
    ensures
        0 <= position_of(records, id) <= records.len(),
        has_device(records, id) ==> records[position_of(records, id)].device_id == id,
        forall|j: int| 0 <= j < position_of(records, id) ==> records[j].device_id != id,
    decreases records.len(),
{
    if records.len() > 0 && records[0].device_id != id {
        let rest = records.drop_first();
        lemma_position_of(rest, id);
        assert forall|j: int| 0 <= j < position_of(records, id) implies records[j].device_id
            != id by {
            if j > 0 {
                assert(records[j] == rest[j - 1]);
            }
        }
        if has_device(records, id) {
            assert(records[position_of(records, id)] == rest[position_of(rest, id)]);
        }
    }
}

/// An index that holds `id`, with no earlier one that does, is `position_of`.
pub proof fn lemma_position_is(records: Seq<RecordView>, id: Seq<char>, at: int)
    requires
        0 <= at <= records.len(),
        at < records.len() ==> records[at].device_id == id,
        forall|j: int| 0 <= j < at ==> records[j].device_id != id,
    ensures
        position_of(records, id) == at,
{
    lemma_position_of(records, id);
}

/// Writing a record keeps the devices distinct, gives the written device
/// exactly that record, and leaves every other device's record as it was.
pub proof fn lemma_upserted(records: Seq<RecordView>, record: RecordView)
    requires
        distinct_devices(records),
    ensures
        distinct_devices(upserted(records, record)),
        record_of(upserted(records, record), record.device_id) == Some(record),
        forall|other: Seq<char>|
            other != record.device_id ==> #[trigger] record_of(upserted(records, record), other)
                == record_of(records, other),
        upserted(records, record).len() == if has_device(records, record.device_id) {
            records.len()
        } else {
            records.len() + 1
        },
{
    let after = upserted(records, record);
    let at = position_of(records, record.device_id);
    lemma_position_of(records, record.device_id);
    assert(after[at] == record);
    assert forall|j: int| 0 <= j < after.len() && j != at implies #[trigger] after[j]
        == records[j] && after[j].device_id != record.device_id by {
        if has_device(records, record.device_id) {
            assert(records[at].device_id == record.device_id);
        }
    }
    lemma_position_is(after, record.device_id, at);
    assert forall|other: Seq<char>| other != record.device_id implies #[trigger] record_of(
        after,
        other,
    ) == record_of(records, other) by {
        let p = position_of(records, other);
        lemma_position_of(records, other);
        if p < records.len() {
            assert(p != at);
            lemma_position_is(after, other, p);
        } else {
            lemma_position_is(after, other, after.len() as int);
        }
    }
}

/// The mathematical values of `records`.
pub open spec fn views(records: Seq<ProgressRecord>) -> Seq<RecordView> {
    records.map_values(|r: ProgressRecord| r@)
}

/// Position of the record of `device_id` in `records`, if it has one.
pub fn locate(records: &Vec<ProgressRecord>, device_id: &String) -> (found: Option<usize>)
    ensures
        match found {
            Some(at) => at < records@.len() && at == position_of(views(records@), device_id@),
            None => !has_device(views(records@), device_id@),
        },
{
    let mut at: usize = 0;
    while at < records.len()
        invariant
            at <= records@.len(),
            forall|j: int| 0 <= j < at ==> views(records@)[j].device_id != device_id@,
        decreases records@.len() - at,
    {
        if records[at].device_id == *device_id {
            proof {
                lemma_position_is(views(records@), device_id@, at as int);
            }
            return Some(at);
        }
        at += 1;
    }
    proof {
        lemma_position_is(views(records@), device_id@, at as int);
    }
    None
}

/// The shared table of progress records, tagged with the generation of the
/// run that may write to it. It never holds two records of one device.
#[derive(Debug)]
pub struct ProgressTable {
    records: Vec<ProgressRecord>,
    generation: u64,
}

impl View for ProgressTable {
    type V = Seq<RecordView>;

    closed spec fn view(&self) -> Seq<RecordView> {
        views(self.records@)
    }
}

impl ProgressTable {
    /// Generation of the run whose workers may write.
    pub closed spec fn run(&self) -> u64 {
        self.generation
    }

    /// The table's invariant: at most one record per device.
    #[verifier::type_invariant]
    pub open spec fn wf(&self) -> bool {
        distinct_devices(self@)
    }

    /// An empty table, before any run.
    pub fn new() -> (table: Self)
        ensures
            table@ == Seq::<RecordView>::empty(),
            table.run() == 0,
            table.wf(),
    {
        let records: Vec<ProgressRecord> = Vec::new();
        assert(views(records@) =~= Seq::<RecordView>::empty());
        ProgressTable { records, generation: 0 }
    }

    /// Generation of the run whose workers may write.
    pub fn generation(&self) -> (g: u64)
        ensures
            g == self.run(),
    {
        self.generation
    }

    /// Number of records.
    pub fn len(&self) -> (n: usize)
        ensures
            n == self@.len(),
    {
        self.records.len()
    }

    /// Whether the table holds no record.
    pub fn is_empty(&self) -> (empty: bool)
        ensures
            empty == (self@.len() == 0),
    {
        self.records.len() == 0
    }

    /// Discards every record; the generation stays.
    pub fn clear(&mut self)
        ensures
            final(self)@ == Seq::<RecordView>::empty(),
            final(self).run() == old(self).run(),
            final(self).wf(),
    {
        let records: Vec<ProgressRecord> = Vec::new();
        assert(views(records@) =~= Seq::<RecordView>::empty());
        self.records = records;
    }

    /// Opens a new run: discards every record and moves to the next
    /// generation, so that late writes of earlier runs no longer match.
    /// The generation counts modulo 2^64.
    pub fn begin_run(&mut self) -> (g: u64)
        ensures
            final(self)@ == Seq::<RecordView>::empty(),
            final(self).wf(),
            final(self).run() == g,
            g != old(self).run(),
            g == if old(self).run() == u64::MAX {
                0
            } else {
                old(self).run() + 1
            },
    {
        self.clear();
        let next: u64 = if self.generation == u64::MAX {
            0
        } else {
            self.generation + 1
        };
        self.generation = next;
        next
    }

    /// Position of the record of `device_id`, if it has one.
    pub fn find(&self, device_id: &String) -> (found: Option<usize>)
        ensures
            match found {
                Some(at) => at < self@.len() && at == position_of(self@, device_id@),
                None => !has_device(self@, device_id@),
            },
    {
        locate(&self.records, device_id)
    }

    /// A copy of the record of `device_id`, if it has one.
    pub fn get(&self, device_id: &String) -> (record: Option<ProgressRecord>)
        ensures
            match record {
                Some(r) => record_of(self@, device_id@) == Some(r@),
                None => record_of(self@, device_id@) is None,
            },
    {
        match self.find(device_id) {
            Some(at) => Some(self.records[at].clone()),
            None => None,
        }
    }

    /// Writes `record`: it replaces the record of the same device in place,
    /// or is added at the end when the device has none.
    pub fn upsert(&mut self, record: ProgressRecord)
        ensures
            final(self)@ == upserted(old(self)@, record@),
            final(self).run() == old(self).run(),
            final(self).wf(),
    {
        proof {
            use_type_invariant(&*self);
            lemma_upserted(self@, record@);
        }
        let mut records: Vec<ProgressRecord> = Vec::new();
        assert(views(records@) =~= Seq::<RecordView>::empty());
        std::mem::swap(&mut records, &mut self.records);
        match locate(&records, &record.device_id) {
            Some(at) => {
                records.set(at, record);
            },
            None => {
                records.push(record);
            },
        }
        assert(views(records@) =~= upserted(old(self)@, record@));
        self.records = records;
    }

    /// Writes `record` on behalf of the run with generation `run`. A write
    /// of any other run than the current one is discarded.
    pub fn write(&mut self, run: u64, record: ProgressRecord) -> (accepted: bool)
        ensures
            accepted == (run == old(self).run()),
            final(self)@ == if accepted {
                upserted(old(self)@, record@)
            } else {
                old(self)@
            },
            final(self).run() == old(self).run(),
            final(self).wf(),
    {
        proof {
            use_type_invariant(&*self);
        }
        if run == self.generation {
            self.upsert(record);
            true
        } else {
            false
        }
    }

    /// A point-in-time copy of all records, in table order.
    pub fn snapshot(&self) -> (records: Vec<ProgressRecord>)
        ensures
            views(records@) == self@,
    {
        let mut records: Vec<ProgressRecord> = Vec::new();
        let mut at: usize = 0;
        while at < self.records.len()
            invariant
                at <= self.records.len(),
                records@.len() == at,
                forall|j: int| 0 <= j < at ==> records@[j]@ == self.records@[j]@,
            decreases self.records.len() - at,
        {
            records.push(self.records[at].clone());
            at += 1;
        }
        assert(views(records@) =~= self@);
        records
    }
}

impl Default for ProgressTable {
    fn default() -> (table: Self)
        ensures
            table@ == Seq::<RecordView>::empty(),
            table.run() == 0,
    {
        ProgressTable::new()
    }
}

} // verus!
