//! The task records that the application keeps, and what a finished job reports.
use vstd::prelude::*;
use crate::text::{same_text, views};

verus! {

/// One compression task as it is kept and shown in the task list.
pub struct Record {
    pub id: String,
    pub name: String,
    /// `"video"` or `"image"`.
    pub kind: String,
    /// `"done"` or `"error"`.
    pub status: String,
    pub src_size: u64,
    pub out_size: u64,
    pub out_name: String,
    pub encoder: String,
    pub quality: String,
    pub img_format: String,
    pub created: u64,
    /// The output was not smaller than the source, so the source was kept.
    pub skipped: bool,
}

/// What the application knows: its task records and the hardware encoders
/// that were found on this machine, in order of preference.
pub struct AppState {
    pub records: Vec<Record>,
    pub gpu_encoders: Vec<String>,
}

/// The output names of `rs`, in order.
pub open spec fn record_names(rs: Seq<Record>) -> Seq<Seq<char>> {
    rs.map_values(|r: Record| r.out_name@)
}

/// The record ids of `rs`, in order.
pub open spec fn record_ids(rs: Seq<Record>) -> Seq<Seq<char>> {
    rs.map_values(|r: Record| r.id@)
}

/// The index of the first record of `rs` whose id is `id`, if any.
pub open spec fn first_with_id(rs: Seq<Record>, id: Seq<char>) -> Option<int>
    decreases rs.len(),
{
    if rs.len() == 0 {
        None
    } else if rs[0].id@ == id {
        Some(0)
    } else {
        match first_with_id(rs.drop_first(), id) {
            Some(p) => Some(p + 1),
            None => None,
        }
    }
}

/// A record survives loading unless it is a finished task whose output file is gone.
pub open spec fn is_live(r: Record, present: Seq<Seq<char>>) -> bool {
    r.status@ != "done"@ || present.contains(r.out_name@)
}

/// The result of a finished compression job, as the task list records it.
pub struct Outcome {
    /// `"done"` or `"error"`.
    pub status: String,
    pub out_size: u64,
    pub error: String,
    /// The output was not smaller than the source: the source is kept as the result.
    pub skipped: bool,
}

/// The message of a job that produced no output.
pub open spec fn encode_failure_message() -> Seq<char> {
    "编码失败（文件可能损坏或格式不支持）"@
}

proof fn lemma_first_with_id(rs: Seq<Record>, id: Seq<char>, p: int)
    requires
        0 <= p <= rs.len(),
        forall|q: int| 0 <= q < p ==> (#[trigger] rs[q]).id@ != id,
        p == rs.len() || rs[p].id@ == id,
    ensures
        first_with_id(rs, id) == (if p < rs.len() { Some(p) } else { None::<int> }),
    decreases p,
{
    if p > 0 {
        let t = rs.drop_first();
        assert forall|q: int| 0 <= q < p - 1 implies (#[trigger] t[q]).id@ != id by {
            assert(t[q] == rs[q + 1]);
        }
        if p < rs.len() {
            assert(t[p - 1] == rs[p]);
        }
        assert(rs[0].id@ != id);
        lemma_first_with_id(t, id, p - 1);
    }
}

impl AppState {
    /// Removes the first record whose id is `id` and gives back its output
    /// name, so that the caller can delete that file; does nothing when no
    /// record has that id.
    pub fn delete_record(&mut self, id: &str) -> (removed: Option<String>)
        ensures
            final(self).gpu_encoders@ == old(self).gpu_encoders@,
            match first_with_id(old(self).records@, id@) {
                Some(p) => {
                    &&& final(self).records@ == old(self).records@.remove(p)
                    &&& removed matches Some(n) && n@ == old(self).records@[p].out_name@
                },
                None => {
                    &&& final(self).records@ == old(self).records@
                    &&& removed is None
                },
            },
    {
        let n = self.records.len();
        let mut i: usize = 0;
        while i < n
            invariant
                n == self.records@.len(),
                i <= n,
                self.records@ == old(self).records@,
                self.gpu_encoders@ == old(self).gpu_encoders@,
                forall|q: int| 0 <= q < i ==> (#[trigger] self.records@[q]).id@ != id@,
            decreases n - i,
        {
            if same_text(self.records[i].id.as_str(), id) {
                proof {
                    lemma_first_with_id(self.records@, id@, i as int);
                }
                let r = self.records.remove(i);
                return Some(r.out_name);
            }
            i = i + 1;
        }
        proof {
            lemma_first_with_id(self.records@, id@, n as int);
        }
        None
    }

    /// Empties the task list and gives back the output names it held, in order,
    /// so that the caller can delete those files.
    pub fn clear_records(&mut self) -> (names: Vec<String>)
        ensures
            final(self).records@ == Seq::<Record>::empty(),
            final(self).gpu_encoders@ == old(self).gpu_encoders@,
            views(names@) == record_names(old(self).records@),
    {
        let mut names: Vec<String> = Vec::new();
        let n = self.records.len();
        let mut i: usize = 0;
        while i < n
            invariant
                n == self.records@.len(),
                i <= n,
                views(names@) == record_names(self.records@).take(i as int),
            decreases n - i,
        {
            let ghost before = names@;
            names.push(self.records[i].out_name.clone());
            proof {
                assert(views(names@) =~= views(before).push(self.records@[i as int].out_name@));
                assert(record_names(self.records@).take(i + 1) =~= record_names(
                    self.records@,
                ).take(i as int).push(self.records@[i as int].out_name@));
            }
            i = i + 1;
        }
        assert(record_names(self.records@).take(n as int) =~= record_names(self.records@));
        self.records.clear();
        names
    }

    /// Appends a finished task to the list.
    pub fn add_record(&mut self, record: Record)
        ensures
            final(self).records@ == old(self).records@.push(record),
            final(self).gpu_encoders@ == old(self).gpu_encoders@,
    {
        self.records.push(record);
    }
}

/// Whether the text `name` is among `present`.
pub fn name_present(present: &Vec<String>, name: &str) -> (r: bool)
    ensures
        r == views(present@).contains(name@),
{
    let n = present.len();
    let mut i: usize = 0;
    while i < n
        invariant
            n == present@.len(),
            i <= n,
            forall|q: int| 0 <= q < i ==> (#[trigger] present@[q])@ != name@,
        decreases n - i,
    {
        if same_text(present[i].as_str(), name) {
            assert(views(present@)[i as int] == name@);
            return true;
        }
        i = i + 1;
    }
    proof {
        if views(present@).contains(name@) {
            let q = choose|q: int| 0 <= q < views(present@).len() && views(present@)[q] == name@;
            assert(present@[q]@ == name@);
        }
    }
    false
}

/// The records that survive loading, in their order: every task that is not
/// finished, and every finished task whose output file is among `present`
/// (the names of the files in the output directory).
pub fn live_records(records: Vec<Record>, present: &Vec<String>) -> (kept: Vec<Record>)
    ensures
        kept@ == records@.filter(|r: Record| is_live(r, views(present@))),
{
    let total: usize = records.len();
    let ghost all = records@;
    let ghost keep = |r: Record| is_live(r, views(present@));
    let mut rest = records;
    let mut kept: Vec<Record> = Vec::new();
    let mut done: usize = 0;
    while rest.len() > 0
        invariant
            done + rest@.len() == all.len(),
            all.len() == total,
            rest@ == all.skip(done as int),
            kept@ == all.take(done as int).filter(keep),
            keep == (|r: Record| is_live(r, views(present@))),
        decreases rest@.len(),
    {
        let r = rest.remove(0);
        let live = !same_text(r.status.as_str(), "done") || name_present(present, r.out_name.as_str());
        proof {
            assert(r == all[done as int]);
            assert(all.take(done + 1) =~= all.take(done as int).push(r));
            assert(all.take(done as int).push(r).filter(keep) == if keep(r) {
                all.take(done as int).filter(keep).push(r)
            } else {
                all.take(done as int).filter(keep)
            }) by {
                reveal_with_fuel(Seq::filter, 1);
                assert(all.take(done as int).push(r).drop_last() =~= all.take(done as int));
            }
            assert(rest@ =~= all.skip(done + 1));
        }
        if live {
            kept.push(r);
        }
        done = done + 1;
    }
    assert(all.take(done as int) =~= all);
    kept
}

/// Settles a finished job. `produced` is the size of the output file, if one
/// was written. A job succeeds when its output exists and is not empty; when
/// the output is not smaller than a non-empty source, the source is kept as
/// the result and its size is reported.
pub fn settle_outcome(src_size: u64, produced: Option<u64>) -> (o: Outcome)
    ensures
        match produced {
            Some(n) if n > 0 => {
                &&& o.status@ == "done"@
                &&& o.error@ == Seq::<char>::empty()
                &&& o.skipped == (src_size > 0 && n >= src_size)
                &&& o.out_size == (if o.skipped { src_size } else { n })
            },
            _ => {
                &&& o.status@ == "error"@
                &&& o.error@ == encode_failure_message()
                &&& o.out_size == 0
                &&& !o.skipped
            },
        },
        (produced matches Some(n) && n > 0) && src_size > 0 ==> o.out_size <= src_size,
{
    match produced {
        Some(n) if n > 0 => {
            let skipped = src_size > 0 && n >= src_size;
            Outcome {
                status: String::from_str("done"),
                out_size: if skipped { src_size } else { n },
                error: String::new(),
                skipped,
            }
        },
        _ => Outcome {
            status: String::from_str("error"),
            out_size: 0,
            error: String::from_str("编码失败（文件可能损坏或格式不支持）"),
            skipped: false,
        },
    }
}

} // verus!
