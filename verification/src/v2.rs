//! Configuration and reports of the two-way sync (origin <-> working pairs),
//! and the decisions of its commands.
use crate::sync::db::Version;
use crate::sync::types::{Conflict, OpKind, Plan, PlannedOp, Side};
use crate::text::str_eq;
use vstd::prelude::*;

verus! {

/// One pair kept in sync both ways: the origin folder and the working copy.
#[derive(Debug)]
pub struct V2Pair {
    pub id: String,
    pub name: String,
    pub origin: String,
    pub working: String,
}

impl Clone for V2Pair {
    fn clone(&self) -> (r: Self)
        ensures
            r == *self,
    {
        V2Pair {
            id: self.id.clone(),
            name: self.name.clone(),
            origin: self.origin.clone(),
            working: self.working.clone(),
        }
    }
}

#[derive(Debug)]
pub struct V2Config {
    pub pairs: Vec<V2Pair>,
    pub last_run: Option<String>,
    /// Sync on a schedule (safe operations only).
    pub auto: bool,
    pub interval_minutes: u64,
}

/// Interval of a stored configuration that names none.
pub fn d_interval() -> (n: u64)
    ensures
        n == 30,
{
    30
}

impl Default for V2Config {
    fn default() -> (c: Self)
        ensures
            c.pairs@.len() == 0,
            c.last_run is None,
            !c.auto,
            c.interval_minutes == 30,
    {
        V2Config { pairs: Vec::new(), last_run: None, auto: false, interval_minutes: 30 }
    }
}

fn clone_v2_pairs(v: &Vec<V2Pair>) -> (r: Vec<V2Pair>)
    ensures
        r@ == v@,
{
    let mut r: Vec<V2Pair> = Vec::new();
    for i in 0..v.len()
        invariant
            r@ == v@.take(i as int),
    {
        r.push(v[i].clone());
        proof {
            assert(v@.take(i + 1) =~= v@.take(i as int).push(v@[i as int]));
        }
    }
    proof {
        assert(v@.take(v@.len() as int) =~= v@);
    }
    r
}

impl Clone for V2Config {
    fn clone(&self) -> (r: Self)
        ensures
            r.pairs@ == self.pairs@,
            r.last_run == self.last_run,
            r.auto == self.auto,
            r.interval_minutes == self.interval_minutes,
    {
        V2Config {
            pairs: clone_v2_pairs(&self.pairs),
            last_run: match &self.last_run {
                Some(s) => Some(s.clone()),
                None => None,
            },
            auto: self.auto,
            interval_minutes: self.interval_minutes,
        }
    }
}

/// `i` is the first position of a pair with this id.
pub open spec fn first_pair_with_id(pairs: Seq<V2Pair>, id: Seq<char>, i: int) -> bool {
    &&& 0 <= i < pairs.len()
    &&& pairs[i].id@ == id
    &&& forall|j: int| 0 <= j < i ==> (#[trigger] pairs[j]).id@ != id
}

impl V2Config {
    /// The first pair with this id.
    pub fn find_pair(&self, id: &str) -> (r: Result<V2Pair, String>)
        ensures
            match r {
                Ok(p) => exists|i: int| first_pair_with_id(self.pairs@, id@, i) && p == self.pairs@[i],
                Err(e) => e@ == "không tìm thấy cặp thư mục"@ && forall|j: int|
                    0 <= j < self.pairs@.len() ==> (#[trigger] self.pairs@[j]).id@ != id@,
            },
    {
        for i in 0..self.pairs.len()
            invariant
                forall|j: int| 0 <= j < i ==> (#[trigger] self.pairs@[j]).id@ != id@,
        {
            if str_eq(self.pairs[i].id.as_str(), id) {
                let p = self.pairs[i].clone();
                assert(first_pair_with_id(self.pairs@, id@, i as int));
                return Ok(p);
            }
        }
        Err("không tìm thấy cặp thư mục".to_owned())
    }

    /// Adds a pair; refuses one whose origin and working folders are the same.
    /// An empty name becomes "Cặp thư mục".
    pub fn add_pair(&mut self, id: String, name: String, origin: String, working: String) -> (r: Result<(), String>)
        ensures
            origin@ == working@ ==> r is Err && r->Err_0@ == "Nguồn và đích không được trùng"@ && *final(self)
                == *old(self),
            origin@ != working@ ==> r is Ok && final(self).pairs@.len() == old(self).pairs@.len() + 1
                && final(self).pairs@.drop_last() == old(self).pairs@ && final(self).pairs@.last().id == id
                && final(self).pairs@.last().origin == origin && final(self).pairs@.last().working == working
                && final(self).pairs@.last().name@ == (if name@.len() == 0 { "Cặp thư mục"@ } else { name@ })
                && final(self).last_run == old(self).last_run
                && final(self).auto == old(self).auto && final(self).interval_minutes == old(
                self,
            ).interval_minutes,
    {
        if str_eq(origin.as_str(), working.as_str()) {
            return Err("Nguồn và đích không được trùng".to_owned());
        }
        let name = if name.as_str().is_empty() {
            "Cặp thư mục".to_owned()
        } else {
            name
        };
        self.pairs.push(V2Pair { id, name, origin, working });
        proof {
            assert(self.pairs@.drop_last() =~= old(self).pairs@);
        }
        Ok(())
    }

    /// Removes every pair with this id, keeping the others in order.
    pub fn remove_pair(&mut self, id: &str)
        ensures
            final(self).pairs@ == old(self).pairs@.filter(|p: V2Pair| p.id@ != id@),
            final(self).last_run == old(self).last_run,
            final(self).auto == old(self).auto,
            final(self).interval_minutes == old(self).interval_minutes,
    {
        let ghost old_pairs = self.pairs@;
        let mut kept: Vec<V2Pair> = Vec::new();
        for i in 0..self.pairs.len()
            invariant
                self.pairs@ == old_pairs,
                kept@ == old_pairs.take(i as int).filter(|p: V2Pair| p.id@ != id@),
        {
            if !str_eq(self.pairs[i].id.as_str(), id) {
                kept.push(self.pairs[i].clone());
            }
            proof {
                reveal(Seq::filter);
                assert(old_pairs.take(i + 1).drop_last() =~= old_pairs.take(i as int));
            }
        }
        proof {
            assert(old_pairs.take(old_pairs.len() as int) =~= old_pairs);
        }
        self.pairs = kept;
    }

    /// Turns scheduled sync on or off; the interval is at least one minute.
    pub fn set_auto(&mut self, auto: bool, interval_minutes: u64)
        ensures
            final(self).auto == auto,
            final(self).interval_minutes == (if interval_minutes >= 1 { interval_minutes } else { 1 }),
            final(self).pairs == old(self).pairs,
            final(self).last_run == old(self).last_run,
    {
        self.auto = auto;
        self.interval_minutes = if interval_minutes >= 1 { interval_minutes } else { 1 };
    }

    /// The run to undo: the last one, or an error when there was none.
    pub fn last_run_id(&self) -> (r: Result<String, String>)
        ensures
            match self.last_run {
                Some(run) => r == Ok::<String, String>(run),
                None => r is Err && r->Err_0@ == "chưa có lần đồng bộ nào để hoàn tác"@,
            },
    {
        match &self.last_run {
            Some(run) => Ok(run.clone()),
            None => Err("chưa có lần đồng bộ nào để hoàn tác".to_owned()),
        }
    }

    /// Minutes between scheduled runs (at least one).
    pub fn schedule_minutes(&self) -> (m: u64)
        ensures
            m == (if self.interval_minutes >= 1 { self.interval_minutes } else { 1 }),
    {
        if self.interval_minutes >= 1 {
            self.interval_minutes
        } else {
            1
        }
    }

    /// The pairs a scheduled run syncs: none when scheduling is off, else
    /// every pair's id, in order.
    pub fn scheduled_pairs(&self) -> (r: Option<Vec<String>>)
        ensures
            !self.auto ==> r is None,
            self.auto ==> r is Some && r->0@ == self.pairs@.map_values(|p: V2Pair| p.id),
    {
        if !self.auto {
            return None;
        }
        let mut ids: Vec<String> = Vec::new();
        for i in 0..self.pairs.len()
            invariant
                ids@ == self.pairs@.take(i as int).map_values(|p: V2Pair| p.id),
        {
            ids.push(self.pairs[i].id.clone());
            proof {
                assert(self.pairs@.take(i + 1).map_values(|p: V2Pair| p.id) =~= self.pairs@.take(i as int).map_values(
                    |p: V2Pair| p.id,
                ).push(self.pairs@[i as int].id));
            }
        }
        proof {
            assert(self.pairs@.take(self.pairs@.len() as int) =~= self.pairs@);
        }
        Some(ids)
    }
}

/// Reads the side a user chose to keep: "working" or "origin".
pub fn parse_side(keep: &str) -> (r: Result<Side, String>)
    ensures
        keep@ == "working"@ ==> r == Ok::<Side, String>(Side::Working),
        keep@ == "origin"@ ==> r == Ok::<Side, String>(Side::Origin),
        keep@ != "working"@ && keep@ != "origin"@ ==> r is Err && r->Err_0@ == "lựa chọn không hợp lệ"@,
{
    proof {
        reveal_strlit("working");
        reveal_strlit("origin");
        assert("working"@.len() == 7);
        assert("origin"@.len() == 6);
        assert("working"@ != "origin"@);
    }
    if str_eq(keep, "working") {
        Ok(Side::Working)
    } else if str_eq(keep, "origin") {
        Ok(Side::Origin)
    } else {
        Err("lựa chọn không hợp lệ".to_owned())
    }
}

/// The result of applying a plan.
#[derive(Debug)]
pub struct ApplyReport {
    pub run_id: String,
    pub copied: usize,
    pub deleted: usize,
    pub conflicts: Vec<Conflict>,
}

pub open spec fn is_copy(o: PlannedOp) -> bool {
    o.kind is Copy
}

impl ApplyReport {
    /// The report of a run: how many copies and deletions the plan held, and
    /// the conflicts it left for the user.
    pub fn new(run_id: String, plan: Plan) -> (r: ApplyReport)
        ensures
            r.run_id == run_id,
            r.copied == plan.ops@.filter(|o: PlannedOp| o.kind is Copy).len(),
            r.deleted == plan.ops@.filter(|o: PlannedOp| o.kind is Delete).len(),
            r.conflicts == plan.conflicts,
    {
        let mut copied: usize = 0;
        let mut deleted: usize = 0;
        for i in 0..plan.ops.len()
            invariant
                copied == plan.ops@.take(i as int).filter(|o: PlannedOp| o.kind is Copy).len(),
                deleted == plan.ops@.take(i as int).filter(|o: PlannedOp| o.kind is Delete).len(),
                copied + deleted <= i,
        {
            proof {
                reveal(Seq::filter);
                assert(plan.ops@.take(i + 1).drop_last() =~= plan.ops@.take(i as int));
            }
            match plan.ops[i].kind {
                OpKind::Copy(_) => copied = copied + 1,
                OpKind::Delete(_) => deleted = deleted + 1,
            }
        }
        proof {
            assert(plan.ops@.take(plan.ops@.len() as int) =~= plan.ops@);
        }
        ApplyReport { run_id, copied, deleted, conflicts: plan.conflicts }
    }
}

/// One stored version, as the user interface lists it.
#[derive(Debug)]
pub struct VersionDto {
    pub id: i64,
    pub created_at: i64,
    pub op: String,
    pub size: i64,
}

impl VersionDto {
    pub fn from_version(v: &Version) -> (d: VersionDto)
        ensures
            d.id == v.id,
            d.created_at == v.created_at,
            d.op == v.op,
            d.size == v.size,
    {
        VersionDto { id: v.id, created_at: v.created_at, op: v.op.clone(), size: v.size }
    }
}

/// A change of a pair's connection state.
#[derive(Debug, Clone, Copy, PartialEq, Eq, Structural)]
pub enum ConnEvent {
    Disconnected,
    Reconnected,
}

/// The event for a new observation of a pair's folders (`prev`: the previous
/// observation, none on the first one since the app opened): only a change of
/// state is an event, and the first observation never is.
pub fn conn_transition(prev: Option<bool>, connected: bool) -> (e: Option<ConnEvent>)
    ensures
        e == (match (prev, connected) {
            (Some(true), false) => Some(ConnEvent::Disconnected),
            (Some(false), true) => Some(ConnEvent::Reconnected),
            _ => None::<ConnEvent>,
        }),
{
    match (prev, connected) {
        (Some(true), false) => Some(ConnEvent::Disconnected),
        (Some(false), true) => Some(ConnEvent::Reconnected),
        _ => None,
    }
}

/// Safety check before planning or applying: both folders of the pair must be
/// reachable, since an unreachable folder scans as empty and would be taken
/// for the deletion of every file.
pub fn pair_access_check(p: &V2Pair, origin_ok: bool, working_ok: bool) -> (r: Result<(), String>)
    ensures
        !origin_ok ==> r is Err && r->Err_0@ == "Thư mục gốc không truy cập được: "@ + p.origin@
            + " — bỏ qua để tránh xóa nhầm"@,
        origin_ok && !working_ok ==> r is Err && r->Err_0@ == "Bản làm việc không truy cập được: "@ + p.working@
            + " — bỏ qua để tránh xóa nhầm"@,
        origin_ok && working_ok ==> r is Ok,
{
    if !origin_ok {
        let mut m = "Thư mục gốc không truy cập được: ".to_owned();
        m.append(p.origin.as_str());
        m.append(" — bỏ qua để tránh xóa nhầm");
        return Err(m);
    }
    if !working_ok {
        let mut m = "Bản làm việc không truy cập được: ".to_owned();
        m.append(p.working.as_str());
        m.append(" — bỏ qua để tránh xóa nhầm");
        return Err(m);
    }
    Ok(())
}

} // verus!
