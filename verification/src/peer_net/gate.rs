//! How many uploads stream at once.
use std::collections::VecDeque;
use vstd::prelude::*;
use vstd::string::*;
use crate::text::{group_views, views};

verus! {

broadcast use group_views;

/// An upload that is ready to stream.
#[derive(Debug, PartialEq)]
pub struct UploadJob {
    pub ip: String,
    pub port: u16,
    pub token: u32,
    pub peer: String,
    pub filename: String,
    pub real_path: String,
    pub size: u64,
}

pub struct UploadJobView {
    pub ip: Seq<char>,
    pub port: u16,
    pub token: u32,
    pub peer: Seq<char>,
    pub filename: Seq<char>,
    pub real_path: Seq<char>,
    pub size: u64,
}

impl View for UploadJob {
    type V = UploadJobView;

    open spec fn view(&self) -> UploadJobView {
        UploadJobView {
            ip: self.ip@,
            port: self.port,
            token: self.token,
            peer: self.peer@,
            filename: self.filename@,
            real_path: self.real_path@,
            size: self.size,
        }
    }
}

/// A gate in terms of what it stands for.
pub struct GateModel {
    /// Uploads that stream now.
    pub active: u32,
    /// Uploads that wait for a slot, first come first served.
    pub waiting: Seq<UploadJobView>,
    /// How many may stream at once; 0 means any number.
    pub slots: usize,
}

/// Whether one more upload may start.
pub open spec fn slot_free(g: GateModel) -> bool {
    g.slots == 0 || g.active < g.slots
}

/// What a claim does: the first that waits takes a slot, where there is one.
pub open spec fn claimed(g: GateModel) -> (GateModel, Option<UploadJobView>) {
    if slot_free(g) && g.waiting.len() > 0 {
        (
            GateModel {
                active: wrap_add(g.active, 1),
                waiting: g.waiting.skip(1),
                slots: g.slots,
            },
            Some(g.waiting[0]),
        )
    } else {
        (g, None)
    }
}

/// Addition and subtraction modulo 2^32.
pub open spec fn wrap_add(a: u32, b: int) -> u32 {
    ((a + b) % 0x1_0000_0000) as u32
}

/// Limits how many uploads stream at once.
pub struct UploadGate {
    active: u32,
    waiting: VecDeque<UploadJob>,
    slots: usize,
}

impl View for UploadGate {
    type V = GateModel;

    closed spec fn view(&self) -> GateModel {
        GateModel { active: self.active, waiting: views(self.waiting@), slots: self.slots }
    }
}

impl UploadGate {
    pub fn new(slots: usize) -> (r: Self)
        ensures
            r@ == (GateModel { active: 0, waiting: Seq::empty(), slots }),
    {
        let r = UploadGate { active: 0, waiting: VecDeque::new(), slots };
        assert(r@.waiting =~= Seq::empty());
        r
    }

    /// Uploads that stream now.
    pub fn active(&self) -> (r: u32)
        ensures
            r == self@.active,
    {
        self.active
    }

    /// An upload gets in line.
    pub fn push_back(&mut self, job: UploadJob)
        ensures
            final(self)@ == (GateModel { waiting: old(self)@.waiting.push(job@), ..old(self)@ }),
    {
        self.waiting.push_back(job);
    }

    /// Takes the next waiting upload if a slot is free, marking the slot busy.
    pub fn try_claim(&mut self) -> (r: Option<UploadJob>)
        ensures
            final(self)@ == claimed(old(self)@).0,
            match r {
                Some(job) => claimed(old(self)@).1 == Some(job@),
                None => claimed(old(self)@).1 is None,
            },
    {
        if self.slots != 0 && self.active as usize >= self.slots {
            return None;
        }
        let ghost before = self.waiting@;
        match self.waiting.pop_front() {
            Some(job) => {
                self.active = self.active.wrapping_add(1);
                assert(views(self.waiting@) =~= views(before).skip(1));
                Some(job)
            },
            None => {
                assert(views(before).len() == 0);
                None
            },
        }
    }

    /// An upload finished: its slot is free again.
    pub fn release(&mut self)
        ensures
            final(self)@ == (GateModel { active: wrap_add(old(self)@.active, -1), ..old(self)@ }),
    {
        self.active = self.active.wrapping_sub(1);
    }
}

/// No claim lets more uploads stream than there are slots; a claim is refused only where all
/// slots are busy or nothing waits; and those that wait start in the order in which they came.
pub proof fn law_gate_caps_uploads(g: GateModel)
    requires
        g.slots != 0,
        g.slots <= u32::MAX,
        g.active <= g.slots,
    ensures
        claimed(g).0.active <= g.slots,
        claimed(g).1 is None <==> g.active == g.slots || g.waiting.len() == 0,
        claimed(g).1 is Some ==> claimed(g).0.active == g.active + 1 && g.waiting == seq![
            claimed(g).1->0,
        ] + claimed(g).0.waiting,
{
    if g.waiting.len() > 0 {
        assert(g.waiting =~= seq![g.waiting[0]] + g.waiting.skip(1));
    }
}

/// With no slot count set, whatever waits can start.
pub proof fn law_no_slots_means_no_limit(g: GateModel)
    requires
        g.slots == 0,
    ensures
        claimed(g).1 is Some <==> g.waiting.len() > 0,
{
}

} // verus!
