//! A messenger of three components: a controller, a worker and an audit log.
//!
//! A request has one handler, whose answer is returned; an event goes to all its handlers, in the
//! order in which they are declared.
use vstd::prelude::*;
use vstd::string::*;

use crate::text::{decimal, push_decimal};

verus! {

pub struct GetTenantRequest {
    pub tenant_id: u32,
}

pub struct GetTenantResponse {
    pub name: String,
}

#[derive(Clone, Copy, Debug, PartialEq)]
pub struct TenantUpdatedProto {
    pub tenant_id: u32,
}

#[derive(Clone, Copy)]
pub struct WorkerDone {
    pub job: u32,
}

#[derive(Clone, Copy)]
pub struct Telemetry {
    pub event: &'static str,
}

/// What the controller may send.
pub trait ControllerSendable {
    fn send_get_tenant_request(&mut self, msg: GetTenantRequest) -> GetTenantResponse;

    fn send_tenant_updated(&mut self, msg: TenantUpdatedProto);

    fn send_telemetry(&mut self, msg: Telemetry);
}

/// What the worker may send.
pub trait WorkerSendable {
    fn send_worker_done(&mut self, msg: WorkerDone);
}

/// What a controller handles.
pub trait ControllerHandler: Sized {
    /// Whether the message may leave the controller as `after`.
    spec fn on_worker_done(&self, msg: WorkerDone, after: Self) -> bool;

    fn handle_worker_done(&mut self, msg: WorkerDone)
        ensures
            old(self).on_worker_done(msg, *final(self)),
    ;
}

/// What a worker handles.
pub trait WorkerHandler: Sized {
    /// Whether the request may be answered so, and leave the worker as `after`.
    spec fn on_get_tenant(
        &self,
        msg: GetTenantRequest,
        response: GetTenantResponse,
        after: Self,
    ) -> bool;

    /// Whether the message may leave the worker as `after`.
    spec fn on_tenant_updated(&self, msg: TenantUpdatedProto, after: Self) -> bool;

    fn handle_get_tenant_request(&mut self, msg: GetTenantRequest) -> (r: GetTenantResponse)
        ensures
            old(self).on_get_tenant(msg, r, *final(self)),
    ;

    fn handle_tenant_updated(&mut self, msg: TenantUpdatedProto)
        ensures
            old(self).on_tenant_updated(msg, *final(self)),
    ;
}

/// What an audit log handles.
pub trait AuditHandler: Sized {
    /// Whether the message may leave the log as `after`.
    spec fn on_tenant_updated(&self, msg: TenantUpdatedProto, after: Self) -> bool;

    fn handle_tenant_updated(&mut self, msg: TenantUpdatedProto)
        ensures
            old(self).on_tenant_updated(msg, *final(self)),
    ;
}

/// Owns the components and routes what they send.
pub struct UnitMessenger<C, W, A> {
    pub controller: C,
    pub worker: W,
    pub audit: A,
}

impl<C: ControllerHandler, W: WorkerHandler, A: AuditHandler> UnitMessenger<C, W, A> {
    pub fn new(controller: C, worker: W, audit: A) -> (r: Self)
        ensures
            r == (UnitMessenger { controller, worker, audit }),
    {
        UnitMessenger { controller, worker, audit }
    }

    /// The messenger as the controller may use it.
    pub fn controller_sendable(&mut self) -> (r: &mut Self)
        ensures
            *r == *old(self),
            *final(self) == *final(r),
    {
        self
    }

    /// The messenger as the worker may use it.
    pub fn worker_sendable(&mut self) -> (r: &mut Self)
        ensures
            *r == *old(self),
            *final(self) == *final(r),
    {
        self
    }
}

impl<C: ControllerHandler, W: WorkerHandler, A: AuditHandler> ControllerSendable for UnitMessenger<
    C,
    W,
    A,
> {
    /// The worker answers.
    fn send_get_tenant_request(&mut self, msg: GetTenantRequest) -> (r: GetTenantResponse)
        ensures
            old(self).worker.on_get_tenant(msg, r, final(self).worker),
            final(self).controller == old(self).controller,
            final(self).audit == old(self).audit,
    {
        self.worker.handle_get_tenant_request(msg)
    }

    /// The worker and the audit log handle it.
    fn send_tenant_updated(&mut self, msg: TenantUpdatedProto)
        ensures
            old(self).worker.on_tenant_updated(msg, final(self).worker),
            old(self).audit.on_tenant_updated(msg, final(self).audit),
            final(self).controller == old(self).controller,
    {
        self.worker.handle_tenant_updated(msg);
        self.audit.handle_tenant_updated(msg);
    }

    /// No component handles it.
    fn send_telemetry(&mut self, _msg: Telemetry)
        ensures
            *final(self) == *old(self),
    {
    }
}

impl<C: ControllerHandler, W: WorkerHandler, A: AuditHandler> WorkerSendable for UnitMessenger<
    C,
    W,
    A,
> {
    /// The controller handles it.
    fn send_worker_done(&mut self, msg: WorkerDone)
        ensures
            old(self).controller.on_worker_done(msg, final(self).controller),
            final(self).worker == old(self).worker,
            final(self).audit == old(self).audit,
    {
        self.controller.handle_worker_done(msg);
    }
}

/// A controller that notes which jobs are done.
pub struct Controller {
    pub done_jobs: Vec<u32>,
}

impl Default for Controller {
    fn default() -> (r: Self)
        ensures
            r.done_jobs@.len() == 0,
    {
        Controller { done_jobs: Vec::new() }
    }
}

impl ControllerHandler for Controller {
    open spec fn on_worker_done(&self, msg: WorkerDone, after: Self) -> bool {
        after.done_jobs@ == self.done_jobs@.push(msg.job)
    }

    fn handle_worker_done(&mut self, msg: WorkerDone) {
        self.done_jobs.push(msg.job);
    }
}

/// A worker that answers for tenants, and notes which were updated.
pub struct Worker {
    pub seen_tenants: Vec<u32>,
}

impl Default for Worker {
    fn default() -> (r: Self)
        ensures
            r.seen_tenants@.len() == 0,
    {
        Worker { seen_tenants: Vec::new() }
    }
}

/// The name of a tenant.
pub open spec fn tenant_name(id: u32) -> Seq<char> {
    "tenant-"@ + decimal(id as nat)
}

impl WorkerHandler for Worker {
    open spec fn on_get_tenant(
        &self,
        msg: GetTenantRequest,
        response: GetTenantResponse,
        after: Self,
    ) -> bool {
        response.name@ == tenant_name(msg.tenant_id) && after == *self
    }

    open spec fn on_tenant_updated(&self, msg: TenantUpdatedProto, after: Self) -> bool {
        after.seen_tenants@ == self.seen_tenants@.push(msg.tenant_id)
    }

    fn handle_get_tenant_request(&mut self, msg: GetTenantRequest) -> (r: GetTenantResponse) {
        let mut name = "tenant-".to_owned();
        push_decimal(&mut name, msg.tenant_id as u64);
        GetTenantResponse { name }
    }

    fn handle_tenant_updated(&mut self, msg: TenantUpdatedProto) {
        self.seen_tenants.push(msg.tenant_id);
    }
}

/// An audit log that keeps the updates.
pub struct Audit {
    pub events: Vec<TenantUpdatedProto>,
}

impl Default for Audit {
    fn default() -> (r: Self)
        ensures
            r.events@.len() == 0,
    {
        Audit { events: Vec::new() }
    }
}

impl AuditHandler for Audit {
    open spec fn on_tenant_updated(&self, msg: TenantUpdatedProto, after: Self) -> bool {
        after.events@ == self.events@.push(msg)
    }

    fn handle_tenant_updated(&mut self, msg: TenantUpdatedProto) {
        self.events.push(msg);
    }
}

/// Tenants are told apart by their names, which hold their numbers.
pub proof fn law_tenants_have_names_of_their_own(a: u32, b: u32)
    ensures
        tenant_name(a) == tenant_name(b) ==> a == b,
        crate::text::parsed(tenant_name(a).skip(7)) == Some(a as nat),
{
    reveal_strlit("tenant-");
    crate::text::law_decimal_reads_back(a as nat);
    crate::text::law_decimal_reads_back(b as nat);
    assert(tenant_name(a).skip(7) =~= decimal(a as nat));
    assert(tenant_name(b).skip(7) =~= decimal(b as nat));
}

} // verus!
