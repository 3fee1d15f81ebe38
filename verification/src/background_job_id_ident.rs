//! The key of a background job by its number.

use vstd::prelude::*;
use crate::tenant_key::{
    lemma_key_round_trip, lemma_parse_decimal_of_decimal, DataId, KeyName, TIdent, TIdentRaw,
    TenantResource, ToTenant,
};

verus! {

/// The number of a background job.
pub type BackgroundJobId = DataId<Resource>;

/// The identity of a background job: its tenant and its number.
pub type BackgroundJobIdIdent = TIdent<Resource, BackgroundJobId>;

/// The identity of a background job by its parts alone.
pub type BackgroundJobIdIdentRaw = TIdentRaw<Resource, BackgroundJobId>;

/// Background jobs by their number, as a kind of thing in the meta service.
#[derive(Debug, Clone, Copy, PartialEq, Eq)]
pub struct Resource;

impl TenantResource for Resource {
    open spec fn prefix() -> Seq<char> {
        "__fd_background_job_by_id"@
    }

    open spec fn has_tenant() -> bool {
        false
    }

    fn key_prefix() -> (r: &'static str) {
        "__fd_background_job_by_id"
    }

    fn key_has_tenant() -> (r: bool) {
        false
    }

    fn kind_name() -> (r: &'static str) {
        "BackgroundJobIdIdent"
    }

    open spec fn kind() -> Seq<char> {
        "BackgroundJobIdIdent"@
    }
}

impl BackgroundJobIdIdent {
    /// The identity of the background job `job_id` of the tenant `tenant`.
    pub fn new(tenant: impl ToTenant, job_id: u64) -> (r: Self)
        ensures
            r.tenant_view() == tenant.tenant_view(),
            r.name_view().id_view() == job_id,
    {
        Self::new_generic(tenant, BackgroundJobId::new(job_id))
    }

    /// The number of the job.
    pub fn job_id(&self) -> (r: BackgroundJobId)
        ensures
            r == self.name_view(),
    {
        *self.name()
    }
}

impl BackgroundJobIdIdentRaw {
    /// The number of the job.
    pub fn job_id(&self) -> (r: BackgroundJobId)
        ensures
            r == self.name_view(),
    {
        *self.name()
    }
}

/// The key of a background job is read back as the job's number, with the
/// tenant that stands for none.
pub proof fn lemma_background_job_key_round_trip(ident: BackgroundJobIdIdent)
    ensures
        crate::tenant_key::key_parts(ident.key_view(), Resource::prefix(), false) == Some(
            (crate::tenant_key::DUMMY_TENANT@, ident.name_view().key_text()),
        ),
        BackgroundJobId::reads_as(ident.name_view().key_text(), ident.name_view()),
{
    lemma_parse_decimal_of_decimal(ident.name_view().id_view() as nat);
    lemma_key_round_trip::<Resource, BackgroundJobId>(ident);
}

} // verus!
