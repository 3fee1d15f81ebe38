//! The key of a connection that a user defined, by its name.

use vstd::prelude::*;
use crate::key_escape::lemma_escape_round_trip;
use crate::tenant_key::{is_key_segment, lemma_key_round_trip, KeyName, TIdent, TenantResource};

verus! {

/// Defines the meta-service key for connection.
pub type ConnectionIdent = TIdent<Resource>;

/// Connections, as a kind of thing in the meta service.
#[derive(Debug, Clone, Copy, PartialEq, Eq)]
pub struct Resource;

impl TenantResource for Resource {
    open spec fn prefix() -> Seq<char> {
        "__fd_connection"@
    }

    open spec fn has_tenant() -> bool {
        true
    }

    fn key_prefix() -> (r: &'static str) {
        "__fd_connection"
    }

    fn key_has_tenant() -> (r: bool) {
        true
    }

    fn kind_name() -> (r: &'static str) {
        "ConnectionIdent"
    }

    open spec fn kind() -> Seq<char> {
        "ConnectionIdent"@
    }
}

/// The key of a connection is read back as the connection's tenant and
/// name, whatever characters the name holds.
pub proof fn lemma_connection_key_round_trip(ident: ConnectionIdent)
    requires
        is_key_segment(ident.tenant_view()),
        ident.name_view()@.len() > 0,
    ensures
        crate::tenant_key::key_parts(ident.key_view(), Resource::prefix(), true) == Some(
            (ident.tenant_view(), ident.name_view().key_text()),
        ),
        String::reads_as(ident.name_view().key_text(), ident.name_view()),
{
    lemma_escape_round_trip(ident.name_view()@);
    lemma_key_round_trip::<Resource, String>(ident);
}

} // verus!
