//! Interpreters of statements: what each is called, and of which sort the
//! statement is.

use std::sync::Arc;
use vstd::prelude::*;
use vstd::string::*;

verus! {

/// The context of a query.
#[derive(Debug, Clone, PartialEq, Eq)]
pub struct QueryContext {
    pub id: String,
    pub tenant: String,
}

/// The plan of dropping a connection.
#[derive(Debug, Clone, PartialEq, Eq)]
pub struct DropConnectionPlan {
    pub if_exists: bool,
    pub name: String,
}

/// What every interpreter tells of itself.
pub trait Interpreter {
    /// The name of the interpreter.
    spec fn name_view(&self) -> Seq<char>;

    /// Whether the statement changes what tables and other things there
    /// are.
    spec fn ddl(&self) -> bool;

    /// Whether the statement begins or ends a transaction.
    spec fn txn_command(&self) -> bool;

    /// The name of the interpreter.
    fn name(&self) -> (r: &str)
        ensures
            r@ == self.name_view(),
    ;

    /// Whether the statement changes what tables and other things there
    /// are.
    fn is_ddl(&self) -> (r: bool)
        ensures
            r == self.ddl(),
    ;

    /// Whether the statement begins or ends a transaction.
    fn is_txn_command(&self) -> (r: bool)
        ensures
            r == self.txn_command(),
    ;
}

/// Interprets the dropping of a connection.
#[derive(Debug)]
pub struct DropConnectionInterpreter {
    ctx: Arc<QueryContext>,
    plan: DropConnectionPlan,
}

/// What is asked of the users' registry to drop a connection.
#[derive(Debug, Clone, PartialEq, Eq)]
pub struct DropConnectionRequest {
    pub tenant: String,
    pub name: String,
    pub if_exists: bool,
}

impl DropConnectionInterpreter {
    /// An interpreter of the plan `plan` in the context `ctx`.
    pub fn try_create(ctx: Arc<QueryContext>, plan: DropConnectionPlan) -> (r: Result<Self, crate::error::ErrorCode>)
        ensures
            r matches Ok(i) && i.plan_view() == plan && i.context_view() == *ctx,
    {
        Ok(DropConnectionInterpreter { ctx, plan })
    }

    /// The plan.
    pub closed spec fn plan_view(&self) -> DropConnectionPlan {
        self.plan
    }

    /// The context.
    pub closed spec fn context_view(&self) -> QueryContext {
        *self.ctx
    }

    /// What is asked of the users' registry: to drop the connection of the
    /// plan for the tenant of the context.
    pub fn request(&self) -> (r: DropConnectionRequest)
        ensures
            r.tenant@ == self.context_view().tenant@,
            r.name@ == self.plan_view().name@,
            r.if_exists == self.plan_view().if_exists,
    {
        DropConnectionRequest {
            tenant: self.ctx.tenant.clone(),
            name: self.plan.name.clone(),
            if_exists: self.plan.if_exists,
        }
    }
}

impl Interpreter for DropConnectionInterpreter {
    open spec fn name_view(&self) -> Seq<char> {
        "DropConnectionInterpreter"@
    }

    open spec fn ddl(&self) -> bool {
        true
    }

    open spec fn txn_command(&self) -> bool {
        false
    }

    fn name(&self) -> (r: &str) {
        "DropConnectionInterpreter"
    }

    fn is_ddl(&self) -> (r: bool) {
        true
    }

    fn is_txn_command(&self) -> (r: bool) {
        false
    }
}

/// Interprets the commit of a transaction.
pub struct CommitInterpreter {
    ctx: Arc<QueryContext>,
}

impl CommitInterpreter {
    /// An interpreter in the context `ctx`.
    pub fn try_create(ctx: Arc<QueryContext>) -> (r: Result<Self, crate::error::ErrorCode>)
        ensures
            r matches Ok(i) && i.context_view() == *ctx,
    {
        Ok(Self { ctx })
    }

    /// The context.
    pub closed spec fn context_view(&self) -> QueryContext {
        *self.ctx
    }

    /// The context.
    pub fn context(&self) -> (r: &Arc<QueryContext>)
        ensures
            **r == self.context_view(),
    {
        &self.ctx
    }
}

impl Interpreter for CommitInterpreter {
    open spec fn name_view(&self) -> Seq<char> {
        "CommitInterpreter"@
    }

    open spec fn ddl(&self) -> bool {
        false
    }

    open spec fn txn_command(&self) -> bool {
        true
    }

    fn name(&self) -> (r: &str) {
        "CommitInterpreter"
    }

    fn is_ddl(&self) -> (r: bool) {
        false
    }

    fn is_txn_command(&self) -> (r: bool) {
        true
    }
}

/// What is to be killed.
#[derive(Debug, Clone, Copy, PartialEq, Eq, Structural)]
pub enum KillTarget {
    Query,
    Connection,
}

/// The plan of killing a query or a connection.
#[derive(Debug, Clone, PartialEq, Eq)]
pub struct KillPlan {
    pub id: String,
    pub kill_connection: bool,
}

/// Makes the plan of a kill statement.
pub fn bind_kill_stmt(kill_target: &KillTarget, object_id: &str) -> (r: KillPlan)
    ensures
        r.id@ == object_id@,
        r.kill_connection == (*kill_target == KillTarget::Connection),
{
    let kill_connection = matches!(kill_target, KillTarget::Connection);
    KillPlan { id: String::from_str(object_id), kill_connection }
}

/// The plan of creating a database.
#[derive(Debug, Clone)]
pub struct CreateDatabasePlan {
    pub if_not_exists: bool,
    pub db: String,
    pub options: crate::table_options::TableOptions,
}

impl CreateDatabasePlan {
    /// The schema of what the plan gives: no field.
    pub fn schema(&self) -> (r: crate::sort_utils::DataSchema)
        ensures
            r.fields@.len() == 0,
    {
        crate::sort_utils::DataSchema { fields: Vec::new() }
    }
}

} // verus!
