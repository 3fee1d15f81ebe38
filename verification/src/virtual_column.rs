//! Virtual columns: fields inside the values of a variant column that are
//! kept as columns of their own.

use vstd::prelude::*;
use vstd::string::*;
use crate::snapshot::{DataType, TypeKind};
use crate::tenant_key::{DataId, TIdent, Tenant, TenantResource, ToTenant};
use crate::text::{decimal, u64_to_decimal};
use crate::timestamp::Timestamp;

verus! {

/// Virtual columns, as a kind of thing in the meta service.
#[derive(Debug, Clone, Copy, PartialEq, Eq)]
pub struct Resource;

impl TenantResource for Resource {
    open spec fn prefix() -> Seq<char> {
        "__fd_virtual_column"@
    }

    open spec fn has_tenant() -> bool {
        true
    }

    fn key_prefix() -> (r: &'static str) {
        "__fd_virtual_column"
    }

    fn key_has_tenant() -> (r: bool) {
        true
    }

    fn kind_name() -> (r: &'static str) {
        "VirtualColumnIdent"
    }

    open spec fn kind() -> Seq<char> {
        "VirtualColumnIdent"@
    }
}

/// The identity of the virtual columns of a table: the tenant, and the
/// number of the table.
pub type VirtualColumnIdent = TIdent<Resource, DataId<Resource>>;

/// The name of a kind of column.
pub open spec fn kind_name_view(kind: TypeKind) -> Seq<char> {
    match kind {
        TypeKind::Null => "NULL"@,
        TypeKind::Boolean => "BOOLEAN"@,
        TypeKind::Number => "NUMBER"@,
        TypeKind::Decimal => "DECIMAL"@,
        TypeKind::Timestamp => "TIMESTAMP"@,
        TypeKind::Date => "DATE"@,
        TypeKind::String => "STRING"@,
        TypeKind::Binary => "BINARY"@,
        TypeKind::Variant => "VARIANT"@,
    }
}

/// The name of a kind of column.
pub fn kind_name(kind: TypeKind) -> (r: &'static str)
    ensures
        r@ == kind_name_view(kind),
{
    match kind {
        TypeKind::Null => "NULL",
        TypeKind::Boolean => "BOOLEAN",
        TypeKind::Number => "NUMBER",
        TypeKind::Decimal => "DECIMAL",
        TypeKind::Timestamp => "TIMESTAMP",
        TypeKind::Date => "DATE",
        TypeKind::String => "STRING",
        TypeKind::Binary => "BINARY",
        TypeKind::Variant => "VARIANT",
    }
}

/// The virtual field column definition of Variant type.
#[derive(Clone, Debug, Eq, PartialEq)]
pub struct VirtualField {
    /// Expression to extracts the internal virtual field of the variant
    /// value. for example:
    /// `data['key']`, `data[0]`, `data['key1']['key2']`, ..
    pub expr: String,
    /// The data type of internal virtual field.
    /// If all the rows of a virtual field has same type,
    /// the virtual field can cast to the type.
    pub data_type: DataType,
    /// Optional alias name.
    pub alias_name: Option<String>,
}

impl VirtualField {
    /// The field in words: the expression, `::` and the kind of the field,
    /// and ` AS ` with the alias where there is one.
    pub open spec fn display(&self) -> Seq<char> {
        self.expr@ + "::"@ + kind_name_view(self.data_type.kind) + (match self.alias_name {
            Some(alias) => " AS "@ + alias@,
            None => Seq::<char>::empty(),
        })
    }

    /// Writes the field in words.
    pub fn to_string(&self) -> (r: String)
        ensures
            r@ == self.display(),
    {
        let mut r = self.expr.clone();
        r.append("::");
        r.append(kind_name(self.data_type.kind));
        match &self.alias_name {
            Some(alias_name) => {
                r.append(" AS ");
                r.append(alias_name.as_str());
            },
            None => {},
        }
        r
    }
}

/// What is kept of the virtual columns of a table.
#[derive(Clone, Debug, Eq, PartialEq)]
pub struct VirtualColumnMeta {
    pub table_id: u64,
    /// The internal virtual field columns of Variant type.
    pub virtual_columns: Vec<VirtualField>,
    pub created_on: Timestamp,
    pub updated_on: Option<Timestamp>,
    /// Whether the virtual columns are auto-generated,
    /// true for auto-generated, false for user-defined.
    pub auto_generated: bool,
}

/// What is done where the thing to create is there already.
#[derive(Clone, Copy, Debug, PartialEq, Eq, Structural)]
pub enum CreateOption {
    Create,
    CreateIfNotExists,
    CreateOrReplace,
}

/// A request to create the virtual columns of a table.
#[derive(Debug, PartialEq, Eq)]
pub struct CreateVirtualColumnReq {
    pub create_option: CreateOption,
    pub name_ident: VirtualColumnIdent,
    pub virtual_columns: Vec<VirtualField>,
    pub auto_generated: bool,
}

/// A request to change the virtual columns of a table.
#[derive(Debug, PartialEq, Eq)]
pub struct UpdateVirtualColumnReq {
    pub if_exists: bool,
    pub name_ident: VirtualColumnIdent,
    pub virtual_columns: Vec<VirtualField>,
    pub auto_generated: bool,
}

/// A request to drop the virtual columns of a table.
#[derive(Debug, PartialEq, Eq)]
pub struct DropVirtualColumnReq {
    pub if_exists: bool,
    pub name_ident: VirtualColumnIdent,
}

/// The identity in words: the tenant and the number of the table, each in
/// quotes, with a slash between them.
pub open spec fn ident_display(ident: VirtualColumnIdent) -> Seq<char> {
    "'"@ + ident.tenant_view() + "'/'"@ + decimal(ident.name_view().id_view() as nat) + "'"@
}

/// Writes the identity in words.
pub fn display_ident(ident: &VirtualColumnIdent) -> (r: String)
    ensures
        r@ == ident_display(*ident),
{
    let mut r = String::from_str("'");
    r.append(ident.tenant().tenant_name());
    r.append("'/'");
    r.append(u64_to_decimal(ident.name().id()).as_str());
    r.append("'");
    r
}

impl DropVirtualColumnReq {
    /// The request in words.
    pub fn to_string(&self) -> (r: String)
        ensures
            r@ == "drop_virtual_column for "@ + ident_display(self.name_ident),
    {
        let mut r = String::from_str("drop_virtual_column for ");
        r.append(display_ident(&self.name_ident).as_str());
        r
    }
}

/// The fields as the standard formatter writes them for debugging. Nothing
/// is claimed of the text.
#[verifier::external_body]
fn debug_fields(fields: &Vec<VirtualField>) -> (text: String) {
    format!("{:?}", fields)
}

impl CreateVirtualColumnReq {
    /// The request in words: what is asked, the fields as they are written
    /// for debugging, and the identity.
    pub fn to_string(&self) -> (r: String)
        ensures
            exists|fields: Seq<char>|
                r@ == "create_virtual_column ("@ + fields + ") for "@ + #[trigger] ident_display(
                    self.name_ident,
                ),
    {
        let fields = debug_fields(&self.virtual_columns);
        let mut r = String::from_str("create_virtual_column (");
        r.append(fields.as_str());
        r.append(") for ");
        r.append(display_ident(&self.name_ident).as_str());
        assert(r@ == "create_virtual_column ("@ + fields@ + ") for "@ + ident_display(
            self.name_ident,
        ));
        r
    }
}

impl UpdateVirtualColumnReq {
    /// The request in words: what is asked, the fields as they are written
    /// for debugging, and the identity.
    pub fn to_string(&self) -> (r: String)
        ensures
            exists|fields: Seq<char>|
                r@ == "update_virtual_column ("@ + fields + ") for "@ + #[trigger] ident_display(
                    self.name_ident,
                ),
    {
        let fields = debug_fields(&self.virtual_columns);
        let mut r = String::from_str("update_virtual_column (");
        r.append(fields.as_str());
        r.append(") for ");
        r.append(display_ident(&self.name_ident).as_str());
        assert(r@ == "update_virtual_column ("@ + fields@ + ") for "@ + ident_display(
            self.name_ident,
        ));
        r
    }
}

/// A request to list virtual columns: those of one table, or of all tables
/// of the tenant.
#[derive(Clone, Debug, PartialEq, Eq)]
pub struct ListVirtualColumnsReq {
    pub tenant: Tenant,
    pub table_id: Option<u64>,
}

impl ListVirtualColumnsReq {
    /// A request to list the virtual columns of the tenant `tenant`.
    pub fn new(tenant: impl ToTenant, table_id: Option<u64>) -> (r: ListVirtualColumnsReq)
        ensures
            r.tenant.tenant@ == tenant.tenant_view(),
            r.table_id == table_id,
    {
        ListVirtualColumnsReq { tenant: tenant.to_tenant(), table_id }
    }
}

} // verus!
