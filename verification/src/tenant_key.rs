//! Keys of the meta service that belong to a tenant: how an identity is
//! written as a key and read back from one.

use std::marker::PhantomData;
use vstd::prelude::*;
use vstd::string::*;
use crate::text::{decimal, digit_char, find_char, index_of, lemma_index_of, str_eq, u64_to_decimal};

verus! {

/// Why a text is not the key of an identity.
#[derive(Debug, Clone, Copy, PartialEq, Eq, Structural)]
pub enum KeyError {
    /// The key does not start with the prefix of the kind of identity.
    UnknownPrefix,
    /// A part of the key is empty.
    EmptySegment,
    /// The key has too few or too many parts.
    WrongNumberOfSegments,
    /// A part that should be a number is none, or too great a one.
    InvalidId,
    /// A part is not rightly escaped, or is no text once unescaped.
    InvalidSegment,
}

/// A tenant, by its name.
#[derive(Debug, Clone, PartialEq, Eq)]
pub struct Tenant {
    pub tenant: String,
}

impl Tenant {
    /// The tenant of the name `name`.
    pub fn new_literal(name: &str) -> (r: Tenant)
        ensures
            r.tenant@ == name@,
    {
        Tenant { tenant: String::from_str(name) }
    }

    /// The name of the tenant.
    pub fn tenant_name(&self) -> (r: &str)
        ensures
            r@ == self.tenant@,
    {
        self.tenant.as_str()
    }
}

/// What can be taken for a tenant.
pub trait ToTenant {
    /// The name of the tenant that `self` stands for.
    spec fn tenant_view(&self) -> Seq<char>;

    /// The tenant that `self` stands for.
    fn to_tenant(self) -> (r: Tenant)
        ensures
            r.tenant@ == self.tenant_view(),
    ;
}

impl ToTenant for Tenant {
    open spec fn tenant_view(&self) -> Seq<char> {
        self.tenant@
    }

    fn to_tenant(self) -> (r: Tenant) {
        self
    }
}

impl ToTenant for &Tenant {
    open spec fn tenant_view(&self) -> Seq<char> {
        self.tenant@
    }

    fn to_tenant(self) -> (r: Tenant) {
        Tenant { tenant: self.tenant.clone() }
    }
}

/// A kind of thing that a tenant has in the meta service.
pub trait TenantResource {
    /// What the keys of this kind start with.
    spec fn prefix() -> Seq<char>;

    /// Whether the tenant's name is part of the key.
    spec fn has_tenant() -> bool;

    /// What the keys of this kind start with.
    fn key_prefix() -> (r: &'static str)
        ensures
            r@ == Self::prefix(),
    ;

    /// Whether the tenant's name is part of the key.
    fn key_has_tenant() -> (r: bool)
        ensures
            r == Self::has_tenant(),
    ;

    /// The name of the kind.
    fn kind_name() -> (r: &'static str)
        ensures
            r@ == Self::kind(),
    ;

    /// The name of the kind.
    spec fn kind() -> Seq<char>;
}

/// The last part of a key: what names a thing among those of its kind.
pub trait KeyName: Sized {
    /// The name as it is written in a key.
    spec fn key_text(&self) -> Seq<char>;

    /// Whether `text` is a name written in a key, and the name `name`.
    spec fn reads_as(text: Seq<char>, name: Self) -> bool;

    /// Whether `text` is a name written in a key.
    spec fn readable(text: Seq<char>) -> bool;

    /// Writes the name as part of a key.
    fn encode_key(&self) -> (r: String)
        ensures
            r@ == self.key_text(),
    ;

    /// Reads the name from a part of a key.
    fn decode_key(text: &str) -> (r: Result<Self, KeyError>)
        ensures
            match r {
                Ok(name) => Self::reads_as(text@, name),
                Err(_) => !Self::readable(text@),
            },
    ;
}

/// The number that a text of decimal digits, with or without a plus sign in
/// front, stands for. `None` for any other text.
pub open spec fn parse_decimal(text: Seq<char>) -> Option<nat> {
    if text.len() > 0 && text[0] == '+' {
        parse_digits(text.subrange(1, text.len() as int))
    } else {
        parse_digits(text)
    }
}

/// The value of a decimal digit, or `None` for any other character.
pub open spec fn digit_value(c: char) -> Option<nat> {
    if c == '0' {
        Some(0nat)
    } else if c == '1' {
        Some(1nat)
    } else if c == '2' {
        Some(2nat)
    } else if c == '3' {
        Some(3nat)
    } else if c == '4' {
        Some(4nat)
    } else if c == '5' {
        Some(5nat)
    } else if c == '6' {
        Some(6nat)
    } else if c == '7' {
        Some(7nat)
    } else if c == '8' {
        Some(8nat)
    } else if c == '9' {
        Some(9nat)
    } else {
        None
    }
}

/// The number that a text of one or more decimal digits stands for.
pub open spec fn parse_digits(text: Seq<char>) -> Option<nat>
    decreases text.len(),
{
    if text.len() == 0 {
        None
    } else if text.len() == 1 {
        digit_value(text[0])
    } else {
        match (parse_digits(text.drop_last()), digit_value(text.last())) {
            (Some(n), Some(d)) => Some(n * 10 + d),
            _ => None,
        }
    }
}

/// The value of a decimal digit.
fn digit_of(c: char) -> (r: Option<u64>)
    ensures
        match r {
            Some(d) => d < 10 && digit_value(c) == Some(d as nat),
            None => digit_value(c) is None,
        },
{
    if c == '0' {
        Some(0)
    } else if c == '1' {
        Some(1)
    } else if c == '2' {
        Some(2)
    } else if c == '3' {
        Some(3)
    } else if c == '4' {
        Some(4)
    } else if c == '5' {
        Some(5)
    } else if c == '6' {
        Some(6)
    } else if c == '7' {
        Some(7)
    } else if c == '8' {
        Some(8)
    } else if c == '9' {
        Some(9)
    } else {
        None
    }
}

/// Reads a number from its decimal digits. A plus sign may stand in front.
/// A text that is no such number, or a number too great, gives `None`.
pub fn parse_u64(text: &str) -> (r: Option<u64>)
    ensures
        match r {
            Some(n) => parse_decimal(text@) == Some(n as nat),
            None => parse_decimal(text@) matches Some(n) ==> n > u64::MAX,
        },
{
    let n = text.unicode_len();
    let start: usize = if n > 0 && text.get_char(0) == '+' {
        1
    } else {
        0
    };
    let ghost digits = text@.subrange(start as int, n as int);
    assert(text@.subrange(0, n as int) =~= text@);
    if start == n {
        return None;
    }
    let mut value: u64 = 0;
    let mut i: usize = start;
    while i < n
        invariant
            start <= i <= n,
            start < n,
            n == text@.len(),
            digits == text@.subrange(start as int, n as int),
            parse_decimal(text@) == parse_digits(digits),
            i > start ==> parse_digits(digits.take(i - start)) == Some(value as nat),
            i == start ==> value == 0,
        decreases n - i,
    {
        let c = text.get_char(i);
        let ghost upto = digits.take(i - start + 1);
        proof {
            assert(upto.drop_last() =~= digits.take(i - start));
        }
        match digit_of(c) {
            None => {
                proof {
                    if parse_digits(digits) is Some {
                        lemma_parse_digits_prefix(digits, (i - start + 1) as int);
                    }
                }
                return None;
            },
            Some(d) => {
                if value > (u64::MAX - d) / 10 {
                    proof {
                        if parse_digits(digits) is Some {
                            lemma_parse_digits_monotone(digits, (i - start + 1) as int);
                        }
                    }
                    return None;
                }
                value = value * 10 + d;
            },
        }
        i += 1;
    }
    assert(digits.take(n - start) =~= digits);
    Some(value)
}

/// Where a text of digits stands for a number, so does each part of it from
/// the front.
proof fn lemma_parse_digits_prefix(text: Seq<char>, k: int)
    requires
        1 <= k <= text.len(),
        parse_digits(text) is Some,
    ensures
        parse_digits(text.take(k)) is Some,
    decreases text.len() - k,
{
    if k == text.len() {
        assert(text.take(k) =~= text);
    } else {
        assert(text.drop_last().take(k) =~= text.take(k));
        lemma_parse_digits_prefix(text.drop_last(), k);
    }
}

/// A text of digits stands for no smaller number than a part of it from the
/// front.
proof fn lemma_parse_digits_monotone(text: Seq<char>, k: int)
    requires
        1 <= k <= text.len(),
        parse_digits(text) is Some,
    ensures
        parse_digits(text.take(k)) is Some,
        parse_digits(text.take(k))->Some_0 <= parse_digits(text)->Some_0,
    decreases text.len() - k,
{
    lemma_parse_digits_prefix(text, k);
    if k == text.len() {
        assert(text.take(k) =~= text);
    } else {
        assert(text.drop_last().take(k) =~= text.take(k));
        lemma_parse_digits_monotone(text.drop_last(), k);
    }
}

/// The decimal numeral of a number is read back as that number.
pub proof fn lemma_parse_decimal_of_decimal(n: nat)
    ensures
        parse_digits(decimal(n)) == Some(n),
        parse_decimal(decimal(n)) == Some(n),
        decimal(n).len() > 0,
        decimal(n)[0] != '+',
        forall|i: int| 0 <= i < decimal(n).len() ==> decimal(n)[i] != '/',
    decreases n,
{
    if n < 10 {
    } else {
        lemma_parse_decimal_of_decimal(n / 10);
        let d = decimal(n);
        assert(d.drop_last() =~= decimal(n / 10));
    }
}

/// The identity of a thing by a number.
#[derive(Debug, PartialEq, Eq)]
pub struct DataId<R> {
    id: u64,
    resource: PhantomData<R>,
}

impl<R> Clone for DataId<R> {
    fn clone(&self) -> (r: Self)
        ensures
            r == *self,
    {
        DataId { id: self.id, resource: PhantomData }
    }
}

impl<R> Copy for DataId<R> {

}

impl<R> DataId<R> {
    /// The identity of the number `id`.
    pub fn new(id: u64) -> (r: Self)
        ensures
            r.id_view() == id,
    {
        DataId { id, resource: PhantomData }
    }

    /// The number.
    pub closed spec fn id_view(&self) -> u64 {
        self.id
    }

    /// The number.
    pub fn id(&self) -> (r: u64)
        ensures
            r == self.id_view(),
    {
        self.id
    }
}

impl<R> KeyName for DataId<R> {
    open spec fn key_text(&self) -> Seq<char> {
        decimal(self.id_view() as nat)
    }

    open spec fn reads_as(text: Seq<char>, name: Self) -> bool {
        parse_decimal(text) == Some(name.id_view() as nat)
    }

    open spec fn readable(text: Seq<char>) -> bool {
        parse_decimal(text) matches Some(n) && n <= u64::MAX
    }

    fn encode_key(&self) -> (r: String) {
        u64_to_decimal(self.id)
    }

    fn decode_key(text: &str) -> (r: Result<Self, KeyError>) {
        match parse_u64(text) {
            Some(id) => Ok(DataId::new(id)),
            None => Err(KeyError::InvalidId),
        }
    }
}

/// The identity of a thing of the kind `R` that belongs to a tenant: the
/// tenant and the thing's name.
#[derive(Debug, PartialEq, Eq)]
pub struct TIdent<R, N = String> {
    tenant: Tenant,
    name: N,
    resource: PhantomData<R>,
}

/// An identity by its parts alone.
#[derive(Debug, PartialEq, Eq)]
pub struct TIdentRaw<R, N = String> {
    tenant: String,
    name: N,
    resource: PhantomData<R>,
}

/// The name of the tenant of an identity whose key leaves the tenant out.
pub const DUMMY_TENANT: &'static str = "dummy";

/// The parts of a key of a kind with the prefix `prefix`: the tenant's
/// name, if the key has one, and the name of the thing. `None` where the
/// text is no such key.
pub open spec fn key_parts(text: Seq<char>, prefix: Seq<char>, has_tenant: bool) -> Option<
    (Seq<char>, Seq<char>),
> {
    if text.len() < prefix.len() + 1 || text.subrange(0, prefix.len() as int) != prefix
        || text[prefix.len() as int] != '/' {
        None
    } else {
        let rest = text.subrange(prefix.len() as int + 1, text.len() as int);
        if has_tenant {
            let k = index_of(rest, '/');
            let name = rest.subrange(
                if k < rest.len() {
                    k + 1
                } else {
                    k
                },
                rest.len() as int,
            );
            if k == 0 || k >= rest.len() || name.len() == 0 || index_of(name, '/') < name.len() {
                None
            } else {
                Some((rest.subrange(0, k), name))
            }
        } else if rest.len() == 0 || index_of(rest, '/') < rest.len() {
            None
        } else {
            Some((DUMMY_TENANT@, rest))
        }
    }
}

impl<R: TenantResource, N: KeyName> TIdent<R, N> {
    /// The identity of the thing `name` of the tenant `tenant`.
    pub fn new_generic(tenant: impl ToTenant, name: N) -> (r: Self)
        ensures
            r.tenant_view() == tenant.tenant_view(),
            r.name_view() == name,
    {
        TIdent { tenant: tenant.to_tenant(), name, resource: PhantomData }
    }

    /// The name of the tenant.
    pub closed spec fn tenant_view(&self) -> Seq<char> {
        self.tenant.tenant@
    }

    /// The name of the thing.
    pub closed spec fn name_view(&self) -> N {
        self.name
    }

    /// The tenant.
    pub fn tenant(&self) -> (r: &Tenant)
        ensures
            r.tenant@ == self.tenant_view(),
    {
        &self.tenant
    }

    /// The name of the thing.
    pub fn name(&self) -> (r: &N)
        ensures
            *r == self.name_view(),
    {
        &self.name
    }

    /// The identity by its parts alone.
    pub fn to_raw(self) -> (r: TIdentRaw<R, N>)
        ensures
            r.tenant_view() == self.tenant_view(),
            r.name_view() == self.name_view(),
    {
        TIdentRaw { tenant: self.tenant.tenant, name: self.name, resource: PhantomData }
    }

    /// The key of the identity: the prefix of its kind, the tenant's name
    /// where the kind has it in its keys, and the name of the thing.
    pub open spec fn key_view(&self) -> Seq<char> {
        R::prefix() + (if R::has_tenant() {
            seq!['/'] + self.tenant_view()
        } else {
            Seq::<char>::empty()
        }) + seq!['/'] + self.name_view().key_text()
    }

    /// Writes the identity as a key.
    pub fn to_string_key(&self) -> (key: String)
        ensures
            key@ == self.key_view(),
    {
        proof {
            reveal_strlit("/");
        }
        let mut key = String::from_str(R::key_prefix());
        if R::key_has_tenant() {
            key.append("/");
            key.append(self.tenant.tenant.as_str());
        }
        key.append("/");
        let name = self.name.encode_key();
        key.append(name.as_str());
        key
    }

    /// Reads an identity from a key.
    ///
    /// The key must start with the prefix of the kind and a slash. Then
    /// comes the tenant's name and a slash, where the kind has the tenant
    /// in its keys, and last the name of the thing. No part may be empty,
    /// and there may be no further part. An identity whose key leaves the
    /// tenant out is given the tenant `dummy`.
    pub fn from_str_key(text: &str) -> (r: Result<Self, KeyError>)
        ensures
            match r {
                Ok(ident) => key_parts(text@, R::prefix(), R::has_tenant()) matches Some(parts)
                    && ident.tenant_view() == parts.0 && N::reads_as(parts.1, ident.name_view()),
                Err(_) => key_parts(text@, R::prefix(), R::has_tenant()) matches Some(parts)
                    ==> !N::readable(parts.1),
            },
    {
        let prefix = R::key_prefix();
        let n = text.unicode_len();
        let p = prefix.unicode_len();
        if n <= p {
            return Err(KeyError::UnknownPrefix);
        }
        let head = text.substring_char(0, p);
        if !str_eq(head, prefix) || text.get_char(p) != '/' {
            return Err(KeyError::UnknownPrefix);
        }
        let rest = text.substring_char(p + 1, n);
        let m = rest.unicode_len();
        if R::key_has_tenant() {
            let k = find_char(rest, '/');
            proof {
                lemma_index_of(rest@, '/');
            }
            if k == 0 {
                return Err(KeyError::EmptySegment);
            }
            if k >= m {
                return Err(KeyError::WrongNumberOfSegments);
            }
            let tenant = rest.substring_char(0, k);
            let name_text = rest.substring_char(k + 1, m);
            if name_text.unicode_len() == 0 {
                return Err(KeyError::EmptySegment);
            }
            let j = find_char(name_text, '/');
            if j < name_text.unicode_len() {
                return Err(KeyError::WrongNumberOfSegments);
            }
            match N::decode_key(name_text) {
                Ok(name) => Ok(
                    TIdent { tenant: Tenant::new_literal(tenant), name, resource: PhantomData },
                ),
                Err(e) => Err(e),
            }
        } else {
            if m == 0 {
                return Err(KeyError::EmptySegment);
            }
            let j = find_char(rest, '/');
            if j < m {
                return Err(KeyError::WrongNumberOfSegments);
            }
            match N::decode_key(rest) {
                Ok(name) => Ok(
                    TIdent {
                        tenant: Tenant::new_literal(DUMMY_TENANT),
                        name,
                        resource: PhantomData,
                    },
                ),
                Err(e) => Err(e),
            }
        }
    }
}

impl<R: TenantResource> TIdent<R, String> {
    /// The identity of the thing of the name `name` of the tenant `tenant`.
    pub fn new(tenant: impl ToTenant, name: &str) -> (r: Self)
        ensures
            r.tenant_view() == tenant.tenant_view(),
            r.name_view()@ == name@,
    {
        TIdent { tenant: tenant.to_tenant(), name: String::from_str(name), resource: PhantomData }
    }
}

/// Whether `text` is not empty and holds no slash.
pub open spec fn is_key_segment(text: Seq<char>) -> bool {
    text.len() > 0 && forall|i: int| 0 <= i < text.len() ==> text[i] != '/'
}

/// The key of an identity is taken apart into the parts that it was made
/// of: the tenant's name, where the kind has it in its keys, and the name
/// of the thing as it is written in a key.
pub proof fn lemma_key_round_trip<R: TenantResource, N: KeyName>(ident: TIdent<R, N>)
    requires
        R::has_tenant() ==> is_key_segment(ident.tenant_view()),
        is_key_segment(ident.name_view().key_text()),
    ensures
        key_parts(ident.key_view(), R::prefix(), R::has_tenant()) == Some(
            (
                if R::has_tenant() {
                    ident.tenant_view()
                } else {
                    DUMMY_TENANT@
                },
                ident.name_view().key_text(),
            ),
        ),
{
    let text = ident.key_view();
    let prefix = R::prefix();
    let tenant = ident.tenant_view();
    let name = ident.name_view().key_text();
    let p = prefix.len() as int;
    assert(text.subrange(0, p) =~= prefix);
    let rest = text.subrange(p + 1, text.len() as int);
    if R::has_tenant() {
        let k = tenant.len() as int;
        crate::text::lemma_index_of_unique(rest, '/', k);
        assert(rest.subrange(k + 1, rest.len() as int) =~= name);
        crate::text::lemma_index_of_unique(name, '/', name.len() as int);
    } else {
        assert(rest =~= name);
        crate::text::lemma_index_of_unique(name, '/', name.len() as int);
    }
}

impl<R, N> TIdentRaw<R, N> {
    /// The name of the tenant.
    pub closed spec fn tenant_view(&self) -> Seq<char> {
        self.tenant@
    }

    /// The name of the thing.
    pub closed spec fn name_view(&self) -> N {
        self.name
    }

    /// The name of the tenant.
    pub fn tenant_name(&self) -> (r: &str)
        ensures
            r@ == self.tenant_view(),
    {
        self.tenant.as_str()
    }

    /// The name of the thing.
    pub fn name(&self) -> (r: &N)
        ensures
            *r == self.name_view(),
    {
        &self.name
    }
}

} // verus!
