//! Scopes: the identity every statement predicates on.
//!
//! The scope id is derived rather than generated: it is the hex SHA-256 of
//! the owner, the kind's label and the key, joined by a byte none of them can
//! hold. A writer therefore knows a scope's id without reading the scope
//! table, and two different scopes hand the digest two different inputs.

use vstd::prelude::*;
use vstd::utf8::encode_utf8;

use crate::digest::{hex_digest, spec_hex_digest};
use crate::error::Error;
use crate::sql::{sql_step, text, Statement, StepView, TxnBuilder, Value, ValueView};
use crate::text::{cat3, extend_bytes, str_eq};
use vstd::string::StrSliceExecFns;

verus! {

/// The unit separator joining the parts of a derived identity.
pub const SEPARATOR: u8 = 0x1f;

/// Whose a scope is beyond its owner.
#[derive(Clone, Debug, PartialEq, Eq, Hash)]
pub enum ScopeKind {
    /// The owner's own memories.
    Personal,
    /// One project of the owner's.
    Project {
        /// The project's key.
        project: String,
    },
    /// A share the owner holds.
    Shared {
        /// The share's key.
        share: String,
    },
}

/// A scope: the owner and the kind.
#[derive(Clone, Debug, PartialEq, Eq, Hash)]
pub struct Scope {
    /// The subject that owns the scope.
    pub owner: String,
    /// Personal, project or shared.
    pub kind: ScopeKind,
}

/// The label the `kind` column holds for a scope kind.
pub open spec fn scope_kind_label(kind: ScopeKind) -> Seq<char> {
    match kind {
        ScopeKind::Personal => "personal"@,
        ScopeKind::Project { .. } => "project"@,
        ScopeKind::Shared { .. } => "shared"@,
    }
}

/// The key the `key` column holds: the kind's key, or the empty text.
pub open spec fn scope_key(kind: ScopeKind) -> Seq<char> {
    match kind {
        ScopeKind::Personal => Seq::empty(),
        ScopeKind::Project { project } => project@,
        ScopeKind::Shared { share } => share@,
    }
}

/// The bytes a scope id is the digest of: owner, separator, kind label,
/// separator, key.
pub open spec fn scope_material(scope: Scope) -> Seq<u8> {
    encode_utf8(scope.owner@) + seq![SEPARATOR] + encode_utf8(scope_kind_label(scope.kind))
        + seq![SEPARATOR] + encode_utf8(scope_key(scope.kind))
}

/// The derived id of a scope.
pub open spec fn spec_scope_id(scope: Scope) -> Seq<char> {
    spec_hex_digest(scope_material(scope))
}

/// A scope whose owner and key hold no separator byte, which every owner and
/// key that reaches the store satisfies (both refuse control characters).
pub open spec fn separator_free(scope: Scope) -> bool {
    &&& !encode_utf8(scope.owner@).contains(SEPARATOR)
    &&& !encode_utf8(scope_key(scope.kind)).contains(SEPARATOR)
}

impl ScopeKind {
    /// The label the `kind` column holds.
    pub fn label(&self) -> (s: &'static str)
        ensures
            s@ == scope_kind_label(*self),
    {
        match self {
            ScopeKind::Personal => "personal",
            ScopeKind::Project { .. } => "project",
            ScopeKind::Shared { .. } => "shared",
        }
    }

    /// The kind's key, when it has one.
    pub fn key(&self) -> (k: Option<&str>)
        ensures
            match *self {
                ScopeKind::Personal => k is None,
                ScopeKind::Project { project } => k matches Some(s) && s@ == project@,
                ScopeKind::Shared { share } => k matches Some(s) && s@ == share@,
            },
    {
        match self {
            ScopeKind::Personal => None,
            ScopeKind::Project { project } => Some(project.as_str()),
            ScopeKind::Shared { share } => Some(share.as_str()),
        }
    }
}

impl Scope {
    /// A copy of this scope, field for field.
    pub fn duplicate(&self) -> (s: Scope)
        ensures
            s == *self,
    {
        let kind = match &self.kind {
            ScopeKind::Personal => ScopeKind::Personal,
            ScopeKind::Project { project } => ScopeKind::Project { project: project.clone() },
            ScopeKind::Shared { share } => ScopeKind::Shared { share: share.clone() },
        };
        Scope { owner: self.owner.clone(), kind }
    }

    /// The personal scope of `owner`.
    pub fn personal(owner: String) -> (s: Scope)
        ensures
            s.owner == owner,
            s.kind == ScopeKind::Personal,
    {
        Scope { owner, kind: ScopeKind::Personal }
    }
}

/// The identity of a scope in the schema: a derived, stable digest.
#[derive(Clone, Debug, PartialEq, Eq, PartialOrd, Ord, Hash)]
pub struct ScopeId(String);

impl View for ScopeId {
    type V = Seq<char>;

    closed spec fn view(&self) -> Seq<char> {
        self.0@
    }
}

impl ScopeId {
    /// Derive the id of `scope`.
    pub fn of(scope: &Scope) -> (id: ScopeId)
        ensures
            id@ == spec_scope_id(*scope),
            id@.len() == 64,
    {
        let mut material: Vec<u8> = Vec::new();
        extend_bytes(&mut material, scope.owner.as_str().as_bytes());
        material.push(SEPARATOR);
        extend_bytes(&mut material, scope.kind.label().as_bytes());
        material.push(SEPARATOR);
        extend_bytes(&mut material, Self::key_of(scope).as_bytes());
        assert(material@ =~= scope_material(*scope));
        ScopeId(hex_digest(material.as_slice()))
    }

    /// The key column's value: the kind's key, or the empty string. Never
    /// `NULL`, because two `NULL`s in a unique index are distinct.
    pub fn key_of(scope: &Scope) -> (k: &str)
        ensures
            k@ == scope_key(scope.kind),
    {
        match scope.kind.key() {
            Some(k) => k,
            None => {
                proof {
                    reveal_strlit("");
                }
                ""
            },
        }
    }

    /// The id as the schema stores it.
    pub fn as_str(&self) -> (s: &str)
        ensures
            s@ == self@,
    {
        self.0.as_str()
    }

    /// The id as a text parameter.
    pub fn value(&self) -> (v: Value)
        ensures
            v@ == text(self@),
    {
        Value::Text(self.0.clone())
    }
}

pub(crate) proof fn lemma_separated_prefix(a1: Seq<u8>, r1: Seq<u8>, a2: Seq<u8>, r2: Seq<u8>)
    requires
        !a1.contains(SEPARATOR),
        !a2.contains(SEPARATOR),
        a1 + seq![SEPARATOR] + r1 == a2 + seq![SEPARATOR] + r2,
    ensures
        a1 == a2,
        r1 == r2,
{
    let m = a1 + seq![SEPARATOR] + r1;
    if a1.len() < a2.len() {
        assert(m[a1.len() as int] == SEPARATOR);
        assert(a2[a1.len() as int] == m[a1.len() as int]);
        assert(a2.contains(SEPARATOR));
    } else if a2.len() < a1.len() {
        assert(m[a2.len() as int] == SEPARATOR);
        assert(a1[a2.len() as int] == m[a2.len() as int]);
        assert(a1.contains(SEPARATOR));
    }
    assert(a1 =~= m.subrange(0, a1.len() as int));
    assert(a2 =~= m.subrange(0, a2.len() as int));
    assert(r1 =~= m.subrange(a1.len() as int + 1, m.len() as int));
    assert(r2 =~= m.subrange(a2.len() as int + 1, m.len() as int));
}

/// Different scopes are different digest inputs: the material a scope id is
/// the digest of determines the owner, the kind and the key, so two scopes
/// share an id only where SHA-256 collides.
pub proof fn lemma_scope_material_injective(s1: Scope, s2: Scope)
    requires
        separator_free(s1),
        separator_free(s2),
        scope_material(s1) == scope_material(s2),
    ensures
        s1.owner@ == s2.owner@,
        scope_kind_label(s1.kind) == scope_kind_label(s2.kind),
        scope_key(s1.kind) == scope_key(s2.kind),
{
    reveal_strlit("personal");
    reveal_strlit("project");
    reveal_strlit("shared");
    let l1 = encode_utf8(scope_kind_label(s1.kind));
    let l2 = encode_utf8(scope_kind_label(s2.kind));
    let k1 = encode_utf8(scope_key(s1.kind));
    let k2 = encode_utf8(scope_key(s2.kind));
    let o1 = encode_utf8(s1.owner@);
    let o2 = encode_utf8(s2.owner@);
    assert(scope_material(s1) =~= o1 + seq![SEPARATOR] + (l1 + seq![SEPARATOR] + k1));
    assert(scope_material(s2) =~= o2 + seq![SEPARATOR] + (l2 + seq![SEPARATOR] + k2));
    lemma_label_separator_free(s1.kind);
    lemma_label_separator_free(s2.kind);
    lemma_separated_prefix(o1, l1 + seq![SEPARATOR] + k1, o2, l2 + seq![SEPARATOR] + k2);
    lemma_separated_prefix(l1, k1, l2, k2);
    vstd::utf8::encode_utf8_decode_utf8(s1.owner@);
    vstd::utf8::encode_utf8_decode_utf8(s2.owner@);
    vstd::utf8::encode_utf8_decode_utf8(scope_kind_label(s1.kind));
    vstd::utf8::encode_utf8_decode_utf8(scope_kind_label(s2.kind));
    vstd::utf8::encode_utf8_decode_utf8(scope_key(s1.kind));
    vstd::utf8::encode_utf8_decode_utf8(scope_key(s2.kind));
}

/// Text made of lowercase letters encodes to bytes that hold no separator.
pub proof fn lemma_lowercase_separator_free(chars: Seq<char>)
    requires
        forall|i: int| 0 <= i < chars.len() ==> 'a' <= #[trigger] chars[i] <= 'z',
    ensures
        !encode_utf8(chars).contains(SEPARATOR),
{
    assert(vstd::utf8::is_ascii_chars(chars));
    vstd::utf8::is_ascii_chars_encode_utf8(chars);
    let e = encode_utf8(chars);
    if e.contains(SEPARATOR) {
        let i = choose|i: int| 0 <= i < e.len() && e[i] == SEPARATOR;
        assert(chars[i] as u8 == e[i]);
        assert('a' <= chars[i]);
        assert(false);
    }
}

pub(crate) proof fn lemma_label_separator_free(kind: ScopeKind)
    ensures
        !encode_utf8(scope_kind_label(kind)).contains(SEPARATOR),
{
    reveal_strlit("personal");
    reveal_strlit("project");
    reveal_strlit("shared");
    let l = scope_kind_label(kind);
    assert forall|i: int| 0 <= i < l.len() implies 'a' <= #[trigger] l[i] <= 'z' by {
        match kind {
            ScopeKind::Personal => {
                assert(0 <= i < 8);
            },
            ScopeKind::Project { .. } => {
                assert(0 <= i < 7);
            },
            ScopeKind::Shared { .. } => {
                assert(0 <= i < 6);
            },
        }
    }
    lemma_lowercase_separator_free(l);
}


/// A timestamp as the `i64` SQLite stores: saturating at `i64::MAX` rather
/// than wrapping, because a wrapped time would sort before every real one.
pub open spec fn sql_seconds(seconds: u64) -> i64 {
    if seconds <= i64::MAX as u64 {
        seconds as i64
    } else {
        i64::MAX
    }
}

/// A timestamp as the `i64` SQLite stores.
pub fn seconds_to_sql(seconds: u64) -> (s: i64)
    ensures
        s == sql_seconds(seconds),
{
    if seconds <= i64::MAX as u64 {
        seconds as i64
    } else {
        i64::MAX
    }
}

/// `INSERT OR IGNORE`, because a capture into an existing scope is the
/// ordinary case and must not fail.
pub const ENSURE_SQL: &'static str = "INSERT OR IGNORE INTO scope (scope_id, owner, kind, key, created)
    VALUES ($1, $2, $3, $4, $5)";

/// The read that decides whether a scope exists.
pub const GET_SQL: &'static str = "SELECT scope_id, owner, kind, key, created FROM scope
    WHERE scope_id = $1";

/// The step [`ScopeRepo::ensure`] stages.
pub open spec fn ensure_step(scope: Scope, created: u64) -> StepView {
    sql_step(
        ENSURE_SQL@,
        seq![
            text(spec_scope_id(scope)),
            text(scope.owner@),
            text(scope_kind_label(scope.kind)),
            text(scope_key(scope.kind)),
            ValueView::Integer(sql_seconds(created)),
        ],
    )
}

/// The columns of one `scope` row, as the store hands them back.
pub struct ScopeColumns {
    /// `scope_id`.
    pub scope_id: String,
    /// `owner`.
    pub owner: String,
    /// `kind`.
    pub kind: String,
    /// `key`.
    pub key: String,
    /// `created`.
    pub created: i64,
}

/// A scope as the `scope` table holds it.
pub struct ScopeRow {
    /// The derived id.
    pub id: ScopeId,
    /// The scope itself, rebuilt from the row.
    pub scope: Scope,
    /// When this scope was first written to.
    pub created: u64,
}

/// Whether a stored kind label is one of the three.
/// A control character, which no scope key may hold.
pub open spec fn control_char(c: char) -> bool {
    c < ' ' || ('\u{7f}' <= c && c <= '\u{9f}')
}

/// A project or share key a scope row may hold: not empty, and free of
/// control characters (the separator of a derived identity among them).
pub open spec fn legal_scope_key(key: Seq<char>) -> bool {
    &&& key.len() > 0
    &&& forall|i: int| 0 <= i < key.len() ==> !control_char(#[trigger] key[i])
}

/// Whether `key` is a legal project or share key.
pub fn is_legal_scope_key(key: &str) -> (b: bool)
    ensures
        b == legal_scope_key(key@),
{
    let n = key.unicode_len();
    if n == 0 {
        return false;
    }
    let mut i: usize = 0;
    while i < n
        invariant
            i <= n,
            n == key@.len(),
            forall|j: int| 0 <= j < i ==> !control_char(#[trigger] key@[j]),
        decreases n - i,
    {
        let c = key.get_char(i);
        if c < ' ' || ('\u{7f}' <= c && c <= '\u{9f}') {
            return false;
        }
        i = i + 1;
    }
    true
}

pub open spec fn known_scope_label(label: Seq<char>) -> bool {
    label == "personal"@ || label == "project"@ || label == "shared"@
}

/// A scope, as the contracts compare it: owner, kind label, key.
pub open spec fn scope_view(scope: Scope) -> (Seq<char>, Seq<char>, Seq<char>) {
    (scope.owner@, scope_kind_label(scope.kind), scope_key(scope.kind))
}

/// Whether a row holds the values [`ScopeRepo::ensure`] staged for `scope`
/// created at `created`.
pub open spec fn holds_scope(row: ScopeColumns, scope: Scope, created: u64) -> bool {
    &&& row.scope_id@ == spec_scope_id(scope)
    &&& row.owner@ == scope.owner@
    &&& row.kind@ == scope_kind_label(scope.kind)
    &&& row.key@ == scope_key(scope.kind)
    &&& row.created == sql_seconds(created)
}

/// A scope reads back as itself: the row holding the values its ensure
/// staged passes every check the read makes, and carries the scope's owner,
/// kind and key, its id, and its creation time when that fits an `INTEGER`.
pub proof fn lemma_scope_round_trip(scope: Scope, created: u64, row: ScopeColumns)
    requires
        holds_scope(row, scope, created),
        created <= i64::MAX,
    ensures
        ensure_step(scope, created) == sql_step(
            ENSURE_SQL@,
            seq![
                text(row.scope_id@),
                text(row.owner@),
                text(row.kind@),
                text(row.key@),
                ValueView::Integer(row.created),
            ],
        ),
        known_scope_label(row.kind@),
        row.created >= 0,
        row.created as u64 == created,
        row.kind@ == "personal"@ ==> scope.kind is Personal && row.key@ == Seq::<char>::empty(),
        row.kind@ == "project"@ ==> scope.kind is Project && row.key@ == scope_key(scope.kind),
        row.kind@ == "shared"@ ==> scope.kind is Shared && row.key@ == scope_key(scope.kind),
{
    reveal_strlit("personal");
    reveal_strlit("project");
    reveal_strlit("shared");
    assert("project"@.len() != "personal"@.len());
    assert("shared"@.len() != "personal"@.len());
    assert("shared"@.len() != "project"@.len());
}

/// The `scope` table.
#[derive(Clone, Copy, Debug, Default, PartialEq, Eq)]
pub struct ScopeRepo;

impl ScopeRepo {
    /// Stage the scope's row in the caller's batch.
    pub fn ensure(txn: &mut TxnBuilder, scope: &Scope, created: u64)
        ensures
            final(txn)@ == old(txn)@.push(ensure_step(*scope, created)),
    {
        let id = ScopeId::of(scope);
        let params = vec![
            id.value(),
            Value::text(scope.owner.as_str()),
            Value::text(scope.kind.label()),
            Value::text(ScopeId::key_of(scope)),
            Value::Integer(seconds_to_sql(created)),
        ];
        let st = Statement::with_params(ENSURE_SQL, params);
        assert(st@.params =~= ensure_step(*scope, created)->Sql_0.params);
        txn.push(st);
    }

    /// The read [`ScopeRepo::get`] makes: the scope's row by its derived id.
    pub fn get_statement(scope: &Scope) -> (st: Statement)
        ensures
            st@.sql == GET_SQL@,
            st@.params == seq![text(spec_scope_id(*scope))],
    {
        let id = ScopeId::of(scope);
        let st = Statement::with_params(GET_SQL, vec![id.value()]);
        assert(st@.params =~= seq![text(spec_scope_id(*scope))]);
        st
    }

    /// Rebuild a scope row from its columns.
    ///
    /// Refused with [`Error::Integrity`] when the row holds a kind that is not
    /// one of the three, a project or share key that is not legal, or a
    /// negative created time.
    pub fn row_to_scope(row: ScopeColumns) -> (r: Result<ScopeRow, Error>)
        ensures
            r is Ok <==> known_scope_label(row.kind@) && (row.kind@ != "personal"@ ==> legal_scope_key(
                row.key@,
            )) && row.created >= 0,
            r is Err ==> r->Err_0 is Integrity,
            r matches Ok(out) ==> scope_view(out.scope) == (
                row.owner@,
                row.kind@,
                if row.kind@ == "personal"@ {
                    Seq::<char>::empty()
                } else {
                    row.key@
                },
            ),
            r matches Ok(out) ==> {
                &&& out.id@ == row.scope_id@
                &&& out.scope.owner == row.owner
                &&& out.created == row.created as u64
                &&& row.kind@ == "personal"@ ==> out.scope.kind == ScopeKind::Personal
                &&& row.kind@ == "project"@ ==> out.scope.kind == (ScopeKind::Project {
                    project: row.key,
                })
                &&& row.kind@ == "shared"@ ==> out.scope.kind == (ScopeKind::Shared {
                    share: row.key,
                })
            },
    {
        proof {
            reveal_strlit("personal");
            reveal_strlit("project");
            reveal_strlit("shared");
            assert("project"@.len() != "personal"@.len());
            assert("shared"@.len() != "personal"@.len());
            assert("shared"@.len() != "project"@.len());
        }
        let personal = str_eq(row.kind.as_str(), "personal");
        let known = personal || str_eq(row.kind.as_str(), "project") || str_eq(row.kind.as_str(), "shared");
        if known && !personal && !is_legal_scope_key(row.key.as_str()) {
            return Err(
                Error::Integrity(
                    cat3(
                        "scope row ",
                        row.scope_id.as_str(),
                        " holds a key which is not a legal project or share key",
                    ),
                ),
            );
        }
        let kind = if personal {
            ScopeKind::Personal
        } else if str_eq(row.kind.as_str(), "project") {
            ScopeKind::Project { project: row.key }
        } else if str_eq(row.kind.as_str(), "shared") {
            ScopeKind::Shared { share: row.key }
        } else {
            return Err(
                Error::Integrity(
                    cat3(
                        "scope row ",
                        row.scope_id.as_str(),
                        " holds a kind which is not one of the three",
                    ),
                ),
            );
        };
        if row.created < 0 {
            return Err(
                Error::Integrity(
                    cat3("scope row ", row.scope_id.as_str(), " holds a negative created time"),
                ),
            );
        }
        Ok(
            ScopeRow {
                id: ScopeId(row.scope_id),
                scope: Scope { owner: row.owner, kind },
                created: row.created as u64,
            },
        )
    }
}

} // verus!
