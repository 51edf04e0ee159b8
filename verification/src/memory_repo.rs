//! The memory table: filters, the body ceiling, the capture's staging and
//! the keyset listing.
//!
//! Every statement built here names `scope_id`, and none takes SQL from a
//! caller: a listing's predicate is assembled from a closed filter type.

use vstd::prelude::*;
use vstd::utf8::encode_utf8;

use crate::counters::{adjust_step, Counters};
use crate::cursor::{spec_encode, Cursor, CursorKey, spec_decode};
use crate::digest::{hex_digest, spec_hex_digest};
use crate::error::Error;
use crate::provenance_repo::{positions_fit, provenance_steps, ProvenanceRepo};
use crate::scope::{ensure_step, spec_scope_id, sql_seconds, seconds_to_sql, ScopeId, ScopeRepo};
use crate::sql::{
    binds, binds_at, comparison, is_digit, lemma_mentions_after, lemma_mentions_at_end, lemma_mentions_before,
    mentions, opt_text, sql_step, text, Envelope, Statement, StatementView, StepView, TxnBuilder, Value,
    ValueView,
};
use crate::text::{bounds_message, cat, cat3, decimal, lemma_small_decimals, spec_decimal, spec_hex};
use crate::types::{
    kind_label, same_provenance, spec_uuid_parse, status_label, trust_label, Memory, MemoryId,
    MemoryKind, Provenance, Status,
};

verus! {

/// The default body ceiling: 64 KiB of text.
pub const DEFAULT_MAX_BODY_BYTES: usize = 65536;

/// The largest page a listing will return.
pub const MAX_PAGE_ROWS: u32 = 500;

/// The page size a surface uses when its client names none.
pub const DEFAULT_PAGE_ROWS: u32 = 100;

/// Which stored state a listing wants, as the column holds it.
#[derive(Clone, Copy, Debug, PartialEq, Eq, PartialOrd, Ord, Hash, Structural)]
pub enum StatusFilter {
    /// True, and visible to retrieval.
    Active,
    /// Stored, but its origin could not be established.
    Quarantined,
    /// Replaced by a later memory.
    Superseded,
    /// Past the moment it was true until.
    Expired,
    /// Forgotten.
    Erased,
}

/// The discriminant a status filter selects.
pub open spec fn filter_label(f: StatusFilter) -> Seq<char> {
    match f {
        StatusFilter::Active => "active"@,
        StatusFilter::Quarantined => "quarantined"@,
        StatusFilter::Superseded => "superseded"@,
        StatusFilter::Expired => "expired"@,
        StatusFilter::Erased => "erased"@,
    }
}

/// The filter that selects exactly the state `status` is in.
pub open spec fn filter_of(status: Status) -> StatusFilter {
    match status {
        Status::Active => StatusFilter::Active,
        Status::Quarantined => StatusFilter::Quarantined,
        Status::Superseded(_) => StatusFilter::Superseded,
        Status::Expired => StatusFilter::Expired,
        Status::Erased => StatusFilter::Erased,
    }
}

impl StatusFilter {
    /// The discriminant, as the `status` column holds it.
    pub fn label(self) -> (s: &'static str)
        ensures
            s@ == filter_label(self),
    {
        match self {
            StatusFilter::Active => "active",
            StatusFilter::Quarantined => "quarantined",
            StatusFilter::Superseded => "superseded",
            StatusFilter::Expired => "expired",
            StatusFilter::Erased => "erased",
        }
    }

    /// The state a memory is in, as a filter.
    pub fn of(status: &Status) -> (f: StatusFilter)
        ensures
            f == filter_of(*status),
            filter_label(f) == status_label(*status),
    {
        match status {
            Status::Active => StatusFilter::Active,
            Status::Quarantined => StatusFilter::Quarantined,
            Status::Superseded(_) => StatusFilter::Superseded,
            Status::Expired => StatusFilter::Expired,
            Status::Erased => StatusFilter::Erased,
        }
    }
}

/// What a listing asks for besides its scope. Closed by construction: there
/// is no free-form predicate field.
#[derive(Clone, Copy, Debug, Default, PartialEq, Eq, Structural)]
pub struct MemoryFilter {
    /// Only memories in this state, or every state when absent.
    pub status: Option<StatusFilter>,
    /// Only memories of this kind, or every kind when absent.
    pub kind: Option<MemoryKind>,
}

/// The text a filter digest is taken over: both fields, in a fixed order,
/// split by a separator neither label can hold.
pub open spec fn filter_material(f: MemoryFilter) -> Seq<char> {
    let status = match f.status {
        Some(s) => filter_label(s),
        None => "*"@,
    };
    let kind = match f.kind {
        Some(k) => kind_label(k),
        None => "*"@,
    };
    "status="@ + status + "\u{1f}kind="@ + kind
}

/// A filter's digest: the hex SHA-256 of its material's UTF-8 bytes.
pub open spec fn spec_filter_digest(f: MemoryFilter) -> Seq<char> {
    spec_hex_digest(encode_utf8(filter_material(f)))
}

impl MemoryFilter {
    /// Everything the scope holds, in any state.
    pub fn all() -> (f: MemoryFilter)
        ensures
            f.status is None,
            f.kind is None,
    {
        MemoryFilter { status: None, kind: None }
    }

    /// What retrieval sees by default: the active memories.
    pub fn active() -> (f: MemoryFilter)
        ensures
            f.status == Some(StatusFilter::Active),
            f.kind is None,
    {
        MemoryFilter { status: Some(StatusFilter::Active), kind: None }
    }

    /// The same filter, narrowed to one kind.
    pub fn of_kind(self, kind: MemoryKind) -> (f: MemoryFilter)
        ensures
            f.status == self.status,
            f.kind == Some(kind),
    {
        MemoryFilter { status: self.status, kind: Some(kind) }
    }

    /// A stable digest of what this filter asks for, signed into every cursor.
    pub fn digest(&self) -> (d: String)
        ensures
            d@ == spec_filter_digest(*self),
            d@.len() == 64,
    {
        let status = match self.status {
            Some(s) => s.label(),
            None => "*",
        };
        let kind = match self.kind {
            Some(k) => k.label(),
            None => "*",
        };
        let mut material = cat("status=", status);
        material.append("\u{1f}kind=");
        material.append(kind);
        assert(material@ == filter_material(*self));
        hex_digest(material.as_str().as_bytes())
    }
}

/// The `memory` table, holding the configurable body ceiling.
#[derive(Clone, Copy, Debug, PartialEq, Eq)]
pub struct MemoryRepo {
    max_body_bytes: usize,
}

impl MemoryRepo {
    /// The ceiling this repository enforces.
    pub closed spec fn ceiling(&self) -> usize {
        self.max_body_bytes
    }

    /// A repository with the default body ceiling.
    pub fn new() -> (r: MemoryRepo)
        ensures
            r.ceiling() == DEFAULT_MAX_BODY_BYTES,
    {
        MemoryRepo { max_body_bytes: DEFAULT_MAX_BODY_BYTES }
    }

    /// The same repository with a different ceiling.
    pub fn with_max_body_bytes(self, bytes: usize) -> (r: MemoryRepo)
        ensures
            r.ceiling() == bytes,
    {
        MemoryRepo { max_body_bytes: bytes }
    }

    /// The ceiling this repository enforces.
    pub fn max_body_bytes(&self) -> (n: usize)
        ensures
            n == self.ceiling(),
    {
        self.max_body_bytes
    }
}

/// The capture's memory row.
pub const INSERT_SQL: &'static str = "INSERT INTO memory (
        id, scope_id, status, superseded_by, kind, trust, fingerprint,
        schema_version, body_bytes, created, updated, record
    ) VALUES ($1, $2, $3, $4, $5, $6, $7, $8, $9, $10, $11, $12)";

/// One memory of one scope.
pub const GET_SQL: &'static str = "SELECT record FROM memory WHERE scope_id = $1 AND id = $2";

/// The memory holding a fingerprint among the ones that still exist.
pub const FINGERPRINT_SQL: &'static str = "SELECT id FROM memory
    WHERE scope_id = $1 AND fingerprint = $2 AND status <> 'erased'";

/// The base of every listing: the scope, always, in the statement itself.
pub const LIST_BASE_SQL: &'static str = "SELECT record, created, id FROM memory WHERE scope_id = $1";

/// The content fingerprint the `(scope_id, fingerprint)` index is unique on:
/// the hex capture fingerprint of the memory's scope, kind and body text. An
/// admitted body has already been through the write gate, so its text is the
/// normalized text the capture lookup digests.
pub open spec fn spec_fingerprint(m: Memory) -> Seq<char> {
    spec_hex(crate::fingerprint::spec_fingerprint(m.scope, m.kind, m.body.text@))
}

/// The content fingerprint the `(scope_id, fingerprint)` index is unique on:
/// the value [`crate::fingerprint::of_normalized`] gives for the memory's
/// scope, kind and body text, which is what a capture looks its holder up by.
///
/// It is not an unscoped digest of kind and text: the scope is bound in, so
/// the same sentence captured into two scopes carries two different
/// fingerprints. Both still land, since the unique index is per scope
/// anyway; what the binding buys is that the column written at capture is
/// exactly the value a repeat into the same scope asks for, so a repeat
/// merges instead of inserting a second row.
pub fn fingerprint(memory: &Memory) -> (f: String)
    ensures
        f@ == spec_fingerprint(*memory),
        f@.len() == 64,
{
    crate::fingerprint::of_normalized(&memory.scope, memory.kind, memory.body.text.as_str())
}

/// The size a body is held to: its text's UTF-8 bytes.
pub open spec fn body_bytes(m: Memory) -> nat {
    encode_utf8(m.body.text@).len()
}

/// The memory row [`MemoryRepo::insert`] stages.
pub open spec fn memory_step(m: Memory, record: Seq<char>) -> StepView {
    sql_step(
        INSERT_SQL@,
        seq![
            text(m.id.spec_text()),
            text(spec_scope_id(m.scope)),
            text(status_label(m.status)),
            opt_text(
                match m.status {
                    Status::Superseded(by) => Some(by.spec_text()),
                    _ => None,
                },
            ),
            text(kind_label(m.kind)),
            text(trust_label(m.trust)),
            text(spec_fingerprint(m)),
            ValueView::Integer(m.schema_version as i64),
            ValueView::Integer(body_bytes(m) as i64),
            ValueView::Integer(sql_seconds(m.created)),
            ValueView::Integer(sql_seconds(m.updated)),
            text(record),
        ],
    )
}

/// Everything a capture stages, in order: the scope row, the memory row, its
/// provenance and derivation rows, its counter, and its outbox work.
pub open spec fn capture_steps(m: Memory, record: Seq<char>, work: Seq<u8>) -> Seq<StepView> {
    seq![ensure_step(m.scope, m.created), memory_step(m, record)]
        + provenance_steps(spec_scope_id(m.scope), m.id, m.provenance)
        + seq![adjust_step(spec_scope_id(m.scope), m.kind, m.status, 1), StepView::Outbox(work)]
}

/// A capture is found again by its repeat: the memory row a capture of `m`
/// stages holds, as its scope and its fingerprint, exactly the parameters of
/// the uniqueness read a later capture of the same content into the same
/// scope (`repeat`) makes, so that capture merges rather than inserts.
pub proof fn lemma_repeat_finds_capture(m: Memory, repeat: Memory, record: Seq<char>, work: Seq<u8>)
    requires
        repeat.scope == m.scope,
        repeat.kind == m.kind,
        repeat.body.text@ == m.body.text@,
    ensures
        capture_steps(m, record, work)[1] == memory_step(m, record),
        memory_step(m, record)->Sql_0.sql == INSERT_SQL@,
        memory_step(m, record)->Sql_0.params[1] == text(spec_scope_id(repeat.scope)),
        memory_step(m, record)->Sql_0.params[6] == text(spec_fingerprint(repeat)),
{
}

/// The SQL of one listing page: the scope, the filter's predicates, the
/// keyset bound when a cursor was presented, and the page limit, each
/// parameter numbered in order of appearance.
pub open spec fn list_sql(f: MemoryFilter, has_after: bool) -> Seq<char> {
    let s1 = match f.status {
        Some(_) => LIST_BASE_SQL@ + " AND status = $"@ + spec_decimal(2),
        None => LIST_BASE_SQL@,
    };
    let n1: u64 = if f.status is Some { 2 } else { 1 };
    let s2 = match f.kind {
        Some(_) => s1 + " AND kind = $"@ + spec_decimal((n1 + 1) as u64),
        None => s1,
    };
    let n2: u64 = if f.kind is Some { (n1 + 1) as u64 } else { n1 };
    let s3 = if has_after {
        s2 + " AND (created < $"@ + spec_decimal((n2 + 1) as u64) + " OR (created = $"@
            + spec_decimal((n2 + 1) as u64) + " AND id < $"@ + spec_decimal((n2 + 2) as u64)
            + "))"@
    } else {
        s2
    };
    let n3: u64 = if has_after { (n2 + 2) as u64 } else { n2 };
    s3 + " ORDER BY created DESC, id DESC LIMIT $"@ + spec_decimal((n3 + 1) as u64)
}

/// Whether a text starts with a space, so that no placeholder number
/// before it runs on into it.
pub open spec fn starts_with_space(s: Seq<char>) -> bool {
    s.len() > 0 && s[0] == ' '
}

proof fn lemma_space_first(a: Seq<char>, b: Seq<char>)
    requires
        starts_with_space(a) || (a.len() == 0 && starts_with_space(b)),
    ensures
        starts_with_space(a + b),
{
    if a.len() == 0 {
        assert(a + b =~= b);
    }
}

/// The number of the placeholder after the status filter's.
pub open spec fn list_n1(f: MemoryFilter) -> u64 {
    if f.status is Some { 2 } else { 1 }
}

/// The number of the placeholder after the kind filter's.
pub open spec fn list_n2(f: MemoryFilter) -> u64 {
    if f.kind is Some { (list_n1(f) + 1) as u64 } else { list_n1(f) }
}

/// The number of the placeholder after the keyset bound's.
pub open spec fn list_n3(f: MemoryFilter, has_after: bool) -> u64 {
    if has_after { (list_n2(f) + 2) as u64 } else { list_n2(f) }
}

/// The status filter's part of a listing's text.
pub open spec fn list_status_part(f: MemoryFilter) -> Seq<char> {
    if f.status is Some { " AND status = $"@ + spec_decimal(2) } else { Seq::<char>::empty() }
}

/// The kind filter's part of a listing's text.
pub open spec fn list_kind_part(f: MemoryFilter) -> Seq<char> {
    if f.kind is Some { " AND kind = $"@ + spec_decimal((list_n1(f) + 1) as u64) } else { Seq::<char>::empty() }
}

/// The keyset bound's part after its first comparison.
pub open spec fn list_after_tail(f: MemoryFilter) -> Seq<char> {
    " OR (created = $"@ + spec_decimal((list_n2(f) + 1) as u64) + " AND id < $"@ + spec_decimal(
        (list_n2(f) + 2) as u64,
    ) + "))"@
}

/// The keyset bound's part of a listing's text.
pub open spec fn list_after_part(f: MemoryFilter, has_after: bool) -> Seq<char> {
    if has_after {
        " AND (created < $"@ + spec_decimal((list_n2(f) + 1) as u64) + list_after_tail(f)
    } else {
        Seq::<char>::empty()
    }
}

/// The order and page size of a listing's text.
pub open spec fn list_limit_part(f: MemoryFilter, has_after: bool) -> Seq<char> {
    " ORDER BY created DESC, id DESC LIMIT $"@ + spec_decimal((list_n3(f, has_after) + 1) as u64)
}

proof fn lemma_list_parts(f: MemoryFilter, has_after: bool)
    ensures
        list_sql(f, has_after) == LIST_BASE_SQL@ + list_status_part(f) + list_kind_part(f) + list_after_part(
            f,
            has_after,
        ) + list_limit_part(f, has_after),
        starts_with_space(list_limit_part(f, has_after)),
        starts_with_space(list_after_part(f, has_after) + list_limit_part(f, has_after)),
        starts_with_space(list_kind_part(f) + (list_after_part(f, has_after) + list_limit_part(f, has_after))),
        starts_with_space(
            list_status_part(f) + (list_kind_part(f) + (list_after_part(f, has_after) + list_limit_part(f, has_after))),
        ),
        starts_with_space(list_after_tail(f)),
{
    reveal_strlit(" AND status = $");
    reveal_strlit(" AND kind = $");
    reveal_strlit(" AND (created < $");
    reveal_strlit(" OR (created = $");
    reveal_strlit(" ORDER BY created DESC, id DESC LIMIT $");
    assert(list_sql(f, has_after) =~= LIST_BASE_SQL@ + list_status_part(f) + list_kind_part(f) + list_after_part(
        f,
        has_after,
    ) + list_limit_part(f, has_after));
    let lp = list_limit_part(f, has_after);
    let ap = list_after_part(f, has_after);
    let kp = list_kind_part(f);
    let sp = list_status_part(f);
    assert(starts_with_space(lp));
    assert(ap.len() == 0 || starts_with_space(ap));
    assert(kp.len() == 0 || starts_with_space(kp));
    assert(sp.len() == 0 || starts_with_space(sp));
    lemma_space_first(ap, lp);
    lemma_space_first(kp, ap + lp);
    lemma_space_first(sp, kp + (ap + lp));
    assert(starts_with_space(list_after_tail(f)));
}

/// A listing compares `scope_id` with the placeholder bound to the scope.
pub proof fn lemma_list_binds_the_scope(scope: Seq<char>, f: MemoryFilter, after: Option<(u64, Seq<u8>)>, limit: u32)
    ensures
        binds(StatementView { sql: list_sql(f, after is Some), params: list_params(scope, f, after, limit) }, "scope_id"@, text(scope)),
{
    reveal_strlit("SELECT record, created, id FROM memory WHERE scope_id = $1");
    reveal_strlit("SELECT record, created, id FROM memory WHERE");
    reveal_strlit("scope_id");
    lemma_small_decimals();
    lemma_list_parts(f, after is Some);
    let st = StatementView { sql: list_sql(f, after is Some), params: list_params(scope, f, after, limit) };
    let rest = list_status_part(f) + (list_kind_part(f) + (list_after_part(f, after is Some) + list_limit_part(f, after is Some)));
    let lead = comparison("scope_id"@, '$');
    assert(LIST_BASE_SQL@ =~= "SELECT record, created, id FROM memory WHERE"@ + (lead + spec_decimal(1)));
    lemma_mentions_at_end("SELECT record, created, id FROM memory WHERE"@, lead, 1);
    lemma_mentions_before(LIST_BASE_SQL@, rest, lead, 1);
    assert(st.sql =~= LIST_BASE_SQL@ + rest);
    assert(mentions(st.sql, lead, 1));
    assert(st.params[0] == text(scope));
}

/// A listing filtered by state compares `status` with the placeholder bound
/// to that state's label.
pub proof fn lemma_list_binds_the_status(scope: Seq<char>, f: MemoryFilter, after: Option<(u64, Seq<u8>)>, limit: u32)
    requires
        f.status is Some,
    ensures
        binds(
            StatementView { sql: list_sql(f, after is Some), params: list_params(scope, f, after, limit) },
            "status"@,
            text(filter_label(f.status->Some_0)),
        ),
{
    reveal_strlit(" AND status = $");
    reveal_strlit(" AND");
    reveal_strlit("status");
    lemma_small_decimals();
    lemma_list_parts(f, after is Some);
    let st = StatementView { sql: list_sql(f, after is Some), params: list_params(scope, f, after, limit) };
    let sp = list_status_part(f);
    let rest = list_kind_part(f) + (list_after_part(f, after is Some) + list_limit_part(f, after is Some));
    let lead = comparison("status"@, '$');
    assert(sp =~= " AND"@ + (lead + spec_decimal(2)));
    lemma_mentions_at_end(" AND"@, lead, 2);
    lemma_mentions_before(sp, rest, lead, 2);
    lemma_mentions_after(LIST_BASE_SQL@, sp + rest, lead, 2);
    assert(st.sql =~= LIST_BASE_SQL@ + (sp + rest));
    assert(mentions(st.sql, lead, 2));
    assert(st.params[1] == text(filter_label(f.status->Some_0)));
}

/// A listing filtered by kind compares `kind` with the placeholder bound to
/// that kind's label.
pub proof fn lemma_list_binds_the_kind(scope: Seq<char>, f: MemoryFilter, after: Option<(u64, Seq<u8>)>, limit: u32)
    requires
        f.kind is Some,
    ensures
        binds(
            StatementView { sql: list_sql(f, after is Some), params: list_params(scope, f, after, limit) },
            "kind"@,
            text(kind_label(f.kind->Some_0)),
        ),
{
    reveal_strlit(" AND kind = $");
    reveal_strlit(" AND");
    reveal_strlit("kind");
    lemma_list_parts(f, after is Some);
    let st = StatementView { sql: list_sql(f, after is Some), params: list_params(scope, f, after, limit) };
    let k: nat = (list_n1(f) + 1) as nat;
    let kp = list_kind_part(f);
    let rest = list_after_part(f, after is Some) + list_limit_part(f, after is Some);
    let lead = comparison("kind"@, '$');
    assert(kp =~= " AND"@ + (lead + spec_decimal(k as u64)));
    lemma_mentions_at_end(" AND"@, lead, k);
    lemma_mentions_before(kp, rest, lead, k);
    lemma_mentions_after(LIST_BASE_SQL@ + list_status_part(f), kp + rest, lead, k);
    assert(st.sql =~= (LIST_BASE_SQL@ + list_status_part(f)) + (kp + rest));
    assert(mentions(st.sql, lead, k));
    assert(st.params[k - 1] == text(kind_label(f.kind->Some_0)));
}

/// A listing that continues from a cursor bounds `created` and `id` by the
/// placeholders bound to the cursor's position.
pub proof fn lemma_list_binds_the_position(scope: Seq<char>, f: MemoryFilter, created: u64, id: Seq<u8>, limit: u32)
    ensures
        ({
            let st = StatementView { sql: list_sql(f, true), params: list_params(scope, f, Some((created, id)), limit) };
            &&& binds_at(st, "(created < $"@, ValueView::Integer(sql_seconds(created)))
            &&& binds_at(st, " id < $"@, text(spec_uuid_text_of(id)))
        }),
{
    reveal_strlit(" AND (created < $");
    reveal_strlit(" AND ");
    reveal_strlit("(created < $");
    reveal_strlit(" AND id < $");
    reveal_strlit(" AND");
    reveal_strlit(" id < $");
    reveal_strlit("))");
    reveal_strlit(" OR (created = $");
    lemma_list_parts(f, true);
    let after = Some((created, id));
    let st = StatementView { sql: list_sql(f, true), params: list_params(scope, f, after, limit) };
    let n2 = list_n2(f);
    let head = LIST_BASE_SQL@ + list_status_part(f) + list_kind_part(f);
    let lp = list_limit_part(f, true);
    let c = " AND (created < $"@ + spec_decimal((n2 + 1) as u64);
    let tail = list_after_tail(f);
    assert(c =~= " AND "@ + ("(created < $"@ + spec_decimal((n2 + 1) as u64)));
    lemma_mentions_at_end(" AND "@, "(created < $"@, (n2 + 1) as nat);
    lemma_mentions_before(c, tail + lp, "(created < $"@, (n2 + 1) as nat);
    lemma_mentions_after(head, c + (tail + lp), "(created < $"@, (n2 + 1) as nat);
    assert(st.sql =~= head + (c + (tail + lp)));
    assert(mentions(st.sql, "(created < $"@, (n2 + 1) as nat));
    assert(st.params[n2 as int] == ValueView::Integer(sql_seconds(created)));
    let front = c + " OR (created = $"@ + spec_decimal((n2 + 1) as u64);
    let idp = " AND id < $"@ + spec_decimal((n2 + 2) as u64);
    assert(idp =~= " AND"@ + (" id < $"@ + spec_decimal((n2 + 2) as u64)));
    lemma_mentions_at_end(" AND"@, " id < $"@, (n2 + 2) as nat);
    lemma_mentions_before(idp, "))"@ + lp, " id < $"@, (n2 + 2) as nat);
    lemma_mentions_after(head + front, idp + ("))"@ + lp), " id < $"@, (n2 + 2) as nat);
    assert(st.sql =~= (head + front) + (idp + ("))"@ + lp)));
    assert(mentions(st.sql, " id < $"@, (n2 + 2) as nat));
    assert(st.params[n2 + 1] == text(spec_uuid_text_of(id)));
}

/// A listing's page size is the placeholder its `LIMIT` names.
pub proof fn lemma_list_binds_the_limit(scope: Seq<char>, f: MemoryFilter, after: Option<(u64, Seq<u8>)>, limit: u32)
    ensures
        binds_at(
            StatementView { sql: list_sql(f, after is Some), params: list_params(scope, f, after, limit) },
            " LIMIT $"@,
            ValueView::Integer(limit as i64),
        ),
{
    reveal_strlit(" ORDER BY created DESC, id DESC LIMIT $");
    reveal_strlit(" ORDER BY created DESC, id DESC");
    reveal_strlit(" LIMIT $");
    lemma_list_parts(f, after is Some);
    let st = StatementView { sql: list_sql(f, after is Some), params: list_params(scope, f, after, limit) };
    let n3 = list_n3(f, after is Some);
    let lp = list_limit_part(f, after is Some);
    let head = LIST_BASE_SQL@ + list_status_part(f) + list_kind_part(f) + list_after_part(f, after is Some);
    assert(lp =~= " ORDER BY created DESC, id DESC"@ + (" LIMIT $"@ + spec_decimal((n3 + 1) as u64)));
    lemma_mentions_at_end(" ORDER BY created DESC, id DESC"@, " LIMIT $"@, (n3 + 1) as nat);
    lemma_mentions_after(head, lp, " LIMIT $"@, (n3 + 1) as nat);
    assert(st.sql =~= head + lp);
    assert(mentions(st.sql, " LIMIT $"@, (n3 + 1) as nat));
    assert(st.params.len() == n3 + 1);
    assert(st.params[n3 as int] == ValueView::Integer(limit as i64));
}

/// A listing binds every placeholder its text names to the value it filters
/// on: the scope to `scope_id`, a status filter's label to `status`, a kind
/// filter's label to `kind`, a cursor's position to the keyset bounds on
/// `created` and `id`, and the page size to `LIMIT`.
pub proof fn lemma_list_binds_each_filter(scope: Seq<char>, f: MemoryFilter, after: Option<(u64, Seq<u8>)>, limit: u32)
    ensures
        ({
            let st = StatementView { sql: list_sql(f, after is Some), params: list_params(scope, f, after, limit) };
            &&& binds(st, "scope_id"@, text(scope))
            &&& (f.status matches Some(v) ==> binds(st, "status"@, text(filter_label(v))))
            &&& (f.kind matches Some(k) ==> binds(st, "kind"@, text(kind_label(k))))
            &&& (after matches Some((created, id)) ==> binds_at(st, "(created < $"@, ValueView::Integer(sql_seconds(created)))
                && binds_at(st, " id < $"@, text(spec_uuid_text_of(id))))
            &&& binds_at(st, " LIMIT $"@, ValueView::Integer(limit as i64))
        }),
{
    lemma_list_binds_the_scope(scope, f, after, limit);
    if f.status is Some {
        lemma_list_binds_the_status(scope, f, after, limit);
    }
    if f.kind is Some {
        lemma_list_binds_the_kind(scope, f, after, limit);
    }
    if let Some((created, id)) = after {
        lemma_list_binds_the_position(scope, f, created, id, limit);
    }
    lemma_list_binds_the_limit(scope, f, after, limit);
}

/// The parameters of one listing page, in binding order.
pub open spec fn list_params(scope: Seq<char>, f: MemoryFilter, after: Option<(u64, Seq<u8>)>, limit: u32) -> Seq<ValueView> {
    let p1 = seq![text(scope)];
    let p2 = match f.status {
        Some(st) => p1.push(text(filter_label(st))),
        None => p1,
    };
    let p3 = match f.kind {
        Some(k) => p2.push(text(kind_label(k))),
        None => p2,
    };
    let p4 = match after {
        Some((created, id)) => p3.push(ValueView::Integer(sql_seconds(created))).push(
            text(spec_uuid_text_of(id)),
        ),
        None => p3,
    };
    p4.push(ValueView::Integer(limit as i64))
}

/// The hyphenated text of sixteen id bytes.
pub open spec fn spec_uuid_text_of(id: Seq<u8>) -> Seq<char> {
    crate::types::spec_uuid_text(id)
}

/// A listing binds exactly the parameters its text names: the last one, the
/// page limit, carries the number of parameters bound, so no placeholder is
/// left without a value and no value without a placeholder.
pub proof fn lemma_list_binds_what_it_names(scope: Seq<char>, f: MemoryFilter, after: Option<(u64, Seq<u8>)>, limit: u32)
    ensures
        exists|prefix: Seq<char>|
            list_sql(f, after is Some) == prefix + " ORDER BY created DESC, id DESC LIMIT $"@ + spec_decimal(
                list_params(scope, f, after, limit).len() as u64,
            ),
        list_params(scope, f, after, limit).last() == ValueView::Integer(limit as i64),
{
    let n1: u64 = if f.status is Some { 2 } else { 1 };
    let n2: u64 = if f.kind is Some { (n1 + 1) as u64 } else { n1 };
    let n3: u64 = if after is Some { (n2 + 2) as u64 } else { n2 };
    let s1 = match f.status {
        Some(_) => LIST_BASE_SQL@ + " AND status = $"@ + spec_decimal(2),
        None => LIST_BASE_SQL@,
    };
    let s2 = match f.kind {
        Some(_) => s1 + " AND kind = $"@ + spec_decimal((n1 + 1) as u64),
        None => s1,
    };
    let s3 = if after is Some {
        s2 + " AND (created < $"@ + spec_decimal((n2 + 1) as u64) + " OR (created = $"@
            + spec_decimal((n2 + 1) as u64) + " AND id < $"@ + spec_decimal((n2 + 2) as u64)
            + "))"@
    } else {
        s2
    };
    assert(list_params(scope, f, after, limit).len() == n3 + 1);
    assert(list_sql(f, after is Some) == s3 + " ORDER BY created DESC, id DESC LIMIT $"@ + spec_decimal(
        (n3 + 1) as u64,
    ));
}

/// Whether a page size is one a listing serves.
pub open spec fn legal_limit(limit: u32) -> bool {
    1 <= limit <= MAX_PAGE_ROWS
}

impl MemoryRepo {
    /// Stage a capture: the scope row, the memory, its provenance and
    /// derivation rows, its counter, and its outbox work, in the caller's
    /// transaction. Nothing is executed.
    ///
    /// `record` is the memory's serialized record; `provenance` must be the
    /// memory's own. Refused with [`Error::Validation`] when the provenance
    /// is another, when the body is over the ceiling, or when a position or
    /// the body size does not fit an `INTEGER`.
    pub fn insert(&self, txn: &mut TxnBuilder, memory: &Memory, record: &str, provenance: &Provenance, work: Envelope) -> (r: Result<(), Error>)
        ensures
            r is Ok <==> {
                &&& same_provenance(*provenance, memory.provenance)
                &&& body_bytes(*memory) <= self.ceiling()
                &&& body_bytes(*memory) <= i64::MAX
                &&& positions_fit(memory.provenance.derived_from@)
            },
            r is Err ==> r->Err_0 is Validation,
            !same_provenance(*provenance, memory.provenance) || body_bytes(*memory) > self.ceiling()
                ==> final(txn)@ == old(txn)@,
            !same_provenance(*provenance, memory.provenance) ==> (r matches Err(e) && e->Validation_0@
                == "the provenance offered for memory "@ + memory.id.spec_text()
                + " is not the one the record carries"@),
            same_provenance(*provenance, memory.provenance) && body_bytes(*memory) > self.ceiling()
                ==> (r matches Err(e) && e->Validation_0@ == "memory "@ + memory.id.spec_text()
                + " has a "@ + spec_decimal(body_bytes(*memory) as u64) + " byte body, over the "@
                + spec_decimal(self.ceiling() as u64) + " byte ceiling"@),
            same_provenance(*provenance, memory.provenance) && body_bytes(*memory) <= self.ceiling()
                && body_bytes(*memory) > i64::MAX ==> (r matches Err(e) && e->Validation_0@ == "memory "@
                + memory.id.spec_text() + " has a body beyond i64"@),
            r is Ok ==> final(txn)@ == old(txn)@ + capture_steps(*memory, record@, work.bytes@),
    {
        if !provenance.same(&memory.provenance) {
            return Err(Error::Validation(cat3(
                "the provenance offered for memory ",
                memory.id.to_text().as_str(),
                " is not the one the record carries",
            )));
        }
        let size = memory.body.text.as_str().as_bytes().len();
        if size > self.max_body_bytes {
            let mut m = cat3("memory ", memory.id.to_text().as_str(), " has a ");
            m.append(decimal(size as u64).as_str());
            m.append(" byte body, over the ");
            m.append(decimal(self.max_body_bytes as u64).as_str());
            m.append(" byte ceiling");
            return Err(Error::Validation(m));
        }
        if size as u64 > i64::MAX as u64 {
            return Err(Error::Validation(cat3("memory ", memory.id.to_text().as_str(), " has a body beyond i64")));
        }
        let scope_id = ScopeId::of(&memory.scope);
        let superseded = match memory.status.superseded_by() {
            Some(by) => Value::Text(by.to_text()),
            None => Value::Null,
        };
        ScopeRepo::ensure(txn, &memory.scope, memory.created);
        let st = Statement::with_params(
            INSERT_SQL,
            vec![
                Value::Text(memory.id.to_text()),
                scope_id.value(),
                Value::text(memory.status.label()),
                superseded,
                Value::text(memory.kind.label()),
                Value::text(memory.trust.label()),
                Value::Text(fingerprint(memory)),
                Value::Integer(memory.schema_version as i64),
                Value::Integer(size as i64),
                Value::Integer(seconds_to_sql(memory.created)),
                Value::Integer(seconds_to_sql(memory.updated)),
                Value::text(record),
            ],
        );
        assert(st@.params =~= memory_step(*memory, record@)->Sql_0.params);
        txn.push(st);
        match ProvenanceRepo::stage(txn, &scope_id, memory.id, &memory.provenance) {
            Ok(()) => {},
            Err(e) => {
                return Err(e);
            },
        }
        Counters::increment(txn, &scope_id, memory.kind, &memory.status);
        txn.stage_outbox(work);
        assert(txn@ =~= old(txn)@ + capture_steps(*memory, record@, work.bytes@));
        Ok(())
    }

    /// The read of one memory of one scope.
    pub fn get_statement(scope: &ScopeId, id: MemoryId) -> (st: Statement)
        ensures
            st@.sql == GET_SQL@,
            st@.params == seq![text(scope@), text(id.spec_text())],
    {
        let st = Statement::with_params(GET_SQL, vec![scope.value(), Value::Text(id.to_text())]);
        assert(st@.params =~= seq![text(scope@), text(id.spec_text())]);
        st
    }

    /// The uniqueness read: the memory of this scope that already holds the
    /// fingerprint, among the ones that still exist.
    pub fn fingerprint_statement(scope: &ScopeId, fingerprint: &str) -> (st: Statement)
        ensures
            st@.sql == FINGERPRINT_SQL@,
            st@.params == seq![text(scope@), text(fingerprint@)],
    {
        let st = Statement::with_params(FINGERPRINT_SQL, vec![scope.value(), Value::text(fingerprint)]);
        assert(st@.params =~= seq![text(scope@), text(fingerprint@)]);
        st
    }

    /// The holder a uniqueness read found: the first row's id, or none.
    ///
    /// Refused with [`Error::Integrity`] when that row holds an id that is
    /// not a memory id.
    pub fn holder_from_rows(rows: &Vec<String>) -> (r: Result<Option<MemoryId>, Error>)
        ensures
            rows@.len() == 0 ==> r matches Ok(None),
            rows@.len() > 0 ==> match spec_uuid_parse(rows@[0]@) {
                Some(b) => (r matches Ok(Some(id)) && id.bytes@ == b),
                None => (r matches Err(e) && e is Integrity),
            },
    {
        if rows.len() == 0 {
            return Ok(None);
        }
        match MemoryId::parse(rows[0].as_str()) {
            Some(id) => Ok(Some(id)),
            None => Err(Error::Integrity(cat("memory holds an id that is not a memory id: ", rows[0].as_str()))),
        }
    }

    /// The statement one listing page runs, newest first, after `cursor` when
    /// one is presented.
    ///
    /// Refused with [`Error::Validation`] when `limit` is zero or above
    /// [`MAX_PAGE_ROWS`], or when `cursor` was not signed by `key` for this
    /// scope and this filter.
    pub fn list_statement(key: &CursorKey, scope: &ScopeId, filter: &MemoryFilter, limit: u32, cursor: Option<&str>) -> (r: Result<Statement, Error>)
        ensures
            !legal_limit(limit) ==> (r matches Err(e) && e is Validation && e->Validation_0@
                == "a page of "@ + spec_decimal(limit as u64) + " rows is not between 1 and "@
                + spec_decimal(MAX_PAGE_ROWS as u64)),
            legal_limit(limit) ==> match cursor {
                None => (r matches Ok(st) && st@.sql == list_sql(*filter, false) && st@.params
                    == list_params(scope@, *filter, None, limit)),
                Some(t) => match spec_decode(t@, key.material(), scope@, *filter) {
                    None => (r matches Err(e) && e is Validation),
                    Some(after) => (r matches Ok(st) && st@.sql == list_sql(*filter, true)
                        && st@.params == list_params(scope@, *filter, Some(after), limit)),
                },
            },
    {
        if limit == 0 || limit > MAX_PAGE_ROWS {
            return Err(Error::Validation(bounds_message(
                "a page of ",
                limit as u64,
                " rows is not between 1 and ",
                MAX_PAGE_ROWS as u64,
            )));
        }
        let after = match cursor {
            Some(t) => match Cursor::decode(t, key, scope, filter) {
                Ok(c) => Some(c),
                Err(e) => {
                    return Err(e);
                },
            },
            None => None,
        };
        let mut sql = LIST_BASE_SQL.to_owned();
        let mut params: Vec<Value> = vec![scope.value()];
        let mut n: u64 = 1;
        let ghost has_after = after is Some;
        if let Some(status) = filter.status {
            params.push(Value::text(status.label()));
            n = 2;
            sql.append(" AND status = $");
            sql.append(decimal(n).as_str());
        }
        if let Some(kind) = filter.kind {
            params.push(Value::text(kind.label()));
            n = n + 1;
            sql.append(" AND kind = $");
            sql.append(decimal(n).as_str());
        }
        if let Some(c) = after {
            params.push(Value::Integer(seconds_to_sql(c.created)));
            params.push(Value::Text(c.id.to_text()));
            sql.append(" AND (created < $");
            sql.append(decimal(n + 1).as_str());
            sql.append(" OR (created = $");
            sql.append(decimal(n + 1).as_str());
            sql.append(" AND id < $");
            sql.append(decimal(n + 2).as_str());
            sql.append("))");
            n = n + 2;
        }
        params.push(Value::Integer(limit as i64));
        sql.append(" ORDER BY created DESC, id DESC LIMIT $");
        sql.append(decimal(n + 1).as_str());
        let st = Statement { sql, params };
        proof {
            let after_view = match after {
                Some(c) => Some((c.created, c.id.bytes@)),
                None => None,
            };
            assert(st@.sql =~= list_sql(*filter, has_after));
            assert(st@.params =~= list_params(scope@, *filter, after_view, limit));
        }
        Ok(st)
    }

    /// The cursor that continues a page: present exactly when the page came
    /// back full, and then signed over its last row's position, which is what
    /// it decodes to under the same key, scope and filter; the next page's
    /// [`Self::list_statement`] then starts strictly after that row.
    ///
    /// Refused with [`Error::Integrity`] when that row holds a negative
    /// created time or an id that is not a memory id.
    pub fn next_cursor(key: &CursorKey, scope: &ScopeId, filter: &MemoryFilter, limit: u32, read: usize, last: Option<(i64, String)>) -> (r: Result<Option<String>, Error>)
        ensures
            !(read == limit as usize && last is Some) ==> r matches Ok(None),
            read == limit as usize && last is Some ==> {
                let (created, id) = last->Some_0;
                if created < 0 {
                    (r matches Err(e) && e is Integrity)
                } else {
                    match spec_uuid_parse(id@) {
                        None => (r matches Err(e) && e is Integrity),
                        Some(b) => (r matches Ok(Some(t)) && spec_decode(t@, key.material(), scope@, *filter)
                            == Some((created as u64, b)) && exists|c: Cursor|
                            c.created == created as u64 && c.id.bytes@ == b && t@ == spec_encode(
                                c,
                                key.material(),
                                scope@,
                                *filter,
                            )),
                    }
                }
            },
    {
        if read != limit as usize {
            return Ok(None);
        }
        match last {
            None => Ok(None),
            Some((created, id)) => {
                if created < 0 {
                    return Err(Error::Integrity(cat("memory holds a negative created time", "")));
                }
                match MemoryId::parse(id.as_str()) {
                    None => Err(Error::Integrity(cat("memory holds an id that is not a memory id: ", id.as_str()))),
                    Some(mid) => {
                        let c = Cursor::new(created as u64, mid);
                        Ok(Some(c.encode(key, scope, filter)))
                    },
                }
            },
        }
    }
}

impl Default for MemoryRepo {
    fn default() -> (r: MemoryRepo)
        ensures
            r.ceiling() == DEFAULT_MAX_BODY_BYTES,
    {
        MemoryRepo::new()
    }
}

} // verus!
