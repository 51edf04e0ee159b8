//! Forgetting, and proving it reached everything.
//!
//! An erasure replaces a memory's record with a tombstone that carries no
//! content, removes every derivative row, destroys the Decision digest keys
//! that cover it, and marks what was derived from it, all in one
//! transaction. The Decision that records it names the scope, the authority
//! and the counts, never the body.

use vstd::prelude::*;

use crate::error::Error;
use crate::scope::{sql_seconds, seconds_to_sql, Scope, ScopeId};
use crate::sql::{
    binds, comparison, lemma_binds_at, sql_step, text, Statement, Step, StepView, TxnBuilder, Value,
    ValueView,
};
use crate::text::{bounds_message, cat, cat3, spec_decimal, str_eq};
use crate::types::{
    kind_of_label, spec_uuid_parse, Actor, ActorKind, Memory, MemoryBody, MemoryId, MemoryKind,
    Provenance, SourceRef, Status, TrustClass,
};

verus! {

/// The decision kind one erased memory is appended under.
pub const KIND_ERASE: &'static str = "memory.erase";

/// The decision kind a completed scope erasure is appended under.
pub const KIND_ERASE_SCOPE: &'static str = "memory.erase_scope";

/// The largest number of memories one leased erasure batch will claim.
pub const MAX_ERASURE_BATCH: u32 = 500;

/// The row bound of one accounted batch, which keeps a sweep's statement
/// count below the store engine's log entry ceiling.
pub const MAX_ACCOUNTED_BATCH: u32 = 200;

/// The source system and actor a tombstone names.
pub const ERASED: &'static str = "erased";

/// One table an erasure sweeps, and how a memory is named in it.
#[derive(Clone, Copy, Debug, PartialEq, Eq)]
pub struct Derivative {
    /// The table the rows live in.
    pub table: &'static str,
    /// The column holding the memory's id.
    pub memory_column: &'static str,
    /// The column holding the scope's id.
    pub scope_column: &'static str,
}

/// A derivative as the contracts compare it: table, memory column, scope column.
pub open spec fn derivative_view(d: Derivative) -> (Seq<char>, Seq<char>, Seq<char>) {
    (d.table@, d.memory_column@, d.scope_column@)
}

/// The views of a list of derivatives.
pub open spec fn derivatives_view(ds: Seq<Derivative>) -> Seq<(Seq<char>, Seq<char>, Seq<char>)> {
    ds.map_values(|d: Derivative| derivative_view(d))
}

impl Derivative {
    /// A derivative table keyed by memory and scope.
    pub fn new(table: &'static str, memory_column: &'static str, scope_column: &'static str) -> (d: Derivative)
        ensures
            d.table == table,
            d.memory_column == memory_column,
            d.scope_column == scope_column,
    {
        Derivative { table, memory_column, scope_column }
    }

    /// Whether two derivatives name the same table and columns.
    pub fn same(&self, other: &Derivative) -> (b: bool)
        ensures
            b == (derivative_view(*self) == derivative_view(*other)),
    {
        str_eq(self.table, other.table) && str_eq(self.memory_column, other.memory_column)
            && str_eq(self.scope_column, other.scope_column)
    }
}

/// The tables this schema version sweeps, as the contracts name them.
pub open spec fn spec_derivatives() -> Seq<(Seq<char>, Seq<char>, Seq<char>)> {
    seq![
        ("provenance"@, "memory_id"@, "scope_id"@),
        ("memory_derivation"@, "memory_id"@, "scope_id"@),
        ("memory_source"@, "memory_id"@, "scope_id"@),
    ]
}

/// The tables a later schema adds, as the contracts name them.
pub open spec fn spec_planned() -> Seq<(Seq<char>, Seq<char>, Seq<char>)> {
    seq![
        ("chunk"@, "memory_id"@, "scope_id"@),
        ("embedding"@, "memory_id"@, "scope_id"@),
        ("chunk_token"@, "memory_id"@, "scope_id"@),
    ]
}

/// The derivative tables this schema version carries: provenance, the
/// derivation rows and the per-capture source log.
pub fn derivatives() -> (ds: Vec<Derivative>)
    ensures
        derivatives_view(ds@) == spec_derivatives(),
{
    let ds = vec![
        Derivative::new("provenance", "memory_id", "scope_id"),
        Derivative::new("memory_derivation", "memory_id", "scope_id"),
        Derivative::new("memory_source", "memory_id", "scope_id"),
    ];
    assert(derivatives_view(ds@) =~= spec_derivatives());
    ds
}

/// The derivative tables a later schema adds, named before they exist: the
/// chunks of a body, the vectors over them, and the text index entries.
pub fn planned() -> (ds: Vec<Derivative>)
    ensures
        derivatives_view(ds@) == spec_planned(),
{
    let ds = vec![
        Derivative::new("chunk", "memory_id", "scope_id"),
        Derivative::new("embedding", "memory_id", "scope_id"),
        Derivative::new("chunk_token", "memory_id", "scope_id"),
    ];
    assert(derivatives_view(ds@) =~= spec_planned());
    ds
}

/// No planned table is already swept: each is moved, never copied.
pub proof fn lemma_planned_disjoint_from_swept()
    ensures
        forall|i: int|
            0 <= i < spec_planned().len() ==> !spec_derivatives().contains(#[trigger] spec_planned()[i]),
{
    reveal_strlit("provenance");
    reveal_strlit("memory_derivation");
    reveal_strlit("memory_source");
    reveal_strlit("chunk");
    reveal_strlit("embedding");
    reveal_strlit("chunk_token");
    assert("chunk"@.len() != "provenance"@.len());
    assert("chunk"@.len() != "memory_derivation"@.len());
    assert("chunk"@.len() != "memory_source"@.len());
    assert("embedding"@.len() != "provenance"@.len());
    assert("embedding"@.len() != "memory_derivation"@.len());
    assert("embedding"@.len() != "memory_source"@.len());
    assert("chunk_token"@.len() != "provenance"@.len());
    assert("chunk_token"@.len() != "memory_derivation"@.len());
    assert("chunk_token"@.len() != "memory_source"@.len());
}

/// The erasure of one memory or one scope: holds the tables it sweeps.
#[derive(Clone, Debug, PartialEq, Eq)]
pub struct Eraser {
    derivatives: Vec<Derivative>,
}

impl Eraser {
    /// The tables this eraser sweeps.
    pub closed spec fn swept(&self) -> Seq<(Seq<char>, Seq<char>, Seq<char>)> {
        derivatives_view(self.derivatives@)
    }

    /// An eraser sweeping the derivatives this schema version carries.
    pub fn new() -> (e: Eraser)
        ensures
            e.swept() == spec_derivatives(),
    {
        Eraser { derivatives: derivatives() }
    }

    /// The same, also sweeping `derivative`. Registering a table already
    /// swept changes nothing, so a removal is never counted twice.
    pub fn also(self, derivative: Derivative) -> (e: Eraser)
        ensures
            e.swept() == also_view(self.swept(), derivative_view(derivative)),
    {
        let mut ds = self.derivatives;
        let mut i: usize = 0;
        while i < ds.len()
            invariant
                i <= ds@.len(),
                ds@ == self.derivatives@,
                forall|j: int| 0 <= j < i ==> derivative_view(ds@[j]) != derivative_view(derivative),
            decreases ds@.len() - i,
        {
            if ds[i].same(&derivative) {
                proof {
                    assert(derivatives_view(ds@)[i as int] == derivative_view(derivative));
                }
                return Eraser { derivatives: ds };
            }
            i = i + 1;
        }
        proof {
            if self.swept().contains(derivative_view(derivative)) {
                let k = choose|k: int| 0 <= k < self.swept().len() && self.swept()[k] == derivative_view(derivative);
                assert(derivative_view(ds@[k]) == derivative_view(derivative));
            }
        }
        let ghost before = ds@;
        ds.push(derivative);
        assert(derivatives_view(ds@) =~= derivatives_view(before).push(derivative_view(derivative)));
        Eraser { derivatives: ds }
    }

    /// The tables this eraser sweeps.
    pub fn derivatives(&self) -> (ds: &[Derivative])
        ensures
            derivatives_view(ds@) == self.swept(),
    {
        self.derivatives.as_slice()
    }
}

impl Default for Eraser {
    fn default() -> (e: Eraser)
        ensures
            e.swept() == spec_derivatives(),
    {
        Eraser::new()
    }
}

/// What registering `d` makes of the swept tables `e`.
pub open spec fn also_view(e: Seq<(Seq<char>, Seq<char>, Seq<char>)>, d: (Seq<char>, Seq<char>, Seq<char>)) -> Seq<(Seq<char>, Seq<char>, Seq<char>)> {
    if e.contains(d) {
        e
    } else {
        e.push(d)
    }
}

/// Registering a table twice is registering it once, and a registered table
/// is swept.
pub proof fn lemma_also_idempotent(e: Seq<(Seq<char>, Seq<char>, Seq<char>)>, d: (Seq<char>, Seq<char>, Seq<char>))
    ensures
        also_view(also_view(e, d), d) == also_view(e, d),
        also_view(e, d).contains(d),
{
    if !e.contains(d) {
        assert(e.push(d)[e.len() as int] == d);
    }
}

/// On whose authority a memory is being erased.
#[derive(Clone, Debug, PartialEq, Eq)]
pub struct Authority {
    subject: String,
    reason_code: String,
}

impl Authority {
    /// The subject that asked.
    pub closed spec fn spec_subject(&self) -> Seq<char> {
        self.subject@
    }

    /// The policy code the Decision names.
    pub closed spec fn spec_reason(&self) -> Seq<char> {
        self.reason_code@
    }

    /// An erasure asked for by `subject`, with no code beyond the request.
    pub fn of(subject: String) -> (a: Authority)
        ensures
            a.spec_subject() == subject@,
            a.spec_reason() == "subject_request"@,
    {
        Authority { subject, reason_code: "subject_request".to_owned() }
    }

    /// The same, under a named policy code.
    pub fn because(self, reason_code: String) -> (a: Authority)
        ensures
            a.spec_subject() == self.spec_subject(),
            a.spec_reason() == reason_code@,
    {
        Authority { subject: self.subject, reason_code }
    }

    /// The subject the Decision names.
    pub fn subject(&self) -> (s: &str)
        ensures
            s@ == self.spec_subject(),
    {
        self.subject.as_str()
    }

    /// The policy code the Decision names.
    pub fn reason_code(&self) -> (s: &str)
        ensures
            s@ == self.spec_reason(),
    {
        self.reason_code.as_str()
    }
}

/// What one erasure did.
#[derive(Clone, Debug, PartialEq, Eq)]
pub struct Erased {
    /// The memory that is now a tombstone.
    pub memory: MemoryId,
    /// How many derivative rows were removed, keys included.
    pub removed_derivatives: u64,
    /// How many Decision digest keys were destroyed.
    pub keys_destroyed: u64,
    /// How many memories derived from this one were marked rather than erased.
    pub marked: u64,
    /// The memories erased along with this one, when cascading was asked for.
    pub cascaded: Vec<MemoryId>,
    /// The Decision this erasure appended.
    pub decision: String,
}

/// What an erasure does not claim: a backup taken before it.
pub const CAVEAT: &'static str = "a backup taken before this erasure still holds the erased rows and their Decision digest keys until that backup is discarded; erasure reaches the live store, not copies already taken from it";

impl Erased {
    /// What an erasure does *not* claim, in so many words.
    pub fn caveat() -> (s: &'static str)
        ensures
            s@ == CAVEAT@,
    {
        CAVEAT
    }
}

/// One value of an erasure Decision's payload.
#[derive(Clone, Debug, PartialEq, Eq)]
pub enum PayloadValue {
    /// A text.
    Text(String),
    /// A flag.
    Flag(bool),
    /// A list of memory ids.
    Ids(Vec<MemoryId>),
}

/// Whether a payload field is named `name` and holds the text `value`.
pub open spec fn text_field(f: (&str, PayloadValue), name: Seq<char>, value: Seq<char>) -> bool {
    f.0@ == name && (f.1 matches PayloadValue::Text(s) && s@ == value)
}

/// What the Decision of one memory's erasure says before its totals: the
/// scope (as the record model renders it), the memory, on whose authority
/// and under which code, whether derived memories were erased too and which,
/// and the caveat. Nothing of the memory's content, nor of its fingerprint,
/// is among them.
pub open spec fn is_erase_payload(r: Seq<(&str, PayloadValue)>, scope: Seq<char>, target: MemoryId, authority: Authority, cascade: bool, cascaded: Seq<MemoryId>) -> bool {
    &&& r.len() == 7
    &&& text_field(r[0], "scope"@, scope)
    &&& text_field(r[1], "memory_id"@, target.spec_text())
    &&& text_field(r[2], "authority"@, authority.spec_subject())
    &&& text_field(r[3], "reason_code"@, authority.spec_reason())
    &&& r[4].0@ == "cascade"@ && r[4].1 == PayloadValue::Flag(cascade)
    &&& r[5].0@ == "cascaded"@ && (r[5].1 matches PayloadValue::Ids(v) && v@ == cascaded)
    &&& text_field(r[6], "caveat"@, CAVEAT@)
}

/// What the Decision of a scope's erasure says before its totals: the
/// scope, on whose authority and under which code, and the caveat.
pub open spec fn is_scope_erase_payload(r: Seq<(&str, PayloadValue)>, scope: Seq<char>, authority: Authority) -> bool {
    &&& r.len() == 4
    &&& text_field(r[0], "scope"@, scope)
    &&& text_field(r[1], "authority"@, authority.spec_subject())
    &&& text_field(r[2], "reason_code"@, authority.spec_reason())
    &&& text_field(r[3], "caveat"@, CAVEAT@)
}

/// The payload of the Decision of one memory's erasure, before its totals,
/// with `scope` the record model's rendering of the scope.
pub fn erase_payload(scope: &str, target: MemoryId, authority: &Authority, cascade: bool, cascaded: &Vec<MemoryId>) -> (r: Vec<(&'static str, PayloadValue)>)
    ensures
        is_erase_payload(r@, scope@, target, *authority, cascade, cascaded@),
{
    let mut ids: Vec<MemoryId> = Vec::new();
    let mut i: usize = 0;
    while i < cascaded.len()
        invariant
            i <= cascaded@.len(),
            ids@ == cascaded@.subrange(0, i as int),
        decreases cascaded@.len() - i,
    {
        ids.push(cascaded[i]);
        i = i + 1;
        assert(ids@ =~= cascaded@.subrange(0, i as int));
    }
    assert(ids@ =~= cascaded@);
    let mut r: Vec<(&'static str, PayloadValue)> = Vec::new();
    r.push(("scope", PayloadValue::Text(scope.to_owned())));
    r.push(("memory_id", PayloadValue::Text(target.to_text())));
    r.push(("authority", PayloadValue::Text(authority.subject().to_owned())));
    r.push(("reason_code", PayloadValue::Text(authority.reason_code().to_owned())));
    r.push(("cascade", PayloadValue::Flag(cascade)));
    r.push(("cascaded", PayloadValue::Ids(ids)));
    r.push(("caveat", PayloadValue::Text(Erased::caveat().to_owned())));
    r
}

/// The payload of the Decision of a scope's erasure, before its totals, with
/// `scope` the record model's rendering of the scope.
pub fn scope_erase_payload(scope: &str, authority: &Authority) -> (r: Vec<(&'static str, PayloadValue)>)
    ensures
        is_scope_erase_payload(r@, scope@, *authority),
{
    let mut r: Vec<(&'static str, PayloadValue)> = Vec::new();
    r.push(("scope", PayloadValue::Text(scope.to_owned())));
    r.push(("authority", PayloadValue::Text(authority.subject().to_owned())));
    r.push(("reason_code", PayloadValue::Text(authority.reason_code().to_owned())));
    r.push(("caveat", PayloadValue::Text(Erased::caveat().to_owned())));
    r
}

/// One erasure, as a value, so that no two ids can be transposed.
#[derive(Clone, Copy, Debug, PartialEq, Eq)]
pub struct Erasure<'a> {
    /// The scope the memory lives in.
    pub scope: &'a Scope,
    /// The memory to forget.
    pub memory: MemoryId,
    /// On whose authority.
    pub authority: &'a Authority,
    /// Whether to erase what was derived from it as well. Off by default.
    pub cascade: bool,
    /// When.
    pub at: u64,
}

impl<'a> Erasure<'a> {
    /// Erase one memory, leaving what was derived from it standing.
    pub fn new(scope: &'a Scope, memory: MemoryId, authority: &'a Authority, at: u64) -> (e: Erasure<'a>)
        ensures
            e.scope == scope,
            e.memory == memory,
            e.authority == authority,
            !e.cascade,
            e.at == at,
    {
        Erasure { scope, memory, authority, cascade: false, at }
    }

    /// The same, erasing everything derived from it too.
    pub fn cascading(self) -> (e: Erasure<'a>)
        ensures
            e.scope == self.scope,
            e.memory == self.memory,
            e.authority == self.authority,
            e.cascade,
            e.at == self.at,
    {
        Erasure { scope: self.scope, memory: self.memory, authority: self.authority, cascade: true, at: self.at }
    }
}

/// What a scope erasure did.
#[derive(Clone, Debug, PartialEq, Eq)]
pub struct ScopeErased {
    /// How many batches it took, across every run that contributed.
    pub batches: u64,
    /// How many memories became tombstones.
    pub memories: u64,
    /// How many derivative rows were removed in total.
    pub removed_derivatives: u64,
    /// How many Decision digest keys were destroyed.
    pub keys_destroyed: u64,
    /// The single Decision appended at completion.
    pub decision: String,
}

/// A count as the journal holds it, read as a total: a negative count is none.
pub open spec fn spec_nonnegative(value: i64) -> u64 {
    if value >= 0 {
        value as u64
    } else {
        0
    }
}

/// A count as the journal holds it, read as a total: a negative count is none.
pub fn nonnegative(value: i64) -> (n: u64)
    ensures
        n == spec_nonnegative(value),
{
    if value >= 0 {
        value as u64
    } else {
        0
    }
}

/// The per-operation totals the journal adds up.
#[derive(Debug)]
pub struct JournalTotals {
    /// Batches committed.
    pub batches: i64,
    /// Memories tombstoned.
    pub memories: i64,
    /// Derivative rows removed, keys included.
    pub derivatives: i64,
    /// Digest keys destroyed.
    pub keys_destroyed: i64,
    /// Derived memories marked.
    pub marked: i64,
}

impl ScopeErased {
    /// The report of a completed scope erasure from its journal totals.
    pub fn from_totals(totals: &JournalTotals, decision: String) -> (s: ScopeErased)
        ensures
            s.batches == spec_nonnegative(totals.batches),
            s.memories == spec_nonnegative(totals.memories),
            s.removed_derivatives == spec_nonnegative(totals.derivatives),
            s.keys_destroyed == spec_nonnegative(totals.keys_destroyed),
            s.decision == decision,
    {
        ScopeErased {
            batches: nonnegative(totals.batches),
            memories: nonnegative(totals.memories),
            removed_derivatives: nonnegative(totals.derivatives),
            keys_destroyed: nonnegative(totals.keys_destroyed),
            decision,
        }
    }
}

impl Erased {
    /// The report of one memory's erasure from its journal totals.
    pub fn from_totals(memory: MemoryId, totals: &JournalTotals, cascaded: Vec<MemoryId>, decision: String) -> (e: Erased)
        ensures
            e.memory == memory,
            e.removed_derivatives == spec_nonnegative(totals.derivatives),
            e.keys_destroyed == spec_nonnegative(totals.keys_destroyed),
            e.marked == spec_nonnegative(totals.marked),
            e.cascaded == cascaded,
            e.decision == decision,
    {
        Erased {
            memory,
            removed_derivatives: nonnegative(totals.derivatives),
            keys_destroyed: nonnegative(totals.keys_destroyed),
            marked: nonnegative(totals.marked),
            cascaded,
            decision,
        }
    }
}

/// The lease key a scope's erasure serialises on.
pub fn erasure_lease_key(scope: &ScopeId) -> (k: String)
    ensures
        k@ == "aicortex.erasure."@ + scope@,
{
    cat("aicortex.erasure.", scope.as_str())
}

/// The few columns an erasure needs from a row it is about to empty.
#[derive(Clone, Copy, Debug, PartialEq, Eq)]
pub struct Shell {
    /// The memory.
    pub id: MemoryId,
    /// Its kind, so the counters move in the right bucket.
    pub kind: MemoryKind,
    /// Its state, likewise.
    pub status: Status,
    /// When it was created, which the tombstone keeps.
    pub created: u64,
}

/// The columns a shell is read from.
#[derive(Debug)]
pub struct ShellColumns {
    /// `id`.
    pub id: String,
    /// `kind`.
    pub kind: String,
    /// `status`.
    pub status: String,
    /// `created`.
    pub created: i64,
}

/// Whether a stored status label is one of the five.
pub open spec fn known_status_label(label: Seq<char>) -> bool {
    label == "active"@ || label == "quarantined"@ || label == "superseded"@ || label == "expired"@
        || label == "erased"@
}

/// The state a stored label reads back as, a superseded row naming itself
/// since only the bucket is needed.
pub open spec fn status_of_label(label: Seq<char>, id: MemoryId) -> Status {
    if label == "active"@ {
        Status::Active
    } else if label == "quarantined"@ {
        Status::Quarantined
    } else if label == "superseded"@ {
        Status::Superseded(id)
    } else if label == "expired"@ {
        Status::Expired
    } else {
        Status::Erased
    }
}

impl Shell {
    /// Read a shell from its row.
    ///
    /// Refused with [`Error::Integrity`] when the id is not a memory id, the
    /// kind or status is unknown, or the created time is negative.
    pub fn from_row(row: &ShellColumns) -> (r: Result<Shell, Error>)
        ensures
            r is Ok <==> {
                &&& spec_uuid_parse(row.id@) is Some
                &&& kind_of_label(row.kind@) is Some
                &&& known_status_label(row.status@)
                &&& row.created >= 0
            },
            r is Err ==> r->Err_0 is Integrity,
            r matches Ok(sh) ==> {
                &&& spec_uuid_parse(row.id@) == Some(sh.id.bytes@)
                &&& kind_of_label(row.kind@) == Some(sh.kind)
                &&& sh.status == status_of_label(row.status@, sh.id)
                &&& sh.created == row.created as u64
            },
    {
        proof {
            reveal_strlit("active");
            reveal_strlit("quarantined");
            reveal_strlit("superseded");
            reveal_strlit("expired");
            reveal_strlit("erased");
        }
        let id = match MemoryId::parse(row.id.as_str()) {
            Some(id) => id,
            None => {
                return Err(Error::Integrity(cat("memory holds an id that is not a memory id: ", row.id.as_str())));
            },
        };
        let kind = match MemoryKind::from_label(row.kind.as_str()) {
            Some(k) => k,
            None => {
                return Err(Error::Integrity(cat("memory holds an unknown kind ", row.kind.as_str())));
            },
        };
        let s = row.status.as_str();
        let status = if str_eq(s, "active") {
            Status::Active
        } else if str_eq(s, "quarantined") {
            Status::Quarantined
        } else if str_eq(s, "superseded") {
            Status::Superseded(id)
        } else if str_eq(s, "expired") {
            Status::Expired
        } else if str_eq(s, "erased") {
            Status::Erased
        } else {
            return Err(Error::Integrity(cat("memory holds an unknown status ", s)));
        };
        if row.created < 0 {
            return Err(Error::Integrity(cat("memory holds a negative created time", "")));
        }
        Ok(Shell { id, kind, status, created: row.created as u64 })
    }
}

/// The record that replaces an erased memory's own.
///
/// Everything that says anything about the subject is gone: the body, the
/// title, the media, the actor, where it came from. What is left is what a
/// dangling reference needs: the id, the scope, the kind, when it was
/// created, and that it was erased.
pub open spec fn is_tombstone_of(m: Memory, scope: Scope, shell: Shell, now: u64) -> bool {
    &&& m.id == shell.id
    &&& m.scope == scope
    &&& m.kind == shell.kind
    &&& m.status == Status::Erased
    &&& m.trust == TrustClass::Assertion
    &&& m.body.text@ == Seq::<char>::empty()
    &&& m.body.title is None
    &&& m.body.media@.len() == 0
    &&& m.actor.kind == ActorKind::System
    &&& m.actor.id@ == ERASED@
    &&& m.provenance.source.system@ == ERASED@
    &&& m.provenance.source.external_id is None
    &&& m.provenance.source.locator is None
    &&& m.provenance.derived_from@.len() == 0
    &&& m.provenance.extractor is None
    &&& m.provenance.captured_at == shell.created
    &&& m.provenance.ingested_at == shell.created
    &&& m.created == shell.created
    &&& m.updated == now
    &&& m.uses == 0
    &&& m.last_used == shell.created
}

/// The tombstone of `shell` in `scope`, erased at `now`: a record that
/// carries no content.
pub fn tombstone(scope: &Scope, shell: &Shell, now: u64, schema_version: u16) -> (m: Memory)
    ensures
        is_tombstone_of(m, *scope, *shell, now),
        m.schema_version == schema_version,
{
    proof {
        reveal_strlit("");
    }
    Memory {
        id: shell.id,
        scope: scope.duplicate(),
        kind: shell.kind,
        status: Status::Erased,
        trust: TrustClass::Assertion,
        schema_version,
        body: MemoryBody { text: String::new(), title: None, media: Vec::new() },
        actor: Actor { kind: ActorKind::System, id: ERASED.to_owned() },
        provenance: Provenance {
            source: SourceRef { system: ERASED.to_owned(), external_id: None, locator: None },
            captured_at: shell.created,
            ingested_at: shell.created,
            derived_from: Vec::new(),
            extractor: None,
        },
        created: shell.created,
        updated: now,
        uses: 0,
        last_used: shell.created,
    }
}

/// A memory's tombstone: the row emptied, its record replaced, its counters
/// left to the statements that precede it.
pub const TOMBSTONE_SQL: &'static str = "UPDATE memory
    SET status = 'erased', superseded_by = NULL, fingerprint = '', body_bytes = 0,
        valid_until = NULL, updated = $1, record = $2
    WHERE scope_id = $3 AND id = $4 AND status <> 'erased'";

/// The counter bucket the row is in when the transaction runs moves down one.
pub const DECREMENT_SQL: &'static str = "INSERT INTO scope_counter (scope_id, kind, status, count)
    SELECT scope_id, kind, status, -1 FROM memory
    WHERE scope_id = $1 AND id = $2 AND status <> 'erased'
    ON CONFLICT (scope_id, kind, status)
    DO UPDATE SET count = scope_counter.count - 1";

/// The erased bucket of the row's kind moves up one.
pub const INCREMENT_ERASED_SQL: &'static str = "INSERT INTO scope_counter (scope_id, kind, status, count)
    SELECT scope_id, kind, 'erased', 1 FROM memory
    WHERE scope_id = $1 AND id = $2 AND status <> 'erased'
    ON CONFLICT (scope_id, kind, status)
    DO UPDATE SET count = scope_counter.count + 1";

/// Every memory derived from the erased one, in its scope, is marked.
pub const MARK_DERIVED_SQL: &'static str = "UPDATE memory SET origin_erased = 1
    WHERE scope_id = ?1 AND origin_erased = 0 AND status <> 'erased' AND id IN (
        SELECT memory_id FROM memory_derivation
        WHERE scope_id = ?1 AND parent_id = ?2
    )";

/// The memories derived from one, in its scope.
pub const DERIVED_SQL: &'static str = "SELECT memory_id AS id FROM memory_derivation
    WHERE scope_id = $1 AND parent_id = $2";

/// The columns a tombstone needs, for a memory that is not one yet.
pub const SHELL_SQL: &'static str = "SELECT id, kind, status, created FROM memory
    WHERE scope_id = $1 AND id = $2 AND status <> 'erased'";

/// The next batch of a scope erasure: whatever is not a tombstone yet.
pub const BATCH_SQL: &'static str = "SELECT id, kind, status, created FROM memory
    WHERE scope_id = $1 AND status <> 'erased' ORDER BY id LIMIT $2";

/// Totals of one durable operation, across every resumed run.
pub const JOURNAL_READ_SQL: &'static str = "SELECT COUNT(*) AS batches,
        COALESCE(SUM(memories), 0) AS memories,
        COALESCE(SUM(derivatives), 0) AS derivatives,
        COALESCE(SUM(keys_destroyed), 0) AS keys_destroyed,
        COALESCE(SUM(marked), 0) AS marked
    FROM erasure_journal WHERE scope_id = $1 AND operation = $2";

/// The durable receipt of one erasure target (the empty target is the scope's).
pub const RECEIPT_READ_SQL: &'static str = "SELECT decision_id, decision, ready, delivered FROM erasure_receipt
             WHERE scope_id = $1 AND target = $2";

/// The receipt, committed with the destruction it reports. Its Decision is
/// stored only while the target is still a live row (or for a scope).
pub const RECEIPT_INSERT_SQL: &'static str = "INSERT INTO erasure_receipt (scope_id, target, decision_id, decision)
         VALUES (?1,?2,?3, CASE WHEN ?2 = '' OR EXISTS
             (SELECT 1 FROM memory WHERE scope_id = ?1 AND id = ?2 AND status <> 'erased')
             THEN ?4 ELSE NULL END)";

/// A memory's receipt becomes deliverable in the transaction that erased it.
pub const READY_SQL: &'static str = "UPDATE erasure_receipt SET ready = 1 WHERE scope_id = $1 AND target = $2";

/// A delivered receipt is marked so.
pub const DELIVERED_SQL: &'static str = "UPDATE erasure_receipt SET delivered = 1
             WHERE scope_id = $1 AND target = $2 AND decision_id = $3";

/// A batch of a scope operation is fenced to the operation it belongs to.
pub const BATCH_FENCE_SQL: &'static str = "UPDATE erasure_receipt SET ready = CASE
                WHEN decision_id = $1 AND ready = 0 THEN 0 ELSE NULL END
             WHERE scope_id = $2 AND target = ''";

/// A scope operation becomes deliverable only when nothing is left at commit.
pub const SCOPE_READY_SQL: &'static str = "UPDATE erasure_receipt SET ready = 1
             WHERE scope_id = ?1 AND target = '' AND decision_id = ?2
             AND NOT EXISTS (SELECT 1 FROM memory WHERE scope_id = ?1 AND status <> 'erased')
             AND NOT EXISTS (SELECT 1 FROM decision_key WHERE scope_id = ?1)";

/// A delivered scope receipt is cleared before a new operation starts.
pub const SCOPE_RESTART_SQL: &'static str = "DELETE FROM erasure_receipt WHERE scope_id = $1 AND target = '' AND delivered = 1";

/// Whether a scope holds a memory that is not a tombstone.
pub const HAS_WORK_SQL: &'static str = "SELECT id FROM memory WHERE scope_id = $1 AND status <> 'erased' LIMIT 1";

/// Whether a scope holds a digest key.
pub const HAS_KEYS_SQL: &'static str = "SELECT key_id AS id FROM decision_key WHERE scope_id = $1 LIMIT 1";

/// Whether a scope holds progress written before totals were journaled.
pub const LEGACY_SQL: &'static str = "SELECT operation AS id FROM erasure_journal
                 WHERE scope_id = $1 AND operation = 'legacy' LIMIT 1";

/// The batch's journal row.
pub const JOURNAL_INSERT_SQL: &'static str = "INSERT INTO erasure_journal (scope_id, batch, memories, derivatives, at, operation)
         VALUES (?1, (SELECT COALESCE(MAX(batch), -1) + 1 FROM erasure_journal
             WHERE scope_id = ?1), 0, 0, ?2, ?3)";

/// The start of a journal counter update.
pub const JOURNAL_UPDATE_HEAD: &'static str = "UPDATE erasure_journal SET ";

/// The end of a journal counter update: the current batch of this operation.
pub const JOURNAL_UPDATE_TAIL: &'static str = " WHERE scope_id = ?1 AND operation = ?2
             AND batch = (SELECT MAX(batch) FROM erasure_journal WHERE scope_id = ?1)";

/// A key destruction counts as keys and as derivatives.
pub const KEYS_CLAUSE: &'static str = "keys_destroyed = keys_destroyed + changes(), derivatives = derivatives + changes()";

/// A sweep counts as derivatives.
pub const SWEEP_CLAUSE: &'static str = "derivatives = derivatives + changes()";

/// A tombstone counts as a memory.
pub const TOMBSTONE_CLAUSE: &'static str = "memories = memories + changes()";

/// The mark counts as marked derivatives.
pub const MARK_CLAUSE: &'static str = "marked = marked + changes()";

/// A batch that changed nothing leaves no journal row.
pub const JOURNAL_EMPTY_SQL: &'static str = "DELETE FROM erasure_journal WHERE scope_id = $1 AND operation = $2
         AND memories = 0 AND derivatives = 0 AND marked = 0";

/// A half-open range of a batch's positions.
#[derive(Clone, Copy, Debug, PartialEq, Eq)]
pub struct Span {
    /// The first position.
    pub start: usize,
    /// One past the last.
    pub end: usize,
}

/// Which staged statements' row counts go to which journal column.
#[derive(Clone, Copy, Debug, PartialEq, Eq)]
pub struct Counts {
    /// The sweep's deletes.
    pub sweep: Span,
    /// The key destructions.
    pub keys: Span,
    /// The tombstone updates.
    pub tombstones: Span,
    /// The mark, when there is one.
    pub marked: Option<usize>,
}

/// A swept table's delete for one memory.
pub open spec fn sweep_sql(d: (Seq<char>, Seq<char>, Seq<char>)) -> Seq<char> {
    "DELETE FROM "@ + d.0 + " WHERE "@ + d.2 + " = $1 AND "@ + d.1 + " = $2"@
}

/// One swept table's delete for one memory.
pub open spec fn sweep_step(d: (Seq<char>, Seq<char>, Seq<char>), scope: Seq<char>, id: MemoryId) -> StepView {
    sql_step(sweep_sql(d), seq![text(scope), text(id.spec_text())])
}

/// One swept table's deletes, one per shell.
pub open spec fn sweep_row(d: (Seq<char>, Seq<char>, Seq<char>), scope: Seq<char>, shells: Seq<Shell>) -> Seq<StepView> {
    Seq::new(shells.len(), |j: int| sweep_step(d, scope, shells[j].id))
}

/// Every swept table's deletes, table by table.
pub open spec fn sweep_steps(ds: Seq<(Seq<char>, Seq<char>, Seq<char>)>, scope: Seq<char>, shells: Seq<Shell>) -> Seq<StepView>
    decreases ds.len(),
{
    if ds.len() == 0 {
        Seq::empty()
    } else {
        sweep_steps(ds.drop_last(), scope, shells) + sweep_row(ds.last(), scope, shells)
    }
}

/// `step` deletes, from table `d.0`, the rows of memory `id` in the scope
/// whose id is `scope`: it is a `DELETE FROM` that table, and it compares
/// the table's scope column (`d.2`) with a placeholder bound to the scope id
/// and its memory column (`d.1`) with one bound to the memory's id, and its
/// condition is nothing but those two comparisons, both required.
#[verifier::opaque]
pub open spec fn deletes_rows_of(step: StepView, d: (Seq<char>, Seq<char>, Seq<char>), scope: Seq<char>, id: MemoryId) -> bool {
    &&& step is Sql
    &&& {
        let st = step->Sql_0;
        let head = "DELETE FROM "@ + d.0 + seq![' '];
        &&& head.len() <= st.sql.len()
        &&& st.sql.subrange(0, head.len() as int) == head
        &&& binds(st, d.2, text(scope))
        &&& binds(st, d.1, text(id.spec_text()))
        &&& st.sql == head + "WHERE"@ + (comparison(d.2, '$') + spec_decimal(1)) + " AND"@ + (comparison(
            d.1,
            '$',
        ) + spec_decimal(2))
    }
}

/// One table's delete for one memory deletes that memory's rows in its
/// scope, whatever the table and its column names.
pub proof fn lemma_sweep_step_deletes_rows_of(d: (Seq<char>, Seq<char>, Seq<char>), scope: Seq<char>, id: MemoryId)
    ensures
        deletes_rows_of(sweep_step(d, scope, id), d, scope, id),
{
    reveal(deletes_rows_of);
    reveal_strlit("DELETE FROM ");
    reveal_strlit(" WHERE ");
    reveal_strlit(" = $1 AND ");
    reveal_strlit(" = $2");
    let st = sweep_step(d, scope, id)->Sql_0;
    assert(crate::text::spec_decimal(1) =~= seq!['1']);
    assert(crate::text::spec_decimal(2) =~= seq!['2']);
    let head = "DELETE FROM "@ + d.0 + seq![' '];
    assert(st.sql.subrange(0, head.len() as int) =~= head);
    let where_ = "DELETE FROM "@ + d.0 + seq![' ', 'W', 'H', 'E', 'R', 'E'];
    let and_ = seq![' ', 'A', 'N', 'D'];
    let first = comparison(d.2, '$') + crate::text::spec_decimal(1);
    let second = comparison(d.1, '$') + crate::text::spec_decimal(2);
    assert(st.sql =~= where_ + first + (and_ + second));
    lemma_binds_at(st, where_, comparison(d.2, '$'), 1, and_ + second, text(scope));
    assert(st.sql =~= (where_ + first + and_) + second + Seq::<char>::empty());
    lemma_binds_at(st, where_ + first + and_, comparison(d.1, '$'), 2, Seq::<char>::empty(), text(id.spec_text()));
    reveal_strlit("WHERE");
    reveal_strlit(" AND");
    assert(st.sql =~= head + "WHERE"@ + first + " AND"@ + second);
}

/// Every delete of one table's row of a sweep deletes the rows of its shell.
proof fn lemma_sweep_row_deletes_rows_of(d: (Seq<char>, Seq<char>, Seq<char>), scope: Seq<char>, shells: Seq<Shell>)
    ensures
        forall|j: int|
            0 <= j < shells.len() ==> deletes_rows_of(#[trigger] sweep_row(d, scope, shells)[j], d, scope, shells[j].id),
{
    assert forall|j: int| 0 <= j < shells.len() implies deletes_rows_of(
        #[trigger] sweep_row(d, scope, shells)[j],
        d,
        scope,
        shells[j].id,
    ) by {
        lemma_sweep_step_deletes_rows_of(d, scope, shells[j].id);
    }
}

/// Whether statement `i` of `steps` deletes the rows of one of `shells` from
/// one of the tables `ds`.
pub open spec fn deletes_erased_rows(steps: Seq<StepView>, i: int, ds: Seq<(Seq<char>, Seq<char>, Seq<char>)>, scope: Seq<char>, shells: Seq<Shell>) -> bool {
    exists|t: int, j: int|
        #![trigger ds[t], shells[j]]
        0 <= t < ds.len() && 0 <= j < shells.len() && deletes_rows_of(steps[i], ds[t], scope, shells[j].id)
}

/// Whether some statement of `steps` deletes the rows of memory `id` from
/// table `d`.
pub open spec fn some_delete_of(steps: Seq<StepView>, d: (Seq<char>, Seq<char>, Seq<char>), scope: Seq<char>, id: MemoryId) -> bool {
    exists|i: int| 0 <= i < steps.len() && deletes_rows_of(#[trigger] steps[i], d, scope, id)
}

/// A sweep deletes the rows of the erased memories and nothing else: every
/// statement it stages deletes, from one of the swept tables, the rows of
/// one of the shells in the erased scope.
pub proof fn lemma_sweep_deletes_only_erased_rows(ds: Seq<(Seq<char>, Seq<char>, Seq<char>)>, scope: Seq<char>, shells: Seq<Shell>)
    ensures
        forall|i: int|
            0 <= i < sweep_steps(ds, scope, shells).len() ==> #[trigger] deletes_erased_rows(
                sweep_steps(ds, scope, shells),
                i,
                ds,
                scope,
                shells,
            ),
    decreases ds.len(),
{
    if ds.len() > 0 {
        let rest = ds.drop_last();
        lemma_sweep_deletes_only_erased_rows(rest, scope, shells);
        lemma_sweep_row_deletes_rows_of(ds.last(), scope, shells);
        let before = sweep_steps(rest, scope, shells);
        let row = sweep_row(ds.last(), scope, shells);
        let all = sweep_steps(ds, scope, shells);
        assert(all == before + row);
        assert forall|i: int| 0 <= i < all.len() implies #[trigger] deletes_erased_rows(all, i, ds, scope, shells) by {
            if i < before.len() {
                assert(all[i] == before[i]);
                assert(deletes_erased_rows(before, i, rest, scope, shells));
                let (t, j) = choose|t: int, j: int|
                    #![trigger rest[t], shells[j]]
                    0 <= t < rest.len() && 0 <= j < shells.len() && deletes_rows_of(before[i], rest[t], scope, shells[j].id);
                assert(rest[t] == ds[t]);
            } else {
                let j = i - before.len();
                assert(all[i] == row[j]);
                assert(ds[ds.len() - 1] == ds.last());
                assert(deletes_rows_of(row[j], ds[ds.len() - 1], scope, shells[j].id));
            }
        }
    }
}

/// A sweep reaches every swept table for every erased memory: each table
/// gets a delete of each shell's rows.
pub proof fn lemma_sweep_reaches_every_table(ds: Seq<(Seq<char>, Seq<char>, Seq<char>)>, scope: Seq<char>, shells: Seq<Shell>)
    ensures
        forall|t: int, j: int|
            #![trigger ds[t], shells[j]]
            0 <= t < ds.len() && 0 <= j < shells.len() ==> some_delete_of(
                sweep_steps(ds, scope, shells),
                ds[t],
                scope,
                shells[j].id,
            ),
    decreases ds.len(),
{
    if ds.len() > 0 {
        let rest = ds.drop_last();
        lemma_sweep_reaches_every_table(rest, scope, shells);
        lemma_sweep_row_deletes_rows_of(ds.last(), scope, shells);
        let before = sweep_steps(rest, scope, shells);
        let row = sweep_row(ds.last(), scope, shells);
        let all = sweep_steps(ds, scope, shells);
        assert(all == before + row);
        assert forall|t: int, j: int|
            #![trigger ds[t], shells[j]]
            0 <= t < ds.len() && 0 <= j < shells.len() implies some_delete_of(all, ds[t], scope, shells[j].id) by {
            if t < rest.len() {
                assert(rest[t] == ds[t]);
                assert(some_delete_of(before, rest[t], scope, shells[j].id));
                let i = choose|i: int| 0 <= i < before.len() && deletes_rows_of(#[trigger] before[i], rest[t], scope, shells[j].id);
                assert(all[i] == before[i]);
            } else {
                let i = before.len() + j;
                assert(all[i] == row[j]);
                assert(ds[t] == ds.last());
            }
        }
    }
}

/// The two counter moves of every shell, shell by shell.
pub open spec fn counter_steps(scope: Seq<char>, shells: Seq<Shell>) -> Seq<StepView>
    decreases shells.len(),
{
    if shells.len() == 0 {
        Seq::empty()
    } else {
        let id = shells.last().id.spec_text();
        counter_steps(scope, shells.drop_last()) + seq![
            sql_step(DECREMENT_SQL@, seq![text(scope), text(id)]),
            sql_step(INCREMENT_ERASED_SQL@, seq![text(scope), text(id)]),
        ]
    }
}

/// One tombstone update per shell, with its record.
pub open spec fn tombstone_steps(scope: Seq<char>, shells: Seq<Shell>, records: Seq<Seq<char>>, now: u64) -> Seq<StepView> {
    Seq::new(
        shells.len(),
        |j: int|
            sql_step(
                TOMBSTONE_SQL@,
                seq![
                    ValueView::Integer(sql_seconds(now)),
                    text(records[j]),
                    text(scope),
                    text(shells[j].id.spec_text()),
                ],
            ),
    )
}

/// The journal column a staged position's row count goes to.
pub open spec fn journal_clause(i: int, c: Counts) -> Option<Seq<char>> {
    if c.keys.start <= i < c.keys.end {
        Some(KEYS_CLAUSE@)
    } else if c.sweep.start <= i < c.sweep.end {
        Some(SWEEP_CLAUSE@)
    } else if c.tombstones.start <= i < c.tombstones.end {
        Some(TOMBSTONE_CLAUSE@)
    } else if c.marked == Some(i as usize) {
        Some(MARK_CLAUSE@)
    } else {
        None
    }
}

/// The journal update that follows a counted statement.
pub open spec fn journal_update_step(clause: Seq<char>, scope: Seq<char>, op: Seq<char>) -> StepView {
    sql_step(JOURNAL_UPDATE_HEAD@ + clause + JOURNAL_UPDATE_TAIL@, seq![text(scope), text(op)])
}

/// The staged statements, each counted one followed by its journal update.
pub open spec fn interleave(steps: Seq<StepView>, c: Counts, scope: Seq<char>, op: Seq<char>) -> Seq<StepView>
    decreases steps.len(),
{
    if steps.len() == 0 {
        Seq::empty()
    } else {
        let i = steps.len() - 1;
        interleave(steps.drop_last(), c, scope, op) + seq![steps.last()] + match journal_clause(i, c) {
            Some(cl) => seq![journal_update_step(cl, scope, op)],
            None => Seq::empty(),
        }
    }
}

/// A destructive batch with its accounting: the journal row, the statements
/// each followed by the update that adds its row count, and the removal of a
/// journal row that counted nothing. Destruction and its report commit
/// together.
pub open spec fn accounted(steps: Seq<StepView>, c: Counts, scope: Seq<char>, op: Seq<char>, now: u64) -> Seq<StepView> {
    seq![sql_step(JOURNAL_INSERT_SQL@, seq![text(scope), ValueView::Integer(sql_seconds(now)), text(op)])]
        + interleave(steps, c, scope, op) + seq![sql_step(JOURNAL_EMPTY_SQL@, seq![text(scope), text(op)])]
}

fn clause_of(i: usize, c: &Counts) -> (r: Option<&'static str>)
    ensures
        match journal_clause(i as int, *c) {
            Some(cl) => r matches Some(s) && s@ == cl,
            None => r is None,
        },
{
    if c.keys.start <= i && i < c.keys.end {
        Some(KEYS_CLAUSE)
    } else if c.sweep.start <= i && i < c.sweep.end {
        Some(SWEEP_CLAUSE)
    } else if c.tombstones.start <= i && i < c.tombstones.end {
        Some(TOMBSTONE_CLAUSE)
    } else {
        match c.marked {
            Some(m) => if m == i {
                Some(MARK_CLAUSE)
            } else {
                None
            },
            None => None,
        }
    }
}

/// Interleave a destructive batch with the journal statements that count
/// what each statement actually changed.
pub fn accounted_batch(txn: TxnBuilder, scope: &ScopeId, operation: &str, now: u64, counts: &Counts) -> (out: Vec<Step>)
    ensures
        crate::sql::steps_view(out@) == accounted(txn@, *counts, scope@, operation@, now),
{
    let ghost all = txn@;
    let mut steps = txn.into_steps();
    let mut out: Vec<Step> = Vec::new();
    let first = Statement::with_params(
        JOURNAL_INSERT_SQL,
        vec![scope.value(), Value::Integer(seconds_to_sql(now)), Value::text(operation)],
    );
    assert(first@.params =~= seq![text(scope@), ValueView::Integer(sql_seconds(now)), text(operation@)]);
    out.push(Step::Sql(first));
    let n = steps.len();
    let mut i: usize = 0;
    while i < n
        invariant
            n == all.len(),
            i <= n,
            crate::sql::steps_view(steps@) == all.subrange(i as int, n as int),
            crate::sql::steps_view(out@) == seq![sql_step(JOURNAL_INSERT_SQL@, seq![text(scope@), ValueView::Integer(sql_seconds(now)), text(operation@)])]
                + interleave(all.subrange(0, i as int), *counts, scope@, operation@),
        decreases n - i,
    {
        let ghost before = out@;
        let ghost rest = steps@;
        assert(crate::sql::steps_view(rest).len() == rest.len());
        let step = steps.remove(0);
        assert(steps@ =~= rest.subrange(1, rest.len() as int));
        proof {
            crate::sql::lemma_steps_view_subrange(rest, 1, rest.len() as int);
            assert(all.subrange(i as int, n as int).subrange(1, rest.len() as int) =~= all.subrange(i + 1, n as int));
        }
        assert(step@ == all[i as int]) by {
            assert(crate::sql::steps_view(rest)[0] == all.subrange(i as int, n as int)[0]);
        }
        out.push(step);
        assert(crate::sql::steps_view(out@) =~= crate::sql::steps_view(before).push(all[i as int]));
        match clause_of(i, counts) {
            Some(cl) => {
                let st = Statement::with_params(
                    crate::text::cat3(JOURNAL_UPDATE_HEAD, cl, JOURNAL_UPDATE_TAIL).as_str(),
                    vec![scope.value(), Value::text(operation)],
                );
                assert(st@.params =~= seq![text(scope@), text(operation@)]);
                let ghost mid = out@;
                out.push(Step::Sql(st));
                assert(crate::sql::steps_view(out@) =~= crate::sql::steps_view(mid).push(StepView::Sql(st@)));
            },
            None => {},
        }
        proof {
            let pre = all.subrange(0, i + 1);
            assert(pre.drop_last() =~= all.subrange(0, i as int));
            assert(pre.last() == all[i as int]);
            assert(pre.len() - 1 == i);
            let head = seq![sql_step(JOURNAL_INSERT_SQL@, seq![text(scope@), ValueView::Integer(sql_seconds(now)), text(operation@)])];
            let tail = match journal_clause(i as int, *counts) {
                Some(cl) => seq![journal_update_step(cl, scope@, operation@)],
                None => Seq::<StepView>::empty(),
            };
            assert(interleave(pre, *counts, scope@, operation@) == interleave(all.subrange(0, i as int), *counts, scope@, operation@) + seq![all[i as int]] + tail);
            assert(crate::sql::steps_view(out@) =~= head + interleave(pre, *counts, scope@, operation@));
        }
        i = i + 1;
    }
    let last = Statement::with_params(JOURNAL_EMPTY_SQL, vec![scope.value(), Value::text(operation)]);
    assert(last@.params =~= seq![text(scope@), text(operation@)]);
    out.push(Step::Sql(last));
    assert(all.subrange(0, n as int) =~= all);
    assert(crate::sql::steps_view(out@) =~= accounted(all, *counts, scope@, operation@, now));
    out
}

/// The shells' two counter moves each, then their tombstones with their
/// records; the span the tombstones occupy is returned.
pub fn stage_tombstones(txn: &mut TxnBuilder, scope: &ScopeId, shells: &Vec<Shell>, records: &Vec<String>, now: u64) -> (span: Span)
    requires
        records@.len() == shells@.len(),
    ensures
        final(txn)@ == old(txn)@ + counter_steps(scope@, shells@) + tombstone_steps(
            scope@,
            shells@,
            records@.map_values(|r: String| r@),
            now,
        ),
        span.start == old(txn)@.len() + counter_steps(scope@, shells@).len(),
        span.end == final(txn)@.len(),
{
    let mut i: usize = 0;
    while i < shells.len()
        invariant
            i <= shells@.len(),
            txn@ == old(txn)@ + counter_steps(scope@, shells@.subrange(0, i as int)),
        decreases shells@.len() - i,
    {
        let id = shells[i].id;
        let a = Statement::with_params(DECREMENT_SQL, vec![scope.value(), Value::Text(id.to_text())]);
        assert(a@.params =~= seq![text(scope@), text(id.spec_text())]);
        txn.push(a);
        let b = Statement::with_params(INCREMENT_ERASED_SQL, vec![scope.value(), Value::Text(id.to_text())]);
        assert(b@.params =~= seq![text(scope@), text(id.spec_text())]);
        txn.push(b);
        proof {
            let pre = shells@.subrange(0, i + 1);
            assert(pre.drop_last() =~= shells@.subrange(0, i as int));
            assert(pre.last() == shells@[i as int]);
        }
        i = i + 1;
        assert(txn@ =~= old(txn)@ + counter_steps(scope@, shells@.subrange(0, i as int)));
    }
    assert(shells@.subrange(0, shells@.len() as int) =~= shells@);
    let start = txn.len();
    let ghost base = txn@;
    let ghost recs = records@.map_values(|r: String| r@);
    let mut k: usize = 0;
    while k < shells.len()
        invariant
            k <= shells@.len(),
            records@.len() == shells@.len(),
            recs == records@.map_values(|r: String| r@),
            txn@ == base + tombstone_steps(scope@, shells@.subrange(0, k as int), recs.subrange(0, k as int), now),
        decreases shells@.len() - k,
    {
        let st = Statement::with_params(
            TOMBSTONE_SQL,
            vec![
                Value::Integer(seconds_to_sql(now)),
                Value::Text(records[k].clone()),
                scope.value(),
                Value::Text(shells[k].id.to_text()),
            ],
        );
        assert(st@.params =~= seq![
            ValueView::Integer(sql_seconds(now)),
            text(recs[k as int]),
            text(scope@),
            text(shells@[k as int].id.spec_text()),
        ]);
        txn.push(st);
        k = k + 1;
        assert(txn@ =~= base + tombstone_steps(scope@, shells@.subrange(0, k as int), recs.subrange(0, k as int), now));
    }
    assert(recs.subrange(0, shells@.len() as int) =~= recs);
    Span { start, end: txn.len() }
}

/// The destruction of the keys covering each shell's memory.
pub open spec fn key_steps(scope: Seq<char>, shells: Seq<Shell>) -> Seq<StepView> {
    Seq::new(shells.len(), |j: int| crate::decision_key::destroy_memory_step(scope, shells[j].id))
}

/// The statements of one memory's erasure before accounting: the sweep, the
/// key destructions, the counter moves, the tombstones, and the mark on what
/// was derived from it.
pub open spec fn erase_core(swept: Seq<(Seq<char>, Seq<char>, Seq<char>)>, scope: Seq<char>, target: MemoryId, shells: Seq<Shell>, records: Seq<Seq<char>>, now: u64) -> Seq<StepView> {
    sweep_steps(swept, scope, shells) + key_steps(scope, shells) + counter_steps(scope, shells)
        + tombstone_steps(scope, shells, records, now) + seq![
        sql_step(MARK_DERIVED_SQL@, seq![text(scope), text(target.spec_text())]),
    ]
}

/// Where each part of [`erase_core`] sits, for the journal.
pub open spec fn erase_counts(swept: Seq<(Seq<char>, Seq<char>, Seq<char>)>, scope: Seq<char>, shells: Seq<Shell>, base: int) -> Counts {
    let s = sweep_steps(swept, scope, shells).len();
    let k = shells.len();
    let c = counter_steps(scope, shells).len();
    Counts {
        sweep: Span { start: base as usize, end: (base + s) as usize },
        keys: Span { start: (base + s) as usize, end: (base + s + k) as usize },
        tombstones: Span { start: (base + s + k + c) as usize, end: (base + s + k + c + k) as usize },
        marked: Some((base + s + k + c + k) as usize),
    }
}

/// The receipt insert for one target.
pub open spec fn receipt_step(scope: Seq<char>, target: Seq<char>, decision_id: Seq<char>, decision: Seq<char>) -> StepView {
    sql_step(RECEIPT_INSERT_SQL@, seq![text(scope), text(target), text(decision_id), text(decision)])
}

/// Everything one memory's erasure commits, in order: its receipt, the
/// accounted destruction, and the receipt's readiness.
pub open spec fn erase_plan(swept: Seq<(Seq<char>, Seq<char>, Seq<char>)>, scope: Seq<char>, target: MemoryId, shells: Seq<Shell>, records: Seq<Seq<char>>, decision_id: Seq<char>, decision: Seq<char>, now: u64) -> Seq<StepView> {
    seq![receipt_step(scope, target.spec_text(), decision_id, decision)] + accounted(
        erase_core(swept, scope, target, shells, records, now),
        erase_counts(swept, scope, shells, 0),
        scope,
        decision_id,
        now,
    ) + seq![sql_step(READY_SQL@, seq![text(scope), text(target.spec_text())])]
}

/// Accounting adds journal statements and never drops one it counts: every
/// staged statement is in the accounted batch.
proof fn lemma_interleave_keeps(steps: Seq<StepView>, c: Counts, scope: Seq<char>, op: Seq<char>, i: int)
    requires
        0 <= i < steps.len(),
    ensures
        interleave(steps, c, scope, op).contains(steps[i]),
    decreases steps.len(),
{
    let last = steps.len() - 1;
    let before = interleave(steps.drop_last(), c, scope, op);
    let tail = match journal_clause(last, c) {
        Some(cl) => seq![journal_update_step(cl, scope, op)],
        None => Seq::<StepView>::empty(),
    };
    let all = interleave(steps, c, scope, op);
    assert(all == before + seq![steps.last()] + tail);
    if i == last {
        assert(all[before.len() as int] == steps[i]);
    } else {
        lemma_interleave_keeps(steps.drop_last(), c, scope, op, i);
        assert(steps.drop_last()[i] == steps[i]);
        let k = choose|k: int| 0 <= k < before.len() && before[k] == steps[i];
        assert(all[k] == steps[i]);
    }
}

/// An erasure destroys, in the very transaction that tombstones them, the
/// digest keys of every memory it erases: the batch that commits holds, for
/// each erased memory, the destruction of its keys and its tombstone, with
/// its receipt first and its readiness last.
pub proof fn lemma_erase_destroys_keys_with_tombstones(
    swept: Seq<(Seq<char>, Seq<char>, Seq<char>)>,
    scope: Seq<char>,
    target: MemoryId,
    shells: Seq<Shell>,
    records: Seq<Seq<char>>,
    decision_id: Seq<char>,
    decision: Seq<char>,
    now: u64,
)
    requires
        records.len() == shells.len(),
    ensures
        forall|k: int|
            0 <= k < shells.len() ==> {
                let plan = erase_plan(swept, scope, target, shells, records, decision_id, decision, now);
                &&& plan.contains(crate::decision_key::destroy_memory_step(scope, #[trigger] shells[k].id))
                &&& plan.contains(tombstone_steps(scope, shells, records, now)[k])
            },
        erase_plan(swept, scope, target, shells, records, decision_id, decision, now)[0] == receipt_step(
            scope,
            target.spec_text(),
            decision_id,
            decision,
        ),
        erase_plan(swept, scope, target, shells, records, decision_id, decision, now).last() == sql_step(
            READY_SQL@,
            seq![text(scope), text(target.spec_text())],
        ),
{
    let core = erase_core(swept, scope, target, shells, records, now);
    let counts = erase_counts(swept, scope, shells, 0);
    let inner = interleave(core, counts, scope, decision_id);
    let acc = accounted(core, counts, scope, decision_id, now);
    let plan = erase_plan(swept, scope, target, shells, records, decision_id, decision, now);
    let head = seq![receipt_step(scope, target.spec_text(), decision_id, decision)];
    let first = seq![sql_step(JOURNAL_INSERT_SQL@, seq![text(scope), ValueView::Integer(sql_seconds(now)), text(decision_id)])];
    assert(plan == head + acc + seq![sql_step(READY_SQL@, seq![text(scope), text(target.spec_text())])]);
    assert(acc == first + inner + seq![sql_step(JOURNAL_EMPTY_SQL@, seq![text(scope), text(decision_id)])]);
    let s = sweep_steps(swept, scope, shells);
    let ks = key_steps(scope, shells);
    let cs = counter_steps(scope, shells);
    let ts = tombstone_steps(scope, shells, records, now);
    assert forall|k: int| 0 <= k < shells.len() implies {
        &&& plan.contains(crate::decision_key::destroy_memory_step(scope, #[trigger] shells[k].id))
        &&& plan.contains(ts[k])
    } by {
        let ki = s.len() + k;
        let ti = s.len() + ks.len() + cs.len() + k;
        assert(core[ki] == ks[k]);
        assert(core[ti] == ts[k]);
        lemma_interleave_keeps(core, counts, scope, decision_id, ki);
        lemma_interleave_keeps(core, counts, scope, decision_id, ti);
        let a = choose|a: int| 0 <= a < inner.len() && inner[a] == core[ki];
        let b = choose|b: int| 0 <= b < inner.len() && inner[b] == core[ti];
        assert(plan[1 + 1 + a] == inner[a]);
        assert(plan[1 + 1 + b] == inner[b]);
    }
}

/// The statements of one scope batch before accounting: the sweep, the
/// destruction of every key of the scope, the counter moves and the tombstones.
pub open spec fn drain_core(swept: Seq<(Seq<char>, Seq<char>, Seq<char>)>, scope: Seq<char>, shells: Seq<Shell>, records: Seq<Seq<char>>, now: u64) -> Seq<StepView> {
    sweep_steps(swept, scope, shells) + seq![crate::decision_key::destroy_scope_step(scope)]
        + counter_steps(scope, shells) + tombstone_steps(scope, shells, records, now)
}

/// Where each part of [`drain_core`] sits, for the journal.
pub open spec fn drain_counts(swept: Seq<(Seq<char>, Seq<char>, Seq<char>)>, scope: Seq<char>, shells: Seq<Shell>) -> Counts {
    let s = sweep_steps(swept, scope, shells).len();
    let c = counter_steps(scope, shells).len();
    Counts {
        sweep: Span { start: 0, end: s as usize },
        keys: Span { start: s as usize, end: (s + 1) as usize },
        tombstones: Span { start: (s + 1 + c) as usize, end: (s + 1 + c + shells.len()) as usize },
        marked: None,
    }
}

/// Everything one scope batch commits: the fence on its operation, the
/// accounted destruction, and the readiness recheck at commit.
pub open spec fn drain_plan(swept: Seq<(Seq<char>, Seq<char>, Seq<char>)>, scope: Seq<char>, operation: Seq<char>, shells: Seq<Shell>, records: Seq<Seq<char>>, now: u64) -> Seq<StepView> {
    seq![sql_step(BATCH_FENCE_SQL@, seq![text(operation), text(scope)])] + accounted(
        drain_core(swept, scope, shells, records, now),
        drain_counts(swept, scope, shells),
        scope,
        operation,
        now,
    ) + seq![sql_step(SCOPE_READY_SQL@, seq![text(scope), text(operation)])]
}

/// Every batch of a scope erasure destroys the scope's digest keys and
/// tombstones each memory it claimed, in the transaction that fences the
/// batch to its operation and rechecks readiness last.
pub proof fn lemma_drain_destroys_scope_keys(
    swept: Seq<(Seq<char>, Seq<char>, Seq<char>)>,
    scope: Seq<char>,
    operation: Seq<char>,
    shells: Seq<Shell>,
    records: Seq<Seq<char>>,
    now: u64,
)
    requires
        records.len() == shells.len(),
    ensures
        drain_plan(swept, scope, operation, shells, records, now).contains(crate::decision_key::destroy_scope_step(scope)),
        forall|k: int|
            0 <= k < shells.len() ==> drain_plan(swept, scope, operation, shells, records, now).contains(
                #[trigger] tombstone_steps(scope, shells, records, now)[k],
            ),
        drain_plan(swept, scope, operation, shells, records, now)[0] == sql_step(
            BATCH_FENCE_SQL@,
            seq![text(operation), text(scope)],
        ),
        drain_plan(swept, scope, operation, shells, records, now).last() == sql_step(
            SCOPE_READY_SQL@,
            seq![text(scope), text(operation)],
        ),
{
    let core = drain_core(swept, scope, shells, records, now);
    let counts = drain_counts(swept, scope, shells);
    let inner = interleave(core, counts, scope, operation);
    let acc = accounted(core, counts, scope, operation, now);
    let plan = drain_plan(swept, scope, operation, shells, records, now);
    let head = seq![sql_step(BATCH_FENCE_SQL@, seq![text(operation), text(scope)])];
    let first = seq![sql_step(JOURNAL_INSERT_SQL@, seq![text(scope), ValueView::Integer(sql_seconds(now)), text(operation)])];
    assert(plan == head + acc + seq![sql_step(SCOPE_READY_SQL@, seq![text(scope), text(operation)])]);
    assert(acc == first + inner + seq![sql_step(JOURNAL_EMPTY_SQL@, seq![text(scope), text(operation)])]);
    let s = sweep_steps(swept, scope, shells);
    let cs = counter_steps(scope, shells);
    let ts = tombstone_steps(scope, shells, records, now);
    assert(core[s.len() as int] == crate::decision_key::destroy_scope_step(scope));
    lemma_interleave_keeps(core, counts, scope, operation, s.len() as int);
    let a = choose|a: int| 0 <= a < inner.len() && inner[a] == core[s.len() as int];
    assert(plan[1 + 1 + a] == inner[a]);
    assert forall|k: int| 0 <= k < shells.len() implies plan.contains(#[trigger] ts[k]) by {
        let ti = s.len() + 1 + cs.len() + k;
        assert(core[ti] == ts[k]);
        lemma_interleave_keeps(core, counts, scope, operation, ti);
        let b = choose|b: int| 0 <= b < inner.len() && inner[b] == core[ti];
        assert(plan[1 + 1 + b] == inner[b]);
    }
}

impl Eraser {
    /// Stage one `DELETE` per swept table per memory; the span they occupy
    /// is returned so their row counts can be added up.
    pub fn stage_sweep(&self, txn: &mut TxnBuilder, scope: &ScopeId, shells: &Vec<Shell>) -> (span: Span)
        ensures
            final(txn)@ == old(txn)@ + sweep_steps(self.swept(), scope@, shells@),
            span.start == old(txn)@.len(),
            span.end == final(txn)@.len(),
    {
        let start = txn.len();
        let ds = &self.derivatives;
        let mut i: usize = 0;
        while i < ds.len()
            invariant
                i <= ds@.len(),
                ds@ == self.derivatives@,
                txn@ == old(txn)@ + sweep_steps(derivatives_view(ds@.subrange(0, i as int)), scope@, shells@),
            decreases ds@.len() - i,
        {
            let d = ds[i];
            let ghost row_base = txn@;
            let mut j: usize = 0;
            while j < shells.len()
                invariant
                    j <= shells@.len(),
                    txn@ == row_base + sweep_row(derivative_view(d), scope@, shells@.subrange(0, j as int)),
                decreases shells@.len() - j,
            {
                let mut sql = cat3("DELETE FROM ", d.table, " WHERE ");
                sql.append(d.scope_column);
                sql.append(" = $1 AND ");
                sql.append(d.memory_column);
                sql.append(" = $2");
                let st = Statement::with_params(sql.as_str(), vec![scope.value(), Value::Text(shells[j].id.to_text())]);
                assert(st@.params =~= seq![text(scope@), text(shells@[j as int].id.spec_text())]);
                assert(st@.sql =~= sweep_sql(derivative_view(d)));
                txn.push(st);
                j = j + 1;
                assert(txn@ =~= row_base + sweep_row(derivative_view(d), scope@, shells@.subrange(0, j as int)));
            }
            proof {
                assert(shells@.subrange(0, shells@.len() as int) =~= shells@);
                let pre = derivatives_view(ds@.subrange(0, i + 1));
                assert(pre.drop_last() =~= derivatives_view(ds@.subrange(0, i as int)));
                assert(pre.last() == derivative_view(d));
            }
            i = i + 1;
            assert(txn@ =~= old(txn)@ + sweep_steps(derivatives_view(ds@.subrange(0, i as int)), scope@, shells@));
        }
        assert(ds@.subrange(0, ds@.len() as int) =~= ds@);
        Span { start, end: txn.len() }
    }

    /// Everything one memory's erasure commits, for `shells` (the memory and,
    /// when cascading, what was derived from it) with their tombstone
    /// `records`, under the Decision it will deliver.
    pub fn erase_statements(&self, scope: &Scope, target: MemoryId, shells: &Vec<Shell>, records: &Vec<String>, decision_id: &str, decision: &str, now: u64) -> (out: Vec<Step>)
        requires
            records@.len() == shells@.len(),
        ensures
            crate::sql::steps_view(out@) == erase_plan(
                self.swept(),
                crate::scope::spec_scope_id(*scope),
                target,
                shells@,
                records@.map_values(|r: String| r@),
                decision_id@,
                decision@,
                now,
            ),
    {
        let scope_id = ScopeId::of(scope);
        let mut txn = TxnBuilder::new();
        let sweep = self.stage_sweep(&mut txn, &scope_id, shells);
        let keys_at = txn.len();
        let ghost before_keys = txn@;
        let mut i: usize = 0;
        while i < shells.len()
            invariant
                i <= shells@.len(),
                scope_id@ == crate::scope::spec_scope_id(*scope),
                txn@ == before_keys + key_steps(scope_id@, shells@.subrange(0, i as int)),
            decreases shells@.len() - i,
        {
            crate::decision_key::DecisionKeyRepo::stage_destroy_for_memory(&mut txn, scope, shells[i].id);
            i = i + 1;
            assert(txn@ =~= before_keys + key_steps(scope_id@, shells@.subrange(0, i as int)));
        }
        assert(shells@.subrange(0, shells@.len() as int) =~= shells@);
        let keys = Span { start: keys_at, end: txn.len() };
        let tombstones = stage_tombstones(&mut txn, &scope_id, shells, records, now);
        let mark_at = txn.len();
        let mark = Statement::with_params(MARK_DERIVED_SQL, vec![scope_id.value(), Value::Text(target.to_text())]);
        assert(mark@.params =~= seq![text(scope_id@), text(target.spec_text())]);
        txn.push(mark);
        let counts = Counts { sweep, keys, tombstones, marked: Some(mark_at) };
        let ghost core = txn@;
        assert(core =~= erase_core(self.swept(), scope_id@, target, shells@, records@.map_values(|r: String| r@), now));
        assert(counts == erase_counts(self.swept(), scope_id@, shells@, 0));
        let mut out: Vec<Step> = Vec::new();
        let receipt = Statement::with_params(
            RECEIPT_INSERT_SQL,
            vec![scope_id.value(), Value::Text(target.to_text()), Value::text(decision_id), Value::text(decision)],
        );
        assert(receipt@.params =~= seq![text(scope_id@), text(target.spec_text()), text(decision_id@), text(decision@)]);
        out.push(Step::Sql(receipt));
        let mut body = accounted_batch(txn, &scope_id, decision_id, now, &counts);
        let ghost first = out@;
        let ghost mid = body@;
        out.append(&mut body);
        let ready = Statement::with_params(READY_SQL, vec![scope_id.value(), Value::Text(target.to_text())]);
        assert(ready@.params =~= seq![text(scope_id@), text(target.spec_text())]);
        let ghost pre_ready = out@;
        out.push(Step::Sql(ready));
        proof {
            assert(out@ =~= first + mid + seq![Step::Sql(ready)]);
            assert(crate::sql::steps_view(out@) =~= crate::sql::steps_view(first) + crate::sql::steps_view(mid) + seq![StepView::Sql(ready@)]);
        }
        out
    }

    /// Everything one batch of a scope erasure commits, for `shells` with
    /// their tombstone `records`, under the scope operation `operation`.
    pub fn drain_statements(&self, scope: &Scope, operation: &str, shells: &Vec<Shell>, records: &Vec<String>, now: u64) -> (out: Vec<Step>)
        requires
            records@.len() == shells@.len(),
        ensures
            crate::sql::steps_view(out@) == drain_plan(
                self.swept(),
                crate::scope::spec_scope_id(*scope),
                operation@,
                shells@,
                records@.map_values(|r: String| r@),
                now,
            ),
    {
        let scope_id = ScopeId::of(scope);
        let mut txn = TxnBuilder::new();
        let sweep = self.stage_sweep(&mut txn, &scope_id, shells);
        let keys_at = txn.len();
        crate::decision_key::DecisionKeyRepo::stage_destroy_for_scope(&mut txn, scope);
        let keys = Span { start: keys_at, end: txn.len() };
        let tombstones = stage_tombstones(&mut txn, &scope_id, shells, records, now);
        let counts = Counts { sweep, keys, tombstones, marked: None };
        assert(txn@ =~= drain_core(self.swept(), scope_id@, shells@, records@.map_values(|r: String| r@), now));
        assert(counts == drain_counts(self.swept(), scope_id@, shells@));
        let mut out: Vec<Step> = Vec::new();
        let fence = Statement::with_params(BATCH_FENCE_SQL, vec![Value::text(operation), scope_id.value()]);
        assert(fence@.params =~= seq![text(operation@), text(scope_id@)]);
        out.push(Step::Sql(fence));
        let mut body = accounted_batch(txn, &scope_id, operation, now, &counts);
        let ghost first = out@;
        let ghost mid = body@;
        out.append(&mut body);
        let ready = Statement::with_params(SCOPE_READY_SQL, vec![scope_id.value(), Value::text(operation)]);
        assert(ready@.params =~= seq![text(scope_id@), text(operation@)]);
        out.push(Step::Sql(ready));
        proof {
            assert(out@ =~= first + mid + seq![Step::Sql(ready)]);
            assert(crate::sql::steps_view(out@) =~= crate::sql::steps_view(first) + crate::sql::steps_view(mid) + seq![StepView::Sql(ready@)]);
        }
        out
    }
}

/// The durable receipt of one erasure target.
#[derive(Debug)]
pub struct Receipt {
    /// The Decision's id.
    pub decision_id: String,
    /// The Decision as it will be delivered, totals aside.
    pub decision: String,
    /// Whether the destruction it reports has committed in full.
    pub ready: i64,
    /// Whether the Decision has been appended to the chain.
    pub delivered: i64,
}

/// What an erasure of one memory does next.
#[derive(Debug)]
pub enum EraseNext {
    /// A receipt exists: deliver its Decision and erase nothing again.
    Deliver(Receipt),
    /// The memory is a live row: erase it.
    Erase(Shell),
    /// Neither: the memory is not an erasable row of this scope.
    Refuse(Error),
}

/// The refusal of an erasure of `target`, which is not an erasable row of the
/// scope and has no receipt there.
pub open spec fn not_erasable_message(target: MemoryId) -> Seq<char> {
    "memory "@ + target.spec_text() + " is not an erasable row of this scope"@
}

/// Decide what an erasure of `target` does next, from the receipt read first,
/// the memory's shell, and the receipt read again when there was no shell (a
/// racing erasure may have committed in between). A receipt that was read is
/// the one delivered, so a repeated erasure answers with the Decision the
/// first one made.
pub fn erase_next(target: MemoryId, first: Option<Receipt>, shell: Option<Shell>, second: Option<Receipt>) -> (n: EraseNext)
    ensures
        (first matches Some(r) ==> n == EraseNext::Deliver(r)),
        first is None && shell is Some ==> (n matches EraseNext::Erase(sh) && sh == shell->Some_0),
        first is None && shell is None ==> (second matches Some(r) ==> n == EraseNext::Deliver(r)),
        first is None && shell is None && second is None ==> (n matches EraseNext::Refuse(e)
            && e is Validation && e->Validation_0@ == not_erasable_message(target)),
{
    match first {
        Some(r) => EraseNext::Deliver(r),
        None => match shell {
            Some(sh) => EraseNext::Erase(sh),
            None => match second {
                Some(r) => EraseNext::Deliver(r),
                None => EraseNext::Refuse(Error::Validation(cat3(
                    "memory ",
                    target.to_text().as_str(),
                    " is not an erasable row of this scope",
                ))),
            },
        },
    }
}

/// A receipt's Decision may be delivered only once its destruction has
/// committed in full; until then the erasure is still draining.
pub fn deliverable(receipt: &Receipt) -> (r: Result<(), Error>)
    ensures
        r is Ok <==> receipt.ready == 1,
        r matches Err(e) ==> e is Conflict && e->Conflict_0@ == "erasure is still draining"@,
{
    if receipt.ready != 1 {
        return Err(Error::Conflict("erasure is still draining".to_owned()));
    }
    Ok(())
}

/// What delivering a receipt's Decision does with the ledger.
#[derive(Clone, Copy, Debug, PartialEq, Eq, Structural)]
pub enum Delivery {
    /// Append the Decision, then mark the receipt delivered.
    Append,
    /// The ledger already has it: only mark the receipt delivered.
    Skip,
}

/// Decide how a receipt's Decision is delivered, given whether the ledger
/// already holds that Decision (`resident`, which matters only while the
/// receipt is undelivered). The Decision is appended at most once: only
/// when the receipt says it never was and the ledger does not hold it.
pub fn delivery(receipt: &Receipt, resident: bool) -> (r: Result<Delivery, Error>)
    ensures
        receipt.ready != 1 ==> (r matches Err(e) && e is Conflict && e->Conflict_0@
            == "erasure is still draining"@),
        receipt.ready == 1 ==> (r matches Ok(d) && (d == Delivery::Append <==> (receipt.delivered == 0
            && !resident))),
{
    deliverable(receipt)?;
    if receipt.delivered == 0 && !resident {
        Ok(Delivery::Append)
    } else {
        Ok(Delivery::Skip)
    }
}

/// The totals a delivered Decision's payload carries, by field: what was
/// removed and destroyed, then for a scope the memories and batches, and for
/// one memory the derived memories marked.
pub open spec fn payload_totals_of(scope_wide: bool, t: JournalTotals) -> Seq<(Seq<char>, i64)> {
    if scope_wide {
        seq![
            ("derivatives_removed"@, t.derivatives),
            ("keys_destroyed"@, t.keys_destroyed),
            ("memories"@, t.memories),
            ("batches"@, t.batches),
        ]
    } else {
        seq![
            ("derivatives_removed"@, t.derivatives),
            ("keys_destroyed"@, t.keys_destroyed),
            ("derivatives_marked"@, t.marked),
        ]
    }
}

/// The totals a delivered Decision's payload carries, by field, for a scope
/// erasure (`scope_wide`) or the erasure of one memory.
pub fn payload_totals(scope_wide: bool, totals: &JournalTotals) -> (r: Vec<(&'static str, i64)>)
    ensures
        r@.len() == payload_totals_of(scope_wide, *totals).len(),
        forall|i: int| 0 <= i < r@.len() ==> (#[trigger] r@[i].0@, r@[i].1) == payload_totals_of(scope_wide, *totals)[i],
{
    let mut r: Vec<(&'static str, i64)> = Vec::new();
    r.push(("derivatives_removed", totals.derivatives));
    r.push(("keys_destroyed", totals.keys_destroyed));
    if scope_wide {
        r.push(("memories", totals.memories));
        r.push(("batches", totals.batches));
    } else {
        r.push(("derivatives_marked", totals.marked));
    }
    r
}

/// The receipt a committed erasure must have.
pub fn required_receipt(receipt: Option<Receipt>) -> (r: Result<Receipt, Error>)
    ensures
        receipt is Some <==> r is Ok,
        receipt matches Some(x) ==> r == Ok::<Receipt, Error>(x),
        r matches Err(e) ==> e is Integrity && e->Integrity_0@ == "committed erasure has no durable receipt"@,
{
    match receipt {
        Some(r) => Ok(r),
        None => Err(Error::Integrity("committed erasure has no durable receipt".to_owned())),
    }
}

/// Whether a scope erasure starts a new operation: when there is no earlier
/// one, or when the earlier one was delivered and new content or keys have
/// arrived since. Pending delivery always wins over starting another.
pub open spec fn spec_scope_starts(previous: Option<(i64, i64)>, has_work: bool, has_keys: bool) -> bool {
    match previous {
        None => true,
        Some((_, delivered)) => delivered == 1 && (has_work || has_keys),
    }
}

/// A repeated scope erasure replays rather than erases again: while an
/// earlier operation is undelivered it is resumed, and once it is delivered
/// a new one starts only when new content or keys have arrived since. Only a
/// scope with no earlier operation always starts one.
pub proof fn lemma_repeat_scope_erasure_replays(ready: i64, delivered: i64, has_work: bool, has_keys: bool)
    ensures
        delivered != 1 ==> !spec_scope_starts(Some((ready, delivered)), has_work, has_keys),
        !has_work && !has_keys ==> !spec_scope_starts(Some((ready, delivered)), has_work, has_keys),
        spec_scope_starts(None, has_work, has_keys),
{
}

/// Whether a scope erasure starts a new operation.
pub fn scope_starts(previous: &Option<Receipt>, has_work: bool, has_keys: bool) -> (b: bool)
    ensures
        b == spec_scope_starts(
            match *previous {
                Some(r) => Some((r.ready, r.delivered)),
                None => None,
            },
            has_work,
            has_keys,
        ),
{
    match previous {
        None => true,
        Some(r) => r.delivered == 1 && (has_work || has_keys),
    }
}

/// Progress written before totals were journaled cannot be resumed as if
/// its totals were known.
pub fn refuse_legacy(legacy: bool) -> (r: Result<(), Error>)
    ensures
        r is Ok <==> !legacy,
        r matches Err(e) ==> e is Integrity && e->Integrity_0@
            == "legacy erasure progress has no durable key totals; reconcile it before resuming"@,
{
    if legacy {
        return Err(Error::Integrity(
            "legacy erasure progress has no durable key totals; reconcile it before resuming".to_owned(),
        ));
    }
    Ok(())
}

/// Whether a scope erasure batch size is one a leased pass will take.
pub open spec fn legal_erasure_batch(batch: u32) -> bool {
    1 <= batch <= MAX_ERASURE_BATCH
}

/// Refuse an erasure batch of zero or above [`MAX_ERASURE_BATCH`].
pub fn check_erasure_batch(batch: u32) -> (r: Result<(), Error>)
    ensures
        r is Ok <==> legal_erasure_batch(batch),
        r matches Err(e) ==> e is Validation && e->Validation_0@ == "an erasure batch of "@
            + spec_decimal(batch as u64) + " is not between 1 and "@ + spec_decimal(
            MAX_ERASURE_BATCH as u64,
        ),
{
    if batch == 0 || batch > MAX_ERASURE_BATCH {
        return Err(Error::Validation(bounds_message(
            "an erasure batch of ",
            batch as u64,
            " is not between 1 and ",
            MAX_ERASURE_BATCH as u64,
        )));
    }
    Ok(())
}

/// The statement reading the next batch of a scope erasure: at most the
/// accounted row bound, however large the batch asked for.
pub fn batch_statement(scope: &ScopeId, batch: u32) -> (st: Statement)
    ensures
        st@.sql == BATCH_SQL@,
        st@.params == seq![
            text(scope@),
            ValueView::Integer(
                (if batch < MAX_ACCOUNTED_BATCH {
                    batch
                } else {
                    MAX_ACCOUNTED_BATCH
                }) as i64,
            ),
        ],
{
    let rows = if batch < MAX_ACCOUNTED_BATCH {
        batch
    } else {
        MAX_ACCOUNTED_BATCH
    };
    let st = Statement::with_params(BATCH_SQL, vec![scope.value(), Value::Integer(rows as i64)]);
    assert(st@.params =~= seq![text(scope@), ValueView::Integer(rows as i64)]);
    st
}

/// A statement over the scope and one text parameter.
fn scoped(sql: &'static str, scope: &ScopeId, second: &str) -> (st: Statement)
    ensures
        st@.sql == sql@,
        st@.params == seq![text(scope@), text(second@)],
{
    let st = Statement::with_params(sql, vec![scope.value(), Value::text(second)]);
    assert(st@.params =~= seq![text(scope@), text(second@)]);
    st
}

/// A statement over the scope alone.
fn scope_only(sql: &'static str, scope: &ScopeId) -> (st: Statement)
    ensures
        st@.sql == sql@,
        st@.params == seq![text(scope@)],
{
    let st = Statement::with_params(sql, vec![scope.value()]);
    assert(st@.params =~= seq![text(scope@)]);
    st
}

/// The read of a memory's shell, when it is not a tombstone yet.
pub fn shell_statement(scope: &ScopeId, id: MemoryId) -> (st: Statement)
    ensures
        st@.sql == SHELL_SQL@,
        st@.params == seq![text(scope@), text(id.spec_text())],
{
    scoped(SHELL_SQL, scope, id.to_text().as_str())
}

/// The read of the memories derived from `id`, in its scope.
pub fn derived_statement(scope: &ScopeId, id: MemoryId) -> (st: Statement)
    ensures
        st@.sql == DERIVED_SQL@,
        st@.params == seq![text(scope@), text(id.spec_text())],
{
    scoped(DERIVED_SQL, scope, id.to_text().as_str())
}

/// The read of a target's receipt (the empty target is the scope's).
pub fn receipt_statement(scope: &ScopeId, target: &str) -> (st: Statement)
    ensures
        st@.sql == RECEIPT_READ_SQL@,
        st@.params == seq![text(scope@), text(target@)],
{
    scoped(RECEIPT_READ_SQL, scope, target)
}

/// The read of one operation's journal totals.
pub fn journal_statement(scope: &ScopeId, operation: &str) -> (st: Statement)
    ensures
        st@.sql == JOURNAL_READ_SQL@,
        st@.params == seq![text(scope@), text(operation@)],
{
    scoped(JOURNAL_READ_SQL, scope, operation)
}

/// The reads that decide whether a scope operation starts: live memories,
/// keys, and legacy progress, in that order.
pub fn scope_probe_statements(scope: &ScopeId) -> (sts: (Statement, Statement, Statement))
    ensures
        sts.0@.sql == HAS_WORK_SQL@ && sts.0@.params == seq![text(scope@)],
        sts.1@.sql == HAS_KEYS_SQL@ && sts.1@.params == seq![text(scope@)],
        sts.2@.sql == LEGACY_SQL@ && sts.2@.params == seq![text(scope@)],
{
    (scope_only(HAS_WORK_SQL, scope), scope_only(HAS_KEYS_SQL, scope), scope_only(LEGACY_SQL, scope))
}

/// The transaction that starts a scope operation: the delivered receipt of
/// the last one cleared, and the new receipt written.
pub fn scope_start_statements(scope: &ScopeId, decision_id: &str, decision: &str) -> (sts: Vec<Statement>)
    ensures
        sts@.len() == 2,
        sts@[0]@.sql == SCOPE_RESTART_SQL@ && sts@[0]@.params == seq![text(scope@)],
        StepView::Sql(sts@[1]@) == receipt_step(scope@, Seq::<char>::empty(), decision_id@, decision@),
{
    proof {
        reveal_strlit("");
    }
    let clear = scope_only(SCOPE_RESTART_SQL, scope);
    let receipt = Statement::with_params(
        RECEIPT_INSERT_SQL,
        vec![scope.value(), Value::Text(String::new()), Value::text(decision_id), Value::text(decision)],
    );
    assert(receipt@.params =~= seq![text(scope@), text(Seq::<char>::empty()), text(decision_id@), text(decision@)]);
    vec![clear, receipt]
}

/// The statement marking a receipt delivered.
pub fn delivered_statement(scope: &ScopeId, target: &str, decision_id: &str) -> (st: Statement)
    ensures
        st@.sql == DELIVERED_SQL@,
        st@.params == seq![text(scope@), text(target@), text(decision_id@)],
{
    let st = Statement::with_params(DELIVERED_SQL, vec![scope.value(), Value::text(target), Value::text(decision_id)]);
    assert(st@.params =~= seq![text(scope@), text(target@), text(decision_id@)]);
    st
}

/// Whether a batch finished its operation: the readiness recheck, the last
/// statement of the batch, changed exactly one receipt.
pub fn drained(last_rows_affected: Option<u64>) -> (b: bool)
    ensures
        b == (last_rows_affected == Some(1u64)),
{
    match last_rows_affected {
        Some(n) => n == 1,
        None => false,
    }
}

} // verus!
