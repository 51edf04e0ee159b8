//! The record vocabulary the store's statements are made of: memory ids,
//! kinds, states, trust classes and actors, each with the label its column
//! holds.

use vstd::prelude::*;

use crate::scope::Scope;
use crate::text::{hex, push_char, spec_hex, str_eq};

verus! {

/// The identity of one memory: a 128-bit UUID.
#[derive(Clone, Copy, Debug, PartialEq, Eq, Hash)]
pub struct MemoryId {
    /// The UUID's sixteen bytes, most significant first.
    pub bytes: [u8; 16],
}

/// The hyphenated lowercase rendering of sixteen UUID bytes: `8-4-4-4-12` hex digits.
pub open spec fn spec_uuid_text(b: Seq<u8>) -> Seq<char> {
    spec_hex(b.subrange(0, 4)) + seq!['-'] + spec_hex(b.subrange(4, 6)) + seq!['-']
        + spec_hex(b.subrange(6, 8)) + seq!['-'] + spec_hex(b.subrange(8, 10)) + seq!['-']
        + spec_hex(b.subrange(10, 16))
}

/// What `uuid::Uuid::parse_str` reads `text` as: the sixteen bytes, or nothing.
pub uninterp spec fn spec_uuid_parse(text: Seq<char>) -> Option<Seq<u8>>;

/// The bytes of an optional id.
pub open spec fn bytes_opt(r: Option<[u8; 16]>) -> Option<Seq<u8>> {
    match r {
        Some(b) => Some(b@),
        None => None,
    }
}

/// `uuid::Uuid::parse_str`: the UUID's bytes when `text` is one of the
/// renderings the crate reads, `None` otherwise. Stated besides: sixteen bytes
/// on success, and the hyphenated rendering reads back as the bytes it
/// renders.
#[verifier::external_body]
fn uuid_parse(text: &str) -> (r: Option<[u8; 16]>)
    ensures
        bytes_opt(r) == spec_uuid_parse(text@),
        forall|b: Seq<u8>|
            #![trigger spec_uuid_text(b)]
            b.len() == 16 && text@ == spec_uuid_text(b) ==> bytes_opt(r) == Some(b),
{
    uuid::Uuid::parse_str(text).ok().map(|u| *u.as_bytes())
}

impl MemoryId {
    /// The id over these sixteen bytes.
    pub fn from_bytes(bytes: [u8; 16]) -> (id: MemoryId)
        ensures
            id.bytes == bytes,
    {
        MemoryId { bytes }
    }

    /// The id as the columns hold it: hyphenated lowercase hex.
    pub open spec fn spec_text(&self) -> Seq<char> {
        spec_uuid_text(self.bytes@)
    }

    /// The id as the columns hold it: hyphenated lowercase hex.
    pub fn to_text(&self) -> (s: String)
        ensures
            s@ == self.spec_text(),
    {
        let b = &self.bytes;
        let mut s = hex(&b[0..4]);
        push_char(&mut s, '-');
        s.append(hex(&b[4..6]).as_str());
        push_char(&mut s, '-');
        s.append(hex(&b[6..8]).as_str());
        push_char(&mut s, '-');
        s.append(hex(&b[8..10]).as_str());
        push_char(&mut s, '-');
        s.append(hex(&b[10..16]).as_str());
        assert(s@ =~= self.spec_text());
        s
    }

    /// Whether two ids are the same id.
    pub fn same(&self, other: &MemoryId) -> (b: bool)
        ensures
            b == (self.bytes@ == other.bytes@),
    {
        let mut i: usize = 0;
        while i < 16
            invariant
                i <= 16,
                forall|j: int| 0 <= j < i ==> self.bytes@[j] == other.bytes@[j],
            decreases 16 - i,
        {
            if self.bytes[i] != other.bytes[i] {
                return false;
            }
            i = i + 1;
        }
        assert(self.bytes@ =~= other.bytes@);
        true
    }

    /// Read an id back from its text, or `None` when the text is not one.
    pub fn parse(text: &str) -> (r: Option<MemoryId>)
        ensures
            r matches Some(id) ==> spec_uuid_parse(text@) == Some(id.bytes@),
            r is None ==> spec_uuid_parse(text@) is None,
    {
        match uuid_parse(text) {
            Some(bytes) => Some(MemoryId { bytes }),
            None => None,
        }
    }
}


/// What a memory is.
#[derive(Clone, Copy, Debug, PartialEq, Eq, Hash, Structural)]
pub enum MemoryKind {
    /// A statement about the world.
    Fact,
    /// Something to do.
    Task,
    /// Something seen, not yet established.
    Observation,
    /// A memory that replaces a wrong one.
    Correction,
}

/// The label the `kind` column holds.
pub open spec fn kind_label(kind: MemoryKind) -> Seq<char> {
    match kind {
        MemoryKind::Fact => "fact"@,
        MemoryKind::Task => "task"@,
        MemoryKind::Observation => "observation"@,
        MemoryKind::Correction => "correction"@,
    }
}

/// Which kind, if any, carries `label`.
pub open spec fn kind_of_label(label: Seq<char>) -> Option<MemoryKind> {
    if label == "fact"@ {
        Some(MemoryKind::Fact)
    } else if label == "task"@ {
        Some(MemoryKind::Task)
    } else if label == "observation"@ {
        Some(MemoryKind::Observation)
    } else if label == "correction"@ {
        Some(MemoryKind::Correction)
    } else {
        None
    }
}

impl MemoryKind {
    /// The label the `kind` column holds.
    pub fn label(self) -> (s: &'static str)
        ensures
            s@ == kind_label(self),
    {
        match self {
            MemoryKind::Fact => "fact",
            MemoryKind::Task => "task",
            MemoryKind::Observation => "observation",
            MemoryKind::Correction => "correction",
        }
    }

    /// The kind a stored label names, or `None` for a label that is none of them.
    pub fn from_label(label: &str) -> (k: Option<MemoryKind>)
        ensures
            k == kind_of_label(label@),
    {
        if str_eq(label, "fact") {
            Some(MemoryKind::Fact)
        } else if str_eq(label, "task") {
            Some(MemoryKind::Task)
        } else if str_eq(label, "observation") {
            Some(MemoryKind::Observation)
        } else if str_eq(label, "correction") {
            Some(MemoryKind::Correction)
        } else {
            None
        }
    }
}

/// Labels name their kinds back: reading a kind's label gives the kind.
pub proof fn lemma_kind_label_round_trip(kind: MemoryKind)
    ensures
        kind_of_label(kind_label(kind)) == Some(kind),
{
    reveal_strlit("fact");
    reveal_strlit("task");
    reveal_strlit("observation");
    reveal_strlit("correction");
    assert("task"@[0] != "fact"@[0]);
    assert("observation"@.len() != "fact"@.len());
    assert("observation"@.len() != "task"@.len());
    assert("correction"@.len() != "fact"@.len());
    assert("correction"@.len() != "task"@.len());
    assert("correction"@.len() != "observation"@.len());
}

/// Where a memory is in its life.
#[derive(Clone, Copy, Debug, PartialEq, Eq)]
pub enum Status {
    /// True, and visible to retrieval.
    Active,
    /// Stored, but its origin could not be established.
    Quarantined,
    /// Replaced by the named later memory.
    Superseded(MemoryId),
    /// Past the moment it was true until.
    Expired,
    /// Forgotten.
    Erased,
}

/// The discriminant the `status` column holds.
pub open spec fn status_label(status: Status) -> Seq<char> {
    match status {
        Status::Active => "active"@,
        Status::Quarantined => "quarantined"@,
        Status::Superseded(_) => "superseded"@,
        Status::Expired => "expired"@,
        Status::Erased => "erased"@,
    }
}

impl Status {
    /// The discriminant the `status` column holds.
    pub fn label(&self) -> (s: &'static str)
        ensures
            s@ == status_label(*self),
    {
        match self {
            Status::Active => "active",
            Status::Quarantined => "quarantined",
            Status::Superseded(_) => "superseded",
            Status::Expired => "expired",
            Status::Erased => "erased",
        }
    }

    /// The successor a superseded memory names.
    pub fn superseded_by(&self) -> (by: Option<MemoryId>)
        ensures
            by == match *self {
                Status::Superseded(id) => Some(id),
                _ => None,
            },
    {
        match self {
            Status::Superseded(id) => Some(*id),
            _ => None,
        }
    }

    /// Whether this is the erased state.
    pub fn is_erased(&self) -> (b: bool)
        ensures
            b == (*self is Erased),
    {
        match self {
            Status::Erased => true,
            _ => false,
        }
    }
}

/// How far a memory may be acted on.
#[derive(Clone, Copy, Debug, PartialEq, Eq, Structural)]
pub enum TrustClass {
    /// Something somebody said.
    Assertion,
    /// Something to act on, which only a human can make.
    Instruction,
}

/// The label the `trust` column holds.
pub open spec fn trust_label(trust: TrustClass) -> Seq<char> {
    match trust {
        TrustClass::Assertion => "assertion"@,
        TrustClass::Instruction => "instruction"@,
    }
}

impl TrustClass {
    /// The label the `trust` column holds.
    pub fn label(self) -> (s: &'static str)
        ensures
            s@ == trust_label(self),
    {
        match self {
            TrustClass::Assertion => "assertion",
            TrustClass::Instruction => "instruction",
        }
    }

    /// Whether a memory of this class may be acted on.
    pub fn is_actionable(self) -> (b: bool)
        ensures
            b == (self == TrustClass::Instruction),
    {
        match self {
            TrustClass::Assertion => false,
            TrustClass::Instruction => true,
        }
    }
}

/// Who wrote a memory.
#[derive(Clone, Copy, Debug, PartialEq, Eq, Structural)]
pub enum ActorKind {
    /// A person.
    Human,
    /// A model acting for one.
    Agent,
    /// The system itself.
    System,
}

/// The label an actor kind is reported under.
pub open spec fn actor_kind_label(kind: ActorKind) -> Seq<char> {
    match kind {
        ActorKind::Human => "human"@,
        ActorKind::Agent => "agent"@,
        ActorKind::System => "system"@,
    }
}

impl ActorKind {
    /// The label an actor kind is reported under.
    pub fn label(self) -> (s: &'static str)
        ensures
            s@ == actor_kind_label(self),
    {
        match self {
            ActorKind::Human => "human",
            ActorKind::Agent => "agent",
            ActorKind::System => "system",
        }
    }
}


/// Where a claim came from: the system, and where in it.
#[derive(Clone, Debug, PartialEq, Eq)]
pub struct SourceRef {
    /// The source system's name.
    pub system: String,
    /// The id the source system gives the item, when it gives one.
    pub external_id: Option<String>,
    /// Where the item can be found, when that is known.
    pub locator: Option<String>,
}

/// The extractor that produced a derived claim, and its version.
#[derive(Clone, Debug, PartialEq, Eq)]
pub struct ExtractorVersion {
    /// The extractor's name.
    pub name: String,
    /// Its version.
    pub version: String,
}

/// A memory's provenance, as far as the store's columns record it.
#[derive(Clone, Debug, PartialEq, Eq)]
pub struct Provenance {
    /// Where it came from.
    pub source: SourceRef,
    /// When the source captured it.
    pub captured_at: u64,
    /// When this store ingested it.
    pub ingested_at: u64,
    /// The memories it was derived from, in the order they were named.
    pub derived_from: Vec<MemoryId>,
    /// The extractor that produced it, when one did.
    pub extractor: Option<ExtractorVersion>,
}

/// The text of an optional string.
pub open spec fn opt_view(s: Option<String>) -> Option<Seq<char>> {
    match s {
        Some(t) => Some(t@),
        None => None,
    }
}

/// A source reference as the contracts compare it.
pub open spec fn source_view(s: SourceRef) -> (Seq<char>, Option<Seq<char>>, Option<Seq<char>>) {
    (s.system@, opt_view(s.external_id), opt_view(s.locator))
}

/// An extractor as the contracts compare it.
pub open spec fn extractor_view(e: Option<ExtractorVersion>) -> Option<(Seq<char>, Seq<char>)> {
    match e {
        Some(x) => Some((x.name@, x.version@)),
        None => None,
    }
}

/// The ids' bytes, in order.
pub open spec fn ids_view(ids: Seq<MemoryId>) -> Seq<Seq<u8>> {
    ids.map_values(|id: MemoryId| id.bytes@)
}

/// Two provenances record the same origin.
pub open spec fn same_provenance(a: Provenance, b: Provenance) -> bool {
    &&& source_view(a.source) == source_view(b.source)
    &&& a.captured_at == b.captured_at
    &&& a.ingested_at == b.ingested_at
    &&& ids_view(a.derived_from@) == ids_view(b.derived_from@)
    &&& extractor_view(a.extractor) == extractor_view(b.extractor)
}

fn opt_eq(a: &Option<String>, b: &Option<String>) -> (r: bool)
    ensures
        r == (opt_view(*a) == opt_view(*b)),
{
    match a {
        Some(x) => match b {
            Some(y) => {
                let r = *x == *y;
                proof {
                    if !r {
                        assert(opt_view(*a)->Some_0 != opt_view(*b)->Some_0);
                    }
                }
                r
            },
            None => false,
        },
        None => b.is_none(),
    }
}

/// Whether a list of ids contains `id`.
pub fn ids_contain(ids: &Vec<MemoryId>, id: &MemoryId) -> (r: bool)
    ensures
        r == ids_view(ids@).contains(id.bytes@),
{
    let mut i: usize = 0;
    while i < ids.len()
        invariant
            i <= ids@.len(),
            forall|j: int| 0 <= j < i ==> ids@[j].bytes@ != id.bytes@,
        decreases ids@.len() - i,
    {
        if ids[i].same(id) {
            assert(ids_view(ids@)[i as int] == id.bytes@);
            return true;
        }
        i = i + 1;
    }
    proof {
        if ids_view(ids@).contains(id.bytes@) {
            let k = choose|k: int| 0 <= k < ids_view(ids@).len() && ids_view(ids@)[k] == id.bytes@;
            assert(ids@[k].bytes@ == id.bytes@);
        }
    }
    false
}

/// Whether two id lists name the same ids in the same order.
pub fn ids_eq(a: &Vec<MemoryId>, b: &Vec<MemoryId>) -> (r: bool)
    ensures
        r == (ids_view(a@) == ids_view(b@)),
{
    if a.len() != b.len() {
        proof {
            assert(ids_view(a@).len() != ids_view(b@).len());
        }
        return false;
    }
    let mut i: usize = 0;
    while i < a.len()
        invariant
            i <= a@.len(),
            a@.len() == b@.len(),
            forall|j: int| 0 <= j < i ==> a@[j].bytes@ == b@[j].bytes@,
        decreases a@.len() - i,
    {
        if !a[i].same(&b[i]) {
            proof {
                assert(ids_view(a@)[i as int] != ids_view(b@)[i as int]);
            }
            return false;
        }
        i = i + 1;
    }
    assert(ids_view(a@) =~= ids_view(b@));
    true
}

impl Provenance {
    /// Whether `self` and `other` record the same origin.
    pub fn same(&self, other: &Provenance) -> (r: bool)
        ensures
            r == same_provenance(*self, *other),
    {
        let ext = match (&self.extractor, &other.extractor) {
            (Some(x), Some(y)) => x.name == y.name && x.version == y.version,
            (None, None) => true,
            _ => false,
        };
        self.source.system == other.source.system
            && opt_eq(&self.source.external_id, &other.source.external_id)
            && opt_eq(&self.source.locator, &other.source.locator)
            && self.captured_at == other.captured_at
            && self.ingested_at == other.ingested_at
            && ids_eq(&self.derived_from, &other.derived_from)
            && ext
    }
}


/// What a memory says.
#[derive(Clone, Debug, PartialEq, Eq)]
pub struct MemoryBody {
    /// The text.
    pub text: String,
    /// A title, when the capture gave one.
    pub title: Option<String>,
    /// References to media the capture carried.
    pub media: Vec<String>,
}

/// Who wrote a memory.
#[derive(Clone, Debug, PartialEq, Eq)]
pub struct Actor {
    /// Person, agent or system.
    pub kind: ActorKind,
    /// The actor's id.
    pub id: String,
}

impl Actor {
    /// Whether the actor is a person.
    pub fn is_human(&self) -> (b: bool)
        ensures
            b == (self.kind == ActorKind::Human),
    {
        match self.kind {
            ActorKind::Human => true,
            _ => false,
        }
    }
}

/// One memory: the record the `record` column holds, as far as the store's
/// statements and decisions read it. Its importance weight is a
/// floating-point value and stays with the caller's full record.
#[derive(Clone, Debug, PartialEq, Eq)]
pub struct Memory {
    /// Its id.
    pub id: MemoryId,
    /// The scope it lives in.
    pub scope: Scope,
    /// What it is.
    pub kind: MemoryKind,
    /// Where it is in its life.
    pub status: Status,
    /// How far it may be acted on.
    pub trust: TrustClass,
    /// The record schema's version.
    pub schema_version: u16,
    /// What it says.
    pub body: MemoryBody,
    /// Who wrote it.
    pub actor: Actor,
    /// Where it came from.
    pub provenance: Provenance,
    /// When it was created.
    pub created: u64,
    /// When it last changed.
    pub updated: u64,
    /// How many times it has been used: its capture is one use, and each
    /// merge of a repeat into it another.
    pub uses: u64,
    /// When it was last used.
    pub last_used: u64,
}

} // verus!
