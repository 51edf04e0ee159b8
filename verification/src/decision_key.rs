//! The digest keys a refusal's Decision is written under.
//!
//! The chain is append-only, so a digest of a short body written into it
//! could be confirmed by guessing forever. The digest is therefore keyed:
//! HMAC-SHA-256 under a key minted for that one Decision, with the key in one
//! application-store row naming the scope and, for a quarantine, the memory.
//! Destroying the row makes exactly one digest unverifiable and leaves the
//! chain intact.

use vstd::prelude::*;

use crate::cursor::{hmac_sign, spec_hmac};
use crate::error::Error;
use crate::scope::{spec_scope_id, sql_seconds, seconds_to_sql, Scope, ScopeId};
use crate::sql::{opt_text, sql_step, text, Statement, StepView, TxnBuilder, Value, ValueView};
use crate::text::{hex, spec_hex, lemma_hex_len};
use crate::types::MemoryId;

use ring::rand::SecureRandom as _;

verus! {

/// The algorithm identifier every digest is stamped with.
pub const DIGEST_ALGORITHM: &'static str = "HMAC-SHA-256";

/// The length of a minted key, in bytes.
pub const KEY_BYTES: usize = 32;

/// The length of a key id, in bytes before hex encoding.
pub const ID_BYTES: usize = 16;

/// The refusal of a mint whose random source failed.
pub const MINT_REFUSED: &'static str = "the system random source would not mint a digest key";

/// `ring::rand::SystemRandom::fill` over `n` fresh bytes: the bytes, or
/// `None` when the system random source fails. What the bytes are is chance;
/// only their number is stated.
#[verifier::external_body]
fn random_bytes(n: usize) -> (r: Option<Vec<u8>>)
    ensures
        r matches Some(v) ==> v@.len() == n,
{
    let mut bytes = vec![0u8; n];
    match ring::rand::SystemRandom::new().fill(&mut bytes) {
        Ok(()) => Some(bytes),
        Err(_) => None,
    }
}

/// The id of one Decision's digest key.
#[derive(Clone, Debug, PartialEq, Eq, PartialOrd, Ord, Hash)]
pub struct DecisionKeyId(String);

impl View for DecisionKeyId {
    type V = Seq<char>;

    closed spec fn view(&self) -> Seq<char> {
        self.0@
    }
}

impl DecisionKeyId {
    /// The id a Decision carries, read back. No validation: a value that was
    /// never minted simply finds nothing.
    pub fn parse(id: String) -> (k: DecisionKeyId)
        ensures
            k@ == id@,
    {
        DecisionKeyId(id)
    }

    /// The id, as the Decision carries it and the row is keyed on.
    pub fn as_str(&self) -> (s: &str)
        ensures
            s@ == self@,
    {
        self.0.as_str()
    }
}

/// One Decision's digest key: the id that is public and the secret that is
/// not. It has no `Debug`, so its secret cannot reach a log line through one.
pub struct DecisionKey {
    id: DecisionKeyId,
    secret: Vec<u8>,
}

impl DecisionKey {
    /// The key's id.
    pub closed spec fn key_id(&self) -> Seq<char> {
        self.id@
    }

    /// The key's secret bytes.
    pub closed spec fn secret_bytes(&self) -> Seq<u8> {
        self.secret@
    }

    /// The key made of two independent draws: `secret`, which stays in the
    /// key row, and `id`, whose hex rendering is the id the Decision carries.
    /// The id is rendered from its own draw only, never from the secret.
    pub fn from_draws(secret: Vec<u8>, id: Vec<u8>) -> (k: DecisionKey)
        requires
            secret@.len() == KEY_BYTES,
            id@.len() == ID_BYTES,
        ensures
            k.secret_bytes() == secret@,
            k.key_id() == spec_hex(id@),
            k.key_id().len() == 2 * ID_BYTES,
    {
        proof {
            lemma_hex_len(id@);
        }
        DecisionKey { id: DecisionKeyId(hex(id.as_slice())), secret }
    }

    /// Mint a fresh key for one Decision: 32 secret bytes and a 16-byte id,
    /// each its own draw from the system random source, put together by
    /// [`Self::from_draws`].
    ///
    /// Refused with [`Error::Io`] when the random source fails.
    pub fn mint() -> (r: Result<DecisionKey, Error>)
        ensures
            r matches Ok(k) ==> k.secret_bytes().len() == KEY_BYTES && k.key_id().len() == 2
                * ID_BYTES && exists|b: Seq<u8>| b.len() == ID_BYTES && k.key_id() == spec_hex(b),
            r matches Err(e) ==> e is Io && e->Io_0@ == MINT_REFUSED@,
    {
        let secret = match random_bytes(KEY_BYTES) {
            Some(s) => s,
            None => {
                return Err(Error::Io(MINT_REFUSED.to_owned()));
            },
        };
        let id = match random_bytes(ID_BYTES) {
            Some(s) => s,
            None => {
                return Err(Error::Io(MINT_REFUSED.to_owned()));
            },
        };
        let ghost drawn = id@;
        let k = Self::from_draws(secret, id);
        assert(drawn.len() == ID_BYTES && k.key_id() == spec_hex(drawn));
        Ok(k)
    }

    /// The id, which the Decision carries.
    pub fn id(&self) -> (i: &DecisionKeyId)
        ensures
            i@ == self.key_id(),
    {
        &self.id
    }

    /// The keyed digest of `material`: the lowercase hex HMAC-SHA-256 under
    /// this key's secret.
    pub fn digest(&self, material: &[u8]) -> (d: String)
        ensures
            d@ == spec_hex(spec_hmac(self.secret_bytes(), material@)),
            d@.len() == 64,
    {
        let tag = hmac_sign(self.secret.as_slice(), material);
        proof {
            lemma_hex_len(tag@);
        }
        hex(tag.as_slice())
    }
}

/// The key row.
pub const INSERT_SQL: &'static str = "INSERT INTO decision_key (
        key_id, scope_id, memory_id, algorithm, secret, created
    ) VALUES ($1, $2, $3, $4, $5, $6)";

/// A key of one scope by its id.
pub const GET_SQL: &'static str = "SELECT secret FROM decision_key WHERE scope_id = $1 AND key_id = $2";

/// Every key covering one memory.
pub const DESTROY_MEMORY_SQL: &'static str = "DELETE FROM decision_key WHERE scope_id = $1 AND memory_id = $2";

/// Every key of one scope.
pub const DESTROY_SCOPE_SQL: &'static str = "DELETE FROM decision_key WHERE scope_id = $1";

/// The destruction of every key covering `memory`.
pub open spec fn destroy_memory_step(scope: Seq<char>, memory: MemoryId) -> StepView {
    sql_step(DESTROY_MEMORY_SQL@, seq![text(scope), text(memory.spec_text())])
}

/// The destruction of every key of a scope.
pub open spec fn destroy_scope_step(scope: Seq<char>) -> StepView {
    sql_step(DESTROY_SCOPE_SQL@, seq![text(scope)])
}

/// The `decision_key` table. Every statement names `scope_id`.
#[derive(Clone, Copy, Debug, Default, PartialEq, Eq)]
pub struct DecisionKeyRepo;

impl DecisionKeyRepo {
    /// Stage the key row for one Decision, in the caller's transaction.
    /// `memory` is present exactly when the verdict stored a row.
    pub fn stage(txn: &mut TxnBuilder, scope: &Scope, key: &DecisionKey, memory: Option<MemoryId>, at: u64)
        ensures
            final(txn)@ == old(txn)@.push(
                sql_step(
                    INSERT_SQL@,
                    seq![
                        text(key.key_id()),
                        text(spec_scope_id(*scope)),
                        opt_text(
                            match memory {
                                Some(m) => Some(m.spec_text()),
                                None => None,
                            },
                        ),
                        text(DIGEST_ALGORITHM@),
                        ValueView::Blob(key.secret_bytes()),
                        ValueView::Integer(sql_seconds(at)),
                    ],
                ),
            ),
    {
        let scope_id = ScopeId::of(scope);
        let memory_value = match memory {
            Some(m) => Value::Text(m.to_text()),
            None => Value::Null,
        };
        let st = Statement::with_params(
            INSERT_SQL,
            vec![
                Value::text(key.id.as_str()),
                scope_id.value(),
                memory_value,
                Value::text(DIGEST_ALGORITHM),
                Value::Blob(key.secret.clone()),
                Value::Integer(seconds_to_sql(at)),
            ],
        );
        proof {
            assert(st@.params =~= seq![
                text(key.key_id()),
                text(spec_scope_id(*scope)),
                opt_text(
                    match memory {
                        Some(m) => Some(m.spec_text()),
                        None => None,
                    },
                ),
                text(DIGEST_ALGORITHM@),
                ValueView::Blob(key.secret_bytes()),
                ValueView::Integer(sql_seconds(at)),
            ]);
        }
        txn.push(st);
    }

    /// The read of the key a Decision names, under its scope.
    pub fn get_statement(scope: &Scope, id: &DecisionKeyId) -> (st: Statement)
        ensures
            st@.sql == GET_SQL@,
            st@.params == seq![text(spec_scope_id(*scope)), text(id@)],
    {
        let st = Statement::with_params(GET_SQL, vec![ScopeId::of(scope).value(), Value::text(id.as_str())]);
        assert(st@.params =~= seq![text(spec_scope_id(*scope)), text(id@)]);
        st
    }

    /// The key a read found: the first row's secret under the id asked for.
    pub fn key_from_rows(id: &DecisionKeyId, rows: Vec<Vec<u8>>) -> (k: Option<DecisionKey>)
        ensures
            rows@.len() == 0 ==> k is None,
            rows@.len() > 0 ==> (k matches Some(key) && key.key_id() == id@ && key.secret_bytes()
                == rows@[0]@),
    {
        let mut rows = rows;
        if rows.len() == 0 {
            return None;
        }
        let secret = rows.swap_remove(0);
        Some(DecisionKey { id: DecisionKeyId(id.0.clone()), secret })
    }

    /// Stage the destruction of every key covering `memory`.
    pub fn stage_destroy_for_memory(txn: &mut TxnBuilder, scope: &Scope, memory: MemoryId)
        ensures
            final(txn)@ == old(txn)@.push(destroy_memory_step(spec_scope_id(*scope), memory)),
    {
        let st = Statement::with_params(
            DESTROY_MEMORY_SQL,
            vec![ScopeId::of(scope).value(), Value::Text(memory.to_text())],
        );
        assert(st@.params =~= seq![text(spec_scope_id(*scope)), text(memory.spec_text())]);
        txn.push(st);
    }

    /// Stage the destruction of every key in `scope`.
    pub fn stage_destroy_for_scope(txn: &mut TxnBuilder, scope: &Scope)
        ensures
            final(txn)@ == old(txn)@.push(destroy_scope_step(spec_scope_id(*scope))),
    {
        let st = Statement::with_params(DESTROY_SCOPE_SQL, vec![ScopeId::of(scope).value()]);
        assert(st@.params =~= seq![text(spec_scope_id(*scope))]);
        txn.push(st);
    }
}

} // verus!
