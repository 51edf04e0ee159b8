//! Statements as plain values, staged into a caller's transaction.
//!
//! A repository in this crate executes nothing: it appends statements and
//! outbox work to a [`TxnBuilder`], and the caller submits the whole batch as
//! one transaction. The types here hold exactly what the store is handed: the
//! statement's text, its parameters in order, and the serialized work.

use vstd::prelude::*;

use crate::text::spec_decimal;

verus! {

/// One bound parameter.
#[derive(Debug)]
pub enum Value {
    /// SQL `NULL`.
    Null,
    /// A 64-bit integer.
    Integer(i64),
    /// Text.
    Text(String),
    /// Bytes.
    Blob(Vec<u8>),
}

/// A parameter, as the contracts speak of it.
pub enum ValueView {
    /// SQL `NULL`.
    Null,
    /// A 64-bit integer.
    Integer(i64),
    /// Text.
    Text(Seq<char>),
    /// Bytes.
    Blob(Seq<u8>),
}

impl View for Value {
    type V = ValueView;

    open spec fn view(&self) -> ValueView {
        match self {
            Value::Null => ValueView::Null,
            Value::Integer(i) => ValueView::Integer(*i),
            Value::Text(s) => ValueView::Text(s@),
            Value::Blob(b) => ValueView::Blob(b@),
        }
    }
}

/// The text value of `s`.
pub open spec fn text(s: Seq<char>) -> ValueView {
    ValueView::Text(s)
}

/// `NULL` when absent, the text otherwise.
pub open spec fn opt_text(s: Option<Seq<char>>) -> ValueView {
    match s {
        Some(t) => ValueView::Text(t),
        None => ValueView::Null,
    }
}

impl Value {
    /// A text parameter copied from `s`.
    pub fn text(s: &str) -> (v: Value)
        ensures
            v@ == text(s@),
    {
        Value::Text(s.to_owned())
    }

    /// A text parameter, or `NULL`.
    pub fn opt_text(s: Option<String>) -> (v: Value)
        ensures
            v@ == opt_text(
                match s {
                    Some(t) => Some(t@),
                    None => None,
                },
            ),
    {
        match s {
            Some(t) => Value::Text(t),
            None => Value::Null,
        }
    }
}

/// One statement: its text and its parameters in binding order.
#[derive(Debug)]
pub struct Statement {
    /// The SQL text.
    pub sql: String,
    /// The parameters, `$1` first.
    pub params: Vec<Value>,
}

/// A statement, as the contracts speak of it.
pub struct StatementView {
    /// The SQL text.
    pub sql: Seq<char>,
    /// The parameters, `$1` first.
    pub params: Seq<ValueView>,
}

/// The view of every parameter.
pub open spec fn params_view(params: Seq<Value>) -> Seq<ValueView> {
    params.map_values(|v: Value| v@)
}

impl View for Statement {
    type V = StatementView;

    open spec fn view(&self) -> StatementView {
        StatementView { sql: self.sql@, params: params_view(self.params@) }
    }
}

impl Statement {
    /// A statement over `sql` with `params`.
    pub fn with_params(sql: &str, params: Vec<Value>) -> (s: Statement)
        ensures
            s@ == (StatementView { sql: sql@, params: params_view(params@) }),
    {
        Statement { sql: sql.to_owned(), params }
    }
}

/// The work a write owes downstream, carried as the serialized envelope the
/// caller built; it is staged beside the statements and commits with them.
#[derive(Debug)]
pub struct Envelope {
    /// The envelope's serialized bytes.
    pub bytes: Vec<u8>,
}

/// One staged unit of a transaction.
#[derive(Debug)]
pub enum Step {
    /// A statement.
    Sql(Statement),
    /// Outbox work.
    Outbox(Envelope),
}

/// A staged unit, as the contracts speak of it.
pub enum StepView {
    /// A statement.
    Sql(StatementView),
    /// Outbox work, by its bytes.
    Outbox(Seq<u8>),
}

impl View for Step {
    type V = StepView;

    open spec fn view(&self) -> StepView {
        match self {
            Step::Sql(s) => StepView::Sql(s@),
            Step::Outbox(e) => StepView::Outbox(e.bytes@),
        }
    }
}

/// The view of a run of steps is the run of their views.
pub proof fn lemma_steps_view_subrange(s: Seq<Step>, a: int, b: int)
    requires
        0 <= a <= b <= s.len(),
    ensures
        steps_view(s.subrange(a, b)) == steps_view(s).subrange(a, b),
{
    assert(steps_view(s.subrange(a, b)) =~= steps_view(s).subrange(a, b));
}

/// The statements a caller will submit as one transaction.
pub struct TxnBuilder {
    steps: Vec<Step>,
}

/// The view of every step.
pub open spec fn steps_view(steps: Seq<Step>) -> Seq<StepView> {
    steps.map_values(|s: Step| s@)
}

/// A decimal digit.
pub open spec fn is_digit(c: char) -> bool {
    '0' <= c && c <= '9'
}

/// The text by which a statement compares (or sets) `column` against a
/// placeholder written with `marker` (`$` or `?`), before its number.
pub open spec fn comparison(column: Seq<char>, marker: char) -> Seq<char> {
    seq![' '] + column + seq![' ', '=', ' ', marker]
}

/// `p` stands in `s` at `i`.
pub open spec fn occurs_at(s: Seq<char>, p: Seq<char>, i: int) -> bool {
    &&& 0 <= i
    &&& i + p.len() <= s.len()
    &&& s.subrange(i, i + p.len()) == p
}

/// `sql` writes `lead` followed by placeholder number `k`, with no further
/// digit after the number.
pub open spec fn mentions(sql: Seq<char>, lead: Seq<char>, k: nat) -> bool {
    exists|i: int|
        #[trigger] occurs_at(sql, lead + spec_decimal(k as u64), i) && (i + (lead + spec_decimal(k as u64)).len()
            == sql.len() || !is_digit(sql[i + (lead + spec_decimal(k as u64)).len()]))
}

/// The statement writes `lead` before a placeholder that is bound to
/// `value`.
pub open spec fn binds_at(st: StatementView, lead: Seq<char>, value: ValueView) -> bool {
    exists|k: nat| 1 <= k <= st.params.len() && #[trigger] mentions(st.sql, lead, k) && st.params[k - 1] == value
}

/// The statement compares `column` with a `$` placeholder that is bound to
/// `value`.
pub open spec fn binds(st: StatementView, column: Seq<char>, value: ValueView) -> bool {
    binds_at(st, comparison(column, '$'), value)
}

/// A placeholder written out in a statement's text after `lead`, between
/// `pre` and `post`, and bound to `value` at its position, is one the
/// statement binds there.
pub proof fn lemma_binds_at(st: StatementView, pre: Seq<char>, lead: Seq<char>, k: nat, post: Seq<char>, value: ValueView)
    requires
        st.sql == pre + (lead + spec_decimal(k as u64)) + post,
        post.len() == 0 || !is_digit(post[0]),
        1 <= k <= st.params.len(),
        st.params[k - 1] == value,
    ensures
        binds_at(st, lead, value),
{
    let p = lead + spec_decimal(k as u64);
    let i = pre.len() as int;
    assert(st.sql.subrange(i, i + p.len()) =~= p);
    assert(occurs_at(st.sql, p, i));
    if post.len() > 0 {
        assert(st.sql[i + p.len()] == post[0]);
    }
    assert(mentions(st.sql, lead, k));
}

/// A placeholder found in a statement's text at `i`, after `lead`, and bound
/// to `value`, is one the statement binds there.
pub proof fn lemma_binds_found(st: StatementView, lead: Seq<char>, k: nat, i: int, value: ValueView)
    requires
        occurs_at(st.sql, lead + spec_decimal(k as u64), i),
        i + (lead + spec_decimal(k as u64)).len() == st.sql.len() || !is_digit(
            st.sql[i + (lead + spec_decimal(k as u64)).len()],
        ),
        1 <= k <= st.params.len(),
        st.params[k - 1] == value,
    ensures
        binds_at(st, lead, value),
{
    assert(mentions(st.sql, lead, k));
}

/// A placeholder written at the very end of a text is mentioned there.
pub proof fn lemma_mentions_at_end(pre: Seq<char>, lead: Seq<char>, k: nat)
    ensures
        mentions(pre + (lead + spec_decimal(k as u64)), lead, k),
{
    let p = lead + spec_decimal(k as u64);
    let s = pre + p;
    assert(s.subrange(pre.len() as int, (pre.len() + p.len()) as int) =~= p);
    assert(occurs_at(s, p, pre.len() as int));
}

/// What a text mentions, it still mentions with more text written before it.
pub proof fn lemma_mentions_after(a: Seq<char>, b: Seq<char>, lead: Seq<char>, k: nat)
    requires
        mentions(b, lead, k),
    ensures
        mentions(a + b, lead, k),
{
    let p = lead + spec_decimal(k as u64);
    let i = choose|i: int| #[trigger] occurs_at(b, p, i) && (i + p.len() == b.len() || !is_digit(b[i + p.len()]));
    let s = a + b;
    let j = a.len() + i;
    assert(s.subrange(j, j + p.len()) =~= b.subrange(i, i + p.len()));
    assert(occurs_at(s, p, j));
    if i + p.len() < b.len() {
        assert(s[j + p.len()] == b[i + p.len()]);
    }
}

/// What a text mentions, it still mentions with more text written after it,
/// when that text does not begin with a digit.
pub proof fn lemma_mentions_before(a: Seq<char>, b: Seq<char>, lead: Seq<char>, k: nat)
    requires
        mentions(a, lead, k),
        b.len() == 0 || !is_digit(b[0]),
    ensures
        mentions(a + b, lead, k),
{
    let p = lead + spec_decimal(k as u64);
    let i = choose|i: int| #[trigger] occurs_at(a, p, i) && (i + p.len() == a.len() || !is_digit(a[i + p.len()]));
    let s = a + b;
    assert(s.subrange(i, i + p.len()) =~= a.subrange(i, i + p.len()));
    assert(occurs_at(s, p, i));
    if i + p.len() < a.len() {
        assert(s[i + p.len()] == a[i + p.len()]);
    } else if b.len() > 0 {
        assert(s[i + p.len()] == b[0]);
    }
}

/// A statement as a staged step.
pub open spec fn sql_step(sql: Seq<char>, params: Seq<ValueView>) -> StepView {
    StepView::Sql(StatementView { sql, params })
}

impl View for TxnBuilder {
    type V = Seq<StepView>;

    closed spec fn view(&self) -> Seq<StepView> {
        steps_view(self.steps@)
    }
}

impl TxnBuilder {
    /// An empty batch.
    pub fn new() -> (t: TxnBuilder)
        ensures
            t@ == Seq::<StepView>::empty(),
    {
        let t = TxnBuilder { steps: Vec::new() };
        assert(t@ =~= Seq::<StepView>::empty());
        t
    }

    /// Append a statement.
    pub fn push(&mut self, statement: Statement)
        ensures
            final(self)@ == old(self)@.push(StepView::Sql(statement@)),
    {
        let ghost before = self.steps@;
        self.steps.push(Step::Sql(statement));
        assert(steps_view(self.steps@) =~= steps_view(before).push(StepView::Sql(statement@)));
    }

    /// Append outbox work.
    pub fn stage_outbox(&mut self, work: Envelope)
        ensures
            final(self)@ == old(self)@.push(StepView::Outbox(work.bytes@)),
    {
        let ghost before = self.steps@;
        let ghost bytes = work.bytes@;
        self.steps.push(Step::Outbox(work));
        assert(steps_view(self.steps@) =~= steps_view(before).push(StepView::Outbox(bytes)));
    }

    /// How many steps are staged.
    pub fn len(&self) -> (n: usize)
        ensures
            n == self@.len(),
    {
        self.steps.len()
    }

    /// Whether nothing is staged.
    pub fn is_empty(&self) -> (b: bool)
        ensures
            b == (self@.len() == 0),
    {
        self.steps.len() == 0
    }

    /// The staged steps, in order.
    pub fn into_steps(self) -> (steps: Vec<Step>)
        ensures
            steps_view(steps@) == self@,
    {
        self.steps
    }
}

} // verus!
