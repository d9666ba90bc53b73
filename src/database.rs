use crate::models::{PipelineError, VersionDownload};
use vstd::prelude::*;

verus! {

/// How the loader prepares the table before it inserts.
#[derive(Clone, Copy, Debug, PartialEq, Eq, Structural)]
pub enum ResetPolicy {
    /// Drop the table and create it anew: earlier rows, of every package, go.
    Destructive,
    /// Create the table where it is missing and keep what it holds.
    Additive,
}

/// One statement that the loader sends to storage.
#[derive(Clone, Copy, Debug, PartialEq, Eq, Structural)]
pub enum Statement {
    /// `DROP TABLE IF EXISTS crate_downloads`.
    DropTable,
    /// `CREATE TABLE IF NOT EXISTS crate_downloads (...)`.
    CreateTable,
    /// Insert one record, in a transaction of its own.
    Insert(VersionDownload),
}

/// The statements that prepare the table.
pub open spec fn reset_statements(policy: ResetPolicy) -> Seq<Statement> {
    match policy {
        ResetPolicy::Destructive => seq![Statement::DropTable, Statement::CreateTable],
        ResetPolicy::Additive => seq![Statement::CreateTable],
    }
}

/// One insert per record, in order.
pub open spec fn insert_statements(info: Seq<VersionDownload>) -> Seq<Statement> {
    info.map_values(|v: VersionDownload| Statement::Insert(v))
}

/// The statements that loading `info` sends: the reset, then the inserts.
pub open spec fn upload_plan(info: Seq<VersionDownload>, policy: ResetPolicy) -> Seq<Statement> {
    reset_statements(policy) + insert_statements(info)
}

/// Plans the load of a batch of records: the statements that reset the table
/// under `policy`, then one insert for each record, in the records' order.
/// Storage runs them in order; a failed reset statement stops the load, a
/// failed insert is set aside and the load goes on.
pub fn upload(info: Vec<VersionDownload>, policy: ResetPolicy) -> (r: Vec<Statement>)
    ensures
        r@ == upload_plan(info@, policy),
{
    let mut plan: Vec<Statement> = Vec::new();
    match policy {
        ResetPolicy::Destructive => {
            plan.push(Statement::DropTable);
            plan.push(Statement::CreateTable);
        },
        ResetPolicy::Additive => {
            plan.push(Statement::CreateTable);
        },
    }
    let ghost reset = plan@;
    assert(reset =~= reset_statements(policy));
    let mut i: usize = 0;
    while i < info.len()
        invariant
            0 <= i <= info.len(),
            plan@ =~= reset + insert_statements(info@.take(i as int)),
        decreases info.len() - i,
    {
        plan.push(Statement::Insert(info[i]));
        assert(info@.take(i + 1) =~= info@.take(i as int).push(info@[i as int]));
        assert(insert_statements(info@.take(i + 1)) =~= insert_statements(info@.take(i as int)).push(Statement::Insert(info@[i as int])));
        i = i + 1;
    }
    assert(info@.take(info.len() as int) =~= info@);
    plan
}

/// The SQL text of a statement; an insert takes its record's `id`, `date`,
/// `downloads` and `version` as parameters one to four.
pub open spec fn sql_text(s: Statement) -> Seq<char> {
    match s {
        Statement::DropTable => "DROP TABLE IF EXISTS crate_downloads"@,
        Statement::CreateTable => "CREATE TABLE IF NOT EXISTS crate_downloads (id INTEGER PRIMARY KEY, date TIMESTAMP WITH TIME ZONE NOT NULL, downloads BIGINT NOT NULL, version INTEGER NOT NULL)"@,
        Statement::Insert(_) => "INSERT INTO crate_downloads (id, date, downloads, version) VALUES ($1, $2, $3, $4)"@,
    }
}

/// The SQL text to run for a statement.
pub fn statement_sql(s: &Statement) -> (r: &'static str)
    ensures
        r@ == sql_text(*s),
{
    match s {
        Statement::DropTable => "DROP TABLE IF EXISTS crate_downloads",
        Statement::CreateTable => "CREATE TABLE IF NOT EXISTS crate_downloads (id INTEGER PRIMARY KEY, date TIMESTAMP WITH TIME ZONE NOT NULL, downloads BIGINT NOT NULL, version INTEGER NOT NULL)",
        Statement::Insert(_) => "INSERT INTO crate_downloads (id, date, downloads, version) VALUES ($1, $2, $3, $4)",
    }
}

/// The `crate_downloads` table: absent, or its rows keyed by primary key.
pub type TableState = Option<Map<i32, VersionDownload>>;

/// What one statement does to the table. An insert whose key is taken, or
/// into a missing table, fails and leaves the table as it was.
pub open spec fn apply_statement(t: TableState, s: Statement) -> TableState {
    match s {
        Statement::DropTable => None,
        Statement::CreateTable => match t {
            None => Some(Map::empty()),
            Some(m) => Some(m),
        },
        Statement::Insert(v) => match t {
            Some(m) => if m.contains_key(v.id) { Some(m) } else { Some(m.insert(v.id, v)) },
            None => None,
        },
    }
}

/// What a sequence of statements, run in order, does to the table.
pub open spec fn apply_statements(t: TableState, ss: Seq<Statement>) -> TableState
    decreases ss.len(),
{
    if ss.len() == 0 {
        t
    } else {
        apply_statement(apply_statements(t, ss.drop_last()), ss.last())
    }
}

/// Whether no two records share a primary key.
pub open spec fn distinct_ids(info: Seq<VersionDownload>) -> bool {
    forall|a: int, b: int| 0 <= a < b < info.len() ==> info[a].id != info[b].id
}

/// Whether a table holds exactly the records of `info`, field for field.
pub open spec fn holds_exactly(t: TableState, info: Seq<VersionDownload>) -> bool {
    &&& t is Some
    &&& forall|k: int| 0 <= k < info.len() ==> (#[trigger] t->Some_0.contains_key(info[k].id)) && t->Some_0[info[k].id] == info[k]
    &&& forall|id: i32| #[trigger] t->Some_0.contains_key(id) ==> exists|k: int| 0 <= k < info.len() && info[k].id == id
}

proof fn lemma_apply_concat(t: TableState, a: Seq<Statement>, b: Seq<Statement>)
    ensures
        apply_statements(t, a + b) == apply_statements(apply_statements(t, a), b),
    decreases b.len(),
{
    if b.len() == 0 {
        assert(a + b =~= a);
    } else {
        assert((a + b).drop_last() =~= a + b.drop_last());
        lemma_apply_concat(t, a, b.drop_last());
    }
}

proof fn lemma_inserts_into_empty(info: Seq<VersionDownload>)
    requires
        distinct_ids(info),
    ensures
        holds_exactly(apply_statements(Some(Map::empty()), insert_statements(info)), info),
    decreases info.len(),
{
    let t = apply_statements(Some(Map::empty()), insert_statements(info));
    if info.len() == 0 {
        assert(insert_statements(info) =~= Seq::<Statement>::empty());
    } else {
        let init = info.drop_last();
        let v = info.last();
        assert(insert_statements(info).drop_last() =~= insert_statements(init));
        lemma_inserts_into_empty(init);
        let t0 = apply_statements(Some(Map::empty()), insert_statements(init));
        assert(!t0->Some_0.contains_key(v.id)) by {
            if t0->Some_0.contains_key(v.id) {
                let k = choose|k: int| 0 <= k < init.len() && init[k].id == v.id;
                assert(info[k].id == info[info.len() - 1].id);
            }
        }
        assert(t == Some(t0->Some_0.insert(v.id, v)));
        assert forall|k: int| 0 <= k < info.len() implies (#[trigger] t->Some_0.contains_key(info[k].id)) && t->Some_0[info[k].id] == info[k] by {
            if k < info.len() - 1 {
                assert(info[k] == init[k]);
                assert(init[k].id != v.id);
            }
        }
        assert forall|id: i32| #[trigger] t->Some_0.contains_key(id) implies exists|k: int| 0 <= k < info.len() && info[k].id == id by {
            if id == v.id {
                assert(info[info.len() - 1].id == id);
            } else {
                assert(t0->Some_0.contains_key(id));
                let k = choose|k: int| 0 <= k < init.len() && init[k].id == id;
                assert(info[k].id == id);
            }
        }
    }
}

/// After a load under the destructive policy whose statements all ran, the
/// table holds exactly the records that were loaded, whatever it held before
/// (records with distinct primary keys).
pub proof fn lemma_destructive_load_stores_exactly(before: TableState, info: Seq<VersionDownload>)
    requires
        distinct_ids(info),
    ensures
        holds_exactly(apply_statements(before, upload_plan(info, ResetPolicy::Destructive)), info),
{
    let reset = reset_statements(ResetPolicy::Destructive);
    lemma_apply_concat(before, reset, insert_statements(info));
    assert(reset.drop_last() =~= seq![Statement::DropTable]);
    assert(reset.drop_last().drop_last() =~= Seq::<Statement>::empty());
    assert(apply_statements(before, reset.drop_last().drop_last()) == before);
    assert(apply_statements(before, reset.drop_last()) is None);
    assert(apply_statements(before, reset) == Some(Map::<i32, VersionDownload>::empty()));
    lemma_inserts_into_empty(info);
}

/// A record inserted into a table that has no row with its key is read back
/// by that key unchanged: same date, downloads and version.
pub proof fn lemma_insert_then_read(m: Map<i32, VersionDownload>, v: VersionDownload)
    requires
        !m.contains_key(v.id),
    ensures
        apply_statement(Some(m), Statement::Insert(v)) is Some,
        apply_statement(Some(m), Statement::Insert(v))->Some_0.contains_key(v.id),
        apply_statement(Some(m), Statement::Insert(v))->Some_0[v.id] == v,
{
}

/// The records of `info` whose insert had outcome `ok`, in order.
pub open spec fn with_outcome(info: Seq<VersionDownload>, outcomes: Seq<bool>, ok: bool) -> Seq<VersionDownload>
    decreases info.len(),
{
    if info.len() == 0 || outcomes.len() == 0 {
        Seq::empty()
    } else {
        let rest = with_outcome(info.drop_last(), outcomes.drop_last(), ok);
        if outcomes.last() == ok { rest.push(info.last()) } else { rest }
    }
}

/// What became of each record of a load.
#[derive(Clone, Debug)]
pub struct LoadReport {
    /// The records whose insert and commit succeeded, in order.
    pub stored: Vec<VersionDownload>,
    /// The records whose insert or commit failed, in order.
    pub failed: Vec<VersionDownload>,
}

/// Sorts the records of a load by the outcome of their inserts: `outcomes[i]`
/// tells whether the insert of `info[i]` was committed.
pub fn summarize_load(info: &Vec<VersionDownload>, outcomes: &Vec<bool>) -> (r: LoadReport)
    requires
        info.len() == outcomes.len(),
    ensures
        r.stored@ == with_outcome(info@, outcomes@, true),
        r.failed@ == with_outcome(info@, outcomes@, false),
{
    let mut stored: Vec<VersionDownload> = Vec::new();
    let mut failed: Vec<VersionDownload> = Vec::new();
    let mut i: usize = 0;
    while i < info.len()
        invariant
            0 <= i <= info.len(),
            info.len() == outcomes.len(),
            stored@ == with_outcome(info@.take(i as int), outcomes@.take(i as int), true),
            failed@ == with_outcome(info@.take(i as int), outcomes@.take(i as int), false),
        decreases info.len() - i,
    {
        assert(info@.take(i + 1).drop_last() =~= info@.take(i as int));
        assert(outcomes@.take(i + 1).drop_last() =~= outcomes@.take(i as int));
        if outcomes[i] {
            stored.push(info[i]);
        } else {
            failed.push(info[i]);
        }
        i = i + 1;
    }
    assert(info@.take(info.len() as int) =~= info@);
    assert(outcomes@.take(info.len() as int) =~= outcomes@);
    LoadReport { stored, failed }
}

/// How one statement of a load went in storage.
#[derive(Clone, Copy, Debug, PartialEq, Eq, Structural)]
pub enum StatementOutcome {
    /// The statement ran (an insert: it was committed).
    Done,
    /// The transaction for an insert could not be opened.
    BeginFailed,
    /// The statement failed (an insert: its insert or its commit failed).
    Failed,
}

/// What the loader does after a statement.
#[derive(Clone, Copy, Debug, PartialEq, Eq, Structural)]
pub enum LoadVerdict {
    /// Go on with the next statement.
    Continue,
    /// Go on; the insert's record was stored (`true`) or set aside (`false`).
    Recorded(bool),
    /// Stop the load with this error.
    Stop(PipelineError),
}

/// The loader's failure policy: a reset statement that fails stops the load,
/// as does an insert whose transaction cannot be opened; an insert or commit
/// that fails sets its record aside and the load goes on.
pub open spec fn spec_verdict(s: Statement, outcome: StatementOutcome) -> LoadVerdict {
    match s {
        Statement::Insert(_) => match outcome {
            StatementOutcome::Done => LoadVerdict::Recorded(true),
            StatementOutcome::BeginFailed => LoadVerdict::Stop(PipelineError::Persistence),
            StatementOutcome::Failed => LoadVerdict::Recorded(false),
        },
        _ => match outcome {
            StatementOutcome::Done => LoadVerdict::Continue,
            _ => LoadVerdict::Stop(PipelineError::Persistence),
        },
    }
}

/// Decides what the loader does after a statement with this outcome.
pub fn after_statement(s: &Statement, outcome: StatementOutcome) -> (r: LoadVerdict)
    ensures
        r == spec_verdict(*s, outcome),
{
    match s {
        Statement::Insert(_) => match outcome {
            StatementOutcome::Done => LoadVerdict::Recorded(true),
            StatementOutcome::BeginFailed => LoadVerdict::Stop(PipelineError::Persistence),
            StatementOutcome::Failed => LoadVerdict::Recorded(false),
        },
        _ => match outcome {
            StatementOutcome::Done => LoadVerdict::Continue,
            _ => LoadVerdict::Stop(PipelineError::Persistence),
        },
    }
}

proof fn lemma_insert_keys(m: Map<i32, VersionDownload>, info: Seq<VersionDownload>)
    ensures
        apply_statements(Some(m), insert_statements(info)) is Some,
        forall|id: i32| #[trigger] apply_statements(Some(m), insert_statements(info))->Some_0.contains_key(id)
            ==> m.contains_key(id) || exists|i: int| 0 <= i < info.len() && info[i].id == id,
    decreases info.len(),
{
    if info.len() == 0 {
        assert(insert_statements(info) =~= Seq::<Statement>::empty());
    } else {
        let init = info.drop_last();
        assert(insert_statements(info).drop_last() =~= insert_statements(init));
        lemma_insert_keys(m, init);
        let t0 = apply_statements(Some(m), insert_statements(init));
        let t = apply_statements(Some(m), insert_statements(info));
        assert forall|id: i32| #[trigger] t->Some_0.contains_key(id) implies m.contains_key(id)
            || exists|i: int| 0 <= i < info.len() && info[i].id == id by {
            if id == info.last().id {
                assert(info[info.len() - 1].id == id);
            } else {
                assert(t0->Some_0.contains_key(id));
                if !m.contains_key(id) {
                    let i = choose|i: int| 0 <= i < init.len() && init[i].id == id;
                    assert(info[i].id == id);
                }
            }
        }
    }
}

proof fn lemma_insert_lands(m: Map<i32, VersionDownload>, info: Seq<VersionDownload>, j: int)
    requires
        0 <= j < info.len(),
        !m.contains_key(info[j].id),
        forall|i: int| 0 <= i < info.len() && i != j ==> info[i].id != info[j].id,
    ensures
        apply_statements(Some(m), insert_statements(info)) is Some,
        apply_statements(Some(m), insert_statements(info))->Some_0.contains_key(info[j].id),
        apply_statements(Some(m), insert_statements(info))->Some_0[info[j].id] == info[j],
    decreases info.len(),
{
    let init = info.drop_last();
    let last = info.last();
    assert(insert_statements(info).drop_last() =~= insert_statements(init));
    lemma_insert_keys(m, init);
    let t0 = apply_statements(Some(m), insert_statements(init));
    if j == info.len() - 1 {
        if t0->Some_0.contains_key(last.id) {
            let i = choose|i: int| 0 <= i < init.len() && init[i].id == last.id;
            assert(info[i].id == info[j].id);
        }
    } else {
        assert forall|i: int| 0 <= i < init.len() && i != j implies init[i].id != init[j].id by {
            assert(info[i].id != info[j].id);
        }
        lemma_insert_lands(m, init, j);
        assert(last.id != info[j].id) by {
            assert(info[info.len() - 1].id != info[j].id);
        }
    }
}

/// Round trip: a record whose key occurs once among the records loaded, and
/// that no row of the table holds once it is reset, is read back by that key
/// unchanged (date, downloads and version) after the load, under either reset
/// policy, where the load's statements all ran.
pub proof fn lemma_upload_round_trip(before: TableState, info: Seq<VersionDownload>, policy: ResetPolicy, j: int)
    requires
        0 <= j < info.len(),
        forall|i: int| 0 <= i < info.len() && i != j ==> info[i].id != info[j].id,
        policy == ResetPolicy::Additive && before is Some ==> !before->Some_0.contains_key(info[j].id),
    ensures
        apply_statements(before, upload_plan(info, policy)) is Some,
        apply_statements(before, upload_plan(info, policy))->Some_0.contains_key(info[j].id),
        apply_statements(before, upload_plan(info, policy))->Some_0[info[j].id] == info[j],
{
    let reset = reset_statements(policy);
    lemma_apply_concat(before, reset, insert_statements(info));
    let m = match policy {
        ResetPolicy::Destructive => Map::<i32, VersionDownload>::empty(),
        ResetPolicy::Additive => match before {
            Some(b) => b,
            None => Map::<i32, VersionDownload>::empty(),
        },
    };
    if policy == ResetPolicy::Destructive {
        assert(reset.drop_last() =~= seq![Statement::DropTable]);
        assert(reset.drop_last().drop_last() =~= Seq::<Statement>::empty());
        assert(apply_statements(before, reset.drop_last().drop_last()) == before);
        assert(apply_statements(before, reset.drop_last()) is None);
    } else {
        assert(reset.drop_last() =~= Seq::<Statement>::empty());
        assert(apply_statements(before, reset.drop_last()) == before);
    }
    assert(apply_statements(before, reset) == Some(m));
    lemma_insert_lands(m, info, j);
}

} // verus!
