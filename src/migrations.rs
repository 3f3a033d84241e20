//! The migration ledger and its reconciliation against a declared list.
//!
//! Statements are modelled by their character sequences. Entries whose text
//! starts with the comment marker `--` are advisory: they are never executed
//! and never compared.

use vstd::prelude::*;

verus! {

/// The table that records applied migrations.
pub const LEDGER_TABLE: &'static str = "_turbosql_migrations";

/// Renames the ledger table from the name that earlier versions gave it.
pub const RENAME_LEGACY_LEDGER: &'static str =
    "ALTER TABLE turbosql_migrations RENAME TO _turbosql_migrations";

/// Creates the ledger table.
pub const CREATE_LEDGER: &'static str =
    "CREATE TABLE _turbosql_migrations (sequence INTEGER PRIMARY KEY AUTOINCREMENT, migration TEXT NOT NULL)";

/// Reads the ledger in the order in which it was written.
pub const SELECT_LEDGER: &'static str =
    "SELECT migration FROM _turbosql_migrations ORDER BY sequence";

/// Appends a statement to the ledger.
pub const INSERT_LEDGER: &'static str =
    "INSERT INTO _turbosql_migrations(migration) VALUES(?)";

/// Tuning applied to every new connection.
pub const TUNING_PRAGMAS: &'static str =
    "PRAGMA auto_vacuum=INCREMENTAL; PRAGMA journal_mode=WAL; PRAGMA wal_autocheckpoint=8000; PRAGMA synchronous=NORMAL;";

/// Characters of every string of a sequence, in order.
pub open spec fn texts(v: Seq<String>) -> Seq<Seq<char>> {
    v.map_values(|s: String| s@)
}

/// Whether a statement is advisory: it starts with `--`.
pub open spec fn is_comment_spec(s: Seq<char>) -> bool {
    s.len() >= 2 && s[0] == '-' && s[1] == '-'
}

/// The entries of `s` that are not comments, in their order.
pub open spec fn without_comments(s: Seq<Seq<char>>) -> Seq<Seq<char>>
    decreases s.len(),
{
    if s.len() == 0 {
        Seq::empty()
    } else {
        let rest = without_comments(s.drop_last());
        if is_comment_spec(s.last()) {
            rest
        } else {
            rest.push(s.last())
        }
    }
}

/// `a` is an initial segment of `b`.
pub open spec fn is_prefix_of(a: Seq<Seq<char>>, b: Seq<Seq<char>>) -> bool {
    a.len() <= b.len() && a == b.subrange(0, a.len() as int)
}

/// The ledger `rows` can be brought up to `target`: its applied statements
/// are an initial segment of the declared ones.
pub open spec fn reconcilable(rows: Seq<Seq<char>>, target: Seq<Seq<char>>) -> bool {
    is_prefix_of(without_comments(rows), without_comments(target))
}

/// The declared statements that the ledger `rows` has not applied yet.
pub open spec fn pending(rows: Seq<Seq<char>>, target: Seq<Seq<char>>) -> Seq<Seq<char>> {
    let t = without_comments(target);
    t.subrange(without_comments(rows).len() as int, t.len() as int)
}

/// Why a ledger cannot be brought up to a declared list.
pub enum MigrationError {
    /// At position `index` the ledger holds `applied` where `declared` is declared.
    Divergence { index: usize, applied: String, declared: String },
    /// The ledger holds `applied_count` statements, more than the
    /// `declared_count` declared ones,
    /// which agree with its first ones.
    AheadOfTarget { applied_count: usize, declared_count: usize },
}

/// What a reconciliation of `rows` against `target` yields: the statements
/// that are run, in order, or the reason it is refused.
pub open spec fn reconcile_result(
    rows: Seq<Seq<char>>,
    target: Seq<Seq<char>>,
    r: Result<Vec<String>, MigrationError>,
) -> bool {
    let a = without_comments(rows);
    let t = without_comments(target);
    match r {
        Ok(p) => reconcilable(rows, target) && texts(p@) == pending(rows, target),
        Err(MigrationError::Divergence { index, applied, declared }) => {
            &&& index < a.len()
            &&& index < t.len()
            &&& a.subrange(0, index as int) == t.subrange(0, index as int)
            &&& applied@ == a[index as int]
            &&& declared@ == t[index as int]
            &&& applied@ != declared@
        },
        Err(MigrationError::AheadOfTarget { applied_count, declared_count }) => {
            &&& applied_count == a.len()
            &&& declared_count == t.len()
            &&& t.len() < a.len()
            &&& is_prefix_of(t, a)
        },
    }
}

/// Whether `s` starts with the comment marker `--`.
pub fn is_comment(s: &str) -> (r: bool)
    ensures
        r == is_comment_spec(s@),
{
    s.unicode_len() >= 2 && s.get_char(0) == '-' && s.get_char(1) == '-'
}

/// The entries of `v` that are not comments, in their order.
pub fn filter_comments(v: &Vec<String>) -> (r: Vec<String>)
    ensures
        texts(r@) == without_comments(texts(v@)),
{
    let mut r: Vec<String> = Vec::new();
    let mut i: usize = 0;
    while i < v.len()
        invariant
            i <= v.len(),
            texts(r@) == without_comments(texts(v@.subrange(0, i as int))),
        decreases v.len() - i,
    {
        proof {
            assert(v@.subrange(0, i + 1).drop_last() == v@.subrange(0, i as int));
            assert(texts(v@.subrange(0, i + 1)).drop_last() == texts(v@.subrange(0, i as int)));
        }
        if !is_comment(v[i].as_str()) {
            let ghost before = r@;
            r.push(v[i].clone());
            assert(texts(r@) == texts(before).push(v@[i as int]@));
        }
        i = i + 1;
    }
    assert(v@.subrange(0, v.len() as int) == v@);
    r
}

/// Compares the ledger `rows` with the declared list `target` position by
/// position, comments left out of both, and returns the declared statements
/// that the ledger lacks, or why the two cannot be reconciled.
pub fn plan_migrations(rows: &Vec<String>, target: &Vec<String>) -> (r: Result<
    Vec<String>,
    MigrationError,
>)
    ensures
        reconcile_result(texts(rows@), texts(target@), r),
{
    let a = filter_comments(rows);
    let t = filter_comments(target);
    let ghost sa = texts(a@);
    let ghost st = texts(t@);
    let mut i: usize = 0;
    while i < a.len() && i < t.len()
        invariant
            sa == texts(a@),
            st == texts(t@),
            sa == without_comments(texts(rows@)),
            st == without_comments(texts(target@)),
            i <= a.len(),
            i <= t.len(),
            sa.subrange(0, i as int) == st.subrange(0, i as int),
        decreases a.len() - i,
    {
        if a[i] != t[i] {
            let applied = a[i].clone();
            let declared = t[i].clone();
            assert(sa[i as int] == applied@ && st[i as int] == declared@);
            return Err(MigrationError::Divergence { index: i, applied, declared });
        }
        proof {
            assert(sa.subrange(0, i + 1) == sa.subrange(0, i as int).push(sa[i as int]));
            assert(st.subrange(0, i + 1) == st.subrange(0, i as int).push(st[i as int]));
        }
        i = i + 1;
    }
    if i < a.len() {
        proof {
            assert(sa.subrange(0, st.len() as int) == st.subrange(0, st.len() as int));
            assert(st.subrange(0, st.len() as int) == st);
        }
        return Err(MigrationError::AheadOfTarget { applied_count: a.len(), declared_count: t.len() });
    }
    assert(sa.subrange(0, sa.len() as int) == sa);
    let mut p: Vec<String> = Vec::new();
    let mut j: usize = i;
    while j < t.len()
        invariant
            st == texts(t@),
            sa == without_comments(texts(rows@)),
            st == without_comments(texts(target@)),
            i == sa.len(),
            i <= j <= t.len(),
            texts(p@) == st.subrange(i as int, j as int),
        decreases t.len() - j,
    {
        p.push(t[j].clone());
        assert(st.subrange(i as int, j + 1) == st.subrange(i as int, j as int).push(st[j as int]));
        j = j + 1;
    }
    Ok(p)
}

/// The append-only record of the statements applied to a database, in the
/// order in which they were applied.
pub struct Ledger {
    rows: Vec<String>,
}

impl View for Ledger {
    type V = Seq<Seq<char>>;

    closed spec fn view(&self) -> Seq<Seq<char>> {
        texts(self.rows@)
    }
}

impl Ledger {
    /// A ledger with no entry.
    pub fn new() -> (r: Ledger)
        ensures
            r@ == Seq::<Seq<char>>::empty(),
    {
        Ledger { rows: Vec::new() }
    }

    /// The ledger made of the rows read back from storage, in sequence order.
    pub fn from_rows(rows: Vec<String>) -> (r: Ledger)
        ensures
            r@ == texts(rows@),
    {
        Ledger { rows }
    }

    /// The rows of the ledger, comments included.
    pub fn rows(&self) -> (r: &Vec<String>)
        ensures
            texts(r@) == self@,
    {
        &self.rows
    }

    /// The applied statements, comments left out.
    pub fn applied(&self) -> (r: Vec<String>)
        ensures
            texts(r@) == without_comments(self@),
    {
        filter_comments(&self.rows)
    }

    /// Brings the ledger up to `target`: returns the statements to run, in
    /// order, each of which is appended to the ledger. When the two cannot be
    /// reconciled the ledger is left as it was.
    pub fn reconcile(&mut self, target: &Vec<String>) -> (r: Result<Vec<String>, MigrationError>)
        ensures
            reconcile_result(old(self)@, texts(target@), r),
            r is Ok ==> final(self)@ == old(self)@ + texts(r->Ok_0@),
            r is Err ==> final(self)@ == old(self)@,
    {
        let r = plan_migrations(&self.rows, target);
        if let Ok(p) = &r {
            let mut k: usize = 0;
            while k < p.len()
                invariant
                    k <= p.len(),
                    texts(self.rows@) == old(self)@ + texts(p@.subrange(0, k as int)),
                decreases p.len() - k,
            {
                let ghost before = self.rows@;
                self.rows.push(p[k].clone());
                assert(texts(p@.subrange(0, k + 1)) == texts(p@.subrange(0, k as int)).push(p@[k as int]@));
                assert(texts(self.rows@) == texts(before).push(p@[k as int]@));
                k = k + 1;
            }
            assert(p@.subrange(0, p.len() as int) == p@);
        }
        r
    }
}

proof fn lemma_without_comments_concat(a: Seq<Seq<char>>, b: Seq<Seq<char>>)
    ensures
        without_comments(a + b) == without_comments(a) + without_comments(b),
    decreases b.len(),
{
    if b.len() == 0 {
        assert(a + b == a);
    } else {
        lemma_without_comments_concat(a, b.drop_last());
        assert((a + b).drop_last() == a + b.drop_last());
        assert((a + b).last() == b.last());
    }
}

proof fn lemma_without_comments_clean(s: Seq<Seq<char>>)
    ensures
        forall|k: int| 0 <= k < without_comments(s).len() ==> !is_comment_spec(
            #[trigger] without_comments(s)[k],
        ),
        without_comments(s).len() <= s.len(),
    decreases s.len(),
{
    if s.len() > 0 {
        lemma_without_comments_clean(s.drop_last());
    }
}

proof fn lemma_without_comments_keeps_clean(s: Seq<Seq<char>>)
    requires
        forall|k: int| 0 <= k < s.len() ==> !is_comment_spec(#[trigger] s[k]),
    ensures
        without_comments(s) == s,
    decreases s.len(),
{
    if s.len() > 0 {
        lemma_without_comments_keeps_clean(s.drop_last());
        assert(s.drop_last().push(s.last()) == s);
    }
}

proof fn lemma_without_comments_idempotent(s: Seq<Seq<char>>)
    ensures
        without_comments(without_comments(s)) == without_comments(s),
{
    lemma_without_comments_clean(s);
    lemma_without_comments_keeps_clean(without_comments(s));
}

/// Bringing a ledger whose applied statements are an initial segment of the
/// declared ones up to date leaves it holding exactly the declared
/// statements; what is run is the rest of them, once each, in order, and no
/// comment is among it.
pub proof fn lemma_reconcile_reaches_target(rows: Seq<Seq<char>>, target: Seq<Seq<char>>)
    requires
        reconcilable(rows, target),
    ensures
        pending(rows, target) == without_comments(target).subrange(
            without_comments(rows).len() as int,
            without_comments(target).len() as int,
        ),
        without_comments(rows + pending(rows, target)) == without_comments(target),
        forall|k: int|
            0 <= k < pending(rows, target).len() ==> !is_comment_spec(
                #[trigger] pending(rows, target)[k],
            ),
{
    let a = without_comments(rows);
    let t = without_comments(target);
    let p = pending(rows, target);
    lemma_without_comments_clean(target);
    assert forall|k: int| 0 <= k < p.len() implies !is_comment_spec(#[trigger] p[k]) by {
        assert(p[k] == t[a.len() + k]);
    }
    lemma_without_comments_keeps_clean(p);
    lemma_without_comments_concat(rows, p);
    assert(a + p == t);
}

/// A second reconciliation against the same declared list runs nothing.
pub proof fn lemma_reconcile_idempotent(rows: Seq<Seq<char>>, target: Seq<Seq<char>>)
    requires
        reconcilable(rows, target),
    ensures
        reconcilable(rows + pending(rows, target), target),
        pending(rows + pending(rows, target), target) == Seq::<Seq<char>>::empty(),
{
    lemma_reconcile_reaches_target(rows, target);
    let t = without_comments(target);
    assert(t.subrange(0, t.len() as int) == t);
}

/// A ledger that differs from the declared list at a position that both
/// hold cannot be reconciled with it.
pub proof fn lemma_divergence_refused(rows: Seq<Seq<char>>, target: Seq<Seq<char>>, i: int)
    requires
        0 <= i < without_comments(rows).len(),
        i < without_comments(target).len(),
        without_comments(rows)[i] != without_comments(target)[i],
    ensures
        !reconcilable(rows, target),
{
    if reconcilable(rows, target) {
        let a = without_comments(rows);
        assert(a[i] == without_comments(target).subrange(0, a.len() as int)[i]);
    }
}

/// Comments in the ledger or in the declared list change neither whether
/// the two can be reconciled nor what is run.
pub proof fn lemma_comments_ignored(rows: Seq<Seq<char>>, target: Seq<Seq<char>>)
    ensures
        reconcilable(rows, target) == reconcilable(
            without_comments(rows),
            without_comments(target),
        ),
        pending(rows, target) == pending(without_comments(rows), without_comments(target)),
{
    lemma_without_comments_idempotent(rows);
    lemma_without_comments_idempotent(target);
}

} // verus!
