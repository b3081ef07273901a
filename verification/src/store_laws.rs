//! What holds of the store whatever rows it is given.

use crate::index::{
    lemma_values_insert, ChallengeRows, Constraint, FlagRows, Index, SolveRows, UserRows,
};
use vstd::prelude::*;

verus! {

/// A row of one of the four tables.
pub enum Row {
    User { id: i64, username: Seq<char> },
    Challenge { id: i64, name: Seq<char>, module: Seq<char> },
    Solve { user_id: i64, challenge_id: i64 },
    Flag { module: Seq<char>, flag: Seq<char> },
}

/// The rows of the persisted store, table by table, each table in the order
/// in which its rows were written.
pub struct Tables {
    pub users: UserRows,
    pub challenges: ChallengeRows,
    pub solves: SolveRows,
    pub flags: FlagRows,
}

impl Tables {
    /// The persisted store before anything is written.
    pub open spec fn empty() -> Tables {
        Tables {
            users: Seq::empty(),
            challenges: Seq::empty(),
            solves: Seq::empty(),
            flags: Seq::empty(),
        }
    }

    /// The persisted store after `row` is written to its table.
    pub open spec fn write(self, row: Row) -> Tables {
        match row {
            Row::User { id, username } => Tables { users: self.users.push((id, username)), ..self },
            Row::Challenge { id, name, module } => Tables {
                challenges: self.challenges.push((id, name, module)),
                ..self
            },
            Row::Solve { user_id, challenge_id } => Tables {
                solves: self.solves.push((user_id, challenge_id)),
                ..self
            },
            Row::Flag { module, flag } => Tables { flags: self.flags.push((module, flag)), ..self },
        }
    }

    /// The index that a fresh start builds from the persisted store.
    pub open spec fn rebuild(self) -> Result<Index, Constraint> {
        Index::empty().load(self.users, self.challenges, self.solves, self.flags)
    }
}

impl Index {
    /// The store after `row`, or the rule that refuses it.
    pub open spec fn insert(self, row: Row) -> Result<Index, Constraint> {
        match row {
            Row::User { id, username } => self.insert_user(username, id),
            Row::Challenge { id, name, module } => self.insert_challenge(id, name, module),
            Row::Solve { user_id, challenge_id } => self.insert_solve(user_id, challenge_id),
            Row::Flag { module, flag } => self.insert_flag(module, flag),
        }
    }

    /// Everything on record in `self` is on record in `later`, unchanged.
    pub open spec fn kept_by(self, later: Index) -> bool {
        &&& self.users.submap_of(later.users)
        &&& self.challenges.submap_of(later.challenges)
        &&& self.modules.submap_of(later.modules)
        &&& self.flags.submap_of(later.flags)
        &&& self.imported.is_prefix_of(later.imported)
        &&& self.solves.subset_of(later.solves)
    }
}

/// The live index after the given rows are offered one by one; a refused row
/// changes nothing.
pub open spec fn live(index: Index, rows: Seq<Row>) -> Index
    decreases rows.len(),
{
    if rows.len() == 0 {
        index
    } else {
        let before = live(index, rows.drop_last());
        match before.insert(rows.last()) {
            Ok(next) => next,
            Err(_) => before,
        }
    }
}

/// The persisted store after the given rows are offered one by one to an
/// index that was `index` at first; only accepted rows are written.
pub open spec fn persisted(tables: Tables, index: Index, rows: Seq<Row>) -> Tables
    decreases rows.len(),
{
    if rows.len() == 0 {
        tables
    } else {
        let before = persisted(tables, index, rows.drop_last());
        match live(index, rows.drop_last()).insert(rows.last()) {
            Ok(_) => before.write(rows.last()),
            Err(_) => before,
        }
    }
}

/// An accepted row leaves the schema intact and everything on record in
/// place: the store only grows.
pub proof fn lemma_insert_keeps(index: Index, row: Row)
    requires
        index.wf(),
        index.insert(row) is Ok,
    ensures
        index.insert(row)->Ok_0.wf(),
        index.kept_by(index.insert(row)->Ok_0),
{
    match row {
        Row::User { id, username } => {
            crate::index::lemma_insert_user_wf(index, username, id);
        },
        Row::Challenge { id, name, module } => {
            crate::index::lemma_insert_challenge_wf(index, id, name, module);
        },
        Row::Solve { user_id, challenge_id } => {
            crate::index::lemma_insert_solve_wf(index, user_id, challenge_id);
        },
        Row::Flag { module, flag } => {
            crate::index::lemma_insert_flag_wf(index, module, flag);
        },
    }
}

/// Once a challenge name is on record, a second challenge of that name is
/// refused, whatever its id and module, and the first keeps its id.
pub proof fn lemma_challenge_name_unique(
    index: Index,
    id: i64,
    name: Seq<char>,
    module: Seq<char>,
    other_id: i64,
    other_module: Seq<char>,
)
    requires
        index.insert_challenge(id, name, module) is Ok,
    ensures
        ({
            let next = index.insert_challenge(id, name, module)->Ok_0;
            &&& next.challenges[name] == id
            &&& next.insert_challenge(other_id, name, other_module) == Err::<Index, Constraint>(
                Constraint::UniqueChallengeName,
            )
        }),
{
}

/// A refused row is refused because a rule is broken, and an accepted row
/// breaks none: a challenge is accepted exactly where neither its name nor
/// its id is taken.
pub proof fn lemma_challenge_accepted_iff(index: Index, id: i64, name: Seq<char>, module: Seq<char>)
    ensures
        index.insert_challenge(id, name, module) is Ok <==> !index.challenges.contains_key(name)
            && !index.challenge_ids().contains(id),
{
}

/// Loading one more user row is loading the rows before it and then
/// inserting it.
proof fn lemma_load_users_push(base: Index, rows: UserRows, row: (i64, Seq<char>))
    ensures
        base.load_users(rows.push(row)) == match base.load_users(rows) {
            Ok(index) => index.insert_user(row.1, row.0),
            Err(e) => Err(e),
        },
    decreases rows.len(),
{
    let all = rows.push(row);
    if rows.len() == 0 {
        match base.insert_user(row.1, row.0) {
            Ok(next) => {
                assert(next.load_users(all.drop_first()) == Ok::<Index, Constraint>(next));
            },
            Err(_) => {},
        }
    } else {
        assert(all.drop_first() =~= rows.drop_first().push(row));
        match base.insert_user(rows[0].1, rows[0].0) {
            Ok(next) => {
                lemma_load_users_push(next, rows.drop_first(), row);
            },
            Err(_) => {},
        }
    }
}

/// Loading one more challenge row is loading the rows before it and then
/// inserting it.
proof fn lemma_load_challenges_push(
    base: Index,
    rows: ChallengeRows,
    row: (i64, Seq<char>, Seq<char>),
)
    ensures
        base.load_challenges(rows.push(row)) == match base.load_challenges(rows) {
            Ok(index) => index.insert_challenge(row.0, row.1, row.2),
            Err(e) => Err(e),
        },
    decreases rows.len(),
{
    let all = rows.push(row);
    if rows.len() == 0 {
        match base.insert_challenge(row.0, row.1, row.2) {
            Ok(next) => {
                assert(next.load_challenges(all.drop_first()) == Ok::<Index, Constraint>(next));
            },
            Err(_) => {},
        }
    } else {
        assert(all.drop_first() =~= rows.drop_first().push(row));
        match base.insert_challenge(rows[0].0, rows[0].1, rows[0].2) {
            Ok(next) => {
                lemma_load_challenges_push(next, rows.drop_first(), row);
            },
            Err(_) => {},
        }
    }
}

/// Loading one more solve row is loading the rows before it and then
/// inserting it.
proof fn lemma_load_solves_push(base: Index, rows: SolveRows, row: (i64, i64))
    ensures
        base.load_solves(rows.push(row)) == match base.load_solves(rows) {
            Ok(index) => index.insert_solve(row.0, row.1),
            Err(e) => Err(e),
        },
    decreases rows.len(),
{
    let all = rows.push(row);
    if rows.len() == 0 {
        match base.insert_solve(row.0, row.1) {
            Ok(next) => {
                assert(next.load_solves(all.drop_first()) == Ok::<Index, Constraint>(next));
            },
            Err(_) => {},
        }
    } else {
        assert(all.drop_first() =~= rows.drop_first().push(row));
        match base.insert_solve(rows[0].0, rows[0].1) {
            Ok(next) => {
                lemma_load_solves_push(next, rows.drop_first(), row);
            },
            Err(_) => {},
        }
    }
}

/// Loading one more flag row is loading the rows before it and then
/// inserting it.
proof fn lemma_load_flags_push(base: Index, rows: FlagRows, row: (Seq<char>, Seq<char>))
    ensures
        base.load_flags(rows.push(row)) == match base.load_flags(rows) {
            Ok(index) => index.insert_flag(row.0, row.1),
            Err(e) => Err(e),
        },
    decreases rows.len(),
{
    let all = rows.push(row);
    if rows.len() == 0 {
        match base.insert_flag(row.0, row.1) {
            Ok(next) => {
                assert(next.load_flags(all.drop_first()) == Ok::<Index, Constraint>(next));
            },
            Err(_) => {},
        }
    } else {
        assert(all.drop_first() =~= rows.drop_first().push(row));
        match base.insert_flag(rows[0].0, rows[0].1) {
            Ok(next) => {
                lemma_load_flags_push(next, rows.drop_first(), row);
            },
            Err(_) => {},
        }
    }
}

/// A user that is accepted after some challenge rows is accepted before
/// them, and the rows then load to the same store.
proof fn lemma_user_before_challenges(
    base: Index,
    rows: ChallengeRows,
    username: Seq<char>,
    id: i64,
)
    requires
        base.load_challenges(rows) is Ok,
        base.load_challenges(rows)->Ok_0.insert_user(username, id) is Ok,
    ensures
        base.insert_user(username, id) is Ok,
        base.insert_user(username, id)->Ok_0.load_challenges(rows) == base.load_challenges(
            rows,
        )->Ok_0.insert_user(username, id),
    decreases rows.len(),
{
    if rows.len() > 0 {
        let first = base.insert_challenge(rows[0].0, rows[0].1, rows[0].2)->Ok_0;
        lemma_user_before_challenges(first, rows.drop_first(), username, id);
        let moved = base.insert_user(username, id)->Ok_0;
        assert(moved.insert_challenge(rows[0].0, rows[0].1, rows[0].2) == Ok::<Index, Constraint>(
            first.insert_user(username, id)->Ok_0,
        ));
    }
}

/// A user that is accepted after some solve rows is accepted before them,
/// and the rows then load to the same store.
proof fn lemma_user_before_solves(base: Index, rows: SolveRows, username: Seq<char>, id: i64)
    requires
        base.load_solves(rows) is Ok,
        base.load_solves(rows)->Ok_0.insert_user(username, id) is Ok,
    ensures
        base.insert_user(username, id) is Ok,
        base.insert_user(username, id)->Ok_0.load_solves(rows) == base.load_solves(
            rows,
        )->Ok_0.insert_user(username, id),
    decreases rows.len(),
{
    if rows.len() > 0 {
        let first = base.insert_solve(rows[0].0, rows[0].1)->Ok_0;
        lemma_user_before_solves(first, rows.drop_first(), username, id);
        let moved = base.insert_user(username, id)->Ok_0;
        lemma_values_insert(base.users, username, id);
        assert(moved.insert_solve(rows[0].0, rows[0].1) == Ok::<Index, Constraint>(
            first.insert_user(username, id)->Ok_0,
        ));
    }
}

/// A user that is accepted after some flag rows is accepted before them,
/// and the rows then load to the same store.
proof fn lemma_user_before_flags(base: Index, rows: FlagRows, username: Seq<char>, id: i64)
    requires
        base.load_flags(rows) is Ok,
        base.load_flags(rows)->Ok_0.insert_user(username, id) is Ok,
    ensures
        base.insert_user(username, id) is Ok,
        base.insert_user(username, id)->Ok_0.load_flags(rows) == base.load_flags(
            rows,
        )->Ok_0.insert_user(username, id),
    decreases rows.len(),
{
    if rows.len() > 0 {
        let first = base.insert_flag(rows[0].0, rows[0].1)->Ok_0;
        lemma_user_before_flags(first, rows.drop_first(), username, id);
        let moved = base.insert_user(username, id)->Ok_0;
        assert(moved.insert_flag(rows[0].0, rows[0].1) == Ok::<Index, Constraint>(
            first.insert_user(username, id)->Ok_0,
        ));
    }
}

/// A challenge that is accepted after some solve rows is accepted before
/// them, and the rows then load to the same store.
proof fn lemma_challenge_before_solves(
    base: Index,
    rows: SolveRows,
    id: i64,
    name: Seq<char>,
    module: Seq<char>,
)
    requires
        base.load_solves(rows) is Ok,
        base.load_solves(rows)->Ok_0.insert_challenge(id, name, module) is Ok,
    ensures
        base.insert_challenge(id, name, module) is Ok,
        base.insert_challenge(id, name, module)->Ok_0.load_solves(rows) == base.load_solves(
            rows,
        )->Ok_0.insert_challenge(id, name, module),
    decreases rows.len(),
{
    if rows.len() > 0 {
        let first = base.insert_solve(rows[0].0, rows[0].1)->Ok_0;
        lemma_challenge_before_solves(first, rows.drop_first(), id, name, module);
        let moved = base.insert_challenge(id, name, module)->Ok_0;
        lemma_values_insert(base.challenges, name, id);
        assert(moved.insert_solve(rows[0].0, rows[0].1) == Ok::<Index, Constraint>(
            first.insert_challenge(id, name, module)->Ok_0,
        ));
    }
}

/// A challenge that is accepted after some flag rows is accepted before
/// them, and the rows then load to the same store.
proof fn lemma_challenge_before_flags(
    base: Index,
    rows: FlagRows,
    id: i64,
    name: Seq<char>,
    module: Seq<char>,
)
    requires
        base.load_flags(rows) is Ok,
        base.load_flags(rows)->Ok_0.insert_challenge(id, name, module) is Ok,
    ensures
        base.insert_challenge(id, name, module) is Ok,
        base.insert_challenge(id, name, module)->Ok_0.load_flags(rows) == base.load_flags(
            rows,
        )->Ok_0.insert_challenge(id, name, module),
    decreases rows.len(),
{
    if rows.len() > 0 {
        let first = base.insert_flag(rows[0].0, rows[0].1)->Ok_0;
        lemma_challenge_before_flags(first, rows.drop_first(), id, name, module);
        let moved = base.insert_challenge(id, name, module)->Ok_0;
        assert(moved.insert_flag(rows[0].0, rows[0].1) == Ok::<Index, Constraint>(
            first.insert_challenge(id, name, module)->Ok_0,
        ));
    }
}

/// A solve that is accepted after some flag rows is accepted before them,
/// and the rows then load to the same store.
proof fn lemma_solve_before_flags(base: Index, rows: FlagRows, user_id: i64, challenge_id: i64)
    requires
        base.load_flags(rows) is Ok,
        base.load_flags(rows)->Ok_0.insert_solve(user_id, challenge_id) is Ok,
    ensures
        base.insert_solve(user_id, challenge_id) is Ok,
        base.insert_solve(user_id, challenge_id)->Ok_0.load_flags(rows) == base.load_flags(
            rows,
        )->Ok_0.insert_solve(user_id, challenge_id),
    decreases rows.len(),
{
    if rows.len() > 0 {
        let first = base.insert_flag(rows[0].0, rows[0].1)->Ok_0;
        lemma_solve_before_flags(first, rows.drop_first(), user_id, challenge_id);
        let moved = base.insert_solve(user_id, challenge_id)->Ok_0;
        assert(moved.insert_flag(rows[0].0, rows[0].1) == Ok::<Index, Constraint>(
            first.insert_solve(user_id, challenge_id)->Ok_0,
        ));
    }
}

/// Where the index is what a fresh start would build from the persisted
/// store, it still is after a row that the index accepts is written to the
/// store: rebuilding from the store with the row gives the index with the
/// row.
pub proof fn lemma_rebuild_after_write(tables: Tables, row: Row)
    requires
        tables.rebuild() is Ok,
        tables.rebuild()->Ok_0.insert(row) is Ok,
    ensures
        tables.write(row).rebuild() == tables.rebuild()->Ok_0.insert(row),
{
    let start = Index::empty();
    let a = start.load_users(tables.users)->Ok_0;
    let b = a.load_challenges(tables.challenges)->Ok_0;
    let c = b.load_solves(tables.solves)->Ok_0;
    match row {
        Row::User { id, username } => {
            lemma_user_before_flags(c, tables.flags, username, id);
            lemma_user_before_solves(b, tables.solves, username, id);
            lemma_user_before_challenges(a, tables.challenges, username, id);
            lemma_load_users_push(start, tables.users, (id, username));
        },
        Row::Challenge { id, name, module } => {
            lemma_challenge_before_flags(c, tables.flags, id, name, module);
            lemma_challenge_before_solves(b, tables.solves, id, name, module);
            lemma_load_challenges_push(a, tables.challenges, (id, name, module));
        },
        Row::Solve { user_id, challenge_id } => {
            lemma_solve_before_flags(c, tables.flags, user_id, challenge_id);
            lemma_load_solves_push(b, tables.solves, (user_id, challenge_id));
        },
        Row::Flag { module, flag } => {
            lemma_load_flags_push(c, tables.flags, (module, flag));
        },
    }
}

/// Index and store converge. Start with an index that is what a fresh start
/// would build from the persisted store. Offer any rows, in any order and
/// mixed over the tables, and write to the store those that the index
/// accepts. Then the index kept live is again what a fresh start would build
/// from the store.
pub proof fn lemma_index_store_convergence(tables: Tables, rows: Seq<Row>)
    requires
        tables.rebuild() is Ok,
    ensures
        persisted(tables, tables.rebuild()->Ok_0, rows).rebuild() == Ok::<Index, Constraint>(
            live(tables.rebuild()->Ok_0, rows),
        ),
    decreases rows.len(),
{
    let index = tables.rebuild()->Ok_0;
    if rows.len() > 0 {
        lemma_index_store_convergence(tables, rows.drop_last());
        let before = live(index, rows.drop_last());
        if before.insert(rows.last()) is Ok {
            lemma_rebuild_after_write(persisted(tables, index, rows.drop_last()), rows.last());
        }
    }
}

/// From nothing: after any rows are offered to an empty index and the
/// accepted ones written to an empty store, rebuilding from the store gives
/// the index kept live.
pub proof fn lemma_convergence_from_empty(rows: Seq<Row>)
    ensures
        persisted(Tables::empty(), Index::empty(), rows).rebuild() == Ok::<Index, Constraint>(
            live(Index::empty(), rows),
        ),
{
    lemma_index_store_convergence(Tables::empty(), rows);
}

/// A map that lies within a second, which lies within a third, lies within
/// the third.
proof fn lemma_submap_transitive<V>(
    first: Map<Seq<char>, V>,
    second: Map<Seq<char>, V>,
    third: Map<Seq<char>, V>,
)
    requires
        first.submap_of(second),
        second.submap_of(third),
    ensures
        first.submap_of(third),
{
    assert forall|k: Seq<char>| #[trigger] first.dom().contains(k) implies #[trigger] third.dom().contains(
        k,
    ) && first[k] == third[k] by {
        assert(second.dom().contains(k));
        assert(third.dom().contains(k));
    }
}

/// What is kept by a later store is kept by every store after that.
pub proof fn lemma_kept_by_transitive(first: Index, second: Index, third: Index)
    requires
        first.kept_by(second),
        second.kept_by(third),
    ensures
        first.kept_by(third),
{
    lemma_submap_transitive(first.users, second.users, third.users);
    lemma_submap_transitive(first.challenges, second.challenges, third.challenges);
    lemma_submap_transitive(first.modules, second.modules, third.modules);
    lemma_submap_transitive(first.flags, second.flags, third.flags);
    assert(first.imported =~= third.imported.subrange(0, first.imported.len() as int));
}

/// The live index obeys the schema whatever rows it was offered, and keeps
/// everything it had.
pub proof fn lemma_live_keeps(index: Index, rows: Seq<Row>)
    requires
        index.wf(),
    ensures
        live(index, rows).wf(),
        index.kept_by(live(index, rows)),
    decreases rows.len(),
{
    if rows.len() > 0 {
        lemma_live_keeps(index, rows.drop_last());
        let before = live(index, rows.drop_last());
        if before.insert(rows.last()) is Ok {
            lemma_insert_keeps(before, rows.last());
            lemma_kept_by_transitive(index, before, before.insert(rows.last())->Ok_0);
        }
    }
}

impl Index {
    /// The store without the user of that name and, as the tables cascade,
    /// without that user's solves.
    pub open spec fn without_user(self, username: Seq<char>) -> Index {
        if self.users.contains_key(username) {
            let id = self.users[username];
            Index {
                users: self.users.remove(username),
                solves: self.solves.filter(|p: (i64, i64)| p.0 != id),
                ..self
            }
        } else {
            self
        }
    }

    /// The store without the challenge of that name and, as the tables
    /// cascade, without the solves of that challenge.
    pub open spec fn without_challenge(self, name: Seq<char>) -> Index {
        if self.challenges.contains_key(name) {
            let id = self.challenges[name];
            Index {
                challenges: self.challenges.remove(name),
                modules: self.modules.remove(name),
                solves: self.solves.filter(|p: (i64, i64)| p.1 != id),
                ..self
            }
        } else {
            self
        }
    }
}

/// The values of an injective map that loses a key are its old values
/// without that of the key.
proof fn lemma_values_remove(m: Map<Seq<char>, i64>, k: Seq<char>)
    requires
        m.is_injective(),
        m.contains_key(k),
    ensures
        m.remove(k).values() =~= m.values().remove(m[k]),
        m.remove(k).is_injective(),
{
    let n = m.remove(k);
    assert forall|x: i64| n.values().contains(x) <==> m.values().remove(m[k]).contains(x) by {
        if m.values().remove(m[k]).contains(x) {
            let i = choose|i: Seq<char>| #[trigger] m.dom().contains(i) && m[i] == x;
            assert(n.dom().contains(i) && n[i] == x);
        }
    }
}

/// Deleting a user cascades: with the user go the user's solves, and what
/// is left obeys the schema. Nothing else goes: the other users, every
/// challenge, every flag and the solves of the other users stay.
pub proof fn lemma_delete_user_cascades(index: Index, username: Seq<char>)
    requires
        index.wf(),
        index.users.contains_key(username),
    ensures
        ({
            let left = index.without_user(username);
            let id = index.users[username];
            &&& left.wf()
            &&& !left.users.contains_key(username)
            &&& !left.user_ids().contains(id)
            &&& forall|c: i64| !left.solves.contains((id, c))
            &&& forall|u: i64, c: i64|
                u != id ==> (left.solves.contains((u, c)) <==> index.solves.contains((u, c)))
            &&& forall|other: Seq<char>|
                other != username ==> left.users.index_opt(other) == index.users.index_opt(other)
            &&& left.challenges == index.challenges
            &&& left.modules == index.modules
            &&& left.flags == index.flags
            &&& left.imported == index.imported
        }),
{
    lemma_values_remove(index.users, username);
}

/// Deleting a challenge cascades: with the challenge go its solves, and
/// what is left obeys the schema. Nothing else goes.
pub proof fn lemma_delete_challenge_cascades(index: Index, name: Seq<char>)
    requires
        index.wf(),
        index.challenges.contains_key(name),
    ensures
        ({
            let left = index.without_challenge(name);
            let id = index.challenges[name];
            &&& left.wf()
            &&& !left.challenges.contains_key(name)
            &&& !left.challenge_ids().contains(id)
            &&& forall|u: i64| !left.solves.contains((u, id))
            &&& forall|u: i64, c: i64|
                c != id ==> (left.solves.contains((u, c)) <==> index.solves.contains((u, c)))
            &&& forall|other: Seq<char>|
                other != name ==> left.challenges.index_opt(other) == index.challenges.index_opt(
                    other,
                )
            &&& left.users == index.users
            &&& left.flags == index.flags
            &&& left.imported == index.imported
        }),
{
    lemma_values_remove(index.challenges, name);
}

/// Loaded user rows leave the schema intact.
proof fn lemma_load_users_wf(base: Index, rows: UserRows)
    requires
        base.wf(),
        base.load_users(rows) is Ok,
    ensures
        base.load_users(rows)->Ok_0.wf(),
    decreases rows.len(),
{
    if rows.len() > 0 {
        crate::index::lemma_insert_user_wf(base, rows[0].1, rows[0].0);
        lemma_load_users_wf(base.insert_user(rows[0].1, rows[0].0)->Ok_0, rows.drop_first());
    }
}

/// Loaded challenge rows leave the schema and the users intact.
proof fn lemma_load_challenges_wf(base: Index, rows: ChallengeRows)
    requires
        base.wf(),
        base.load_challenges(rows) is Ok,
    ensures
        base.load_challenges(rows)->Ok_0.wf(),
        base.load_challenges(rows)->Ok_0.users == base.users,
    decreases rows.len(),
{
    if rows.len() > 0 {
        crate::index::lemma_insert_challenge_wf(base, rows[0].0, rows[0].1, rows[0].2);
        lemma_load_challenges_wf(
            base.insert_challenge(rows[0].0, rows[0].1, rows[0].2)->Ok_0,
            rows.drop_first(),
        );
    }
}

/// Loaded solve rows leave the schema, the users and the challenges intact.
proof fn lemma_load_solves_wf(base: Index, rows: SolveRows)
    requires
        base.wf(),
        base.load_solves(rows) is Ok,
    ensures
        base.load_solves(rows)->Ok_0.wf(),
        base.load_solves(rows)->Ok_0.users == base.users,
        base.load_solves(rows)->Ok_0.challenges == base.challenges,
    decreases rows.len(),
{
    if rows.len() > 0 {
        crate::index::lemma_insert_solve_wf(base, rows[0].0, rows[0].1);
        lemma_load_solves_wf(base.insert_solve(rows[0].0, rows[0].1)->Ok_0, rows.drop_first());
    }
}

/// Loaded flag rows leave the schema, the users, the challenges and the
/// solves intact.
proof fn lemma_load_flags_wf(base: Index, rows: FlagRows)
    requires
        base.wf(),
        base.load_flags(rows) is Ok,
    ensures
        base.load_flags(rows)->Ok_0.wf(),
        base.load_flags(rows)->Ok_0.users == base.users,
        base.load_flags(rows)->Ok_0.challenges == base.challenges,
        base.load_flags(rows)->Ok_0.solves == base.solves,
    decreases rows.len(),
{
    if rows.len() > 0 {
        crate::index::lemma_insert_flag_wf(base, rows[0].0, rows[0].1);
        lemma_load_flags_wf(base.insert_flag(rows[0].0, rows[0].1)->Ok_0, rows.drop_first());
    }
}

/// What a fresh start builds obeys the schema.
pub proof fn lemma_rebuilt_obeys_schema(tables: Tables)
    requires
        tables.rebuild() is Ok,
    ensures
        tables.rebuild()->Ok_0.wf(),
{
    let start = Index::empty();
    lemma_load_users_wf(start, tables.users);
    let a = start.load_users(tables.users)->Ok_0;
    lemma_load_challenges_wf(a, tables.challenges);
    let b = a.load_challenges(tables.challenges)->Ok_0;
    lemma_load_solves_wf(b, tables.solves);
    let c = b.load_solves(tables.solves)->Ok_0;
    lemma_load_flags_wf(c, tables.flags);
}

/// The engine and the index agree. Where the index is what a fresh start
/// would build from the persisted store, a row that the store takes, in that
/// a fresh start would still succeed with it, is a row that the index
/// accepts; and the other way round.
pub proof fn lemma_store_and_index_agree(tables: Tables, row: Row)
    requires
        tables.rebuild() is Ok,
    ensures
        tables.write(row).rebuild() is Ok <==> tables.rebuild()->Ok_0.insert(row) is Ok,
{
    let index = tables.rebuild()->Ok_0;
    if index.insert(row) is Ok {
        lemma_rebuild_after_write(tables, row);
    }
    if tables.write(row).rebuild() is Ok {
        let start = Index::empty();
        lemma_load_users_wf(start, tables.users);
        let a = start.load_users(tables.users)->Ok_0;
        lemma_load_challenges_wf(a, tables.challenges);
        let b = a.load_challenges(tables.challenges)->Ok_0;
        lemma_load_solves_wf(b, tables.solves);
        let c = b.load_solves(tables.solves)->Ok_0;
        lemma_load_flags_wf(c, tables.flags);
        match row {
            Row::User { id, username } => {
                lemma_load_users_push(start, tables.users, (id, username));
            },
            Row::Challenge { id, name, module } => {
                lemma_load_challenges_push(a, tables.challenges, (id, name, module));
            },
            Row::Solve { user_id, challenge_id } => {
                lemma_load_solves_push(b, tables.solves, (user_id, challenge_id));
            },
            Row::Flag { module, flag } => {
                lemma_load_flags_push(c, tables.flags, (module, flag));
            },
        }
    }
}

} // verus!
