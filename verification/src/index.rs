//! The mathematical model of the local store: four tables and the rules
//! that every row must obey.

use vstd::prelude::*;

verus! {

/// A rule of the schema that a rejected row would have broken.
#[derive(Clone, Copy, Debug, PartialEq, Eq, Structural)]
pub enum Constraint {
    /// Two users may not share a username.
    UniqueUsername,
    /// Two users may not share an id.
    UniqueUserId,
    /// Two challenges may not share a name.
    UniqueChallengeName,
    /// Two challenges may not share an id.
    UniqueChallengeId,
    /// A module has one flag, set once.
    UniqueModule,
    /// A user solves a challenge once.
    UniqueSolve,
    /// A solve names a user that exists.
    SolveUser,
    /// A solve names a challenge that exists.
    SolveChallenge,
}

/// What the store knows, as plain mathematics.
pub struct Index {
    /// Username to user id.
    pub users: Map<Seq<char>, i64>,
    /// Challenge name to the id that the challenge platform gave it.
    pub challenges: Map<Seq<char>, i64>,
    /// Challenge name to the upstream module it belongs to.
    pub modules: Map<Seq<char>, Seq<char>>,
    /// Module id to the flag its challenges share.
    pub flags: Map<Seq<char>, Seq<char>>,
    /// The modules that have a flag, in the order they got it.
    pub imported: Seq<Seq<char>>,
    /// Pairs of user id and challenge id.
    pub solves: Set<(i64, i64)>,
}

impl Index {
    /// The store with no rows.
    pub open spec fn empty() -> Index {
        Index {
            users: Map::empty(),
            challenges: Map::empty(),
            modules: Map::empty(),
            flags: Map::empty(),
            imported: Seq::empty(),
            solves: Set::empty(),
        }
    }

    /// The ids in use by users.
    pub open spec fn user_ids(self) -> Set<i64> {
        self.users.values()
    }

    /// The ids in use by challenges.
    pub open spec fn challenge_ids(self) -> Set<i64> {
        self.challenges.values()
    }

    /// The schema holds: ids identify their rows, every challenge has a
    /// module, the import order lists exactly the modules with a flag, and
    /// every solve joins a user and a challenge that exist.
    pub open spec fn wf(self) -> bool {
        &&& self.users.is_injective()
        &&& self.challenges.is_injective()
        &&& self.modules.dom() == self.challenges.dom()
        &&& self.imported.no_duplicates()
        &&& forall|m: Seq<char>| self.flags.contains_key(m) <==> self.imported.contains(m)
        &&& forall|u: i64, c: i64| #[trigger]
            self.solves.contains((u, c)) ==> self.user_ids().contains(u)
                && self.challenge_ids().contains(c)
    }

    /// The store after a user row, or the rule that refuses the row.
    pub open spec fn insert_user(self, username: Seq<char>, id: i64) -> Result<Index, Constraint> {
        if self.users.contains_key(username) {
            Err(Constraint::UniqueUsername)
        } else if self.user_ids().contains(id) {
            Err(Constraint::UniqueUserId)
        } else {
            Ok(Index { users: self.users.insert(username, id), ..self })
        }
    }

    /// The store after a challenge row, or the rule that refuses the row.
    pub open spec fn insert_challenge(self, id: i64, name: Seq<char>, module: Seq<char>) -> Result<
        Index,
        Constraint,
    > {
        if self.challenges.contains_key(name) {
            Err(Constraint::UniqueChallengeName)
        } else if self.challenge_ids().contains(id) {
            Err(Constraint::UniqueChallengeId)
        } else {
            Ok(
                Index {
                    challenges: self.challenges.insert(name, id),
                    modules: self.modules.insert(name, module),
                    ..self
                },
            )
        }
    }

    /// The store after a module's flag row, or the rule that refuses the row.
    pub open spec fn insert_flag(self, module: Seq<char>, flag: Seq<char>) -> Result<
        Index,
        Constraint,
    > {
        if self.flags.contains_key(module) {
            Err(Constraint::UniqueModule)
        } else {
            Ok(
                Index {
                    flags: self.flags.insert(module, flag),
                    imported: self.imported.push(module),
                    ..self
                },
            )
        }
    }

    /// The store after a solve row, or the rule that refuses the row.
    pub open spec fn insert_solve(self, user_id: i64, challenge_id: i64) -> Result<
        Index,
        Constraint,
    > {
        if !self.user_ids().contains(user_id) {
            Err(Constraint::SolveUser)
        } else if !self.challenge_ids().contains(challenge_id) {
            Err(Constraint::SolveChallenge)
        } else if self.solves.contains((user_id, challenge_id)) {
            Err(Constraint::UniqueSolve)
        } else {
            Ok(Index { solves: self.solves.insert((user_id, challenge_id)), ..self })
        }
    }
}

/// User rows as read from the store: id, username.
pub type UserRows = Seq<(i64, Seq<char>)>;

/// Challenge rows as read from the store: id, name, module.
pub type ChallengeRows = Seq<(i64, Seq<char>, Seq<char>)>;

/// Solve rows as read from the store: user id, challenge id.
pub type SolveRows = Seq<(i64, i64)>;

/// Flag rows as read from the store: module id, flag.
pub type FlagRows = Seq<(Seq<char>, Seq<char>)>;

impl Index {
    /// The store after the user rows, taken in order, or the rule that the
    /// first refused row breaks.
    pub open spec fn load_users(self, rows: UserRows) -> Result<Index, Constraint>
        decreases rows.len(),
    {
        if rows.len() == 0 {
            Ok(self)
        } else {
            match self.insert_user(rows[0].1, rows[0].0) {
                Ok(next) => next.load_users(rows.drop_first()),
                Err(e) => Err(e),
            }
        }
    }

    /// The store after the challenge rows, taken in order, or the rule that
    /// the first refused row breaks.
    pub open spec fn load_challenges(self, rows: ChallengeRows) -> Result<Index, Constraint>
        decreases rows.len(),
    {
        if rows.len() == 0 {
            Ok(self)
        } else {
            match self.insert_challenge(rows[0].0, rows[0].1, rows[0].2) {
                Ok(next) => next.load_challenges(rows.drop_first()),
                Err(e) => Err(e),
            }
        }
    }

    /// The store after the solve rows, taken in order, or the rule that the
    /// first refused row breaks.
    pub open spec fn load_solves(self, rows: SolveRows) -> Result<Index, Constraint>
        decreases rows.len(),
    {
        if rows.len() == 0 {
            Ok(self)
        } else {
            match self.insert_solve(rows[0].0, rows[0].1) {
                Ok(next) => next.load_solves(rows.drop_first()),
                Err(e) => Err(e),
            }
        }
    }

    /// The store after the flag rows, taken in order, or the rule that the
    /// first refused row breaks.
    pub open spec fn load_flags(self, rows: FlagRows) -> Result<Index, Constraint>
        decreases rows.len(),
    {
        if rows.len() == 0 {
            Ok(self)
        } else {
            match self.insert_flag(rows[0].0, rows[0].1) {
                Ok(next) => next.load_flags(rows.drop_first()),
                Err(e) => Err(e),
            }
        }
    }

    /// The store after the user rows up to the first that is refused.
    pub open spec fn keep_users(self, rows: UserRows) -> Index
        decreases rows.len(),
    {
        if rows.len() == 0 {
            self
        } else {
            match self.insert_user(rows[0].1, rows[0].0) {
                Ok(next) => next.keep_users(rows.drop_first()),
                Err(_) => self,
            }
        }
    }

    /// The store after the challenge rows up to the first that is refused.
    pub open spec fn keep_challenges(self, rows: ChallengeRows) -> Index
        decreases rows.len(),
    {
        if rows.len() == 0 {
            self
        } else {
            match self.insert_challenge(rows[0].0, rows[0].1, rows[0].2) {
                Ok(next) => next.keep_challenges(rows.drop_first()),
                Err(_) => self,
            }
        }
    }

    /// The store after the solve rows up to the first that is refused.
    pub open spec fn keep_solves(self, rows: SolveRows) -> Index
        decreases rows.len(),
    {
        if rows.len() == 0 {
            self
        } else {
            match self.insert_solve(rows[0].0, rows[0].1) {
                Ok(next) => next.keep_solves(rows.drop_first()),
                Err(_) => self,
            }
        }
    }

    /// The store after the flag rows up to the first that is refused.
    pub open spec fn keep_flags(self, rows: FlagRows) -> Index
        decreases rows.len(),
    {
        if rows.len() == 0 {
            self
        } else {
            match self.insert_flag(rows[0].0, rows[0].1) {
                Ok(next) => next.keep_flags(rows.drop_first()),
                Err(_) => self,
            }
        }
    }

    /// The store after the rows of all four tables, taken table by table, up
    /// to the first row that is refused.
    pub open spec fn keep(
        self,
        users: UserRows,
        challenges: ChallengeRows,
        solves: SolveRows,
        flags: FlagRows,
    ) -> Index {
        let a = self.keep_users(users);
        if self.load_users(users) is Err {
            a
        } else {
            let b = a.keep_challenges(challenges);
            if a.load_challenges(challenges) is Err {
                b
            } else {
                let c = b.keep_solves(solves);
                if b.load_solves(solves) is Err {
                    c
                } else {
                    c.keep_flags(flags)
                }
            }
        }
    }

    /// The store after all four tables: users, then challenges, then solves,
    /// then flags.
    pub open spec fn load(
        self,
        users: UserRows,
        challenges: ChallengeRows,
        solves: SolveRows,
        flags: FlagRows,
    ) -> Result<Index, Constraint> {
        match self.load_users(users) {
            Ok(a) => match a.load_challenges(challenges) {
                Ok(b) => match b.load_solves(solves) {
                    Ok(c) => c.load_flags(flags),
                    Err(e) => Err(e),
                },
                Err(e) => Err(e),
            },
            Err(e) => Err(e),
        }
    }
}

/// The values of a map that gains a fresh key are its old values and the
/// new one.
pub proof fn lemma_values_insert<K, V>(m: Map<K, V>, k: K, v: V)
    requires
        !m.contains_key(k),
    ensures
        m.insert(k, v).values() =~= m.values().insert(v),
{
    let n = m.insert(k, v);
    assert forall|x: V| n.values().contains(x) <==> m.values().insert(v).contains(x) by {
        if n.values().contains(x) {
            let i = choose|i: K| #[trigger] n.dom().contains(i) && n[i] == x;
            if i != k {
                assert(m.dom().contains(i) && m[i] == x);
            }
        }
        if m.values().contains(x) {
            let i = choose|i: K| #[trigger] m.dom().contains(i) && m[i] == x;
            assert(n.dom().contains(i) && n[i] == x);
        }
        if x == v {
            assert(n.dom().contains(k) && n[k] == x);
        }
    }
}

/// An accepted user row leaves the schema intact.
pub proof fn lemma_insert_user_wf(idx: Index, username: Seq<char>, id: i64)
    requires
        idx.wf(),
        idx.insert_user(username, id) is Ok,
    ensures
        idx.insert_user(username, id)->Ok_0.wf(),
        idx.insert_user(username, id)->Ok_0.user_ids() == idx.user_ids().insert(id),
{
    let next = idx.insert_user(username, id)->Ok_0;
    lemma_values_insert(idx.users, username, id);
    assert forall|x: Seq<char>, y: Seq<char>|
        x != y && next.users.dom().contains(x) && next.users.dom().contains(y) implies #[trigger] next.users[x]
        != #[trigger] next.users[y] by {
        if x == username {
            assert(idx.users.dom().contains(y));
            assert(idx.user_ids().contains(idx.users[y]));
        } else if y == username {
            assert(idx.users.dom().contains(x));
            assert(idx.user_ids().contains(idx.users[x]));
        }
    }
}

/// An accepted challenge row leaves the schema intact.
pub proof fn lemma_insert_challenge_wf(idx: Index, id: i64, name: Seq<char>, module: Seq<char>)
    requires
        idx.wf(),
        idx.insert_challenge(id, name, module) is Ok,
    ensures
        idx.insert_challenge(id, name, module)->Ok_0.wf(),
        idx.insert_challenge(id, name, module)->Ok_0.challenge_ids() == idx.challenge_ids().insert(
            id,
        ),
{
    let next = idx.insert_challenge(id, name, module)->Ok_0;
    lemma_values_insert(idx.challenges, name, id);
    assert forall|x: Seq<char>, y: Seq<char>|
        x != y && next.challenges.dom().contains(x) && next.challenges.dom().contains(
            y,
        ) implies #[trigger] next.challenges[x] != #[trigger] next.challenges[y] by {
        if x == name {
            assert(idx.challenges.dom().contains(y));
            assert(idx.challenge_ids().contains(idx.challenges[y]));
        } else if y == name {
            assert(idx.challenges.dom().contains(x));
            assert(idx.challenge_ids().contains(idx.challenges[x]));
        }
    }
    assert(next.modules.dom() =~= next.challenges.dom());
}

/// An accepted flag row leaves the schema intact.
pub proof fn lemma_insert_flag_wf(idx: Index, module: Seq<char>, flag: Seq<char>)
    requires
        idx.wf(),
        idx.insert_flag(module, flag) is Ok,
    ensures
        idx.insert_flag(module, flag)->Ok_0.wf(),
{
    let next = idx.insert_flag(module, flag)->Ok_0;
    assert(!idx.imported.contains(module));
    assert forall|i: int, j: int|
        0 <= i < next.imported.len() && 0 <= j < next.imported.len() && i != j implies next.imported[i]
        != next.imported[j] by {
        if i < idx.imported.len() {
            assert(idx.imported.contains(idx.imported[i]));
        }
        if j < idx.imported.len() {
            assert(idx.imported.contains(idx.imported[j]));
        }
    }
    assert forall|m: Seq<char>| next.flags.contains_key(m) <==> next.imported.contains(m) by {
        if next.imported.contains(m) {
            let i = choose|i: int| 0 <= i < next.imported.len() && next.imported[i] == m;
            if i < idx.imported.len() {
                assert(idx.imported.contains(m));
            }
        }
        if next.flags.contains_key(m) {
            if m == module {
                assert(next.imported[idx.imported.len() as int] == m);
            } else {
                assert(idx.imported.contains(m));
                let i = choose|i: int| 0 <= i < idx.imported.len() && idx.imported[i] == m;
                assert(next.imported[i] == m);
            }
        }
    }
}

/// An accepted solve row leaves the schema intact.
pub proof fn lemma_insert_solve_wf(idx: Index, user_id: i64, challenge_id: i64)
    requires
        idx.wf(),
        idx.insert_solve(user_id, challenge_id) is Ok,
    ensures
        idx.insert_solve(user_id, challenge_id)->Ok_0.wf(),
{
}

} // verus!
