//! The local store: an index of users, challenges, module flags and solves
//! that accepts a row only where the schema allows it.

use crate::index::{
    lemma_insert_challenge_wf, lemma_insert_flag_wf, lemma_insert_solve_wf, lemma_insert_user_wf,
    ChallengeRows, Constraint, FlagRows, Index, UserRows,
};
use std::collections::{HashMap, HashSet};
use vstd::hash_map::StringHashMap;
use vstd::prelude::*;
use vstd::string::*;

verus! {

broadcast use vstd::std_specs::hash::group_hash_axioms;

/// Why the store refused a row.
#[derive(Debug, PartialEq, Eq)]
pub enum StorageError {
    /// The row breaks a rule of the schema.
    Violated(Constraint),
    /// The storage engine failed; the text is its report.
    Engine(String),
}

/// A refusal of the store, with the engine's report taken as characters.
pub enum StorageErrorView {
    Violated(Constraint),
    Engine(Seq<char>),
}

impl View for StorageError {
    type V = StorageErrorView;

    open spec fn view(&self) -> StorageErrorView {
        match *self {
            StorageError::Violated(rule) => StorageErrorView::Violated(rule),
            StorageError::Engine(report) => StorageErrorView::Engine(report@),
        }
    }
}

/// User rows with their text taken as characters.
pub open spec fn user_rows(rows: Seq<(i64, String)>) -> UserRows {
    rows.map_values(|r: (i64, String)| (r.0, r.1@))
}

/// Challenge rows with their text taken as characters.
pub open spec fn challenge_rows(rows: Seq<(i64, String, String)>) -> ChallengeRows {
    rows.map_values(|r: (i64, String, String)| (r.0, r.1@, r.2@))
}

/// Flag rows with their text taken as characters.
pub open spec fn flag_rows(rows: Seq<(String, String)>) -> FlagRows {
    rows.map_values(|r: (String, String)| (r.0@, r.1@))
}

/// A list of texts, each taken as characters.
pub open spec fn texts(list: Seq<String>) -> Seq<Seq<char>> {
    list.map_values(|s: String| s@)
}

/// The store's index. Users and challenges are found by name; a second set
/// per table holds the ids in use.
pub struct DB {
    user_db: StringHashMap<i64>,
    user_ids: HashSet<i64>,
    challenge_db: StringHashMap<i64>,
    challenge_ids: HashSet<i64>,
    solves_relation: HashMap<i64, HashSet<i64>>,
    flags: StringHashMap<String>,
    imported: Vec<String>,
    modules: StringHashMap<String>,
}

impl View for DB {
    type V = Index;

    closed spec fn view(&self) -> Index {
        Index {
            users: self.user_db@,
            challenges: self.challenge_db@,
            modules: self.modules@.map_values(|s: String| s@),
            flags: self.flags@.map_values(|s: String| s@),
            imported: texts(self.imported@),
            solves: Set::new(
                |p: (i64, i64)|
                    self.solves_relation@.contains_key(p.0) && self.solves_relation@[p.0]@.contains(
                        p.1,
                    ),
            ),
        }
    }
}

impl DB {
    /// The index is consistent with itself and obeys the schema.
    pub closed spec fn wf(&self) -> bool {
        &&& self@.wf()
        &&& self.user_ids@ == self@.user_ids()
        &&& self.challenge_ids@ == self@.challenge_ids()
    }

    /// A well-formed store obeys the schema.
    pub proof fn lemma_wf(&self)
        requires
            self.wf(),
        ensures
            self@.wf(),
    {
    }

    /// A store with no rows.
    pub fn empty() -> (db: DB)
        ensures
            db.wf(),
            db@ == Index::empty(),
    {
        let db = DB {
            user_db: StringHashMap::new(),
            user_ids: HashSet::new(),
            challenge_db: StringHashMap::new(),
            challenge_ids: HashSet::new(),
            solves_relation: HashMap::new(),
            flags: StringHashMap::new(),
            imported: Vec::new(),
            modules: StringHashMap::new(),
        };
        proof {
            assert(db@.users =~= Map::empty());
            assert(db@.challenges =~= Map::empty());
            assert(db@.modules =~= Map::empty());
            assert(db@.flags =~= Map::empty());
            assert(db@.imported =~= Seq::empty());
            assert(db@.solves =~= Set::empty());
            assert(db@.user_ids() =~= Set::empty());
            assert(db@.challenge_ids() =~= Set::empty());
        }
        db
    }

    /// Whether a user of that name is known.
    pub fn user_exists(&self, username: &str) -> (known: bool)
        ensures
            known == self@.users.contains_key(username@),
    {
        self.user_db.contains_key(username)
    }

    /// Whether the module has a flag, that is, whether it was imported.
    pub fn flag_exists(&self, module: &str) -> (known: bool)
        ensures
            known == self@.flags.contains_key(module@),
    {
        self.flags.contains_key(module)
    }

    /// Records a user. The row is refused where the name or the id is taken.
    pub fn insert_user(&mut self, username: &str, id: i64) -> (res: Result<i64, StorageError>)
        requires
            old(self).wf(),
        ensures
            final(self).wf(),
            match old(self)@.insert_user(username@, id) {
                Ok(next) => res == Ok::<i64, StorageError>(id) && final(self)@ == next,
                Err(rule) => res == Err::<i64, StorageError>(StorageError::Violated(rule))
                    && final(self)@ == old(self)@,
            },
    {
        if self.user_db.contains_key(username) {
            return Err(StorageError::Violated(Constraint::UniqueUsername));
        }
        if self.user_ids.contains(&id) {
            return Err(StorageError::Violated(Constraint::UniqueUserId));
        }
        proof {
            lemma_insert_user_wf(self@, username@, id);
        }
        self.user_db.insert(String::from_str(username), id);
        self.user_ids.insert(id);
        proof {
            assert(self@ == old(self)@.insert_user(username@, id)->Ok_0);
        }
        Ok(id)
    }

    /// Records a challenge under the id that the challenge platform gave
    /// it. The row is refused where the name or the id is taken.
    pub fn insert_challenge(&mut self, id: i64, challenge: &str, module: &str) -> (res: Result<
        (),
        StorageError,
    >)
        requires
            old(self).wf(),
        ensures
            final(self).wf(),
            match old(self)@.insert_challenge(id, challenge@, module@) {
                Ok(next) => res == Ok::<(), StorageError>(()) && final(self)@ == next,
                Err(rule) => res == Err::<(), StorageError>(StorageError::Violated(rule))
                    && final(self)@ == old(self)@,
            },
    {
        if self.challenge_db.contains_key(challenge) {
            return Err(StorageError::Violated(Constraint::UniqueChallengeName));
        }
        if self.challenge_ids.contains(&id) {
            return Err(StorageError::Violated(Constraint::UniqueChallengeId));
        }
        proof {
            lemma_insert_challenge_wf(self@, id, challenge@, module@);
        }
        self.challenge_db.insert(String::from_str(challenge), id);
        self.challenge_ids.insert(id);
        self.modules.insert(String::from_str(challenge), String::from_str(module));
        proof {
            let next = old(self)@.insert_challenge(id, challenge@, module@)->Ok_0;
            assert(self@.modules =~= next.modules);
            assert(self@ == next);
        }
        Ok(())
    }

    /// Records the flag of a module, which marks the module as imported. The
    /// row is refused where the module has a flag already.
    pub fn insert_flag(&mut self, module: &str, flag: &str) -> (res: Result<(), StorageError>)
        requires
            old(self).wf(),
        ensures
            final(self).wf(),
            match old(self)@.insert_flag(module@, flag@) {
                Ok(next) => res == Ok::<(), StorageError>(()) && final(self)@ == next,
                Err(rule) => res == Err::<(), StorageError>(StorageError::Violated(rule))
                    && final(self)@ == old(self)@,
            },
    {
        if self.flags.contains_key(module) {
            return Err(StorageError::Violated(Constraint::UniqueModule));
        }
        proof {
            lemma_insert_flag_wf(self@, module@, flag@);
        }
        self.flags.insert(String::from_str(module), String::from_str(flag));
        self.imported.push(String::from_str(module));
        proof {
            let next = old(self)@.insert_flag(module@, flag@)->Ok_0;
            assert(self@.flags =~= next.flags);
            assert(self@.imported =~= next.imported);
            assert(self@ == next);
        }
        Ok(())
    }

    /// Whether the schema would accept the challenge, and the rule that
    /// refuses it where it would not.
    pub fn check_challenge(&self, id: i64, challenge: &str, module: &str) -> (res: Result<
        (),
        StorageError,
    >)
        requires
            self.wf(),
        ensures
            match self@.insert_challenge(id, challenge@, module@) {
                Ok(_) => res == Ok::<(), StorageError>(()),
                Err(rule) => res == Err::<(), StorageError>(StorageError::Violated(rule)),
            },
    {
        if self.challenge_db.contains_key(challenge) {
            return Err(StorageError::Violated(Constraint::UniqueChallengeName));
        }
        if self.challenge_ids.contains(&id) {
            return Err(StorageError::Violated(Constraint::UniqueChallengeId));
        }
        Ok(())
    }

    /// Whether the schema would accept a flag for the module, and the rule
    /// that refuses it where it would not.
    pub fn check_flag(&self, module: &str, flag: &str) -> (res: Result<(), StorageError>)
        ensures
            match self@.insert_flag(module@, flag@) {
                Ok(_) => res == Ok::<(), StorageError>(()),
                Err(rule) => res == Err::<(), StorageError>(StorageError::Violated(rule)),
            },
    {
        if self.flags.contains_key(module) {
            return Err(StorageError::Violated(Constraint::UniqueModule));
        }
        Ok(())
    }

    /// Whether the schema would accept the solve, and the rule that refuses
    /// it where it would not.
    pub fn check_solve(&self, user_id: i64, challenge_id: i64) -> (res: Result<(), StorageError>)
        requires
            self.wf(),
        ensures
            match self@.insert_solve(user_id, challenge_id) {
                Ok(_) => res == Ok::<(), StorageError>(()),
                Err(rule) => res == Err::<(), StorageError>(StorageError::Violated(rule)),
            },
    {
        if !self.user_ids.contains(&user_id) {
            return Err(StorageError::Violated(Constraint::SolveUser));
        }
        if !self.challenge_ids.contains(&challenge_id) {
            return Err(StorageError::Violated(Constraint::SolveChallenge));
        }
        if self.has_solve(user_id, challenge_id) {
            return Err(StorageError::Violated(Constraint::UniqueSolve));
        }
        Ok(())
    }

    /// Records that a user solved a challenge. The row is refused where
    /// either is unknown, or where the solve is on record already.
    pub fn insert_solve(&mut self, user_id: i64, challenge_id: i64) -> (res: Result<
        (),
        StorageError,
    >)
        requires
            old(self).wf(),
        ensures
            final(self).wf(),
            match old(self)@.insert_solve(user_id, challenge_id) {
                Ok(next) => res == Ok::<(), StorageError>(()) && final(self)@ == next,
                Err(rule) => res == Err::<(), StorageError>(StorageError::Violated(rule))
                    && final(self)@ == old(self)@,
            },
    {
        match self.check_solve(user_id, challenge_id) {
            Ok(_) => {},
            Err(e) => {
                return Err(e);
            },
        }
        proof {
            lemma_insert_solve_wf(self@, user_id, challenge_id);
        }
        let mut solved = match self.solves_relation.remove(&user_id) {
            Some(set) => set,
            None => HashSet::new(),
        };
        solved.insert(challenge_id);
        self.solves_relation.insert(user_id, solved);
        proof {
            let next = old(self)@.insert_solve(user_id, challenge_id)->Ok_0;
            assert(self@.solves =~= next.solves);
            assert(self@ == next);
        }
        Ok(())
    }

    /// The id of the user of that name.
    pub fn user_id(&self, username: &str) -> (id: Option<i64>)
        ensures
            id == self@.users.index_opt(username@),
    {
        match self.user_db.get(username) {
            Some(id) => Some(*id),
            None => None,
        }
    }

    /// The id of the challenge of that name.
    pub fn challenge_id(&self, name: &str) -> (id: Option<i64>)
        ensures
            id == self@.challenges.index_opt(name@),
    {
        match self.challenge_db.get(name) {
            Some(id) => Some(*id),
            None => None,
        }
    }

    /// The module that the challenge of that name belongs to.
    pub fn module_of(&self, challenge: &str) -> (module: Option<String>)
        ensures
            module is Some == self@.modules.contains_key(challenge@),
            module is Some ==> module->0@ == self@.modules[challenge@],
    {
        match self.modules.get(challenge) {
            Some(module) => Some(module.clone()),
            None => None,
        }
    }

    /// The flag of the module.
    pub fn flag_of(&self, module: &str) -> (flag: Option<String>)
        ensures
            flag is Some == self@.flags.contains_key(module@),
            flag is Some ==> flag->0@ == self@.flags[module@],
    {
        match self.flags.get(module) {
            Some(flag) => Some(flag.clone()),
            None => None,
        }
    }

    /// The imported modules, in the order of their import.
    pub fn imported_modules(&self) -> (list: Vec<String>)
        ensures
            texts(list@) == self@.imported,
    {
        let mut list: Vec<String> = Vec::new();
        let mut i: usize = 0;
        while i < self.imported.len()
            invariant
                i <= self.imported.len(),
                list.len() == i,
                forall|j: int| 0 <= j < i ==> list[j]@ == self.imported[j]@,
            decreases self.imported.len() - i,
        {
            list.push(self.imported[i].clone());
            i += 1;
        }
        proof {
            assert(texts(list@) =~= texts(self.imported@));
        }
        list
    }

    /// Whether the solve is on record.
    pub fn has_solve(&self, user_id: i64, challenge_id: i64) -> (known: bool)
        ensures
            known == self@.solves.contains((user_id, challenge_id)),
    {
        match self.solves_relation.get(&user_id) {
            Some(set) => set.contains(&challenge_id),
            None => false,
        }
    }
}

impl DB {
    /// Adds the user rows in order and stops at the first that is refused.
    fn fill_users(&mut self, rows: &Vec<(i64, String)>) -> (res: Result<(), StorageError>)
        requires
            old(self).wf(),
        ensures
            final(self).wf(),
            final(self)@ == old(self)@.keep_users(user_rows(rows@)),
            match old(self)@.load_users(user_rows(rows@)) {
                Ok(next) => res == Ok::<(), StorageError>(()) && final(self)@ == next,
                Err(rule) => res == Err::<(), StorageError>(StorageError::Violated(rule)),
            },
    {
        let ghost all = user_rows(rows@);
        let mut i: usize = 0;
        proof {
            assert(all.skip(0) =~= all);
        }
        while i < rows.len()
            invariant
                i <= rows.len(),
                self.wf(),
                all == user_rows(rows@),
                old(self)@.load_users(all) == self@.load_users(all.skip(i as int)),
                old(self)@.keep_users(all) == self@.keep_users(all.skip(i as int)),
            decreases rows.len() - i,
        {
            proof {
                assert(all.skip(i as int).drop_first() =~= all.skip(i + 1));
            }
            match self.insert_user(rows[i].1.as_str(), rows[i].0) {
                Ok(_) => {},
                Err(e) => {
                    return Err(e);
                },
            }
            i += 1;
        }
        Ok(())
    }

    /// Adds the challenge rows in order and stops at the first that is
    /// refused.
    fn fill_challenges(&mut self, rows: &Vec<(i64, String, String)>) -> (res: Result<
        (),
        StorageError,
    >)
        requires
            old(self).wf(),
        ensures
            final(self).wf(),
            final(self)@ == old(self)@.keep_challenges(challenge_rows(rows@)),
            match old(self)@.load_challenges(challenge_rows(rows@)) {
                Ok(next) => res == Ok::<(), StorageError>(()) && final(self)@ == next,
                Err(rule) => res == Err::<(), StorageError>(StorageError::Violated(rule)),
            },
    {
        let ghost all = challenge_rows(rows@);
        let mut i: usize = 0;
        proof {
            assert(all.skip(0) =~= all);
        }
        while i < rows.len()
            invariant
                i <= rows.len(),
                self.wf(),
                all == challenge_rows(rows@),
                old(self)@.load_challenges(all) == self@.load_challenges(all.skip(i as int)),
                old(self)@.keep_challenges(all) == self@.keep_challenges(all.skip(i as int)),
            decreases rows.len() - i,
        {
            proof {
                assert(all.skip(i as int).drop_first() =~= all.skip(i + 1));
            }
            match self.insert_challenge(rows[i].0, rows[i].1.as_str(), rows[i].2.as_str()) {
                Ok(_) => {},
                Err(e) => {
                    return Err(e);
                },
            }
            i += 1;
        }
        Ok(())
    }

    /// Adds the solve rows in order and stops at the first that is refused.
    fn fill_solves(&mut self, rows: &Vec<(i64, i64)>) -> (res: Result<(), StorageError>)
        requires
            old(self).wf(),
        ensures
            final(self).wf(),
            final(self)@ == old(self)@.keep_solves(rows@),
            match old(self)@.load_solves(rows@) {
                Ok(next) => res == Ok::<(), StorageError>(()) && final(self)@ == next,
                Err(rule) => res == Err::<(), StorageError>(StorageError::Violated(rule)),
            },
    {
        let mut i: usize = 0;
        proof {
            assert(rows@.skip(0) =~= rows@);
        }
        while i < rows.len()
            invariant
                i <= rows.len(),
                self.wf(),
                old(self)@.load_solves(rows@) == self@.load_solves(rows@.skip(i as int)),
                old(self)@.keep_solves(rows@) == self@.keep_solves(rows@.skip(i as int)),
            decreases rows.len() - i,
        {
            proof {
                assert(rows@.skip(i as int).drop_first() =~= rows@.skip(i + 1));
            }
            match self.insert_solve(rows[i].0, rows[i].1) {
                Ok(_) => {},
                Err(e) => {
                    return Err(e);
                },
            }
            i += 1;
        }
        Ok(())
    }

    /// Adds the flag rows in order and stops at the first that is refused.
    fn fill_flags(&mut self, rows: &Vec<(String, String)>) -> (res: Result<(), StorageError>)
        requires
            old(self).wf(),
        ensures
            final(self).wf(),
            final(self)@ == old(self)@.keep_flags(flag_rows(rows@)),
            match old(self)@.load_flags(flag_rows(rows@)) {
                Ok(next) => res == Ok::<(), StorageError>(()) && final(self)@ == next,
                Err(rule) => res == Err::<(), StorageError>(StorageError::Violated(rule)),
            },
    {
        let ghost all = flag_rows(rows@);
        let mut i: usize = 0;
        proof {
            assert(all.skip(0) =~= all);
        }
        while i < rows.len()
            invariant
                i <= rows.len(),
                self.wf(),
                all == flag_rows(rows@),
                old(self)@.load_flags(all) == self@.load_flags(all.skip(i as int)),
                old(self)@.keep_flags(all) == self@.keep_flags(all.skip(i as int)),
            decreases rows.len() - i,
        {
            proof {
                assert(all.skip(i as int).drop_first() =~= all.skip(i + 1));
            }
            match self.insert_flag(rows[i].0.as_str(), rows[i].1.as_str()) {
                Ok(_) => {},
                Err(e) => {
                    return Err(e);
                },
            }
            i += 1;
        }
        Ok(())
    }

    /// Fills the index from rows read out of the persisted store: users,
    /// then challenges, then solves, then flags. Stops at the first row that
    /// the schema refuses; the rows before it stay.
    pub fn fill_local_db(
        &mut self,
        users: &Vec<(i64, String)>,
        challenges: &Vec<(i64, String, String)>,
        solves: &Vec<(i64, i64)>,
        flags: &Vec<(String, String)>,
    ) -> (res: Result<(), StorageError>)
        requires
            old(self).wf(),
        ensures
            final(self).wf(),
            final(self)@ == old(self)@.keep(
                user_rows(users@),
                challenge_rows(challenges@),
                solves@,
                flag_rows(flags@),
            ),
            match old(self)@.load(
                user_rows(users@),
                challenge_rows(challenges@),
                solves@,
                flag_rows(flags@),
            ) {
                Ok(next) => res == Ok::<(), StorageError>(()) && final(self)@ == next,
                Err(rule) => res == Err::<(), StorageError>(StorageError::Violated(rule)),
            },
    {
        match self.fill_users(users) {
            Ok(_) => {},
            Err(e) => {
                return Err(e);
            },
        }
        match self.fill_challenges(challenges) {
            Ok(_) => {},
            Err(e) => {
                return Err(e);
            },
        }
        match self.fill_solves(solves) {
            Ok(_) => {},
            Err(e) => {
                return Err(e);
            },
        }
        self.fill_flags(flags)
    }

    /// The store that holds exactly the given rows, as read out of the
    /// persisted store. Fails where a row breaks the schema.
    pub fn new(
        users: &Vec<(i64, String)>,
        challenges: &Vec<(i64, String, String)>,
        solves: &Vec<(i64, i64)>,
        flags: &Vec<(String, String)>,
    ) -> (res: Result<DB, StorageError>)
        ensures
            match Index::empty().load(
                user_rows(users@),
                challenge_rows(challenges@),
                solves@,
                flag_rows(flags@),
            ) {
                Ok(index) => res is Ok && res->Ok_0.wf() && res->Ok_0@ == index,
                Err(rule) => res is Err && res->Err_0 == StorageError::Violated(rule),
            },
    {
        let mut db = DB::empty();
        match db.fill_local_db(users, challenges, solves, flags) {
            Ok(_) => Ok(db),
            Err(e) => Err(e),
        }
    }
}

} // verus!
