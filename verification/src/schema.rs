//! The persisted store, in the words of its engine: the four tables with
//! their keys, and the statements that read and write their rows.
//!
//! The rules that the tables enforce are the rules of the index: usernames,
//! challenge names and module ids are unique, ids identify their rows, a
//! solve is recorded once and joins a user and a challenge that exist.

use vstd::prelude::*;

verus! {

/// Makes the engine enforce that a solve joins rows that exist.
pub const ENFORCE_FOREIGN_KEYS: &'static str = "PRAGMA foreign_keys = ON;";

/// The table of module flags, one row per imported module.
pub const CREATE_FLAGS: &'static str =
    "CREATE TABLE IF NOT EXISTS challenge_categories (
    id INTEGER PRIMARY KEY AUTOINCREMENT,
    module_id VARCHAR(25) NOT NULL UNIQUE,
    flag VARCHAR(80) NOT NULL
);";

/// The table of users. The engine hands out the ids.
pub const CREATE_USERS: &'static str =
    "CREATE TABLE IF NOT EXISTS users (
    id INTEGER PRIMARY KEY AUTOINCREMENT,
    username TEXT NOT NULL UNIQUE
);";

/// The table of challenges. The ids are those of the challenge platform.
pub const CREATE_CHALLENGES: &'static str =
    "CREATE TABLE IF NOT EXISTS challenges (
    id INTEGER PRIMARY KEY,
    challenge_name TEXT NOT NULL UNIQUE,
    module TEXT NOT NULL
);";

/// The table of solves. A solve goes when its user or its challenge goes.
pub const CREATE_SOLVES: &'static str =
    "CREATE TABLE IF NOT EXISTS solves (
    user_id INTEGER NOT NULL,
    challenge_id INTEGER NOT NULL,

    PRIMARY KEY (user_id, challenge_id),
    FOREIGN KEY (user_id) REFERENCES users(id) ON DELETE CASCADE,
    FOREIGN KEY (challenge_id) REFERENCES challenges(id) ON DELETE CASCADE
);";

/// Reads the user rows, id and username, oldest first.
pub const SELECT_USERS: &'static str = "SELECT id, username FROM users ORDER BY id;";

/// Reads the challenge rows: id, name and module.
pub const SELECT_CHALLENGES: &'static str =
    "SELECT id, challenge_name, module FROM challenges ORDER BY rowid;";

/// Reads the solve rows: user id and challenge id.
pub const SELECT_SOLVES: &'static str = "SELECT user_id, challenge_id FROM solves ORDER BY rowid;";

/// Reads the flag rows, module id and flag, in the order of import.
pub const SELECT_FLAGS: &'static str = "SELECT module_id, flag FROM challenge_categories ORDER BY id;";

/// Writes a user row; takes the username.
pub const INSERT_USER: &'static str = "INSERT INTO users (username) VALUES (?1);";

/// Reads the id of a user; takes the username.
pub const SELECT_USER_ID: &'static str = "SELECT id FROM users WHERE username = ?1";

/// Writes a challenge row; takes id, name and module.
pub const INSERT_CHALLENGE: &'static str =
    "INSERT INTO challenges (id, challenge_name, module) VALUES (?1, ?2, ?3);";

/// Writes a flag row; takes module id and flag.
pub const INSERT_FLAG: &'static str =
    "INSERT INTO challenge_categories (module_id, flag) VALUES (?1, ?2);";

/// Writes a solve row; takes user id and challenge id.
pub const INSERT_SOLVE: &'static str = "INSERT INTO solves (user_id, challenge_id) VALUES (?1, ?2)";

/// Where the persisted store lives unless told otherwise.
pub const DEFAULT_STORE: &'static str = "ctfd_pwn_college.sqlite3";

} // verus!
