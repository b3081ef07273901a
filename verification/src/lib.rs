//! Reconciles solve records between a challenge-hosting platform and an
//! upstream training platform.
//!
//! Modules of the upstream platform are mirrored into the challenge
//! platform, each with one secret flag that its challenges share. A local
//! store records which users are known, which challenges were mirrored under
//! which id, which modules were imported, and who solved what.
//!
//! The crate performs no input or output. Its store is an index in memory;
//! its two procedures, the import of a module and the import of new users,
//! advance one event at a time: each step says what is to be fetched, created
//! or written next, and a driver does it and reports what came back. The
//! persisted store is written by the driver, in the statements of
//! [`schema`], and a row enters the index only after the driver has reported
//! it as written.
//!
//! - [`index`]: the store as mathematics, with the rules of its schema.
//! - [`db`]: the store itself.
//! - [`schema`]: the tables and statements of the persisted store.
//! - [`store_laws`]: what holds of the store whatever rows it is offered.
//! - [`flag`]: module flags.
//! - [`import`], [`import_model`], [`import_laws`], [`import_whole`]: the
//!   import of a module.
//! - [`sync`], [`sync_model`], [`sync_laws`], [`sync_whole`]: the import of
//!   new users.
//! - [`mirror_laws`]: index and persisted store stay alike through both.
//! - [`ctfd`], [`ctfd_model`]: the challenge platform.
//! - [`pwncollege`]: the upstream platform.
//! - [`remote`]: failures of either platform.
//! - [`text`]: numbers as text.

pub mod ctfd;
pub mod ctfd_model;
pub mod db;
pub mod flag;
pub mod import;
pub mod import_laws;
pub mod import_model;
pub mod import_whole;
pub mod index;
pub mod mirror_laws;
pub mod pwncollege;
pub mod remote;
pub mod schema;
pub mod store_laws;
pub mod sync;
pub mod sync_laws;
pub mod sync_model;
pub mod sync_whole;
pub mod text;
