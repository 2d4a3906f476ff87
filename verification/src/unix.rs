//! The abstract UNIX-domain socket address table a namespace owns, and the
//! shared-ownership cell it is handed out in.

use std::sync::Arc;
use vstd::prelude::*;

verus! {

/// The per-host table of abstract UNIX-domain socket addresses. Its contents
/// are maintained by the unix-socket code that shares the handle; this core
/// only creates the fresh, empty table and hands out shared ownership of it.
pub struct AbstractUnixNamespace {}

impl AbstractUnixNamespace {
    /// A fresh, empty table.
    pub fn new() -> AbstractUnixNamespace {
        AbstractUnixNamespace {  }
    }
}

#[verifier::external_type_specification]
#[verifier::external_body]
#[verifier::reject_recursive_types(T)]
pub struct ExAtomicRefCell<T: ?Sized>(atomic_refcell::AtomicRefCell<T>);

/// Relies on atomic_refcell's `AtomicRefCell::new`: wraps the table in a
/// cell whose exclusive borrows are checked at run time.
#[verifier::external_body]
fn new_atomic_refcell(ns: AbstractUnixNamespace) -> atomic_refcell::AtomicRefCell<
    AbstractUnixNamespace,
> {
    atomic_refcell::AtomicRefCell::new(ns)
}

/// A fresh abstract-UNIX-address table under shared ownership, mutable
/// through run-time-checked exclusive borrows.
pub fn new_shared_unix_namespace() -> Arc<atomic_refcell::AtomicRefCell<AbstractUnixNamespace>> {
    Arc::new(new_atomic_refcell(AbstractUnixNamespace::new()))
}

} // verus!
