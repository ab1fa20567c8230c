//! The store: a table from text keys to values behind one lock.
//!
//! Every operation takes the lock, works on the table and lets the lock go
//! before it returns, so no caller ever holds it. What the table does is the
//! contract of [`StringMap`]; what another thread did to it between two
//! calls is not for a contract to say.

use crate::error::StorageError;
use crate::string_map::StringMap;
use std::sync::Arc;
use std::sync::Mutex;
use std::sync::MutexGuard;
use std::sync::PoisonError;
use vstd::prelude::*;

verus! {

/// `std::sync::Mutex`, a lock around a value.
#[verifier::external_type_specification]
#[verifier::external_body]
#[verifier::reject_recursive_types(T)]
pub struct ExMutex<T: ?Sized>(Mutex<T>);

/// `std::sync::MutexGuard`, which holds the lock until it is dropped.
#[verifier::external_type_specification]
#[verifier::external_body]
#[verifier::reject_recursive_types(T)]
pub struct ExMutexGuard<'a, T: ?Sized + 'a>(MutexGuard<'a, T>);

/// `std::sync::PoisonError`, which `Mutex::lock` returns for a lock that a
/// panicking thread held.
#[verifier::external_type_specification]
#[verifier::external_body]
#[verifier::reject_recursive_types(T)]
pub struct ExPoisonError<T>(PoisonError<T>);

/// `Mutex::new` makes a lock around a value.
pub assume_specification<T>[ Mutex::<T>::new ](t: T) -> Mutex<T>
;

/// `Mutex::lock` waits for the lock. It fails where a thread panicked while
/// holding it; which of the two happens is not known beforehand. A thread
/// that holds the lock must not ask for it again, so the call is kept to
/// the store, which takes the lock once per operation and lets it go before
/// the operation returns.
#[verifier::external_body]
fn lock<'a, T>(m: &'a Mutex<T>) -> Result<MutexGuard<'a, T>, PoisonError<MutexGuard<'a, T>>> {
    m.lock()
}

/// The value that a held lock guards (`Deref` of `MutexGuard`). Other
/// threads may have changed it since the lock was last held, so nothing is
/// said of it.
#[verifier::external_body]
fn guarded<'a, 'b, T>(guard: &'a MutexGuard<'b, T>) -> &'a T {
    &**guard
}

/// The value that a held lock guards, to be changed in place (`DerefMut` of
/// `MutexGuard`).
#[verifier::external_body]
fn guarded_mut<'a, 'b, T>(guard: &'a mut MutexGuard<'b, T>) -> &'a mut T {
    &mut **guard
}

/// Gives `key` the value `value` in the table that the lock guards and
/// returns the value it had before, where the lock was had; fails with
/// `StorageUnavailable` where it was not. The lock is let go on return.
pub fn insert_under<'a, V>(
    locked: Result<MutexGuard<'a, StringMap<V>>, PoisonError<MutexGuard<'a, StringMap<V>>>>,
    key: String,
    value: V,
) -> (r: Result<Option<V>, StorageError>)
    ensures
        r is Ok <==> locked is Ok,
{
    match locked {
        Ok(mut guard) => {
            let table = guarded_mut(&mut guard);
            Ok(table.insert(key, value))
        },
        Err(_) => Err(StorageError::StorageUnavailable),
    }
}

/// A copy of the value of `key` in the table that the lock guards, where
/// the lock was had; fails with `StorageUnavailable` where it was not. The
/// lock is let go on return.
pub fn get_under<'a, V: Clone>(
    locked: Result<MutexGuard<'a, StringMap<V>>, PoisonError<MutexGuard<'a, StringMap<V>>>>,
    key: &str,
) -> (r: Result<Option<V>, StorageError>)
    ensures
        r is Ok <==> locked is Ok,
{
    match locked {
        Ok(guard) => {
            let table = guarded(&guard);
            Ok(table.get_cloned(key))
        },
        Err(_) => Err(StorageError::StorageUnavailable),
    }
}

/// Takes `key` out of the table that the lock guards and returns the value
/// it had, where the lock was had; fails with `StorageUnavailable` where it
/// was not. The lock is let go on return.
pub fn remove_under<'a, V>(
    locked: Result<MutexGuard<'a, StringMap<V>>, PoisonError<MutexGuard<'a, StringMap<V>>>>,
    key: &str,
) -> (r: Result<Option<V>, StorageError>)
    ensures
        r is Ok <==> locked is Ok,
{
    match locked {
        Ok(mut guard) => {
            let table = guarded_mut(&mut guard);
            Ok(table.remove(key))
        },
        Err(_) => Err(StorageError::StorageUnavailable),
    }
}

/// A table shared between threads.
#[verifier::reject_recursive_types(V)]
pub struct SimpleDB<V> {
    storage: Arc<Mutex<StringMap<V>>>,
    made_with: Ghost<Map<Seq<char>, V>>,
}

impl<V: Clone> SimpleDB<V> {
    /// What the table held when it was made. What it holds later is for
    /// the threads that share it to decide.
    pub closed spec fn made_with(&self) -> Map<Seq<char>, V> {
        self.made_with@
    }

    /// An empty table.
    pub fn new() -> (r: Self)
        ensures
            r.made_with() == Map::<Seq<char>, V>::empty(),
    {
        SimpleDB::holding(StringMap::new())
    }

    /// A shared table that starts out as `table`.
    pub fn holding(table: StringMap<V>) -> (r: Self)
        ensures
            r.made_with() == table@,
    {
        let ghost start = table@;
        SimpleDB { storage: Arc::new(Mutex::new(table)), made_with: Ghost(start) }
    }

    /// Gives `key` the value `value`, under the lock. It fails only where
    /// the lock cannot be had.
    pub fn insert(&self, key: String, value: V) -> (r: Result<(), StorageError>) {
        match insert_under(lock(&self.storage), key, value) {
            Ok(_) => Ok(()),
            Err(e) => Err(e),
        }
    }

    /// A copy of the value of `key`, taken under the lock. It fails only
    /// where the lock cannot be had.
    pub fn get(&self, key: String) -> (r: Result<Option<V>, StorageError>) {
        get_under(lock(&self.storage), key.as_str())
    }

    /// Gives `key` the value `value`, under the lock, and returns the value
    /// it had before. It fails only where the lock cannot be had.
    pub fn update(&self, key: String, value: V) -> (r: Result<Option<V>, StorageError>) {
        insert_under(lock(&self.storage), key, value)
    }

    /// Takes `key` out, under the lock, and returns the value it had. It
    /// fails only where the lock cannot be had.
    pub fn remove(&self, key: String) -> (r: Result<Option<V>, StorageError>) {
        remove_under(lock(&self.storage), key.as_str())
    }
}

} // verus!
