//! An in-memory model of the storage layer's interface boundary: database
//! handles, the transaction lifecycle, table schemas, row objects, cluster
//! handles and the allocator. The engine's queries run over `source::Table`;
//! these types state and enforce the rules of the surrounding store — which
//! stage a transaction must be in for each operation, how column keys are
//! issued, how commits advance the version — as verified state machines over
//! plain values.

use vstd::prelude::*;

verus! {

broadcast use vstd::seq::group_seq_axioms, vstd::std_specs::vec::group_vec_axioms;

/// The one kind of failure the storage model surfaces: an exception of the
/// underlying engine, carrying its message.
#[derive(Clone, Debug)]
pub struct CxxException {
    pub message: String,
}

/// Errors of the storage layer.
#[derive(Clone, Debug)]
pub enum Error {
    Exception(CxxException),
}

impl Error {
    /// A fresh error carrying a message.
    pub fn with_message(message: String) -> (e: Error)
        ensures
            e matches Error::Exception(x) && x.message@ == message@,
    {
        Error::Exception(CxxException { message })
    }

    /// The message of the underlying exception.
    pub fn message(&self) -> (r: &String)
        ensures
            *self matches Error::Exception(x) && r@ == x.message@,
    {
        match self {
            Error::Exception(x) => &x.message,
        }
    }
}

/// How durable a database is asked to be.
#[derive(Clone, Copy, PartialEq, Eq, Structural, Debug)]
pub enum DBDurability {
    Full,
    MemOnly,
    Unsafe,
}

impl Default for DBDurability {
    fn default() -> (r: Self)
        ensures
            r == DBDurability::Full,
    {
        DBDurability::Full
    }
}

/// A snapshot version: the commit counter and a slot index.
#[derive(Clone, Copy, PartialEq, Eq, Structural, Debug)]
pub struct VersionID {
    pub version: u64,
    pub index: u32,
}

impl Default for VersionID {
    fn default() -> (r: Self)
        ensures
            r.version == u64::MAX,
            r.index == 0,
    {
        VersionID { version: u64::MAX, index: 0 }
    }
}

/// Options a database is opened with.
#[derive(Clone, Debug)]
pub struct DBOptions {
    pub durability: DBDurability,
    pub encryption_key: String,
    pub allow_file_format_upgrade: bool,
    pub is_immutable: bool,
    pub backup_at_file_format_change: bool,
    pub enable_async_writes: bool,
}

impl Default for DBOptions {
    fn default() -> (r: Self)
        ensures
            r.durability == DBDurability::Full,
            r.encryption_key@ == Seq::<char>::empty(),
            !r.allow_file_format_upgrade,
            !r.is_immutable,
            !r.backup_at_file_format_change,
            !r.enable_async_writes,
    {
        DBOptions {
            durability: DBDurability::Full,
            encryption_key: String::new(),
            allow_file_format_upgrade: false,
            is_immutable: false,
            backup_at_file_format_change: false,
            enable_async_writes: false,
        }
    }
}

/// The stage a transaction is in.
#[allow(non_camel_case_types)]
#[derive(Clone, Copy, PartialEq, Eq, Structural, Debug)]
pub enum TransactStage {
    transact_Ready,
    transact_Reading,
    transact_Writing,
    transact_Frozen,
}

/// Whether to go on or stop while traversing clusters.
#[derive(Clone, Copy, PartialEq, Eq, Structural, Debug)]
pub enum IteratorControl {
    AdvanceToNext,
    Stop,
}

/// The kind of a table.
#[derive(Clone, Copy, PartialEq, Eq, Structural, Debug)]
pub enum TableType {
    TopLevel,
    Embedded,
    TopLevelAsymmetric,
}

/// An open database: a handle carrying the current commit version and the
/// root of the current snapshot.
#[derive(Clone, Debug)]
pub struct DB {
    pub version: u64,
    pub top_ref: usize,
}

/// The engine-level transaction data a `Transaction` wraps.
#[derive(Clone, Copy, PartialEq, Eq, Structural, Debug)]
pub struct TransactionInner {
    pub stage: TransactStage,
    pub version: VersionID,
    pub top_ref: usize,
}

/// A continuous transaction. It starts out reading; `promote_to_write` turns
/// it into a [`Writer`], which must be committed or rolled back to return it
/// to the reading stage.
#[derive(Clone, Copy, PartialEq, Eq, Structural, Debug)]
pub struct Transaction {
    pub inner: TransactionInner,
}

impl Transaction {
    /// Start reading at the database's current version.
    pub fn new(db: &DB) -> (r: Result<Transaction, Error>)
        ensures
            r matches Ok(t) && t.inner.stage == TransactStage::transact_Reading && t.inner.version
                == (VersionID { version: db.version, index: 0 }) && t.inner.top_ref == db.top_ref,
    {
        db.start_read(None)
    }

    pub fn from_inner(inner: TransactionInner) -> (t: Transaction)
        ensures
            t.inner == inner,
    {
        Transaction { inner }
    }

    pub fn into_inner(self) -> (r: TransactionInner)
        ensures
            r == self.inner,
    {
        self.inner
    }

    pub fn as_inner(&self) -> (r: &TransactionInner)
        ensures
            *r == self.inner,
    {
        &self.inner
    }

    /// The stage the transaction is in.
    pub fn stage(&self) -> (r: TransactStage)
        ensures
            r == self.inner.stage,
    {
        self.inner.stage
    }

    /// Whether the transaction is a frozen snapshot.
    pub fn is_frozen(&self) -> (r: bool)
        ensures
            r == (self.inner.stage == TransactStage::transact_Frozen),
    {
        match self.inner.stage {
            TransactStage::transact_Frozen => true,
            _ => false,
        }
    }

    /// The root node of the snapshot this transaction sees.
    pub fn get_top_ref(&self) -> (r: usize)
        ensures
            r == self.inner.top_ref,
    {
        self.inner.top_ref
    }

    /// Enter the writing stage. Succeeds exactly when the transaction is
    /// reading; the writer must later be committed or rolled back.
    pub fn promote_to_write(self) -> (r: Result<Writer, Error>)
        ensures
            match r {
                Ok(w) => self.inner.stage == TransactStage::transact_Reading && w.txn.inner == (
                TransactionInner {
                    stage: TransactStage::transact_Writing,
                    ..self.inner
                }),
                Err(_) => self.inner.stage != TransactStage::transact_Reading,
            },
    {
        match self.inner.stage {
            TransactStage::transact_Reading => Ok(
                Writer {
                    txn: Transaction {
                        inner: TransactionInner {
                            stage: TransactStage::transact_Writing,
                            ..self.inner
                        },
                    },
                },
            ),
            _ => Err(Error::with_message(String::new())),
        }
    }

    /// Move a reading transaction to a later snapshot: to the given version,
    /// or nowhere when none is given. Fails exactly when the transaction is
    /// not reading or the target lies in the past.
    pub fn advance_read(&mut self, target_version: Option<VersionID>) -> (r: Result<(), Error>)
        ensures
            match r {
                Ok(()) => old(self).inner.stage == TransactStage::transact_Reading && match
                    target_version {
                    Some(v) => v.version >= old(self).inner.version.version && *final(self) == (
                    Transaction {
                        inner: TransactionInner { version: v, ..old(self).inner },
                    }),
                    None => *final(self) == *old(self),
                },
                Err(_) => *final(self) == *old(self) && (old(self).inner.stage
                    != TransactStage::transact_Reading || (target_version matches Some(v)
                    && v.version < old(self).inner.version.version)),
            },
    {
        match self.inner.stage {
            TransactStage::transact_Reading => {
                match target_version {
                    Some(v) => {
                        if v.version >= self.inner.version.version {
                            self.inner.version = v;
                            Ok(())
                        } else {
                            Err(Error::with_message(String::new()))
                        }
                    },
                    None => Ok(()),
                }
            },
            _ => Err(Error::with_message(String::new())),
        }
    }

    /// Take a frozen snapshot at the transaction's version. Succeeds exactly
    /// when the transaction is reading.
    pub fn freeze(&self) -> (r: Result<FrozenTransaction, Error>)
        ensures
            match r {
                Ok(f) => self.inner.stage == TransactStage::transact_Reading && f.txn.inner == (
                TransactionInner {
                    stage: TransactStage::transact_Frozen,
                    ..self.inner
                }),
                Err(_) => self.inner.stage != TransactStage::transact_Reading,
            },
    {
        match self.inner.stage {
            TransactStage::transact_Reading => Ok(
                FrozenTransaction {
                    txn: Transaction {
                        inner: TransactionInner {
                            stage: TransactStage::transact_Frozen,
                            ..self.inner
                        },
                    },
                },
            ),
            _ => Err(Error::with_message(String::new())),
        }
    }
}

impl DB {
    /// Start a read transaction, at the given version or at the current one.
    pub fn start_read(&self, version: Option<VersionID>) -> (r: Result<Transaction, Error>)
        ensures
            r matches Ok(t) && t.inner.stage == TransactStage::transact_Reading && t.inner.version
                == (match version {
                Some(v) => v,
                None => VersionID { version: self.version, index: 0 },
            }) && t.inner.top_ref == self.top_ref,
    {
        let v = match version {
            Some(v) => v,
            None => VersionID { version: self.version, index: 0 },
        };
        Ok(
            Transaction {
                inner: TransactionInner {
                    stage: TransactStage::transact_Reading,
                    version: v,
                    top_ref: self.top_ref,
                },
            },
        )
    }

    /// Start a frozen transaction, at the given version or at the current
    /// one.
    pub fn start_frozen(&self, version: Option<VersionID>) -> (r: Result<FrozenTransaction, Error>)
        ensures
            r matches Ok(f) && f.txn.inner.stage == TransactStage::transact_Frozen
                && f.txn.inner.version == (match version {
                Some(v) => v,
                None => VersionID { version: self.version, index: 0 },
            }) && f.txn.inner.top_ref == self.top_ref,
    {
        let v = match version {
            Some(v) => v,
            None => VersionID { version: self.version, index: 0 },
        };
        Ok(
            FrozenTransaction {
                txn: Transaction {
                    inner: TransactionInner {
                        stage: TransactStage::transact_Frozen,
                        version: v,
                        top_ref: self.top_ref,
                    },
                },
            },
        )
    }

    /// Close the handle and delete the files behind it; reports whether
    /// anything was deleted — a handle always has its files, so always true.
    pub fn delete_files(self) -> (r: Result<bool, Error>)
        ensures
            r matches Ok(d) && d,
    {
        Ok(true)
    }
}

/// A transaction in the writing stage. Committing or rolling back returns the
/// transaction to the reading stage; committing advances the version.
pub struct Writer {
    pub txn: Transaction,
}

impl Writer {
    /// Commit and keep writing: the version advances, the stage stays.
    pub fn commit_and_continue(&mut self) -> (r: Result<(), Error>)
        requires
            old(self).txn.inner.version.version < u64::MAX,
        ensures
            r is Ok,
            final(self).txn.inner == (TransactionInner {
                version: VersionID {
                    version: (old(self).txn.inner.version.version + 1) as u64,
                    ..old(self).txn.inner.version
                },
                ..old(self).txn.inner
            }),
    {
        self.txn.inner.version.version = self.txn.inner.version.version + 1;
        Ok(())
    }

    /// Commit and return to reading at the advanced version.
    pub fn commit(self) -> (r: Result<Transaction, Error>)
        requires
            self.txn.inner.version.version < u64::MAX,
        ensures
            r matches Ok(t) && t.inner == (TransactionInner {
                stage: TransactStage::transact_Reading,
                version: VersionID {
                    version: (self.txn.inner.version.version + 1) as u64,
                    ..self.txn.inner.version
                },
                ..self.txn.inner
            }),
    {
        Ok(
            Transaction {
                inner: TransactionInner {
                    stage: TransactStage::transact_Reading,
                    version: VersionID {
                        version: self.txn.inner.version.version + 1,
                        index: self.txn.inner.version.index,
                    },
                    top_ref: self.txn.inner.top_ref,
                },
            },
        )
    }

    /// Throw the writes away and return to reading at the unchanged version.
    pub fn rollback(self) -> (r: Result<Transaction, Error>)
        ensures
            r matches Ok(t) && t.inner == (TransactionInner {
                stage: TransactStage::transact_Reading,
                ..self.txn.inner
            }),
    {
        Ok(
            Transaction {
                inner: TransactionInner {
                    stage: TransactStage::transact_Reading,
                    version: self.txn.inner.version,
                    top_ref: self.txn.inner.top_ref,
                },
            },
        )
    }
}

/// A transaction frozen at one version: immutable and shareable.
pub struct FrozenTransaction {
    pub txn: Transaction,
}

impl FrozenTransaction {
    /// The snapshot's root node.
    pub fn top_ref(&self) -> (r: usize)
        ensures
            r == self.txn.inner.top_ref,
    {
        self.txn.inner.top_ref
    }
}

} // verus!
