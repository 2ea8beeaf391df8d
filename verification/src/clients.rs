//! Internal client allocation and the command traffic it produces.
//!
//! An operation holding a connection from a pool must never need a second
//! connection from the same pool, or a pool of capacity one deadlocks. The
//! allocation is computed once, at construction: a caller-supplied key-vault
//! client is reused as is; with auto-encryption bypassed no key-vault lookup
//! runs on the hot path and one pool suffices; otherwise one internal
//! key-vault-only client is created, for two independently pooled handles.

use vstd::prelude::*;

use crate::error::Error;

verus! {

/// The independently pooled handles an operation can draw connections from.
#[derive(Clone, Copy, Debug, PartialEq, Eq, Structural)]
pub enum PoolHandle {
    /// The encrypted client's own pool.
    DataClient,
    /// The lazily created key-vault-only client's pool.
    InternalKeyVaultClient,
    /// The caller's dedicated key-vault client's pool.
    DedicatedKeyVaultClient,
}

/// The allocation the manager settles on at construction time.
#[derive(Clone, Copy, Debug, PartialEq, Eq, Structural)]
pub struct ClientAllocation {
    /// Which pool key-vault reads go through.
    pub key_vault_pool: PoolHandle,
    /// How many clients this manager itself owns and opens.
    pub owned_clients: usize,
}

/// The pool key-vault traffic uses for a configuration.
pub open spec fn spec_key_vault_pool(
    has_dedicated_kv_client: bool,
    bypass_auto_encryption: bool,
) -> PoolHandle {
    if has_dedicated_kv_client {
        PoolHandle::DedicatedKeyVaultClient
    } else if bypass_auto_encryption {
        PoolHandle::DataClient
    } else {
        PoolHandle::InternalKeyVaultClient
    }
}

/// Computes the allocation: a dedicated key-vault client costs no extra
/// pool; bypassed auto-encryption needs no key-vault access while a data
/// connection is held, so a single pool suffices; otherwise an internal
/// key-vault client is created and two independently pooled handles exist.
pub fn allocate_clients(has_dedicated_kv_client: bool, bypass_auto_encryption: bool) -> (r:
    ClientAllocation)
    ensures
        r.key_vault_pool == spec_key_vault_pool(has_dedicated_kv_client, bypass_auto_encryption),
        r.owned_clients == (if !has_dedicated_kv_client && !bypass_auto_encryption {
            2int
        } else {
            1int
        }),
{
    if has_dedicated_kv_client {
        ClientAllocation { key_vault_pool: PoolHandle::DedicatedKeyVaultClient, owned_clients: 1 }
    } else if bypass_auto_encryption {
        ClientAllocation { key_vault_pool: PoolHandle::DataClient, owned_clients: 1 }
    } else {
        ClientAllocation {
            key_vault_pool: PoolHandle::InternalKeyVaultClient,
            owned_clients: 2,
        }
    }
}

/// A command as observed starting on the wire.
#[derive(Clone, Debug, PartialEq)]
pub struct CommandStartedEvent {
    pub command_name: String,
    pub db: String,
}

/// A command as observed succeeding, with the raw reply it carried.
#[derive(Clone, Debug, PartialEq)]
pub struct CommandSucceededEvent {
    pub command_name: String,
    pub reply: crate::document::Document,
}

/// A command as observed failing.
#[derive(Clone, Debug, PartialEq)]
pub struct CommandFailedEvent {
    pub command_name: String,
}

/// One command of a planned operation: where it runs and whether it is
/// issued while a data-pool connection is already held.
#[derive(Debug)]
pub struct PlannedCommand {
    pub pool: PoolHandle,
    pub event: CommandStartedEvent,
    /// The command runs nested inside an operation that holds a data-pool
    /// connection at that moment.
    pub nested_in_data_op: bool,
}

/// A plan is free of self-deadlock when no command that runs while a
/// data-pool connection is held draws from the data pool itself.
pub open spec fn spec_no_self_deadlock(plan: Seq<PlannedCommand>) -> bool {
    forall|i: int|
        0 <= i < plan.len() && (#[trigger] plan[i]).nested_in_data_op ==> plan[i].pool
            != PoolHandle::DataClient
}

fn started(command_name: &str, db: &str) -> (r: CommandStartedEvent)
    ensures
        r.command_name@ == command_name@,
        r.db@ == db@,
{
    CommandStartedEvent { command_name: command_name.to_owned(), db: db.to_owned() }
}

/// The commands an auto-encrypting insert followed by a find issues, in
/// order, with the pool each one draws from.
///
/// With auto-encryption active the collection is listed to resolve its
/// schema, the data keys are fetched from the key vault while the insert is
/// being prepared — nested inside the data operation — and the insert and
/// find then run on the data pool. With auto-encryption bypassed only the
/// find runs on the data pool, and the key-vault read that decrypts the
/// reply happens after the data connection is back in its pool.
pub fn insert_and_find_plan(alloc: &ClientAllocation, bypass_auto_encryption: bool) -> (r: Vec<
    PlannedCommand,
>)
    ensures
        spec_no_self_deadlock(r@) || alloc.key_vault_pool == PoolHandle::DataClient
            && !bypass_auto_encryption,
        !bypass_auto_encryption ==> {
            &&& r@.len() == 4
            &&& r@[0].event.command_name@ == "listCollections"@ && r@[0].event.db@ == "db"@
                && r@[0].pool == PoolHandle::DataClient
            &&& r@[1].event.command_name@ == "find"@ && r@[1].event.db@ == "keyvault"@ && r@[1].pool
                == alloc.key_vault_pool && r@[1].nested_in_data_op
            &&& r@[2].event.command_name@ == "insert"@ && r@[2].event.db@ == "db"@ && r@[2].pool
                == PoolHandle::DataClient
            &&& r@[3].event.command_name@ == "find"@ && r@[3].event.db@ == "db"@ && r@[3].pool
                == PoolHandle::DataClient
        },
        bypass_auto_encryption ==> {
            &&& r@.len() == 2
            &&& r@[0].event.command_name@ == "find"@ && r@[0].event.db@ == "db"@ && r@[0].pool
                == PoolHandle::DataClient
            &&& r@[1].event.command_name@ == "find"@ && r@[1].event.db@ == "keyvault"@ && r@[1].pool
                == alloc.key_vault_pool && !r@[1].nested_in_data_op
        },
{
    let mut plan: Vec<PlannedCommand> = Vec::new();
    if !bypass_auto_encryption {
        plan.push(
            PlannedCommand {
                pool: PoolHandle::DataClient,
                event: started("listCollections", "db"),
                nested_in_data_op: false,
            },
        );
        plan.push(
            PlannedCommand {
                pool: alloc.key_vault_pool,
                event: started("find", "keyvault"),
                nested_in_data_op: true,
            },
        );
        plan.push(
            PlannedCommand {
                pool: PoolHandle::DataClient,
                event: started("insert", "db"),
                nested_in_data_op: false,
            },
        );
        plan.push(
            PlannedCommand {
                pool: PoolHandle::DataClient,
                event: started("find", "db"),
                nested_in_data_op: false,
            },
        );
    } else {
        plan.push(
            PlannedCommand {
                pool: PoolHandle::DataClient,
                event: started("find", "db"),
                nested_in_data_op: false,
            },
        );
        plan.push(
            PlannedCommand {
                pool: alloc.key_vault_pool,
                event: started("find", "keyvault"),
                nested_in_data_op: false,
            },
        );
    }
    plan
}

/// For every configuration, the allocation the manager computes makes the
/// insert-and-find plan free of self-deadlock: key-vault reads that run
/// while a data-pool connection is held never draw from the data pool.
pub proof fn lemma_allocation_avoids_deadlock(
    has_dedicated_kv_client: bool,
    bypass_auto_encryption: bool,
    plan: Seq<PlannedCommand>,
)
    requires
        forall|i: int|
            0 <= i < plan.len() && (#[trigger] plan[i]).nested_in_data_op ==> plan[i].pool
                == spec_key_vault_pool(has_dedicated_kv_client, bypass_auto_encryption),
        forall|i: int|
            0 <= i < plan.len() && (#[trigger] plan[i]).nested_in_data_op
                ==> !bypass_auto_encryption,
    ensures
        spec_no_self_deadlock(plan),
{
    assert forall|i: int|
        0 <= i < plan.len() && (#[trigger] plan[i]).nested_in_data_op implies plan[i].pool
        != PoolHandle::DataClient by {
        assert(plan[i].pool == spec_key_vault_pool(
            has_dedicated_kv_client,
            bypass_auto_encryption,
        ));
    }
}

/// Turns a predicate outcome into a match decision: an event either passed
/// the predicate, or an error while judging it counts as no match.
pub fn ok_pred(outcome: Result<bool, Error>) -> (r: bool)
    ensures
        r == (outcome matches Ok(true)),
{
    match outcome {
        Ok(b) => b,
        Err(_) => false,
    }
}

/// What one deadlock scenario expects to see on the wire.
#[derive(Debug)]
pub struct DeadlockExpectation {
    pub command: String,
    pub db: String,
}

impl DeadlockExpectation {
    /// True when the observed command is the expected one.
    pub fn matches(&self, ev: &CommandStartedEvent) -> (r: bool)
        ensures
            r == (ev.command_name@ == self.command@ && ev.db@ == self.db@),
    {
        ev.command_name.eq(&self.command) && ev.db.eq(&self.db)
    }

    /// Confirms that some observed command matches this expectation; the
    /// caller supplies a run in which one does.
    pub fn assert_matches_any(&self, name: &str, commands: &[CommandStartedEvent])
        requires
            exists|i: int|
                0 <= i < commands@.len() && ((#[trigger] commands@[i]).command_name@
                    == self.command@ && commands@[i].db@ == self.db@),
    {
        let mut i: usize = 0;
        while i < commands.len()
            invariant
                exists|k: int|
                    0 <= k < commands@.len() && ((#[trigger] commands@[k]).command_name@
                        == self.command@ && commands@[k].db@ == self.db@),
                0 <= i <= commands@.len(),
                forall|k: int|
                    0 <= k < i ==> !((#[trigger] commands@[k]).command_name@ == self.command@
                        && commands@[k].db@ == self.db@),
            decreases commands@.len() - i,
        {
            if self.matches(&commands[i]) {
                return ;
            }
            i += 1;
        }
        proof {
            let k = choose|k: int|
                0 <= k < commands@.len() && ((#[trigger] commands@[k]).command_name@
                    == self.command@ && commands@[k].db@ == self.db@);
            assert(false);
        }
    }
}

/// Records the succeeded and failed events of watched commands.
#[derive(Debug)]
pub struct DecryptionEventsHandler {
    pub succeeded: Option<CommandSucceededEvent>,
    pub failed: Option<CommandFailedEvent>,
}

impl DecryptionEventsHandler {
    /// A fresh handler with nothing recorded.
    pub fn new() -> (r: std::sync::Arc<DecryptionEventsHandler>)
        ensures
            r.succeeded is None,
            r.failed is None,
    {
        std::sync::Arc::new(DecryptionEventsHandler { succeeded: None, failed: None })
    }

    /// Keeps the succeeded event of an aggregate command.
    pub fn handle_command_succeeded_event(&mut self, event: CommandSucceededEvent)
        ensures
            if event.command_name@ == "aggregate"@ {
                final(self).succeeded == Some(event)
            } else {
                final(self).succeeded == old(self).succeeded
            },
            final(self).failed == old(self).failed,
    {
        let aggregate: &str = "aggregate";
        if event.command_name.eq(&aggregate.to_owned()) {
            self.succeeded = Some(event);
        }
    }

    /// Keeps the failed event of an aggregate command.
    pub fn handle_command_failed_event(&mut self, event: CommandFailedEvent)
        ensures
            if event.command_name@ == "aggregate"@ {
                final(self).failed == Some(event)
            } else {
                final(self).failed == old(self).failed
            },
            final(self).succeeded == old(self).succeeded,
    {
        let aggregate: &str = "aggregate";
        if event.command_name.eq(&aggregate.to_owned()) {
            self.failed = Some(event);
        }
    }
}

} // verus!
