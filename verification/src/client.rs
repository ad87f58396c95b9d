//! Accounts: the balances that replaying the ledger produces.

use crate::record::Record;
use rand::Rng;
use std::collections::HashMap;
use vstd::prelude::*;

verus! {

/// The account store, keyed by account identifier.
pub type ClientMap = HashMap<u16, Client>;

/// The state of one account, with balances counted in the smallest unit of
/// the currency.
#[derive(Clone, Copy, Debug, PartialEq, Eq, Structural)]
pub struct Client {
    pub client: u16,
    pub available: i128,
    pub held: i128,
    pub total: i128,
    pub locked: bool,
}

/// An account as the rules see it: the same fields over mathematical integers.
pub struct Account {
    pub client: u16,
    pub available: int,
    pub held: int,
    pub total: int,
    pub locked: bool,
}

impl View for Client {
    type V = Account;

    open spec fn view(&self) -> Account {
        Account {
            client: self.client,
            available: self.available as int,
            held: self.held as int,
            total: self.total as int,
            locked: self.locked,
        }
    }
}

impl Account {
    /// The account as it is on first reference: nothing on it, not locked.
    pub open spec fn opened(id: u16) -> Account {
        Account { client: id, available: 0, held: 0, total: 0, locked: false }
    }

    /// The total is what is available plus what is held.
    pub open spec fn is_balanced(self) -> bool {
        self.total == self.available + self.held
    }

    /// Every balance fits the machine integer that `Client` stores it in.
    pub open spec fn representable(self) -> bool {
        &&& i128::MIN <= self.available <= i128::MAX
        &&& i128::MIN <= self.held <= i128::MAX
        &&& i128::MIN <= self.total <= i128::MAX
    }
}

/// `id` can be given to a new account: it is not zero and not among the
/// identifiers `taken`.
pub open spec fn is_vacant(taken: Set<u16>, id: u16) -> bool {
    id != 0 && !taken.contains(id)
}

/// Where the search for a vacant identifier begins: at `candidate`, or at 1
/// where the candidate is zero.
pub open spec fn probe_start(candidate: u16) -> u16 {
    if candidate == 0 {
        1
    } else {
        candidate
    }
}

/// How many steps the search takes from `start` to `id`, counting upwards
/// and going on from 65535 to 1.
pub open spec fn probe_distance(start: u16, id: u16) -> int {
    if id >= start {
        id - start
    } else {
        id + 65535 - start
    }
}

/// `id` is a fit identifier for an account that arrived without one: it is
/// not zero, and it is not in use unless every identifier is.
pub open spec fn is_fresh_id(taken: Set<u16>, id: u16) -> bool {
    id != 0 && ((exists|other: u16| is_vacant(taken, other)) ==> is_vacant(taken, id))
}

/// `id` is the identifier that the search from `candidate` ends on: the
/// vacant identifier nearest to the start of the search, or the start itself
/// where none is vacant.
pub open spec fn is_nearest_vacant(taken: Set<u16>, candidate: u16, id: u16) -> bool {
    if exists|other: u16| is_vacant(taken, other) {
        &&& is_vacant(taken, id)
        &&& forall|other: u16| #[trigger]
            is_vacant(taken, other) ==> probe_distance(probe_start(candidate), id)
                <= probe_distance(probe_start(candidate), other)
    } else {
        id == probe_start(candidate)
    }
}

/// `client` is the account that `record` is applied to: the one stored under
/// the record's identifier, else a new one. A new one takes the record's
/// identifier, or a fresh one where the record's is zero.
pub open spec fn is_account_for(record: Record, clients: Map<u16, Client>, client: Client) -> bool {
    if clients.contains_key(record.client) {
        client == clients[record.client]
    } else {
        &&& client@ == Account::opened(client.client)
        &&& if record.client != 0 {
            client.client == record.client
        } else {
            is_fresh_id(clients.dom(), client.client)
        }
    }
}

/// Draws an identifier from the thread-local generator of `rand`
/// (`rand::thread_rng`), with `Rng::gen`. Nothing is claimed of the value
/// drawn: it may be any `u16`, zero too. The call takes no input; it fails
/// only where the system cannot seed the generator.
#[verifier::external_body]
fn random_id() -> u16 {
    rand::thread_rng().gen()
}

/// Picks the identifier for an account that arrived without one, searching
/// upwards from `candidate` for one that is vacant.
pub fn vacant_id(candidate: u16, clients: &ClientMap) -> (id: u16)
    ensures
        is_nearest_vacant(clients@.dom(), candidate, id),
        is_fresh_id(clients@.dom(), id),
{
    let start: u16 = if candidate == 0 {
        1
    } else {
        candidate
    };
    let mut id: u16 = start;
    let mut tried: u32 = 0;
    while tried < 65535
        invariant
            start == probe_start(candidate),
            id != 0,
            tried <= 65535,
            tried < 65535 ==> probe_distance(start, id) == tried,
            forall|other: u16|
                other != 0 && probe_distance(start, other) < tried ==> #[trigger] clients@.contains_key(
                    other,
                ),
        decreases 65535 - tried,
    {
        if !clients.contains_key(&id) {
            proof {
                assert(is_vacant(clients@.dom(), id));
                assert forall|other: u16| #[trigger] is_vacant(clients@.dom(), other) implies tried
                    <= probe_distance(start, other) by {
                    if probe_distance(start, other) < tried {
                        assert(clients@.contains_key(other));
                    }
                }
            }
            return id;
        }
        id = if id == u16::MAX {
            1
        } else {
            id + 1
        };
        tried = tried + 1;
    }
    proof {
        assert forall|other: u16| !is_vacant(clients@.dom(), other) by {
            if other != 0 {
                assert(probe_distance(start, other) < tried);
            }
        }
    }
    start
}

impl Client {
    /// A new account under `id`: all balances zero, not locked.
    pub fn new(id: u16) -> (client: Client)
        ensures
            client@ == Account::opened(id),
    {
        Client { client: id, available: 0, held: 0, total: 0, locked: false }
    }

    /// The account that `record` is applied to: the stored one, or a new one.
    pub fn find(record: &Record, clients: &ClientMap) -> (client: Client)
        ensures
            is_account_for(*record, clients@, client),
    {
        match clients.get(&record.client) {
            Some(client) => *client,
            None => {
                if record.client != 0 {
                    Client::new(record.client)
                } else {
                    Client::new(vacant_id(random_id(), clients))
                }
            },
        }
    }
}

impl Default for Client {
    /// The account with identifier 0, all balances zero, not locked.
    fn default() -> (client: Client)
        ensures
            client@ == Account::opened(0),
    {
        Client::new(0)
    }
}

/// The store as the rules see it: every account by its view.
pub open spec fn accounts(clients: Map<u16, Client>) -> Map<u16, Account> {
    Map::new(|id: u16| clients.contains_key(id), |id: u16| clients[id]@)
}

} // verus!
