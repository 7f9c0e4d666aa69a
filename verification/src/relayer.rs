//! The relayer authority: who may announce a secret, and when.

use vstd::prelude::*;

use crate::order_hash::OrderParameters;
use crate::types::{bytes32_eq, copy_of, Address, Bytes32};

verus! {

/// Why a relayer operation was refused.
#[derive(Clone, Copy, Debug, PartialEq, Eq, Structural)]
pub enum RelayerError {
    /// The relayer is not on the admin's list, or the escrow does not pass
    /// the checks for an announcement.
    Unauthorized,
    /// The admin has a relayer set already.
    AlreadyExists,
    /// The admin has no relayer set.
    NotFound,
}

/// Told when a secret may be shared for a part of an order.
#[derive(Clone, Copy, Debug, PartialEq, Eq)]
pub struct SecretSharedEvent {
    pub order_hash: Bytes32,
    pub part_idx: u32,
}

/// What an escrow contract tells about one of its escrows.
#[derive(Debug, PartialEq, Eq)]
pub struct EscrowInfo {
    pub maker: Address,
    pub taker: Address,
    pub amount: i128,
    pub hashlock: Bytes32,
    pub timelocks: Vec<u64>,
    pub claimed: bool,
    pub cancelled: bool,
    pub is_src: bool,
    pub merkle_root: Bytes32,
}

/// What an escrow contract tells about one of its escrows, as plain values.
pub struct InfoFacts {
    pub maker: Address,
    pub taker: Address,
    pub amount: i128,
    pub hashlock: Seq<u8>,
    pub timelocks: Seq<u64>,
    pub claimed: bool,
    pub cancelled: bool,
    pub is_src: bool,
    pub merkle_root: Seq<u8>,
}

impl View for EscrowInfo {
    type V = InfoFacts;

    open spec fn view(&self) -> InfoFacts {
        InfoFacts {
            maker: self.maker,
            taker: self.taker,
            amount: self.amount,
            hashlock: self.hashlock@,
            timelocks: self.timelocks@,
            claimed: self.claimed,
            cancelled: self.cancelled,
            is_src: self.is_src,
            merkle_root: self.merkle_root@,
        }
    }
}

/// The read-only view of an escrow contract that the relayer authority
/// checks an announcement against.
///
/// Each query has a name for its answer, and answers with that: an
/// implementation answers the same question in the same way for as long as
/// it is not changed. Nothing else is taken for granted of an
/// implementation. What is proved through this trait holds of the
/// implementations that keep to it.
pub trait EscrowContractTrait {
    /// Whether the escrow at `addr` exists.
    spec fn exists_of(&self, addr: Address) -> bool;

    /// The stored parameters and flags of the escrow at `addr`.
    spec fn info_of(&self, addr: Address) -> InfoFacts;

    /// The asset of the escrow at `addr`.
    spec fn token_of(&self, addr: Address) -> Address;

    /// The safety deposit of the escrow at `addr`.
    spec fn deposit_of(&self, addr: Address) -> i128;

    /// The order hash that the escrow contract computes from the given
    /// parameters.
    spec fn hash_of(&self, parameters: OrderParameters) -> Bytes32;

    /// Whether the escrow exists.
    fn escrow_exists(&self, local_escrow_addr: &Address) -> (found: bool)
        ensures
            found == self.exists_of(*local_escrow_addr),
    ;

    /// The stored parameters and flags of the escrow.
    fn get_escrow_info(&self, local_escrow_addr: &Address) -> (info: EscrowInfo)
        ensures
            info@ == self.info_of(*local_escrow_addr),
    ;

    /// The order hash of the given parameters, computed by the escrow
    /// contract itself.
    fn compute_order_hash_from_info(
        &self,
        maker: &Address,
        taker: &Address,
        token_type: &Address,
        amount: i128,
        hashlock: &Bytes32,
        timelocks: &Vec<u64>,
        is_src: bool,
    ) -> (hash: Bytes32)
        ensures
            hash == self.hash_of(
                (OrderParameters {
                    maker: *maker,
                    taker: *taker,
                    token: *token_type,
                    amount,
                    hashlock: hashlock@,
                    timelocks: timelocks@,
                    is_src,
                }),
            ),
    ;

    /// The asset of the escrow.
    fn get_escrow_token_type(&self, local_escrow_addr: &Address) -> (token: Address)
        ensures
            token == self.token_of(*local_escrow_addr),
    ;

    /// The safety deposit of the escrow.
    fn get_escrow_safety_deposit(&self, local_escrow_addr: &Address) -> (deposit: i128)
        ensures
            deposit == self.deposit_of(*local_escrow_addr),
    ;
}

/// What was read from an escrow contract about an escrow that exists.
#[derive(Debug, PartialEq, Eq)]
pub struct EscrowReport {
    pub info: EscrowInfo,
    pub token: Address,
    pub recomputed_hash: Bytes32,
    pub safety_deposit: i128,
}

/// What a report says.
pub struct ReportFacts {
    pub info: InfoFacts,
    pub token: Address,
    pub recomputed_hash: Seq<u8>,
    pub safety_deposit: i128,
}

impl View for EscrowReport {
    type V = ReportFacts;

    open spec fn view(&self) -> ReportFacts {
        ReportFacts {
            info: self.info@,
            token: self.token,
            recomputed_hash: self.recomputed_hash@,
            safety_deposit: self.safety_deposit,
        }
    }
}

/// What the escrow contract says of the escrow at `addr`: nothing where the
/// escrow does not exist; else its parameters and flags, its asset, its
/// safety deposit, and the order hash that the escrow contract computes from
/// the maker, taker, asset, amount, hashlock, deadlines and side that it
/// reported itself.
pub open spec fn oracle_facts<O: EscrowContractTrait>(escrow_contract: &O, addr: Address) -> Option<ReportFacts> {
    if !escrow_contract.exists_of(addr) {
        None
    } else {
        let info = escrow_contract.info_of(addr);
        let token = escrow_contract.token_of(addr);
        Some(
            ReportFacts {
                info,
                token,
                recomputed_hash: escrow_contract.hash_of(
                    OrderParameters {
                        maker: info.maker,
                        taker: info.taker,
                        token,
                        amount: info.amount,
                        hashlock: info.hashlock,
                        timelocks: info.timelocks,
                        is_src: info.is_src,
                    },
                )@,
                safety_deposit: escrow_contract.deposit_of(addr),
            },
        )
    }
}

/// Whether an announcement may be made: the relayer is on the admin's list;
/// the escrow exists; it is neither claimed nor cancelled; its finality
/// deadline has passed; the order hash that was recomputed from its own
/// parameters is the one that the caller gave; and its safety deposit is
/// positive.
pub open spec fn announcement_allowed(
    is_member: bool,
    report: Option<ReportFacts>,
    now: u64,
    order_hash: Seq<u8>,
) -> bool {
    &&& is_member
    &&& report matches Some(facts)
    &&& !facts.info.claimed
    &&& !facts.info.cancelled
    &&& facts.info.timelocks.len() > 0
    &&& facts.info.timelocks[0] <= now
    &&& facts.recomputed_hash == order_hash
    &&& facts.safety_deposit > 0
}

/// The facts of a report, where there is one.
pub open spec fn facts_of(report: Option<EscrowReport>) -> Option<ReportFacts> {
    match report {
        Some(found) => Some(found@),
        None => None,
    }
}

/// Decides an announcement from the relayer's membership and from what the
/// escrow contract reported. The announcement is made exactly when
/// `announcement_allowed` holds, and is then for the given order hash and
/// part; every other case is unauthorized.
pub fn authorize_announcement(
    is_member: bool,
    report: &Option<EscrowReport>,
    now: u64,
    order_hash: Bytes32,
    part_idx: u32,
) -> (outcome: Result<SecretSharedEvent, RelayerError>)
    ensures
        match outcome {
            Ok(event) => announcement_allowed(is_member, facts_of(*report), now, order_hash@) && event
                == (SecretSharedEvent { order_hash, part_idx }),
            Err(error) => !announcement_allowed(is_member, facts_of(*report), now, order_hash@) && error
                == RelayerError::Unauthorized,
        },
{
    if !is_member {
        return Err(RelayerError::Unauthorized);
    }
    match report {
        None => Err(RelayerError::Unauthorized),
        Some(found) => {
            if found.info.claimed || found.info.cancelled {
                return Err(RelayerError::Unauthorized);
            }
            if found.info.timelocks.len() == 0 || now < found.info.timelocks[0] {
                return Err(RelayerError::Unauthorized);
            }
            if !bytes32_eq(&found.recomputed_hash, &order_hash) {
                return Err(RelayerError::Unauthorized);
            }
            if found.safety_deposit <= 0 {
                return Err(RelayerError::Unauthorized);
            }
            Ok(SecretSharedEvent { order_hash, part_idx })
        },
    }
}

/// One admin with the relayers that it authorized.
struct Authority {
    admin: Address,
    relayers: Vec<Address>,
}

/// The relayer sets of all admins.
pub struct RelayerRegistry {
    authorities: Vec<Authority>,
}

fn position_of(list: &Vec<Address>, wanted: &Address) -> (place: Option<usize>)
    ensures
        match place {
            Some(i) => i < list@.len() && list@[i as int] == *wanted,
            None => !list@.contains(*wanted),
        },
{
    let mut i: usize = 0;
    while i < list.len()
        invariant
            i <= list@.len(),
            forall|j: int| 0 <= j < i ==> list@[j] != *wanted,
        decreases list@.len() - i,
    {
        if list[i].same_as(wanted) {
            return Some(i);
        }
        i += 1;
    }
    None
}

impl RelayerRegistry {
    /// The invariant of the registry: no admin stands twice, and no relayer
    /// stands twice on one list.
    pub closed spec fn well_formed(&self) -> bool {
        &&& forall|i: int, j: int|
            0 <= i < j < self.authorities@.len() ==> self.authorities@[i].admin != self.authorities@[j].admin
        &&& forall|i: int| 0 <= i < self.authorities@.len() ==> (#[trigger] self.authorities@[i]).relayers@.no_duplicates()
    }

    closed spec fn holds(self, admin: Address) -> bool {
        exists|i: int| 0 <= i < self.authorities@.len() && self.authorities@[i].admin == admin
    }

    closed spec fn place_of(self, admin: Address) -> int {
        choose|i: int| 0 <= i < self.authorities@.len() && self.authorities@[i].admin == admin
    }

    /// The registry as a map from each admin that was initialized to the set
    /// of its relayers.
    pub closed spec fn view(&self) -> Map<Address, Set<Address>> {
        Map::new(
            |admin: Address| self.holds(admin),
            |admin: Address| self.authorities@[self.place_of(admin)].relayers@.to_set(),
        )
    }

    /// Whether `relayer` is on the list of `admin`.
    pub open spec fn is_member(&self, admin: Address, relayer: Address) -> bool {
        self@.dom().contains(admin) && self@[admin].contains(relayer)
    }

    /// A registry without any admin.
    pub fn new() -> (registry: RelayerRegistry)
        ensures
            registry.well_formed(),
            registry@ == Map::<Address, Set<Address>>::empty(),
    {
        let registry = RelayerRegistry { authorities: Vec::new() };
        assert(registry@ =~= Map::<Address, Set<Address>>::empty());
        registry
    }

    fn find(&self, admin: &Address) -> (place: Option<usize>)
        requires
            self.well_formed(),
        ensures
            match place {
                Some(i) => i < self.authorities@.len() && self.authorities@[i as int].admin == *admin
                    && self.place_of(*admin) == i && self.holds(*admin),
                None => !self.holds(*admin),
            },
    {
        let mut i: usize = 0;
        while i < self.authorities.len()
            invariant
                self.well_formed(),
                i <= self.authorities@.len(),
                forall|j: int| 0 <= j < i ==> self.authorities@[j].admin != *admin,
            decreases self.authorities@.len() - i,
        {
            if self.authorities[i].admin.same_as(admin) {
                return Some(i);
            }
            i += 1;
        }
        None
    }

    /// Replaces the list of the admin at `place`.
    fn put(&mut self, place: usize, admin: Address, relayers: Vec<Address>)
        requires
            old(self).well_formed(),
            place < old(self).authorities@.len(),
            old(self).authorities@[place as int].admin == admin,
            relayers@.no_duplicates(),
        ensures
            final(self).well_formed(),
            final(self)@ == old(self)@.insert(admin, relayers@.to_set()),
    {
        let ghost before = *self;
        let ghost members = relayers@.to_set();
        self.authorities.set(place, Authority { admin, relayers });
        proof {
            let after = *self;
            assert forall|a: Address| after.holds(a) <==> before.holds(a) by {
                if before.holds(a) {
                    let i = before.place_of(a);
                    assert(after.authorities@[i].admin == a);
                }
                if after.holds(a) {
                    let i = after.place_of(a);
                    assert(before.authorities@[i].admin == a);
                }
            }
            assert(before.holds(admin));
            assert forall|a: Address| after.holds(a) implies #[trigger] after@[a] == before@.insert(admin, members)[a] by {
                let i = after.place_of(a);
                let j = before.place_of(a);
                assert(before.authorities@[i].admin == a);
                assert(i == j);
            }
            assert(after@ =~= before@.insert(admin, members));
        }
    }
}

/// The relayer authority over a registry of relayer sets.
pub struct SecretRelayerContract;

impl SecretRelayerContract {
    /// Gives `account` an empty relayer set. Refused where the account has a
    /// set already, which stays as it is.
    pub fn initialize(registry: &mut RelayerRegistry, account: Address) -> (outcome: Result<(), RelayerError>)
        requires
            old(registry).well_formed(),
        ensures
            final(registry).well_formed(),
            match outcome {
                Ok(()) => !old(registry)@.dom().contains(account) && final(registry)@ == old(registry)@.insert(
                    account,
                    Set::<Address>::empty(),
                ),
                Err(error) => old(registry)@.dom().contains(account) && error == RelayerError::AlreadyExists
                    && final(registry)@ == old(registry)@,
            },
    {
        if registry.find(&account).is_some() {
            return Err(RelayerError::AlreadyExists);
        }
        let ghost before = *registry;
        registry.authorities.push(Authority { admin: account, relayers: Vec::new() });
        proof {
            let after = *registry;
            let last = before.authorities@.len() as int;
            assert(after.authorities@[last].relayers@.to_set() =~= Set::<Address>::empty());
            assert forall|a: Address| after.holds(a) <==> (a == account || before.holds(a)) by {
                if before.holds(a) {
                    let i = before.place_of(a);
                    assert(after.authorities@[i].admin == a);
                }
                if a == account {
                    assert(after.authorities@[last].admin == a);
                }
            }
            assert forall|a: Address| after.holds(a) implies #[trigger] after@[a] == before@.insert(
                account,
                Set::<Address>::empty(),
            )[a] by {
                let i = after.place_of(a);
                if a != account {
                    let j = before.place_of(a);
                    assert(before.authorities@[i].admin == a);
                    assert(i == j);
                }
            }
            assert(after@ =~= before@.insert(account, Set::<Address>::empty()));
        }
        Ok(())
    }

    /// Puts `relayer` on the list of `admin`. Refused where the admin has no
    /// relayer set.
    pub fn add_relayer(registry: &mut RelayerRegistry, admin: Address, relayer: Address) -> (outcome: Result<(), RelayerError>)
        requires
            old(registry).well_formed(),
        ensures
            final(registry).well_formed(),
            match outcome {
                Ok(()) => old(registry)@.dom().contains(admin) && final(registry)@ == old(registry)@.insert(
                    admin,
                    old(registry)@[admin].insert(relayer),
                ),
                Err(error) => !old(registry)@.dom().contains(admin) && error == RelayerError::NotFound && final(registry)@
                    == old(registry)@,
            },
    {
        match registry.find(&admin) {
            None => Err(RelayerError::NotFound),
            Some(place) => {
                let mut relayers = copy_of(registry.authorities[place].relayers.as_slice());
                let ghost listed = relayers@;
                if position_of(&relayers, &relayer).is_none() {
                    relayers.push(relayer);
                    proof {
                        assert(relayers@.to_set() =~= listed.to_set().insert(relayer)) by {
                            assert forall|a: Address| relayers@.contains(a) <==> (a == relayer || listed.contains(a)) by {
                                if listed.contains(a) {
                                    let i = choose|i: int| 0 <= i < listed.len() && listed[i] == a;
                                    assert(relayers@[i] == a);
                                }
                                if a == relayer {
                                    assert(relayers@[listed.len() as int] == a);
                                }
                            }
                        }
                    }
                } else {
                    proof {
                        assert(listed.to_set().insert(relayer) =~= listed.to_set());
                    }
                }
                registry.put(place, admin, relayers);
                Ok(())
            },
        }
    }

    /// Takes `relayer` off the list of `admin`. Refused where the admin has
    /// no relayer set.
    pub fn remove_relayer(registry: &mut RelayerRegistry, admin: Address, relayer: Address) -> (outcome: Result<(), RelayerError>)
        requires
            old(registry).well_formed(),
        ensures
            final(registry).well_formed(),
            match outcome {
                Ok(()) => old(registry)@.dom().contains(admin) && final(registry)@ == old(registry)@.insert(
                    admin,
                    old(registry)@[admin].remove(relayer),
                ),
                Err(error) => !old(registry)@.dom().contains(admin) && error == RelayerError::NotFound && final(registry)@
                    == old(registry)@,
            },
    {
        match registry.find(&admin) {
            None => Err(RelayerError::NotFound),
            Some(place) => {
                let mut relayers = copy_of(registry.authorities[place].relayers.as_slice());
                let ghost listed = relayers@;
                match position_of(&relayers, &relayer) {
                    Some(found) => {
                        relayers.remove(found);
                        proof {
                            assert(relayers@ == listed.remove(found as int));
                            assert forall|a: Address| relayers@.contains(a) <==> (a != relayer && listed.contains(a)) by {
                                if relayers@.contains(a) {
                                    let i = choose|i: int| 0 <= i < relayers@.len() && relayers@[i] == a;
                                    if i < found {
                                        assert(listed[i] == a);
                                    } else {
                                        assert(listed[i + 1] == a);
                                    }
                                }
                                if a != relayer && listed.contains(a) {
                                    let i = choose|i: int| 0 <= i < listed.len() && listed[i] == a;
                                    if i < found {
                                        assert(relayers@[i] == a);
                                    } else {
                                        assert(relayers@[i - 1] == a);
                                    }
                                }
                            }
                            assert(relayers@.to_set() =~= listed.to_set().remove(relayer));
                            assert(relayers@.no_duplicates());
                        }
                    },
                    None => {
                        proof {
                            assert(listed.to_set().remove(relayer) =~= listed.to_set());
                        }
                    },
                }
                registry.put(place, admin, relayers);
                Ok(())
            },
        }
    }

    /// Announces a secret. The relayer must be on the admin's list; a
    /// relayer that is not is refused before anything is read. Then the
    /// escrow contract is asked about the escrow at `local_escrow_addr`, and
    /// for the order hash of the parameters that it reported itself, never
    /// of a value that the caller gave. The announcement is made exactly when
    /// `announcement_allowed` holds of these answers, and is then for the
    /// given order hash and part; every other case is unauthorized. Nothing
    /// is stored or changed.
    pub fn emit_secret_shared<O: EscrowContractTrait>(
        registry: &RelayerRegistry,
        escrow_contract: &O,
        now: u64,
        relayer: Address,
        admin: Address,
        local_escrow_addr: Address,
        order_hash: Bytes32,
        part_idx: u32,
    ) -> (outcome: Result<SecretSharedEvent, RelayerError>)
        requires
            registry.well_formed(),
        ensures
            match outcome {
                Ok(event) => announcement_allowed(
                    registry.is_member(admin, relayer),
                    oracle_facts(escrow_contract, local_escrow_addr),
                    now,
                    order_hash@,
                ) && event == (SecretSharedEvent { order_hash, part_idx }),
                Err(error) => !announcement_allowed(
                    registry.is_member(admin, relayer),
                    oracle_facts(escrow_contract, local_escrow_addr),
                    now,
                    order_hash@,
                ) && error == RelayerError::Unauthorized,
            },
    {
        let is_member = Self::is_authorized_relayer(registry, admin, relayer);
        if !is_member {
            return Err(RelayerError::Unauthorized);
        }
        let report = if escrow_contract.escrow_exists(&local_escrow_addr) {
            let info = escrow_contract.get_escrow_info(&local_escrow_addr);
            let token = escrow_contract.get_escrow_token_type(&local_escrow_addr);
            let recomputed_hash = escrow_contract.compute_order_hash_from_info(
                &info.maker,
                &info.taker,
                &token,
                info.amount,
                &info.hashlock,
                &info.timelocks,
                info.is_src,
            );
            let safety_deposit = escrow_contract.get_escrow_safety_deposit(&local_escrow_addr);
            Some(EscrowReport { info, token, recomputed_hash, safety_deposit })
        } else {
            None
        };
        authorize_announcement(is_member, &report, now, order_hash, part_idx)
    }

    /// Whether `relayer` is on the list of `admin`.
    pub fn is_authorized_relayer(registry: &RelayerRegistry, admin: Address, relayer: Address) -> (member: bool)
        requires
            registry.well_formed(),
        ensures
            member == registry.is_member(admin, relayer),
    {
        match registry.find(&admin) {
            None => false,
            Some(place) => position_of(&registry.authorities[place].relayers, &relayer).is_some(),
        }
    }

    /// The relayers of `admin`, each once. Refused where the admin has no
    /// relayer set.
    pub fn get_authorized_relayers(registry: &RelayerRegistry, admin: Address) -> (outcome: Result<Vec<Address>, RelayerError>)
        requires
            registry.well_formed(),
        ensures
            match outcome {
                Ok(list) => registry@.dom().contains(admin) && list@.to_set() == registry@[admin] && list@.no_duplicates(),
                Err(error) => !registry@.dom().contains(admin) && error == RelayerError::NotFound,
            },
    {
        match registry.find(&admin) {
            None => Err(RelayerError::NotFound),
            Some(place) => Ok(copy_of(registry.authorities[place].relayers.as_slice())),
        }
    }
}

} // verus!
