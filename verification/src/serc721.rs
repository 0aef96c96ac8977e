//! The ownership and authorization state machine of the token registry.
//!
//! Accounts and token identifiers are plain unsigned integers; the reserved
//! value [`ZERO_ADDRESS`] stands for "no account". A token is minted exactly
//! when the owner map holds an entry for it, and every stored owner is a real
//! (non-zero) account. The well-formedness predicate [`SERC721::wf`] ties an
//! account's stored balance to the number of token ids it owns; every
//! mutation preserves it.

use std::collections::HashMap;
use vstd::prelude::*;

verus! {

/// An account identifier. The registry never interprets it beyond equality.
pub type Address = u128;

/// A token identifier, opaque to the registry beyond equality.
pub type TokenId = u128;

/// The sentinel "no account" value: never a real owner, spender or recipient.
pub const ZERO_ADDRESS: Address = 0;

/// The fixed identity of a registry deployment: its name and symbol strings.
pub trait SERC721Details {
    /// The registry's name, as a mathematical sequence of characters.
    spec fn spec_name() -> Seq<char>;

    /// The registry's symbol, as a mathematical sequence of characters.
    spec fn spec_symbol() -> Seq<char>;

    /// Returns the name string.
    fn name() -> (r: String)
        ensures
            r@ == Self::spec_name(),
    ;

    /// Returns the symbol string.
    fn symbol() -> (r: String)
        ensures
            r@ == Self::spec_symbol(),
    ;
}

/// A notification describing one successful mutation, handed to the caller
/// for delivery to whatever event sink the environment provides.
#[derive(PartialEq, Eq, Structural, Clone, Copy, Debug)]
pub enum Event {
    /// Ownership of `id` moved from `from` to `to`; `from` is the zero
    /// address when the token was just minted.
    Transfer { from: Address, to: Address, id: TokenId },
    /// `owner` made `spender` the single approved spender of `id`.
    Approval { owner: Address, spender: Address, id: TokenId },
    /// `owner` granted or revoked blanket transfer rights for `operator`.
    ApprovalForAll { owner: Address, operator: Address, approved: bool },
}

/// Why an operation was rejected. Every rejection leaves the registry
/// unchanged.
#[derive(PartialEq, Eq, Structural, Clone, Copy, Debug)]
pub enum SERC721Error {
    /// The caller lacks ownership where ownership is required, or the target
    /// spender of an approval is already a blanket operator.
    NotOwner,
    /// The caller has neither ownership, operator status, nor single-token
    /// approval for a transfer.
    NotAuthorized,
    /// The destination is the zero account, or a mint targets an id that is
    /// already minted.
    InvalidRecipient,
    /// Reserved diagnostic kind; no operation currently produces it.
    NotApprovedForAll,
    /// A query named a token id with no recorded owner.
    NonexistentToken(TokenId),
    /// Reserved diagnostic kind; no operation currently produces it.
    NotMinted,
}

/// The balance an account has in a balance map: the stored value, or zero
/// for an account the map has never seen.
pub open spec fn balance_in(balances: Map<Address, u128>, account: Address) -> u128 {
    if balances.contains_key(account) {
        balances[account]
    } else {
        0
    }
}

/// The owner recorded for a token id, or the zero address if none is.
pub open spec fn owner_in(owners: Map<TokenId, Address>, id: TokenId) -> Address {
    if owners.contains_key(id) {
        owners[id]
    } else {
        ZERO_ADDRESS
    }
}

/// The set of token ids an owner map assigns to `account`.
pub open spec fn owned_ids_of(owners: Map<TokenId, Address>, account: Address) -> Set<TokenId> {
    owners.dom().filter(|id: TokenId| owners[id] == account)
}

/// Whether a sequence of (owner, operator) grants contains the given pair.
pub open spec fn operator_in(pairs: Seq<(Address, Address)>, owner: Address, operator: Address) -> bool {
    exists|i: int| 0 <= i < pairs.len() && pairs[i] == (owner, operator)
}

/// The token registry: who owns each token, how many tokens each account
/// owns, and which accounts may transfer on an owner's behalf.
pub struct SERC721<T: SERC721Details> {
    /// Token id to owning account; an entry exists exactly for minted ids.
    pub owners: HashMap<TokenId, Address>,
    /// Account to token count; an absent account owns zero tokens.
    pub balances: HashMap<Address, u128>,
    /// Token id to its single approved spender; absent means "none".
    pub token_approvals: HashMap<TokenId, Address>,
    /// The (owner, operator) pairs with blanket approval, each at most once.
    pub operator_pairs: Vec<(Address, Address)>,
    /// Ties the registry to its fixed deployment identity.
    pub details: core::marker::PhantomData<T>,
}

impl<T: SERC721Details> SERC721<T> {
    /// The owner map: token id to owning account, entries only for minted ids.
    pub open spec fn spec_owners(self) -> Map<TokenId, Address> {
        self.owners@
    }

    /// The balance map, absent accounts owning zero tokens.
    pub open spec fn spec_balances(self) -> Map<Address, u128> {
        self.balances@
    }

    /// The single-token approval map; an absent entry means "none".
    pub open spec fn spec_approvals(self) -> Map<TokenId, Address> {
        self.token_approvals@
    }

    /// The (owner, operator) pairs with blanket approval, in grant order.
    pub open spec fn spec_operator_pairs(self) -> Seq<(Address, Address)> {
        self.operator_pairs@
    }

    /// Whether token `id` has been minted (has a recorded owner).
    pub open spec fn spec_minted(self, id: TokenId) -> bool {
        self.owners@.contains_key(id)
    }

    /// The owner of `id`, or the zero address if `id` is not minted.
    pub open spec fn spec_owner_of(self, id: TokenId) -> Address {
        owner_in(self.owners@, id)
    }

    /// The number of tokens `account` owns.
    pub open spec fn spec_balance_of(self, account: Address) -> u128 {
        balance_in(self.balances@, account)
    }

    /// The approved spender of `id`, or the zero address if none is set.
    pub open spec fn spec_approved(self, id: TokenId) -> Address {
        if self.token_approvals@.contains_key(id) {
            self.token_approvals@[id]
        } else {
            ZERO_ADDRESS
        }
    }

    /// Whether `owner` has granted `operator` blanket transfer rights.
    pub open spec fn spec_operator(self, owner: Address, operator: Address) -> bool {
        operator_in(self.operator_pairs@, owner, operator)
    }

    /// Well-formedness: every recorded owner is a real account, every
    /// account's balance is exactly the number of token ids it owns, and no
    /// blanket grant is recorded twice. Established by [`SERC721::new`] and
    /// preserved by every mutation.
    pub open spec fn wf(self) -> bool {
        &&& forall|id: TokenId| #[trigger]
            self.owners@.contains_key(id) ==> self.owners@[id] != ZERO_ADDRESS
        &&& forall|a: Address| #![trigger balance_in(self.balances@, a)] #![trigger owned_ids_of(self.owners@, a)]
            balance_in(self.balances@, a) == owned_ids_of(self.owners@, a).len()
        &&& forall|i: int, j: int|
            0 <= i < j < self.operator_pairs@.len()
                ==> self.operator_pairs@[i] != self.operator_pairs@[j]
    }

    /// Creates an empty registry: nothing minted, all balances zero, no
    /// approvals or operator grants.
    pub fn new() -> (r: Self)
        ensures
            r.wf(),
            r.spec_owners() == Map::<TokenId, Address>::empty(),
            r.spec_balances() == Map::<Address, u128>::empty(),
            r.spec_approvals() == Map::<TokenId, Address>::empty(),
            r.spec_operator_pairs() == Seq::<(Address, Address)>::empty(),
    {
        let r = SERC721 {
            owners: HashMap::new(),
            balances: HashMap::new(),
            token_approvals: HashMap::new(),
            operator_pairs: Vec::new(),
            details: core::marker::PhantomData,
        };
        proof {
            assert forall|a: Address|
                balance_in(r.balances@, a) == owned_ids_of(r.owners@, a).len() by {
                assert(owned_ids_of(r.owners@, a) =~= Set::<TokenId>::empty());
            }
        }
        r
    }

    /// Returns the registry's fixed name.
    pub fn name(&self) -> (r: Result<String, SERC721Error>)
        ensures
            match r {
                Ok(s) => s@ == T::spec_name(),
                Err(_) => false,
            },
    {
        Ok(T::name())
    }

    /// Returns the registry's fixed symbol.
    pub fn symbol(&self) -> (r: Result<String, SERC721Error>)
        ensures
            match r {
                Ok(s) => s@ == T::spec_symbol(),
                Err(_) => false,
            },
    {
        Ok(T::symbol())
    }

    /// Returns the owner of `id`, or `NonexistentToken` if `id` was never
    /// minted.
    pub fn owner_of(&self, id: TokenId) -> (r: Result<Address, SERC721Error>)
        ensures
            r == if self.spec_minted(id) {
                Ok::<Address, SERC721Error>(self.spec_owner_of(id))
            } else {
                Err::<Address, SERC721Error>(SERC721Error::NonexistentToken(id))
            },
    {
        match self.owners.get(&id) {
            Some(owner) => Ok(*owner),
            None => Err(SERC721Error::NonexistentToken(id)),
        }
    }

    /// Returns how many tokens `owner` owns; zero for an account the
    /// registry has never seen. Never fails.
    pub fn balance_of(&self, owner: Address) -> (r: Result<u128, SERC721Error>)
        ensures
            r == Ok::<u128, SERC721Error>(self.spec_balance_of(owner)),
    {
        match self.balances.get(&owner) {
            Some(balance) => Ok(*balance),
            None => Ok(0),
        }
    }

    /// Returns the single approved spender of `id`, or the zero address if
    /// none is set. Deliberately does not check that `id` is minted.
    pub fn get_approved(&self, id: TokenId) -> (r: Result<Address, SERC721Error>)
        ensures
            r == Ok::<Address, SERC721Error>(self.spec_approved(id)),
    {
        match self.token_approvals.get(&id) {
            Some(spender) => Ok(*spender),
            None => Ok(ZERO_ADDRESS),
        }
    }

    /// Returns whether `owner` has granted `operator` blanket transfer
    /// rights; false by default. Never fails.
    pub fn is_approved_for_all(&self, owner: Address, operator: Address) -> (r: Result<
        bool,
        SERC721Error,
    >)
        ensures
            r == Ok::<bool, SERC721Error>(self.spec_operator(owner, operator)),
    {
        Ok(pair_present(&self.operator_pairs, owner, operator))
    }

    /// When a mint is accepted: the id has no owner yet and the recipient is
    /// a real account.
    pub open spec fn spec_mint_ok(self, to: Address, id: TokenId) -> bool {
        &&& !self.owners@.contains_key(id)
        &&& to != ZERO_ADDRESS
    }

    /// Brings token `id` into existence under owner `to`. Rejects with
    /// `InvalidRecipient` both an id that is already minted and the zero
    /// address as recipient; on success records `to` as owner, raises `to`'s
    /// balance by one, and reports the `Transfer` notification from the zero
    /// address. No authorization is checked: exposing mint safely is the
    /// surrounding environment's responsibility.
    pub fn _mint(&mut self, to: Address, id: TokenId) -> (r: Result<Event, SERC721Error>)
        requires
            old(self).wf(),
        ensures
            final(self).wf(),
            r == if old(self).spec_mint_ok(to, id) {
                Ok::<Event, SERC721Error>((Event::Transfer { from: ZERO_ADDRESS, to, id }))
            } else {
                Err::<Event, SERC721Error>(SERC721Error::InvalidRecipient)
            },
            old(self).spec_mint_ok(to, id) ==> {
                &&& final(self).owners@ == old(self).owners@.insert(id, to)
                &&& final(self).balances@ == old(self).balances@.insert(
                    to,
                    (balance_in(old(self).balances@, to) + 1) as u128,
                )
                &&& final(self).token_approvals@ == old(self).token_approvals@
                &&& final(self).operator_pairs@ == old(self).operator_pairs@
            },
            !old(self).spec_mint_ok(to, id) ==> {
                &&& final(self).owners@ == old(self).owners@
                &&& final(self).balances@ == old(self).balances@
                &&& final(self).token_approvals@ == old(self).token_approvals@
                &&& final(self).operator_pairs@ == old(self).operator_pairs@
            },
    {
        if self.owners.contains_key(&id) {
            return Err(SERC721Error::InvalidRecipient);
        }
        if to == ZERO_ADDRESS {
            return Err(SERC721Error::InvalidRecipient);
        }
        let minted_count = self.owners.len();
        let old_balance = match self.balances.get(&to) {
            Some(balance) => *balance,
            None => 0,
        };
        proof {
            lemma_owned_ids_finite(self.owners@, to);
            assert(old_balance < u128::MAX);
        }
        self.balances.insert(to, old_balance + 1);
        self.owners.insert(id, to);
        proof {
            let owners0 = old(self).owners@;
            lemma_owned_ids_insert(owners0, id, to);
            lemma_owned_ids_finite(owners0, to);
            assert forall|a: Address|
                balance_in(self.balances@, a) == owned_ids_of(self.owners@, a).len() by {
                if a == to {
                    assert(owned_ids_of(self.owners@, to) == owned_ids_of(owners0, to).insert(id));
                } else {
                    assert(owned_ids_of(self.owners@, a) == owned_ids_of(owners0, a));
                    assert(balance_in(self.balances@, a) == balance_in(old(self).balances@, a));
                }
            }
        }
        Ok(Event::Transfer { from: ZERO_ADDRESS, to, id })
    }

    /// Whether `caller` may move token `id` out of `from`'s hands: the owner
    /// itself, a blanket operator for the owner, or the token's single
    /// approved spender.
    pub open spec fn spec_transfer_authorized(self, caller: Address, from: Address, id: TokenId) -> bool {
        ||| caller == from
        ||| operator_in(self.operator_pairs@, from, caller)
        ||| self.spec_approved(id) == caller
    }

    /// When a transfer is accepted: `from` really owns `id`, the recipient
    /// is a real account, and the caller is authorized.
    pub open spec fn spec_transfer_ok(self, caller: Address, from: Address, to: Address, id: TokenId) -> bool {
        &&& self.owners@.contains_key(id) && self.owners@[id] == from
        &&& to != ZERO_ADDRESS
        &&& self.spec_transfer_authorized(caller, from, id)
    }

    /// The rejection a transfer reports, picked by the first failing check:
    /// ownership, then recipient, then authorization.
    pub open spec fn spec_transfer_err(self, caller: Address, from: Address, to: Address, id: TokenId) -> SERC721Error {
        if !(self.owners@.contains_key(id) && self.owners@[id] == from) {
            SERC721Error::NotOwner
        } else if to == ZERO_ADDRESS {
            SERC721Error::InvalidRecipient
        } else {
            SERC721Error::NotAuthorized
        }
    }

    /// Moves token `id` from `from` to `to` on behalf of `caller`. The
    /// checks run in order: `NotOwner` unless `from` owns `id`,
    /// `InvalidRecipient` on the zero address, `NotAuthorized` unless the
    /// caller is owner, operator or approved spender. On success the owner
    /// map is updated, `from`'s balance drops by one, `to`'s rises by one,
    /// the single-token approval of `id` is cleared, and the `Transfer`
    /// notification is reported. On failure nothing changes.
    pub fn transfer_from(&mut self, caller: Address, from: Address, to: Address, id: TokenId) -> (r:
        Result<Event, SERC721Error>)
        requires
            old(self).wf(),
        ensures
            final(self).wf(),
            r == if old(self).spec_transfer_ok(caller, from, to, id) {
                Ok::<Event, SERC721Error>((Event::Transfer { from, to, id }))
            } else {
                Err::<Event, SERC721Error>(old(self).spec_transfer_err(caller, from, to, id))
            },
            old(self).spec_transfer_ok(caller, from, to, id) ==> {
                &&& final(self).owners@ == old(self).owners@.insert(id, to)
                &&& final(self).token_approvals@ == old(self).token_approvals@.remove(id)
                &&& final(self).operator_pairs@ == old(self).operator_pairs@
                &&& from != to ==> {
                    &&& balance_in(final(self).balances@, from) == balance_in(
                        old(self).balances@,
                        from,
                    ) - 1
                    &&& balance_in(final(self).balances@, to) == balance_in(
                        old(self).balances@,
                        to,
                    ) + 1
                }
                &&& forall|a: Address|
                    a != from && a != to ==> balance_in(final(self).balances@, a) == balance_in(
                        old(self).balances@,
                        a,
                    )
                &&& from == to ==> balance_in(final(self).balances@, from) == balance_in(
                    old(self).balances@,
                    from,
                )
            },
            !old(self).spec_transfer_ok(caller, from, to, id) ==> {
                &&& final(self).owners@ == old(self).owners@
                &&& final(self).balances@ == old(self).balances@
                &&& final(self).token_approvals@ == old(self).token_approvals@
                &&& final(self).operator_pairs@ == old(self).operator_pairs@
            },
    {
        let owned_by_from = match self.owners.get(&id) {
            Some(owner) => *owner == from,
            None => false,
        };
        if !owned_by_from {
            return Err(SERC721Error::NotOwner);
        }
        if to == ZERO_ADDRESS {
            return Err(SERC721Error::InvalidRecipient);
        }
        if caller != from && !pair_present(&self.operator_pairs, from, caller) {
            let approved = match self.get_approved(id) {
                Ok(spender) => spender,
                Err(e) => return Err(e),
            };
            if approved != caller {
                return Err(SERC721Error::NotAuthorized);
            }
        }
        let minted_count = self.owners.len();
        let from_balance = match self.balances.get(&from) {
            Some(balance) => *balance,
            None => 0,
        };
        proof {
            lemma_owned_ids_finite(self.owners@, from);
            assert(owned_ids_of(self.owners@, from).contains(id));
            assert(from_balance >= 1);
        }
        self.balances.insert(from, from_balance - 1);
        let to_balance = match self.balances.get(&to) {
            Some(balance) => *balance,
            None => 0,
        };
        proof {
            lemma_owned_ids_finite(old(self).owners@, to);
            assert(to_balance < u128::MAX);
        }
        self.balances.insert(to, to_balance + 1);
        self.owners.insert(id, to);
        self.token_approvals.remove(&id);
        proof {
            let owners0 = old(self).owners@;
            let balances0 = old(self).balances@;
            if from == to {
                assert(self.owners@ =~= owners0);
                assert(to_balance == from_balance - 1);
                assert(self.balances@ =~= balances0.insert(from, from_balance));
                assert forall|a: Address|
                    balance_in(self.balances@, a) == owned_ids_of(self.owners@, a).len() by {
                    assert(owned_ids_of(self.owners@, a) == owned_ids_of(owners0, a));
                    if a == from {
                        assert(balance_in(self.balances@, a) == from_balance);
                    } else {
                        assert(balance_in(self.balances@, a) == balance_in(balances0, a));
                    }
                }
            } else {
                lemma_owned_ids_update(owners0, id, from, to);
                lemma_owned_ids_finite(owners0, from);
                lemma_owned_ids_finite(owners0, to);
                assert(to_balance == balance_in(balances0, to));
                assert forall|a: Address|
                    balance_in(self.balances@, a) == owned_ids_of(self.owners@, a).len() by {
                    if a == from {
                        assert(owned_ids_of(self.owners@, from) == owned_ids_of(
                            owners0,
                            from,
                        ).remove(id));
                    } else if a == to {
                        assert(owned_ids_of(self.owners@, to) == owned_ids_of(owners0, to).insert(
                            id,
                        ));
                    } else {
                        assert(owned_ids_of(self.owners@, a) == owned_ids_of(owners0, a));
                        assert(balance_in(self.balances@, a) == balance_in(balances0, a));
                    }
                }
            }
        }
        Ok(Event::Transfer { from, to, id })
    }

    /// When an approval is accepted: the caller is the token's recorded
    /// owner, and the target spender does not already hold blanket operator
    /// rights from that owner (an operator needs no single-token approval,
    /// so granting one is rejected).
    pub open spec fn spec_approve_ok(self, caller: Address, spender: Address, id: TokenId) -> bool {
        &&& self.spec_owner_of(id) == caller
        &&& !operator_in(self.operator_pairs@, self.spec_owner_of(id), spender)
    }

    /// Makes `spender` the single approved spender of token `id`, on behalf
    /// of `caller`. Rejects with `NotOwner` a caller that is not the
    /// recorded owner, and also a spender that is already a blanket operator
    /// for the owner. `spender` may be the zero address, which revokes the
    /// approval. On success the `Approval` notification is reported; on
    /// failure nothing changes.
    pub fn approve(&mut self, caller: Address, spender: Address, id: TokenId) -> (r: Result<
        Event,
        SERC721Error,
    >)
        requires
            old(self).wf(),
        ensures
            final(self).wf(),
            r == if old(self).spec_approve_ok(caller, spender, id) {
                Ok::<Event, SERC721Error>(
                    (Event::Approval { owner: old(self).spec_owner_of(id), spender, id }),
                )
            } else {
                Err::<Event, SERC721Error>(SERC721Error::NotOwner)
            },
            old(self).spec_approve_ok(caller, spender, id) ==> {
                &&& final(self).token_approvals@ == old(self).token_approvals@.insert(id, spender)
                &&& final(self).owners@ == old(self).owners@
                &&& final(self).balances@ == old(self).balances@
                &&& final(self).operator_pairs@ == old(self).operator_pairs@
            },
            !old(self).spec_approve_ok(caller, spender, id) ==> {
                &&& final(self).owners@ == old(self).owners@
                &&& final(self).balances@ == old(self).balances@
                &&& final(self).token_approvals@ == old(self).token_approvals@
                &&& final(self).operator_pairs@ == old(self).operator_pairs@
            },
    {
        let owner = match self.owners.get(&id) {
            Some(account) => *account,
            None => ZERO_ADDRESS,
        };
        let operator_already = match self.is_approved_for_all(owner, spender) {
            Ok(granted) => granted,
            Err(e) => return Err(e),
        };
        if owner != caller || operator_already {
            return Err(SERC721Error::NotOwner);
        }
        self.token_approvals.insert(id, spender);
        Ok(Event::Approval { owner, spender, id })
    }

    /// Grants or revokes blanket transfer rights over all of `caller`'s
    /// tokens to `operator`. Never fails; setting the state it already has
    /// changes nothing but still reports the `ApprovalForAll` notification.
    pub fn set_approval_for_all(&mut self, caller: Address, operator: Address, approved: bool) -> (r:
        Result<Event, SERC721Error>)
        requires
            old(self).wf(),
        ensures
            final(self).wf(),
            r == Ok::<Event, SERC721Error>(
                (Event::ApprovalForAll { owner: caller, operator, approved }),
            ),
            final(self).spec_operator(caller, operator) == approved,
            forall|o: Address, p: Address|
                (o, p) != (caller, operator) ==> final(self).spec_operator(o, p) == old(
                    self,
                ).spec_operator(o, p),
            final(self).owners@ == old(self).owners@,
            final(self).balances@ == old(self).balances@,
            final(self).token_approvals@ == old(self).token_approvals@,
    {
        let found = pair_index(&self.operator_pairs, caller, operator);
        if approved {
            if found.is_none() {
                self.operator_pairs.push((caller, operator));
                proof {
                    let pairs0 = old(self).operator_pairs@;
                    let pairs1 = self.operator_pairs@;
                    assert(pairs1[pairs0.len() as int] == (caller, operator));
                    assert forall|o: Address, p: Address|
                        (o, p) != (caller, operator) implies operator_in(pairs1, o, p)
                        == operator_in(pairs0, o, p) by {
                        if operator_in(pairs1, o, p) {
                            let k = choose|k: int|
                                0 <= k < pairs1.len() && pairs1[k] == (o, p);
                            assert(k < pairs0.len());
                            assert(pairs0[k] == (o, p));
                        }
                        if operator_in(pairs0, o, p) {
                            let k = choose|k: int|
                                0 <= k < pairs0.len() && pairs0[k] == (o, p);
                            assert(pairs1[k] == (o, p));
                        }
                    }
                }
            }
        } else {
            match found {
                Some(at) => {
                    self.operator_pairs.remove(at);
                    proof {
                        let pairs0 = old(self).operator_pairs@;
                        let pairs1 = self.operator_pairs@;
                        pairs0.remove_ensures(at as int);
                        assert forall|k: int|
                            0 <= k < pairs1.len() implies pairs1[k] != (caller, operator) by {
                            if k < at {
                                assert(pairs1[k] == pairs0[k]);
                            } else {
                                assert(pairs1[k] == pairs0[k + 1]);
                            }
                        }
                        assert forall|o: Address, p: Address|
                            (o, p) != (caller, operator) implies operator_in(pairs1, o, p)
                            == operator_in(pairs0, o, p) by {
                            if operator_in(pairs1, o, p) {
                                let k = choose|k: int|
                                    0 <= k < pairs1.len() && pairs1[k] == (o, p);
                                if k < at {
                                    assert(pairs0[k] == (o, p));
                                } else {
                                    assert(pairs0[k + 1] == (o, p));
                                }
                            }
                            if operator_in(pairs0, o, p) {
                                let k = choose|k: int|
                                    0 <= k < pairs0.len() && pairs0[k] == (o, p);
                                if k < at {
                                    assert(pairs1[k] == (o, p));
                                } else {
                                    assert(k != at);
                                    assert(pairs1[k - 1] == (o, p));
                                }
                            }
                        }
                        assert forall|i: int, j: int|
                            0 <= i < j < pairs1.len() implies pairs1[i] != pairs1[j] by {
                            let i0: int = if i < at { i } else { i + 1 };
                            let j0: int = if j < at { j } else { j + 1 };
                            assert(pairs1[i] == pairs0[i0]);
                            assert(pairs1[j] == pairs0[j0]);
                        }
                    }
                },
                None => (),
            }
        }
        Ok(Event::ApprovalForAll { owner: caller, operator, approved })
    }

    /// Law: in every well-formed registry, an account's balance is exactly
    /// the number of token ids whose owner it is. Every mutation ensures
    /// well-formedness, so this holds at all times.
    pub proof fn lemma_balance_counts_owned(self, account: Address)
        requires
            self.wf(),
        ensures
            self.spec_balance_of(account) == owned_ids_of(self.owners@, account).len(),
    {
    }

    /// Law: after a mint of `id` to `to` is accepted, `to` is the owner of
    /// `id`, and a second mint of `id` is rejected whatever its recipient.
    /// `post` is the registry state that [`SERC721::_mint`] ensures on
    /// success.
    pub proof fn lemma_mint_then_owner(self, post: Self, to: Address, id: TokenId, to2: Address)
        requires
            self.spec_mint_ok(to, id),
            post.owners@ == self.owners@.insert(id, to),
        ensures
            post.spec_minted(id),
            post.spec_owner_of(id) == to,
            !post.spec_mint_ok(to2, id),
    {
    }

    /// Law: after a transfer of `id` is accepted, the single-token approval
    /// of `id` is the "none" sentinel, whatever it held before. `post` is
    /// the registry state that [`SERC721::transfer_from`] ensures on
    /// success.
    pub proof fn lemma_transfer_clears_approval(self, post: Self, id: TokenId)
        requires
            post.token_approvals@ == self.token_approvals@.remove(id),
        ensures
            post.spec_approved(id) == ZERO_ADDRESS,
    {
    }

    /// Law: authorization is monotone in operator grants. Once `from` has
    /// granted `operator` blanket approval, a transfer by `operator` of any
    /// token `from` owns, to any real recipient, is accepted without a
    /// per-token approval.
    pub proof fn lemma_operator_may_transfer(
        self,
        operator: Address,
        from: Address,
        to: Address,
        id: TokenId,
    )
        requires
            self.spec_operator(from, operator),
            self.spec_minted(id),
            self.spec_owner_of(id) == from,
            to != ZERO_ADDRESS,
        ensures
            self.spec_transfer_ok(operator, from, to, id),
    {
    }

    /// Law: an approval by anyone but the token's recorded owner is
    /// rejected, and so is an approval whose spender already holds blanket
    /// operator rights from the owner; [`SERC721::approve`] then reports
    /// `NotOwner` and changes nothing.
    pub proof fn lemma_approve_rejections(self, caller: Address, spender: Address, id: TokenId)
        requires
            caller != self.spec_owner_of(id) || operator_in(
                self.operator_pairs@,
                self.spec_owner_of(id),
                spender,
            ),
        ensures
            !self.spec_approve_ok(caller, spender, id),
    {
    }
}

/// How minting moves the per-account ownership sets: the fresh id joins the
/// recipient's set and every other account's set is untouched.
proof fn lemma_owned_ids_insert(owners: Map<TokenId, Address>, id: TokenId, to: Address)
    requires
        !owners.contains_key(id),
    ensures
        owned_ids_of(owners.insert(id, to), to) == owned_ids_of(owners, to).insert(id),
        !owned_ids_of(owners, to).contains(id),
        forall|a: Address|
            a != to ==> owned_ids_of(owners.insert(id, to), a) == owned_ids_of(owners, a),
{
    assert(owned_ids_of(owners.insert(id, to), to) =~= owned_ids_of(owners, to).insert(id));
    assert forall|a: Address|
        a != to implies owned_ids_of(owners.insert(id, to), a) == owned_ids_of(owners, a) by {
        assert(owned_ids_of(owners.insert(id, to), a) =~= owned_ids_of(owners, a));
    }
}

/// How a transfer moves the per-account ownership sets: the id leaves the
/// sender's set, joins the recipient's set, and no other set changes.
proof fn lemma_owned_ids_update(owners: Map<TokenId, Address>, id: TokenId, from: Address, to: Address)
    requires
        owners.contains_key(id),
        owners[id] == from,
        from != to,
    ensures
        owned_ids_of(owners.insert(id, to), to) == owned_ids_of(owners, to).insert(id),
        !owned_ids_of(owners, to).contains(id),
        owned_ids_of(owners.insert(id, to), from) == owned_ids_of(owners, from).remove(id),
        owned_ids_of(owners, from).contains(id),
        forall|a: Address|
            a != to && a != from ==> owned_ids_of(owners.insert(id, to), a) == owned_ids_of(
                owners,
                a,
            ),
{
    assert(owned_ids_of(owners.insert(id, to), to) =~= owned_ids_of(owners, to).insert(id));
    assert(owned_ids_of(owners.insert(id, to), from) =~= owned_ids_of(owners, from).remove(id));
    assert forall|a: Address|
        a != to && a != from implies owned_ids_of(owners.insert(id, to), a) == owned_ids_of(
        owners,
        a,
    ) by {
        assert(owned_ids_of(owners.insert(id, to), a) =~= owned_ids_of(owners, a));
    }
}

/// An account's ownership set is a finite subset of the minted ids.
proof fn lemma_owned_ids_finite(owners: Map<TokenId, Address>, account: Address)
    requires
        owners.dom().finite(),
    ensures
        owned_ids_of(owners, account).finite(),
        owned_ids_of(owners, account).len() <= owners.dom().len(),
{
    assert(owned_ids_of(owners, account).subset_of(owners.dom()));
    vstd::set_lib::lemma_len_subset(owned_ids_of(owners, account), owners.dom());
}

/// Linear scan for the position of an (owner, operator) pair in the grant
/// list.
fn pair_index(pairs: &Vec<(Address, Address)>, owner: Address, operator: Address) -> (r: Option<
    usize,
>)
    ensures
        match r {
            Some(at) => at < pairs@.len() && pairs@[at as int] == (owner, operator),
            None => !operator_in(pairs@, owner, operator),
        },
{
    let mut k: usize = 0;
    while k < pairs.len()
        invariant
            k <= pairs@.len(),
            forall|j: int| 0 <= j < k ==> pairs@[j] != (owner, operator),
        decreases pairs@.len() - k,
    {
        if pairs[k].0 == owner && pairs[k].1 == operator {
            assert(pairs@[k as int] == (owner, operator));
            return Some(k);
        }
        k = k + 1;
    }
    None
}

/// Linear scan for an (owner, operator) pair in the grant list.
fn pair_present(pairs: &Vec<(Address, Address)>, owner: Address, operator: Address) -> (r: bool)
    ensures
        r == operator_in(pairs@, owner, operator),
{
    let mut k: usize = 0;
    while k < pairs.len()
        invariant
            k <= pairs@.len(),
            forall|j: int| 0 <= j < k ==> pairs@[j] != (owner, operator),
        decreases pairs@.len() - k,
    {
        if pairs[k].0 == owner && pairs[k].1 == operator {
            assert(pairs@[k as int] == (owner, operator));
            return true;
        }
        k = k + 1;
    }
    false
}

} // verus!
