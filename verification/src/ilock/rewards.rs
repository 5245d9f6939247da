//! Rewarding interlockers, the tax pool, and the port/socket formalism through
//! which approved rewards contracts pay rewards out of the rewards pool.
use vstd::prelude::*;
use crate::account::{AccountId, CodeHash};
use crate::psp22::{not_owner_error, psp22_result, PSP22Error, Psp22ErrorView};
use crate::ilock::errors::{
    other_into_psp22, other_result, psp22_into_other, OtherError, OtherErrorView,
};
use crate::ilock::pools::{REWARDS, SUPPLY_CAP};
use crate::ilock::token::{
    allowance_in, approve_step, balance, empty_port, empty_socket, refusal_of_ledger, refusal_of_transfer_from,
    transfer_from_step,
    transfer_step, Approval, Event, ILOCKtoken, Port, Reward, Socket,
    TokenView,
};

verus! {

/// The amount rewarded to `interlocker` so far.
pub open spec fn rewarded_to(v: TokenView, interlocker: AccountId) -> u128 {
    if v.rewarded.contains_key(interlocker) {
        v.rewarded[interlocker]
    } else {
        0
    }
}

/// A manual reward of `reward` by `caller` to `interlocker` from the rewards
/// pool; on success the interlocker's new total is returned. A refused reward
/// changes nothing.
pub open spec fn reward_step(v: TokenView, caller: AccountId, reward: u128, interlocker: AccountId) -> Option<
    (TokenView, Result<u128, Psp22ErrorView>),
> {
    if caller != v.owner {
        Some((v, Err(not_owner_error())))
    } else if v.pools[REWARDS as int] < reward {
        Some((v, Err(other_into_psp22(OtherErrorView::PaymentTooLarge))))
    } else if v.rewarded_total + reward > u128::MAX {
        None
    } else {
        let v0 = TokenView {
            rewarded_total: (v.rewarded_total + reward) as u128,
            pools: v.pools.update(REWARDS as int, (v.pools[REWARDS as int] - reward) as u128),
            ..v
        };
        match transfer_step(v0, caller, interlocker, reward) {
            None => None,
            Some((_, Err(e))) => Some((v, Err(e))),
            Some((v1, Ok(()))) => {
                let total = rewarded_to(v1, interlocker) + reward;
                if total > u128::MAX {
                    None
                } else {
                    Some(
                        (
                            TokenView {
                                rewarded: v1.rewarded.insert(interlocker, total as u128),
                                events: v1.events.push(
                                    Event::Reward(Reward { to: Some(interlocker), amount: reward }),
                                ),
                                ..v1
                            },
                            Ok(total as u128),
                        ),
                    )
                }
            },
        }
    }
}

/// Withdrawing `amount` of collected tax to `wallet`, by `caller`.
pub open spec fn withdraw_tax_step(v: TokenView, caller: AccountId, wallet: AccountId, amount: u128) -> Option<
    (TokenView, Result<(), Psp22ErrorView>),
> {
    if caller != v.owner {
        Some((v, Err(not_owner_error())))
    } else if amount > v.taxpool {
        Some((v, Err(other_into_psp22(OtherErrorView::PaymentTooLarge))))
    } else {
        match transfer_step(v, caller, wallet, amount) {
            None => None,
            Some((v1, Err(e))) => Some((v1, Err(e))),
            Some((v1, Ok(()))) => Some(
                (TokenView { taxpool: (v1.taxpool - amount) as u128, ..v1 }, Ok(())),
            ),
        }
    }
}

/// Opening port `number` by `caller`.
pub open spec fn create_port_step(
    v: TokenView,
    caller: AccountId,
    codehash: CodeHash,
    tax: u128,
    cap: u128,
    locked: bool,
    number: u16,
) -> (TokenView, Result<(), Psp22ErrorView>) {
    if caller != v.owner {
        (v, Err(not_owner_error()))
    } else {
        (
            TokenView {
                ports: v.ports.insert(
                    number,
                    Port { hash: codehash, tax, cap, locked, paid: 0, collected: 0 },
                ),
                ..v
            },
            Ok(()),
        )
    }
}

/// Connecting the calling contract to port `number` on behalf of `owner`.
/// `caller_hash` is the caller's code hash, `None` where it has none.
pub open spec fn create_socket_step(
    v: TokenView,
    caller: AccountId,
    caller_is_contract: bool,
    caller_hash: Option<CodeHash>,
    owner: AccountId,
    number: u16,
) -> (TokenView, Result<(), OtherErrorView>) {
    if !caller_is_contract {
        (v, Err(OtherErrorView::NotContract))
    } else if caller_hash is None {
        (v, Err(OtherErrorView::NotContract))
    } else if !v.ports.contains_key(number) {
        (v, Err(OtherErrorView::NoPort))
    } else {
        let port = v.ports[number];
        if port.locked && v.owner != owner {
            (v, Err(OtherErrorView::PortLocked))
        } else if caller_hash.unwrap() == port.hash {
            (
                TokenView {
                    sockets: v.sockets.insert(caller, Socket { address: owner, port: number }),
                    allowances: v.allowances.insert((v.owner, caller), port.cap),
                    events: v.events.push(
                        Event::Approval(
                            Approval {
                                owner: Some(v.owner),
                                spender: Some(owner),
                                amount: port.cap,
                            },
                        ),
                    ),
                    ..v
                },
                Ok(()),
            )
        } else {
            (v, Err(OtherErrorView::UnsafeContract))
        }
    }
}

/// Charging the port's tax to the socket `owner` and paying `amount` to
/// `address` through port `portnumber`, both out of the allowances given to the
/// connected contract `caller`. A refusal at any point changes nothing.
pub open spec fn tax_and_reward_step(
    v: TokenView,
    caller: AccountId,
    owner: AccountId,
    address: AccountId,
    amount: u128,
    portnumber: u16,
) -> Option<(TokenView, Result<(), OtherErrorView>)> {
    if !v.ports.contains_key(portnumber) {
        Some((v, Err(OtherErrorView::NoPort)))
    } else {
        let port = v.ports[portnumber];
        if port.paid + amount > u128::MAX {
            None
        } else if port.cap < port.paid + amount {
            Some((v, Err(OtherErrorView::PortCapSurpassed)))
        } else {
            match transfer_from_step(v, caller, owner, v.owner, port.tax) {
                None => None,
                Some((_, Err(e))) => Some((v, Err(psp22_into_other(e)))),
                Some((v1, Ok(()))) => {
                    if v1.taxpool + port.tax > u128::MAX || port.collected + port.tax > u128::MAX {
                        None
                    } else {
                        let v2 = TokenView { taxpool: (v1.taxpool + port.tax) as u128, ..v1 };
                        match transfer_from_step(v2, caller, v.owner, address, amount) {
                            None => None,
                            Some((_, Err(e))) => Some((v, Err(psp22_into_other(e)))),
                            Some((v3, Ok(()))) => {
                                if amount + port.tax > u128::MAX || v3.pools[REWARDS as int] < amount
                                    + port.tax || v3.rewarded_total + amount > u128::MAX {
                                    None
                                } else {
                                    Some(
                                        (
                                            TokenView {
                                                pools: v3.pools.update(
                                                    REWARDS as int,
                                                    (v3.pools[REWARDS as int] - (amount + port.tax)) as u128,
                                                ),
                                                rewarded_total: (v3.rewarded_total + amount) as u128,
                                                ports: v3.ports.insert(
                                                    portnumber,
                                                    Port {
                                                        paid: (port.paid + amount) as u128,
                                                        collected: (port.collected + port.tax) as u128,
                                                        ..port
                                                    },
                                                ),
                                                events: v3.events.push(
                                                    Event::Reward(Reward { to: Some(address), amount }),
                                                ),
                                                ..v3
                                            },
                                            Ok(()),
                                        ),
                                    )
                                }
                            },
                        }
                    }
                },
            }
        }
    }
}

/// Whether `port` is one that sockets may be registered with.
pub open spec fn valid_socket_port(port: u16) -> bool {
    port <= 39 || port == 65535
}

/// A reward of `amount` to `address` requested by the connected contract `caller`.
pub open spec fn call_socket_step(
    v: TokenView,
    caller: AccountId,
    address: AccountId,
    address_is_contract: bool,
    amount: u128,
) -> Option<(TokenView, Result<(), OtherErrorView>)> {
    if address_is_contract {
        Some((v, Err(OtherErrorView::CannotRewardContract)))
    } else if !v.sockets.contains_key(caller) {
        Some((v, Err(OtherErrorView::NoSocket)))
    } else {
        let socket = v.sockets[caller];
        if valid_socket_port(socket.port) {
            tax_and_reward_step(v, caller, socket.address, address, amount, socket.port)
        } else {
            Some((v, Err(OtherErrorView::Custom("Socket registered with invalid port."@))))
        }
    }
}

impl ILOCKtoken {
    /// Rewards `interlocker` with `reward` from the rewards pool and returns
    /// the interlocker's new total.
    pub fn reward_interlocker(&mut self, caller: AccountId, reward: u128, interlocker: AccountId) -> (r:
        Result<u128, PSP22Error>)
        requires
            old(self).wf(),
            reward_step(old(self)@, caller, reward, interlocker) is Some,
        ensures
            final(self).wf(),
            reward_step(old(self)@, caller, reward, interlocker) == Some((final(self)@, psp22_result(r))),
    {
        self.only_owner(caller)?;
        let r = REWARDS as usize;
        if self.poolbalances[r] < reward {
            return Err(OtherError::PaymentTooLarge.into_psp22());
        }
        let from_balance = self.psp22.balance_of(caller);
        match refusal_of_ledger(caller, interlocker, reward, from_balance) {
            Some(e) => {
                return Err(e);
            },
            None => {},
        }
        self.rewardedtotal = self.rewardedtotal + reward;
        self.poolbalances[r] = self.poolbalances[r] - reward;
        assert(self@ =~= TokenView {
            rewarded_total: (old(self)@.rewarded_total + reward) as u128,
            pools: old(self)@.pools.update(
                REWARDS as int,
                (old(self)@.pools[REWARDS as int] - reward) as u128,
            ),
            ..old(self)@
        });
        self.transfer(caller, interlocker, reward, Vec::new())?;
        let previous: u128 = match self.rewardedinterlocker.get(&interlocker) {
            Some(total) => *total,
            None => 0,
        };
        self.rewardedinterlocker.insert(interlocker, previous + reward);
        self.events.push(Event::Reward(Reward { to: Some(interlocker), amount: reward }));
        Ok(previous + reward)
    }

    /// The amount rewarded to `interlocker` so far.
    pub fn rewarded_interlocker_total(&self, interlocker: AccountId) -> (r: u128)
        requires
            self.wf(),
        ensures
            r == rewarded_to(self@, interlocker),
    {
        match self.rewardedinterlocker.get(&interlocker) {
            Some(total) => *total,
            None => 0,
        }
    }

    /// The amount rewarded in all so far.
    pub fn rewarded_total(&self) -> (r: u128)
        ensures
            r == self@.rewarded_total,
    {
        self.rewardedtotal
    }

    /// Sends `amount` of the collected tax to `wallet`.
    pub fn withdraw_tax(&mut self, caller: AccountId, wallet: AccountId, amount: u128) -> (r: Result<
        (),
        PSP22Error,
    >)
        requires
            old(self).wf(),
            withdraw_tax_step(old(self)@, caller, wallet, amount) is Some,
        ensures
            final(self).wf(),
            withdraw_tax_step(old(self)@, caller, wallet, amount) == Some(
                (final(self)@, psp22_result(r)),
            ),
    {
        self.only_owner(caller)?;
        if amount > self.taxpool {
            return Err(OtherError::PaymentTooLarge.into_psp22());
        }
        self.transfer(caller, wallet, amount, Vec::new())?;
        self.taxpool = self.taxpool - amount;
        Ok(())
    }

    /// The collected tax available for withdrawal.
    pub fn tax_available(&self) -> (r: u128)
        ensures
            r == self@.taxpool,
    {
        self.taxpool
    }

    /// The supply minted at launch.
    pub fn cap(&self) -> (r: u128)
        ensures
            r == SUPPLY_CAP,
    {
        SUPPLY_CAP
    }

    /// Checks that `caller` may replace the contract's code with `code_hash`;
    /// the replacement itself is done by the environment when this succeeds.
    pub fn update_contract(&self, caller: AccountId, code_hash: [u8; 32]) -> (r: Result<(), PSP22Error>)
        ensures
            (r is Ok) <==> caller == self@.owner,
            r matches Err(e) ==> e@ == not_owner_error(),
    {
        self.only_owner(caller)
    }

    /// Opens port `number` for contracts with code hash `codehash`.
    pub fn create_port(
        &mut self,
        caller: AccountId,
        codehash: CodeHash,
        tax: u128,
        cap: u128,
        locked: bool,
        number: u16,
    ) -> (r: Result<(), PSP22Error>)
        requires
            old(self).wf(),
        ensures
            final(self).wf(),
            create_port_step(old(self)@, caller, codehash, tax, cap, locked, number) == (
                final(self)@,
                psp22_result(r),
            ),
    {
        self.only_owner(caller)?;
        let port = Port { hash: codehash, tax: tax, cap: cap, locked: locked, paid: 0, collected: 0 };
        self.ports.insert(number, port);
        assert(self@ =~= create_port_step(old(self)@, caller, codehash, tax, cap, locked, number).0);
        Ok(())
    }

    /// The port with number `port`, or an all-zero port where there is none.
    pub fn port(&self, port: u16) -> (r: Port)
        requires
            self.wf(),
        ensures
            r == (if self@.ports.contains_key(port) {
                self@.ports[port]
            } else {
                empty_port()
            }),
    {
        match self.ports.get(&port) {
            Some(p) => *p,
            None => Port::default(),
        }
    }

    /// The socket of `contract`, or an all-zero socket where there is none.
    pub fn socket(&self, contract: AccountId) -> (r: Socket)
        requires
            self.wf(),
        ensures
            r == (if self@.sockets.contains_key(contract) {
                self@.sockets[contract]
            } else {
                empty_socket()
            }),
    {
        match self.sockets.get(&contract) {
            Some(s) => *s,
            None => Socket::default(),
        }
    }

    /// Connects the calling rewards contract to port `number` on behalf of
    /// `owner`, and lets it spend up to the port's cap from the token owner.
    pub fn create_socket(
        &mut self,
        caller: AccountId,
        caller_is_contract: bool,
        caller_hash: Option<CodeHash>,
        owner: AccountId,
        number: u16,
    ) -> (r: Result<(), OtherError>)
        requires
            old(self).wf(),
        ensures
            final(self).wf(),
            create_socket_step(old(self)@, caller, caller_is_contract, caller_hash, owner, number) == (
                final(self)@,
                other_result(r),
            ),
    {
        if !caller_is_contract {
            return Err(OtherError::NotContract);
        }
        let calling_hash = match caller_hash {
            Some(hash) => hash,
            None => {
                return Err(OtherError::NotContract);
            },
        };
        let port: Port = match self.ports.get(&number) {
            Some(port) => *port,
            None => {
                return Err(OtherError::NoPort);
            },
        };
        if port.locked && !self.owner.same(&owner) {
            return Err(OtherError::PortLocked);
        }
        if calling_hash.same(&port.hash) {
            let socket = Socket { address: owner, port: number };
            self.sockets.insert(caller, socket);
            self.psp22.set_allowance(self.owner, caller, port.cap);
            self.events.push(
                Event::Approval(
                    Approval { owner: Some(self.owner), spender: Some(owner), amount: port.cap },
                ),
            );
            assert(self@ =~= create_socket_step(
                old(self)@,
                caller,
                caller_is_contract,
                caller_hash,
                owner,
                number,
            ).0);
            return Ok(());
        }
        Err(OtherError::UnsafeContract)
    }

    /// Charges the port's tax to the socket `owner` and pays `amount` to
    /// `address` through port `portnumber`, both out of the allowances given
    /// to the connected contract `caller`.
    pub fn tax_and_reward(
        &mut self,
        caller: AccountId,
        owner: AccountId,
        address: AccountId,
        amount: u128,
        portnumber: u16,
    ) -> (r: Result<(), OtherError>)
        requires
            old(self).wf(),
            tax_and_reward_step(old(self)@, caller, owner, address, amount, portnumber) is Some,
        ensures
            final(self).wf(),
            tax_and_reward_step(old(self)@, caller, owner, address, amount, portnumber) == Some(
                (final(self)@, other_result(r)),
            ),
    {
        let mut port: Port = match self.ports.get(&portnumber) {
            Some(port) => *port,
            None => {
                return Err(OtherError::NoPort);
            },
        };
        if port.cap < port.paid + amount {
            return Err(OtherError::PortCapSurpassed);
        }
        let token_owner = self.owner;
        // the tax: from the socket owner to the token owner
        let tax_allowance = self.psp22.allowance(owner, caller);
        let owner_balance = self.psp22.balance_of(owner);
        match refusal_of_transfer_from(caller, owner, token_owner, port.tax, tax_allowance, owner_balance) {
            Some(e) => {
                return Err(OtherError::from_psp22(e));
            },
            None => {},
        }
        // the reward: from the token owner to `address`, once the tax is paid
        let reward_allowance = if owner.same(&token_owner) {
            tax_allowance - port.tax
        } else {
            self.psp22.allowance(token_owner, caller)
        };
        proof {
            if owner != token_owner {
                self.psp22.lemma_two_balances_le_supply(owner, token_owner);
            }
        }
        let token_owner_balance = if owner.same(&token_owner) {
            owner_balance
        } else {
            self.psp22.balance_of(token_owner) + port.tax
        };
        let ghost v = self@;
        let ghost v1 = transfer_from_step(v, caller, owner, token_owner, port.tax).unwrap().0;
        proof {
            let w = approve_step(v, owner, caller, (tax_allowance - port.tax) as u128).0;
            assert(allowance_in(v1, token_owner, caller) == reward_allowance);
            assert(balance(w, token_owner) == balance(v, token_owner));
            assert(balance(v1, token_owner) == token_owner_balance);
        }
        match refusal_of_transfer_from(
            caller,
            token_owner,
            address,
            amount,
            reward_allowance,
            token_owner_balance,
        ) {
            Some(e) => {
                return Err(OtherError::from_psp22(e));
            },
            None => {},
        }
        match self.transfer_from(caller, owner, token_owner, port.tax, Vec::new()) {
            Err(e) => {
                return Err(OtherError::from_psp22(e));
            },
            Ok(()) => {},
        }
        self.taxpool = self.taxpool + port.tax;
        port.collected = port.collected + port.tax;
        match self.transfer_from(caller, token_owner, address, amount, Vec::new()) {
            Err(e) => {
                return Err(OtherError::from_psp22(e));
            },
            Ok(()) => {},
        }
        let r = REWARDS as usize;
        self.poolbalances[r] = self.poolbalances[r] - (amount + port.tax);
        self.rewardedtotal = self.rewardedtotal + amount;
        port.paid = port.paid + amount;
        self.ports.insert(portnumber, port);
        self.events.push(Event::Reward(Reward { to: Some(address), amount: amount }));
        assert(self@ =~= tax_and_reward_step(old(self)@, caller, owner, address, amount, portnumber).unwrap().0);
        Ok(())
    }

    /// Rewards `address` with `amount` on behalf of the connected contract
    /// `caller`, through the port of its socket.
    pub fn call_socket(
        &mut self,
        caller: AccountId,
        address: AccountId,
        address_is_contract: bool,
        amount: u128,
    ) -> (r: Result<(), OtherError>)
        requires
            old(self).wf(),
            call_socket_step(old(self)@, caller, address, address_is_contract, amount) is Some,
        ensures
            final(self).wf(),
            call_socket_step(old(self)@, caller, address, address_is_contract, amount) == Some(
                (final(self)@, other_result(r)),
            ),
            !address_is_contract && old(self)@.sockets.contains_key(caller) && valid_socket_port(
                old(self)@.sockets[caller].port,
            ) ==> tax_and_reward_step(
                old(self)@,
                caller,
                old(self)@.sockets[caller].address,
                address,
                amount,
                old(self)@.sockets[caller].port,
            ) == Some((final(self)@, other_result(r))),
    {
        if address_is_contract {
            return Err(OtherError::CannotRewardContract);
        }
        let socket: Socket = match self.sockets.get(&caller) {
            Some(socket) => *socket,
            None => {
                return Err(OtherError::NoSocket);
            },
        };
        let owner: AccountId = socket.address;
        if socket.port <= 39 || socket.port == 65535 {
            self.tax_and_reward(caller, owner, address, amount, socket.port)?;
        } else {
            return Err(OtherError::Custom(String::from_str("Socket registered with invalid port.")));
        }
        Ok(())
    }
}

} // verus!
