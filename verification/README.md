# interlock

Verified models of the Interlock Network smart contracts, written in Verus.

The contracts' logic is in `src/`: every message is an executable function
whose contract relates the state before and after it, and the environment's
answers (caller, block time, whether an account is a contract, a contract's
code hash) are arguments.

- `account` — 32-byte account ids and code hashes; the reserved zero address.
- `keymap` — a finite map kept as a list of entries with distinct keys, with
  the sum of its values for balance maps.
- `psp22` — the fungible-token ledger (balances, allowances, supply) and its
  errors; the balances always add up to the supply.
- `psp34` — the non-fungible-token ledger (owners, counts, operator approvals).
- `ilock` — the ILOCK token: PSP22 messages with the owner's circulation
  bookkeeping, stakeholder vesting pools, rewards, the tax pool and the
  port/socket formalism; a message that fails changes nothing. `laws` holds
  the properties that span messages, `history` those that hold over whole
  sequences of calls (vesting, pool cover and balance, port accounting,
  circulation, the month schedule),
  and `guards` tells whether a message's arithmetic stays in range.
- `access` — the access NFT contract (Bouncer licenses, VIP memberships,
  authenticated flags).
- `supreme` — the supreme node's deployment plan: its instantiations in
  order, the staking contract built from the two contracts created before it.
- `solana` — the Solana program's error codes, messages and instructions.
- `text` — decimal and quoted text for the contracts' reports.

`app/` reads the environment from ink!, refuses the inputs on which a message
is not defined, performs code upgrades, and gives the Solana errors their
`Display` text and `ProgramError` conversion.
