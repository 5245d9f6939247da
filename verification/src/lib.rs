//! Verified models of the Interlock Network contracts: the ILOCK PSP22
//! token with its vesting pools, rewards and port/socket formalism, the
//! PSP34 access NFT contract, the supreme node's instantiation plan, and
//! the Solana program's error codes and instructions.
pub mod account;
pub mod keymap;
pub mod psp22;
pub mod psp34;
pub mod access;
pub mod ilock;
pub mod text;
pub mod supreme;
pub mod solana;

