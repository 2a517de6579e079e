//! Recursive checkout of the submodules of a git repository.
//!
//! This library holds what the tool decides. It never touches the disk or the network: the caller
//! performs the operations that it asks for and hands it what they bring.
//!
//! - [`args`]: what the tool is asked to do, on the command line and through the environment.
//! - [`config`], [`paths`], [`plan`]: which submodules there are, and what is to be done to them.
//! - [`visit`]: the visit of one submodule, from its checkout to that of its own submodules.
//! - [`tree`]: what the visits of all submodules report together.
//! - [`model`], [`checkout`], [`course`], [`laws`]: the checkout of one submodule; as a transition
//!   system, as code, operation by operation, and what holds of every run.
//! - [`status`], [`flags`]: what the changed files of a worktree mean for a checkout.
//! - [`retry`], [`credentials`]: how to deal with passing trouble and with remotes.
//! - [`failure`], [`report`], [`text`]: what is told to the user.
pub mod args;
pub mod checkout;
pub mod config;
pub mod course;
pub mod credentials;
pub mod failure;
pub mod flags;
pub mod laws;
pub mod model;
pub mod paths;
pub mod plan;
pub mod report;
pub mod retry;
pub mod status;
pub mod text;
pub mod tree;
pub mod visit;

use vstd::prelude::*;

verus! {

/// What a checkout did to a submodule.
#[derive(Clone, Copy, Debug, PartialEq, Eq, Structural)]
pub enum CheckoutResult {
    /// The submodule was moved to another commit.
    Changed,
    /// The submodule was already where it should be.
    Unchanged,
}

} // verus!
