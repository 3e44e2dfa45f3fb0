//! Memory-hard proof of work on a toroidal cellular automaton.
//!
//! Two credential strings are hashed into a seed, the seed is expanded into a
//! grid of cells, the grid is evolved for a number of generations, and the
//! final grid is hashed into a hexadecimal digest. The digest is costly to
//! produce and is checked by producing it again from the same inputs.

pub mod cli;
pub mod digest;
pub mod engine;
pub mod grid;
pub mod render;
pub mod rng;

pub use engine::{generate_grid_from_seed, run_simulation};
pub use grid::Grid;

use vstd::prelude::*;
use crate::digest::{calculate_grid_hash, credential_seed, hex_lower, sha256};
use crate::engine::{evolve, seeded_grid};
use crate::grid::GridView;

verus! {

/// The side of the square grid on which `prove_work` runs.
pub const CHALLENGE_SIDE: usize = 500;

/// The final grid of a proof: the initial grid of the credentials after
/// `steps` generations.
pub open spec fn proof_grid(
    username: Seq<char>,
    password: Seq<char>,
    width: nat,
    height: nat,
    steps: nat,
) -> GridView<u8> {
    evolve(seeded_grid(credential_seed(username, password), width, height), steps)
}

/// The digest of a proof: the digest of its final grid in hexadecimal.
pub open spec fn proof_digest(
    username: Seq<char>,
    password: Seq<char>,
    width: nat,
    height: nat,
    steps: nat,
) -> Seq<char> {
    hex_lower(sha256(proof_grid(username, password, width, height, steps).cells))
}

/// Produces the proof of a pair of credentials on a grid of the given size:
/// the final grid and its digest. Both depend on nothing but the arguments.
pub fn prove_work_sized(
    username: &str,
    password: &str,
    width: usize,
    height: usize,
    steps: usize,
) -> (outcome: (Grid<u8>, String))
    requires
        width * height <= isize::MAX,
    ensures
        outcome.0@ == proof_grid(username@, password@, width as nat, height as nat, steps as nat),
        outcome.1@ == proof_digest(
            username@,
            password@,
            width as nat,
            height as nat,
            steps as nat,
        ),
{
    let initial_grid = generate_grid_from_seed(username, password, width, height);
    let final_grid = run_simulation(initial_grid, steps);
    let digest = calculate_grid_hash(&final_grid);
    (final_grid, digest)
}

/// Produces the digest of a pair of credentials on the challenge grid of
/// 500 by 500 cells.
pub fn prove_work(username: &str, password: &str, steps: usize) -> (digest: String)
    ensures
        digest@ == proof_digest(
            username@,
            password@,
            CHALLENGE_SIDE as nat,
            CHALLENGE_SIDE as nat,
            steps as nat,
        ),
{
    let outcome = prove_work_sized(username, password, CHALLENGE_SIDE, CHALLENGE_SIDE, steps);
    outcome.1
}

/// Equal inputs have equal proofs: the final grid and the digest are
/// functions of the two strings, the size and the number of steps alone.
pub proof fn lemma_proof_is_determined(
    username: Seq<char>,
    password: Seq<char>,
    other_username: Seq<char>,
    other_password: Seq<char>,
    width: nat,
    height: nat,
    steps: nat,
)
    requires
        username =~= other_username,
        password =~= other_password,
    ensures
        proof_grid(username, password, width, height, steps) == proof_grid(
            other_username,
            other_password,
            width,
            height,
            steps,
        ),
        proof_digest(username, password, width, height, steps) == proof_digest(
            other_username,
            other_password,
            width,
            height,
            steps,
        ),
{
}

} // verus!
