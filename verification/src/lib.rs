//! Range checks for a PLONK-style arithmetic circuit.
//!
//! A range check shows that the canonical integer of a witnessed field
//! element lies in `[0, R)`.  Two strategies are offered: a polynomial gate
//! whose degree grows with `R`, for small bounds, and a lookup into one
//! table whose rows are tagged by bit length, for larger ones.
//!
//! - [`rc1`] checks by the polynomial gate alone.
//! - [`rc3`] chooses between the polynomial gate and the lookup, and
//!   [`rc3::table`] holds the tagged table.
//! - [`gate`] builds the expressions that both register.
//! - [`polynomial`] says what those expressions mean and proves when they
//!   hold; [`field`] has the arithmetic modulo a prime that this rests on.
//! - [`backend`] is the boundary to `halo2_proofs`, and [`error`] the error
//!   of an assignment.

pub mod backend;
pub mod error;
pub mod field;
pub mod gate;
pub mod polynomial;
pub mod rc1;
pub mod rc3;
