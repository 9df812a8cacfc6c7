//! Factoring by Fermat's method of the difference of two squares.
//!
//! To factor `n`, the search looks for an `a` such that `a * a - n` is a
//! perfect square `x * x`, which gives `n == (a - x) * (a + x)`. A cheap
//! filter on quadratic residues rejects most candidates before an exact
//! square root is taken.
//!
//! - [`bigint`]: the arbitrary-precision integers, and what is taken on
//!   trust about them.
//! - [`sqrt`]: exact integer square roots.
//! - [`legendre`]: the residue tables and the filter.
//! - [`utils`]: the same test without tables.
//! - [`fermat`]: what the search finds, stated over integers, and the
//!   properties that follow.
//! - [`factor`]: the search itself.
//! - [`batch`]: one job of a batch of searches.
//! - [`parse`]: reading a number from text.
//! - [`report`]: the texts that tell how a job ended.

pub mod batch;
pub mod bigint;
pub mod factor;
pub mod fermat;
pub mod legendre;
pub mod parse;
pub mod report;
pub mod sqrt;
pub mod utils;
