//! Damage planning for a character build.
//!
//! The crate holds the exact side of the planner: how many hyper stat points a
//! character level grants, which hyper stat levels a point budget can pay for,
//! the catalog of link skills, which of them a greedy selection picks, and by
//! which rule a bonus combines with a stat. Damage values themselves are
//! double-precision numbers; the crate only ever sees their bit patterns, through
//! [`score::score_key`], and leaves the arithmetic on them to its caller.

pub mod allocation;
pub mod calculator;
pub mod error;
pub mod hyper_stats;
pub mod links;
pub mod score;
pub mod selector;
pub mod stat;

pub use calculator::CalculatorInfo;
pub use error::CalcError;
pub use hyper_stats::HyperStats;
pub use links::{link_skill_list, LinkSkill, StatChange, LINK_SKILL_COUNT};
pub use score::score_key;
pub use selector::{best_unused, find_optimal_links, LinkSelector};
pub use stat::{CombineRule, Stat, STAT_COUNT};
