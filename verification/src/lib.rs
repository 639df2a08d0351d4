//! A verified safety boundary between a model that proposes tool actions and
//! the workspace those actions touch. Proposals are parsed, checked against a
//! scope manifest, gated by human approval where the environment demands it,
//! and logged before and after anything runs.

pub mod boundary;
