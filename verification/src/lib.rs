//! A utility-scoring graph engine.
//!
//! Small scoring computations are composed into directed acyclic graphs
//! ("flows"), run for one target at a time in dependency order, and a subset
//! of the computed scores is surfaced under stable labels.
//!
//! # Key concepts
//!
//! - [`score::Score`]: a value of the unit interval, held as the bit pattern
//!   of an IEEE-754 single precision number.
//! - [`evaluator::Evaluator`]: a leaf computation that reads the world for
//!   one target and returns a score.
//! - [`aggregator::Aggregator`]: a computation that combines the scores of
//!   its children into one score.
//! - [`mapper::Mapper`]: a computation that turns the output of a node into
//!   another value.
//! - [`label`] and [`intern::LabelInterner`]: the tokens that name flows,
//!   scores and actions, and the table that gives each name its token.
//! - [`flow::Flow`]: a named graph of evaluators and aggregators, and
//!   [`flow::Flows`], the flows by their labels.
//! - [`selector::Selector`]: selects an action from the scores that a flow
//!   computed.
//!
//! Nodes only read the world. What a node returns for a world and a target
//! has a name in the contracts of this library (such as
//! [`evaluator::Evaluator::score_of`]), and the contract of a run says which
//! of these named scores it returns under which label.
//!
//! # Outside crates
//!
//! The world and its entities are those of `bevy_ecs`; the engine carries
//! them to the nodes and never looks inside. The dependencies of a flow are
//! kept in a graph of `petgraph`, which also sorts them; the scores handed
//! to an aggregator are kept in a vector of `smallvec`. What this library
//! relies on of these crates is stated, and not proved, in [`graph`] and
//! [`buffer`]; what it relies on of the standard library, in [`config`]
//! (a node behind a trait object is the node it was made of), [`median`]
//! (sorting) and [`naming`] (formatting).

pub mod score;
pub mod label;
pub mod intern;
pub mod world;
pub mod buffer;
pub mod naming;
pub mod graph;
pub mod schedule;
pub mod mapper;
pub mod evaluator;
pub mod aggregator;
pub mod median;
pub mod config;
pub mod flow_graph;
pub mod flow;
pub mod component;
pub mod selector;
pub mod command;
