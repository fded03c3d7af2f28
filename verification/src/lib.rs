//! Lowers a model written in a LEMS dialect of XML into a flat form of
//! scalar equations.
//!
//! A document declares component types; [`lems::file::LemsFile`] registers
//! them and composes a type with all that it inherits. [`instance::Instance`]
//! is a component built from an element of a document. [`collapsed::Collapsed`]
//! is the tree below a component made flat: every symbol carries the labels
//! on the way to it in its name, selections over children are resolved, and
//! kinetic schemes have become transitions. Simplifying a flat form drops
//! parameters under a filter and propagates what is constant.
//!
//! The library moves numbers about and does no arithmetic on them; what a
//! written number is worth, and what a quantity is in base units, comes in
//! through a [`lexicon::Lexicon`].

/// Conditions over expressions.
pub mod boolean;
/// Building a component from an element.
pub mod builder;
/// The flat form of a tree of components, and how a tree is collapsed.
pub mod collapsed;
/// Reading what a component type declares.
pub mod component;
/// The stack of scopes that names are qualified in.
pub mod context;
/// Ordered dictionaries from names to values.
pub mod dict;
/// Reading a document into a tree of elements.
pub mod document;
/// Reading the dynamics of a component type.
pub mod dynamics;
/// What can go wrong.
pub mod error;
/// Numbers, quantities and arithmetic expressions.
pub mod expr;
/// Flat names in make flat names out.
pub mod flatness;
/// Where the variables of a component end up in the flat form.
pub mod flattening;
/// Taking in items one after another until one is refused.
pub mod fold;
/// Component types, components and kinetic schemes.
pub mod instance;
/// Documents as they are written, and the registry made of one.
pub mod lems;
/// What the numbers of a document mean.
/// No name stands twice in a flat form.
pub mod keys;
/// Cutting a written expression into tokens.
pub mod lexer;
pub mod lexicon;
/// What an expression refers to, before and after it is rewritten.
pub mod mentions;
/// Reading written expressions and conditions.
pub mod parser;
/// Patterns of paths through a tree of components.
pub mod path;
/// Which parameters a filter retains.
pub mod retention;
/// The ends of the transitions of a kinetic scheme.
pub mod schemes;
/// Propagation that has come to rest.
pub mod settling;
/// Simplifying a flat form.
pub mod simplify;
/// Splitting, joining and comparing text.
pub mod text;
/// Turning kinetic schemes into transitions.
pub mod transitions;
/// Variables and their kinds.
pub mod variable;
/// Elements of a document.
pub mod xml;
