//! Attendance-graph core: the data-shape transformations between a
//! property-graph store of "who met whom" records and a graph renderer.
//!
//! The library covers four components: expanding one attendance row into
//! pairwise "met" merge requests, extracting node names from schema-less
//! query result rows, serializing node groups into a textual graph
//! description, and the decisions around invoking the external renderer.
//! Store transport, chat-gateway sessions and process I/O live outside the
//! library; they hand plain values in and take plain values back.
//!
//! A person's store key and display form come from the library's own
//! case folding, which maps the ASCII letters only ([`text`]): names
//! that differ in non-ASCII letter case ("Émile"/"émile") keep two
//! distinct keys. This is a documented limitation of the library's
//! normalization, chosen so the folding rule is stated exactly and its
//! laws are proved rather than assumed of an outside routine.

pub mod command;
pub mod dot;
pub mod extract;
pub mod import;
pub mod render;
pub mod text;
