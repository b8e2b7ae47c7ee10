//! Impact maps as code: the data model of goals, metrics, actors, impacts
//! and deliverables, its extraction from a KDL document, and its rendering
//! as a Graphviz DOT graph with HTML labels.

pub mod text;
pub mod models;
pub mod graphviz;
pub mod kdl_doc;
pub mod parser;
pub mod cli;

pub use cli::{output_file_names, out_names_file, select_goals, Format};
pub use graphviz::{escape_html, generate_dot};
pub use models::{Actor, Deliverable, Goal, Impact, Metric};
pub use parser::{parse_kdl, ImpactMapError};
