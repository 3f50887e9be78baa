//! The command line of the navpoint matrix tool, as plain values.
use vstd::prelude::*;

pub use crate::connected_nodes::ConnectedNodesMode;

verus! {

/// Patrician 3 navpoint matrix calculation.
#[derive(Debug)]
pub struct Cli {
    pub command: Command,
}

/// The tool's subcommands.
#[derive(Debug)]
pub enum Command {
    Test,
    ConnectedNodesFromNavpointMatrix(ConnectedNodesFromNavpointMatrixArgs),
    ConnectedNodesFromNavigationData(ConnectedNodesFromNavigationDataArgs),
    NavpointMatrix(BuildNavpointMatrixArgs),
    ShowPath(ShowPathArgs),
}

/// Files for building a navpoint matrix from connected nodes.
#[derive(Debug)]
pub struct BuildNavpointMatrixArgs {
    pub connected_nodes_file: String,
    pub navigation_vector_file: String,
    pub output_file: String,
}

/// Files for deriving connected nodes from a navpoint matrix.
#[derive(Debug)]
pub struct ConnectedNodesFromNavpointMatrixArgs {
    pub navpoint_matrix_file: String,
    pub output_file: String,
}

/// Files and mode for deriving connected nodes from the navigation data.
#[derive(Debug)]
pub struct ConnectedNodesFromNavigationDataArgs {
    pub navigation_matrix_file: String,
    pub navigation_vector_file: String,
    pub mode: ConnectedNodesMode,
    pub output_file: String,
}

/// The nodes between which to show a path.
#[derive(Debug, Clone, Copy)]
pub struct ShowPathArgs {
    pub source_index: u16,
    pub destination_index: u16,
}

} // verus!
