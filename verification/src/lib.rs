// Zagel: a desktop REST and GraphQL workbench. This crate holds its verified logic:
// the .http and .env file formats, the project and environment folders, the workspace
// of collections and requests, the request editor and its history, the building of
// requests, the automation scenarios, and the workbench state machine that the window
// drives.

// Text, values and names.
pub mod text;
pub mod model;
pub mod env;
pub mod paths;

// File formats and request building.
pub mod http_file;
pub mod options;
pub mod status;
pub mod html;
pub mod response;
pub mod net;

// Folders, workspace and editing.
pub mod pathing;
pub mod domain;
pub mod workspace;
pub mod plans;
pub mod editor;
pub mod history;
pub mod session;

// Command line, saved state and automation.
pub mod cli;
pub mod state;
pub mod automation;
pub mod runner;
pub mod snapshot;

// The workbench and what the window shows of it.
pub mod workbench;
pub mod sidebar;
pub mod panes;

// Laws that span the file format.
pub mod readback;
