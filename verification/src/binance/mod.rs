//! Exchange feeds: the event shapes that the connectors deliver.

pub mod ws_model;
