//! Core of a squad-marker, timer and pathing overlay.
pub mod asset_form;
pub mod clock;
pub mod controller;
pub mod controls;
pub mod festival;
pub mod font;
pub mod marker_edit_laws;
pub mod marker_file;
pub mod marker_laws;
pub mod marker_listing;
pub mod marker_listing_laws;
pub mod marker_loading;
pub mod marker_set;
pub mod marker_set_laws;
pub mod marker_type;
pub mod name_map;
pub mod paths;
pub mod picks;
pub mod placement;
pub mod placement_laws;
pub mod remotes;
pub mod remotes_laws;
pub mod render;
pub mod render_laws;
pub mod settings;
pub mod settings_laws;
pub mod source_dir;
pub mod sources;
pub mod sources_laws;
pub mod squad;
pub mod squad_laws;
pub mod table_laws;
pub mod text;
