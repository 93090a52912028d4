//! The decision logic of the Aperture image viewer.
//!
//! Everything here works on plain values: file listings, decoded sizes, clock
//! readings and window events come in as arguments, and what the program has to
//! do next goes out as data. The program around it owns the window, the GPU and
//! the disk.

pub mod text;
pub mod path;
pub mod order;
pub mod sort;
pub mod fs;
pub mod model;
pub mod nav;
pub mod nav_laws;
pub mod seqs;
pub mod precache;
pub mod viewer;
pub mod decode;
pub mod coordinator;
pub mod coordinator_laws;
pub mod settings;
pub mod cache;
pub mod loader;
pub mod viewer_child;
pub mod present;
pub mod path_shorten;
pub mod shortcuts;
pub mod texture_cache;
pub mod actions;
pub mod file_tree;
pub mod panels;
pub mod theme;
pub mod grain;
pub mod keys;
pub mod layout;
pub mod effect;
pub mod window;
pub mod window_events;
pub mod window_laws;
pub mod window_folder_laws;
pub mod window_input_laws;
pub mod view_laws;
