//! Verified core of the SeisBox seismic analysis toolkit: phase picks and
//! their text format, the file explorer tree, trace navigation, the
//! viewer's and map's reactions to keys and drags, plot and spectrogram
//! layout, raster drawing primitives, earthquake catalogue and waveform
//! service requests and replies, and the structure of Coulomb stress,
//! earthquake table and map outline files.

pub mod text;
pub mod picking;
pub mod pick_file;
pub mod paths;
pub mod file_tree;
pub mod selection;
pub mod navigation;
pub mod raster;
pub mod catalog;
pub mod hvsr;
pub mod order;
pub mod seismic;
pub mod shortcuts;
pub mod viewer;
pub mod plot_layout;
pub mod calendar;
pub mod events;
pub mod fdsn;
pub mod coulomb;
pub mod stress_runs;
pub mod bvalue_input;
pub mod outlines;
pub mod map_drag;
