//! A grid of movable separators laid over a scanned table, the crops that the
//! grid cuts from the image, the text cleaning applied to each recognised
//! cell, the table assembled from the cells, and the background run that
//! drives all of it.

pub mod clean;
pub mod command;
pub mod crop;
pub mod grid;
pub mod session;
pub mod table;
pub mod task;
pub mod text;
