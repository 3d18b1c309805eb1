//! A mosaic that grows out of a photo feed.
//!
//! A reference picture is cut into a grid of equal cells. Photos that
//! arrive from the feed are scored against every cell by the difference
//! of mean grey values, and each goes to the cell it resembles most among
//! those that are empty or held by a worse match. The feed itself is
//! polled hashtag by hashtag, page by page, at a fixed pace; the pipeline
//! that does so is a state machine that is told what came back and says
//! what to do next.
//!
//! - [`size`]: sizes, cells and the grid.
//! - [`picture`]: pictures, pixel by pixel.
//! - [`post`]: a post with its photo.
//! - [`distance`]: scoring a photo against the cells of the reference.
//! - [`art`]: the mosaic and the greedy placement.
//! - [`generator`]: scorer and mosaic together.
//! - [`api`]: the addresses and answers of the feed, and the paced call.
//! - [`feeder`]: the hashtag rotation and the ingestion pipeline.
//! - [`worker`]: jobs, their block list and their identities.
//! - [`start_worker`]: starting a job on request.
//! - [`get_art`]: serving a mosaic.

pub mod api;
pub mod art;
pub mod distance;
pub mod feeder;
pub mod generator;
pub mod get_art;
pub mod picture;
pub mod post;
pub mod size;
pub mod start_worker;
pub mod worker;
