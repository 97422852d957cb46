//! A handle on one container of a Docker engine: the decisions that upload a
//! file into it, run it to completion while capturing its output, tell its
//! exit status and remove it.

pub mod container;
pub mod run;
pub mod status;
pub mod upload;
