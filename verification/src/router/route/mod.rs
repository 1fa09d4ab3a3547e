//! Routes and their builder.

pub mod builder;
pub mod route;
