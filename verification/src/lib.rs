//! Decision and text-processing logic of an Ubuntu server automation tool.
pub mod text;
pub mod data;
pub mod public;
pub mod apache;
pub mod checker;
pub mod php;
pub mod servicios;
pub mod mysql;
pub mod menu;
pub mod pasos;
pub mod orden;
