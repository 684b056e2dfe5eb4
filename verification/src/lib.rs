//! The core of a loop engine: issues that agents drive to completion under human
//! gates, with their artifacts, inbox cards, memories and folders. The tables are
//! values; an operation changes them and says what is to be done outside.

pub mod clock;
pub mod entities;
pub mod error;
pub mod folder_group_service;
pub mod folder_groups;
pub mod folder_laws;
pub mod handlers;
pub mod json;
pub mod loop_engine;
pub mod loop_service;
pub mod migration;
pub mod models;
pub mod order;
pub mod table;
pub mod text;
pub mod text_laws;
