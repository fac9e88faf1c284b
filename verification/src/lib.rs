//! Folder-backed mineral catalog: localized catalog cache, language fallback
//! resolution, draft-to-publish pipeline, and the supporting data model.

pub mod catalog;
pub mod decimal;
pub mod drafts;
pub mod elements;
pub mod i18n;
pub mod models;
pub mod publish;
pub mod report;
pub mod strutil;
pub mod text;
pub mod web;
