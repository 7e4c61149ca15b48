//! A crawler for creator programs on TikTok.
//!
//! The crawler starts from the handles of creators, reads their profiles and
//! posts, finds out whether they promote an app, and goes on to the accounts
//! that they follow if they do. This library holds what it decides and what it
//! remembers:
//!
//! - [`handles`], [`models`], [`stats`] and [`config`]: handles in one form,
//!   what is known of a creator, view counts, and settings;
//! - [`services`]: what is asked of the scraper, the speech service and the
//!   model, and how their replies are read;
//! - [`db`]: the database as tables with an invariant, and every operation on
//!   it as a function from tables to tables;
//! - [`crawler`] and [`web`]: the order in which things are done, runs, and the
//!   pages of the dashboard;
//! - [`review`]: finding languages again.
//!
//! Modules whose names end in `_laws` state what the operations beside them do in
//! terms of what goes in and what comes out.
//!
//! The other modules hold what these are built from: texts, numbers, orders,
//! lists and documents. What other crates compute comes in through
//! [`json_text`], [`moment`], [`services::patterns`] and
//! [`services::responses`], and through one function of strings in [`text`].

pub mod config;
pub mod config_laws;
pub mod crawler;
pub mod db;
pub mod floating;
pub mod handles;
pub mod json;
pub mod json_text;
pub mod lists;
pub mod market_laws;
pub mod models;
pub mod moment;
pub mod numbers;
pub mod order;
pub mod ranking;
pub mod reading;
pub mod reading_laws;
pub mod review;
pub mod review_laws;
pub mod search;
pub mod services;
pub mod stats;
pub mod text;
pub mod text_laws;
pub mod web;
