//! Timeline bookkeeping for a multi-service social feed reader: settings,
//! article storage, rate limits, media loading, endpoint registries and the
//! masonry layout, each with its contract.

pub mod add_timeline;
pub mod article_actions;
pub mod articles;
pub mod batch_action;
pub mod choose_endpoints;
pub mod components;
pub mod containers;
pub mod decimal;
pub mod display;
pub mod dummy_service;
pub mod endpoint_agent;
pub mod endpoints;
pub mod error;
pub mod favviewer;
pub mod filters;
pub mod media_load;
pub mod modals;
pub mod model;
pub mod notifications;
pub mod pixiv;
pub mod server;
pub mod services;
pub mod settings;
pub mod storages;
pub mod string_map;
pub mod text;
pub mod timeline;
pub mod twitter;
pub mod twitter_endpoints;
pub mod youtube;
