//! Runtime core of a chat-command bot.
//!
//! Inbound chat events are classified as commands or passive triggers and
//! routed to registered handlers, which share a singleton state container,
//! answer through a template-resolving responder, and observe configuration
//! that a debounced file watcher republishes.

mod command;
mod config;
mod cooldown;
mod dispatch;
mod event;
mod handlers;
mod kv;
mod registry;
mod responder;
mod secrets;
mod song;
mod state;
mod text;
mod timefmt;
mod tracker;
pub mod twitch;
mod user_defined;
mod util;
mod watcher;

pub use command::Command;
pub use command::Passive;
pub use config::Config;
pub use config::Shakespeare;
pub use config::WhatSong;
pub use cooldown::CooldownGate;
pub use cooldown::CooldownOutcome;
pub use dispatch::RoutedEvent;
pub use dispatch::route_event;
pub use dispatch::run_hello;
pub use event::InboundEvent;
pub use event::NameAndId;
pub use event::Room;
pub use event::User;
pub use event::check_list;
pub use event::on_list;
pub use handlers::CrateInfo;
pub use handlers::CrateReply;
pub use handlers::UserDefinedReply;
pub use handlers::add_command;
pub use handlers::crate_responses;
pub use handlers::delete_command;
pub use handlers::edit_command;
pub use handlers::info_command;
pub use handlers::is_authorized;
pub use handlers::parse_command;
pub use handlers::passive_command;
pub use handlers::rename_command;
pub use handlers::mentions;
pub use handlers::speak_command;
pub use handlers::speak_passive;
pub use kv::KeyValueStore;
pub use kv::StoreError;
pub use registry::CommandMap;
pub use registry::PassiveList;
pub use registry::WrappedCommand;
pub use registry::WrappedPassive;
pub use responder::LoggingResponder;
pub use responder::NullResponder;
pub use responder::Outbound;
pub use responder::ResponderError;
pub use responder::ResponseTemplate;
pub use responder::TemplateResolver;
pub use responder::WriterResponder;
pub use secrets::SecretMissing;
pub use secrets::Secrets;
pub use song::Song;
pub use song::youtube_url;
pub use state::MissingDependency;
pub use state::State;
pub use timefmt::Timestamp;
pub use tracker::IdMap;
pub use tracker::Tracker;
pub use user_defined::AddResult;
pub use user_defined::NameTaken;
pub use user_defined::Registry;
pub use user_defined::RemoveResult;
pub use user_defined::UserDefinedCommand;
pub use util::DontCare;
pub use util::DontCareSigil;
pub use util::HandlerError;
pub use util::dont_care;
pub use util::from_str;
pub use util::maybe_exit;
pub use util::reduce_type_name;
pub use util::timestamp;
pub use util::timestamp_ms;
pub use watcher::ConfigSubscription;
pub use watcher::DebounceQueue;
pub use watcher::LiveConfig;
