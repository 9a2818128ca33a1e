//! The core of a chain event listener: a closed set of filters that sort
//! chain events into named categories, and the decisions of the loop that
//! drains a stream of event batches and reports the events that match.
//!
//! Nothing here touches a socket, a channel or a log. A caller polls its
//! event source, hands each delivery to [`dispatch::next_action`], and
//! performs the action that comes back.

pub mod error;
pub mod event;
pub mod filter;
pub mod command;
pub mod dispatch;
