//! button_hub: the logic of a hub that bridges Zigbee button presses to
//! registered listeners, a REST API and an SSE stream, together with the
//! state machines of two small apps driven by those buttons (an initiative
//! tracker and a timer switcher).

pub mod text;
pub mod keys;
pub mod tracker;
pub mod event;
pub mod timer;
pub mod registry;
pub mod api;
pub mod client;
pub mod mqtt;
pub mod dashboard;
pub mod config;
