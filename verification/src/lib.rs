//! Device monitoring and exclusive capture: the rules by which input
//! devices are enumerated, identified, detected and captured, and by which
//! their key events are classified and handed to listeners.
//!
//! Nothing here touches a device. The functions take what was read and say
//! what it means and what to do next; opening, reading, sleeping and
//! grabbing are the caller's part.

pub mod capture;
pub mod detect;
pub mod device;
pub mod event_handler;
pub mod keys;
pub mod monitor;
pub mod reader;
pub mod selection;
pub mod text;

pub use device::DeviceInfo;
pub use event_handler::EventHandler;
pub use keys::key_to_string;
pub use monitor::Instance;
pub use reader::{KeyInfo, KeyState};
