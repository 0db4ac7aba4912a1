//! Learning components: intent classification and agent routing.

pub mod personality;
pub mod preference;
pub mod routing;
