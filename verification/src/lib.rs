//! Report builders and device identification for ASUS Aura lighting, and
//! the decisions of the Aura settings page.

pub mod aura_objects;
pub mod aura_page;
pub mod colour_hex;
pub mod device;
pub mod gz302_rear;
pub mod lighting;
pub mod selection;

pub use device::{AuraDeviceType, PowerZones};
pub use lighting::{
    blue, gradient, green, orange, red, teal, violet, yellow, Colour, LedBrightness,
    AURA_LAPTOP_LED_MSG_LEN,
};
