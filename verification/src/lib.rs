//! Verified core of an air-gapped Kaspa signing device: button debouncing,
//! menus, the application state machine, the boot entropy generator, SD file
//! naming and descriptor parsing, and the QR framing used to move data in and
//! out of the device.

pub mod input;
pub mod hmac;
pub mod entropy;
pub mod sdfile;
pub mod kasfile;
pub mod qrframe;
pub mod qrpayload;
pub mod signing;
pub mod screens;
pub mod menu_touch;
pub mod settings_touch;
pub mod qrscan;
pub mod stealth;
pub mod hold;
pub mod sd_touch;
pub mod seed_touch;
pub mod stego_touch;
