//! The decision logic of a background desktop-automation driver for Linux:
//! trajectory recording, the accessibility element cache, Hyprland window
//! management, real (kernel-level) input, a private headless X session and
//! trajectory video.
pub mod cache;
pub mod dispatch;
pub mod evdev;
pub mod gesture;
pub mod guard;
pub mod headless_x;
pub mod hyprland;
pub mod hyprland_laws;
pub mod input_laws;
pub mod json;
pub mod path;
pub mod real_input;
pub mod recording;
pub mod recording_laws;
pub mod text;
pub mod text_laws;
pub mod uinput_device;
pub mod video;
pub mod video_laws;
