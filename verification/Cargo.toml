[package]
name = "egui_backend_selector"
version = "0.1.0"
edition = "2021"
publish = false

[dependencies]
main_thread = "=0.1.1"
eframe = { version = "=0.34.3", default-features = false, features = ["glow", "default_fonts", "x11", "persistence"] }
egui = "=0.34.3"
egui_software_backend = "=0.0.3"
log = "=0.4.35"
ron = "=0.12.3"
raw-cpuid = "=11.6.0"
glfw = { version = "=0.63.0", default-features = false, features = ["prebuilt-libs"] }
windows-sys = { version = "=0.61.2", features = ["Win32_UI_WindowsAndMessaging"] }
