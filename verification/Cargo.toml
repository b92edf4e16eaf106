[package]
name = "fusion_compositor"
version = "0.1.0"
edition = "2021"
publish = false

[dependencies]
calloop = "=0.14.5"
drm = "=0.14.1"
log = "0.4"
postcard = { version = "=1.1.3", features = ["use-std"] }
serde = { version = "1", features = ["derive"] }
slotmap = "=1.1.1"
smithay = { version = "=0.7.0", default-features = false, features = ["backend_drm", "backend_egl", "backend_gbm", "backend_libinput", "backend_session_libseat", "backend_udev", "backend_winit", "desktop", "renderer_gl", "wayland_frontend"] }
smithay-drm-extras = "=0.1.0"
tracing = "0.1"
tracing-subscriber = { version = "0.3", features = ["env-filter"] }
tracing-tracy = "*"
wayland-server = "0.31"
xcursor = "=0.3.11"
