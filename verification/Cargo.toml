[package]
name = "linuxsgc"
version = "0.1.0"
edition = "2021"
publish = false

[dependencies]
bytemuck = { version = "=1.25.2", features = ["derive"] }
calloop = "=0.14.5"
drm = "=0.15.0"
glutin = { version = "=0.32.3", default-features = false, features = ["egl"] }
i-slint-common = "=1.17.1"
i-slint-core = "=1.17.1"
i-slint-renderer-femtovg = { version = "=1.17.1", features = ["opengl"] }
i-slint-renderer-software = "=1.17.1"
input = { version = "=0.10.0", default-features = false, features = ["libinput_1_21"] }
libsgc-rs = "=0.2.0"
nix = { version = "=0.31.3", features = ["fs"] }
raw-window-handle = "=0.6.2"
xkbcommon = "=0.9.0"
