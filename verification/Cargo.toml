[package]
name = "ws_game_client"
version = "0.1.0"
edition = "2021"
publish = false

[dependencies]
quick-protobuf = "=0.8.1"
crossbeam-channel = "=0.5.17"
dashmap = "=5.5.3"
tokio = { version = "=1.54.1", features = ["rt-multi-thread", "macros", "sync", "time", "net"] }
tokio-tungstenite = "=0.18.0"
futures-util = { version = "=0.3.34", features = ["sink"] }
url = "=2.5.8"
thiserror = "=1.0.69"
bevy = { version = "=0.10.1", default-features = false, features = ["bevy_asset", "bevy_render", "bevy_core_pipeline", "bevy_sprite", "bevy_text", "bevy_ui", "bevy_winit", "x11", "png"] }
