[package]
name = "gpu_test_harness"
version = "0.1.0"
edition = "2021"
publish = false

[dependencies]
cudarc = { version = "0.12", default-features = false, features = ["std", "cuda-12020", "driver", "nvrtc"] }
tokio = { version = "1", features = ["macros", "rt", "rt-multi-thread", "sync", "time"] }
