[package]
name = "dicom_volume"
version = "0.1.0"
edition = "2021"
publish = false

[dependencies]
rayon = "*"
bytemuck = "*"
dicom-object = "*"
dicom-pixeldata = "*"
dicom-dictionary-std = "*"
futures = "*"
image = { version = "*", default-features = false, features = ["png"] }
ndarray = "*"
thiserror = "*"
tokio = { version = "*", features = ["rt", "macros"] }
wgpu = { version = "*", default-features = false, features = ["wgsl"] }
