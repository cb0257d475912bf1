[package]
name = "fluffsetup"
version = "1.0.0"
edition = "2021"
publish = false

[dependencies]
cxx-qt = "*"
cxx-qt-lib = { version = "*", features = ["qt_gui", "qt_qml", "qt_quickcontrols"] }
