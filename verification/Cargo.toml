[package]
name = "q_tasks"
version = "0.1.0"
edition = "2021"
publish = false

[dependencies]
bevy_app = "*"
bevy_ecs = "*"
bevy_tasks = "*"
