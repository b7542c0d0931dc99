[package]
name = "bus_tracker"
version = "0.1.0"
edition = "2021"
publish = false

[dependencies]
rocket = { version = "0.5", features = ["json"] }
rocket_sync_db_pools = { version = "0.1", features = ["diesel_sqlite_pool"] }
rocket_cors = "0.6"
diesel = { version = "2", features = ["sqlite"] }
diesel_migrations = "2"
