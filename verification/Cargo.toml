[package]
name = "runeclan_scraper"
version = "0.1.0"
edition = "2021"
publish = false

[dependencies]
clap = "=3.2.25"
futures = "=0.3.34"
indicatif = "=0.17.11"
linecount = "=0.1.0"
reqwest = "=0.11.27"
soup = "=0.5.1"
tokio = { version = "=1.54.1", features = ["full"] }
