[package]
name = "agent_net"
version = "0.1.0"
edition = "2021"
publish = false

[dependencies]
base64 = "0.22"
dotenv = "0.15"
either = "1"
futures-util = { version = "0.3", default-features = false, features = ["std"] }
hex = "0.4"
libp2p = { version = "0.55", default-features = false, features = ["dns", "identify", "kad", "macros", "noise", "ping", "pnet", "secp256k1", "tcp", "tokio", "yamux"] }
tokio = { version = "1", default-features = false, features = ["macros", "rt-multi-thread", "sync"] }
tracing = { version = "0.1", default-features = false, features = ["std"] }
tracing-subscriber = { version = "0.3", default-features = false, features = ["fmt"] }
