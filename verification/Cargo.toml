[package]
name = "mollusk_svm"
version = "0.1.0"
edition = "2021"
publish = false

[dependencies]
agave-feature-set = "=3.1.14"
agave-syscalls = "=3.1.14"
bincode = "=1.3.3"
chrono = "=0.4.45"
num-format = "=0.4.4"
solana-account = "=3.4.0"
solana-bpf-loader-program = "=3.1.14"
solana-compute-budget = "=3.1.14"
solana-hash = "=3.1.0"
solana-instruction = "=3.5.1"
solana-instructions-sysvar = "=3.0.1"
solana-loader-v3-interface = "=6.1.1"
solana-precompile-error = "=3.0.0"
solana-program-error = "=3.0.1"
solana-program-runtime = "=3.1.14"
solana-pubkey = "=3.0.0"
solana-rent = "=3.1.0"
solana-sdk-ids = "=3.1.0"
solana-svm-callback = "=3.1.14"
solana-svm-log-collector = "=3.1.14"
solana-svm-timings = "=3.1.14"
solana-system-program = "=3.1.14"
solana-sysvar-id = "=3.1.0"
solana-transaction-context = "=3.1.14"
