use hash256_rust_miner::config::{
    is_blank, normalize_gpu_batch, read_telegram_config, starts_with_0x, Backend, Cli, Command,
    Config, ConfigError, Environment,
};
use hash256_rust_miner::eth::TxReport;
use hash256_rust_miner::miner::{MiningBackend, Solution};
use hash256_rust_miner::telegram::{send_message_url, success_message};

fn cli() -> Cli {
    Cli {
        command: None,
        backend: Backend::Auto,
        workers: None,
        cpu_batch: 50_000,
        gpu_batch: 67_108_864,
        priority_fee_gwei: "2".to_string(),
        once: false,
    }
}

fn env() -> Environment {
    Environment {
        rpc_url: Some("https://ethereum-rpc.publicnode.com".to_string()),
        private_key: Some("0xabc".to_string()),
        keep_mining: None,
        telegram_bot_token: None,
        telegram_chat_id: None,
    }
}

#[test]
fn config_from_defaults() {
    let c = Config::from_cli_with_cpus(&cli(), env(), 8).unwrap();
    assert_eq!(c.rpc_url, "https://ethereum-rpc.publicnode.com");
    assert_eq!(c.private_key, "0xabc");
    assert_eq!(c.backend, Backend::Auto);
    assert_eq!(c.workers, 7);
    assert_eq!(c.cpu_batch, 50_000);
    assert_eq!(c.gpu_batch, 67_108_864);
    assert_eq!(c.priority_fee_gwei, "2");
    assert!(c.keep_mining);
    assert!(c.telegram.is_none());
}

#[test]
fn config_workers_are_clamped() {
    let mut a = cli();
    a.workers = Some(0);
    assert_eq!(Config::from_cli_with_cpus(&a, env(), 8).unwrap().workers, 1);
    a.workers = Some(100);
    assert_eq!(Config::from_cli_with_cpus(&a, env(), 8).unwrap().workers, 64);
    a.workers = None;
    assert_eq!(Config::from_cli_with_cpus(&a, env(), 1).unwrap().workers, 1);
    assert_eq!(Config::from_cli_with_cpus(&a, env(), 0).unwrap().workers, 1);
    assert_eq!(Config::from_cli_with_cpus(&a, env(), 200).unwrap().workers, 64);
    let c = Config::from_cli(&a, env()).unwrap();
    assert!(c.workers >= 1 && c.workers <= 64);
}

#[test]
fn config_batches_are_normalized() {
    let mut a = cli();
    a.cpu_batch = 0;
    a.gpu_batch = 100_001;
    let c = Config::from_cli_with_cpus(&a, env(), 4).unwrap();
    assert_eq!(c.cpu_batch, 1);
    assert_eq!(c.gpu_batch, 99_968);
}

#[test]
fn gpu_batch_normalization() {
    assert_eq!(normalize_gpu_batch(0), 65_536);
    assert_eq!(normalize_gpu_batch(65_600), 65_600);
    assert_eq!(normalize_gpu_batch(65_601), 65_600);
    assert_eq!(normalize_gpu_batch(67_108_864), 67_108_864);
    assert_eq!(normalize_gpu_batch(normalize_gpu_batch(1_000_123)), normalize_gpu_batch(1_000_123));
}

#[test]
fn config_requires_rpc_url() {
    let mut e = env();
    e.rpc_url = None;
    assert_eq!(Config::from_cli_with_cpus(&cli(), e, 4).unwrap_err(), ConfigError::MissingRpcUrl);
}

#[test]
fn config_requires_a_private_key_for_mining() {
    let mut e = env();
    e.private_key = None;
    assert_eq!(
        Config::from_cli_with_cpus(&cli(), e.clone(), 4).unwrap_err(),
        ConfigError::MissingPrivateKey
    );
    e.private_key = Some(String::new());
    assert_eq!(
        Config::from_cli_with_cpus(&cli(), e.clone(), 4).unwrap_err(),
        ConfigError::MissingPrivateKey
    );
    e.private_key = Some("abc".to_string());
    assert_eq!(
        Config::from_cli_with_cpus(&cli(), e, 4).unwrap_err(),
        ConfigError::PrivateKeyWithoutPrefix
    );
}

#[test]
fn config_check_needs_no_private_key() {
    let mut a = cli();
    a.command = Some(Command::Check);
    let mut e = env();
    e.private_key = None;
    let c = Config::from_cli_with_cpus(&a, e, 4).unwrap();
    assert_eq!(c.private_key, "");
}

#[test]
fn config_error_messages() {
    assert_eq!(ConfigError::MissingRpcUrl.message(), "Isi RPC_URL di file .env dulu");
    assert_eq!(ConfigError::MissingPrivateKey.message(), "Isi PRIVATE_KEY di file .env dulu");
    assert_eq!(ConfigError::PrivateKeyWithoutPrefix.message(), "PRIVATE_KEY harus diawali 0x");
}

#[test]
fn keep_mining_unless_once_or_false() {
    let mut e = env();
    e.keep_mining = Some("false".to_string());
    assert!(!Config::from_cli_with_cpus(&cli(), e.clone(), 4).unwrap().keep_mining);
    e.keep_mining = Some("FALSE".to_string());
    assert!(Config::from_cli_with_cpus(&cli(), e.clone(), 4).unwrap().keep_mining);
    e.keep_mining = Some("no".to_string());
    assert!(Config::from_cli_with_cpus(&cli(), e, 4).unwrap().keep_mining);
    let mut a = cli();
    a.once = true;
    assert!(!Config::from_cli_with_cpus(&a, env(), 4).unwrap().keep_mining);
}

#[test]
fn telegram_needs_both_values_not_blank() {
    let t = read_telegram_config(Some("tok".to_string()), Some(" 42 ".to_string())).unwrap();
    assert_eq!(t.bot_token, "tok");
    assert_eq!(t.chat_id, " 42 ");
    assert!(read_telegram_config(None, Some("42".to_string())).is_none());
    assert!(read_telegram_config(Some("tok".to_string()), None).is_none());
    assert!(read_telegram_config(Some(" \t\n".to_string()), Some("42".to_string())).is_none());
    assert!(read_telegram_config(Some("tok".to_string()), Some("\u{3000}\u{a0}".to_string())).is_none());
    let mut e = env();
    e.telegram_bot_token = Some("tok".to_string());
    e.telegram_chat_id = Some("42".to_string());
    assert!(Config::from_cli_with_cpus(&cli(), e, 4).unwrap().telegram.is_some());
}

#[test]
fn blank_matches_trim() {
    for s in ["", " ", "\t\r\n", "\u{85}\u{2028}", "a", " a ", "\u{200b}", "x\u{3000}"] {
        assert_eq!(is_blank(s), s.trim().is_empty(), "{s:?}");
    }
}

#[test]
fn private_key_prefix() {
    assert!(starts_with_0x("0x12"));
    assert!(starts_with_0x("0x"));
    assert!(!starts_with_0x("0X12"));
    assert!(!starts_with_0x("0"));
    assert!(!starts_with_0x(""));
}

#[test]
fn backend_choice() {
    assert!(Backend::Auto.tries_opencl());
    assert!(Backend::Opencl.tries_opencl());
    assert!(!Backend::Cpu.tries_opencl());
    assert!(Backend::Auto.falls_back_to_cpu());
    assert!(!Backend::Opencl.falls_back_to_cpu());
    assert!(!Backend::Cpu.falls_back_to_cpu());
}

#[test]
fn telegram_success_message() {
    let mut wallet = [0u8; 20];
    wallet[0] = 0xac;
    wallet[19] = 0x0c;
    let mut tx_hash = [0u8; 32];
    tx_hash[31] = 0xff;
    let solution = Solution {
        backend: MiningBackend::OpenCl,
        nonce: 123,
        hash: "0xabc".to_string(),
        hashes: 4567,
    };
    let tx = TxReport { tx_hash, block_number: 19_000_000 };
    let text = success_message(&wallet, &solution, &tx);
    let expected = format!(
        "HASH256 mined successfully\n\nWallet: 0x{}\nBackend: opencl\nNonce: 123\nHash: 0xabc\nHashes: 4567\nTX: https://etherscan.io/tx/0x{}\nBlock: 19000000",
        hex::encode(wallet),
        hex::encode(tx_hash)
    );
    assert_eq!(text, expected);
}

#[test]
fn telegram_url() {
    assert_eq!(send_message_url("123:abc"), "https://api.telegram.org/bot123:abc/sendMessage");
}
