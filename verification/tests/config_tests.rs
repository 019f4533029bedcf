use invoice_rust::config::{Config, SaveStage};

#[test]
fn default_config_uses_32_threads() {
    let c = Config::default();
    assert_eq!(c.thread_pool_size, 32);
    assert_eq!(c.get_thread_pool_size(), 32);
}

#[test]
fn thread_pool_size_is_clamped() {
    assert_eq!(Config { thread_pool_size: 0 }.get_thread_pool_size(), 1);
    assert_eq!(Config { thread_pool_size: 1 }.get_thread_pool_size(), 1);
    assert_eq!(Config { thread_pool_size: 64 }.get_thread_pool_size(), 64);
    assert_eq!(Config { thread_pool_size: 128 }.get_thread_pool_size(), 128);
    assert_eq!(Config { thread_pool_size: 129 }.get_thread_pool_size(), 128);
    assert_eq!(Config { thread_pool_size: usize::MAX }.get_thread_pool_size(), 128);
}

#[test]
fn loaded_config_is_kept() {
    let (c, write_back) = Config::from_loaded(Some(Config { thread_pool_size: 8 }));
    assert_eq!(c.thread_pool_size, 8);
    assert!(!write_back);
}

#[test]
fn missing_config_falls_back_to_default_and_is_written() {
    let (c, write_back) = Config::from_loaded(None);
    assert_eq!(c.thread_pool_size, 32);
    assert!(write_back);
}

#[test]
fn save_errors_name_the_failed_step() {
    assert_eq!(
        Config::save_error(SaveStage::Serialize, "bad value"),
        "序列化配置失败: bad value"
    );
    assert_eq!(
        Config::save_error(SaveStage::Write, "permission denied"),
        "写入配置文件失败: permission denied"
    );
}
