use invoice_rust::config::Config;
use invoice_rust::progress::{ProcessProgress, ProgressEvent};
use invoice_rust::session::{log_tone, InvoiceApp, LogTone, LOG_CAPACITY, SEPARATOR};
use invoice_rust::stats::InvoiceSummary;

fn app() -> InvoiceApp {
    InvoiceApp::new(Config::default())
}

#[test]
fn fresh_window_state() {
    let a = app();
    assert_eq!(a.status_message, "就绪");
    assert!(a.log_messages.is_empty());
    assert!(!a.is_processing);
    assert!(a.show_table);
    assert!(!a.show_result);
    assert_eq!(a.progress, ProcessProgress::default());
}

#[test]
fn log_keeps_the_newest_200_lines() {
    let mut a = app();
    for i in 0..250 {
        a.log(format!("line {}", i));
        assert!(a.log_messages.len() <= LOG_CAPACITY);
    }
    assert_eq!(a.log_messages.len(), 200);
    assert_eq!(a.log_messages[0], "line 50");
    assert_eq!(a.log_messages[199], "line 249");
}

#[test]
fn short_paths_are_shown_whole() {
    assert_eq!(InvoiceApp::format_path("/home/user/invoices"), "/home/user/invoices");
    let sixty = "a".repeat(60);
    assert_eq!(InvoiceApp::format_path(&sixty), sixty);
}

#[test]
fn long_paths_are_cut() {
    let path: String = (0..70).map(|i| char::from(b'a' + (i % 26) as u8)).collect();
    let shown = InvoiceApp::format_path(&path);
    assert_eq!(shown.len(), 60);
    assert_eq!(shown, format!("{}...{}", &path[..30], &path[43..]));
    assert_eq!(InvoiceApp::format_path(&shown), shown);
}

#[test]
fn long_paths_with_wide_characters_are_cut_on_boundaries() {
    // 10 three-byte characters make 30 bytes, then 31 ASCII bytes, then 9 three-byte characters.
    let path = format!("{}{}{}", "发".repeat(10), "x".repeat(31), "票".repeat(9));
    let shown = InvoiceApp::format_path(&path);
    assert_eq!(shown, format!("{}...{}", "发".repeat(10), "票".repeat(9)));
}

#[test]
fn start_without_folder_only_logs_an_error() {
    let mut a = app();
    let job = a.start_processing();
    assert!(job.is_none());
    assert_eq!(a.log_messages, vec!["❌ 请选择发票目录".to_string()]);
    assert!(!a.is_processing);
    assert_eq!(a.status_message, "就绪");
}

#[test]
fn start_with_folder_builds_the_job() {
    let mut a = InvoiceApp::new(Config { thread_pool_size: 500 });
    a.invoice_dir = "/data/inv".to_string();
    a.log("old line".to_string());
    let job = a.start_processing().expect("a job");
    assert_eq!(job.invoice_dir, "/data/inv");
    assert_eq!(job.output_path, "/data/inv/发票清单.xlsx");
    assert_eq!(job.buyer_keyword, None);
    assert_eq!(job.thread_count, 128);
    assert_eq!(a.output_path, "/data/inv/发票清单.xlsx");
    assert!(a.is_processing);
    assert_eq!(a.status_message, "识别中...");
    assert_eq!(
        a.progress,
        ProcessProgress { total: 0, completed: 0, is_active: true }
    );
    assert_eq!(
        a.log_messages,
        vec![
            SEPARATOR.to_string(),
            "⚡ 开始处理发票文件".to_string(),
            "📂 目录: /data/inv".to_string(),
            "🏢 关键词: 未设置（自动识别）".to_string(),
            "🔧 线程数: 128 个并行处理".to_string(),
            SEPARATOR.to_string(),
        ]
    );
}

#[test]
fn start_keeps_chosen_output_and_keyword() {
    let mut a = app();
    a.invoice_dir = "/data/inv".to_string();
    a.output_path = "/tmp/out.xlsx".to_string();
    a.buyer_keyword = "某某公司".to_string();
    let job = a.start_processing().expect("a job");
    assert_eq!(job.output_path, "/tmp/out.xlsx");
    assert_eq!(job.buyer_keyword, Some("某某公司".to_string()));
    assert_eq!(job.thread_count, 32);
    assert_eq!(a.log_messages[3], "🏢 关键词: 某某公司");
    assert_eq!(a.log_messages[4], "🔧 线程数: 32 个并行处理");
}

#[test]
fn progress_reports_are_taken_in_order() {
    let mut a = app();
    let events = vec![
        ProgressEvent::Started { total: 3 },
        ProgressEvent::FileCompleted { completed: 1, total: 3 },
        ProgressEvent::Log("processed a.pdf".to_string()),
        ProgressEvent::FileCompleted { completed: 3, total: 3 },
    ];
    a.check_progress(&events);
    assert_eq!(a.progress, ProcessProgress { total: 3, completed: 3, is_active: true });
    assert_eq!(a.log_messages, vec!["processed a.pdf".to_string()]);
    a.check_progress(&vec![ProgressEvent::Finished]);
    assert_eq!(a.progress, ProcessProgress { total: 3, completed: 3, is_active: false });
}

#[test]
fn success_is_summed_up() {
    let mut a = app();
    a.invoice_dir = "/d".to_string();
    a.start_processing();
    let records = vec![
        InvoiceSummary { file_type: "PDF".to_string(), seller: "甲".to_string(), amount: "1".to_string() },
        InvoiceSummary { file_type: "PDF".to_string(), seller: "".to_string(), amount: "2".to_string() },
    ];
    a.finish_success("/d/发票清单.xlsx".to_string(), &records, "50.0", "1.25");
    assert_eq!(a.stats.seller_recognized, 1);
    assert_eq!(a.stats.amount_recognized, 2);
    assert!(!a.is_processing);
    assert!(!a.progress.is_active);
    assert!(a.show_result);
    assert_eq!(a.result_file_path, "/d/发票清单.xlsx");
    assert_eq!(a.stats.total_files, 2);
    assert_eq!(a.stats.pdf_files, 2);
    assert_eq!(a.status_message, "识别完成");
    let n = a.log_messages.len();
    assert_eq!(a.log_messages[n - 5], SEPARATOR);
    assert_eq!(a.log_messages[n - 4], "✅ 处理完成!");
    assert_eq!(a.log_messages[n - 3], "📊 总文件: 2 | PDF: 2 | 成功率: 50.0% | 耗时: 1.25s");
    assert_eq!(a.log_messages[n - 2], "💾 输出: /d/发票清单.xlsx");
    assert_eq!(a.log_messages[n - 1], SEPARATOR);
}

#[test]
fn failure_is_reported() {
    let mut a = app();
    a.invoice_dir = "/d".to_string();
    a.start_processing();
    a.finish_failure("目录不存在");
    assert!(!a.is_processing);
    assert!(!a.progress.is_active);
    assert_eq!(a.status_message, "处理失败");
    let n = a.log_messages.len();
    assert_eq!(a.log_messages[n - 2], "❌ 处理失败: 目录不存在");
    assert_eq!(a.log_messages[n - 1], SEPARATOR);
}

#[test]
fn log_lines_are_toned() {
    assert_eq!(log_tone("✅ 处理完成!"), LogTone::Success);
    assert_eq!(log_tone("❌ 处理失败: x"), LogTone::Failure);
    assert_eq!(log_tone("⚡ 开始处理发票文件"), LogTone::Start);
    assert_eq!(log_tone(SEPARATOR), LogTone::Rule);
    assert_eq!(log_tone("📂 目录: /d"), LogTone::Plain);
    assert_eq!(log_tone(""), LogTone::Plain);
    assert_eq!(log_tone("x━"), LogTone::Plain);
    assert_eq!(log_tone("━ ❌ ✅"), LogTone::Success);
    assert_eq!(log_tone("━ ❌"), LogTone::Failure);
}

#[test]
fn large_counts_are_rendered_in_decimal() {
    let mut a = app();
    a.invoice_dir = "/d".to_string();
    a.start_processing();
    let records: Vec<InvoiceSummary> = (0..1203)
        .map(|i| InvoiceSummary {
            file_type: if i % 2 == 0 { "PDF".to_string() } else { "OFD".to_string() },
            seller: String::new(),
            amount: String::new(),
        })
        .collect();
    a.finish_success("/d/o.xlsx".to_string(), &records, "0.0", "10.00");
    let n = a.log_messages.len();
    assert_eq!(a.log_messages[n - 3], "📊 总文件: 1203 | PDF: 602 | 成功率: 0.0% | 耗时: 10.00s");
}
