use invoice_rust::stats::{InvoiceSummary, ProcessStats};

fn record(file_type: &str, seller: &str, amount: &str) -> InvoiceSummary {
    InvoiceSummary {
        file_type: file_type.to_string(),
        seller: seller.to_string(),
        amount: amount.to_string(),
    }
}

#[test]
fn counts_over_records() {
    let records = vec![
        record("PDF", "甲公司", "100.00"),
        record("PDF", "*乙公司", "200.00"),
        record("PDF", "", ""),
        record("OFD", "丙公司", ""),
        record("pdf", "丁公司", "5"),
    ];
    let s = ProcessStats::from_records(&records);
    assert_eq!(s.total_files, 5);
    assert_eq!(s.pdf_files, 3);
    assert_eq!(s.seller_recognized, 3);
    assert_eq!(s.amount_recognized, 3);
}

#[test]
fn empty_run_has_zero_counts() {
    let s = ProcessStats::from_records(&Vec::new());
    assert_eq!(s, ProcessStats::default());
    assert_eq!(s.pdf_rate_parts(), None);
    assert_eq!(s.accuracy_rate_parts(), None);
}

#[test]
fn rate_parts() {
    let s = ProcessStats { total_files: 10, pdf_files: 8, seller_recognized: 7, amount_recognized: 6 };
    assert_eq!(s.pdf_rate_parts(), Some((8, 10)));
    assert_eq!(s.accuracy_rate_parts(), Some((6, 8)));
    let t = ProcessStats { total_files: 10, pdf_files: 0, seller_recognized: 7, amount_recognized: 6 };
    assert_eq!(t.accuracy_rate_parts(), None);
    let u = ProcessStats { total_files: 4, pdf_files: 4, seller_recognized: 2, amount_recognized: 3 };
    assert_eq!(u.accuracy_rate_parts(), Some((2, 4)));
}

#[test]
fn pdf_count_never_exceeds_file_count() {
    let records = vec![record("PDF", "a", "1"), record("PDF", "b", "2")];
    let s = ProcessStats::from_records(&records);
    assert!(s.pdf_files <= s.total_files);
    assert_eq!(s.pdf_rate_parts(), Some((2, 2)));
}
