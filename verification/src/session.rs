//! The state of the invoice tool's window that its decisions read and
//! change: the inputs, the activity log, the status line, and the progress
//! and results of a run. Drawing, file dialogs, channels and clocks stay
//! outside; they call in here with plain values.
use vstd::prelude::*;
use vstd::string::*;

use crate::config::{clamp_threads, Config, MAX_THREADS, MIN_THREADS};
use crate::progress::{progress_step, progress_after, ProcessProgress, ProgressEvent};
use crate::stats::{empty_stats, stats_of, InvoiceSummary, ProcessStats};
use crate::text::{decimal, digits_value, lemma_decimal_is_numeral, lemma_shortened_fits, utf8_len, path_cuttable, push_decimal, shortened, PATH_DISPLAY_LIMIT, PATH_HEAD_BYTES, PATH_TAIL_BYTES};
use vstd::utf8::*;

verus! {

/// Most lines the activity log keeps; older lines are dropped first.
pub const LOG_CAPACITY: usize = 200;

/// The rule that frames blocks of the activity log.
pub const SEPARATOR: &'static str = "━━━━━━━━━━━━━━━━━━━━━━━━━━━━━━━━━━━━━━━━━━━━━━━━━";

/// The text of each log line.
pub open spec fn lines_of(v: Seq<String>) -> Seq<Seq<char>> {
    v.map_values(|s: String| s@)
}

/// The log's text has one entry per line, each the text of that line.
pub proof fn lemma_lines_of(v: Seq<String>)
    ensures
        lines_of(v).len() == v.len(),
        forall|i: int| 0 <= i < v.len() ==> #[trigger] lines_of(v)[i] == v[i]@,
{
}

/// The log after adding `line`: the line goes last, and when that makes
/// the log longer than its capacity the oldest line is dropped.
pub open spec fn appended(lines: Seq<Seq<char>>, line: Seq<char>) -> Seq<Seq<char>> {
    let grown = lines.push(line);
    if grown.len() > LOG_CAPACITY {
        grown.drop_first()
    } else {
        grown
    }
}

/// The spreadsheet a run writes: the chosen output path, or the file
/// `发票清单.xlsx` in the invoice folder when none was chosen.
pub open spec fn chosen_output(dir: Seq<char>, output: Seq<char>) -> Seq<char> {
    if output.len() == 0 {
        dir + "/发票清单.xlsx"@
    } else {
        output
    }
}

/// The log line that names the buyer keyword, or says that none was set.
pub open spec fn keyword_line(keyword: Seq<char>) -> Seq<char> {
    if keyword.len() > 0 {
        "🏢 关键词: "@ + keyword
    } else {
        "🏢 关键词: 未设置（自动识别）"@
    }
}

/// The log line that names the number of worker threads.
pub open spec fn threads_line(n: nat) -> Seq<char> {
    "🔧 线程数: "@ + decimal(n) + " 个并行处理"@
}

/// The log of a run that has just started.
pub open spec fn start_lines(dir: Seq<char>, keyword: Seq<char>, threads: nat) -> Seq<Seq<char>> {
    seq![
        SEPARATOR@,
        "⚡ 开始处理发票文件"@,
        "📂 目录: "@ + shortened(dir),
        keyword_line(keyword),
        threads_line(threads),
        SEPARATOR@,
    ]
}

/// The log line that sums up a finished run.
pub open spec fn summary_line(
    stats: ProcessStats,
    accuracy_text: Seq<char>,
    elapsed_text: Seq<char>,
) -> Seq<char> {
    "📊 总文件: "@ + decimal(stats.total_files as nat) + " | PDF: "@ + decimal(
        stats.pdf_files as nat,
    ) + " | 成功率: "@ + accuracy_text + "% | 耗时: "@ + elapsed_text + "s"@
}

/// The log after one worker event: a log line is added, other events leave
/// the log as it is.
pub open spec fn lines_step(lines: Seq<Seq<char>>, event: ProgressEvent) -> Seq<Seq<char>> {
    match event {
        ProgressEvent::Log(m) => appended(lines, m@),
        _ => lines,
    }
}

/// The log after `events`, taken in order.
pub open spec fn lines_after(lines: Seq<Seq<char>>, events: Seq<ProgressEvent>) -> Seq<Seq<char>>
    decreases events.len(),
{
    if events.len() == 0 {
        lines
    } else {
        lines_step(lines_after(lines, events.drop_last()), events.last())
    }
}

/// Adding a line keeps the log within its capacity, puts the line last,
/// and keeps the newest lines in order: the result is the old log with the
/// line added, less its oldest line when the capacity was reached.
pub proof fn lemma_appended(lines: Seq<Seq<char>>, line: Seq<char>)
    requires
        lines.len() <= LOG_CAPACITY,
    ensures
        appended(lines, line).len() <= LOG_CAPACITY,
        appended(lines, line).last() == line,
        lines.len() < LOG_CAPACITY ==> appended(lines, line) == lines.push(line),
        lines.len() == LOG_CAPACITY ==> appended(lines, line) == lines.drop_first().push(line),
{
    if lines.len() == LOG_CAPACITY {
        assert(lines.push(line).drop_first() =~= lines.drop_first().push(line));
    }
}

/// The log stays within its capacity, whatever the worker reports.
pub proof fn lemma_lines_after_bounded(lines: Seq<Seq<char>>, events: Seq<ProgressEvent>)
    requires
        lines.len() <= LOG_CAPACITY,
    ensures
        lines_after(lines, events).len() <= LOG_CAPACITY,
    decreases events.len(),
{
    if events.len() > 0 {
        lemma_lines_after_bounded(lines, events.drop_last());
        if let ProgressEvent::Log(m) = events.last() {
            lemma_appended(lines_after(lines, events.drop_last()), m@);
        }
    }
}

/// Only log lines reach the activity log: a report that is not a log line
/// leaves the log as it is, and a log line is added as `log` adds it.
pub proof fn lemma_lines_step(lines: Seq<Seq<char>>, event: ProgressEvent)
    ensures
        !(event is Log) ==> lines_step(lines, event) == lines,
        event matches ProgressEvent::Log(m) ==> lines_step(lines, event) == appended(lines, m@),
{
}

/// Reports that hold no log line leave the activity log as it is; a
/// batch of reports adds exactly one line per log line it holds, so with
/// room to spare the log grows by that many lines and keeps its old lines
/// in front.
pub proof fn lemma_lines_after(lines: Seq<Seq<char>>, events: Seq<ProgressEvent>)
    ensures
        (forall|i: int| 0 <= i < events.len() ==> !(#[trigger] events[i] is Log)) ==> lines_after(
            lines,
            events,
        ) == lines,
        lines.len() + events.len() <= LOG_CAPACITY ==> {
            &&& lines_after(lines, events).len() == lines.len() + log_count(events)
            &&& lines_after(lines, events).subrange(0, lines.len() as int) == lines
        },
    decreases events.len(),
{
    if events.len() > 0 {
        let front = events.drop_last();
        assert forall|i: int| 0 <= i < front.len() implies (#[trigger] front[i] is Log) == (events[i] is Log) by {
            assert(front[i] == events[i]);
        }
        lemma_lines_after(lines, front);
        lemma_log_count_le(front);
        let before = lines_after(lines, front);
        if lines.len() + events.len() <= LOG_CAPACITY {
            assert(before.subrange(0, lines.len() as int) == lines);
            if let ProgressEvent::Log(m) = events.last() {
                assert(lines_after(lines, events) == before.push(m@));
                assert(before.push(m@).subrange(0, lines.len() as int) =~= before.subrange(
                    0,
                    lines.len() as int,
                ));
            }
        }
    }
}

/// How many of the reports are log lines.
pub open spec fn log_count(events: Seq<ProgressEvent>) -> nat
    decreases events.len(),
{
    if events.len() == 0 {
        0
    } else {
        log_count(events.drop_last()) + if events.last() is Log {
            1nat
        } else {
            0nat
        }
    }
}

/// At most every report is a log line.
pub proof fn lemma_log_count_le(events: Seq<ProgressEvent>)
    ensures
        log_count(events) <= events.len(),
    decreases events.len(),
{
    if events.len() > 0 {
        lemma_log_count_le(events.drop_last());
    }
}

/// A run's output goes where it was chosen, or, when no output was chosen,
/// to `发票清单.xlsx` inside the invoice folder.
pub proof fn lemma_chosen_output(dir: Seq<char>, output: Seq<char>)
    ensures
        output.len() > 0 ==> chosen_output(dir, output) == output,
        output.len() == 0 ==> chosen_output(dir, output) == dir + "/发票清单.xlsx"@,
        output.len() == 0 ==> chosen_output(dir, output).subrange(0, dir.len() as int) == dir,
{
    if output.len() == 0 {
        assert((dir + "/发票清单.xlsx"@).subrange(0, dir.len() as int) =~= dir);
    }
}

/// A run's header is six lines framed by rules: the start notice, the
/// folder as shown, the keyword (or that none was set) and the thread
/// count, whose digits read back as the count.
pub proof fn lemma_start_lines(dir: Seq<char>, keyword: Seq<char>, threads: nat)
    ensures
        start_lines(dir, keyword, threads).len() == 6,
        start_lines(dir, keyword, threads)[0] == SEPARATOR@,
        start_lines(dir, keyword, threads)[5] == SEPARATOR@,
        start_lines(dir, keyword, threads)[1] == "⚡ 开始处理发票文件"@,
        start_lines(dir, keyword, threads)[2] == "📂 目录: "@ + shortened(dir),
        keyword.len() > 0 ==> start_lines(dir, keyword, threads)[3] == "🏢 关键词: "@ + keyword,
        keyword.len() == 0 ==> start_lines(dir, keyword, threads)[3] == "🏢 关键词: 未设置（自动识别）"@,
        exists|digits: Seq<char>|
            {
                &&& start_lines(dir, keyword, threads)[4] == "🔧 线程数: "@ + digits + " 个并行处理"@
                &&& digits_value(digits) == threads
                &&& digits.len() >= 1
                &&& (threads > 0 ==> digits[0] != '0')
                &&& forall|i: int| 0 <= i < digits.len() ==> '0' <= #[trigger] digits[i] <= '9'
            },
{
    lemma_decimal_is_numeral(threads);
    let digits = decimal(threads);
    assert(start_lines(dir, keyword, threads)[4] == "🔧 线程数: "@ + digits + " 个并行处理"@);
}

/// A log line is toned by the first rule that applies: ✅ anywhere, then
/// ❌ anywhere, then ⚡ anywhere, then a leading ━; otherwise it is plain.
pub proof fn lemma_tone_of(line: Seq<char>)
    ensures
        line.contains('✅') ==> tone_of(line) == LogTone::Success,
        !line.contains('✅') && line.contains('❌') ==> tone_of(line) == LogTone::Failure,
        !line.contains('✅') && !line.contains('❌') && line.contains('⚡') ==> tone_of(line)
            == LogTone::Start,
        !line.contains('✅') && !line.contains('❌') && !line.contains('⚡') && line.len() > 0
            && line[0] == '━' ==> tone_of(line) == LogTone::Rule,
        !line.contains('✅') && !line.contains('❌') && !line.contains('⚡') && (line.len() == 0
            || line[0] != '━') ==> tone_of(line) == LogTone::Plain,
{
}

/// What a run is started with.
pub struct WorkerJob {
    /// Folder that holds the invoice files.
    pub invoice_dir: String,
    /// Keyword of the buyer, when one was given.
    pub buyer_keyword: Option<String>,
    /// Where the spreadsheet goes.
    pub output_path: String,
    /// Worker threads to use.
    pub thread_count: usize,
}

/// `after` is `before` with a run started on `job`: the output path
/// settled, the log restarted with the run's header, the counts cleared,
/// the progress active from zero, and the job taken from the inputs.
pub open spec fn started(before: InvoiceApp, after: InvoiceApp, job: WorkerJob) -> bool {
    let out = chosen_output(before.invoice_dir@, before.output_path@);
    let threads = clamp_threads(before.config.thread_pool_size as int);
    &&& after == (InvoiceApp {
        output_path: after.output_path,
        log_messages: after.log_messages,
        is_processing: true,
        status_message: after.status_message,
        stats: empty_stats(),
        show_result: false,
        progress: ProcessProgress { total: 0, completed: 0, is_active: true },
        ..before
    })
    &&& after.output_path@ == out
    &&& after.status_message@ == "识别中..."@
    &&& after.lines() == start_lines(before.invoice_dir@, before.buyer_keyword@, threads as nat)
    &&& job.invoice_dir@ == before.invoice_dir@
    &&& job.output_path@ == out
    &&& job.thread_count == threads
    &&& match job.buyer_keyword {
        None => before.buyer_keyword@.len() == 0,
        Some(k) => before.buyer_keyword@.len() > 0 && k@ == before.buyer_keyword@,
    }
}

/// `after` is `before` with a successful run closed: no longer
/// processing, progress inactive, the spreadsheet `output` and the counts
/// over `records` kept and shown, status "识别完成"; the inputs, the
/// settings and the log aside, nothing else changed.
pub open spec fn finished_ok(
    before: InvoiceApp,
    after: InvoiceApp,
    output: Seq<char>,
    records: Seq<InvoiceSummary>,
) -> bool {
    &&& after == (InvoiceApp {
        log_messages: after.log_messages,
        is_processing: false,
        status_message: after.status_message,
        stats: stats_of(records),
        show_result: true,
        result_file_path: after.result_file_path,
        show_table: true,
        progress: ProcessProgress { is_active: false, ..before.progress },
        ..before
    })
    &&& after.result_file_path@ == output
    &&& after.status_message@ == "识别完成"@
}

/// The log after a successful run has been summed up.
pub open spec fn success_lines(
    lines: Seq<Seq<char>>,
    stats: ProcessStats,
    accuracy_text: Seq<char>,
    elapsed_text: Seq<char>,
    output: Seq<char>,
) -> Seq<Seq<char>> {
    let l1 = appended(lines, SEPARATOR@);
    let l2 = appended(l1, "✅ 处理完成!"@);
    let l3 = appended(l2, summary_line(stats, accuracy_text, elapsed_text));
    let l4 = appended(l3, "💾 输出: "@ + shortened(output));
    appended(l4, SEPARATOR@)
}

/// `after` is `before` with a failed run closed: no longer processing,
/// progress inactive, status "处理失败"; the log aside, nothing else
/// changed.
pub open spec fn failed(before: InvoiceApp, after: InvoiceApp) -> bool {
    &&& after == (InvoiceApp {
        log_messages: after.log_messages,
        is_processing: false,
        status_message: after.status_message,
        progress: ProcessProgress { is_active: false, ..before.progress },
        ..before
    })
    &&& after.status_message@ == "处理失败"@
}

/// The log after a failed run has been reported.
pub open spec fn failure_lines(lines: Seq<Seq<char>>, error: Seq<char>) -> Seq<Seq<char>> {
    appended(appended(appended(lines, SEPARATOR@), "❌ 处理失败: "@ + error), SEPARATOR@)
}

/// How a log line is coloured.
#[derive(Debug, Clone, Copy, PartialEq, Eq)]
pub enum LogTone {
    /// A line that reports success (holds ✅).
    Success,
    /// A line that reports a failure (holds ❌).
    Failure,
    /// A line that reports a start (holds ⚡).
    Start,
    /// A rule line (starts with ━).
    Rule,
    /// Any other line.
    Plain,
}

/// The tone of a log line; the first matching rule wins: ✅ anywhere,
/// then ❌ anywhere, then ⚡ anywhere, then a leading ━.
pub open spec fn tone_of(line: Seq<char>) -> LogTone {
    if line.contains('✅') {
        LogTone::Success
    } else if line.contains('❌') {
        LogTone::Failure
    } else if line.contains('⚡') {
        LogTone::Start
    } else if line.len() > 0 && line[0] == '━' {
        LogTone::Rule
    } else {
        LogTone::Plain
    }
}

/// The tone in which a log line is shown.
pub fn log_tone(line: &str) -> (r: LogTone)
    ensures
        r == tone_of(line@),
{
    broadcast use vstd::string::group_string_axioms;

    let mut success = false;
    let mut failure = false;
    let mut start = false;
    let mut first: Option<char> = None;
    for c in it: line.chars()
        invariant
            it.seq() == line@,
            success <==> it.seq().take(it.index() as int).contains('✅'),
            failure <==> it.seq().take(it.index() as int).contains('❌'),
            start <==> it.seq().take(it.index() as int).contains('⚡'),
            it.index() == 0 ==> first is None,
            it.index() > 0 ==> first == Some(it.seq()[0]),
    {
        let ghost k = it.index() as int;
        proof {
            let pre = it.seq().take(k);
            let next = it.seq().take(k + 1);
            assert(next =~= pre.push(c));
            assert(next.contains(c)) by {
                assert(next[k] == c);
            }
        }
        if first.is_none() {
            first = Some(c);
        }
        if c == '✅' {
            success = true;
        }
        if c == '❌' {
            failure = true;
        }
        if c == '⚡' {
            start = true;
        }
    }
    proof {
        assert(line@.take(line@.len() as int) =~= line@);
    }
    if success {
        LogTone::Success
    } else if failure {
        LogTone::Failure
    } else if start {
        LogTone::Start
    } else {
        match first {
            Some(c) if c == '━' => LogTone::Rule,
            _ => LogTone::Plain,
        }
    }
}

/// `b` keeps every field of `a` that is not named.
pub open spec fn keeps_inputs_and_settings(a: InvoiceApp, b: InvoiceApp) -> bool {
    &&& b.invoice_dir == a.invoice_dir
    &&& b.buyer_keyword == a.buyer_keyword
    &&& b.config == a.config
}

/// What the state relations promise, field by field: changing only the log
/// (and the progress) keeps every other field; starting a run switches to
/// processing with status "识别中...", no shown results, cleared counts and
/// the progress active from zero, keeps the inputs, settings, table flag
/// and last spreadsheet, hands the worker the folder and the limited thread
/// count, and logs six lines; closing a run leaves processing with the
/// progress inactive, keeps the inputs and settings, and sets the status to
/// "识别完成" or "处理失败".
pub proof fn lemma_state_relations(a: InvoiceApp, b: InvoiceApp, job: WorkerJob, records: Seq<InvoiceSummary>, out: Seq<char>)
    ensures
        a.same_but_log(&b) ==> keeps_inputs_and_settings(a, b) && b.output_path == a.output_path
            && b.is_processing == a.is_processing && b.status_message == a.status_message
            && b.stats == a.stats && b.show_result == a.show_result && b.result_file_path
            == a.result_file_path && b.show_table == a.show_table && b.progress == a.progress,
        a.same_but_log_and_progress(&b) ==> keeps_inputs_and_settings(a, b) && b.output_path
            == a.output_path && b.is_processing == a.is_processing && b.status_message
            == a.status_message && b.stats == a.stats && b.show_result == a.show_result
            && b.result_file_path == a.result_file_path && b.show_table == a.show_table,
        started(a, b, job) ==> {
            &&& keeps_inputs_and_settings(a, b)
            &&& b.is_processing && !b.show_result
            &&& b.status_message@ == "识别中..."@
            &&& b.stats.total_files == 0 && b.stats.pdf_files == 0
            &&& b.stats.seller_recognized == 0 && b.stats.amount_recognized == 0
            &&& b.progress.total == 0 && b.progress.completed == 0 && b.progress.is_active
            &&& b.show_table == a.show_table && b.result_file_path == a.result_file_path
            &&& job.invoice_dir@ == a.invoice_dir@
            &&& job.output_path@ == b.output_path@
            &&& (a.output_path@.len() > 0 ==> b.output_path@ == a.output_path@)
            &&& (MIN_THREADS <= a.config.thread_pool_size <= MAX_THREADS ==> job.thread_count
                == a.config.thread_pool_size)
            &&& MIN_THREADS <= job.thread_count <= MAX_THREADS
            &&& b.lines().len() == 6
        },
        finished_ok(a, b, out, records) ==> {
            &&& keeps_inputs_and_settings(a, b) && b.output_path == a.output_path
            &&& !b.is_processing && !b.progress.is_active
            &&& b.progress.total == a.progress.total && b.progress.completed == a.progress.completed
            &&& b.show_result && b.show_table
            &&& b.result_file_path@ == out
            &&& b.stats == stats_of(records)
            &&& b.status_message@ == "识别完成"@
        },
        failed(a, b) ==> {
            &&& keeps_inputs_and_settings(a, b) && b.output_path == a.output_path
            &&& !b.is_processing && !b.progress.is_active
            &&& b.progress.total == a.progress.total && b.progress.completed == a.progress.completed
            &&& b.stats == a.stats && b.show_result == a.show_result
            &&& b.result_file_path == a.result_file_path
            &&& b.status_message@ == "处理失败"@
        },
{
    if started(a, b, job) {
        crate::config::lemma_clamp_threads(a.config.thread_pool_size as int, 0);
    }
}

/// Closing a run adds its report after the old log: five lines for a
/// success (rule, "✅ 处理完成!", the summary, "💾 输出: " with the path as
/// shown, rule) and three for a failure (rule, "❌ 处理失败: " with the
/// error, rule); with room to spare the old lines stay in front. The
/// summary's counts are written in decimal digits that read back as the
/// file and PDF counts.
pub proof fn lemma_report_lines(
    lines: Seq<Seq<char>>,
    stats: ProcessStats,
    accuracy_text: Seq<char>,
    elapsed_text: Seq<char>,
    output: Seq<char>,
    error: Seq<char>,
)
    requires
        lines.len() + 5 <= LOG_CAPACITY,
    ensures
        success_lines(lines, stats, accuracy_text, elapsed_text, output) == lines + seq![
            SEPARATOR@,
            "✅ 处理完成!"@,
            summary_line(stats, accuracy_text, elapsed_text),
            "💾 输出: "@ + shortened(output),
            SEPARATOR@,
        ],
        failure_lines(lines, error) == lines + seq![
            SEPARATOR@,
            "❌ 处理失败: "@ + error,
            SEPARATOR@,
        ],
        exists|total_digits: Seq<char>, pdf_digits: Seq<char>|
            {
                &&& summary_line(stats, accuracy_text, elapsed_text) == "📊 总文件: "@
                    + total_digits + " | PDF: "@ + pdf_digits + " | 成功率: "@ + accuracy_text
                    + "% | 耗时: "@ + elapsed_text + "s"@
                &&& digits_value(total_digits) == stats.total_files
                &&& digits_value(pdf_digits) == stats.pdf_files
                &&& total_digits.len() >= 1 && pdf_digits.len() >= 1
                &&& (stats.total_files > 0 ==> total_digits[0] != '0')
                &&& (stats.pdf_files > 0 ==> pdf_digits[0] != '0')
                &&& forall|i: int| 0 <= i < total_digits.len() ==> '0' <= #[trigger] total_digits[i] <= '9'
                &&& forall|i: int| 0 <= i < pdf_digits.len() ==> '0' <= #[trigger] pdf_digits[i] <= '9'
            },
{
    assert(success_lines(lines, stats, accuracy_text, elapsed_text, output) =~= lines + seq![
        SEPARATOR@,
        "✅ 处理完成!"@,
        summary_line(stats, accuracy_text, elapsed_text),
        "💾 输出: "@ + shortened(output),
        SEPARATOR@,
    ]);
    assert(failure_lines(lines, error) =~= lines + seq![
        SEPARATOR@,
        "❌ 处理失败: "@ + error,
        SEPARATOR@,
    ]);
    lemma_decimal_is_numeral(stats.total_files as nat);
    lemma_decimal_is_numeral(stats.pdf_files as nat);
    let t = decimal(stats.total_files as nat);
    let d = decimal(stats.pdf_files as nat);
    assert(summary_line(stats, accuracy_text, elapsed_text) == "📊 总文件: "@ + t + " | PDF: "@ + d
        + " | 成功率: "@ + accuracy_text + "% | 耗时: "@ + elapsed_text + "s"@);
}

/// The window state that the tool's decisions read and change.
pub struct InvoiceApp {
    /// Folder that holds the invoice files.
    pub invoice_dir: String,
    /// Keyword of the buyer; empty lets the worker find the buyer itself.
    pub buyer_keyword: String,
    /// Where the spreadsheet goes; empty means a file in the invoice folder.
    pub output_path: String,
    /// The activity log, oldest line first.
    pub log_messages: Vec<String>,
    /// A run is going on.
    pub is_processing: bool,
    /// The status line.
    pub status_message: String,
    /// Counts of the last finished run.
    pub stats: ProcessStats,
    /// The results of the last run are shown.
    pub show_result: bool,
    /// The spreadsheet written by the last run.
    pub result_file_path: String,
    /// The result table is shown.
    pub show_table: bool,
    /// The settings.
    pub config: Config,
    /// Progress of the current run.
    pub progress: ProcessProgress,
}

impl InvoiceApp {
    /// The text of the activity log.
    pub open spec fn lines(&self) -> Seq<Seq<char>> {
        lines_of(self.log_messages@)
    }

    /// The log is within its capacity.
    pub open spec fn log_within_capacity(&self) -> bool {
        self.log_messages@.len() <= LOG_CAPACITY
    }

    /// `other` is this state with, at most, another log.
    pub open spec fn same_but_log(&self, other: &InvoiceApp) -> bool {
        *other == InvoiceApp { log_messages: other.log_messages, ..*self }
    }

    /// `other` is this state with, at most, another log and progress.
    pub open spec fn same_but_log_and_progress(&self, other: &InvoiceApp) -> bool {
        *other == InvoiceApp {
            log_messages: other.log_messages,
            progress: other.progress,
            ..*self
        }
    }

    /// The state of a freshly opened window with the given settings: empty
    /// inputs and log, status "就绪", no results, and the table shown.
    pub fn new(config: Config) -> (r: InvoiceApp)
        ensures
            r.invoice_dir@.len() == 0,
            r.buyer_keyword@.len() == 0,
            r.output_path@.len() == 0,
            r.log_messages@.len() == 0,
            !r.is_processing,
            r.status_message@ == "就绪"@,
            r.stats == empty_stats(),
            !r.show_result,
            r.result_file_path@.len() == 0,
            r.show_table,
            r.config == config,
            r.progress == crate::progress::idle_progress(),
    {
        InvoiceApp {
            invoice_dir: String::new(),
            buyer_keyword: String::new(),
            output_path: String::new(),
            log_messages: Vec::new(),
            is_processing: false,
            status_message: String::from_str("就绪"),
            stats: ProcessStats::default(),
            show_result: false,
            result_file_path: String::new(),
            show_table: true,
            config,
            progress: ProcessProgress::default(),
        }
    }

    /// Adds a line to the activity log, dropping the oldest line when the
    /// log would otherwise exceed its capacity.
    pub fn log(&mut self, message: String)
        ensures
            final(self).lines() == appended(old(self).lines(), message@),
            old(self).same_but_log(&*final(self)),
            old(self).log_within_capacity() ==> final(self).log_within_capacity(),
    {
        let ghost before = self.log_messages@;
        self.log_messages.push(message);
        if self.log_messages.len() > LOG_CAPACITY {
            self.log_messages.remove(0);
        }
        proof {
            let grown = before.push(message);
            assert(lines_of(grown) =~= lines_of(before).push(message@));
            assert(lines_of(grown.drop_first()) =~= lines_of(grown).drop_first());
        }
    }

    /// The path as shown in the log: paths of more than 60 UTF-8 bytes are
    /// cut to their first 30 bytes, `"..."` and their last 27 bytes.
    pub fn format_path(path: &str) -> (r: String)
        requires
            path_cuttable(path@),
        ensures
            r@ == shortened(path@),
            utf8_len(path@) <= PATH_DISPLAY_LIMIT ==> r@ == path@,
            utf8_len(path@) > PATH_DISPLAY_LIMIT ==> encode_utf8(r@) == encode_utf8(path@).subrange(
                0,
                PATH_HEAD_BYTES as int,
            ) + seq![46u8, 46u8, 46u8] + encode_utf8(path@).subrange(
                utf8_len(path@) - PATH_TAIL_BYTES,
                utf8_len(path@) as int,
            ),
            utf8_len(r@) <= PATH_DISPLAY_LIMIT,
    {
        broadcast use vstd::utf8::group_utf8_lib;

        proof {
            lemma_shortened_fits(path@);
        }

        let n = path.as_bytes().len();
        if n > PATH_DISPLAY_LIMIT {
            let (head, _) = path.split_at(PATH_HEAD_BYTES);
            let (_, tail) = path.split_at(n - PATH_TAIL_BYTES);
            let mut r = String::from_str(head);
            r.append("...");
            r.append(tail);
            proof {
                assert(decode_utf8(encode_utf8(head@)) == head@);
                assert(decode_utf8(encode_utf8(tail@)) == tail@);
            }
            r
        } else {
            String::from_str(path)
        }
    }

    /// Starts a run. Without an invoice folder only an error line is logged
    /// and `None` comes back. Otherwise the output path is settled (a file
    /// in the invoice folder when none was chosen), the state switches to
    /// processing with cleared counts and log, the run's header is logged,
    /// and the job for the worker comes back.
    pub fn start_processing(&mut self) -> (r: Option<WorkerJob>)
        requires
            path_cuttable(old(self).invoice_dir@),
        ensures
            r is None <==> old(self).invoice_dir@.len() == 0,
            r is None ==> final(self).lines() == appended(old(self).lines(), "❌ 请选择发票目录"@)
                && old(self).same_but_log(&*final(self)),
            r matches Some(job) ==> started(*old(self), *final(self), job),
            old(self).log_within_capacity() ==> final(self).log_within_capacity(),
    {
        if self.invoice_dir.as_str().is_empty() {
            self.log(String::from_str("❌ 请选择发票目录"));
            return None;
        }
        if self.output_path.as_str().is_empty() {
            self.output_path = self.invoice_dir.clone().concat("/发票清单.xlsx");
        }
        self.is_processing = true;
        self.show_result = false;
        self.status_message = String::from_str("识别中...");
        self.log_messages.clear();
        self.stats = ProcessStats::default();

        let invoice_dir = self.invoice_dir.clone();
        let buyer_keyword = self.buyer_keyword.clone();
        let output_path = self.output_path.clone();
        let thread_count = self.config.get_thread_pool_size();

        self.log(String::from_str(SEPARATOR));
        self.log(String::from_str("⚡ 开始处理发票文件"));
        let shown = Self::format_path(invoice_dir.as_str());
        self.log(String::from_str("📂 目录: ").concat(shown.as_str()));
        if !buyer_keyword.as_str().is_empty() {
            self.log(String::from_str("🏢 关键词: ").concat(buyer_keyword.as_str()));
        } else {
            self.log(String::from_str("🏢 关键词: 未设置（自动识别）"));
        }
        let mut threads = String::from_str("🔧 线程数: ");
        push_decimal(&mut threads, thread_count);
        threads.append(" 个并行处理");
        self.log(threads);
        self.log(String::from_str(SEPARATOR));

        self.progress = ProcessProgress { total: 0, completed: 0, is_active: true };

        let keyword = if buyer_keyword.as_str().is_empty() {
            None
        } else {
            Some(buyer_keyword)
        };
        assert(self.lines() =~= start_lines(
            invoice_dir@,
            buyer_keyword@,
            thread_count as nat,
        ));
        Some(WorkerJob { invoice_dir, buyer_keyword: keyword, output_path, thread_count })
    }

    /// Takes in one report from the worker: a log line goes to the activity
    /// log, the other reports move the progress.
    pub fn handle_progress(&mut self, event: &ProgressEvent)
        ensures
            final(self).progress == progress_step(old(self).progress, *event),
            final(self).lines() == lines_step(old(self).lines(), *event),
            !(event is Log) ==> final(self).lines() == old(self).lines(),
            event matches ProgressEvent::Log(m) ==> final(self).lines() == appended(
                old(self).lines(),
                m@,
            ),
            old(self).same_but_log_and_progress(&*final(self)),
            old(self).log_within_capacity() ==> final(self).log_within_capacity(),
    {
        self.progress.apply(event);
        if let ProgressEvent::Log(message) = event {
            self.log(message.clone());
        }
    }

    /// Takes in the worker's reports in the order they came.
    pub fn check_progress(&mut self, events: &Vec<ProgressEvent>)
        ensures
            final(self).progress == progress_after(old(self).progress, events@),
            final(self).lines() == lines_after(old(self).lines(), events@),
            old(self).same_but_log_and_progress(&*final(self)),
            old(self).log_within_capacity() ==> final(self).log_within_capacity(),
    {
        let ghost start = *self;
        let mut i: usize = 0;
        while i < events.len()
            invariant
                i <= events.len(),
                self.progress == progress_after(start.progress, events@.take(i as int)),
                self.lines() == lines_after(start.lines(), events@.take(i as int)),
                start.same_but_log_and_progress(&*self),
                start.log_within_capacity() ==> self.log_within_capacity(),
            decreases events.len() - i,
        {
            proof {
                assert(events@.take(i + 1).drop_last() =~= events@.take(i as int));
                assert(events@.take(i + 1).last() == events@[i as int]);
            }
            self.handle_progress(&events[i]);
            i = i + 1;
        }
        proof {
            assert(events@.take(i as int) =~= events@);
        }
    }

    /// Closes a run that succeeded: the state leaves processing, the
    /// written spreadsheet and the counts over `records` are kept and shown,
    /// and the run's summary is logged. `accuracy_text` and `elapsed_text`
    /// are the recognition share and the run time as they are to be shown.
    pub fn finish_success(
        &mut self,
        output_file: String,
        records: &Vec<InvoiceSummary>,
        accuracy_text: &str,
        elapsed_text: &str,
    )
        requires
            path_cuttable(output_file@),
        ensures
            finished_ok(*old(self), *final(self), output_file@, records@),
            final(self).lines() == success_lines(
                old(self).lines(),
                stats_of(records@),
                accuracy_text@,
                elapsed_text@,
                output_file@,
            ),
            old(self).log_within_capacity() ==> final(self).log_within_capacity(),
    {
        self.is_processing = false;
        self.progress.is_active = false;
        let shown = Self::format_path(output_file.as_str());
        self.result_file_path = output_file;
        self.stats = ProcessStats::from_records(records);
        self.show_result = true;
        self.show_table = true;

        self.log(String::from_str(SEPARATOR));
        self.log(String::from_str("✅ 处理完成!"));
        let mut summary = String::from_str("📊 总文件: ");
        push_decimal(&mut summary, self.stats.total_files);
        summary.append(" | PDF: ");
        push_decimal(&mut summary, self.stats.pdf_files);
        summary.append(" | 成功率: ");
        summary.append(accuracy_text);
        summary.append("% | 耗时: ");
        summary.append(elapsed_text);
        summary.append("s");
        self.log(summary);
        self.log(String::from_str("💾 输出: ").concat(shown.as_str()));
        self.log(String::from_str(SEPARATOR));
        self.status_message = String::from_str("识别完成");
    }

    /// Closes a run that failed with `error`: the state leaves processing
    /// and the failure is logged.
    pub fn finish_failure(&mut self, error: &str)
        ensures
            failed(*old(self), *final(self)),
            final(self).lines() == failure_lines(old(self).lines(), error@),
            old(self).log_within_capacity() ==> final(self).log_within_capacity(),
    {
        self.is_processing = false;
        self.progress.is_active = false;
        self.log(String::from_str(SEPARATOR));
        self.log(String::from_str("❌ 处理失败: ").concat(error));
        self.log(String::from_str(SEPARATOR));
        self.status_message = String::from_str("处理失败");
    }
}

} // verus!
