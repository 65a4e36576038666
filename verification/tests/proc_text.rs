use hydrogen::procfs::{
    chars_of, fields_of, lines_of, parse_clk_tck, parse_i64, parse_meminfo, parse_meminfo_split, parse_stat_deltas,
    parse_u32, parse_u64, cpu_busy_total, CpuTicks, ProcParseError,
};
use hydrogen::stats::{Ram, RamData};

fn v(s: &str) -> Vec<char> {
    s.chars().collect()
}

#[test]
fn lines_match_str_split() {
    for text in ["", "a", "a\n", "\n\nb\nc", "MemTotal: 1 kB\nMemFree: 2 kB\n"] {
        let got: Vec<String> = lines_of(&chars_of(text)).into_iter().map(|l| l.into_iter().collect()).collect();
        let want: Vec<String> = text.split('\n').map(|s| s.to_string()).collect();
        assert_eq!(got, want, "{:?}", text);
    }
}

#[test]
fn fields_match_split_whitespace() {
    for text in ["", "  ", "cpu  1 2\t3", " a\u{A0}b \u{3000}c ", "x"] {
        let got: Vec<String> = fields_of(&v(text)).into_iter().map(|f| f.into_iter().collect()).collect();
        let want: Vec<String> = text.split_whitespace().map(|s| s.to_string()).collect();
        assert_eq!(got, want, "{:?}", text);
    }
}

#[test]
fn numbers_match_from_str() {
    for text in ["0", "+7", "-7", "", "+", "-", "18446744073709551615", "18446744073709551616", "12a", "-9223372036854775808", "9223372036854775808", "4294967295", "4294967296"] {
        assert_eq!(parse_u64(&v(text)), text.parse::<u64>().ok(), "u64 {:?}", text);
        assert_eq!(parse_u32(&v(text)), text.parse::<u32>().ok(), "u32 {:?}", text);
        assert_eq!(parse_i64(&v(text)), text.parse::<i64>().ok(), "i64 {:?}", text);
    }
}

#[test]
fn meminfo_used_and_total() {
    let text = "MemTotal:       16000 kB\nMemFree:         4000 kB\nMemAvailable:   8000 kB\n";
    assert_eq!(
        parse_meminfo(text),
        Ok(RamData { bytes_used: 12000 * 1024, bytes_available: 16000 * 1024 })
    );
}

#[test]
fn meminfo_free_line_first() {
    let text = "MemFree: 1 kB\nBuffers: 9 kB\nMemTotal: 3 kB";
    assert_eq!(parse_meminfo(text), Ok(RamData { bytes_used: 2048, bytes_available: 3072 }));
}

#[test]
fn meminfo_missing_line_is_incomplete() {
    assert_eq!(parse_meminfo("MemTotal: 5 kB\n"), Err(ProcParseError::Incomplete));
    assert_eq!(parse_meminfo(""), Err(ProcParseError::Incomplete));
}

#[test]
fn meminfo_malformed() {
    assert_eq!(parse_meminfo("MemTotal:\nMemFree: 1 kB"), Err(ProcParseError::Malformed));
    assert_eq!(parse_meminfo("MemTotal: x kB\nMemFree: 1 kB"), Err(ProcParseError::Malformed));
    assert_eq!(parse_meminfo("MemTotal: 1 kB\nMemFree: 2 kB"), Err(ProcParseError::Malformed));
    assert_eq!(
        parse_meminfo("MemTotal: 18014398509481984 kB\nMemFree: 1 kB"),
        Err(ProcParseError::Malformed)
    );
}

#[test]
fn stat_deltas_per_cpu() {
    let s1 = "cpu  10 0 10 100\ncpu0 5 0 5 50\nintr 1\n";
    let s2 = "cpu  20 1 15 150\ncpu0 9 0 8 80\nintr 2\n";
    let s3 = "cpu  40 1 25 190\ncpu0 12 2 8 100\nintr 3\n";
    assert_eq!(
        parse_stat_deltas(s1, s2, s3),
        Ok(vec![
            CpuTicks { user: 20, nice: 0, system: 10, idle: 40 },
            CpuTicks { user: 3, nice: 2, system: 0, idle: 20 },
        ])
    );
}

#[test]
fn stat_ticks_of_evenly_rising_counters() {
    let s1 = "cpu 100 0 50 850\nintr 1\n";
    let s2 = "cpu 196 0 98 1706\nintr 2\n";
    let s3 = "cpu 292 0 146 2562\nintr 3\n";
    let ticks = parse_stat_deltas(s1, s2, s3).unwrap();
    assert_eq!(ticks, vec![CpuTicks { user: 96, nice: 0, system: 48, idle: 856 }]);
    assert_eq!(cpu_busy_total(&ticks[0]), Some((144, 1000)));
}

#[test]
fn stat_ticks_counter_going_back_is_malformed() {
    assert_eq!(parse_stat_deltas("cpu 1 1 1 1", "cpu 5 1 1 1", "cpu 4 1 1 1"), Err(ProcParseError::Malformed));
}

#[test]
fn busy_total_overflow() {
    let t = CpuTicks { user: u64::MAX, nice: 0, system: 0, idle: 1 };
    assert_eq!(cpu_busy_total(&t), None);
    let t = CpuTicks { user: 1, nice: 2, system: 3, idle: 4 };
    assert_eq!(cpu_busy_total(&t), Some((6, 10)));
}

#[test]
fn stat_deltas_malformed() {
    assert_eq!(parse_stat_deltas("cpu 1 2 3\n", "cpu 1 2 3 4\n", "cpu 1 2 3 4\n"), Err(ProcParseError::Malformed));
    assert_eq!(parse_stat_deltas("\n", "\n", "\n"), Err(ProcParseError::Malformed));
    assert_eq!(
        parse_stat_deltas(
            "cpu -9223372036854775808 0 0 0",
            "cpu 9223372036854775807 0 0 0",
            "cpu 0 0 0 0"
        ),
        Err(ProcParseError::Malformed)
    );
}

#[test]
fn stat_deltas_stop_at_first_non_cpu_line() {
    assert_eq!(parse_stat_deltas("intr 1\n", "intr 2\n", "intr 3\n"), Ok(vec![]));
}

#[test]
fn clk_tck_trimmed() {
    assert_eq!(parse_clk_tck("100\n"), Some(100));
    assert_eq!(parse_clk_tck("  250 \t"), Some(250));
    assert_eq!(parse_clk_tck("abc"), None);
    assert_eq!(parse_clk_tck(""), None);
}

#[test]
fn meminfo_split_kernel_and_user_space() {
    let text = "MemTotal: 9 kB\nHighTotal: 100 kB\nHighFree: 40 kB\nLowTotal: 50 kB\nLowFree: 20 kB\n";
    assert_eq!(
        parse_meminfo_split(text),
        Ok(Ram {
            kernel: RamData { bytes_used: 30 * 1024, bytes_available: 50 * 1024 },
            user_space: RamData { bytes_used: 60 * 1024, bytes_available: 100 * 1024 },
        })
    );
}

#[test]
fn meminfo_split_errors() {
    assert_eq!(
        parse_meminfo_split("LowTotal: 5 kB\nLowFree: 1 kB\nHighTotal: 5 kB\n"),
        Err(ProcParseError::Incomplete)
    );
    assert_eq!(
        parse_meminfo_split("LowTotal: 5 kB\nLowFree: 6 kB\nHighTotal: 5 kB\nHighFree: 1 kB"),
        Err(ProcParseError::Malformed)
    );
    assert_eq!(
        parse_meminfo_split("LowTotal: five kB\nLowFree: 1 kB\nHighTotal: 5 kB\nHighFree: 1 kB"),
        Err(ProcParseError::Malformed)
    );
}
