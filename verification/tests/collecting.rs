use headroom::collect::meminfo::parse_meminfo;
use headroom::collect::memory::{self, MemorySnapshot};
use headroom::collect::paging;
use headroom::collect::process::{collect_top, rank_top, ProcessSnapshot};
use std::cmp::Reverse;

const SWAPS: &str = "Filename\t\t\t\tType\t\tSize\t\tUsed\t\tPriority
/dev/nvme0n1p3                          partition\t6291452\t\t2097152\t\t-2
/swapfile                               file\t\t2097152\t\t0\t\t-3
";

const SAMPLE: &str = "MemTotal:       16318420 kB
MemFree:         1203548 kB
MemAvailable:    9812340 kB
Buffers:          412112 kB
Cached:          7654320 kB
SwapCached:         1024 kB
SwapTotal:       8388604 kB
SwapFree:        6291452 kB
Slab:             812340 kB
KernelStack:       23456 kB
CommitLimit:    16547812 kB
Committed_AS:   21987654 kB
HugePages_Total:       0
";

fn reference_map(content: &str) -> std::collections::HashMap<&str, u64> {
    let mut map = std::collections::HashMap::new();
    for line in content.lines() {
        if let Some((key, val)) = line.split_once(':') {
            let kb: u64 = val.split_whitespace().next().and_then(|v| v.parse().ok()).unwrap_or(0);
            map.insert(key.trim(), kb * 1024);
        }
    }
    map
}

#[test]
fn memory_from_meminfo() {
    let info = parse_meminfo(SAMPLE).unwrap();
    let m = memory::collect(&info);
    assert_eq!(m.total_bytes, 16318420 * 1024);
    assert_eq!(m.available_bytes, 9812340 * 1024);
    assert_eq!(m.used_bytes, (16318420 - 9812340) * 1024);
    assert_eq!(m.committed_bytes, 21987654 * 1024);
    assert_eq!(m.commit_limit_bytes, (16318420 + 8388604) * 1024);
    assert_eq!(m.paged_pool_bytes, 812340 * 1024);
    assert_eq!(m.non_paged_pool_bytes, 23456 * 1024);
    assert_eq!(m.cached_bytes, (7654320 + 412112) * 1024);
    assert_eq!(m.commit_gap(), (21987654 - (16318420 - 9812340)) * 1024);
}

#[test]
fn commit_limit_is_at_least_ram() {
    let info = parse_meminfo("MemTotal: 100 kB\nCommitLimit: 40 kB\nMemAvailable: 150 kB\n").unwrap();
    let m = memory::collect(&info);
    assert_eq!(m.commit_limit_bytes, 100 * 1024);
    assert_eq!(m.used_bytes, 0);
}

#[test]
fn commit_limit_is_ram_plus_swap() {
    let info = parse_meminfo("MemTotal: 100 kB\nSwapTotal: 30 kB\nCommitLimit: 500 kB\n").unwrap();
    let m = memory::collect(&info);
    assert_eq!(m.commit_limit_bytes, 130 * 1024);
}

#[test]
fn swap_from_meminfo() {
    let info = parse_meminfo(SAMPLE).unwrap();
    let p = paging::collect(&info, SWAPS);
    assert_eq!(p.total_bytes, 8388604 * 1024);
    assert_eq!(p.used_bytes, (8388604 - 6291452) * 1024);
    assert_eq!(p.entries.len(), 2);
    assert_eq!(p.entries[0].path, "/dev/nvme0n1p3");
    assert_eq!(p.entries[0].total_bytes, 6291452 * 1024);
    assert_eq!(p.entries[0].used_bytes, 2097152 * 1024);
    assert_eq!(p.entries[1].path, "/swapfile");
    assert_eq!(p.entries[1].total_bytes, 2097152 * 1024);
    assert_eq!(p.entries[1].used_bytes, 0);
    let none = paging::collect(&parse_meminfo("MemTotal: 1 kB").unwrap(), "");
    assert!(none.entries.is_empty());
    assert_eq!(none.total_bytes, 0);
    assert_eq!(none.used_bytes, 0);
}

#[test]
fn swap_used_is_floored() {
    let info = parse_meminfo("SwapTotal: 10 kB\nSwapFree: 20 kB").unwrap();
    assert_eq!(paging::collect(&info, "").used_bytes, 0);
}

#[test]
fn swap_table_lines() {
    let text = "Filename\t\t\t\tType\t\tSize\t\tUsed\t\tPriority\n\
                /dev/sda2 partition 100 7 -2\n\
                \n\
                broken line\n\
                /bad file x 1 -3\n\
                /huge file 18014398509481984 0 -4\n\
                \t/tabbed\tfile\t+5\t4\n\
                /short file 9";
    let devices = paging::parse_swaps(text);
    let got: Vec<(&str, u64, u64)> =
        devices.iter().map(|e| (e.path.as_str(), e.total_bytes, e.used_bytes)).collect();
    assert_eq!(got, vec![("/dev/sda2", 100 * 1024, 7 * 1024), ("/tabbed", 5 * 1024, 4 * 1024)]);
    assert!(paging::parse_swaps("Filename Type Size Used Priority\n").is_empty());
}

#[test]
fn meminfo_lookup_rules() {
    let text = "  Key One :  12 kB\nbroken line\nKey One: 7\nNum: +5 kB\nNeg: -5 kB\nWord: abc\nEmpty:\nCr: 9\r\n\tTabbed\t:\t3\t\nLast: 4";
    let info = parse_meminfo(text).unwrap();
    let reference = reference_map(text);
    for key in ["Key One", "Num", "Neg", "Word", "Empty", "Cr", "Tabbed", "Last", "Missing", "broken line"] {
        assert_eq!(info.get(key), *reference.get(key).unwrap_or(&0), "key {key}");
    }
    assert_eq!(info.get("Key One"), 7 * 1024);
    assert_eq!(info.get("Num"), 5 * 1024);
    assert_eq!(info.get("Neg"), 0);
}

#[test]
fn meminfo_matches_reference_on_sample() {
    let info = parse_meminfo(SAMPLE).unwrap();
    for (k, v) in reference_map(SAMPLE) {
        assert_eq!(info.get(k), v);
    }
}

#[test]
fn meminfo_values_that_overflow_are_refused() {
    assert!(parse_meminfo("Big: 18014398509481984 kB").is_none());
    assert!(parse_meminfo("Big: 18014398509481983 kB").is_some());
    assert!(parse_meminfo("A: 1\nBig: 99999999999999999999 kB").is_some());
    assert_eq!(parse_meminfo("Big: 99999999999999999999 kB").unwrap().get("Big"), 0);
}

#[test]
fn windows_counters_scale_by_page() {
    let m = memory::from_performance_info(4096, 100, 30, 200, 300, 5, 6, 7);
    assert_eq!(
        m,
        MemorySnapshot {
            total_bytes: 409_600,
            available_bytes: 122_880,
            used_bytes: 286_720,
            committed_bytes: 819_200,
            commit_limit_bytes: 1_228_800,
            paged_pool_bytes: 20_480,
            non_paged_pool_bytes: 24_576,
            cached_bytes: 28_672,
        }
    );
    assert_eq!(memory::from_performance_info(4096, 1, 2, 0, 0, 0, 0, 0).used_bytes, 0);
}

#[test]
fn totals_without_commit_counters() {
    let m = memory::from_totals(1000, 400, 550, 250);
    assert_eq!(m.committed_bytes, 600);
    assert_eq!(m.commit_limit_bytes, 1250);
    assert_eq!(m.used_bytes, 550);
    assert_eq!(m.paged_pool_bytes + m.non_paged_pool_bytes + m.cached_bytes, 0);
}

fn reference_rank(keys: &[u64], n: usize) -> Vec<usize> {
    let mut idx: Vec<usize> = (0..keys.len()).collect();
    idx.sort_by_key(|&i| Reverse(keys[i]));
    idx.truncate(n);
    idx
}

#[test]
fn ranking_matches_stable_descending_sort() {
    let mut x: u64 = 7;
    for len in 0..40usize {
        let keys: Vec<u64> = (0..len)
            .map(|_| {
                x = x.wrapping_mul(6364136223846793005).wrapping_add(1442695040888963407);
                (x >> 60) % 5
            })
            .collect();
        for n in [0, 1, 3, 20, 100] {
            assert_eq!(rank_top(&keys, n), reference_rank(&keys, n));
        }
    }
}

#[test]
fn ranking_examples() {
    assert_eq!(rank_top(&vec![5, 9, 5, 1, 9], 3), vec![1, 4, 0]);
    assert_eq!(rank_top(&vec![5, 9], 10), vec![1, 0]);
    assert_eq!(rank_top(&vec![], 3), Vec::<usize>::new());
}

#[test]
fn processes_ranked_by_virtual_size() {
    let p = |pid: u32, v: u64, m: u64| ProcessSnapshot { pid, name: format!("p{pid}"), virtual_bytes: v, memory_bytes: m };
    let procs = vec![p(1, 10, 900), p(2, 30, 100), p(3, 20, 500), p(4, 30, 50)];
    assert_eq!(collect_top(&procs, 3), vec![1, 3, 2]);
}
