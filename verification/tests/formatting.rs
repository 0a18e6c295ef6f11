use headroom::ai::{build_prompt, fmt_bytes, process_line};
use headroom::collect::memory::MemorySnapshot;
use headroom::collect::paging::aggregate;
use headroom::config::{DriveInfo, SystemProfile};

const GB: f64 = 1_073_741_824.0;

fn float_label(bytes: u64) -> String {
    const TB: f64 = 1_099_511_627_776.0;
    const MB: f64 = 1_048_576.0;
    let b = bytes as f64;
    if b >= TB {
        format!("{:.1}T", b / TB)
    } else if b >= GB {
        format!("{:.1}G", b / GB)
    } else if b >= MB {
        format!("{:.0}M", b / MB)
    } else {
        format!("{:.0}K", b / 1024.0)
    }
}

fn samples() -> Vec<u64> {
    let mut v: Vec<u64> = vec![
        0,
        1,
        511,
        512,
        513,
        1023,
        1024,
        1535,
        1536,
        2560,
        3584,
        1_048_575,
        1_048_576,
        1_572_864,
        2_621_440,
        1_073_741_823,
        1_073_741_824,
        1_127_428_915,
        1_181_116_006,
        1_610_612_736,
        1_099_511_627_775,
        1_099_511_627_776,
        (1u64 << 53) - 1,
        1u64 << 53,
        (1u64 << 53) + 1,
        (1u64 << 53) + 2,
        (1u64 << 53) + 3,
        (1u64 << 54) + 2,
        (1u64 << 54) + 6,
        u64::MAX - 1,
        u64::MAX,
        u64::MAX / 3,
    ];
    let mut x: u64 = 0x9e37_79b9_7f4a_7c15;
    for i in 0..4000u32 {
        x = x.wrapping_mul(6364136223846793005).wrapping_add(1442695040888963407);
        let shift = i % 64;
        v.push(x >> shift);
        v.push((x >> shift) & !0x3ff);
        v.push(((x >> shift) | 1) * 3 / 2);
    }
    for k in 10..64u32 {
        let p = 1u64 << k;
        v.push(p - 1);
        v.push(p);
        v.push(p + (p >> 1));
        v.push(p + (p >> 2));
        v.push(p + (p >> 4) + (p >> 5));
    }
    v
}

#[test]
fn fmt_bytes_matches_float_rendering() {
    for b in samples() {
        assert_eq!(fmt_bytes(b), float_label(b), "bytes = {b}");
    }
}

#[test]
fn fmt_bytes_examples() {
    assert_eq!(fmt_bytes(0), "0K");
    assert_eq!(fmt_bytes(1024), "1K");
    assert_eq!(fmt_bytes(1536), "2K");
    assert_eq!(fmt_bytes(2560), "2K");
    assert_eq!(fmt_bytes(830 * 1_048_576), "830M");
    assert_eq!(fmt_bytes(1_073_741_824), "1.0G");
    assert_eq!(fmt_bytes(1_610_612_736), "1.5G");
    assert_eq!(fmt_bytes(1_099_511_627_776), "1.0T");
    assert_eq!(fmt_bytes(u64::MAX), "16777216.0T");
}

fn float_process_line(name: &str, pid: u32, v: u64, m: u64, cpu: f32) -> String {
    format!(
        "  {:<30} pid {:>6}  virtual {:>6}  physical {:>6}  cpu {:.1}%",
        name,
        pid,
        float_label(v),
        float_label(m),
        cpu
    )
}

#[test]
fn process_line_matches_format() {
    let cases: Vec<(&str, u32, u64, u64, f32)> = vec![
        ("chrome.exe", 1234, 3_848_290_697_216, 512 * 1_048_576, 12.34),
        ("a-very-long-process-name-that-overflows-the-column", 4_294_967_295, 0, 1, 0.0),
        ("zé", 7, 1536, 1_073_741_824, 99.95),
        ("", 0, 123_456_789, 987_654_321, 100.0),
    ];
    for (name, pid, v, m, cpu) in cases {
        let cpu_text = format!("{:.1}", cpu);
        assert_eq!(process_line(name, pid, v, m, &cpu_text), float_process_line(name, pid, v, m, cpu));
    }
}

fn float_prompt(
    mem: &MemorySnapshot,
    pf_total: u64,
    pf_used: u64,
    profile: &SystemProfile,
    ts: &str,
    commit_pct: f64,
    pf_pct: f64,
    lines: &[String],
) -> String {
    let proc_list = lines.iter().take(10).cloned().collect::<Vec<_>>().join("\n");
    format!(
        r#"You are a system performance expert. Analyze these live metrics and provide:
1. Root cause analysis — what is consuming commit and why allocation failures occur
2. Short-term fixes — actions that can be taken today (config changes, process restarts, pagefile tuning)
3. Long-term optimizations — architectural or workflow changes

System profile:
  CPU: {cpu}
  RAM: {ram_gb} GB installed
  GPU: {gpu}
  Use cases: {uses}
  OS: Windows 11

Memory snapshot ({ts}):
  Physical total:    {phys_total:.2} GB
  Physical used:     {phys_used:.2} GB
  Physical avail:    {phys_avail:.2} GB
  Cached/standby:    {cached:.2} GB

Commit charge (primary diagnostic):
  Committed:         {committed:.2} GB
  Commit limit:      {commit_limit:.2} GB  (RAM + pagefile ceiling)
  Commit pressure:   {commit_pct:.1}%

Kernel pools:
  Paged pool:        {paged:.3} GB
  Non-paged pool:    {nonpaged:.3} GB

Pagefile:
  Total:             {pf_total:.2} GB
  Used:              {pf_used:.2} GB
  Usage:             {pf_pct:.1}%

Top 10 processes by virtual commit:
  (Note: virtual column includes Chromium-family VA reservations ~3.5T each — these are
   mostly uncommitted. Physical column is the actual RAM footprint.)
{proc_list}

Key observation: committed ({committed:.1} GB) vs physical in use ({phys_used:.1} GB).
Gap of {gap:.1} GB = virtual address space reserved but not backed by RAM or pagefile."#,
        cpu = if profile.cpu.is_empty() { "unspecified".into() } else { profile.cpu.clone() },
        ram_gb = profile.ram_gb,
        gpu = if profile.gpu.is_empty() { "unspecified".into() } else { profile.gpu.clone() },
        uses = if profile.use_cases.is_empty() {
            "development, gaming, media".into()
        } else {
            profile.use_cases.join(", ")
        },
        ts = ts,
        phys_total = mem.total_bytes as f64 / GB,
        phys_used = mem.used_bytes as f64 / GB,
        phys_avail = mem.available_bytes as f64 / GB,
        cached = mem.cached_bytes as f64 / GB,
        committed = mem.committed_bytes as f64 / GB,
        commit_limit = mem.commit_limit_bytes as f64 / GB,
        commit_pct = commit_pct,
        paged = mem.paged_pool_bytes as f64 / GB,
        nonpaged = mem.non_paged_pool_bytes as f64 / GB,
        pf_total = pf_total as f64 / GB,
        pf_used = pf_used as f64 / GB,
        pf_pct = pf_pct,
        gap = (mem.committed_bytes.saturating_sub(mem.used_bytes)) as f64 / GB,
        proc_list = proc_list,
    )
}

fn snapshot(seed: u64) -> MemorySnapshot {
    let mut x = seed;
    let mut next = || {
        x = x.wrapping_mul(6364136223846793005).wrapping_add(1442695040888963407);
        x >> (x % 29)
    };
    MemorySnapshot {
        total_bytes: next(),
        available_bytes: next(),
        used_bytes: next(),
        committed_bytes: next(),
        commit_limit_bytes: next(),
        paged_pool_bytes: next(),
        non_paged_pool_bytes: next(),
        cached_bytes: next(),
    }
}

#[test]
fn prompt_matches_format() {
    let profiles = vec![
        SystemProfile::default(),
        SystemProfile {
            cpu: "i7-13650HX".to_string(),
            ram_gb: 64,
            gpu: "RTX 4060".to_string(),
            drives: vec![DriveInfo {
                label: "OS".to_string(),
                drive_letter: "C".to_string(),
                kind: "nvme".to_string(),
            }],
            use_cases: vec!["development".to_string(), "gaming".to_string(), "media".to_string()],
        },
        SystemProfile {
            cpu: String::new(),
            ram_gb: 4_000_000_000,
            gpu: "iGPU".to_string(),
            drives: vec![],
            use_cases: vec!["builds".to_string()],
        },
    ];
    for (i, profile) in profiles.iter().enumerate() {
        for seed in 0..40u64 {
            let mem = snapshot(seed * 7 + i as u64);
            let pf_total = seed * 123_456_789_012;
            let pf_used = seed * 98_765_432_101;
            let paging = aggregate("swap (aggregate)", pf_total, pf_used);
            let commit_pct = if mem.commit_limit_bytes == 0 {
                0.0
            } else {
                mem.committed_bytes as f64 / mem.commit_limit_bytes as f64
            } * 100.0;
            let pf_pct = if pf_total == 0 { 0.0 } else { pf_used as f64 / pf_total as f64 } * 100.0;
            let lines: Vec<String> = (0..(seed as usize % 14))
                .map(|k| process_line(&format!("proc{k}"), k as u32, seed << k, seed * k as u64, &format!("{:.1}", k as f32 * 1.5)))
                .collect();
            let secs = 1_735_787_045 + seed as i64 * 86_399;
            let nanos = (seed as u32) * 12_345_678;
            let time = chrono::DateTime::from_timestamp(secs, nanos).unwrap();
            let ts = time.format("%Y-%m-%d %H:%M:%S UTC").to_string();
            let got = build_prompt(
                &mem,
                &paging,
                profile,
                time.timestamp(),
                time.timestamp_subsec_nanos(),
                &format!("{:.1}", commit_pct),
                &format!("{:.1}", pf_pct),
                &lines,
            )
            .unwrap();
            assert_eq!(got, float_prompt(&mem, pf_total, pf_used, profile, &ts, commit_pct, pf_pct, &lines));
        }
    }
}

#[test]
fn prompt_shows_the_snapshot_time() {
    let paging = aggregate("swap", 0, 0);
    let prompt = build_prompt(
        &MemorySnapshot::default(),
        &paging,
        &SystemProfile::default(),
        1_431_648_000,
        0,
        "0.0",
        "0.0",
        &vec![],
    )
    .unwrap();
    assert!(prompt.contains("Memory snapshot (2015-05-15 00:00:00 UTC):"));
    assert!(prompt.contains("  CPU: unspecified\n"));
    assert!(prompt.contains("  Use cases: development, gaming, media\n"));
    let out_of_range = build_prompt(
        &MemorySnapshot::default(),
        &paging,
        &SystemProfile::default(),
        i64::MAX,
        0,
        "0.0",
        "0.0",
        &vec![],
    );
    assert!(out_of_range.is_none());
}
