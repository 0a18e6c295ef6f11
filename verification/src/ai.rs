//! Diagnostic text for the AI analysis: byte labels, prompt assembly, the
//! request that is sent and the handling of the reply.

use vstd::prelude::*;
use vstd::string::*;
use crate::collect::memory::{sat_sub, MemorySnapshot};
use crate::collect::paging::PagefileSnapshot;
use crate::config::{AiConfig, AiProvider, SystemProfile, base_url_of, model_of, provider_name};
use crate::numfmt::{as_f64, lemma_as_f64_exact_below_limit, push_scaled, scaled_text};
use crate::text::{
    chars_of, same_chars, decimal, join, pad_left, pad_right, push_char, push_decimal, push_joined,
    push_range, push_spaces, skip_space, string_views, trim_end_char, trim_start,
};

verus! {

/// 2^20 bytes.
pub const MIB: u64 = 1_048_576;

/// 2^30 bytes.
pub const GIB: u64 = 1_073_741_824;

/// 2^40 bytes.
pub const TIB: u64 = 1_099_511_627_776;

/// The compact label of a byte count: tebibytes or gibibytes with one decimal,
/// mebibytes or kibibytes with none, chosen by the float magnitude of the count.
pub open spec fn bytes_label(bytes: nat) -> Seq<char> {
    let b = as_f64(bytes);
    if b >= TIB {
        scaled_text(bytes, 40, 1) + seq!['T']
    } else if b >= GIB {
        scaled_text(bytes, 30, 1) + seq!['G']
    } else if b >= MIB {
        scaled_text(bytes, 20, 0) + seq!['M']
    } else {
        scaled_text(bytes, 10, 0) + seq!['K']
    }
}

/// Compact human-readable size such as `12.5G`, `830M` or `4K`.
pub fn fmt_bytes(bytes: u64) -> (s: String)
    ensures
        s@ == bytes_label(bytes as nat),
{
    proof {
        lemma_as_f64_exact_below_limit(bytes as nat);
    }
    let mut s = String::new();
    if bytes >= TIB {
        push_scaled(&mut s, bytes, 40, 1);
        push_char(&mut s, 'T');
    } else if bytes >= GIB {
        push_scaled(&mut s, bytes, 30, 1);
        push_char(&mut s, 'G');
    } else if bytes >= MIB {
        push_scaled(&mut s, bytes, 20, 0);
        push_char(&mut s, 'M');
    } else {
        push_scaled(&mut s, bytes, 10, 0);
        push_char(&mut s, 'K');
    }
    s
}

/// A byte count in gibibytes with `p` decimals, as its float value prints.
pub open spec fn gib_text(bytes: nat, p: nat) -> Seq<char> {
    scaled_text(bytes, 30, p)
}

/// A profile entry, or `unspecified` when it is empty.
pub open spec fn or_unspecified(s: Seq<char>) -> Seq<char> {
    if s.len() == 0 {
        "unspecified"@
    } else {
        s
    }
}

/// The use cases joined by commas, or the usual trio when none is given.
pub open spec fn use_cases_text(u: Seq<String>) -> Seq<char> {
    if u.len() == 0 {
        "development, gaming, media"@
    } else {
        join(string_views(u), ", "@)
    }
}

/// At most the first ten process lines, one per line.
pub open spec fn process_list_text(lines: Seq<Seq<char>>) -> Seq<char> {
    join(lines.take(if lines.len() <= 10 { lines.len() as int } else { 10 }), "\n"@)
}

fn push_or_unspecified(out: &mut String, s: &String)
    ensures
        final(out)@ == old(out)@ + or_unspecified(s@),
{
    if s.as_str().is_empty() {
        out.append("unspecified");
    } else {
        out.append(s.as_str());
    }
}

fn push_use_cases(out: &mut String, u: &Vec<String>)
    ensures
        final(out)@ == old(out)@ + use_cases_text(u@),
{
    if u.len() == 0 {
        out.append("development, gaming, media");
    } else {
        push_joined(out, u, u.len(), ", ");
        assert(u@.take(u.len() as int) =~= u@);
    }
}

fn push_process_list(out: &mut String, lines: &Vec<String>)
    ensures
        final(out)@ == old(out)@ + process_list_text(string_views(lines@)),
{
    let count = if lines.len() <= 10 {
        lines.len()
    } else {
        10
    };
    push_joined(out, lines, count, "\n");
    assert(string_views(lines@.take(count as int)) =~= string_views(lines@).take(count as int));
}

/// The opening instructions and the machine profile, up to the time of the snapshot.
pub open spec fn prompt_profile_part(profile: SystemProfile, timestamp: Seq<char>) -> Seq<char> {
    "You are a system performance expert. Analyze these live metrics and provide:\n1. Root cause analysis — what is consuming commit and why allocation failures occur\n2. Short-term fixes — actions that can be taken today (config changes, process restarts, pagefile tuning)\n3. Long-term optimizations — architectural or workflow changes\n\nSystem profile:\n  CPU: "@
        + or_unspecified(profile.cpu@)
        + "\n  RAM: "@
        + decimal(profile.ram_gb as nat)
        + " GB installed\n  GPU: "@
        + or_unspecified(profile.gpu@)
        + "\n  Use cases: "@
        + use_cases_text(profile.use_cases@)
        + "\n  OS: Windows 11\n\nMemory snapshot ("@
        + timestamp
}

fn prompt_profile_part_string(profile: &SystemProfile, timestamp: &str) -> (out: String)
    ensures
        out@ == prompt_profile_part(*profile, timestamp@),
{
    let mut out = String::new();
    out.append("You are a system performance expert. Analyze these live metrics and provide:\n1. Root cause analysis — what is consuming commit and why allocation failures occur\n2. Short-term fixes — actions that can be taken today (config changes, process restarts, pagefile tuning)\n3. Long-term optimizations — architectural or workflow changes\n\nSystem profile:\n  CPU: ");
    assert(out@ =~= "You are a system performance expert. Analyze these live metrics and provide:\n1. Root cause analysis — what is consuming commit and why allocation failures occur\n2. Short-term fixes — actions that can be taken today (config changes, process restarts, pagefile tuning)\n3. Long-term optimizations — architectural or workflow changes\n\nSystem profile:\n  CPU: "@);
    push_or_unspecified(&mut out, &profile.cpu);
    out.append("\n  RAM: ");
    push_decimal(&mut out, profile.ram_gb as u128);
    out.append(" GB installed\n  GPU: ");
    push_or_unspecified(&mut out, &profile.gpu);
    out.append("\n  Use cases: ");
    push_use_cases(&mut out, &profile.use_cases);
    out.append("\n  OS: Windows 11\n\nMemory snapshot (");
    out.append(timestamp);
    out
}

/// Physical memory, commit charge and kernel pools.
pub open spec fn prompt_memory_part(mem: MemorySnapshot, commit_pct: Seq<char>) -> Seq<char> {
    "):\n  Physical total:    "@
        + gib_text(mem.total_bytes as nat, 2)
        + " GB\n  Physical used:     "@
        + gib_text(mem.used_bytes as nat, 2)
        + " GB\n  Physical avail:    "@
        + gib_text(mem.available_bytes as nat, 2)
        + " GB\n  Cached/standby:    "@
        + gib_text(mem.cached_bytes as nat, 2)
        + " GB\n\nCommit charge (primary diagnostic):\n  Committed:         "@
        + gib_text(mem.committed_bytes as nat, 2)
        + " GB\n  Commit limit:      "@
        + gib_text(mem.commit_limit_bytes as nat, 2)
        + " GB  (RAM + pagefile ceiling)\n  Commit pressure:   "@
        + commit_pct
        + "%\n\nKernel pools:\n  Paged pool:        "@
        + gib_text(mem.paged_pool_bytes as nat, 3)
        + " GB\n  Non-paged pool:    "@
        + gib_text(mem.non_paged_pool_bytes as nat, 3)
}

fn prompt_memory_part_string(mem: &MemorySnapshot, commit_pct: &str) -> (out: String)
    ensures
        out@ == prompt_memory_part(*mem, commit_pct@),
{
    let mut out = String::new();
    out.append("):\n  Physical total:    ");
    assert(out@ =~= "):\n  Physical total:    "@);
    push_scaled(&mut out, mem.total_bytes, 30, 2);
    out.append(" GB\n  Physical used:     ");
    push_scaled(&mut out, mem.used_bytes, 30, 2);
    out.append(" GB\n  Physical avail:    ");
    push_scaled(&mut out, mem.available_bytes, 30, 2);
    out.append(" GB\n  Cached/standby:    ");
    push_scaled(&mut out, mem.cached_bytes, 30, 2);
    out.append(" GB\n\nCommit charge (primary diagnostic):\n  Committed:         ");
    push_scaled(&mut out, mem.committed_bytes, 30, 2);
    out.append(" GB\n  Commit limit:      ");
    push_scaled(&mut out, mem.commit_limit_bytes, 30, 2);
    out.append(" GB  (RAM + pagefile ceiling)\n  Commit pressure:   ");
    out.append(commit_pct);
    out.append("%\n\nKernel pools:\n  Paged pool:        ");
    push_scaled(&mut out, mem.paged_pool_bytes, 30, 3);
    out.append(" GB\n  Non-paged pool:    ");
    push_scaled(&mut out, mem.non_paged_pool_bytes, 30, 3);
    out
}

/// Pagefile usage and the process list.
pub open spec fn prompt_paging_part(paging: PagefileSnapshot, pagefile_pct: Seq<char>, process_lines: Seq<Seq<char>>) -> Seq<char> {
    " GB\n\nPagefile:\n  Total:             "@
        + gib_text(paging.total_bytes as nat, 2)
        + " GB\n  Used:              "@
        + gib_text(paging.used_bytes as nat, 2)
        + " GB\n  Usage:             "@
        + pagefile_pct
        + "%\n\nTop 10 processes by virtual commit:\n  (Note: virtual column includes Chromium-family VA reservations ~3.5T each — these are\n   mostly uncommitted. Physical column is the actual RAM footprint.)\n"@
        + process_list_text(process_lines)
}

fn prompt_paging_part_string(paging: &PagefileSnapshot, pagefile_pct: &str, process_lines: &Vec<String>) -> (out: String)
    ensures
        out@ == prompt_paging_part(*paging, pagefile_pct@, string_views(process_lines@)),
{
    let mut out = String::new();
    out.append(" GB\n\nPagefile:\n  Total:             ");
    assert(out@ =~= " GB\n\nPagefile:\n  Total:             "@);
    push_scaled(&mut out, paging.total_bytes, 30, 2);
    out.append(" GB\n  Used:              ");
    push_scaled(&mut out, paging.used_bytes, 30, 2);
    out.append(" GB\n  Usage:             ");
    out.append(pagefile_pct);
    out.append("%\n\nTop 10 processes by virtual commit:\n  (Note: virtual column includes Chromium-family VA reservations ~3.5T each — these are\n   mostly uncommitted. Physical column is the actual RAM footprint.)\n");
    push_process_list(&mut out, process_lines);
    out
}

/// The closing observation on the commit gap.
pub open spec fn prompt_closing_part(mem: MemorySnapshot) -> Seq<char> {
    "\n\nKey observation: committed ("@
        + gib_text(mem.committed_bytes as nat, 1)
        + " GB) vs physical in use ("@
        + gib_text(mem.used_bytes as nat, 1)
        + " GB).\nGap of "@
        + gib_text(sat_sub(mem.committed_bytes, mem.used_bytes) as nat, 1)
        + " GB = virtual address space reserved but not backed by RAM or pagefile."@
}

fn prompt_closing_part_string(mem: &MemorySnapshot) -> (out: String)
    ensures
        out@ == prompt_closing_part(*mem),
{
    let mut out = String::new();
    out.append("\n\nKey observation: committed (");
    assert(out@ =~= "\n\nKey observation: committed ("@);
    push_scaled(&mut out, mem.committed_bytes, 30, 1);
    out.append(" GB) vs physical in use (");
    push_scaled(&mut out, mem.used_bytes, 30, 1);
    out.append(" GB).\nGap of ");
    let gap = mem.commit_gap();
    push_scaled(&mut out, gap, 30, 1);
    out.append(" GB = virtual address space reserved but not backed by RAM or pagefile.");
    out
}

/// The whole diagnostic prompt.
pub open spec fn prompt_text(
    mem: MemorySnapshot,
    paging: PagefileSnapshot,
    profile: SystemProfile,
    timestamp: Seq<char>,
    commit_pct: Seq<char>,
    pagefile_pct: Seq<char>,
    process_lines: Seq<Seq<char>>,
) -> Seq<char> {
    prompt_profile_part(profile, timestamp) + prompt_memory_part(mem, commit_pct)
        + prompt_paging_part(paging, pagefile_pct, process_lines) + prompt_closing_part(mem)
}

/// How chrono prints the UTC instant `secs` seconds and `nanos` nanoseconds
/// after the Unix epoch with the pattern `%Y-%m-%d %H:%M:%S UTC`; `None` when
/// chrono has no such instant.
pub uninterp spec fn utc_clock_text(secs: int, nanos: int) -> Option<Seq<char>>;

/// Instants that the clock text always covers: within eight trillion seconds of
/// the epoch (some 250,000 years), with fewer than a billion nanoseconds.
pub open spec fn clock_in_range(secs: int, nanos: int) -> bool {
    -8_000_000_000_000 <= secs <= 8_000_000_000_000 && 0 <= nanos < 1_000_000_000
}

/// Calls `chrono::DateTime::from_timestamp` and renders the instant with
/// `format("%Y-%m-%d %H:%M:%S UTC")`.  Only the name ties the text to the
/// instant.  chrono gives `None` when the day count leaves its calendar (years
/// beyond about 262,000 either side of the common era) or the nanosecond count is
/// invalid (two billion or more, or one billion or more outside a leap second), and
/// `Some` otherwise; what is stated here is the part of that which callers need:
/// `Some` within eight trillion seconds of the epoch with a sub-second nanosecond
/// count, `None` from two billion nanoseconds on.
#[verifier::external_body]
fn format_utc_clock(secs: i64, nanos: u32) -> (r: Option<String>)
    ensures
        opt_text(r) == utc_clock_text(secs as int, nanos as int),
        clock_in_range(secs as int, nanos as int) ==> r is Some,
        nanos >= 2_000_000_000 ==> r is None,
{
    match chrono::DateTime::from_timestamp(secs, nanos) {
        Some(t) => Some(t.format("%Y-%m-%d %H:%M:%S UTC").to_string()),
        None => None,
    }
}

/// The diagnostic prompt: instructions, the machine profile, the time of the
/// snapshot, the memory, commit, pool and pagefile figures in gibibytes, the
/// first ten process lines and the commit gap.  The two percentages come
/// already rendered.  `None` when the snapshot time is not one chrono can show.
pub fn build_prompt(
    mem: &MemorySnapshot,
    paging: &PagefileSnapshot,
    profile: &SystemProfile,
    time_secs: i64,
    time_nanos: u32,
    commit_pct: &str,
    pagefile_pct: &str,
    process_lines: &Vec<String>,
) -> (prompt: Option<String>)
    ensures
        clock_in_range(time_secs as int, time_nanos as int) ==> prompt is Some,
        match utc_clock_text(time_secs as int, time_nanos as int) {
            None => prompt is None,
            Some(ts) => prompt matches Some(p) && p@ == prompt_text(
                *mem,
                *paging,
                *profile,
                ts,
                commit_pct@,
                pagefile_pct@,
                string_views(process_lines@),
            ),
        },
{
    let timestamp = match format_utc_clock(time_secs, time_nanos) {
        Some(t) => t,
        None => {
            return None;
        },
    };
    let mut out = prompt_profile_part_string(profile, timestamp.as_str());
    let memory = prompt_memory_part_string(mem, commit_pct);
    out.append(memory.as_str());
    let paging_text = prompt_paging_part_string(paging, pagefile_pct, process_lines);
    out.append(paging_text.as_str());
    let closing = prompt_closing_part_string(mem);
    out.append(closing.as_str());
    Some(out)
}

/// One line of the process list: name padded to 30, pid right-aligned in 6,
/// virtual and physical sizes right-aligned in 6, then the CPU share.
pub open spec fn process_line_text(
    name: Seq<char>,
    pid: u32,
    virtual_bytes: u64,
    memory_bytes: u64,
    cpu_text: Seq<char>,
) -> Seq<char> {
    "  "@ + pad_right(name, 30) + " pid "@ + pad_left(decimal(pid as nat), 6) + "  virtual "@
        + pad_left(bytes_label(virtual_bytes as nat), 6) + "  physical "@ + pad_left(
        bytes_label(memory_bytes as nat),
        6,
    ) + "  cpu "@ + cpu_text + "%"@
}

fn push_padded_left(out: &mut String, s: &String, width: usize)
    ensures
        final(out)@ == old(out)@ + pad_left(s@, width as nat),
{
    let ghost start = out@;
    let n = s.as_str().unicode_len();
    if n < width {
        push_spaces(out, width - n);
    }
    out.append(s.as_str());
    assert(out@ =~= start + pad_left(s@, width as nat));
}

/// A line of the process list (the CPU share comes already rendered).
pub fn process_line(name: &str, pid: u32, virtual_bytes: u64, memory_bytes: u64, cpu_text: &str) -> (line: String)
    ensures
        line@ == process_line_text(name@, pid, virtual_bytes, memory_bytes, cpu_text@),
{
    let mut out = String::new();
    out.append("  ");
    out.append(name);
    let n = name.unicode_len();
    if n < 30 {
        push_spaces(&mut out, 30 - n);
    }
    out.append(" pid ");
    let pid_text = crate::text::decimal_string(pid as u128);
    push_padded_left(&mut out, &pid_text, 6);
    out.append("  virtual ");
    let v = fmt_bytes(virtual_bytes);
    push_padded_left(&mut out, &v, 6);
    out.append("  physical ");
    let m = fmt_bytes(memory_bytes);
    push_padded_left(&mut out, &m, 6);
    out.append("  cpu ");
    out.append(cpu_text);
    out.append("%");
    assert(out@ =~= process_line_text(name@, pid, virtual_bytes, memory_bytes, cpu_text@));
    out
}


/// `pat` occurs in `s` at position `i`.
pub open spec fn occurs_at(s: Seq<char>, pat: Seq<char>, i: int) -> bool {
    0 <= i && i + pat.len() <= s.len() && s.subrange(i, i + pat.len()) == pat
}

/// `i` is the first position where `pat` occurs in `s`.
pub open spec fn first_occurrence(s: Seq<char>, pat: Seq<char>, i: int) -> bool {
    occurs_at(s, pat, i) && forall|j: int| 0 <= j < i ==> !occurs_at(s, pat, j)
}

/// A reasoning model's answer without its thinking: what follows the first
/// `</think>` tag, leading white space removed; text without the tag is kept whole.
pub open spec fn without_thinking(s: Seq<char>) -> Seq<char> {
    let tag = "</think>"@;
    if exists|i: int| first_occurrence(s, tag, i) {
        let i = choose|i: int| first_occurrence(s, tag, i);
        trim_start(s.skip(i + tag.len()))
    } else {
        s
    }
}

fn matches_at(v: &Vec<char>, pat: &Vec<char>, i: usize) -> (b: bool)
    requires
        pat.len() <= v.len(),
        i <= v.len() - pat.len(),
    ensures
        b == (v@.subrange(i as int, i + pat.len()) == pat@),
{
    let mut k: usize = 0;
    while k < pat.len()
        invariant
            pat.len() <= v.len(),
            i <= v.len() - pat.len(),
            k <= pat.len(),
            forall|t: int| 0 <= t < k ==> v@[i + t] == pat@[t],
        decreases pat.len() - k,
    {
        if v[i + k] != pat[k] {
            assert(v@.subrange(i as int, i + pat.len())[k as int] != pat@[k as int]);
            return false;
        }
        k = k + 1;
    }
    assert(v@.subrange(i as int, i + pat.len()) =~= pat@);
    true
}

/// Strips `<think>...</think>` prefixes emitted by reasoning models.
pub fn strip_thinking(s: &str) -> (r: &str)
    ensures
        r@ == without_thinking(s@),
{
    let v = chars_of(s);
    let tag = chars_of("</think>");
    proof {
        reveal_strlit("</think>");
    }
    let n = v.len();
    let m = tag.len();
    if m <= n {
        let mut i: usize = 0;
        while i <= n - m
            invariant
                v@ == s@,
                tag@ == "</think>"@,
                n == v.len(),
                m == tag.len(),
                m <= n,
                m == 8,
                forall|j: int| 0 <= j < i ==> !occurs_at(s@, "</think>"@, j),
            decreases n - m + 1 - i,
        {
            if matches_at(&v, &tag, i) {
                let ghost t = "</think>"@;
                assert(first_occurrence(s@, t, i as int));
                assert(without_thinking(s@) == trim_start(s@.skip(i + m))) by {
                    let c = choose|c: int| first_occurrence(s@, t, c);
                    assert(first_occurrence(s@, t, c));
                    if c < i {
                        assert(!occurs_at(s@, t, c));
                    }
                    if c > i {
                        assert(!occurs_at(s@, t, i as int));
                    }
                    assert(c == i);
                }
                let k = skip_space(&v, i + m, n);
                assert(s@.skip(i + m) =~= v@.subrange(i + m, n as int));
                return s.substring_char(k, n);
            }
            i = i + 1;
        }
    }
    assert forall|i: int| !first_occurrence(s@, "</think>"@, i) by {
        if 0 <= i && i + m <= n {
            assert(!occurs_at(s@, "</think>"@, i));
        }
    }
    s
}

/// The optional text as a character sequence (empty when absent).
pub open spec fn text_or_empty(o: Option<Seq<char>>) -> Seq<char> {
    match o {
        Some(t) => t,
        None => seq![],
    }
}

/// The answer of a chat completion: its content, or the separate reasoning
/// text when the content is empty, without any thinking prefix; `None` when
/// nothing is left.
pub open spec fn completion_answer(content: Option<Seq<char>>, reasoning: Option<Seq<char>>) -> Option<Seq<char>> {
    let c = text_or_empty(content);
    let raw = if c.len() > 0 {
        c
    } else {
        text_or_empty(reasoning)
    };
    let answer = without_thinking(raw);
    if answer.len() == 0 {
        None
    } else {
        Some(answer)
    }
}

/// The view of an optional string.
pub open spec fn opt_text(o: Option<String>) -> Option<Seq<char>> {
    match o {
        Some(s) => Some(s@),
        None => None,
    }
}

/// Picks and cleans the answer of a chat completion (see `completion_answer`).
pub fn completion_text(content: Option<String>, reasoning: Option<String>) -> (r: Option<String>)
    ensures
        opt_text(r) == completion_answer(opt_text(content), opt_text(reasoning)),
{
    let c = match &content {
        Some(t) => t.as_str(),
        None => "",
    };
    let raw = if !c.is_empty() {
        c
    } else {
        match &reasoning {
            Some(t) => t.as_str(),
            None => "",
        }
    };
    proof {
        assert(""@.len() == 0) by {
            reveal_strlit("");
        }
        assert(text_or_empty(opt_text(content)) == c@);
    }
    let answer = strip_thinking(raw);
    if answer.is_empty() {
        None
    } else {
        Some(answer.to_owned())
    }
}

/// Why an analysis could not be obtained.
#[derive(Clone, Debug)]
pub enum AiError {
    /// The Anthropic provider needs an API key and none is configured.
    MissingApiKey,
    /// The request to the given URL could not be sent.
    RequestFailed(AiProvider, String),
    /// The service answered with a non-success status (status line, body).
    ApiStatus(AiProvider, String, String),
    /// The reply body is not JSON.
    ParseFailed(AiProvider),
    /// The reply holds no answer; the reply body, pretty-printed.
    EmptyResponse(AiProvider, String),
}

/// The message shown for an error.
pub open spec fn error_message(e: AiError) -> Seq<char> {
    match e {
        AiError::MissingApiKey => "No API key. Set ANTHROPIC_API_KEY in env or ai.api_key in config.toml."@,
        AiError::RequestFailed(p, url) => if p == AiProvider::Claude {
            "Anthropic API request failed"@
        } else {
            provider_name(p) + " request to "@ + url@ + " failed — is it running?"@
        },
        AiError::ApiStatus(p, status, body) => provider_name(p) + " API error "@ + status@ + ": "@
            + body@,
        AiError::ParseFailed(p) => "Failed to parse "@ + provider_name(p) + " response"@,
        AiError::EmptyResponse(p, raw) => "Empty response from "@ + provider_name(p)
            + ". Raw body:\n"@ + raw@,
    }
}

impl AiError {
    /// The message shown to the user.
    pub fn message(&self) -> (m: String)
        ensures
            m@ == error_message(*self),
    {
        let mut m = String::new();
        match self {
            AiError::MissingApiKey => {
                m.append("No API key. Set ANTHROPIC_API_KEY in env or ai.api_key in config.toml.");
            },
            AiError::RequestFailed(p, url) => {
                if *p == AiProvider::Claude {
                    m.append("Anthropic API request failed");
                } else {
                    m.append(p.display_name());
                    m.append(" request to ");
                    m.append(url.as_str());
                    m.append(" failed — is it running?");
                }
            },
            AiError::ApiStatus(p, status, body) => {
                m.append(p.display_name());
                m.append(" API error ");
                m.append(status.as_str());
                m.append(": ");
                m.append(body.as_str());
            },
            AiError::ParseFailed(p) => {
                m.append("Failed to parse ");
                m.append(p.display_name());
                m.append(" response");
            },
            AiError::EmptyResponse(p, raw) => {
                m.append("Empty response from ");
                m.append(p.display_name());
                m.append(". Raw body:\n");
                m.append(raw.as_str());
            },
        }
        assert(m@ =~= error_message(*self));
        m
    }
}

/// Two hexadecimal digits (lower case) of a byte below 0x100.
pub open spec fn hex_digit(d: nat) -> char {
    seq!['0', '1', '2', '3', '4', '5', '6', '7', '8', '9', 'a', 'b', 'c', 'd', 'e', 'f'][(d % 16) as int]
}

/// How a JSON string writes one character: `"` and `\` and the control
/// characters below U+0020 are escaped (`\b \t \n \f \r` by name, the others as
/// `\u00XX`); every other character stands for itself.
pub open spec fn json_char(c: char) -> Seq<char> {
    let x = c as u32;
    if c == '"' {
        seq!['\\', '"']
    } else if c == '\\' {
        seq!['\\', '\\']
    } else if x == 0x08 {
        seq!['\\', 'b']
    } else if x == 0x09 {
        seq!['\\', 't']
    } else if x == 0x0a {
        seq!['\\', 'n']
    } else if x == 0x0c {
        seq!['\\', 'f']
    } else if x == 0x0d {
        seq!['\\', 'r']
    } else if x < 0x20 {
        seq!['\\', 'u', '0', '0', hex_digit(x as nat / 16), hex_digit(x as nat)]
    } else {
        seq![c]
    }
}

/// The characters of `s`, each written as a JSON string writes it.
pub open spec fn json_escaped(s: Seq<char>) -> Seq<char>
    decreases s.len(),
{
    if s.len() == 0 {
        seq![]
    } else {
        json_escaped(s.drop_last()) + json_char(s.last())
    }
}

/// A string as a JSON string literal: quoted and escaped.
pub open spec fn json_string_literal(s: Seq<char>) -> Seq<char> {
    seq!['"'] + json_escaped(s) + seq!['"']
}

/// Calls `serde_json::to_string` on a string slice, which writes the quoted
/// string with the escapes of `json_char` (serde_json's escape table).
/// Serializing a string into memory does not fail.
#[verifier::external_body]
fn json_quote(s: &str) -> (q: String)
    ensures
        q@ == json_string_literal(s@),
{
    serde_json::to_string(s).unwrap_or_default()
}

/// A JSON value as the reply of an AI service holds it.  Numbers keep their
/// text; objects keep their members in order.
#[derive(Debug)]
pub enum Json {
    Null,
    Bool(bool),
    Number(String),
    Str(String),
    Array(Vec<Json>),
    Object(Vec<(String, Json)>),
}

/// The value of the first member named `key`.
pub open spec fn first_member(fields: Seq<(String, Json)>, key: Seq<char>) -> Option<Json>
    decreases fields.len(),
{
    if fields.len() == 0 {
        None
    } else if fields[0].0@ == key {
        Some(fields[0].1)
    } else {
        first_member(fields.drop_first(), key)
    }
}

/// Member `key` of an object (nothing for a missing value, a non-object or a missing member).
pub open spec fn member(j: Option<Json>, key: Seq<char>) -> Option<Json> {
    match j {
        Some(Json::Object(fields)) => first_member(fields@, key),
        _ => None,
    }
}

/// Element `i` of an array (nothing for a missing value, a non-array or an index past the end).
pub open spec fn element(j: Option<Json>, i: nat) -> Option<Json> {
    match j {
        Some(Json::Array(items)) => if i < items@.len() {
            Some(items@[i as int])
        } else {
            None
        },
        _ => None,
    }
}

/// The text of a string value.
pub open spec fn text_of(j: Option<Json>) -> Option<Seq<char>> {
    match j {
        Some(Json::Str(s)) => Some(s@),
        _ => None,
    }
}

/// The optional reference as an optional value.
pub open spec fn deref_json(j: Option<&Json>) -> Option<Json> {
    match j {
        Some(v) => Some(*v),
        None => None,
    }
}

/// Looks up member `key` (see `member`).
pub fn member_of<'a>(j: Option<&'a Json>, key: &str) -> (r: Option<&'a Json>)
    ensures
        deref_json(r) == member(deref_json(j), key@),
{
    match j {
        Some(Json::Object(fields)) => {
            let want = chars_of(key);
            let mut i: usize = 0;
            assert(fields@.skip(0) =~= fields@);
            while i < fields.len()
                invariant
                    i <= fields.len(),
                    want@ == key@,
                    first_member(fields@, key@) == first_member(fields@.skip(i as int), key@),
                    member(deref_json(j), key@) == first_member(fields@, key@),
                decreases fields.len() - i,
            {
                let name = chars_of(fields[i].0.as_str());
                assert(fields@.skip(i as int).drop_first() =~= fields@.skip(i + 1));
                assert(fields@.skip(i as int)[0] == fields@[i as int]);
                if same_chars(&name, &want) {
                    assert(name@ == fields@[i as int].0@);
                    assert(first_member(fields@.skip(i as int), key@) == Some(fields@[i as int].1));
                    return Some(&fields[i].1);
                }
                i = i + 1;
            }
            None
        },
        _ => None,
    }
}

/// Looks up element `i` (see `element`).
pub fn element_of<'a>(j: Option<&'a Json>, i: usize) -> (r: Option<&'a Json>)
    ensures
        deref_json(r) == element(deref_json(j), i as nat),
{
    match j {
        Some(Json::Array(items)) => {
            if i < items.len() {
                Some(&items[i])
            } else {
                None
            }
        },
        _ => None,
    }
}

/// The text of a string value (see `text_of`).
pub fn text_value(j: Option<&Json>) -> (r: Option<String>)
    ensures
        opt_text(r) == text_of(deref_json(j)),
{
    match j {
        Some(Json::Str(s)) => Some(s.clone()),
        _ => None,
    }
}

/// The string at `content[0].text` of a messages-API reply.
pub open spec fn messages_reply_text(reply: Json) -> Option<Seq<char>> {
    text_of(member(element(member(Some(reply), "content"@), 0), "text"@))
}

/// The string at `choices[0].message.<field>` of a chat-completions reply.
pub open spec fn completion_field(reply: Json, field: Seq<char>) -> Option<Seq<char>> {
    text_of(member(member(element(member(Some(reply), "choices"@), 0), "message"@), field))
}

/// The text of a messages-API reply: the string at `content[0].text`, or
/// `No response text` when there is none.
pub fn claude_reply_text(reply: &Json) -> (r: String)
    ensures
        r@ == match messages_reply_text(*reply) {
            Some(t) => t,
            None => "No response text"@,
        },
{
    let content = member_of(Some(reply), "content");
    let first = element_of(content, 0);
    let text = member_of(first, "text");
    match text_value(text) {
        Some(t) => t,
        None => "No response text".to_owned(),
    }
}

/// The answer of a chat-completions reply: the content (or, when that is
/// empty, the reasoning text) at `choices[0].message`, without any thinking
/// prefix (see `completion_answer`); an error that carries the reply's
/// pretty-printed body when no answer is left.
pub fn chat_reply_text(provider: AiProvider, reply: &Json, pretty_body: String) -> (r: Result<String, AiError>)
    ensures
        match completion_answer(
            completion_field(*reply, "content"@),
            completion_field(*reply, "reasoning_content"@),
        ) {
            Some(a) => r matches Ok(t) && t@ == a,
            None => r matches Err(AiError::EmptyResponse(p, raw)) && p == provider && raw
                == pretty_body,
        },
{
    let choices = member_of(Some(reply), "choices");
    let first = element_of(choices, 0);
    let message = member_of(first, "message");
    let content = text_value(member_of(message, "content"));
    let reasoning = text_value(member_of(message, "reasoning_content"));
    match completion_text(content, reasoning) {
        Some(t) => Ok(t),
        None => Err(AiError::EmptyResponse(provider, pretty_body)),
    }
}

/// The answer in a reply, read by the protocol that the provider speaks.
pub fn reply_text(provider: AiProvider, reply: &Json, pretty_body: String) -> (r: Result<String, AiError>)
    ensures
        provider != AiProvider::Claude ==> match completion_answer(
            completion_field(*reply, "content"@),
            completion_field(*reply, "reasoning_content"@),
        ) {
            Some(a) => r matches Ok(t) && t@ == a,
            None => r matches Err(AiError::EmptyResponse(p, raw)) && p == provider && raw
                == pretty_body,
        },
        provider == AiProvider::Claude ==> (r matches Ok(t) && t@ == match messages_reply_text(
            *reply,
        ) {
            Some(x) => x,
            None => "No response text"@,
        }),
{
    if provider.is_openai_compat() {
        chat_reply_text(provider, reply, pretty_body)
    } else {
        Ok(claude_reply_text(reply))
    }
}

/// An HTTP request to send: where, with which headers, and the JSON body.
#[derive(Clone, Debug)]
pub struct ChatRequest {
    pub url: String,
    pub headers: Vec<(String, String)>,
    pub body: String,
}

/// The views of the header pairs.
pub open spec fn header_views(h: Seq<(String, String)>) -> Seq<(Seq<char>, Seq<char>)> {
    h.map_values(|p: (String, String)| (p.0@, p.1@))
}

/// Body of a messages-API request (keys in serde_json's sorted order).
pub open spec fn messages_body(prompt: Seq<char>, model: Seq<char>) -> Seq<char> {
    "{\"max_tokens\":4096,\"messages\":[{\"content\":"@ + json_string_literal(prompt)
        + ",\"role\":\"user\"}],\"model\":"@ + json_string_literal(model) + "}"@
}

/// Body of a chat-completions request (keys in serde_json's sorted order).
pub open spec fn completions_body(prompt: Seq<char>, model: Seq<char>) -> Seq<char> {
    "{\"max_tokens\":4096,\"messages\":[{\"content\":"@ + json_string_literal(prompt)
        + ",\"role\":\"user\"}],\"model\":"@ + json_string_literal(model) + ",\"stream\":false}"@
}

/// The request that carries `prompt`: to `<base url without trailing slashes>/v1/messages`
/// with the API key for the messages API, or to
/// `<base url without trailing slashes>/v1/chat/completions` with a bearer token when a
/// non-empty key is configured.
pub open spec fn request_for(ai: AiConfig, prompt: Seq<char>) -> Option<(Seq<char>, Seq<(Seq<char>, Seq<char>)>, Seq<char>)> {
    if ai.provider == AiProvider::Claude {
        match ai.api_key {
            None => None,
            Some(k) => Some(
                (
                    trim_end_char(base_url_of(ai), '/') + "/v1/messages"@,
                    seq![
                        ("x-api-key"@, k@),
                        ("anthropic-version"@, "2023-06-01"@),
                        ("content-type"@, "application/json"@),
                    ],
                    messages_body(prompt, model_of(ai)),
                ),
            ),
        }
    } else {
        Some(
            (
                trim_end_char(base_url_of(ai), '/') + "/v1/chat/completions"@,
                seq![("content-type"@, "application/json"@)] + match ai.api_key {
                    Some(k) => if k@.len() > 0 {
                        seq![("Authorization"@, "Bearer "@ + k@)]
                    } else {
                        seq![]
                    },
                    None => seq![],
                },
                completions_body(prompt, model_of(ai)),
            ),
        )
    }
}

fn header(name: &str, value: &str) -> (h: (String, String))
    ensures
        h.0@ == name@,
        h.1@ == value@,
{
    (name.to_owned(), value.to_owned())
}

/// Builds the request for the configured provider; Anthropic's without an API key is an error.
pub fn chat_request(ai: &AiConfig, prompt: &str) -> (r: Result<ChatRequest, AiError>)
    ensures
        match request_for(*ai, prompt@) {
            None => r matches Err(AiError::MissingApiKey),
            Some((url, headers, body)) => r matches Ok(q) && q.url@ == url && header_views(
                q.headers@,
            ) == headers && q.body@ == body,
        },
{
    let model = ai.resolved_model();
    let mut body = String::new();
    body.append("{\"max_tokens\":4096,\"messages\":[{\"content\":");
    let qp = json_quote(prompt);
    body.append(qp.as_str());
    body.append(",\"role\":\"user\"}],\"model\":");
    let qm = json_quote(model);
    body.append(qm.as_str());
    let base = chars_of(ai.resolved_base_url());
    let mut end = base.len();
    assert(base@.take(end as int) =~= base@);
    while end > 0 && base[end - 1] == '/'
        invariant
            end <= base.len(),
            trim_end_char(base@, '/') == trim_end_char(base@.take(end as int), '/'),
        decreases end,
    {
        assert(base@.take(end as int).drop_last() =~= base@.take(end - 1));
        end = end - 1;
    }
    assert(trim_end_char(base@.take(end as int), '/') == base@.take(end as int));
    let mut url = String::new();
    push_range(&mut url, &base, 0, end);
    assert(base@.subrange(0, end as int) =~= base@.take(end as int));
    let mut headers: Vec<(String, String)> = Vec::new();
    if !ai.provider.is_openai_compat() {
        let key = match &ai.api_key {
            None => {
                return Err(AiError::MissingApiKey);
            },
            Some(k) => k,
        };
        body.append("}");
        headers.push(header("x-api-key", key.as_str()));
        headers.push(header("anthropic-version", "2023-06-01"));
        headers.push(header("content-type", "application/json"));
        assert(header_views(headers@) =~= seq![
            ("x-api-key"@, key@),
            ("anthropic-version"@, "2023-06-01"@),
            ("content-type"@, "application/json"@),
        ]);
        assert(body@ =~= messages_body(prompt@, model_of(*ai)));
        url.append("/v1/messages");
        Ok(ChatRequest { url, headers, body })
    } else {
        body.append(",\"stream\":false}");
        url.append("/v1/chat/completions");
        headers.push(header("content-type", "application/json"));
        let ghost h1 = header_views(headers@);
        match &ai.api_key {
            Some(k) => {
                if !k.as_str().is_empty() {
                    let mut bearer = String::new();
                    bearer.append("Bearer ");
                    bearer.append(k.as_str());
                    headers.push(("Authorization".to_owned(), bearer));
                }
            },
            None => {},
        }
        assert(header_views(headers@) =~= seq![("content-type"@, "application/json"@)]
            + match ai.api_key {
            Some(k) => if k@.len() > 0 {
                seq![("Authorization"@, "Bearer "@ + k@)]
            } else {
                seq![]
            },
            None => seq![],
        });
        assert(body@ =~= completions_body(prompt@, model_of(*ai)));
        Ok(ChatRequest { url, headers, body })
    }
}


proof fn lemma_trim_start_suffix(s: Seq<char>)
    ensures
        trim_start(s).is_suffix_of(s),
    decreases s.len(),
{
    if s.len() > 0 && crate::text::is_space(s[0]) {
        lemma_trim_start_suffix(s.drop_first());
        let t = trim_start(s.drop_first());
        assert(t =~= s.subrange(s.len() - t.len(), s.len() as int));
    } else {
        assert(s =~= s.subrange(0, s.len() as int));
    }
}

/// The GPU line of the prompt comes from the profile's GPU field alone:
/// `unspecified` when it is empty, the field itself otherwise, whatever the
/// other fields hold.
pub proof fn law_gpu_line(profile: SystemProfile, timestamp: Seq<char>)
    ensures
        exists|head: Seq<char>|
            #![trigger head + " GB installed\n  GPU: "@]
            prompt_profile_part(profile, timestamp) == head + " GB installed\n  GPU: "@ + (if profile.gpu@.len()
                == 0 {
                "unspecified"@
            } else {
                profile.gpu@
            }) + "\n  Use cases: "@ + use_cases_text(profile.use_cases@)
                + "\n  OS: Windows 11\n\nMemory snapshot ("@ + timestamp,
{
    let head = "You are a system performance expert. Analyze these live metrics and provide:\n1. Root cause analysis — what is consuming commit and why allocation failures occur\n2. Short-term fixes — actions that can be taken today (config changes, process restarts, pagefile tuning)\n3. Long-term optimizations — architectural or workflow changes\n\nSystem profile:\n  CPU: "@
        + or_unspecified(profile.cpu@) + "\n  RAM: "@ + decimal(profile.ram_gb as nat);
    assert(prompt_profile_part(profile, timestamp) == head + " GB installed\n  GPU: "@ + (if profile.gpu@.len()
        == 0 {
        "unspecified"@
    } else {
        profile.gpu@
    }) + "\n  Use cases: "@ + use_cases_text(profile.use_cases@)
        + "\n  OS: Windows 11\n\nMemory snapshot ("@ + timestamp);
}

/// Every provider speaking the OpenAI protocol gets the same headers: the
/// JSON content type, and a bearer token exactly when a non-empty key is
/// configured; the request goes to the base URL's chat-completions path.
pub proof fn law_openai_protocol_headers(ai: AiConfig, prompt: Seq<char>)
    requires
        ai.provider != AiProvider::Claude,
    ensures
        request_for(ai, prompt) matches Some((url, headers, _)) && url == trim_end_char(
            base_url_of(ai),
            '/',
        ) + "/v1/chat/completions"@ && headers == match ai.api_key {
            Some(k) => if k@.len() > 0 {
                seq![("content-type"@, "application/json"@), ("Authorization"@, "Bearer "@ + k@)]
            } else {
                seq![("content-type"@, "application/json"@)]
            },
            None => seq![("content-type"@, "application/json"@)],
        },
{
}

/// The cleaned answer is always the tail end of the reply.
pub proof fn law_answer_is_suffix(s: Seq<char>)
    ensures
        without_thinking(s).is_suffix_of(s),
{
    let tag = "</think>"@;
    if exists|i: int| first_occurrence(s, tag, i) {
        let i = choose|i: int| first_occurrence(s, tag, i);
        let rest = s.skip(i + tag.len());
        lemma_trim_start_suffix(rest);
        let t = trim_start(rest);
        assert(t =~= s.subrange(s.len() - t.len(), s.len() as int));
    } else {
        assert(s =~= s.subrange(0, s.len() as int));
    }
}

/// A reply without the closing tag is kept whole.
pub proof fn law_untagged_reply_kept(s: Seq<char>)
    requires
        forall|i: int| !occurs_at(s, "</think>"@, i),
    ensures
        without_thinking(s) == s,
{
}

/// A non-empty content field is what is answered; the reasoning field is then ignored.
pub proof fn law_content_preferred(c: Seq<char>, r1: Option<Seq<char>>, r2: Option<Seq<char>>)
    requires
        c.len() > 0,
    ensures
        completion_answer(Some(c), r1) == completion_answer(Some(c), r2),
{
}

/// The unit letter follows the magnitude of the count.
pub proof fn law_label_unit(bytes: u64)
    ensures
        bytes_label(bytes as nat).last() == (if bytes >= TIB {
            'T'
        } else if bytes >= GIB {
            'G'
        } else if bytes >= MIB {
            'M'
        } else {
            'K'
        }),
{
    lemma_as_f64_exact_below_limit(bytes as nat);
}

} // verus!
