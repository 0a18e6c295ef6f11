//! System-wide memory figures: physical RAM, commit charge and kernel pools.

use vstd::prelude::*;
use crate::collect::meminfo::{lookup, MemInfo};

verus! {

/// Memory figures in bytes.
#[derive(Clone, Copy, Debug, PartialEq, Eq, Structural)]
pub struct MemorySnapshot {
    /// Total physical RAM installed
    pub total_bytes: u64,
    /// Physical pages currently available (free + standby)
    pub available_bytes: u64,
    /// Physical pages in active use
    pub used_bytes: u64,
    /// Total virtual memory committed system-wide (VirtualAlloc reservations)
    pub committed_bytes: u64,
    /// Commit ceiling = physical RAM + total pagefile size
    pub commit_limit_bytes: u64,
    /// Kernel paged pool (can be swapped out)
    pub paged_pool_bytes: u64,
    /// Kernel non-paged pool (must stay in RAM)
    pub non_paged_pool_bytes: u64,
    /// Standby/file cache (physical pages holding cached file data, reclaimable)
    pub cached_bytes: u64,
}

/// `a - b`, or 0 when `b` is larger.
pub open spec fn sat_sub(a: u64, b: u64) -> u64 {
    if a >= b {
        (a - b) as u64
    } else {
        0
    }
}

impl Default for MemorySnapshot {
    fn default() -> (m: Self)
        ensures
            m.total_bytes == 0 && m.available_bytes == 0 && m.used_bytes == 0
                && m.committed_bytes == 0 && m.commit_limit_bytes == 0 && m.paged_pool_bytes == 0
                && m.non_paged_pool_bytes == 0 && m.cached_bytes == 0,
    {
        MemorySnapshot {
            total_bytes: 0,
            available_bytes: 0,
            used_bytes: 0,
            committed_bytes: 0,
            commit_limit_bytes: 0,
            paged_pool_bytes: 0,
            non_paged_pool_bytes: 0,
            cached_bytes: 0,
        }
    }
}

impl MemorySnapshot {
    /// Committed memory not backed by pages in use: committed minus used, floored at 0.
    pub fn commit_gap(&self) -> (gap: u64)
        ensures
            gap == sat_sub(self.committed_bytes, self.used_bytes),
    {
        self.committed_bytes.saturating_sub(self.used_bytes)
    }
}

/// Figures from the Linux table: used is total minus available (floored at
/// 0), the commit limit is the RAM size plus the swap size (the ceiling that
/// physical RAM and the swap space give), the paged pool is the slab, the
/// non-paged pool the kernel stacks, the cache includes buffers.
pub fn collect(info: &MemInfo) -> (m: MemorySnapshot)
    requires
        lookup(info@, "Cached"@) + lookup(info@, "Buffers"@) <= u64::MAX,
        lookup(info@, "MemTotal"@) + lookup(info@, "SwapTotal"@) <= u64::MAX,
    ensures
        m.total_bytes == lookup(info@, "MemTotal"@),
        m.available_bytes == lookup(info@, "MemAvailable"@),
        m.used_bytes == sat_sub(lookup(info@, "MemTotal"@), lookup(info@, "MemAvailable"@)),
        m.committed_bytes == lookup(info@, "Committed_AS"@),
        m.commit_limit_bytes == lookup(info@, "MemTotal"@) + lookup(info@, "SwapTotal"@),
        m.paged_pool_bytes == lookup(info@, "Slab"@),
        m.non_paged_pool_bytes == lookup(info@, "KernelStack"@),
        m.cached_bytes == lookup(info@, "Cached"@) + lookup(info@, "Buffers"@),
        m.used_bytes <= m.total_bytes,
        m.commit_limit_bytes >= m.total_bytes,
{
    let total = info.get("MemTotal");
    let available = info.get("MemAvailable");
    MemorySnapshot {
        total_bytes: total,
        available_bytes: available,
        used_bytes: total.saturating_sub(available),
        committed_bytes: info.get("Committed_AS"),
        commit_limit_bytes: total + info.get("SwapTotal"),
        paged_pool_bytes: info.get("Slab"),
        non_paged_pool_bytes: info.get("KernelStack"),
        cached_bytes: info.get("Cached") + info.get("Buffers"),
    }
}

/// Figures from the Windows performance counters, which count pages of
/// `page_size` bytes: every count is scaled to bytes, used is total minus
/// available (floored at 0).
pub fn from_performance_info(
    page_size: u64,
    physical_total: u64,
    physical_available: u64,
    commit_total: u64,
    commit_limit: u64,
    kernel_paged: u64,
    kernel_nonpaged: u64,
    system_cache: u64,
) -> (m: MemorySnapshot)
    requires
        physical_total * page_size <= u64::MAX,
        physical_available * page_size <= u64::MAX,
        commit_total * page_size <= u64::MAX,
        commit_limit * page_size <= u64::MAX,
        kernel_paged * page_size <= u64::MAX,
        kernel_nonpaged * page_size <= u64::MAX,
        system_cache * page_size <= u64::MAX,
    ensures
        m.total_bytes == physical_total * page_size,
        m.available_bytes == physical_available * page_size,
        m.used_bytes == sat_sub(m.total_bytes, m.available_bytes),
        m.committed_bytes == commit_total * page_size,
        m.commit_limit_bytes == commit_limit * page_size,
        m.paged_pool_bytes == kernel_paged * page_size,
        m.non_paged_pool_bytes == kernel_nonpaged * page_size,
        m.cached_bytes == system_cache * page_size,
        m.used_bytes <= m.total_bytes,
{
    let total = physical_total * page_size;
    let available = physical_available * page_size;
    MemorySnapshot {
        total_bytes: total,
        available_bytes: available,
        used_bytes: total.saturating_sub(available),
        committed_bytes: commit_total * page_size,
        commit_limit_bytes: commit_limit * page_size,
        paged_pool_bytes: kernel_paged * page_size,
        non_paged_pool_bytes: kernel_nonpaged * page_size,
        cached_bytes: system_cache * page_size,
    }
}

/// Figures from aggregate RAM and swap totals (where no commit counters
/// exist): committed is approximated by total minus available (floored at 0),
/// the limit is RAM plus swap, pools and cache are unknown (0).
pub fn from_totals(total: u64, available: u64, used: u64, swap_total: u64) -> (m: MemorySnapshot)
    requires
        total + swap_total <= u64::MAX,
    ensures
        m.total_bytes == total,
        m.available_bytes == available,
        m.used_bytes == used,
        m.committed_bytes == sat_sub(total, available),
        m.commit_limit_bytes == total + swap_total,
        m.paged_pool_bytes == 0,
        m.non_paged_pool_bytes == 0,
        m.cached_bytes == 0,
{
    MemorySnapshot {
        total_bytes: total,
        available_bytes: available,
        used_bytes: used,
        committed_bytes: total.saturating_sub(available),
        commit_limit_bytes: total + swap_total,
        paged_pool_bytes: 0,
        non_paged_pool_bytes: 0,
        cached_bytes: 0,
    }
}

} // verus!
