//! Static configuration of the controller: identity, ports, the subnet
//! it advertises on, and the channel / strip topology.

use vstd::prelude::*;

verus! {

/// Hardware parameters of one LED channel.
///
/// The color order of the strip is carried as the driver's numeric
/// strip-type code, so that the core holds only plain values; the
/// process edge converts it to the driver's own enumeration.
pub struct ChannelConfig {
    pub num: usize,
    pub pin: i32,
    pub count: i32,
    pub invert: bool,
    pub brightness: u8,
    pub strip_type: i32,
}

/// A named logical subrange of the flattened pixel address space, used
/// only for the announcement, never for decoding.
#[allow(non_snake_case)]
pub struct StripConfig {
    pub name: String,
    pub startAddr: usize,
    pub endAddr: usize,
    pub channel: usize,
}

/// Everything the controller needs to know about itself: its name, the
/// two protocol ports, the subnet and netmask it should advertise on,
/// driver-level parameters, and the channel / strip topology.
pub struct ControllerConfig {
    pub name: String,
    pub port: u16,
    pub setup_port: u16,
    pub subnet: [u8; 4],
    pub netmask: [u8; 4],
    pub dma: i32,
    pub freq: u32,
    pub channels: Vec<ChannelConfig>,
    pub strips: Vec<StripConfig>,
}

/// Sum of the pixel counts of the channels `chs[0..n]`.
pub open spec fn spec_sum_counts_prefix(chs: Seq<ChannelConfig>, n: int) -> int
    decreases n,
{
    if n <= 0 {
        0
    } else {
        spec_sum_counts_prefix(chs, n - 1) + chs[n - 1].count
    }
}

/// Sum of the pixel counts of all channels: the total addressable
/// pixel count advertised as `numAddrs`.
pub open spec fn spec_sum_counts(chs: Seq<ChannelConfig>) -> int {
    spec_sum_counts_prefix(chs, chs.len() as int)
}

impl ControllerConfig {
    /// Well-formedness: pixel counts are non-negative and their sum is
    /// representable, and every announced quantity fits the wire's
    /// signed 64-bit integers.
    pub open spec fn wf(&self) -> bool {
        &&& forall|i: int|
            0 <= i < self.channels@.len() ==> 0 <= (#[trigger] self.channels@[i]).count
        &&& spec_sum_counts(self.channels@) <= i32::MAX
        &&& self.strips@.len() <= i64::MAX
        &&& forall|i: int|
            0 <= i < self.strips@.len() ==> {
                &&& (#[trigger] self.strips@[i]).startAddr <= i64::MAX
                &&& self.strips@[i].endAddr <= i64::MAX
                &&& self.strips@[i].channel <= i64::MAX
            }
    }

    /// The total number of pixel addresses across all channels.
    pub fn num_addrs(&self) -> (r: i32)
        requires
            self.wf(),
        ensures
            r == spec_sum_counts(self.channels@),
    {
        let mut total: i32 = 0;
        let mut i: usize = 0;
        while i < self.channels.len()
            invariant
                self.wf(),
                i <= self.channels@.len(),
                total == spec_sum_counts_prefix(self.channels@, i as int),
            decreases self.channels@.len() - i,
        {
            proof {
                lemma_sum_counts_prefix_bounds(self.channels@, i as int);
                lemma_sum_counts_prefix_bounds(self.channels@, i + 1);
            }
            total = total + self.channels[i].count;
            i = i + 1;
        }
        total
    }
}

/// For channels with non-negative counts, every prefix sum lies between
/// zero and the total sum.
pub proof fn lemma_sum_counts_prefix_bounds(chs: Seq<ChannelConfig>, n: int)
    requires
        0 <= n <= chs.len(),
        forall|i: int| 0 <= i < chs.len() ==> 0 <= (#[trigger] chs[i]).count,
    ensures
        0 <= spec_sum_counts_prefix(chs, n) <= spec_sum_counts(chs),
    decreases chs.len() - n,
{
    if n < chs.len() {
        lemma_sum_counts_prefix_bounds(chs, n + 1);
    }
    lemma_sum_counts_prefix_nonneg(chs, n);
}

proof fn lemma_sum_counts_prefix_nonneg(chs: Seq<ChannelConfig>, n: int)
    requires
        0 <= n <= chs.len(),
        forall|i: int| 0 <= i < chs.len() ==> 0 <= (#[trigger] chs[i]).count,
    ensures
        0 <= spec_sum_counts_prefix(chs, n),
    decreases n,
{
    if n > 0 {
        lemma_sum_counts_prefix_nonneg(chs, n - 1);
    }
}

} // verus!
