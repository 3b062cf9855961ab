//! Thread networking: the configuration that a device joins a network
//! with. Joining itself is not wired in yet.

use vstd::prelude::*;

verus! {

/// Thread network configuration.
pub struct ThreadConfig {
    /// The network dataset (network name, channel, PAN id, network key and
    /// the like) as TLVs in hexadecimal. Empty until the device is
    /// commissioned.
    pub dataset_tlv: &'static str,
}

impl Default for ThreadConfig {
    /// The configuration of a device that has not been commissioned: no
    /// dataset.
    fn default() -> (config: ThreadConfig)
        ensures
            config.dataset_tlv@ == Seq::<char>::empty(),
    {
        proof {
            reveal_strlit("");
        }
        let config = ThreadConfig { dataset_tlv: "" };
        assert(config.dataset_tlv@ =~= Seq::<char>::empty());
        config
    }
}

/// Stands in for bringing up Thread: nothing is started, and the result is
/// the two notices that say so, for the caller to log in this order.
pub fn init_thread_placeholder() -> (notices: [&'static str; 2])
    ensures
        notices[0]@ == "Thread module loaded (placeholder)"@,
        notices[1]@ == "Full Thread integration pending API verification"@,
{
    ["Thread module loaded (placeholder)", "Full Thread integration pending API verification"]
}

} // verus!
