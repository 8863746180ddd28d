//! Rendering settings that the host reads at startup.
use vstd::prelude::*;

verus! {

/// Multisampling samples used when nothing else is configured.
pub const DEFAULT_MSAA_SAMPLES: u32 = 4;

/// Settings of the renderer.
#[derive(Copy, Clone, PartialEq, Eq, Debug, Structural)]
pub struct RenderSettings {
    pub msaa_samples: u32,
}

impl Default for RenderSettings {
    fn default() -> (r: RenderSettings)
        ensures
            r.msaa_samples == DEFAULT_MSAA_SAMPLES,
    {
        RenderSettings { msaa_samples: DEFAULT_MSAA_SAMPLES }
    }
}

} // verus!
