//! From the brightness of one pixel to the load that it puts on one table.

use vstd::prelude::*;
use vstd::string::*;

verus! {

/// How a pixel is turned into writes.
#[derive(Clone, Copy, Debug, PartialEq, Eq, Structural)]
pub enum MappingPolicy {
    /// The intensity picks the table, and every visit of the pixel is one
    /// write. A black pixel still writes once, to table 0.
    Direct,
    /// The row picks the table, counted from the bottom of the image, and
    /// half the intensity, rounded down, is the number of writes. A black
    /// pixel writes nothing.
    InvertedIntensity,
}

/// The policy that goes by the given name: `direct` or `inverted`, in lower
/// case and with nothing around it. No other name is a policy.
pub open spec fn policy_named(name: Seq<char>) -> Option<MappingPolicy> {
    if name == "direct"@ {
        Some(MappingPolicy::Direct)
    } else if name == "inverted"@ {
        Some(MappingPolicy::InvertedIntensity)
    } else {
        None
    }
}

impl MappingPolicy {
    /// Finds the policy that goes by `name`.
    pub fn from_name(name: &str) -> (found: Option<MappingPolicy>)
        ensures
            found == policy_named(name@),
    {
        let given = String::from_str(name);
        if given == String::from_str("direct") {
            Some(MappingPolicy::Direct)
        } else if given == String::from_str("inverted") {
            Some(MappingPolicy::InvertedIntensity)
        } else {
            None
        }
    }
}

/// The work that one visit of one pixel asks for: `repetitions` batched
/// updates, all against table `table`.
#[derive(Clone, Copy, Debug, PartialEq, Eq, Structural)]
pub struct Load {
    pub table: usize,
    pub repetitions: usize,
}

/// The table that a pixel of the given intensity in row `y` of an image of
/// `height` rows is routed to.
pub open spec fn target_table(policy: MappingPolicy, intensity: u8, y: int, height: int) -> int {
    match policy {
        MappingPolicy::Direct => intensity as int,
        MappingPolicy::InvertedIntensity => height - y - 1,
    }
}

/// The number of batched updates that one visit of such a pixel issues.
pub open spec fn repetition_count(policy: MappingPolicy, intensity: u8) -> int {
    match policy {
        MappingPolicy::Direct => 1,
        MappingPolicy::InvertedIntensity => intensity as int / 2,
    }
}

/// The load of a pixel, as a value of [`Load`].
pub open spec fn pixel_load(policy: MappingPolicy, intensity: u8, y: u32, height: u32) -> Load {
    Load {
        table: target_table(policy, intensity, y as int, height as int) as usize,
        repetitions: repetition_count(policy, intensity) as usize,
    }
}

/// Maps the pixel of the given intensity in row `y` of an image of `height`
/// rows to its load. The result depends on nothing but the four arguments.
pub fn map_pixel(policy: MappingPolicy, intensity: u8, y: u32, height: u32) -> (load: Load)
    requires
        y < height,
    ensures
        load == pixel_load(policy, intensity, y, height),
        load.table == target_table(policy, intensity, y as int, height as int),
        load.repetitions == repetition_count(policy, intensity),
{
    match policy {
        MappingPolicy::Direct => Load { table: intensity as usize, repetitions: 1 },
        MappingPolicy::InvertedIntensity => Load {
            table: (height - y - 1) as usize,
            repetitions: (intensity / 2) as usize,
        },
    }
}

/// Both policies stay within fixed bounds: a direct load is one write to a
/// table below 256, an inverted load is at most 127 writes to a table below
/// the height, and only the inverted policy is silent on a black pixel.
pub proof fn lemma_load_bounds(policy: MappingPolicy, intensity: u8, y: u32, height: u32)
    requires
        y < height,
    ensures
        policy == MappingPolicy::Direct ==> {
            &&& pixel_load(policy, intensity, y, height).table == intensity
            &&& pixel_load(policy, intensity, y, height).repetitions == 1
        },
        policy == MappingPolicy::InvertedIntensity ==> {
            &&& pixel_load(policy, intensity, y, height).table < height
            &&& pixel_load(policy, intensity, y, height).table + y + 1 == height
            &&& pixel_load(policy, intensity, y, height).repetitions <= 127
            &&& (intensity == 0 ==> pixel_load(policy, intensity, y, height).repetitions == 0)
        },
{
}

} // verus!
