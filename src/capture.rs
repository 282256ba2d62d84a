use vstd::prelude::*;
use crate::pipeline::same_text;

verus! {

/// Sample rate that the recognition engine expects.
pub const ENGINE_RATE: u32 = 16000;

/// How the program runs.
#[derive(Debug, Clone, Copy, PartialEq, Eq, Structural)]
pub enum Mode {
    /// Print finalized text on the terminal.
    Cli,
    /// Hotkey-driven dictation into the focused application.
    Gui,
}

/// The mode name is neither `cli` nor `gui`.
#[derive(Debug, Clone, Copy, PartialEq, Eq, Structural)]
pub enum ModeError {
    Unknown,
}

/// Reads a mode name: `cli` or `gui`.
pub fn parse_mode(name: &str) -> (r: Result<Mode, ModeError>)
    ensures
        name@ == "cli"@ ==> r == Ok::<Mode, ModeError>(Mode::Cli),
        name@ == "gui"@ ==> r == Ok::<Mode, ModeError>(Mode::Gui),
        name@ != "cli"@ && name@ != "gui"@ ==> r == Err::<Mode, ModeError>(ModeError::Unknown),
{
    proof {
        reveal_strlit("cli");
        reveal_strlit("gui");
        assert("cli"@[0] != "gui"@[0]);
    }
    if same_text(name, "cli") {
        Ok(Mode::Cli)
    } else if same_text(name, "gui") {
        Ok(Mode::Gui)
    } else {
        Err(ModeError::Unknown)
    }
}

/// Which input device the user asked for.
pub enum DeviceRequest {
    ByIndex(usize),
    ByName(String),
    Default,
}

/// Where the chosen device is found.
#[derive(Debug, Clone, Copy, PartialEq, Eq, Structural)]
pub enum DeviceSlot {
    /// Position in the list of input devices.
    Listed(usize),
    /// The host's default input device.
    HostDefault,
}

/// Why no device could be chosen.
#[derive(Debug, Clone, Copy, PartialEq, Eq, Structural)]
pub enum DeviceError {
    IndexOutOfRange,
    NameNotFound,
}

/// The names of the listed devices, as character sequences; `None` where a
/// name could not be read.
pub open spec fn name_views(names: Seq<Option<String>>) -> Seq<Option<Seq<char>>> {
    names.map_values(
        |n: Option<String>|
            match n {
                Some(s) => Some(s@),
                None => None,
            },
    )
}

/// `k` is the first position whose name is `name`.
pub open spec fn first_named(names: Seq<Option<Seq<char>>>, name: Seq<char>, k: int) -> bool {
    &&& 0 <= k < names.len()
    &&& names[k] == Some(name)
    &&& forall|j: int| 0 <= j < k ==> #[trigger] names[j] != Some(name)
}

/// Resolves a device request against the names of the listed input devices:
/// by position, by the first equal name, or the host's default.
pub fn resolve_device(names: &Vec<Option<String>>, request: &DeviceRequest) -> (r: Result<
    DeviceSlot,
    DeviceError,
>)
    ensures
        match *request {
            DeviceRequest::ByIndex(i) => r == if i < names@.len() {
                Ok::<DeviceSlot, DeviceError>(DeviceSlot::Listed(i))
            } else {
                Err::<DeviceSlot, DeviceError>(DeviceError::IndexOutOfRange)
            },
            DeviceRequest::ByName(name) => match r {
                Ok(DeviceSlot::Listed(k)) => first_named(name_views(names@), name@, k as int),
                Ok(DeviceSlot::HostDefault) => false,
                Err(e) => e == DeviceError::NameNotFound && forall|j: int|
                    0 <= j < names@.len() ==> #[trigger] name_views(names@)[j] != Some(name@),
            },
            DeviceRequest::Default => r == Ok::<DeviceSlot, DeviceError>(DeviceSlot::HostDefault),
        },
{
    match request {
        DeviceRequest::ByIndex(i) => {
            if *i < names.len() {
                Ok(DeviceSlot::Listed(*i))
            } else {
                Err(DeviceError::IndexOutOfRange)
            }
        },
        DeviceRequest::ByName(name) => {
            let ghost views = name_views(names@);
            let mut k: usize = 0;
            while k < names.len()
                invariant
                    k <= names@.len(),
                    *request == DeviceRequest::ByName(*name),
                    views == name_views(names@),
                    views.len() == names@.len(),
                    forall|j: int| 0 <= j < k ==> #[trigger] views[j] != Some(name@),
                decreases names@.len() - k,
            {
                match &names[k] {
                    Some(s) => {
                        if same_text(s.as_str(), name.as_str()) {
                            assert(views[k as int] == Some(s@));
                            return Ok(DeviceSlot::Listed(k));
                        }
                        assert(views[k as int] == Some(s@));
                    },
                    None => {
                        assert(views[k as int] == None::<Seq<char>>);
                    },
                }
                k = k + 1;
            }
            Err(DeviceError::NameNotFound)
        },
        DeviceRequest::Default => Ok(DeviceSlot::HostDefault),
    }
}

/// One range of input configurations a device supports.
#[derive(Debug, Clone, Copy, PartialEq, Eq, Structural)]
pub struct InputRange {
    pub channels: u16,
    pub min_rate: u32,
    pub max_rate: u32,
}

/// Some range offers one channel at `rate`.
pub open spec fn offers_mono(ranges: Seq<InputRange>, rate: u32) -> bool {
    exists|i: int|
        0 <= i < ranges.len() && (#[trigger] ranges[i]).channels == 1 && ranges[i].min_rate <= rate
            <= ranges[i].max_rate
}

/// How audio is captured, and whether it has to be resampled.
#[derive(Debug, Clone, Copy, PartialEq, Eq, Structural)]
pub struct CapturePlan {
    pub channels: u16,
    pub sample_rate: u32,
    pub resample: bool,
}

/// Whether some range offers one channel at `rate`.
pub fn supports_mono_rate(ranges: &[InputRange], rate: u32) -> (r: bool)
    ensures
        r == offers_mono(ranges@, rate),
{
    let mut i: usize = 0;
    while i < ranges.len()
        invariant
            i <= ranges@.len(),
            forall|j: int|
                0 <= j < i ==> !((#[trigger] ranges@[j]).channels == 1 && ranges@[j].min_rate
                    <= rate <= ranges@[j].max_rate),
        decreases ranges@.len() - i,
    {
        let c = ranges[i];
        if c.channels == 1 && c.min_rate <= rate && rate <= c.max_rate {
            return true;
        }
        i = i + 1;
    }
    false
}

/// Captures mono at the engine's rate where the device offers it; otherwise
/// uses the device's default configuration and resamples if its rate differs.
pub fn plan_capture(ranges: &[InputRange], default_channels: u16, default_rate: u32) -> (r:
    CapturePlan)
    ensures
        offers_mono(ranges@, ENGINE_RATE) ==> r == (CapturePlan {
            channels: 1,
            sample_rate: ENGINE_RATE,
            resample: false,
        }),
        !offers_mono(ranges@, ENGINE_RATE) ==> r == (CapturePlan {
            channels: default_channels,
            sample_rate: default_rate,
            resample: default_rate != ENGINE_RATE,
        }),
{
    if supports_mono_rate(ranges, ENGINE_RATE) {
        CapturePlan { channels: 1, sample_rate: ENGINE_RATE, resample: false }
    } else {
        CapturePlan {
            channels: default_channels,
            sample_rate: default_rate,
            resample: default_rate != ENGINE_RATE,
        }
    }
}

} // verus!
