//! Setup-time validation: invalid configuration is rejected with an error
//! naming the offending parameter, before any rendering work begins.

use vstd::prelude::*;

verus! {

/// Which configuration parameter was rejected.
#[derive(Clone, Copy, Debug, PartialEq, Eq, Structural)]
pub enum ConfigError {
    ImageWidth,
    ImageHeight,
    SampleCount,
    SphereRadius,
}

impl ConfigError {
    /// A short description naming the offending parameter.
    pub fn describe(&self) -> (s: &'static str)
        ensures
            s@ == match *self {
                ConfigError::ImageWidth => "image width must be positive"@,
                ConfigError::ImageHeight => "image height must be positive"@,
                ConfigError::SampleCount => "sample count must be positive"@,
                ConfigError::SphereRadius => "sphere radius must be positive"@,
            },
    {
        match self {
            ConfigError::ImageWidth => "image width must be positive",
            ConfigError::ImageHeight => "image height must be positive",
            ConfigError::SampleCount => "sample count must be positive",
            ConfigError::SphereRadius => "sphere radius must be positive",
        }
    }
}

/// Check a render configuration: a zero-size image or a non-positive
/// sample count is rejected, identifying the first offending parameter.
pub fn validate_render_config(width: u32, height: u32, samples: i32) -> (r: Result<
    (),
    ConfigError,
>)
    ensures
        r is Ok <==> (width >= 1 && height >= 1 && samples >= 1),
        width < 1 ==> r == Result::<(), ConfigError>::Err(ConfigError::ImageWidth),
        (width >= 1 && height < 1) ==> r == Result::<(), ConfigError>::Err(
            ConfigError::ImageHeight,
        ),
        (width >= 1 && height >= 1 && samples < 1) ==> r == Result::<(), ConfigError>::Err(
            ConfigError::SampleCount,
        ),
{
    if width < 1 {
        Err(ConfigError::ImageWidth)
    } else if height < 1 {
        Err(ConfigError::ImageHeight)
    } else if samples < 1 {
        Err(ConfigError::SampleCount)
    } else {
        Ok(())
    }
}

} // verus!
