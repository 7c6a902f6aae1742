//! The dispatcher: which collector serves which platform.

use vstd::prelude::*;
use crate::error::{CollectionError, CollectionErrorView};

verus! {

/// The platform of the host.
#[derive(Clone, Copy, Debug, PartialEq, Eq, Structural)]
pub enum Platform {
    MacOs,
    Windows,
    Linux,
    Unknown,
}

/// The collector of a platform.
#[derive(Clone, Copy, Debug, PartialEq, Eq)]
pub enum PlatformCollector {
    MacOs(crate::macos::Collector),
    Windows(crate::windows::Collector),
}

/// The collector that serves a platform, if there is one.
pub open spec fn collector_of(platform: Platform) -> Option<PlatformCollector> {
    match platform {
        Platform::MacOs => Some(PlatformCollector::MacOs(crate::macos::Collector {  })),
        Platform::Windows => Some(PlatformCollector::Windows(crate::windows::Collector {  })),
        _ => None,
    }
}

/// Selects the collector of the platform.
///
/// Exactly one collector serves each supported platform. Every other
/// platform fails at once, before any collecting begins.
pub fn get(platform: Platform) -> (res: Result<PlatformCollector, CollectionError>)
    ensures
        match collector_of(platform) {
            Some(collector) => res == Ok::<PlatformCollector, CollectionError>(collector),
            None => res matches Err(e) && e@ == CollectionErrorView::UnsupportedPlatform,
        },
{
    match platform {
        Platform::MacOs => {
            let mut collector = crate::macos::Collector {  };
            match collector.setup() {
                Ok(()) => Ok(PlatformCollector::MacOs(collector)),
                Err(e) => Err(e),
            }
        },
        Platform::Windows => {
            let mut collector = crate::windows::Collector {  };
            match collector.setup() {
                Ok(()) => Ok(PlatformCollector::Windows(collector)),
                Err(e) => Err(e),
            }
        },
        _ => Err(CollectionError::UnsupportedPlatform),
    }
}

} // verus!
