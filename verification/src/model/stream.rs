//! Resolved video stream links.

use vstd::prelude::*;

verus! {

/// Vertical resolution of a stream; `Unknown` when the source gives none.
#[derive(Debug, Clone, Copy, PartialEq, Eq, Structural)]
pub enum Quality {
    Unknown,
    P360,
    P480,
    P720,
    P1080,
}

impl Quality {
    /// Position in the order `Unknown < P360 < P480 < P720 < P1080`.
    pub open spec fn rank(self) -> int {
        match self {
            Quality::Unknown => 0,
            Quality::P360 => 1,
            Quality::P480 => 2,
            Quality::P720 => 3,
            Quality::P1080 => 4,
        }
    }

    /// The text shown for this quality.
    pub open spec fn spec_label(self) -> Seq<char> {
        match self {
            Quality::Unknown => "Auto"@,
            Quality::P360 => "360p"@,
            Quality::P480 => "480p"@,
            Quality::P720 => "720p"@,
            Quality::P1080 => "1080p"@,
        }
    }

    /// The text shown for this quality ("Auto", "360p", ..., "1080p").
    pub fn label(self) -> (r: &'static str)
        ensures
            r@ == self.spec_label(),
    {
        match self {
            Quality::Unknown => "Auto",
            Quality::P360 => "360p",
            Quality::P480 => "480p",
            Quality::P720 => "720p",
            Quality::P1080 => "1080p",
        }
    }
}

/// A playable link together with where it came from.
pub struct StreamUrl {
    pub url: String,
    pub quality: Quality,
    pub provider: String,
    pub referer: Option<String>,
}

/// A stream link with its text as character sequences.
pub struct StreamView {
    pub url: Seq<char>,
    pub quality: Quality,
    pub provider: Seq<char>,
    pub referer: Option<Seq<char>>,
}

impl View for StreamUrl {
    type V = StreamView;

    open spec fn view(&self) -> StreamView {
        StreamView {
            url: self.url@,
            quality: self.quality,
            provider: self.provider@,
            referer: crate::model::anime::opt_view(self.referer),
        }
    }
}

/// The views of a list of streams.
pub open spec fn stream_views(v: Seq<StreamUrl>) -> Seq<StreamView> {
    v.map_values(|s: StreamUrl| s@)
}

impl Clone for StreamUrl {
    fn clone(&self) -> (r: Self)
        ensures
            r == *self,
    {
        StreamUrl {
            url: self.url.clone(),
            quality: self.quality,
            provider: self.provider.clone(),
            referer: match &self.referer {
                Some(s) => Some(s.clone()),
                None => None,
            },
        }
    }
}

} // verus!
