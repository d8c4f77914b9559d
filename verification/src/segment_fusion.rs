//! The confidence bands of fused segment analyses, and the language of a
//! segment's file.
use vstd::prelude::*;
use crate::text::str_eq;

verus! {

/// How many fused segments fall in each confidence band.
pub struct ConfidenceBreakdown {
    pub high_confidence_segments: usize,
    pub medium_confidence_segments: usize,
    pub low_confidence_segments: usize,
    pub total_segments: usize,
}

/// The confidence band of a fused segment: high above 0.7, medium above
/// 0.4, low otherwise.
#[derive(Debug, Clone, Copy, PartialEq, Eq, Structural)]
pub enum ConfidenceBand {
    High,
    Medium,
    Low,
}

impl ConfidenceBreakdown {
    /// The total equals the sum of the bands.
    pub open spec fn consistent(&self) -> bool {
        self.total_segments == self.high_confidence_segments + self.medium_confidence_segments
            + self.low_confidence_segments
    }

    /// A breakdown of no segment.
    pub fn new() -> (r: Self)
        ensures
            r.high_confidence_segments == 0,
            r.medium_confidence_segments == 0,
            r.low_confidence_segments == 0,
            r.total_segments == 0,
            r.consistent(),
    {
        ConfidenceBreakdown {
            high_confidence_segments: 0,
            medium_confidence_segments: 0,
            low_confidence_segments: 0,
            total_segments: 0,
        }
    }

    /// Counts one more segment, in the band `band`.
    pub fn add_segment_band(&mut self, band: ConfidenceBand)
        requires
            old(self).total_segments < usize::MAX,
            old(self).consistent(),
        ensures
            final(self).consistent(),
            final(self).total_segments == old(self).total_segments + 1,
            final(self).high_confidence_segments == old(self).high_confidence_segments + if band == ConfidenceBand::High { 1int } else { 0int },
            final(self).medium_confidence_segments == old(self).medium_confidence_segments + if band == ConfidenceBand::Medium { 1int } else { 0int },
            final(self).low_confidence_segments == old(self).low_confidence_segments + if band == ConfidenceBand::Low { 1int } else { 0int },
    {
        self.total_segments = self.total_segments + 1;
        match band {
            ConfidenceBand::High => {
                self.high_confidence_segments = self.high_confidence_segments + 1;
            },
            ConfidenceBand::Medium => {
                self.medium_confidence_segments = self.medium_confidence_segments + 1;
            },
            ConfidenceBand::Low => {
                self.low_confidence_segments = self.low_confidence_segments + 1;
            },
        }
    }
}

/// The language of a source file by its extension (TypeScript when the
/// extension is unknown or missing).
pub open spec fn language_of_extension(extension: Option<Seq<char>>) -> Seq<char> {
    match extension {
        Some(e) => if e == "ts"@ || e == "tsx"@ {
            "TypeScript"@
        } else if e == "js"@ || e == "jsx"@ {
            "JavaScript"@
        } else if e == "py"@ {
            "Python"@
        } else if e == "java"@ {
            "Java"@
        } else if e == "rs"@ {
            "Rust"@
        } else if e == "go"@ {
            "Go"@
        } else {
            "TypeScript"@
        },
        None => "TypeScript"@,
    }
}

/// The language of a source file whose extension is `extension`.
pub fn derive_language_from_path(extension: Option<&str>) -> (r: String)
    ensures
        r@ == language_of_extension(match extension {
            Some(e) => Some(e@),
            None => None,
        }),
{
    let name = match extension {
        Some(e) => if str_eq(e, "ts") || str_eq(e, "tsx") {
            "TypeScript"
        } else if str_eq(e, "js") || str_eq(e, "jsx") {
            "JavaScript"
        } else if str_eq(e, "py") {
            "Python"
        } else if str_eq(e, "java") {
            "Java"
        } else if str_eq(e, "rs") {
            "Rust"
        } else if str_eq(e, "go") {
            "Go"
        } else {
            "TypeScript"
        },
        None => "TypeScript",
    };
    name.to_owned()
}

} // verus!
