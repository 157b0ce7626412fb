use vstd::prelude::*;

verus! {

/// Why an ID3v2 tag could not be read.
#[derive(Debug, Clone, Copy, PartialEq, Eq, Structural)]
pub enum ID3v2ParseError {
    /// The data does not start with the ASCII identifier `ID3`.
    InvalidHeader,
    /// A size field points past the end of the tag or of the data.
    TruncatedBuffer,
}

/// Error type for MPEG parsing.
#[derive(Debug, Clone, Copy, PartialEq, Eq, Structural)]
pub enum MPEGParseError {
    /// The top 11 bits of the candidate header are not all set.
    NoFrameSync,
    /// The bitrate index holds the reserved value 15.
    BadFrameBitrate,
    /// The sample-rate index holds the reserved value 3.
    ReservedSampleRate,
    /// Fewer bytes remain than the header or the frame needs.
    TruncatedBuffer,
    /// The leading ID3v2 tag is malformed.
    InvalidID3v2Tag(ID3v2ParseError),
}

/// The text that `MPEGParseError::description` gives for each error.
pub open spec fn description_text(e: MPEGParseError) -> Seq<char> {
    match e {
        MPEGParseError::NoFrameSync => "Header frame sync expected but not found."@,
        MPEGParseError::BadFrameBitrate => "Frame header bitrate indicated as bad."@,
        MPEGParseError::ReservedSampleRate => "Frame header sample rate index is reserved."@,
        MPEGParseError::TruncatedBuffer => "Not enough bytes left for the frame."@,
        MPEGParseError::InvalidID3v2Tag(ID3v2ParseError::InvalidHeader) =>
            "ID3v2 tag is missing the ID3 identifier."@,
        MPEGParseError::InvalidID3v2Tag(ID3v2ParseError::TruncatedBuffer) =>
            "ID3v2 tag runs past the end of its data."@,
    }
}

impl MPEGParseError {
    /// A human-readable description of the error.
    pub fn description(&self) -> (r: String)
        ensures
            r@ == description_text(*self),
    {
        match self {
            MPEGParseError::NoFrameSync => String::from_str(
                "Header frame sync expected but not found.",
            ),
            MPEGParseError::BadFrameBitrate => String::from_str(
                "Frame header bitrate indicated as bad.",
            ),
            MPEGParseError::ReservedSampleRate => String::from_str(
                "Frame header sample rate index is reserved.",
            ),
            MPEGParseError::TruncatedBuffer => String::from_str(
                "Not enough bytes left for the frame.",
            ),
            MPEGParseError::InvalidID3v2Tag(ID3v2ParseError::InvalidHeader) => String::from_str(
                "ID3v2 tag is missing the ID3 identifier.",
            ),
            MPEGParseError::InvalidID3v2Tag(ID3v2ParseError::TruncatedBuffer) => String::from_str(
                "ID3v2 tag runs past the end of its data.",
            ),
        }
    }
}

} // verus!
