pub mod bytes;
pub mod id3v2;
pub mod mp3;
pub mod mpegframeheader;
pub mod mpegparserror;
