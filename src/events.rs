//! Lifecycle events of the watermark remover, handed to the host as plain data.
use vstd::prelude::*;

verus! {

/// Work on a directory begins: `total` pages will follow.
#[derive(Debug, Clone)]
pub struct RemoveWatermarkStartEventPayload {
    pub dir_path: String,
    pub total: u32,
}

#[derive(Debug, Clone)]
pub struct RemoveWatermarkStartEvent(pub RemoveWatermarkStartEventPayload);

/// A page of a directory is done; `current` pages of it are done so far.
#[derive(Debug, Clone)]
pub struct RemoveWatermarkSuccessEventPayload {
    pub dir_path: String,
    pub img_path: String,
    pub current: u32,
}

#[derive(Debug, Clone)]
pub struct RemoveWatermarkSuccessEvent(pub RemoveWatermarkSuccessEventPayload);

/// A page of a directory failed.
#[derive(Debug, Clone)]
pub struct RemoveWatermarkErrorEventPayload {
    pub dir_path: String,
    pub img_path: String,
    pub err_msg: String,
}

#[derive(Debug, Clone)]
pub struct RemoveWatermarkErrorEvent(pub RemoveWatermarkErrorEventPayload);

/// Every page of a directory is done.
#[derive(Debug, Clone)]
pub struct RemoveWatermarkEndEventPayload {
    pub dir_path: String,
}

#[derive(Debug, Clone)]
pub struct RemoveWatermarkEndEvent(pub RemoveWatermarkEndEventPayload);

/// Any event of the watermark remover.
#[derive(Debug, Clone)]
pub enum RemoveEvent {
    Start(RemoveWatermarkStartEvent),
    Success(RemoveWatermarkSuccessEvent),
    Error(RemoveWatermarkErrorEvent),
    End(RemoveWatermarkEndEvent),
}

impl RemoveEvent {
    /// The directory an event is about.
    pub open spec fn dir(&self) -> Seq<char> {
        match self {
            RemoveEvent::Start(e) => e.0.dir_path@,
            RemoveEvent::Success(e) => e.0.dir_path@,
            RemoveEvent::Error(e) => e.0.dir_path@,
            RemoveEvent::End(e) => e.0.dir_path@,
        }
    }
}

} // verus!
