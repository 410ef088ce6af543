//! Plain data shared by the download and tool logic.
use vstd::prelude::*;

verus! {

/// The two external programs the application drives.
#[derive(Debug, Clone, Copy, PartialEq, Eq, Structural)]
pub enum ToolType {
    YtDlp,
    Ffmpeg,
}

/// Whether a tool can be run, and from where.
#[derive(Debug, Clone)]
pub enum ToolStatus {
    /// Not installed
    NotInstalled,
    /// Installed; `is_system` when found on the system `PATH` rather than
    /// in the application's own tool directory.
    Installed { version: Option<String>, is_system: bool },
}

/// What a video download asks of yt-dlp besides the format.
#[derive(Debug, Clone, Copy, PartialEq, Eq, Structural)]
pub struct DownloadVideoOptions {
    pub embed_metadata: bool,
    pub embed_thumbnail: bool,
    pub download_subtitles: bool,
    pub audio_only: bool,
}

impl Default for DownloadVideoOptions {
    /// Every option off.
    fn default() -> (o: Self)
        ensures
            !o.embed_metadata,
            !o.embed_thumbnail,
            !o.download_subtitles,
            !o.audio_only,
    {
        DownloadVideoOptions {
            embed_metadata: false,
            embed_thumbnail: false,
            download_subtitles: false,
            audio_only: false,
        }
    }
}

/// How an application message is shown.
#[derive(Debug, Clone, Copy, PartialEq, Eq, Structural)]
pub enum NotificationType {
    Info,
    Success,
    Warning,
    Error,
}

/// A message for the user.
#[derive(Debug, Clone)]
pub struct NotificationMessage {
    pub title: String,
    pub message: String,
    pub notification_type: NotificationType,
}

} // verus!
