# gui_app

The core of a desktop download manager built around yt-dlp and ffmpeg,
written in Verus: every function of the library carries a contract that
Verus proves.

## Layout

- `src/` — the verified library.
  - `size`, `num`, `text`: reading yt-dlp's byte sizes ("1.5MiB", "300KiB/s"),
    numbers and text.
  - `scaling`: a decimal number times a power of two, whole part only,
    computed on its digits (the bytes in "1.5MiB").
  - `download`: the yt-dlp command line, and `DownloadMonitor`, which follows a
    running download line by line (progress, the file written, the failure text).
  - `formats`, `home`, `selector`: the format list offered for a video (best
    first, duplicates dropped), the choice of formats and the page's texts.
  - `tasks`, `task_store`: the task list, its filters, and the tasks by id with
    the updates a download reports.
  - `record`, `record/board`: live-room recording — platforms, settings, and
    the board of watched rooms with their recordings.
  - `batch`, `playlist`, `channel`, `selection`: lists of addresses and videos
    and what is chosen of them.
  - `tools`, `tool_panel`: the external tools and how their state is shown.
  - `theme`, `theme/manager`, `theme/presets`: palettes and custom themes.
  - `notification`, `settings`: notification queue, dialogs, settings.
  - `paths`, `ids`: the calls into `std::path` and `uuid` that the logic makes.
  - `laws`: properties that span several calls, proved.
- `tests/` — tests that run the library with the real outside crates.
- `app/` — a command-line front end: runs yt-dlp, finds the tools, keeps the
  themes on disk, and formats numbers in floating point.
