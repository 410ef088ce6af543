//! A video download through yt-dlp: the command line it is given, and what
//! its output lines report (progress, the file written, the failure).
use vstd::prelude::*;
use crate::paths::{path_join, std_path_join};
use crate::size::{
    extract_speed, extract_total_size, is_ascii_digit, is_digit, speed_word, total_size_word,
    word_size,
};
use crate::text::{
    chars_of, contains, contains_chars, find, find_chars, i64_to_decimal, lemma_contains, opt_view,
    owned, push_chars, push_str, occurs_at, rfind_char, rfind_char_chars, signed_decimal, slice_range,
    split_second, split_second_chars, starts_with, starts_with_chars, string_of, trim, trim_chars,
};
use crate::types::DownloadVideoOptions;

verus! {

broadcast use vstd::string::group_string_axioms;

/// The texts of a list of strings.
pub open spec fn strings_of(v: Seq<String>) -> Seq<Seq<char>> {
    v.map_values(|s: String| s@)
}

/// Whether `s` holds `lit` (a text literal) somewhere.
pub fn contains_lit(s: &[char], lit: &str) -> (b: bool)
    ensures
        b == contains(s@, lit@),
{
    let p = chars_of(lit);
    contains_chars(s, &p)
}

// ---------------------------------------------------------------------
// The command line
// ---------------------------------------------------------------------

/// What is appended to a bare video format so that the best audio is merged in.
pub open spec fn best_audio_suffix() -> Seq<char> {
    "+bestaudio/best"@
}

pub open spec fn all_digits(s: Seq<char>) -> bool {
    forall|i: int| 0 <= i < s.len() ==> #[trigger] is_digit(s[i])
}

/// The format selector handed to yt-dlp for the format id the user chose:
/// a numeric id (or none) gets the best audio merged in, a selector that
/// already combines formats (`+`) or names a `best...` choice is kept, and
/// any other id gets the best audio merged in too.
pub open spec fn format_request(id: Seq<char>) -> Seq<char> {
    if all_digits(id) {
        id + best_audio_suffix()
    } else if contains(id, seq!['+']) || starts_with(id, seq!['b', 'e', 's', 't']) {
        id
    } else {
        id + best_audio_suffix()
    }
}

/// The format selector for `format_id` (see `format_request`).
pub fn effective_format_id(format_id: &str) -> (r: String)
    ensures
        r@ == format_request(format_id@),
{
    let v = chars_of(format_id);
    let mut digits = true;
    let mut i: usize = 0;
    while i < v.len()
        invariant
            i <= v@.len(),
            v@ == format_id@,
            digits == (forall|k: int| 0 <= k < i ==> #[trigger] is_digit(v@[k])),
        decreases v@.len() - i,
    {
        if !is_ascii_digit(v[i]) {
            digits = false;
        }
        i = i + 1;
    }
    let plus = ['+'];
    let best = ['b', 'e', 's', 't'];
    assert(plus@ =~= seq!['+']);
    assert(best@ =~= seq!['b', 'e', 's', 't']);
    let mut r = owned(format_id);
    if digits {
        push_str(&mut r, "+bestaudio/best");
    } else if contains_chars(&v, &plus) || starts_with_chars(&v, &best) {
    } else {
        push_str(&mut r, "+bestaudio/best");
    }
    r
}

/// The file name template, in the output directory, that yt-dlp writes to.
pub open spec fn output_template_name() -> Seq<char> {
    "%(title)s_%(height)sp.%(ext)s"@
}

pub open spec fn flag_args(on: bool, args: Seq<Seq<char>>) -> Seq<Seq<char>> {
    if on { args } else { Seq::empty() }
}

pub open spec fn ffmpeg_args(ffmpeg: Option<Seq<char>>) -> Seq<Seq<char>> {
    match ffmpeg {
        Some(p) => seq!["--ffmpeg-location"@, p],
        None => Seq::empty(),
    }
}

/// The arguments of the yt-dlp command that downloads `url` in the format
/// chosen as `format_id` into `output_dir`, with the options, and with the
/// ffmpeg location where one was found.
pub open spec fn download_command(
    url: Seq<char>,
    format_id: Seq<char>,
    output_dir: Seq<char>,
    o: DownloadVideoOptions,
    ffmpeg: Option<Seq<char>>,
) -> Seq<Seq<char>> {
    seq![
        url,
        "--format"@,
        format_request(format_id),
        "--output"@,
        std_path_join(output_dir, output_template_name()),
        "--newline"@,
        "--progress"@,
        "--no-mtime"@,
    ] + flag_args(o.embed_metadata, seq!["--embed-metadata"@]) + flag_args(
        o.embed_thumbnail,
        seq!["--embed-thumbnail"@],
    ) + flag_args(o.audio_only, seq!["--extract-audio"@, "--audio-format"@, "mp3"@]) + flag_args(
        o.download_subtitles,
        seq!["--write-subs"@, "--write-auto-subs"@],
    ) + ffmpeg_args(ffmpeg)
}

fn push_arg(args: &mut Vec<String>, a: String)
    ensures
        strings_of(final(args)@) == strings_of(old(args)@).push(a@),
{
    let ghost before = strings_of(args@);
    args.push(a);
    assert(strings_of(args@) =~= before.push(a@));
}

fn command_head(url: &str, format_id: &str, output_dir: &str) -> (r: Vec<String>)
    ensures
        strings_of(r@) == seq![
            url@,
            "--format"@,
            format_request(format_id@),
            "--output"@,
            std_path_join(output_dir@, output_template_name()),
            "--newline"@,
            "--progress"@,
            "--no-mtime"@,
        ],
{
    let r = vec![
        owned(url),
        owned("--format"),
        effective_format_id(format_id),
        owned("--output"),
        path_join(output_dir, "%(title)s_%(height)sp.%(ext)s"),
        owned("--newline"),
        owned("--progress"),
        owned("--no-mtime"),
    ];
    assert(strings_of(r@) =~= seq![
        url@,
        "--format"@,
        format_request(format_id@),
        "--output"@,
        std_path_join(output_dir@, output_template_name()),
        "--newline"@,
        "--progress"@,
        "--no-mtime"@,
    ]);
    r
}

/// The arguments of the yt-dlp download command (see `download_command`).
pub fn download_args(
    url: &str,
    format_id: &str,
    output_dir: &str,
    options: &DownloadVideoOptions,
    ffmpeg_location: Option<&str>,
) -> (r: Vec<String>)
    ensures
        strings_of(r@) == download_command(
            url@,
            format_id@,
            output_dir@,
            *options,
            match ffmpeg_location {
                Some(p) => Some(p@),
                None => None,
            },
        ),
{
    let mut args = command_head(url, format_id, output_dir);
    let ghost base = strings_of(args@);
    if options.embed_metadata {
        push_arg(&mut args, owned("--embed-metadata"));
    }
    let ghost g1 = base + flag_args(options.embed_metadata, seq!["--embed-metadata"@]);
    assert(strings_of(args@) =~= g1);
    if options.embed_thumbnail {
        push_arg(&mut args, owned("--embed-thumbnail"));
    }
    let ghost g2 = g1 + flag_args(options.embed_thumbnail, seq!["--embed-thumbnail"@]);
    assert(strings_of(args@) =~= g2);
    if options.audio_only {
        push_arg(&mut args, owned("--extract-audio"));
        push_arg(&mut args, owned("--audio-format"));
        push_arg(&mut args, owned("mp3"));
    }
    let ghost g3 = g2 + flag_args(
        options.audio_only,
        seq!["--extract-audio"@, "--audio-format"@, "mp3"@],
    );
    assert(strings_of(args@) =~= g3);
    if options.download_subtitles {
        push_arg(&mut args, owned("--write-subs"));
        push_arg(&mut args, owned("--write-auto-subs"));
    }
    let ghost g4 = g3 + flag_args(
        options.download_subtitles,
        seq!["--write-subs"@, "--write-auto-subs"@],
    );
    assert(strings_of(args@) =~= g4);
    let ghost ff = match ffmpeg_location {
        Some(p) => Some(p@),
        None => None,
    };
    match ffmpeg_location {
        Some(p) => {
            push_arg(&mut args, owned("--ffmpeg-location"));
            push_arg(&mut args, owned(p));
        },
        None => {},
    }
    assert(strings_of(args@) =~= g4 + ffmpeg_args(ff));
    assert(g4 + ffmpeg_args(ff) =~= download_command(url@, format_id@, output_dir@, *options, ff));
    args
}

} // verus!

verus! {

// ---------------------------------------------------------------------
// What an output line reports
// ---------------------------------------------------------------------

/// A progress line: `[download]` with a percentage, and no destination.
pub open spec fn is_progress_line(line: Seq<char>) -> bool {
    contains(line, "[download]"@) && contains(line, seq!['%']) && !contains(line, "Destination"@)
}

/// `... Destination: <path>`: the trimmed text after the marker.
pub open spec fn destination_path(line: Seq<char>) -> Option<Seq<char>> {
    if contains(line, "Destination:"@) {
        match split_second(line, "Destination:"@) {
            Some(p) => Some(trim(p)),
            None => None,
        }
    } else {
        None
    }
}

/// `... Merging formats into "<path>"`: the text between the first and the last quote.
pub open spec fn merged_path(line: Seq<char>) -> Option<Seq<char>> {
    if contains(line, "Merging formats into"@) {
        match (find(line, seq!['"']), rfind_char(line, '"')) {
            (Some(s), Some(e)) => if e > s {
                Some(line.subrange(s + 1, e))
            } else {
                None
            },
            _ => None,
        }
    } else {
        None
    }
}

/// `[download] <path> has already been downloaded`: the path between the two.
pub open spec fn already_downloaded_path(line: Seq<char>) -> Option<Seq<char>> {
    if contains(line, "has already been downloaded"@) {
        match find(line, "[download]"@) {
            Some(s) => {
                let rest = trim(line.skip(s + "[download]"@.len()));
                match find(rest, " has already been downloaded"@) {
                    Some(e) => Some(rest.take(e)),
                    None => None,
                }
            },
            None => None,
        }
    } else {
        None
    }
}

pub open spec fn or_else(later: Option<Seq<char>>, earlier: Option<Seq<char>>) -> Option<Seq<char>> {
    match later {
        Some(p) => Some(p),
        None => earlier,
    }
}

/// The output file a line names, if any; where several forms match, the
/// already-downloaded form wins over the merge form, which wins over the
/// destination form.
pub open spec fn line_output_path(line: Seq<char>) -> Option<Seq<char>> {
    or_else(already_downloaded_path(line), or_else(merged_path(line), destination_path(line)))
}

fn destination_path_exec(v: &[char]) -> (r: Option<Vec<char>>)
    ensures
        match r {
            Some(p) => destination_path(v@) == Some(p@),
            None => destination_path(v@) is None,
        },
{
    let m = chars_of("Destination:");
    if !contains_chars(v, &m) {
        return None;
    }
    proof {
        reveal_strlit("Destination:");
    }
    match split_second_chars(v, &m) {
        Some(p) => Some(trim_chars(&p)),
        None => None,
    }
}

fn merged_path_exec(v: &[char]) -> (r: Option<Vec<char>>)
    ensures
        match r {
            Some(p) => merged_path(v@) == Some(p@),
            None => merged_path(v@) is None,
        },
{
    if !contains_lit(v, "Merging formats into") {
        return None;
    }
    let q = ['"'];
    assert(q@ =~= seq!['"']);
    match find_chars(v, &q) {
        Some(s) => {
            proof {
                lemma_contains(v@, seq!['"']);
            }
            match rfind_char_chars(v, '"') {
                Some(e) => {
                    if e > s {
                        proof {
                            lemma_rfind_char_bound(v@, '"');
                        }
                        Some(slice_range(v, s + 1, e))
                    } else {
                        None
                    }
                },
                None => None,
            }
        },
        None => None,
    }
}

pub proof fn lemma_rfind_char_bound(s: Seq<char>, c: char)
    ensures
        rfind_char(s, c) matches Some(i) ==> 0 <= i < s.len(),
    decreases s.len(),
{
    if s.len() > 0 && s.last() != c {
        lemma_rfind_char_bound(s.drop_last(), c);
    }
}

fn already_downloaded_path_exec(v: &[char]) -> (r: Option<Vec<char>>)
    ensures
        match r {
            Some(p) => already_downloaded_path(v@) == Some(p@),
            None => already_downloaded_path(v@) is None,
        },
{
    if !contains_lit(v, "has already been downloaded") {
        return None;
    }
    let d = chars_of("[download]");
    match find_chars(v, &d) {
        Some(s) => {
            proof {
                lemma_contains(v@, d@);
                assert(occurs_at(v@, d@, s as int));
            }
            let n = v.len();
            let after = slice_range(v, s + d.len(), n);
            assert(after@ =~= v@.skip(s + d@.len()));
            let rest = trim_chars(&after);
            let tail = chars_of(" has already been downloaded");
            match find_chars(&rest, &tail) {
                Some(e) => {
                    proof {
                        lemma_contains(rest@, tail@);
                    }
                    let p = slice_range(&rest, 0, e);
                    assert(p@ =~= rest@.take(e as int));
                    Some(p)
                },
                None => None,
            }
        },
        None => None,
    }
}

/// The output file that the line `line` names, if any (see `line_output_path`).
pub fn output_path_in_line(line: &str) -> (r: Option<String>)
    ensures
        opt_view(r) == line_output_path(line@),
{
    let v = chars_of(line);
    let mut found: Option<Vec<char>> = destination_path_exec(&v);
    match merged_path_exec(&v) {
        Some(p) => {
            found = Some(p);
        },
        None => {},
    }
    match already_downloaded_path_exec(&v) {
        Some(p) => {
            found = Some(p);
        },
        None => {},
    }
    match found {
        Some(p) => Some(string_of(&p)),
        None => None,
    }
}

} // verus!

verus! {

// ---------------------------------------------------------------------
// Following a running download
// ---------------------------------------------------------------------

/// The sizes a progress line reports, in bytes: the total (the last one
/// reported when this line reports none) and the speed per second.
#[derive(Debug, Clone, Copy, PartialEq, Eq, Structural)]
pub struct ProgressSizes {
    pub total: u64,
    pub speed: u64,
}

/// What has been learnt from the output of a running yt-dlp download.
pub struct DownloadMonitor {
    /// The file the download writes, once a line has named it.
    pub output_file: Option<String>,
    /// Every output line so far, in order.
    pub lines: Vec<String>,
    /// The last non-zero total size a progress line reported.
    pub last_total: u64,
}

impl DownloadMonitor {
    /// A monitor that has seen no output.
    pub fn new() -> (m: Self)
        ensures
            m.output_file is None,
            m.lines@.len() == 0,
            m.last_total == 0,
    {
        DownloadMonitor { output_file: None, lines: Vec::new(), last_total: 0 }
    }

    /// Takes one output line: records it, notes the output file it names,
    /// and for a progress line returns its sizes, where a total of 0 stands
    /// for the last total seen.
    pub fn on_output_line(&mut self, line: &str) -> (r: Option<ProgressSizes>)
        ensures
            strings_of(final(self).lines@) == strings_of(old(self).lines@).push(line@),
            opt_view(final(self).output_file) == or_else(
                line_output_path(line@),
                opt_view(old(self).output_file),
            ),
            is_progress_line(line@) ==> {
                let t = word_size(total_size_word(line@));
                &&& final(self).last_total == (if t > 0 { t } else { old(self).last_total as nat })
                &&& r == Some(ProgressSizes {
                    total: final(self).last_total,
                    speed: word_size(speed_word(line@)) as u64,
                })
            },
            !is_progress_line(line@) ==> r is None && final(self).last_total == old(self).last_total,
    {
        let ghost before = strings_of(self.lines@);
        self.lines.push(owned(line));
        assert(strings_of(self.lines@) =~= before.push(line@));
        let v = chars_of(line);
        let mut result: Option<ProgressSizes> = None;
        let pct = ['%'];
        assert(pct@ =~= seq!['%']);
        if contains_lit(&v, "[download]") && contains_chars(&v, &pct) && !contains_lit(
            &v,
            "Destination",
        ) {
            let total = extract_total_size(line);
            let speed = extract_speed(line);
            if total > 0 {
                self.last_total = total;
            }
            result = Some(ProgressSizes { total: self.last_total, speed });
        }
        match output_path_in_line(line) {
            Some(p) => {
                self.output_file = Some(p);
            },
            None => {},
        }
        result
    }

    /// Paths that stdout lines may name when no line named the output file:
    /// each line, trimmed, that is not empty, does not start with `[`, holds
    /// no `%`, and holds a `/` or a `.`; none once the output file is known.
    pub fn unresolved_candidates(&self) -> (r: Vec<String>)
        ensures
            strings_of(r@) == (if self.output_file is Some {
                Seq::empty()
            } else {
                candidate_paths(strings_of(self.lines@))
            }),
    {
        if self.output_file.is_some() {
            let r: Vec<String> = Vec::new();
            assert(strings_of(r@) =~= Seq::<Seq<char>>::empty());
            return r;
        }
        let mut r: Vec<String> = Vec::new();
        let mut k: usize = 0;
        assert(strings_of(self.lines@).take(0) =~= Seq::<Seq<char>>::empty());
        while k < self.lines.len()
            invariant
                k <= self.lines@.len(),
                strings_of(r@) == candidate_paths(strings_of(self.lines@).take(k as int)),
            decreases self.lines@.len() - k,
        {
            let ghost ls = strings_of(self.lines@);
            assert(ls.take(k + 1).drop_last() =~= ls.take(k as int));
            let v = chars_of(self.lines[k].as_str());
            let t = trim_chars(&v);
            if is_path_like_exec(&t) {
                let ghost before = strings_of(r@);
                r.push(string_of(&t));
                assert(strings_of(r@) =~= before.push(t@));
            }
            k = k + 1;
        }
        assert(strings_of(self.lines@).take(self.lines@.len() as int) =~= strings_of(self.lines@));
        r
    }

    /// The error that a failed download reports, for the exit code it ended with.
    pub fn failure_message(&self, code: Option<i32>) -> (r: String)
        ensures
            r@ == failure_text(code, strings_of(self.lines@)),
    {
        let errors = error_lines_exec(&self.lines);
        let mut s = owned("下载失败，退出码: ");
        let c = exit_code_text_exec(code);
        push_chars(&mut s, &c);
        if errors.len() == 0 {
            push_str(&mut s, "\n最后输出:\n");
            let n = self.lines.len();
            let from: usize = if n <= 5 { 0 } else { n - 5 };
            let tail = join_from(&self.lines, from);
            push_chars(&mut s, &tail);
            proof {
                let ls = strings_of(self.lines@);
                assert(ls.skip(from as int) =~= last_lines(ls, 5));
            }
        } else {
            push_str(&mut s, "\n错误信息:\n");
            let body = join_from(&errors, 0);
            assert(strings_of(errors@).skip(0) =~= strings_of(errors@));
            push_chars(&mut s, &body);
        }
        s
    }

    /// The error reported when the download succeeded but no output file
    /// could be found; `dir_text` is the output directory as it is displayed.
    pub fn missing_output_message(&self, dir_text: &str) -> (r: String)
        ensures
            r@ == "无法确定输出文件路径\n输出目录: "@ + dir_text@ + "\nyt-dlp 输出共 "@ + crate::text::decimal(
                self.lines@.len(),
            ) + " 行"@,
    {
        let mut s = owned("无法确定输出文件路径\n输出目录: ");
        push_str(&mut s, dir_text);
        push_str(&mut s, "\nyt-dlp 输出共 ");
        let d = crate::text::u64_to_decimal(self.lines.len() as u64);
        push_chars(&mut s, &d);
        push_str(&mut s, " 行");
        s
    }
}

/// A trimmed stdout line that looks like a file path.
pub open spec fn is_path_like(t: Seq<char>) -> bool {
    &&& t.len() > 0
    &&& t[0] != '['
    &&& !contains(t, seq!['%'])
    &&& (contains(t, seq!['/']) || contains(t, seq!['.']))
}

/// The trimmed lines that look like file paths, in order.
pub open spec fn candidate_paths(lines: Seq<Seq<char>>) -> Seq<Seq<char>>
    decreases lines.len(),
{
    if lines.len() == 0 {
        Seq::empty()
    } else {
        let rest = candidate_paths(lines.drop_last());
        let t = trim(lines.last());
        if is_path_like(t) {
            rest.push(t)
        } else {
            rest
        }
    }
}

fn is_path_like_exec(t: &[char]) -> (b: bool)
    ensures
        b == is_path_like(t@),
{
    let pct = ['%'];
    let slash = ['/'];
    let dot = ['.'];
    assert(pct@ =~= seq!['%']);
    assert(slash@ =~= seq!['/']);
    assert(dot@ =~= seq!['.']);
    t.len() > 0 && t[0] != '[' && !contains_chars(t, &pct) && (contains_chars(t, &slash)
        || contains_chars(t, &dot))
}

/// A line that reports an error or a warning.
pub open spec fn is_error_line(l: Seq<char>) -> bool {
    contains(l, "ERROR"@) || contains(l, "error"@) || contains(l, "警告"@) || contains(l, "Warning"@)
}

/// The error and warning lines, in order.
pub open spec fn error_lines(lines: Seq<Seq<char>>) -> Seq<Seq<char>>
    decreases lines.len(),
{
    if lines.len() == 0 {
        Seq::empty()
    } else {
        let rest = error_lines(lines.drop_last());
        if is_error_line(lines.last()) {
            rest.push(lines.last())
        } else {
            rest
        }
    }
}

/// The last `n` lines (all of them where there are fewer).
pub open spec fn last_lines(lines: Seq<Seq<char>>, n: nat) -> Seq<Seq<char>> {
    if lines.len() <= n {
        lines
    } else {
        lines.skip(lines.len() - n)
    }
}

/// The lines joined with `'\n'` between them.
pub open spec fn join_lines(lines: Seq<Seq<char>>) -> Seq<char>
    decreases lines.len(),
{
    if lines.len() == 0 {
        Seq::empty()
    } else if lines.len() == 1 {
        lines[0]
    } else {
        join_lines(lines.drop_last()) + seq!['\n'] + lines.last()
    }
}

/// An exit code as `{:?}` shows an `Option<i32>`.
pub open spec fn exit_code_text(code: Option<i32>) -> Seq<char> {
    match code {
        Some(n) => "Some("@ + signed_decimal(n as int) + ")"@,
        None => "None"@,
    }
}

/// The error of a failed download: its exit code, then its error and
/// warning lines, or its last five lines where it printed none.
pub open spec fn failure_text(code: Option<i32>, lines: Seq<Seq<char>>) -> Seq<char> {
    let errors = error_lines(lines);
    if errors.len() == 0 {
        "下载失败，退出码: "@ + exit_code_text(code) + "\n最后输出:\n"@ + join_lines(last_lines(lines, 5))
    } else {
        "下载失败，退出码: "@ + exit_code_text(code) + "\n错误信息:\n"@ + join_lines(errors)
    }
}

fn exit_code_text_exec(code: Option<i32>) -> (r: Vec<char>)
    ensures
        r@ == exit_code_text(code),
{
    match code {
        Some(n) => {
            let mut s = owned("Some(");
            let d = i64_to_decimal(n as i64);
            push_chars(&mut s, &d);
            push_str(&mut s, ")");
            chars_of(s.as_str())
        },
        None => chars_of("None"),
    }
}

fn error_lines_exec(lines: &Vec<String>) -> (r: Vec<String>)
    ensures
        strings_of(r@) == error_lines(strings_of(lines@)),
{
    let mut r: Vec<String> = Vec::new();
    let mut k: usize = 0;
    assert(strings_of(lines@).take(0) =~= Seq::<Seq<char>>::empty());
    while k < lines.len()
        invariant
            k <= lines@.len(),
            strings_of(r@) == error_lines(strings_of(lines@).take(k as int)),
        decreases lines@.len() - k,
    {
        let ghost ls = strings_of(lines@);
        assert(ls.take(k + 1).drop_last() =~= ls.take(k as int));
        let v = chars_of(lines[k].as_str());
        if contains_lit(&v, "ERROR") || contains_lit(&v, "error") || contains_lit(&v, "警告")
            || contains_lit(&v, "Warning") {
            let ghost before = strings_of(r@);
            r.push(owned(lines[k].as_str()));
            assert(strings_of(r@) =~= before.push(v@));
        }
        k = k + 1;
    }
    assert(strings_of(lines@).take(lines@.len() as int) =~= strings_of(lines@));
    r
}

/// The lines from position `from` on, joined with `'\n'`.
fn join_from(lines: &Vec<String>, from: usize) -> (r: Vec<char>)
    requires
        from <= lines@.len(),
    ensures
        r@ == join_lines(strings_of(lines@).skip(from as int)),
{
    let ghost ls = strings_of(lines@).skip(from as int);
    let mut r: Vec<char> = Vec::new();
    let mut k: usize = from;
    assert(ls.take(0) =~= Seq::<Seq<char>>::empty());
    while k < lines.len()
        invariant
            from <= k <= lines@.len(),
            ls == strings_of(lines@).skip(from as int),
            r@ == join_lines(ls.take(k - from)),
        decreases lines@.len() - k,
    {
        let v = chars_of(lines[k].as_str());
        let ghost prev = ls.take(k - from);
        assert(ls.take(k - from + 1).drop_last() =~= prev);
        if k > from {
            r.push('\n');
        }
        let mut i: usize = 0;
        let ghost start = r@;
        while i < v.len()
            invariant
                i <= v@.len(),
                r@ == start + v@.take(i as int),
            decreases v@.len() - i,
        {
            r.push(v[i]);
            i = i + 1;
            assert(r@ =~= start + v@.take(i as int));
        }
        assert(v@.take(v@.len() as int) =~= v@);
        proof {
            let next = ls.take(k - from + 1);
            assert(next.last() == v@);
            if k == from {
                assert(next.len() == 1);
                assert(r@ =~= next[0]);
            } else {
                assert(r@ =~= join_lines(prev) + seq!['\n'] + v@);
            }
        }
        k = k + 1;
    }
    assert(ls.take(lines@.len() - from) =~= ls);
    r
}

} // verus!
