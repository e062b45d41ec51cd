//! Tracking of log files: which of them are read, from where, and what is remembered
//! from one scan of the directory to the next.
use crate::events;
use crate::framing::{FrameView, MAX_LINE_SIZE};
use crate::framing;
use crate::http::NEWLINE;
use crate::logger::{LogEvent, LogEventView};
use crate::patterns::{captured_group, word_id_expression};
use crate::patterns;
use crate::text;
use vstd::hash_map::StringHashMap;
use vstd::prelude::*;

verus! {

/// The bit of a file mode that lets everyone write.
pub const WORLD_WRITABLE: u32 = 0o002;

/// The ending of the names of log files.
pub const LOG_SUFFIX: &'static str = ".boot";

/// What is remembered of a file.
#[derive(Debug, Clone, Copy, PartialEq, Eq, Structural)]
pub struct LogDescriptor {
    pub inode: u64,
    pub position: u64,
}

/// The log directory is the superuser's, and not everyone may write to it.
pub open spec fn is_trusted_directory(uid: u32, mode: u32) -> bool {
    uid == 0 && mode & WORLD_WRITABLE == 0
}

/// Judges the owner and the mode of the log directory. If it cannot be trusted, it is
/// not read, and the log says so.
pub fn audit_directory(uid: u32, mode: u32) -> (r: Option<LogEvent>)
    ensures
        r is None <==> is_trusted_directory(uid, mode),
        r is Some ==> r->0@ == LogEventView::plain(
            "CRITICAL"@,
            "orchestrator"@,
            "HALTED"@,
            "Log directory is not owned by root or is world-writable. File mode suspended to prevent spoofing."@,
        ).on_action("directory_audit"@),
{
    if uid != 0 || mode & WORLD_WRITABLE != 0 {
        return Some(
            LogEvent::plain(
                "CRITICAL",
                "orchestrator",
                "HALTED",
                "Log directory is not owned by root or is world-writable. File mode suspended to prevent spoofing.".to_owned(),
            ).on_action("directory_audit"),
        );
    }
    None
}

/// A file name with the ending of log files and something before it.
pub open spec fn is_log_name(name: Seq<char>) -> bool {
    LOG_SUFFIX@.is_suffix_of(name) && name.len() > LOG_SUFFIX@.len()
}

/// Whether a file name has the ending of log files and something before it.
pub fn is_log_file(name: &str) -> (r: bool)
    ensures
        r == is_log_name(name@),
{
    proof {
        if LOG_SUFFIX@.is_suffix_of(name@) && name@.len() == LOG_SUFFIX@.len() {
            assert(name@ =~= LOG_SUFFIX@);
        }
    }
    text::ends_with(name, LOG_SUFFIX) && !text::same_text(name, LOG_SUFFIX)
}

/// What is to be done about an entry of the directory.
#[derive(Debug)]
pub enum FileStep {
    /// It is not a log file.
    NotALog,
    /// It was there before the start, so only what is added to it counts.
    Remembered,
    /// It is to be read from a position on. If its name holds a container ID, its lines
    /// are about that container; else each line names its own.
    Read { container_id: Option<String>, position: u64 },
}

/// What is remembered of the log files.
pub struct FileTracker {
    pub files: StringHashMap<LogDescriptor>,
    pub seen: Vec<String>,
    pub first_run: bool,
}

/// The paths of a list.
pub open spec fn path_set(paths: Seq<String>) -> Set<Seq<char>> {
    text::views(paths).to_set()
}

/// From where a file is read on: from where reading ended, if it is still the same
/// file.
pub open spec fn resume_position(
    files: Map<Seq<char>, LogDescriptor>,
    path: Seq<char>,
    inode: u64,
) -> u64 {
    if files.contains_key(path) && files[path].inode == inode {
        files[path].position
    } else {
        0
    }
}

/// The container ID in the name of a file.
pub open spec fn id_in_name(name: Seq<char>) -> Option<Seq<char>> {
    patterns::pattern_group(patterns::WORD_ID_PATTERN@, name, 1)
}

impl FileTracker {
    /// Nothing is known of any file.
    pub fn new() -> (r: Self)
        ensures
            r.files@ == Map::<Seq<char>, LogDescriptor>::empty(),
            r.seen@.len() == 0,
            r.first_run,
    {
        let seen: Vec<String> = Vec::new();
        FileTracker { files: StringHashMap::new(), seen, first_run: true }
    }

    /// Decides about an entry of the directory, if it is known which container its
    /// name speaks of.
    pub fn observe_named(
        &mut self,
        path: String,
        is_log: bool,
        container_id: Option<String>,
        inode: u64,
        length: Option<u64>,
    ) -> (r: FileStep)
        ensures
            final(self).first_run == old(self).first_run,
            final(self).seen@ == (if is_log {
                old(self).seen@.push(path)
            } else {
                old(self).seen@
            }),
            r is NotALog <==> !is_log,
            r is Remembered <==> is_log && old(self).first_run,
            r matches FileStep::Read { container_id: id, position } ==> id == container_id
                && position == resume_position(old(self).files@, path@, inode),
            final(self).files@ == (if r is Remembered && length is Some {
                old(self).files@.insert(path@, LogDescriptor { inode, position: length->0 })
            } else {
                old(self).files@
            }),
    {
        if !is_log {
            return FileStep::NotALog;
        }
        self.seen.push(path.clone());
        if self.first_run {
            if let Some(position) = length {
                self.files.insert(path, LogDescriptor { inode, position });
            }
            return FileStep::Remembered;
        }
        let position: u64 = match self.files.get(path.as_str()) {
            Some(known) => if known.inode == inode {
                known.position
            } else {
                0
            },
            None => 0,
        };
        FileStep::Read { container_id, position }
    }

    /// Decides about an entry of the directory by its path, its name, its inode and
    /// its length, as far as it is known.
    pub fn observe(
        &mut self,
        path: String,
        name: &str,
        inode: u64,
        length: Option<u64>,
    ) -> (r: FileStep)
        ensures
            final(self).first_run == old(self).first_run,
            final(self).seen@ == (if is_log_name(name@) {
                old(self).seen@.push(path)
            } else {
                old(self).seen@
            }),
            r is NotALog <==> !is_log_name(name@),
            r is Remembered <==> is_log_name(name@) && old(self).first_run,
            r matches FileStep::Read { container_id, position } ==> patterns::option_view(
                container_id,
            ) == id_in_name(name@) && (container_id is Some ==> patterns::is_container_id(
                container_id->0@,
            )) && position == resume_position(old(self).files@, path@, inode),
            final(self).files@ == (if r is Remembered && length is Some {
                old(self).files@.insert(path@, LogDescriptor { inode, position: length->0 })
            } else {
                old(self).files@
            }),
    {
        let is_log = is_log_file(name);
        let id = captured_group(&word_id_expression(), name, 1);
        self.observe_named(path, is_log, id, inode, length)
    }

    /// Remembers up to where a file was read.
    pub fn record(&mut self, path: String, inode: u64, position: u64)
        ensures
            final(self).files@ == old(self).files@.insert(path@, LogDescriptor { inode, position }),
            final(self).seen@ == old(self).seen@,
            final(self).first_run == old(self).first_run,
    {
        self.files.insert(path, LogDescriptor { inode, position });
    }

    /// Ends a scan: files that are no longer there are forgotten.
    pub fn finish_scan(&mut self)
        ensures
            final(self).files@ == old(self).files@.restrict(path_set(old(self).seen@)),
            final(self).seen@.len() == 0,
            !final(self).first_run,
    {
        let ghost before = self.files@;
        let ghost paths = text::views(self.seen@);
        let mut kept: StringHashMap<LogDescriptor> = StringHashMap::new();
        let mut i: usize = 0;
        assert(kept@ =~= before.restrict(paths.take(0).to_set()));
        while i < self.seen.len()
            invariant
                i <= self.seen@.len(),
                before == self.files@,
                before == old(self).files@,
                self.seen@ == old(self).seen@,
                paths == text::views(self.seen@),
                kept@ == before.restrict(paths.take(i as int).to_set()),
            decreases self.seen@.len() - i,
        {
            let path = self.seen[i].as_str();
            let ghost earlier = paths.take(i as int).to_set();
            let ghost now = paths.take(i + 1).to_set();
            proof {
                assert(now =~= earlier.insert(path@)) by {
                    assert(paths.take(i + 1) =~= paths.take(i as int).push(path@));
                    assert forall|x: Seq<char>| earlier.insert(path@).contains(
                        x,
                    ) implies now.contains(x) by {
                        if x == path@ {
                            assert(paths.take(i + 1)[i as int] == x);
                        } else {
                            let k = choose|k: int| 0 <= k < i && paths.take(i as int)[k] == x;
                            assert(paths.take(i + 1)[k] == x);
                        }
                    }
                }
            }
            match self.files.get(path) {
                Some(known) => {
                    kept.insert(path.to_owned(), *known);
                },
                None => {},
            }
            assert(kept@ =~= before.restrict(now));
            i += 1;
        }
        assert(paths.take(i as int) =~= paths);
        self.files = kept;
        self.seen = Vec::new();
        self.first_run = false;
    }
}

/// A file that was read up to a position is read on from there if it is still the
/// same file, and from its beginning if another one stands in its place.
pub proof fn law_reading_resumes(
    files: Map<Seq<char>, LogDescriptor>,
    path: Seq<char>,
    inode: u64,
    other: u64,
    position: u64,
)
    requires
        inode != other,
    ensures
        resume_position(files.insert(path, LogDescriptor { inode, position }), path, inode)
            == position,
        resume_position(files.insert(path, LogDescriptor { inode, position }), path, other) == 0,
{
}

/// The texts of the lines among frames, in order: lines that are too long have none, and
/// neither have blank ones.
pub open spec fn frame_texts(frames: Seq<FrameView>) -> Seq<Seq<char>>
    decreases frames.len(),
{
    if frames.len() == 0 {
        Seq::empty()
    } else {
        let before = frame_texts(frames.drop_last());
        match frames.last() {
            FrameView::Line { bytes } => if framing::line_words(bytes).len() > 0 {
                before.push(framing::line_words(bytes))
            } else {
                before
            },
            FrameView::Overflow => before,
        }
    }
}

/// A file that holds whole lines only.
pub open spec fn whole_lines(content: Seq<u8>) -> bool {
    content.len() == 0 || content.last() == NEWLINE
}

/// What is found by the scans `1` to `n` of a file that held `contents[i]` at scan `i`,
/// where `recorded[i]` was remembered of the files at the end of scan `i` and `seen[i]`
/// are the paths that it came by. Each scan reads on from where the one before it ended.
pub open spec fn found_by_scans(
    path: Seq<char>,
    inode: u64,
    contents: Seq<Seq<u8>>,
    recorded: Seq<Map<Seq<char>, LogDescriptor>>,
    seen: Seq<Set<Seq<char>>>,
    n: nat,
) -> Seq<FrameView>
    decreases n,
{
    if n == 0 {
        Seq::empty()
    } else {
        let kept = recorded[n - 1].restrict(seen[n - 1]);
        found_by_scans(path, inode, contents, recorded, seen, (n - 1) as nat) + framing::frame(
            framing::start(),
            contents[n as int].skip(resume_position(kept, path, inode) as int),
        ).1
    }
}

/// At each scan the file stood under its path with the same inode, and its length was
/// recorded as the position up to which it was read. It grew from scan to scan by whole
/// lines.
pub open spec fn grows_by_lines(
    path: Seq<char>,
    inode: u64,
    contents: Seq<Seq<u8>>,
    recorded: Seq<Map<Seq<char>, LogDescriptor>>,
    seen: Seq<Set<Seq<char>>>,
) -> bool {
    &&& contents.len() > 0
    &&& recorded.len() == contents.len()
    &&& seen.len() == contents.len()
    &&& forall|i: int|
        0 <= i < contents.len() ==> whole_lines(#[trigger] contents[i]) && contents[i].len()
            <= u64::MAX
    &&& forall|i: int, j: int|
        0 <= i <= j < contents.len() ==> (#[trigger] contents[i]).is_prefix_of(
            #[trigger] contents[j],
        )
    &&& forall|i: int|
        0 <= i < contents.len() ==> (#[trigger] recorded[i]).contains_key(path)
            && recorded[i][path] == (LogDescriptor { inode, position: contents[i].len() as u64 })
    &&& forall|i: int| 0 <= i < contents.len() ==> (#[trigger] seen[i]).contains(path)
}

/// Reading a stream of whole lines leaves nothing unfinished.
proof fn lemma_whole_lines_leave_nothing(bytes: Seq<u8>)
    requires
        whole_lines(bytes),
    ensures
        framing::frame(framing::start(), bytes).0 == framing::start(),
        text::split_seq(bytes, NEWLINE).last().len() == 0,
{
    framing::law_frames_are_the_lines(bytes);
    assert(text::split_seq(bytes, NEWLINE).last() =~= Seq::<u8>::empty());
}

/// Frames of lines that are short enough have the texts of the lines.
proof fn lemma_frame_texts(lines: Seq<Seq<u8>>)
    requires
        forall|i: int| 0 <= i < lines.len() ==> (#[trigger] lines[i]).len() < MAX_LINE_SIZE,
    ensures
        frame_texts(lines.map_values(|line: Seq<u8>| framing::line_frame(line)))
            == events::line_texts(lines),
    decreases lines.len(),
{
    let as_frame = |line: Seq<u8>| framing::line_frame(line);
    let frames = lines.map_values(as_frame);
    if lines.len() > 0 {
        let before = lines.drop_last();
        assert forall|i: int| 0 <= i < before.len() implies (#[trigger] before[i]).len()
            < MAX_LINE_SIZE by {
            assert(before[i] == lines[i]);
        }
        lemma_frame_texts(before);
        assert(frames.drop_last() =~= before.map_values(as_frame));
        assert(lines[lines.len() - 1].len() < MAX_LINE_SIZE);
        assert(frames.last() == framing::line_frame(lines.last()));
    }
}

/// A log file that was there at the first scan, and has grown since by whole lines, is
/// read exactly once: over all later scans the lines of what was added are found, each
/// once and in order, and none of those that were there before. If none of the added
/// lines is too long, the texts that are evaluated are those of the added lines, blank
/// ones left out.
pub proof fn law_added_lines_are_read_once(
    path: Seq<char>,
    inode: u64,
    contents: Seq<Seq<u8>>,
    recorded: Seq<Map<Seq<char>, LogDescriptor>>,
    seen: Seq<Set<Seq<char>>>,
    n: nat,
)
    requires
        grows_by_lines(path, inode, contents, recorded, seen),
        n < contents.len(),
    ensures
        ({
            let added = contents[n as int].skip(contents[0].len() as int);
            let lines = text::split_seq(added, NEWLINE).drop_last();
            let found = found_by_scans(path, inode, contents, recorded, seen, n);
            &&& found == lines.map_values(|line: Seq<u8>| framing::line_frame(line))
            &&& (forall|i: int|
                0 <= i < lines.len() ==> (#[trigger] lines[i]).len() < MAX_LINE_SIZE)
                ==> frame_texts(found) == events::line_texts(lines)
        }),
    decreases n,
{
    let first = contents[0];
    let now = contents[n as int];
    assert(first.is_prefix_of(now));
    let added = now.skip(first.len() as int);
    let lines = text::split_seq(added, NEWLINE).drop_last();
    let as_frame = |line: Seq<u8>| framing::line_frame(line);
    let found = found_by_scans(path, inode, contents, recorded, seen, n);
    assert(whole_lines(now));
    assert(whole_lines(added));
    lemma_whole_lines_leave_nothing(added);
    framing::law_frames_are_the_lines(added);
    if n == 0 {
        assert(added =~= Seq::<u8>::empty());
        assert(framing::frame(framing::start(), added).1 =~= found);
    } else {
        let last = n - 1;
        law_added_lines_are_read_once(path, inode, contents, recorded, seen, last as nat);
        let before = contents[last];
        assert(before.is_prefix_of(now));
        assert(first.is_prefix_of(before));
        assert(whole_lines(before));
        let earlier = before.skip(first.len() as int);
        let fresh = now.skip(before.len() as int);
        assert(earlier + fresh =~= added);
        assert(whole_lines(earlier));
        lemma_whole_lines_leave_nothing(earlier);
        framing::law_frames_are_the_lines(earlier);
        framing::law_framing_ignores_chunks(framing::start(), earlier, fresh);
        assert(recorded[last].contains_key(path));
        assert(seen[last].contains(path));
        let kept = recorded[last].restrict(seen[last]);
        assert(kept.contains_key(path));
        assert(resume_position(kept, path, inode) == before.len());
        assert(found =~= framing::frame(framing::start(), added).1);
    }
    assert(found =~= lines.map_values(as_frame));
    if forall|i: int| 0 <= i < lines.len() ==> (#[trigger] lines[i]).len() < MAX_LINE_SIZE {
        lemma_frame_texts(lines);
    }
}

/// A file counts only if it is the superuser's, where its owner is known.
pub fn is_trusted_file(owner: Option<u32>) -> (r: bool)
    ensures
        r == (owner is None || owner == Some(0u32)),
{
    match owner {
        Some(uid) => uid == 0,
        None => true,
    }
}

/// What the log says when a file cannot be read from a position on.
pub fn seek_failure_event(cause: &str) -> (r: LogEvent)
    ensures
        r@ == LogEventView::plain(
            "ERROR"@,
            "orchestrator"@,
            "FAILURE"@,
            "Failed to seek to target stream pointer: "@ + cause@,
        ).on_action("seek"@),
{
    let mut details = "Failed to seek to target stream pointer: ".to_owned();
    details.append(cause);
    LogEvent::plain("ERROR", "orchestrator", "FAILURE", details).on_action("seek")
}

} // verus!
