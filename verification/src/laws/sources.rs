//! Laws of the sources of telemetry: lines, log files and connections.
use crate::connections::{ClientConnection, ConnectionPool};
use crate::connections;
use crate::framing::{Frame, FrameView, FramerView, LineFramer};
use crate::framing;
use crate::patterns;
use crate::text;
use crate::tracking::LogDescriptor;
use crate::tracking;
use vstd::prelude::*;

verus! {

/// A line that is ended before it is too long is found as it stands, and reading goes on
/// afresh behind it.
pub proof fn law_ended_lines_are_found(line: Seq<u8>)
    requires
        line.len() < 8192,
        forall|i: int| 0 <= i < line.len() ==> #[trigger] line[i] != 10,
    ensures
        framing::frame(framing::start(), line.push(10)).1 == seq![FrameView::Line { bytes: line }],
        framing::frame(framing::start(), line.push(10)).0 == framing::start(),
        framing::frame(framing::start(), line).1.len() == 0,
        framing::frame(framing::start(), line).0.pending == line,
        !framing::frame(framing::start(), line).0.discarding,
    decreases line.len(),
{
    assert(line.push(10).drop_last() =~= line);
    if line.len() > 0 {
        let less = line.drop_last();
        assert forall|i: int| 0 <= i < less.len() implies #[trigger] less[i] != 10 by {
            assert(less[i] == line[i]);
        }
        law_ended_lines_are_found(less);
        assert(line[line.len() - 1] != 10);
        assert(framing::frame(framing::start(), line).1 =~= Seq::<FrameView>::empty());
        assert(framing::frame(framing::start(), line).0.pending =~= line);
    } else {
        assert(framing::start().pending =~= line);
    }
    let (state, found) = framing::frame(framing::start(), line);
    assert(state.pending == line && !state.discarding && found.len() == 0);
    assert(framing::frame_byte(state, 10).1 =~= seq![FrameView::Line { bytes: line }]);
    assert(framing::frame(framing::start(), line.push(10)).1 =~= found + framing::frame_byte(
        state,
        10,
    ).1);
    assert(framing::frame(framing::start(), line.push(10)).1 =~= seq![
        FrameView::Line { bytes: line },
    ]);
}

/// At its 8192nd byte a line is too long: that is reported once, what was kept of it is
/// dropped, and its rest is passed over up to its end.
pub proof fn law_too_long_lines_are_passed_over(state: FramerView, byte: u8)
    ensures
        byte != 10 && !state.discarding && state.pending.len() == 8191 ==> framing::frame_byte(
            state,
            byte,
        ) == (
            FramerView { pending: Seq::empty(), discarding: true },
            seq![FrameView::Overflow],
        ),
        byte != 10 && state.discarding ==> framing::frame_byte(state, byte) == (
            state,
            Seq::<FrameView>::empty(),
        ),
        byte == 10 && state.discarding ==> framing::frame_byte(state, byte) == (
            FramerView { pending: Seq::empty(), discarding: false },
            Seq::<FrameView>::empty(),
        ),
        byte != 10 && !state.discarding && state.pending.len() < 8191 ==> framing::frame_byte(
            state,
            byte,
        ) == (
            FramerView { pending: state.pending.push(byte), discarding: false },
            Seq::<FrameView>::empty(),
        ),
{
}

/// A framer starts with nothing, and what it and its frames hold is what their fields
/// hold.
pub proof fn law_framers_show_their_fields(framer: LineFramer, frame: Frame)
    ensures
        framing::start().pending.len() == 0 && !framing::start().discarding,
        framer@.pending == framer.pending@ && framer@.discarding == framer.discarding,
        frame matches Frame::Line { bytes } ==> frame@ == (FrameView::Line { bytes: bytes@ }),
        frame is Overflow ==> frame@ is Overflow,
        framer@.bounded() ==> framer.pending@.len() < 8192,
{
}

/// The log directory is trusted only if it is the superuser's and others may not write to
/// it, whatever else its mode allows.
pub proof fn law_directories_are_trusted_by_owner_and_mode(uid: u32, mode: u32)
    ensures
        tracking::is_trusted_directory(uid, mode) <==> uid == 0 && (mode / 2) % 2 == 0,
{
    assert((mode & 2 == 0) <==> (mode / 2) % 2 == 0) by (bit_vector);
}

/// A log file is called anything, so long as it is something, and then ".boot".
pub proof fn law_log_files_end_in_boot(stem: Seq<char>, name: Seq<char>)
    ensures
        stem.len() > 0 ==> tracking::is_log_name(stem + ".boot"@),
        tracking::is_log_name(name) ==> name.len() > ".boot"@.len() && name == name.take(
            name.len() - ".boot"@.len(),
        ) + ".boot"@,
        !tracking::is_log_name(".boot"@),
{
    let whole = stem + ".boot"@;
    assert(whole.subrange(whole.len() - ".boot"@.len(), whole.len() as int) =~= ".boot"@);
    if tracking::is_log_name(name) {
        assert(name =~= name.take(name.len() - ".boot"@.len()) + ".boot"@);
    }
}

/// A file is read on from where reading ended if it is known under its path with the same
/// inode, and from its beginning in any other case.
pub proof fn law_unknown_files_are_read_from_the_start(
    files: Map<Seq<char>, LogDescriptor>,
    path: Seq<char>,
    inode: u64,
)
    ensures
        !files.contains_key(path) ==> tracking::resume_position(files, path, inode) == 0,
        files.contains_key(path) && files[path].inode == inode ==> tracking::resume_position(
            files,
            path,
            inode,
        ) == files[path].position,
        files.contains_key(path) && files[path].inode != inode ==> tracking::resume_position(
            files,
            path,
            inode,
        ) == 0,
{
}

/// What is remembered of one file does not change from where another is read.
pub proof fn law_files_do_not_disturb_each_other(
    files: Map<Seq<char>, LogDescriptor>,
    path: Seq<char>,
    other: Seq<char>,
    known: LogDescriptor,
    inode: u64,
)
    requires
        path != other,
    ensures
        tracking::resume_position(files.insert(other, known), path, inode)
            == tracking::resume_position(files, path, inode),
{
}

/// The container of a file is the one whose ID stands as a word in its name.
pub proof fn law_file_names_hold_the_container(name: Seq<char>)
    ensures
        tracking::id_in_name(name) == patterns::pattern_group(
            r"\b([a-fA-F0-9]{12}|[a-fA-F0-9]{64})\b"@,
            name,
            1,
        ),
{
}

/// The paths that were seen are those of the list.
pub proof fn law_seen_paths_are_listed(paths: Seq<String>, path: Seq<char>)
    ensures
        tracking::path_set(paths).contains(path) <==> exists|i: int|
            0 <= i < paths.len() && (#[trigger] paths[i])@ == path,
{
    let views = text::views(paths);
    if tracking::path_set(paths).contains(path) {
        let k = choose|k: int| 0 <= k < views.len() && views[k] == path;
        assert(paths[k]@ == path);
    }
    if exists|i: int| 0 <= i < paths.len() && (#[trigger] paths[i])@ == path {
        let k = choose|i: int| 0 <= i < paths.len() && (#[trigger] paths[i])@ == path;
        assert(views[k] == path);
    }
}

/// What the log says of a connection that is not the superuser's names its user.
pub proof fn law_rejected_connections_are_logged(uid: u32)
    ensures
        connections::rejection_entry(uid).level == "WARN"@,
        connections::rejection_entry(uid).component == "uds_server"@,
        connections::rejection_entry(uid).status == "REJECTED"@,
        connections::rejection_entry(uid).action == Some("trust_boundary"@),
        connections::rejection_entry(uid).details == "Unauthorized UID "@ + text::decimal(
            uid as nat,
        ) + " attempted UDS connection. Payload dropped."@,
        connections::rejection_entry(uid).container_id is None,
{
}

/// The open line of a connection grows by every byte and begins anew at a newline, however
/// its bytes come.
pub proof fn law_open_lines_begin_anew_at_a_newline(
    held: nat,
    first: Seq<u8>,
    second: Seq<u8>,
    byte: u8,
)
    ensures
        connections::open_length(held, Seq::<u8>::empty()) == held,
        connections::open_length(held, first.push(10)) == 0,
        byte != 10 ==> connections::open_length(held, first.push(byte)) == connections::open_length(
            held,
            first,
        ) + 1,
        connections::open_length(held, first + second) == connections::open_length(
            connections::open_length(held, first),
            second,
        ),
    decreases second.len(),
{
    assert(first.push(10).drop_last() =~= first);
    assert(first.push(byte).drop_last() =~= first);
    if second.len() == 0 {
        assert(first + second =~= first);
    } else {
        law_open_lines_begin_anew_at_a_newline(held, first, second.drop_last(), byte);
        assert((first + second).drop_last() =~= first + second.drop_last());
        assert((first + second).last() == second.last());
    }
}

/// Tokens follow each other and begin anew with one after a million; zero is never one.
pub proof fn law_tokens_go_round(token: usize)
    requires
        1 <= token <= 1000000,
    ensures
        token < 1000000 ==> connections::following_token(token) == token + 1,
        token == 1000000 ==> connections::following_token(token) == 1,
        1 <= connections::following_token(token) <= 1000000,
{
}

/// A pool serves no more than fifty connections, none of which holds more than 65536 bytes
/// of an open line.
pub proof fn law_pools_are_bounded(pool: ConnectionPool, connection: ClientConnection, token: usize)
    ensures
        pool.valid() ==> pool.clients@.len() <= 50 && 1 <= pool.next_token <= 1000000,
        pool.valid() && pool.clients@.contains_key(token) ==> pool.clients@[token].valid(),
        connection.valid() ==> connection.held <= 65536 && connection.framer.pending@.len() < 8192,
{
}

/// Lists of frames are seen frame by frame.
pub proof fn law_frame_lists_show_their_frames(frames: Seq<Frame>, i: int)
    ensures
        framing::frame_views(frames).len() == frames.len(),
        0 <= i < frames.len() ==> framing::frame_views(frames)[i] == frames[i]@,
{
}

} // verus!
