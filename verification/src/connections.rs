//! Connections to the telemetry socket: who may connect, how many may at a time, and
//! what is read from each.
use crate::containers::extract_id_from_lines;
use crate::containers;
use crate::framing::{Frame, LineFramer};
use crate::framing;
use crate::http::NEWLINE;
use crate::logger::{LogEvent, LogEventView};
use crate::patterns::cgroup_id_expression;
use crate::patterns;
use crate::text;
use std::collections::HashMap;
use vstd::prelude::*;

verus! {

broadcast use vstd::std_specs::hash::group_hash_axioms;

/// How many connections are served at a time.
pub const MAX_UDS_CONNECTIONS: usize = 50;

/// The first token of a connection.
pub const FIRST_CLIENT_TOKEN: usize = 1;

/// The last token of a connection; the first one follows it.
pub const LAST_CLIENT_TOKEN: usize = 1000000;

/// The most bytes that a connection may send without ending a line.
pub const MAX_CONNECTION_BUFFER: usize = 65536;

/// Whether a connection is taken.
#[derive(Debug)]
pub enum PeerVerdict {
    /// It comes from the superuser.
    Trusted { pid: i32 },
    /// It does not, and the log says so.
    Rejected { event: LogEvent },
    /// It is not known whom it comes from.
    Unknown,
}

/// What the log says of a connection that is not the superuser's.
pub open spec fn rejection_entry(uid: u32) -> LogEventView {
    LogEventView::plain(
        "WARN"@,
        "uds_server"@,
        "REJECTED"@,
        "Unauthorized UID "@ + text::decimal(uid as nat)
            + " attempted UDS connection. Payload dropped."@,
    ).on_action("trust_boundary"@)
}

/// Judges a connection by the user and the process that it comes from.
pub fn judge_peer(credentials: Option<(u32, i32)>) -> (r: PeerVerdict)
    ensures
        r is Unknown <==> credentials is None,
        r matches PeerVerdict::Trusted { pid } ==> credentials == Some((0u32, pid)),
        r is Rejected <==> credentials is Some && (credentials->0).0 != 0,
        r matches PeerVerdict::Rejected { event } ==> event@ == rejection_entry((credentials->0).0),
{
    match credentials {
        None => PeerVerdict::Unknown,
        Some((uid, pid)) => {
            if uid != 0 {
                let mut details = "Unauthorized UID ".to_owned();
                details.append(text::decimal_text(uid as u64).as_str());
                details.append(" attempted UDS connection. Payload dropped.");
                return PeerVerdict::Rejected {
                    event: LogEvent::plain("WARN", "uds_server", "REJECTED", details).on_action(
                        "trust_boundary",
                    ),
                };
            }
            PeerVerdict::Trusted { pid }
        },
    }
}

/// The container of a process, by the lines of its control group listing. It counts
/// only if the process entry belongs to the user of the connection, and the process
/// that was asked about still runs once the listing is open.
pub fn identify_peer(
    peer_uid: u32,
    entry_owner: Option<u32>,
    still_runs: bool,
    listing: Option<Vec<String>>,
) -> (r: Option<String>)
    ensures
        patterns::option_view(r) == (if entry_owner == Some(peer_uid) && still_runs && listing is Some {
            containers::first_capture(patterns::CGROUP_ID_PATTERN@, text::views(listing->0@))
        } else {
            None
        }),
        r is Some ==> patterns::is_container_id(r->0@),
{
    match entry_owner {
        Some(owner) if owner == peer_uid && still_runs => match listing {
            Some(lines) => extract_id_from_lines(&lines, &cgroup_id_expression()),
            None => None,
        },
        _ => None,
    }
}

/// How many bytes stand behind the last newline, if `held` stood there before.
pub open spec fn open_length(held: nat, bytes: Seq<u8>) -> nat
    decreases bytes.len(),
{
    if bytes.len() == 0 {
        held
    } else if bytes.last() == NEWLINE {
        0
    } else {
        open_length(held, bytes.drop_last()) + 1
    }
}

/// A connection: the line that is coming in, and the container that it speaks for.
pub struct ClientConnection {
    pub framer: LineFramer,
    pub held: usize,
    pub container_id: Option<String>,
}

/// What came of a read.
#[derive(Debug)]
pub enum Received {
    /// The connection sent too much without ending a line, and is to be closed.
    Flooded,
    /// What the read completed.
    Frames { frames: Vec<Frame> },
}

impl ClientConnection {
    /// The line that is coming in is within its limits.
    pub open spec fn valid(self) -> bool {
        &&& self.framer@.bounded()
        &&& self.held <= MAX_CONNECTION_BUFFER
    }

    /// A connection from which nothing was read.
    pub fn new(container_id: Option<String>) -> (r: Self)
        ensures
            r.valid(),
            r.framer@ == framing::start(),
            r.held == 0,
            r.container_id == container_id,
    {
        ClientConnection { framer: LineFramer::new(), held: 0, container_id }
    }

    /// Takes in what was read. If that is too much without an end of line, what was
    /// kept of the line is dropped.
    pub fn receive(&mut self, bytes: &[u8]) -> (r: Received)
        requires
            old(self).valid(),
        ensures
            final(self).valid(),
            final(self).container_id == old(self).container_id,
            r is Flooded <==> old(self).held + bytes@.len() > MAX_CONNECTION_BUFFER,
            r is Flooded ==> final(self).framer@ == framing::start() && final(self).held == 0,
            r matches Received::Frames { frames } ==> framing::frame_views(frames@)
                == framing::frame(old(self).framer@, bytes@).1 && final(self).framer@
                == framing::frame(old(self).framer@, bytes@).0 && final(self).held == open_length(
                old(self).held as nat,
                bytes@,
            ),
    {
        if bytes.len() > MAX_CONNECTION_BUFFER - self.held {
            self.framer = LineFramer::new();
            self.held = 0;
            return Received::Flooded;
        }
        let mut open: usize = self.held;
        let mut i: usize = 0;
        assert(bytes@.take(0) =~= Seq::<u8>::empty());
        while i < bytes.len()
            invariant
                i <= bytes@.len(),
                self.held == old(self).held,
                self.framer == old(self).framer,
                self.container_id == old(self).container_id,
                old(self).held + bytes@.len() <= MAX_CONNECTION_BUFFER,
                open <= old(self).held + i,
                open == open_length(old(self).held as nat, bytes@.take(i as int)),
            decreases bytes@.len() - i,
        {
            assert(bytes@.take(i + 1).drop_last() =~= bytes@.take(i as int));
            assert(bytes@.take(i + 1).last() == bytes@[i as int]);
            if bytes[i] == NEWLINE {
                open = 0;
            } else {
                open = open + 1;
            }
            i += 1;
        }
        assert(bytes@.take(i as int) =~= bytes@);
        self.held = open;
        Received::Frames { frames: self.framer.feed(bytes) }
    }
}

/// The connections that are served, and what is known of those that wait.
pub struct ConnectionPool {
    pub clients: HashMap<usize, ClientConnection>,
    pub next_token: usize,
    pub backlog_pending: bool,
}

/// The token that follows another.
pub open spec fn following_token(token: usize) -> usize {
    if token >= LAST_CLIENT_TOKEN {
        FIRST_CLIENT_TOKEN
    } else {
        (token + 1) as usize
    }
}

impl ConnectionPool {
    /// No more connections are served than may be, each of them is within its limits,
    /// and so is the next token.
    pub open spec fn valid(self) -> bool {
        &&& self.clients@.dom().finite()
        &&& self.clients@.len() <= MAX_UDS_CONNECTIONS
        &&& FIRST_CLIENT_TOKEN <= self.next_token <= LAST_CLIENT_TOKEN
        &&& forall|token: usize| #[trigger]
            self.clients@.contains_key(token) ==> self.clients@[token].valid()
    }

    /// No connections yet.
    pub fn new() -> (r: Self)
        ensures
            r.valid(),
            r.clients@ == Map::<usize, ClientConnection>::empty(),
            r.next_token == FIRST_CLIENT_TOKEN,
            !r.backlog_pending,
    {
        ConnectionPool {
            clients: HashMap::new(),
            next_token: FIRST_CLIENT_TOKEN,
            backlog_pending: false,
        }
    }

    /// Connections wait to be taken.
    pub fn note_arrivals(&mut self)
        ensures
            *final(self) == (ConnectionPool { backlog_pending: true, ..*old(self) }),
    {
        self.backlog_pending = true;
    }

    /// No more connections wait.
    pub fn note_none_waiting(&mut self)
        ensures
            *final(self) == (ConnectionPool { backlog_pending: false, ..*old(self) }),
    {
        self.backlog_pending = false;
    }

    /// Whether to look for connections that wait: some do, or a place has become free,
    /// and there is a place.
    pub fn should_accept(&self, slot_freed: bool) -> (r: bool)
        ensures
            r == ((self.backlog_pending || slot_freed) && self.clients@.len()
                < MAX_UDS_CONNECTIONS),
    {
        (self.backlog_pending || slot_freed) && self.clients.len() < MAX_UDS_CONNECTIONS
    }

    /// Whether there is a place for one more connection. If there is none, those that
    /// wait go on waiting.
    pub fn may_accept(&mut self) -> (r: bool)
        ensures
            r == (old(self).clients@.len() < MAX_UDS_CONNECTIONS),
            *final(self) == (ConnectionPool {
                backlog_pending: old(self).backlog_pending || !r,
                ..*old(self)
            }),
    {
        let free = self.clients.len() < MAX_UDS_CONNECTIONS;
        if !free {
            self.backlog_pending = true;
        }
        free
    }

    /// The token of a new connection.
    pub fn issue_token(&mut self) -> (r: usize)
        requires
            old(self).valid(),
        ensures
            final(self).valid(),
            r == old(self).next_token,
            *final(self) == (ConnectionPool {
                next_token: following_token(old(self).next_token),
                ..*old(self)
            }),
    {
        let token: usize = self.next_token;
        self.next_token =
        if token >= LAST_CLIENT_TOKEN {
            FIRST_CLIENT_TOKEN
        } else {
            token + 1
        };
        token
    }

    /// Serves a connection under a token, if there is a place for it.
    pub fn enter(&mut self, token: usize, container_id: Option<String>) -> (r: bool)
        requires
            old(self).valid(),
        ensures
            final(self).valid(),
            r == (old(self).clients@.len() < MAX_UDS_CONNECTIONS),
            final(self).next_token == old(self).next_token,
            final(self).backlog_pending == old(self).backlog_pending,
            !r ==> final(self).clients@ == old(self).clients@,
            r ==> final(self).clients@.dom() == old(self).clients@.dom().insert(token),
            r ==> forall|other: usize|
                other != token && old(self).clients@.contains_key(other) ==> final(self).clients@[other]
                    == old(self).clients@[other],
            r ==> final(self).clients@[token].held == 0 && final(self).clients@[token].framer@
                == framing::start() && final(self).clients@[token].container_id == container_id,
    {
        if self.clients.len() >= MAX_UDS_CONNECTIONS {
            return false;
        }
        self.clients.insert(token, ClientConnection::new(container_id));
        true
    }

    /// Ends a connection. Tells whether a place has become free.
    pub fn leave(&mut self, token: usize) -> (r: bool)
        requires
            old(self).valid(),
        ensures
            final(self).valid(),
            r == old(self).clients@.contains_key(token),
            final(self).clients@ == old(self).clients@.remove(token),
            final(self).next_token == old(self).next_token,
            final(self).backlog_pending == old(self).backlog_pending,
    {
        let gone = self.clients.remove(&token);
        proof {
            let before = old(self).clients@.dom();
            assert(self.clients@.dom() =~= before.remove(token));
            vstd::set_lib::lemma_len_subset(before.remove(token), before);
        }
        gone.is_some()
    }

    /// Takes in what was read from a connection, if it is served, and says for which
    /// container it speaks.
    pub fn receive(&mut self, token: usize, bytes: &[u8]) -> (r: Option<(Received, Option<String>)>)
        requires
            old(self).valid(),
        ensures
            final(self).valid(),
            final(self).clients@.dom() == old(self).clients@.dom(),
            final(self).next_token == old(self).next_token,
            final(self).backlog_pending == old(self).backlog_pending,
            forall|other: usize|
                other != token && old(self).clients@.contains_key(other) ==> final(self).clients@[other]
                    == old(self).clients@[other],
            r is Some <==> old(self).clients@.contains_key(token),
            r matches Some((received, container_id)) ==> {
                let before = old(self).clients@[token];
                let after = final(self).clients@[token];
                &&& patterns::option_view(container_id) == patterns::option_view(
                    before.container_id,
                )
                &&& after.container_id == before.container_id
                &&& received is Flooded <==> before.held + bytes@.len() > MAX_CONNECTION_BUFFER
                &&& received is Flooded ==> after.framer@ == framing::start() && after.held == 0
                &&& received matches Received::Frames { frames } ==> framing::frame_views(frames@)
                    == framing::frame(before.framer@, bytes@).1 && after.framer@ == framing::frame(
                    before.framer@,
                    bytes@,
                ).0 && after.held == open_length(before.held as nat, bytes@)
            },
    {
        match self.clients.remove(&token) {
            None => {
                assert(self.clients@ =~= old(self).clients@);
                None
            },
            Some(found) => {
                let mut connection = found;
                assert(old(self).clients@.contains_key(token));
                let received = connection.receive(bytes);
                let container_id = connection.container_id.clone();
                self.clients.insert(token, connection);
                assert(self.clients@.dom() =~= old(self).clients@.dom());
                Some((received, container_id))
            },
        }
    }
}

} // verus!
