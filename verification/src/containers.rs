//! What is known of the containers: which of them run, what addresses they have, and
//! how the engine is asked about them.
use crate::logger::{LogEvent, LogEventView};
use crate::network::IpAddress;
use crate::patterns::{captured_group, word_id_expression};
use crate::patterns;
use crate::text;
use regex::Regex;
use vstd::prelude::*;

verus! {

/// Whom an event of the engine is about.
#[derive(Debug)]
pub struct DockerEventActor {
    pub id: String,
}

/// An event of the engine.
#[derive(Debug)]
pub struct DockerEventPayload {
    pub event_type: String,
    pub action: String,
    pub actor: DockerEventActor,
}

/// The IDs of the containers that run.
pub struct ContainerCache {
    pub ids: Vec<String>,
}

/// The IDs of a list.
pub open spec fn id_set(ids: Seq<String>) -> Set<Seq<char>> {
    text::views(ids).to_set()
}

impl View for ContainerCache {
    type V = Set<Seq<char>>;

    open spec fn view(&self) -> Set<Seq<char>> {
        id_set(self.ids@)
    }
}

/// A container is known by its ID or by the beginning of it.
pub open spec fn is_known(running: Set<Seq<char>>, id: Seq<char>) -> bool {
    exists|full: Seq<char>| #[trigger] running.contains(full) && id.is_prefix_of(full)
}

/// Membership of a list, and of the set of its views.
proof fn lemma_in_id_set(ids: Seq<String>, id: Seq<char>)
    ensures
        id_set(ids).contains(id) <==> exists|i: int|
            0 <= i < ids.len() && (#[trigger] ids[i])@ == id,
{
    if id_set(ids).contains(id) {
        let k = choose|k: int| 0 <= k < ids.len() && text::views(ids)[k] == id;
        assert(ids[k]@ == id);
    }
    if exists|i: int| 0 <= i < ids.len() && (#[trigger] ids[i])@ == id {
        let k = choose|i: int| 0 <= i < ids.len() && (#[trigger] ids[i])@ == id;
        assert(text::views(ids)[k] == id);
    }
}

/// No ID stands twice in a list.
pub open spec fn no_repetition(ids: Seq<String>) -> bool {
    text::views(ids).no_duplicates()
}

impl ContainerCache {
    /// Each container is listed once.
    pub open spec fn valid(self) -> bool {
        no_repetition(self.ids@)
    }

    /// No container is known to run.
    pub fn new() -> (r: Self)
        ensures
            r@ == Set::<Seq<char>>::empty(),
            r.valid(),
    {
        let ids: Vec<String> = Vec::new();
        let cache = ContainerCache { ids };
        assert(cache@ =~= Set::<Seq<char>>::empty());
        cache
    }

    /// The containers of a list are known to run.
    pub fn replace(&mut self, ids: Vec<String>)
        ensures
            final(self)@ == id_set(ids@),
            no_repetition(ids@) ==> final(self).valid(),
    {
        self.ids = ids;
    }

    /// Whether a container is known, by its ID or by the beginning of it.
    pub fn knows(&self, id: &str) -> (r: bool)
        ensures
            r == is_known(self@, id@),
    {
        let mut i: usize = 0;
        while i < self.ids.len()
            invariant
                i <= self.ids@.len(),
                forall|j: int| 0 <= j < i ==> !id@.is_prefix_of((#[trigger] self.ids@[j])@),
            decreases self.ids@.len() - i,
        {
            if text::starts_with(self.ids[i].as_str(), id) {
                proof {
                    lemma_in_id_set(self.ids@, self.ids@[i as int]@);
                    assert(self@.contains(self.ids@[i as int]@));
                }
                return true;
            }
            i += 1;
        }
        proof {
            if is_known(self@, id@) {
                let full = choose|full: Seq<char>| #[trigger]
                    self@.contains(full) && id@.is_prefix_of(full);
                lemma_in_id_set(self.ids@, full);
            }
        }
        false
    }

    /// Where an ID stands in the list.
    fn position(&self, id: &str) -> (r: Option<usize>)
        ensures
            r is Some <==> self@.contains(id@),
            r is Some ==> r->0 < self.ids@.len() && self.ids@[r->0 as int]@ == id@,
            r is Some ==> forall|j: int| 0 <= j < r->0 ==> (#[trigger] self.ids@[j])@ != id@,
    {
        let mut i: usize = 0;
        while i < self.ids.len()
            invariant
                i <= self.ids@.len(),
                forall|j: int| 0 <= j < i ==> (#[trigger] self.ids@[j])@ != id@,
            decreases self.ids@.len() - i,
        {
            if text::same_text(self.ids[i].as_str(), id) {
                proof {
                    lemma_in_id_set(self.ids@, id@);
                }
                return Some(i);
            }
            i += 1;
        }
        proof {
            lemma_in_id_set(self.ids@, id@);
        }
        None
    }

    /// A container runs.
    pub fn insert(&mut self, id: String)
        ensures
            final(self)@ == old(self)@.insert(id@),
            old(self).valid() ==> final(self).valid(),
    {
        let place = self.position(id.as_str());
        if place.is_none() {
            self.ids.push(id);
            let ghost before = old(self).ids@;
            proof {
                assert(text::views(self.ids@) =~= text::views(before).push(id@));
                assert forall|i: int| 0 <= i < before.len() implies text::views(before)[i]
                    != id@ by {
                    lemma_in_id_set(before, id@);
                    assert(before[i]@ == text::views(before)[i]);
                }
            }
            assert forall|x: Seq<char>| self@.contains(x) <==> old(self)@.insert(id@).contains(
                x,
            ) by {
                lemma_in_id_set(self.ids@, x);
                lemma_in_id_set(before, x);
                if before.len() < self.ids@.len() {
                    assert(self.ids@[before.len() as int]@ == id@);
                }
                if exists|i: int| 0 <= i < before.len() && (#[trigger] before[i])@ == x {
                    let k = choose|i: int| 0 <= i < before.len() && (#[trigger] before[i])@ == x;
                    assert(self.ids@[k]@ == x);
                }
            }
        }
        assert(self@ =~= old(self)@.insert(id@));
    }

    /// A container no longer runs.
    pub fn remove(&mut self, id: &str)
        ensures
            final(self)@ == old(self)@.remove(id@),
            old(self).valid() ==> final(self).valid(),
    {
        let mut kept: Vec<String> = Vec::new();
        let mut i: usize = 0;
        let ghost all = self.ids@;
        while i < self.ids.len()
            invariant
                i <= self.ids@.len(),
                all == self.ids@,
                all == old(self).ids@,
                no_repetition(all) ==> no_repetition(kept@),
                forall|k: int|
                    0 <= k < kept@.len() ==> (#[trigger] kept@[k])@ != id@ && exists|j: int|
                        0 <= j < i && (#[trigger] all[j])@ == kept@[k]@,
                forall|j: int|
                    0 <= j < i && (#[trigger] all[j])@ != id@ ==> exists|k: int|
                        0 <= k < kept@.len() && (#[trigger] kept@[k])@ == all[j]@,
            decreases self.ids@.len() - i,
        {
            if !text::same_text(self.ids[i].as_str(), id) {
                let ghost before = kept@;
                kept.push(self.ids[i].clone());
                assert(kept@[before.len() as int]@ == all[i as int]@);
                proof {
                    if no_repetition(all) {
                        assert(text::views(kept@) =~= text::views(before).push(all[i as int]@));
                        assert forall|k: int| 0 <= k < before.len() implies text::views(before)[k]
                            != all[i as int]@ by {
                            assert(before[k]@ == text::views(before)[k]);
                            let j = choose|j: int| 0 <= j < i && (#[trigger] all[j])@ == before[k]@;
                            assert(text::views(all)[j] != text::views(all)[i as int]);
                        }
                    }
                }
                assert forall|j: int|
                    0 <= j < i + 1 && (#[trigger] all[j])@ != id@ implies exists|k: int|
                    0 <= k < kept@.len() && (#[trigger] kept@[k])@ == all[j]@ by {
                    if j < i {
                        let k = choose|k: int|
                            0 <= k < before.len() && (#[trigger] before[k])@ == all[j]@;
                        assert(kept@[k]@ == all[j]@);
                    }
                }
                assert forall|k: int| 0 <= k < kept@.len() implies (#[trigger] kept@[k])@ != id@
                    && exists|j: int| 0 <= j < i + 1 && (#[trigger] all[j])@ == kept@[k]@ by {
                    if k < before.len() {
                        assert(kept@[k] == before[k]);
                        let j = choose|j: int| 0 <= j < i && (#[trigger] all[j])@ == before[k]@;
                        assert(all[j]@ == kept@[k]@);
                    } else {
                        assert(all[i as int]@ == kept@[k]@);
                    }
                }
            }
            i += 1;
        }
        self.ids = kept;
        assert forall|x: Seq<char>| self@.contains(x) <==> old(self)@.remove(id@).contains(x) by {
            lemma_in_id_set(self.ids@, x);
            lemma_in_id_set(all, x);
            if self@.contains(x) {
                let k = choose|k: int| 0 <= k < kept@.len() && (#[trigger] kept@[k])@ == x;
                let j = choose|j: int| 0 <= j < all.len() && (#[trigger] all[j])@ == kept@[k]@;
                assert(all[j]@ == x);
            }
            if old(self)@.remove(id@).contains(x) {
                let j = choose|j: int| 0 <= j < all.len() && (#[trigger] all[j])@ == x;
                let k = choose|k: int| 0 <= k < kept@.len() && (#[trigger] kept@[k])@ == all[j]@;
                assert(self.ids@[k]@ == x);
            }
        }
        assert(self@ =~= old(self)@.remove(id@));
    }

    /// Takes in an event of the engine: a container that starts runs, one that dies
    /// does not, and other events change nothing.
    pub fn apply(&mut self, event: DockerEventPayload)
        ensures
            final(self)@ == (if event.action@ == "start"@ {
                old(self)@.insert(event.actor.id@)
            } else if event.action@ == "die"@ {
                old(self)@.remove(event.actor.id@)
            } else {
                old(self)@
            }),
            old(self).valid() ==> final(self).valid(),
    {
        if text::same_text(event.action.as_str(), "start") {
            self.insert(event.actor.id);
        } else if text::same_text(event.action.as_str(), "die") {
            self.remove(event.actor.id.as_str());
        }
    }
}

/// A container that has started is known by any beginning of its ID until it dies.
pub proof fn law_started_container_is_known(running: Set<Seq<char>>, id: Seq<char>, short: Seq<char>)
    requires
        short.is_prefix_of(id),
    ensures
        is_known(running.insert(id), short),
        is_known(running.insert(id), id),
        !running.insert(id).remove(id).contains(id),
{
    assert(running.insert(id).contains(id));
    assert(id.is_prefix_of(id));
}

/// What the engine answered to a request, with what was read in the body of the
/// answer, if it could be read.
#[derive(Debug)]
pub enum EngineAnswer<T> {
    Answered { status: u16, content: Option<T> },
    Failed { cause: String },
}

/// The IDs of a list without repetition.
fn distinct(ids: Vec<String>) -> (r: Vec<String>)
    ensures
        id_set(r@) == id_set(ids@),
        no_repetition(r@),
{
    let mut cache = ContainerCache::new();
    let mut i: usize = 0;
    assert(id_set(ids@.take(0)) =~= Set::<Seq<char>>::empty());
    while i < ids.len()
        invariant
            i <= ids@.len(),
            cache.valid(),
            cache@ == id_set(ids@.take(i as int)),
        decreases ids@.len() - i,
    {
        cache.insert(ids[i].clone());
        assert forall|x: Seq<char>| cache@.contains(x) <==> id_set(ids@.take(i + 1)).contains(
            x,
        ) by {
            lemma_in_id_set(ids@.take(i as int), x);
            lemma_in_id_set(ids@.take(i + 1), x);
            assert(ids@.take(i + 1)[i as int]@ == ids@[i as int]@);
            if exists|j: int| 0 <= j < i && (#[trigger] ids@.take(i as int)[j])@ == x {
                let j = choose|j: int| 0 <= j < i && (#[trigger] ids@.take(i as int)[j])@ == x;
                assert(ids@.take(i + 1)[j]@ == x);
            }
            if exists|j: int| 0 <= j < i + 1 && (#[trigger] ids@.take(i + 1)[j])@ == x {
                let j = choose|j: int| 0 <= j < i + 1 && (#[trigger] ids@.take(i + 1)[j])@ == x;
                if j < i {
                    assert(ids@.take(i as int)[j]@ == x);
                }
            }
        }
        assert(cache@ =~= id_set(ids@.take(i + 1)));
        i += 1;
    }
    assert(ids@.take(i as int) =~= ids@);
    cache.ids
}

/// The IDs of the containers that run, by the engine's answer to the request for a
/// list of them. There are none if the engine did not give such a list.
pub fn fetch_running_container_ids(answer: EngineAnswer<Vec<String>>) -> (r: Vec<String>)
    ensures
        id_set(r@) == (match answer {
            EngineAnswer::Answered { status: 200, content: Some(ids) } => id_set(ids@),
            _ => Set::empty(),
        }),
        no_repetition(r@),
{
    match answer {
        EngineAnswer::Answered { status, content: Some(ids) } if status == 200 => distinct(ids),
        _ => {
            let none: Vec<String> = Vec::new();
            assert(id_set(none@) =~= Set::<Seq<char>>::empty());
            none
        },
    }
}

/// The path of the request for what is known of a container.
pub fn inspection_path(container_id: &str) -> (r: String)
    ensures
        r@ == "/containers/"@ + container_id@ + "/json"@,
{
    let mut path = "/containers/".to_owned();
    path.append(container_id);
    path.append("/json");
    path
}

/// The entries of a list that could be read as addresses, in order.
pub open spec fn readable(listed: Seq<Option<IpAddress>>) -> Seq<IpAddress>
    decreases listed.len(),
{
    if listed.len() == 0 {
        Seq::empty()
    } else {
        let before = readable(listed.drop_last());
        match listed.last() {
            Some(address) => before.push(address),
            None => before,
        }
    }
}

/// What the log says if the addresses of a container could not be found out.
pub open spec fn resolution_entry(container_id: Seq<char>, details: Seq<char>) -> LogEventView {
    LogEventView::plain("WARN"@, "worker_engine"@, "FAILURE"@, details).about(
        container_id,
    ).on_action("resolve_ip"@)
}

/// The addresses of a container, by the engine's answer about it: those of its
/// networks that could be read. If the engine gave no such answer, there are none,
/// and the log says why.
pub fn resolve_container_ips(
    container_id: &str,
    answer: EngineAnswer<Vec<Option<IpAddress>>>,
) -> (r: (Vec<IpAddress>, Option<LogEvent>))
    ensures
        match answer {
            EngineAnswer::Answered { status, content } => if status == 200 {
                r.1 is None && r.0@ == (match content {
                    Some(listed) => readable(listed@),
                    None => Seq::empty(),
                })
            } else {
                r.0@.len() == 0 && r.1 is Some && r.1->0@ == resolution_entry(
                    container_id@,
                    "Container socket returned HTTP "@ + text::decimal(status as nat)
                        + " during IP resolution."@,
                )
            },
            EngineAnswer::Failed { cause } => r.0@.len() == 0 && r.1 is Some && r.1->0@
                == resolution_entry(
                container_id@,
                "Failed to query Container socket for networking metadata via UDS channel: "@
                    + cause@,
            ),
        },
{
    let mut addresses: Vec<IpAddress> = Vec::new();
    let details = match answer {
        EngineAnswer::Answered { status, content } => {
            if status == 200 {
                if let Some(listed) = content {
                    let ghost all = listed@;
                    assert(all.take(0) =~= Seq::<Option<IpAddress>>::empty());
                    for entry in it: listed.into_iter()
                        invariant
                            it.seq() == all,
                            addresses@ == readable(all.take(it.index() as int)),
                    {
                        let ghost n = it.index() as int;
                        assert(all.take(n + 1).drop_last() =~= all.take(n));
                        assert(all.take(n + 1).last() == entry);
                        if let Some(address) = entry {
                            addresses.push(address);
                        }
                    }
                    assert(all.take(all.len() as int) =~= all);
                }
                return (addresses, None);
            }
            let mut details = "Container socket returned HTTP ".to_owned();
            details.append(text::decimal_text(status as u64).as_str());
            details.append(" during IP resolution.");
            details
        },
        EngineAnswer::Failed { cause } => {
            let mut details =
                "Failed to query Container socket for networking metadata via UDS channel: ".to_owned();
            details.append(cause.as_str());
            details
        },
    };
    (
        addresses,
        Some(
            LogEvent::plain("WARN", "worker_engine", "FAILURE", details).about(
                container_id,
            ).on_action("resolve_ip"),
        ),
    )
}

/// The quick question to the engine whether it has a container.
pub fn probe_request(container_id: &str) -> (r: String)
    ensures
        r@ == "GET /containers/"@ + container_id@ + "/json HTTP/1.0\r\n\r\n"@,
{
    let mut request = "GET /containers/".to_owned();
    request.append(container_id);
    request.append("/json HTTP/1.0\r\n\r\n");
    request
}

/// Whether the engine has a container, by the first line of its answer to the quick
/// question, if it gave one.
pub fn is_container_active(first_line: Option<&str>) -> (r: bool)
    ensures
        r == (match first_line {
            Some(line) => text::contains_text(line@, " 200 "@),
            None => false,
        }),
{
    match first_line {
        Some(line) => text::contains(line, " 200 "),
        None => false,
    }
}

/// What the first group of a pattern captures in the first of the texts in which it
/// captures anything.
pub open spec fn first_capture(pattern: Seq<char>, texts: Seq<Seq<char>>) -> Option<Seq<char>>
    decreases texts.len(),
{
    if texts.len() == 0 {
        None
    } else {
        match patterns::pattern_group(pattern, texts[0], 1) {
            Some(id) => Some(id),
            None => first_capture(pattern, texts.drop_first()),
        }
    }
}

/// The container ID in the first of the lines that holds one.
pub fn extract_id_from_lines(lines: &Vec<String>, extractor: &Regex) -> (r: Option<String>)
    ensures
        patterns::option_view(r) == first_capture(
            patterns::regex_pattern(*extractor),
            text::views(lines@),
        ),
        patterns::finds_ids(patterns::regex_pattern(*extractor)) && r is Some
            ==> patterns::is_container_id(r->0@),
{
    let ghost all = text::views(lines@);
    let ghost pattern = patterns::regex_pattern(*extractor);
    let mut i: usize = 0;
    assert(all.skip(0) =~= all);
    while i < lines.len()
        invariant
            i <= lines@.len(),
            all == text::views(lines@),
            pattern == patterns::regex_pattern(*extractor),
            first_capture(pattern, all) == first_capture(pattern, all.skip(i as int)),
        decreases lines@.len() - i,
    {
        assert(all.skip(i as int)[0] == lines@[i as int]@);
        assert(all.skip(i as int).drop_first() =~= all.skip(i + 1));
        let found = captured_group(extractor, lines[i].as_str(), 1);
        if found.is_some() {
            return found;
        }
        i += 1;
    }
    None
}

/// The container ID in the command line of a process, whose arguments end in zero
/// bytes: that of the first argument that holds one. There is none if the command
/// line could not be read.
pub fn extract_id_from_pid(command_line: Option<&str>) -> (r: Option<String>)
    ensures
        patterns::option_view(r) == (match command_line {
            Some(line) => first_capture(
                patterns::WORD_ID_PATTERN@,
                text::split_seq(line@, '\0'),
            ),
            None => None,
        }),
        r is Some ==> patterns::is_container_id(r->0@),
{
    match command_line {
        Some(line) => {
            let arguments = text::split(line, '\0');
            assert(text::views(arguments@) =~= text::split_seq(line@, '\0'));
            extract_id_from_lines(&arguments, &word_id_expression())
        },
        None => None,
    }
}

} // verus!
