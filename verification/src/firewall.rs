//! Firewall commands: blocking addresses, and finding the entries that are to go.
use crate::config::{AtomicAction, PlaybookConfig, RuleConfig};
use crate::encoding;
use crate::logger::{LogEvent, LogEventView};
use crate::network::{is_ip_safe, IpAddress, IpNetwork};
use crate::network;
use crate::patterns::{address_expression, captured_group, timeout_expression};
use crate::patterns;
use crate::text;
use vstd::prelude::*;

verus! {

/// The mark by which the entries of this program are found again.
pub const ENTRY_MARK: &'static str = "comment \"runsc-sentry-guard\"";

/// The arguments of a firewall command on a set: a verb, an object, the words that
/// name the table, the set.
pub open spec fn set_command(
    verb: Seq<char>,
    object: Seq<char>,
    table: Seq<char>,
    set: Seq<char>,
) -> Seq<Seq<char>> {
    seq![verb, object] + text::words(table) + seq![set]
}

/// Writes the arguments of a firewall command on a set.
fn command_on_set(verb: &str, object: &str, table: &str, set: &str) -> (r: Vec<String>)
    ensures
        text::views(r@) == set_command(verb@, object@, table@, set@),
{
    let mut args: Vec<String> = Vec::new();
    text::push_text(&mut args, verb);
    text::push_text(&mut args, object);
    let words = text::split_whitespace(table);
    let ghost table_words = text::words(table@);
    assert(words@.map_values(|word: String| word@) == table_words);
    assert(text::views(args@) =~= seq![verb@, object@] + table_words.take(0));
    let mut i: usize = 0;
    while i < words.len()
        invariant
            i <= words@.len(),
            words@.map_values(|word: String| word@) == table_words,
            text::views(args@) == seq![verb@, object@] + table_words.take(i as int),
        decreases words@.len() - i,
    {
        assert(table_words[i as int] == words@[i as int]@);
        text::push_text(&mut args, words[i].as_str());
        assert(text::views(args@) =~= seq![verb@, object@] + table_words.take(i + 1));
        i += 1;
    }
    assert(table_words.take(i as int) =~= table_words);
    text::push_text(&mut args, set);
    assert(text::views(args@) =~= set_command(verb@, object@, table@, set@));
    args
}

/// The element that blocks an address for a time.
pub open spec fn block_element(ip: Seq<char>, timeout: Seq<char>) -> Seq<char> {
    "{ "@ + ip + " timeout "@ + timeout + " "@ + ENTRY_MARK@ + " }"@
}

/// The command that blocks an address for a time.
pub open spec fn block_command(
    ip: Seq<char>,
    set: Seq<char>,
    timeout: Seq<char>,
    table: Seq<char>,
) -> Seq<Seq<char>> {
    set_command("add"@, "element"@, table, set).push(block_element(ip, timeout))
}

/// What is said of a timeout that is refused.
pub open spec fn timeout_refusal(timeout: Seq<char>) -> Seq<char> {
    "Security Constraint Violation: Intercepted malformed firewall duration payload: '"@ + timeout
        + "'"@
}

/// Writes the command that blocks `ip`, if it is known whether the timeout is sound.
pub fn block_if(
    timeout_is_sound: bool,
    ip: &str,
    set: &str,
    timeout: &str,
    table: &str,
) -> (r: Result<Vec<String>, String>)
    ensures
        r is Ok <==> timeout_is_sound,
        r is Ok ==> text::views(r->Ok_0@) == block_command(ip@, set@, timeout@, table@),
        r is Err ==> r->Err_0@ == timeout_refusal(timeout@),
{
    if !timeout_is_sound {
        let mut refusal =
            "Security Constraint Violation: Intercepted malformed firewall duration payload: '".to_owned();
        refusal.append(timeout);
        refusal.append("'");
        return Err(refusal);
    }
    let mut element = "{ ".to_owned();
    element.append(ip);
    element.append(" timeout ");
    element.append(timeout);
    element.append(" ");
    element.append(ENTRY_MARK);
    element.append(" }");
    let mut args = command_on_set("add", "element", table, set);
    text::push_text(&mut args, element.as_str());
    Ok(args)
}

/// Writes the command that blocks `ip` in `set` for `timeout`. A timeout that is not
/// digits and a unit is refused, and no command is written.
pub fn execute_firewall_mutation(ip: &str, set: &str, timeout: &str, table: &str) -> (r: Result<
    Vec<String>,
    String,
>)
    ensures
        r is Ok <==> patterns::pattern_accepts(patterns::TIMEOUT_PATTERN@, timeout@),
        patterns::is_timeout(timeout@) ==> r is Ok,
        r is Ok ==> patterns::resembles_timeout(timeout@),
        r is Ok ==> text::views(r->Ok_0@) == block_command(ip@, set@, timeout@, table@),
        r is Err ==> r->Err_0@ == timeout_refusal(timeout@),
{
    let sound = timeout_expression().is_match(timeout);
    block_if(sound, ip, set, timeout, table)
}

/// What came of running a firewall command.
#[derive(Debug)]
pub enum CommandOutcome {
    /// It ran, and succeeded or not.
    Exited { success: bool },
    /// It could not be run.
    NotRun { cause: String },
}

/// What is said of a command that blocks an address, if it failed.
pub open spec fn mutation_fault(outcome: CommandOutcome) -> Option<Seq<char>> {
    match outcome {
        CommandOutcome::Exited { success } => if success {
            None
        } else {
            Some("Kernel nftables transaction rejected execution parameters."@)
        },
        CommandOutcome::NotRun { cause } => Some("Subprocess execution failed: "@ + cause@),
    }
}

/// Judges the outcome of a command that blocks an address.
pub fn judge_mutation(outcome: CommandOutcome) -> (r: Result<(), String>)
    ensures
        r is Ok <==> mutation_fault(outcome) is None,
        r is Err ==> mutation_fault(outcome) == Some(r->Err_0@),
{
    match outcome {
        CommandOutcome::Exited { success } => if success {
            Ok(())
        } else {
            Err("Kernel nftables transaction rejected execution parameters.".to_owned())
        },
        CommandOutcome::NotRun { cause } => {
            let mut fault = "Subprocess execution failed: ".to_owned();
            fault.append(cause.as_str());
            Err(fault)
        },
    }
}

/// What is to be done about one address of a container that is to be blocked.
#[derive(Debug)]
pub enum BlockStep {
    /// The address is on the whitelist: it is left alone, and the log says so.
    Spared { event: LogEvent },
    /// A command is to be run; if it succeeds, the log says so.
    Run { command: Vec<String>, event: LogEvent },
    /// The container cannot be blocked.
    Refused { fault: String },
}

/// What the log says of an address that is spared.
pub open spec fn spared_entry(container_id: Seq<char>, ip: Seq<char>) -> LogEventView {
    LogEventView {
        ip: Some(ip),
        ..LogEventView::plain(
            "WARN"@,
            "worker_engine"@,
            "INTERCEPTED"@,
            "Target IP matches core infrastructure whitelist. Skipping isolation for this specific address."@,
        ).about(container_id).on_action("nft_blacklist"@)
    }
}

/// What the log says of an address that was blocked.
pub open spec fn blocked_entry(
    container_id: Seq<char>,
    ip: Seq<char>,
    set: Seq<char>,
    timeout: Seq<char>,
) -> LogEventView {
    LogEventView {
        ip: Some(ip),
        ..LogEventView::plain(
            "CRITICAL"@,
            "worker_engine"@,
            "SUCCESS"@,
            "Target network isolated via set "@ + set + " for duration context "@ + timeout,
        ).about(container_id).on_action("nft_blacklist"@)
    }
}

/// Decides about one address of a container that is to be blocked.
pub fn plan_block(
    container_id: &str,
    target: &IpAddress,
    whitelist: &[IpNetwork],
    set: &str,
    timeout: &str,
    table: &str,
) -> (r: BlockStep)
    requires
        network::valid_whitelist(whitelist@),
    ensures
        network::is_whitelisted(*target, whitelist@) <==> r is Spared,
        r matches BlockStep::Spared { event } ==> event@ == spared_entry(
            container_id@,
            target.words(),
        ),
        r is Run <==> !network::is_whitelisted(*target, whitelist@)
            && patterns::pattern_accepts(patterns::TIMEOUT_PATTERN@, timeout@),
        r matches BlockStep::Run { command, event } ==> text::views(command@) == block_command(
            target.words(),
            set@,
            timeout@,
            table@,
        ) && event@ == blocked_entry(container_id@, target.words(), set@, timeout@),
        r matches BlockStep::Refused { fault } ==> fault@ == timeout_refusal(timeout@),
{
    if is_ip_safe(target, whitelist) {
        let mut event = LogEvent::plain(
            "WARN",
            "worker_engine",
            "INTERCEPTED",
            "Target IP matches core infrastructure whitelist. Skipping isolation for this specific address.".to_owned(),
        ).about(container_id).on_action("nft_blacklist");
        event.ip = Some(target.text());
        return BlockStep::Spared { event };
    }
    match execute_firewall_mutation(target.text().as_str(), set, timeout, table) {
        Err(fault) => BlockStep::Refused { fault },
        Ok(command) => {
            let mut details = "Target network isolated via set ".to_owned();
            details.append(set);
            details.append(" for duration context ");
            details.append(timeout);
            let mut event = LogEvent::plain("CRITICAL", "worker_engine", "SUCCESS", details).about(
                container_id,
            ).on_action("nft_blacklist");
            event.ip = Some(target.text());
            BlockStep::Run { command, event }
        },
    }
}

/// What is said of a container that has no address to block.
pub const NO_ADDRESS_FAULT: &'static str =
    "IP resolution yielded zero addresses; cannot apply nftables blacklist.";

/// The commands that blocking a container comes to, if each of them succeeds.
pub open spec fn block_commands(
    targets: Seq<IpAddress>,
    whitelist: Seq<IpNetwork>,
    set: Seq<char>,
    timeout: Seq<char>,
    table: Seq<char>,
) -> Seq<Seq<Seq<char>>>
    decreases targets.len(),
{
    if targets.len() == 0 {
        Seq::empty()
    } else {
        let rest = block_commands(targets.drop_first(), whitelist, set, timeout, table);
        if network::is_whitelisted(targets[0], whitelist) {
            rest
        } else {
            seq![block_command(targets[0].words(), set, timeout, table)] + rest
        }
    }
}

/// Each command blocks the printed form of an address of the container that is on no
/// network of the whitelist.
pub proof fn law_whitelist_is_never_blocked(
    targets: Seq<IpAddress>,
    whitelist: Seq<IpNetwork>,
    set: Seq<char>,
    timeout: Seq<char>,
    table: Seq<char>,
    i: int,
)
    requires
        0 <= i < block_commands(targets, whitelist, set, timeout, table).len(),
    ensures
        exists|k: int|
            0 <= k < targets.len() && !network::is_whitelisted(
                #[trigger] targets[k],
                whitelist,
            ) && block_commands(targets, whitelist, set, timeout, table)[i] == block_command(
                targets[k].words(),
                set,
                timeout,
                table,
            ),
    decreases targets.len(),
{
    let rest = targets.drop_first();
    let commands = block_commands(targets, whitelist, set, timeout, table);
    if network::is_whitelisted(targets[0], whitelist) {
        law_whitelist_is_never_blocked(rest, whitelist, set, timeout, table, i);
        let k = choose|k: int|
            0 <= k < rest.len() && !network::is_whitelisted(
                #[trigger] rest[k],
                whitelist,
            ) && commands[i] == block_command(rest[k].words(), set, timeout, table);
        assert(targets[k + 1] == rest[k]);
    } else if i == 0 {
        assert(commands[0] == block_command(targets[0].words(), set, timeout, table));
    } else {
        law_whitelist_is_never_blocked(rest, whitelist, set, timeout, table, i - 1);
        let later = block_commands(rest, whitelist, set, timeout, table);
        assert(commands[i] == later[i - 1]);
        let k = choose|k: int|
            0 <= k < rest.len() && !network::is_whitelisted(
                #[trigger] rest[k],
                whitelist,
            ) && later[i - 1] == block_command(rest[k].words(), set, timeout, table);
        assert(targets[k + 1] == rest[k]);
    }
}

/// The first target from `from` on that is not on the whitelist, or their number if
/// there is none.
pub open spec fn next_target(
    targets: Seq<IpAddress>,
    whitelist: Seq<IpNetwork>,
    from: int,
) -> int
    decreases targets.len() - from,
{
    if 0 <= from < targets.len() && network::is_whitelisted(targets[from], whitelist) {
        next_target(targets, whitelist, from + 1)
    } else {
        from
    }
}

/// What is to be done next for a container that is being blocked.
#[derive(Debug)]
pub enum BlockDemand {
    /// A command is to be run; if it succeeds, the log says so.
    Run { command: Vec<String>, event: LogEvent },
    /// The container cannot be blocked.
    Refused { fault: String },
    /// All addresses have been dealt with.
    Finished,
}

/// The blocking of a container, address by address.
pub struct BlockRun {
    pub container_id: String,
    pub set_name: String,
    pub timeout: String,
    pub table: String,
    pub whitelist: Vec<IpNetwork>,
    pub targets: Vec<IpAddress>,
    pub next: usize,
}

impl BlockRun {
    /// The networks are valid, and so is the position.
    pub open spec fn valid(self) -> bool {
        &&& network::valid_whitelist(self.whitelist@)
        &&& self.next <= self.targets@.len()
    }

    /// The commands that are still to be run, if each of them succeeds.
    pub open spec fn commands_left(self) -> Seq<Seq<Seq<char>>> {
        block_commands(
            self.targets@.skip(self.next as int),
            self.whitelist@,
            self.set_name@,
            self.timeout@,
            self.table@,
        )
    }

    /// Where the next address stands that is not on the whitelist.
    pub open spec fn upcoming(self) -> int {
        next_target(self.targets@, self.whitelist@, self.next as int)
    }

    /// Moves on to the next address that is not on the whitelist. Those that are
    /// passed over are noted in `log`.
    pub fn advance(&mut self, log: &mut Vec<LogEvent>) -> (r: BlockDemand)
        requires
            old(self).valid(),
        ensures
            final(self).valid(),
            final(self).container_id == old(self).container_id,
            final(self).set_name == old(self).set_name,
            final(self).timeout == old(self).timeout,
            final(self).table == old(self).table,
            final(self).whitelist == old(self).whitelist,
            final(self).targets == old(self).targets,
            old(self).next <= old(self).upcoming() <= old(self).targets@.len(),
            final(log)@.len() == old(log)@.len() + old(self).upcoming() - old(self).next,
            forall|i: int| 0 <= i < old(log)@.len() ==> final(log)@[i] == old(log)@[i],
            forall|k: int|
                0 <= k < old(self).upcoming() - old(self).next ==> (#[trigger] final(log)@[old(log)@.len() + k])@ == spared_entry(
                    old(self).container_id@,
                    old(self).targets@[old(self).next + k].words(),
                ),
            r is Finished <==> old(self).upcoming() == old(self).targets@.len(),
            r is Run <==> old(self).upcoming() < old(self).targets@.len()
                && patterns::pattern_accepts(patterns::TIMEOUT_PATTERN@, old(self).timeout@),
            r is Refused ==> r->fault@ == timeout_refusal(old(self).timeout@),
            r matches BlockDemand::Run { command, event } ==> {
                let target = old(self).targets@[old(self).upcoming()];
                &&& !network::is_whitelisted(target, old(self).whitelist@)
                &&& text::views(command@) == block_command(
                    target.words(),
                    old(self).set_name@,
                    old(self).timeout@,
                    old(self).table@,
                )
                &&& event@ == blocked_entry(
                    old(self).container_id@,
                    target.words(),
                    old(self).set_name@,
                    old(self).timeout@,
                )
                &&& final(self).next == old(self).upcoming() + 1
                &&& old(self).commands_left() == seq![text::views(command@)] + final(self).commands_left()
            },
            r is Finished ==> old(self).commands_left().len() == 0 && final(self).next == old(self).upcoming(),
            r is Refused ==> final(self).next == old(self).upcoming() + 1,
    {
        let ghost first = self.next;
        let ghost logged = log@.len();
        while self.next < self.targets.len()
            invariant
                self.valid(),
                self.container_id == old(self).container_id,
                self.set_name == old(self).set_name,
                self.timeout == old(self).timeout,
                self.table == old(self).table,
                self.whitelist == old(self).whitelist,
                self.targets == old(self).targets,
                first == old(self).next,
                logged == old(log)@.len(),
                first <= self.next,
                log@.len() == logged + self.next - first,
                forall|i: int| 0 <= i < logged ==> log@[i] == old(log)@[i],
                forall|k: int|
                    0 <= k < self.next - first ==> (#[trigger] log@[logged + k])@ == spared_entry(
                        self.container_id@,
                        self.targets@[first + k].words(),
                    ),
                self.upcoming() == old(self).upcoming(),
                self.commands_left() == old(self).commands_left(),
            decreases self.targets@.len() - self.next,
        {
            let ghost left = self.targets@.skip(self.next as int);
            assert(left.drop_first() =~= self.targets@.skip(self.next + 1));
            assert(left[0] == self.targets@[self.next as int]);
            let at: usize = self.next;
            let step = plan_block(
                self.container_id.as_str(),
                &self.targets[at],
                self.whitelist.as_slice(),
                self.set_name.as_str(),
                self.timeout.as_str(),
                self.table.as_str(),
            );
            self.next = at + 1;
            match step {
                BlockStep::Spared { event } => {
                    log.push(event);
                },
                BlockStep::Run { command, event } => {
                    return BlockDemand::Run { command, event };
                },
                BlockStep::Refused { fault } => {
                    return BlockDemand::Refused { fault };
                },
            }
        }
        BlockDemand::Finished
    }
}

/// Starts to block a container whose addresses are `targets`.
pub fn start_block(
    container_id: String,
    set_name: String,
    timeout: String,
    table: String,
    whitelist: Vec<IpNetwork>,
    targets: Vec<IpAddress>,
) -> (r: Result<BlockRun, String>)
    requires
        network::valid_whitelist(whitelist@),
    ensures
        r is Err <==> targets@.len() == 0,
        r is Err ==> r->Err_0@ == NO_ADDRESS_FAULT@,
        r matches Ok(run) ==> run.valid() && run == (BlockRun {
            container_id,
            set_name,
            timeout,
            table,
            whitelist,
            targets,
            next: 0,
        }) && run.commands_left() == block_commands(
            targets@,
            whitelist@,
            set_name@,
            timeout@,
            table@,
        ),
{
    if targets.len() == 0 {
        return Err(NO_ADDRESS_FAULT.to_owned());
    }
    assert(targets@.skip(0) =~= targets@);
    Ok(BlockRun { container_id, set_name, timeout, table, whitelist, targets, next: 0 })
}

/// The sets that a list of actions blocks addresses in, in order.
pub open spec fn sets_in(actions: Seq<AtomicAction>) -> Seq<Seq<char>>
    decreases actions.len(),
{
    if actions.len() == 0 {
        Seq::empty()
    } else {
        let before = sets_in(actions.drop_last());
        match actions.last() {
            AtomicAction::NftBlacklist { set_name, .. } => before.push(set_name@),
            _ => before,
        }
    }
}

/// Adds the sets that `actions` block addresses in to a list.
fn add_sets(found: &mut Vec<String>, actions: &Vec<AtomicAction>)
    ensures
        text::views(final(found)@) == text::views(old(found)@) + sets_in(actions@),
{
    let ghost start = text::views(found@);
    let mut i: usize = 0;
    assert(actions@.take(0) =~= Seq::<AtomicAction>::empty());
    assert(text::views(found@) =~= start + sets_in(actions@.take(0)));
    while i < actions.len()
        invariant
            i <= actions@.len(),
            start == text::views(old(found)@),
            text::views(found@) == start + sets_in(actions@.take(i as int)),
        decreases actions@.len() - i,
    {
        assert(actions@.take(i + 1).drop_last() =~= actions@.take(i as int));
        assert(actions@.take(i + 1).last() == actions@[i as int]);
        if let AtomicAction::NftBlacklist { set_name, .. } = &actions[i] {
            text::push_text(found, set_name.as_str());
            assert(text::views(found@) =~= start + sets_in(actions@.take(i + 1)));
        }
        i += 1;
    }
    assert(actions@.take(i as int) =~= actions@);
}

/// The sets that playbooks block addresses in, playbook by playbook.
pub open spec fn sets_in_playbooks(playbooks: Seq<(String, PlaybookConfig)>) -> Seq<Seq<char>>
    decreases playbooks.len(),
{
    if playbooks.len() == 0 {
        Seq::empty()
    } else {
        let last = playbooks.last().1;
        sets_in_playbooks(playbooks.drop_last()) + (sets_in(last.try_actions@) + sets_in(
            last.final_actions@,
        ))
    }
}

/// The sets that the playbooks block addresses in, as often as they name them.
pub fn sets_to_flush(playbooks: &Vec<(String, PlaybookConfig)>) -> (r: Vec<String>)
    ensures
        text::views(r@) == sets_in_playbooks(playbooks@),
{
    let mut found: Vec<String> = Vec::new();
    let mut i: usize = 0;
    assert(playbooks@.take(0) =~= Seq::<(String, PlaybookConfig)>::empty());
    assert(text::views(found@) =~= sets_in_playbooks(playbooks@.take(0)));
    while i < playbooks.len()
        invariant
            i <= playbooks@.len(),
            text::views(found@) == sets_in_playbooks(playbooks@.take(i as int)),
        decreases playbooks@.len() - i,
    {
        assert(playbooks@.take(i + 1).drop_last() =~= playbooks@.take(i as int));
        assert(playbooks@.take(i + 1).last() == playbooks@[i as int]);
        let ghost before = text::views(found@);
        add_sets(&mut found, &playbooks[i].1.try_actions);
        add_sets(&mut found, &playbooks[i].1.final_actions);
        assert(text::views(found@) =~= sets_in_playbooks(playbooks@.take(i + 1)));
        i += 1;
    }
    assert(playbooks@.take(i as int) =~= playbooks@);
    found
}

/// The sets that rules block addresses in, rule by rule.
pub open spec fn sets_in_rules(rules: Seq<RuleConfig>) -> Seq<Seq<char>>
    decreases rules.len(),
{
    if rules.len() == 0 {
        Seq::empty()
    } else {
        let last = rules.last();
        sets_in_rules(rules.drop_last()) + (sets_in(last.try_actions@) + sets_in(
            last.final_actions@,
        ))
    }
}

/// The sets that are searched for stale entries, rule by rule.
pub fn sets_to_clean(rules: &Vec<RuleConfig>) -> (r: Vec<String>)
    ensures
        text::views(r@) == sets_in_rules(rules@),
{
    let mut found: Vec<String> = Vec::new();
    let mut i: usize = 0;
    assert(rules@.take(0) =~= Seq::<RuleConfig>::empty());
    assert(text::views(found@) =~= sets_in_rules(rules@.take(0)));
    while i < rules.len()
        invariant
            i <= rules@.len(),
            text::views(found@) == sets_in_rules(rules@.take(i as int)),
        decreases rules@.len() - i,
    {
        assert(rules@.take(i + 1).drop_last() =~= rules@.take(i as int));
        assert(rules@.take(i + 1).last() == rules@[i as int]);
        add_sets(&mut found, &rules[i].try_actions);
        add_sets(&mut found, &rules[i].final_actions);
        assert(text::views(found@) =~= sets_in_rules(rules@.take(i + 1)));
        i += 1;
    }
    assert(rules@.take(i as int) =~= rules@);
    found
}

/// Writes the command that lists the entries of a set.
pub fn list_command(table: &str, set: &str) -> (r: Vec<String>)
    ensures
        text::views(r@) == set_command("list"@, "set"@, table@, set@),
{
    command_on_set("list", "set", table, set)
}

/// Writes the command that empties a set.
pub fn flush_command(table: &str, set: &str) -> (r: Vec<String>)
    ensures
        text::views(r@) == set_command("flush"@, "set"@, table@, set@),
{
    command_on_set("flush", "set", table, set)
}

/// The command that removes an address from a set.
pub open spec fn unblock_command(ip: Seq<char>, set: Seq<char>, table: Seq<char>) -> Seq<
    Seq<char>,
> {
    set_command("delete"@, "element"@, table, set).push("{ "@ + ip + " }"@)
}

/// The address of a line of a listing, if the line is an entry of this program.
pub open spec fn stale_address(line: Seq<char>) -> Option<Seq<char>> {
    if text::contains_text(line, ENTRY_MARK@) {
        patterns::pattern_group(patterns::ADDRESS_PATTERN@, line, 0)
    } else {
        None
    }
}

/// The addresses of the lines of a listing that are entries of this program.
pub open spec fn stale_addresses(lines: Seq<Seq<char>>) -> Seq<Seq<char>>
    decreases lines.len(),
{
    if lines.len() == 0 {
        Seq::empty()
    } else {
        let before = stale_addresses(lines.drop_last());
        match stale_address(lines.last()) {
            Some(ip) => before.push(ip),
            None => before,
        }
    }
}

/// Writes the command that removes `ip` from `set`.
pub fn delete_command(ip: &str, set: &str, table: &str) -> (r: Vec<String>)
    ensures
        text::views(r@) == unblock_command(ip@, set@, table@),
{
    let mut element = "{ ".to_owned();
    element.append(ip);
    element.append(" }");
    let mut args = command_on_set("delete", "element", table, set);
    text::push_text(&mut args, element.as_str());
    args
}

/// The commands that remove from `set` the entries of this program that a listing
/// shows.
pub fn cleanup_stale_firewall_elements(listing: &[u8], set: &str, table: &str) -> (r: Vec<
    Vec<String>,
>)
    ensures
        r@.map_values(|command: Vec<String>| text::views(command@)) == stale_addresses(
            text::text_lines(encoding::lossy_decoding(listing@)),
        ).map_values(|ip: Seq<char>| unblock_command(ip, set@, table@)),
{
    let expression = address_expression();
    let lines = text::lines(encoding::lossy_text(listing).as_str());
    let ghost all = text::text_lines(encoding::lossy_decoding(listing@));
    let ghost as_command = |command: Vec<String>| text::views(command@);
    let ghost unblock = |ip: Seq<char>| unblock_command(ip, set@, table@);
    assert(lines@.map_values(|line: String| line@) == all);
    let mut commands: Vec<Vec<String>> = Vec::new();
    let mut i: usize = 0;
    assert(all.take(0) =~= Seq::<Seq<char>>::empty());
    assert(commands@.map_values(as_command) =~= stale_addresses(all.take(0)).map_values(unblock));
    while i < lines.len()
        invariant
            i <= lines@.len(),
            lines@.map_values(|line: String| line@) == all,
            patterns::regex_pattern(expression) == patterns::ADDRESS_PATTERN@,
            as_command == (|command: Vec<String>| text::views(command@)),
            unblock == (|ip: Seq<char>| unblock_command(ip, set@, table@)),
            commands@.map_values(as_command) == stale_addresses(all.take(i as int)).map_values(
                unblock,
            ),
        decreases lines@.len() - i,
    {
        assert(all[i as int] == lines@[i as int]@);
        assert(all.take(i + 1).drop_last() =~= all.take(i as int));
        assert(all.take(i + 1).last() == lines@[i as int]@);
        let ghost before = stale_addresses(all.take(i as int));
        if text::contains(lines[i].as_str(), ENTRY_MARK) {
            if let Some(ip) = captured_group(&expression, lines[i].as_str(), 0) {
                commands.push(delete_command(ip.as_str(), set, table));
                assert(before.push(ip@).map_values(unblock) =~= before.map_values(unblock).push(
                    unblock(ip@),
                ));
                assert(commands@.map_values(as_command) =~= stale_addresses(
                    all.take(i + 1),
                ).map_values(unblock));
            }
        }
        i += 1;
    }
    assert(all.take(i as int) =~= all);
    commands
}

} // verus!
