//! Laws of the firewall: what commands say, whom they spare, and what is cleaned up.
use crate::config::{AtomicAction, PlaybookConfig, RuleConfig};
use crate::firewall::{BlockRun, CommandOutcome};
use crate::firewall;
use crate::network::{IpAddress, IpNetwork};
use crate::network;
use crate::patterns;
use crate::text;
use vstd::prelude::*;

verus! {

/// A command begins with its verb and object, goes on with every word of the table's name
/// as an argument of its own, and ends with the set.
pub proof fn law_commands_name_verb_table_and_set(
    verb: Seq<char>,
    object: Seq<char>,
    table: Seq<char>,
    set: Seq<char>,
)
    ensures
        ({
            let command = firewall::set_command(verb, object, table, set);
            let words = text::words(table);
            &&& command.len() == words.len() + 3
            &&& command[0] == verb
            &&& command[1] == object
            &&& command.last() == set
            &&& forall|i: int| 0 <= i < words.len() ==> command[i + 2] == #[trigger] words[i]
        }),
{
}

/// Blocking adds to the set, with an element that holds the address, its time and the
/// mark of this program.
pub proof fn law_blocking_adds_a_marked_element(
    ip: Seq<char>,
    set: Seq<char>,
    timeout: Seq<char>,
    table: Seq<char>,
)
    ensures
        ({
            let command = firewall::block_command(ip, set, timeout, table);
            &&& command[0] == "add"@ && command[1] == "element"@
            &&& command.len() == text::words(table).len() + 4
            &&& command[command.len() - 2] == set
            &&& command.last() == "{ "@ + ip + " timeout "@ + timeout + " "@
                + "comment \"runsc-sentry-guard\""@ + " }"@
            &&& command.subrange(2, command.len() - 2) == text::words(table)
        }),
{
    let command = firewall::block_command(ip, set, timeout, table);
    assert(command.subrange(2, command.len() - 2) =~= text::words(table));
}

/// Unblocking deletes exactly the address from the set.
pub proof fn law_unblocking_deletes_the_address(ip: Seq<char>, set: Seq<char>, table: Seq<char>)
    ensures
        ({
            let command = firewall::unblock_command(ip, set, table);
            &&& command[0] == "delete"@ && command[1] == "element"@
            &&& command.len() == text::words(table).len() + 4
            &&& command[command.len() - 2] == set
            &&& command.last() == "{ "@ + ip + " }"@
            &&& command.subrange(2, command.len() - 2) == text::words(table)
        }),
{
    let command = firewall::unblock_command(ip, set, table);
    assert(command.subrange(2, command.len() - 2) =~= text::words(table));
}

/// What is blocked is marked: the element that blocks an address holds the mark by which
/// it is found again.
pub proof fn law_blocked_elements_can_be_found_again(ip: Seq<char>, timeout: Seq<char>)
    ensures
        text::contains_text(
            firewall::block_element(ip, timeout),
            "comment \"runsc-sentry-guard\""@,
        ),
{
    let element = firewall::block_element(ip, timeout);
    let mark = "comment \"runsc-sentry-guard\""@;
    let head = "{ "@ + ip + " timeout "@ + timeout + " "@;
    assert(element =~= head + mark + " }"@);
    assert(element.subrange(head.len() as int, (head.len() + mark.len()) as int) =~= mark);
    assert(text::occurs_at(element, mark, head.len() as int));
}

/// A refused timeout is named in the refusal.
pub proof fn law_refused_timeouts_are_named(timeout: Seq<char>)
    ensures
        firewall::timeout_refusal(timeout)
            == "Security Constraint Violation: Intercepted malformed firewall duration payload: '"@
            + timeout + "'"@,
{
}

/// A command counts as done only if it ran and succeeded.
pub proof fn law_commands_count_if_they_succeed(outcome: CommandOutcome)
    ensures
        firewall::mutation_fault(outcome) is None <==> outcome == (CommandOutcome::Exited {
            success: true,
        }),
        outcome == (CommandOutcome::Exited { success: false }) ==> firewall::mutation_fault(outcome)
            == Some("Kernel nftables transaction rejected execution parameters."@),
        outcome matches CommandOutcome::NotRun { cause } ==> firewall::mutation_fault(outcome)
            == Some("Subprocess execution failed: "@ + cause@),
{
}

/// What the log says of addresses that were spared or blocked names the container and the
/// address, and of blocked ones the set and the time.
pub proof fn law_spared_and_blocked_addresses_are_logged(
    id: Seq<char>,
    ip: Seq<char>,
    set: Seq<char>,
    timeout: Seq<char>,
)
    ensures
        ({
            let spared = firewall::spared_entry(id, ip);
            &&& spared.level == "WARN"@ && spared.status == "INTERCEPTED"@
            &&& spared.component == "worker_engine"@ && spared.action == Some("nft_blacklist"@)
            &&& spared.container_id == Some(id) && spared.ip == Some(ip) && spared.rule is None
            &&& spared.details
                == "Target IP matches core infrastructure whitelist. Skipping isolation for this specific address."@
        }),
        ({
            let blocked = firewall::blocked_entry(id, ip, set, timeout);
            &&& blocked.level == "CRITICAL"@ && blocked.status == "SUCCESS"@
            &&& blocked.component == "worker_engine"@ && blocked.action == Some("nft_blacklist"@)
            &&& blocked.container_id == Some(id) && blocked.ip == Some(ip) && blocked.rule is None
            &&& blocked.details == "Target network isolated via set "@ + set
                + " for duration context "@ + timeout
        }),
{
}

/// Blocking one address comes to one command about it, or to none if it is on the list.
pub proof fn law_one_address_one_command(
    address: IpAddress,
    whitelist: Seq<IpNetwork>,
    set: Seq<char>,
    timeout: Seq<char>,
    table: Seq<char>,
)
    ensures
        ({
            let commands = firewall::block_commands(
                seq![address],
                whitelist,
                set,
                timeout,
                table,
            );
            let listed = exists|i: int|
                0 <= i < whitelist.len() && (#[trigger] whitelist[i]).has(address);
            &&& listed ==> commands.len() == 0
            &&& !listed ==> commands == seq![
                firewall::block_command(address.words(), set, timeout, table),
            ]
        }),
{
    let targets = seq![address];
    assert(targets.drop_first() =~= Seq::<IpAddress>::empty());
    let rest = firewall::block_commands(targets.drop_first(), whitelist, set, timeout, table);
    assert(rest =~= Seq::<Seq<Seq<char>>>::empty());
    let commands = firewall::block_commands(targets, whitelist, set, timeout, table);
    if !network::is_whitelisted(address, whitelist) {
        assert(commands =~= seq![firewall::block_command(address.words(), set, timeout, table)]);
    }
}

/// Addresses are dealt with one after the other: what some addresses come to does not
/// depend on those before or behind them.
pub proof fn law_addresses_are_blocked_one_by_one(
    first: Seq<IpAddress>,
    second: Seq<IpAddress>,
    whitelist: Seq<IpNetwork>,
    set: Seq<char>,
    timeout: Seq<char>,
    table: Seq<char>,
)
    ensures
        firewall::block_commands(first + second, whitelist, set, timeout, table)
            == firewall::block_commands(first, whitelist, set, timeout, table)
            + firewall::block_commands(second, whitelist, set, timeout, table),
    decreases first.len(),
{
    let later = firewall::block_commands(second, whitelist, set, timeout, table);
    if first.len() == 0 {
        assert(first + second =~= second);
        assert(Seq::<Seq<Seq<char>>>::empty() + later =~= later);
    } else {
        law_addresses_are_blocked_one_by_one(
            first.drop_first(),
            second,
            whitelist,
            set,
            timeout,
            table,
        );
        assert((first + second).drop_first() =~= first.drop_first() + second);
        assert(firewall::block_commands(first + second, whitelist, set, timeout, table)
            =~= firewall::block_commands(first, whitelist, set, timeout, table) + later);
    }
}

/// Every address of the container that is on no network of the list is blocked.
pub proof fn law_every_other_address_is_blocked(
    targets: Seq<IpAddress>,
    whitelist: Seq<IpNetwork>,
    set: Seq<char>,
    timeout: Seq<char>,
    table: Seq<char>,
    k: int,
)
    requires
        0 <= k < targets.len(),
        !network::is_whitelisted(targets[k], whitelist),
    ensures
        firewall::block_commands(targets, whitelist, set, timeout, table).contains(
            firewall::block_command(targets[k].words(), set, timeout, table),
        ),
    decreases targets.len(),
{
    let commands = firewall::block_commands(targets, whitelist, set, timeout, table);
    let rest = firewall::block_commands(targets.drop_first(), whitelist, set, timeout, table);
    let wanted = firewall::block_command(targets[k].words(), set, timeout, table);
    if k == 0 {
        assert(commands[0] == wanted);
    } else {
        law_every_other_address_is_blocked(
            targets.drop_first(),
            whitelist,
            set,
            timeout,
            table,
            k - 1,
        );
        let i = choose|i: int| 0 <= i < rest.len() && rest[i] == wanted;
        if network::is_whitelisted(targets[0], whitelist) {
            assert(commands[i] == wanted);
        } else {
            assert(commands[i + 1] == wanted);
        }
    }
}

/// The next address to be blocked is the first one from here on that is on no network of
/// the list.
pub proof fn law_next_address_is_the_first_off_the_list(
    targets: Seq<IpAddress>,
    whitelist: Seq<IpNetwork>,
    from: int,
)
    requires
        0 <= from <= targets.len(),
    ensures
        ({
            let next = firewall::next_target(targets, whitelist, from);
            &&& from <= next <= targets.len()
            &&& forall|i: int|
                from <= i < next ==> network::is_whitelisted(#[trigger] targets[i], whitelist)
            &&& next < targets.len() ==> !network::is_whitelisted(targets[next], whitelist)
        }),
    decreases targets.len() - from,
{
    if from < targets.len() && network::is_whitelisted(targets[from], whitelist) {
        law_next_address_is_the_first_off_the_list(targets, whitelist, from + 1);
    }
}

/// A run goes on where it stands, with its own list, set, time and table.
pub proof fn law_runs_go_on_where_they_stand(run: BlockRun)
    ensures
        run.upcoming() == firewall::next_target(
            run.targets@,
            run.whitelist@,
            run.next as int,
        ),
        run.commands_left() == firewall::block_commands(
            run.targets@.skip(run.next as int),
            run.whitelist@,
            run.set_name@,
            run.timeout@,
            run.table@,
        ),
{
}

/// An action concerns a set of the firewall if it blocks addresses in it; the sets of two
/// lists of actions are those of the one and then those of the other.
pub proof fn law_sets_are_those_of_the_blocking_actions(
    action: AtomicAction,
    first: Seq<AtomicAction>,
    second: Seq<AtomicAction>,
)
    ensures
        firewall::sets_in(Seq::<AtomicAction>::empty()).len() == 0,
        action matches AtomicAction::NftBlacklist { set_name, .. } ==> firewall::sets_in(
            seq![action],
        ) == seq![set_name@],
        !(action is NftBlacklist) ==> firewall::sets_in(seq![action]).len() == 0,
        firewall::sets_in(first + second) == firewall::sets_in(first) + firewall::sets_in(second),
    decreases second.len(),
{
    let one = seq![action];
    assert(one.drop_last() =~= Seq::<AtomicAction>::empty());
    assert(firewall::sets_in(one.drop_last()) =~= Seq::<Seq<char>>::empty());
    if let AtomicAction::NftBlacklist { set_name, .. } = action {
        assert(firewall::sets_in(one) =~= seq![set_name@]);
    }
    if second.len() == 0 {
        assert(first + second =~= first);
        assert(firewall::sets_in(first) + Seq::<Seq<char>>::empty() =~= firewall::sets_in(first));
    } else {
        law_sets_are_those_of_the_blocking_actions(action, first, second.drop_last());
        assert((first + second).drop_last() =~= first + second.drop_last());
        assert(firewall::sets_in(first + second) =~= firewall::sets_in(first)
            + firewall::sets_in(second));
    }
}

/// The sets of playbooks are those of their primary and then of their fallback actions,
/// playbook by playbook.
pub proof fn law_sets_of_playbooks(
    playbooks: Seq<(String, PlaybookConfig)>,
    playbook: (String, PlaybookConfig),
)
    ensures
        firewall::sets_in_playbooks(Seq::<(String, PlaybookConfig)>::empty()).len() == 0,
        firewall::sets_in_playbooks(playbooks.push(playbook)) == firewall::sets_in_playbooks(
            playbooks,
        ) + firewall::sets_in(playbook.1.try_actions@ + playbook.1.final_actions@),
{
    law_sets_are_those_of_the_blocking_actions(
        AtomicAction::Pause,
        playbook.1.try_actions@,
        playbook.1.final_actions@,
    );
    assert(playbooks.push(playbook).drop_last() =~= playbooks);
}

/// The sets of rules are those of their primary and then of their fallback actions, rule
/// by rule.
pub proof fn law_sets_of_rules(rules: Seq<RuleConfig>, rule: RuleConfig)
    ensures
        firewall::sets_in_rules(Seq::<RuleConfig>::empty()).len() == 0,
        firewall::sets_in_rules(rules.push(rule)) == firewall::sets_in_rules(rules)
            + firewall::sets_in(rule.try_actions@ + rule.final_actions@),
{
    law_sets_are_those_of_the_blocking_actions(
        AtomicAction::Pause,
        rule.try_actions@,
        rule.final_actions@,
    );
    assert(rules.push(rule).drop_last() =~= rules);
}

/// Of a listing only the lines with the mark of this program are cleaned up, each by the
/// address that is found in it, in the order of the lines.
pub proof fn law_only_marked_lines_are_cleaned_up(lines: Seq<Seq<char>>, line: Seq<char>)
    ensures
        firewall::stale_addresses(Seq::<Seq<char>>::empty()).len() == 0,
        !text::contains_text(line, "comment \"runsc-sentry-guard\""@)
            ==> firewall::stale_addresses(lines.push(line)) == firewall::stale_addresses(lines),
        text::contains_text(line, "comment \"runsc-sentry-guard\""@) ==> (
        match patterns::pattern_group(
            r"\b(?:[0-9]{1,3}\.){3}[0-9]{1,3}\b|([a-fA-F0-9:]+:+[a-fA-F0-9:]+)\b"@,
            line,
            0,
        ) {
            Some(ip) => firewall::stale_addresses(lines.push(line)) == firewall::stale_addresses(
                lines,
            ).push(ip),
            None => firewall::stale_addresses(lines.push(line)) == firewall::stale_addresses(lines),
        }),
{
    assert(lines.push(line).drop_last() =~= lines);
}

/// An IPv4 address is printed octet by octet.
pub proof fn law_ipv4_addresses_print_their_octets(a: u8, b: u8, c: u8, d: u8)
    ensures
        IpAddress::V4((a * 0x100_0000 + b * 0x1_0000 + c * 0x100 + d) as u32).words()
            == text::decimal(a as nat) + "."@ + text::decimal(b as nat) + "."@ + text::decimal(
            c as nat,
        ) + "."@ + text::decimal(d as nat),
{
    let bits = (a * 0x100_0000 + b * 0x1_0000 + c * 0x100 + d) as u32;
    assert(bits / 0x100_0000 == a);
    assert(bits / 0x1_0000 == a * 0x100 + b);
    assert(bits / 0x1_0000 % 0x100 == b);
    assert(bits / 0x100 == a * 0x1_0000 + b * 0x100 + c);
    assert(bits / 0x100 % 0x100 == c);
    assert(bits % 0x100 == d);
}

/// A network holds no address of the other family; with a full prefix it holds its own
/// address alone; with no prefix it holds every address of its family.
pub proof fn law_networks_hold_what_their_prefix_says(
    base: u32,
    wide: u128,
    prefix: u8,
    four: u32,
    six: u128,
)
    ensures
        !(IpNetwork::V4 { base, prefix }).has(IpAddress::V6(six)),
        !(IpNetwork::V6 { base: wide, prefix }).has(IpAddress::V4(four)),
        (IpNetwork::V4 { base, prefix: 32 }).has(IpAddress::V4(four)) <==> base == four,
        (IpNetwork::V6 { base: wide, prefix: 128 }).has(IpAddress::V6(six)) <==> wide == six,
        (IpNetwork::V4 { base, prefix: 0 }).has(IpAddress::V4(four)),
        (IpNetwork::V6 { base: wide, prefix: 0 }).has(IpAddress::V6(six)),
{
    vstd::arithmetic::power2::lemma2_to64();
    vstd::arithmetic::power2::lemma_pow2_adds(64, 64);
    assert(vstd::arithmetic::power2::pow2(0) == 1);
    assert(vstd::arithmetic::power2::pow2(32) == 0x1_0000_0000);
    assert(vstd::arithmetic::power2::pow2(128) == 0x1_0000_0000_0000_0000
        * 0x1_0000_0000_0000_0000);
    lemma_undivided(base as int, four as int, vstd::arithmetic::power2::pow2(0) as int);
    lemma_undivided(wide as int, six as int, vstd::arithmetic::power2::pow2(0) as int);
    lemma_same_block(0, base as int, vstd::arithmetic::power2::pow2(32) as int);
    lemma_same_block(0, four as int, vstd::arithmetic::power2::pow2(32) as int);
    lemma_same_block(0, wide as int, vstd::arithmetic::power2::pow2(128) as int);
    lemma_same_block(0, six as int, vstd::arithmetic::power2::pow2(128) as int);
}

/// Blocks of one number each.
proof fn lemma_undivided(a: int, b: int, one: int)
    by (nonlinear_arith)
    requires
        one == 1,
    ensures
        a / one == b / one <==> a == b,
{
}

/// A network holds exactly the addresses of its block: those that differ from its first
/// address by less than the size of the block.
pub proof fn law_networks_are_blocks(first: u32, prefix: u8, four: u32)
    requires
        prefix <= 32,
        first as nat % vstd::arithmetic::power2::pow2((32 - prefix) as nat) == 0,
    ensures
        (IpNetwork::V4 { base: first, prefix }).has(IpAddress::V4(four)) <==> first <= four
            && four < first + vstd::arithmetic::power2::pow2((32 - prefix) as nat),
{
    let size = vstd::arithmetic::power2::pow2((32 - prefix) as nat);
    vstd::arithmetic::power2::lemma_pow2_pos((32 - prefix) as nat);
    lemma_same_block(first as int, four as int, size as int);
}

/// Two numbers fall into the same block exactly if the one lies within the block that the
/// other begins.
proof fn lemma_same_block(first: int, other: int, size: int)
    by (nonlinear_arith)
    requires
        size > 0,
        first >= 0,
        other >= 0,
        first % size == 0,
    ensures
        first / size == other / size <==> first <= other && other < first + size,
{
    assert(first == size * (first / size) + first % size);
    assert(other == size * (other / size) + other % size);
    assert(0 <= other % size < size);
    if first / size == other / size {
        assert(size * (first / size) == size * (other / size));
    }
    if first <= other && other < first + size {
        if first / size < other / size {
            assert(size * (other / size) >= size * (first / size + 1));
        }
        if first / size > other / size {
            assert(size * (first / size) >= size * (other / size + 1));
        }
    }
}

/// A list of networks is valid if no prefix is longer than the addresses of its family.
pub proof fn law_valid_networks_have_short_prefixes(
    whitelist: Seq<IpNetwork>,
    base: u32,
    wide: u128,
    prefix: u8,
)
    ensures
        (IpNetwork::V4 { base, prefix }).valid() <==> prefix <= 32,
        (IpNetwork::V6 { base: wide, prefix }).valid() <==> prefix <= 128,
        network::valid_whitelist(whitelist) <==> forall|i: int|
            0 <= i < whitelist.len() ==> (#[trigger] whitelist[i]).valid(),
{
}

} // verus!
