//! The system call filter: which calls a configuration needs, and the program that
//! the kernel is given.
use crate::config::{AtomicAction, PlaybookConfig, RuleConfig};
use crate::syscalls::{AUTOMATION_SYSCALLS, CORE_SYSCALLS};
use crate::syscalls;
use crate::text;
use vstd::prelude::*;

verus! {

/// Which system calls are allowed.
#[derive(Debug, Clone, Copy, PartialEq, Eq, Structural)]
pub enum RuntimeSeccompProfile {
    /// Those that the guard itself needs.
    Core,
    /// Those that are needed to run other programs as well.
    AutomationCompatible,
}

impl RuntimeSeccompProfile {
    /// The name of the profile.
    pub open spec fn words(self) -> Seq<char> {
        match self {
            RuntimeSeccompProfile::Core => "core"@,
            RuntimeSeccompProfile::AutomationCompatible => "automation-compatible"@,
        }
    }

    /// The name of the profile.
    pub fn label(self) -> (r: String)
        ensures
            r@ == self.words(),
    {
        match self {
            RuntimeSeccompProfile::Core => "core".to_owned(),
            RuntimeSeccompProfile::AutomationCompatible => "automation-compatible".to_owned(),
        }
    }
}

/// The action runs another program.
pub open spec fn runs_program(action: AtomicAction) -> bool {
    ||| action is NftBlacklist
    ||| action is RunCustomScript
    ||| action is WebhookAlert
}

/// Whether an action runs another program.
pub fn action_requires_automation_profile(action: &AtomicAction) -> (r: bool)
    ensures
        r == runs_program(*action),
{
    match action {
        AtomicAction::NftBlacklist { .. } => true,
        AtomicAction::RunCustomScript { .. } => true,
        AtomicAction::WebhookAlert { .. } => true,
        _ => false,
    }
}

/// One of the actions runs another program.
pub open spec fn some_run_programs(actions: Seq<AtomicAction>) -> bool {
    exists|i: int| 0 <= i < actions.len() && runs_program(#[trigger] actions[i])
}

/// Whether one of the actions runs another program.
fn any_runs_program(actions: &Vec<AtomicAction>) -> (r: bool)
    ensures
        r == some_run_programs(actions@),
{
    let mut i: usize = 0;
    while i < actions.len()
        invariant
            i <= actions@.len(),
            forall|j: int| 0 <= j < i ==> !runs_program(#[trigger] actions@[j]),
        decreases actions@.len() - i,
    {
        if action_requires_automation_profile(&actions[i]) {
            return true;
        }
        i += 1;
    }
    false
}

/// An action of one of the rules runs another program.
pub open spec fn rules_run_programs(rules: Seq<RuleConfig>) -> bool {
    exists|i: int|
        0 <= i < rules.len() && (some_run_programs((#[trigger] rules[i]).try_actions@)
            || some_run_programs(rules[i].final_actions@))
}

/// An action of one of the playbooks runs another program.
pub open spec fn playbooks_run_programs(playbooks: Seq<(String, PlaybookConfig)>) -> bool {
    exists|i: int|
        0 <= i < playbooks.len() && (some_run_programs((#[trigger] playbooks[i]).1.try_actions@)
            || some_run_programs(playbooks[i].1.final_actions@))
}

/// The profile, by whether other programs are run.
pub open spec fn profile_if(runs_programs: bool) -> RuntimeSeccompProfile {
    if runs_programs {
        RuntimeSeccompProfile::AutomationCompatible
    } else {
        RuntimeSeccompProfile::Core
    }
}

/// The profile that a set of rules needs.
pub fn profile_for_config(rules: &[RuleConfig]) -> (r: RuntimeSeccompProfile)
    ensures
        r == profile_if(rules_run_programs(rules@)),
{
    let mut i: usize = 0;
    while i < rules.len()
        invariant
            i <= rules@.len(),
            forall|j: int|
                0 <= j < i ==> !some_run_programs((#[trigger] rules@[j]).try_actions@)
                    && !some_run_programs(rules@[j].final_actions@),
        decreases rules@.len() - i,
    {
        if any_runs_program(&rules[i].try_actions) || any_runs_program(&rules[i].final_actions) {
            assert(some_run_programs(rules@[i as int].try_actions@) || some_run_programs(
                rules@[i as int].final_actions@,
            ));
            return RuntimeSeccompProfile::AutomationCompatible;
        }
        i += 1;
    }
    RuntimeSeccompProfile::Core
}

/// The profile that a set of playbooks needs.
pub fn profile_for_playbooks(playbooks: &Vec<(String, PlaybookConfig)>) -> (r:
    RuntimeSeccompProfile)
    ensures
        r == profile_if(playbooks_run_programs(playbooks@)),
{
    let mut i: usize = 0;
    while i < playbooks.len()
        invariant
            i <= playbooks@.len(),
            forall|j: int|
                0 <= j < i ==> !some_run_programs((#[trigger] playbooks@[j]).1.try_actions@)
                    && !some_run_programs(playbooks@[j].1.final_actions@),
        decreases playbooks@.len() - i,
    {
        if any_runs_program(&playbooks[i].1.try_actions) || any_runs_program(
            &playbooks[i].1.final_actions,
        ) {
            assert(some_run_programs(playbooks@[i as int].1.try_actions@) || some_run_programs(
                playbooks@[i as int].1.final_actions@,
            ));
            return RuntimeSeccompProfile::AutomationCompatible;
        }
        i += 1;
    }
    RuntimeSeccompProfile::Core
}

/// Each number is greater than the one before it.
pub open spec fn strictly_increasing(numbers: Seq<i64>) -> bool {
    forall|i: int, j: int| 0 <= i < j < numbers.len() ==> numbers[i] < numbers[j]
}

/// Puts a number in its place in an ordered list, unless it is there.
fn insert_in_order(numbers: &mut Vec<i64>, number: i64)
    requires
        strictly_increasing(old(numbers)@),
    ensures
        strictly_increasing(final(numbers)@),
        final(numbers)@.to_set() == old(numbers)@.to_set().insert(number),
        final(numbers)@.len() <= old(numbers)@.len() + 1,
{
    let ghost before = numbers@;
    let mut i: usize = 0;
    while i < numbers.len() && numbers[i] < number
        invariant
            i <= numbers@.len(),
            numbers@ == before,
            before == old(numbers)@,
            strictly_increasing(before),
            forall|j: int| 0 <= j < i ==> before[j] < number,
        decreases numbers@.len() - i,
    {
        i += 1;
    }
    if i < numbers.len() && numbers[i] == number {
        assert(before.to_set().contains(before[i as int]));
        assert(before.to_set().insert(number) =~= before.to_set());
        return;
    }
    numbers.insert(i, number);
    proof {
        let after = numbers@;
        assert(after == before.insert(i as int, number));
        assert forall|x: i64| before.to_set().insert(number).contains(
            x,
        ) implies after.to_set().contains(x) by {
            if x == number {
                assert(after[i as int] == x);
            } else {
                let k = choose|k: int| 0 <= k < before.len() && before[k] == x;
                if k < i {
                    assert(after[k] == x);
                } else {
                    assert(after[k + 1] == x);
                }
            }
        }
        assert forall|x: i64| after.to_set().contains(x) implies before.to_set().insert(
            number,
        ).contains(x) by {
            let k = choose|k: int| 0 <= k < after.len() && after[k] == x;
            if k < i {
                assert(before[k] == x);
            } else if k > i {
                assert(before[k - 1] == x);
            }
        }
        assert(after.to_set() =~= before.to_set().insert(number));
    }
}

/// The calls that a profile allows.
pub open spec fn allowed_set(profile: RuntimeSeccompProfile) -> Set<i64> {
    match profile {
        RuntimeSeccompProfile::Core => CORE_SYSCALLS@.to_set(),
        RuntimeSeccompProfile::AutomationCompatible => CORE_SYSCALLS@.to_set().union(
            AUTOMATION_SYSCALLS@.to_set(),
        ),
    }
}

/// Puts the numbers of a list in their places.
fn insert_all(numbers: &mut Vec<i64>, more: &[i64])
    requires
        strictly_increasing(old(numbers)@),
    ensures
        strictly_increasing(final(numbers)@),
        final(numbers)@.to_set() == old(numbers)@.to_set().union(more@.to_set()),
        final(numbers)@.len() <= old(numbers)@.len() + more@.len(),
{
    let mut i: usize = 0;
    let ghost before = numbers@.to_set();
    assert(before.union(more@.take(0).to_set()) =~= before);
    while i < more.len()
        invariant
            i <= more@.len(),
            strictly_increasing(numbers@),
            before == old(numbers)@.to_set(),
            numbers@.to_set() == before.union(more@.take(i as int).to_set()),
            numbers@.len() <= old(numbers)@.len() + i,
        decreases more@.len() - i,
    {
        insert_in_order(numbers, more[i]);
        proof {
            let earlier = more@.take(i as int);
            let now = more@.take(i + 1);
            assert(now =~= earlier.push(more@[i as int]));
            assert forall|x: i64| earlier.to_set().insert(more@[i as int]).contains(
                x,
            ) implies now.to_set().contains(x) by {
                if x == more@[i as int] {
                    assert(now[i as int] == x);
                } else {
                    let k = choose|k: int| 0 <= k < earlier.len() && earlier[k] == x;
                    assert(now[k] == x);
                }
            }
            assert(now.to_set() =~= earlier.to_set().insert(more@[i as int]));
            assert(numbers@.to_set() =~= before.union(now.to_set()));
        }
        i += 1;
    }
    assert(more@.take(i as int) =~= more@);
}

/// The calls that a profile allows, in order and without repetition.
pub fn allowed_syscalls(profile: RuntimeSeccompProfile) -> (r: Vec<i64>)
    ensures
        strictly_increasing(r@),
        r@.to_set() == allowed_set(profile),
        r@.len() <= 208,
        forall|call: i64|
            #![trigger r@.contains(call)]
            r@.contains(call) <==> CORE_SYSCALLS@.contains(call) || (profile
                is AutomationCompatible && AUTOMATION_SYSCALLS@.contains(call)),
{
    let mut numbers: Vec<i64> = Vec::new();
    let core = CORE_SYSCALLS;
    insert_all(&mut numbers, core.as_slice());
    assert(numbers@.to_set() =~= CORE_SYSCALLS@.to_set());
    match profile {
        RuntimeSeccompProfile::Core => {},
        RuntimeSeccompProfile::AutomationCompatible => {
            let automation = AUTOMATION_SYSCALLS;
            insert_all(&mut numbers, automation.as_slice());
        },
    }
    assert forall|call: i64|
        #![trigger numbers@.contains(call)]
        numbers@.contains(call) <==> CORE_SYSCALLS@.contains(call) || (profile
            is AutomationCompatible && AUTOMATION_SYSCALLS@.contains(call)) by {
        assert(numbers@.contains(call) <==> numbers@.to_set().contains(call));
        assert(CORE_SYSCALLS@.contains(call) <==> CORE_SYSCALLS@.to_set().contains(call));
        assert(AUTOMATION_SYSCALLS@.contains(call) <==> AUTOMATION_SYSCALLS@.to_set().contains(
            call,
        ));
    }
    numbers
}

/// The code of an instruction that loads a word of the call's description.
pub const LOAD_WORD: u16 = 0x20;

/// The code of an instruction that jumps by whether the word equals a constant.
pub const JUMP_IF_EQUAL: u16 = 0x15;

/// The code of an instruction that ends with a verdict.
pub const RETURN: u16 = 0x06;

/// Where the number of the call stands in its description.
pub const NUMBER_OFFSET: u32 = 0;

/// Where the architecture stands in the description of the call.
pub const ARCH_OFFSET: u32 = 4;

/// The architecture that the numbers are those of.
pub const AUDIT_ARCH_X86_64: u32 = 0xC000_003E;

/// The verdict that ends the process.
pub const VERDICT_KILL_PROCESS: u32 = 0x8000_0000;

/// The verdict that stops the call with a signal.
pub const VERDICT_TRAP: u32 = 0x0003_0000;

/// The verdict that allows the call.
pub const VERDICT_ALLOW: u32 = 0x7fff_0000;

/// The most instructions that the kernel takes.
pub const MAX_INSTRUCTIONS: usize = 4096;

/// One instruction of a filter.
#[derive(Debug, Clone, Copy, PartialEq, Eq, Structural)]
pub struct SockFilter {
    pub code: u16,
    pub jt: u8,
    pub jf: u8,
    pub k: u32,
}

/// An instruction without jumps.
pub open spec fn statement(code: u16, k: u32) -> SockFilter {
    SockFilter { code, jt: 0, jf: 0, k }
}

/// Writes an instruction without jumps.
fn stmt(code: u16, k: u32) -> (r: SockFilter)
    ensures
        r == statement(code, k),
{
    SockFilter { code, jt: 0, jf: 0, k }
}

/// Writes an instruction that skips `jt` or `jf` instructions.
fn jump(code: u16, k: u32, jt: u8, jf: u8) -> (r: SockFilter)
    ensures
        r == (SockFilter { code, jt, jf, k }),
{
    SockFilter { code, jt, jf, k }
}

/// The part of the program that allows the given calls.
pub open spec fn permit_program(calls: Seq<i64>) -> Seq<SockFilter> {
    Seq::new(
        calls.len() * 2,
        |i: int|
            if i % 2 == 0 {
                SockFilter { code: JUMP_IF_EQUAL, jt: 0, jf: 1, k: calls[i / 2] as u32 }
            } else {
                statement(RETURN, VERDICT_ALLOW)
            },
    )
}

/// The beginning of the program: it ends processes of another architecture, and
/// loads the number of the call.
pub open spec fn entry_program() -> Seq<SockFilter> {
    seq![
        statement(LOAD_WORD, ARCH_OFFSET),
        SockFilter { code: JUMP_IF_EQUAL, jt: 1, jf: 0, k: AUDIT_ARCH_X86_64 },
        statement(RETURN, VERDICT_KILL_PROCESS),
        statement(LOAD_WORD, NUMBER_OFFSET),
    ]
}

/// The program that allows the given calls.
pub open spec fn filter_program(calls: Seq<i64>) -> Seq<SockFilter> {
    entry_program() + permit_program(calls) + seq![statement(RETURN, VERDICT_TRAP)]
}

/// Writes the program that allows the given calls.
fn write_filter(calls: &Vec<i64>) -> (r: Vec<SockFilter>)
    ensures
        r@ == filter_program(calls@),
{
    let mut filter: Vec<SockFilter> = Vec::new();
    filter.push(stmt(LOAD_WORD, ARCH_OFFSET));
    filter.push(jump(JUMP_IF_EQUAL, AUDIT_ARCH_X86_64, 1, 0));
    filter.push(stmt(RETURN, VERDICT_KILL_PROCESS));
    filter.push(stmt(LOAD_WORD, NUMBER_OFFSET));
    let mut i: usize = 0;
    assert(filter@ =~= entry_program() + permit_program(calls@.take(0)));
    while i < calls.len()
        invariant
            i <= calls@.len(),
            filter@ == entry_program() + permit_program(calls@.take(i as int)),
        decreases calls@.len() - i,
    {
        let number: u32 = #[verifier::truncate] (calls[i] as u32);
        filter.push(jump(JUMP_IF_EQUAL, number, 0, 1));
        filter.push(stmt(RETURN, VERDICT_ALLOW));
        assert(filter@ =~= entry_program() + permit_program(calls@.take(i + 1)));
        i += 1;
    }
    assert(calls@.take(i as int) =~= calls@);
    filter.push(stmt(RETURN, VERDICT_TRAP));
    assert(filter@ =~= filter_program(calls@));
    filter
}

/// The verdict of a program on a call, from instruction `at` on, with `word` loaded.
/// There is none if the program runs off its end or holds another instruction.
pub open spec fn verdict_from(
    program: Seq<SockFilter>,
    at: int,
    word: u32,
    arch: u32,
    number: u32,
) -> Option<u32>
    decreases
            if at < program.len() {
                program.len() - at
            } else {
                0
            },
{
    if at < 0 || at >= program.len() {
        None
    } else {
        let step = program[at];
        if step.code == LOAD_WORD && step.k == ARCH_OFFSET {
            verdict_from(program, at + 1, arch, arch, number)
        } else if step.code == LOAD_WORD && step.k == NUMBER_OFFSET {
            verdict_from(program, at + 1, number, arch, number)
        } else if step.code == JUMP_IF_EQUAL {
            let skip = if word == step.k {
                step.jt as int
            } else {
                step.jf as int
            };
            verdict_from(program, at + 1 + skip, word, arch, number)
        } else if step.code == RETURN {
            Some(step.k)
        } else {
            None
        }
    }
}

/// The verdict of a program on a call.
pub open spec fn verdict(program: Seq<SockFilter>, arch: u32, number: u32) -> Option<u32> {
    verdict_from(program, 0, 0, arch, number)
}

/// Every call has a number that fits the description of a call.
pub open spec fn are_numbers(calls: Seq<i64>) -> bool {
    forall|i: int| 0 <= i < calls.len() ==> 0 <= #[trigger] calls[i] <= u32::MAX
}

/// From the jump of call `i` on, the verdict goes by the calls that are left.
proof fn lemma_verdict_on_calls(calls: Seq<i64>, i: int, number: u32)
    requires
        0 <= i <= calls.len(),
        are_numbers(calls),
    ensures
        verdict_from(
            filter_program(calls),
            4 + 2 * i,
            number,
            AUDIT_ARCH_X86_64,
            number,
        ) == Some(
            if calls.skip(i).contains(number as i64) {
                VERDICT_ALLOW
            } else {
                VERDICT_TRAP
            },
        ),
    decreases calls.len() - i,
{
    let program = filter_program(calls);
    let at = 4 + 2 * i;
    if i == calls.len() {
        assert(program[at] == statement(RETURN, VERDICT_TRAP));
        assert(calls.skip(i).len() == 0);
    } else {
        assert(program[at] == permit_program(calls)[2 * i]);
        assert(program[at + 1] == permit_program(calls)[2 * i + 1]);
        assert((2 * i) / 2 == i && (2 * i) % 2 == 0 && (2 * i + 1) % 2 == 1);
        assert(calls.skip(i)[0] == calls[i]);
        if number as i64 == calls[i] {
            assert(calls.skip(i).contains(number as i64));
            assert(verdict_from(program, at + 1, number, AUDIT_ARCH_X86_64, number) == Some(
                VERDICT_ALLOW,
            ));
        } else {
            lemma_verdict_on_calls(calls, i + 1, number);
            assert(calls.skip(i + 1) =~= calls.skip(i).drop_first());
            let rest = calls.skip(i + 1);
            if calls.skip(i).contains(number as i64) {
                let k = choose|k: int|
                    0 <= k < calls.skip(i).len() && calls.skip(i)[k] == number as i64;
                assert(rest[k - 1] == number as i64);
            }
            if rest.contains(number as i64) {
                let k = choose|k: int| 0 <= k < rest.len() && rest[k] == number as i64;
                assert(calls.skip(i)[k + 1] == number as i64);
            }
        }
    }
}

/// The program ends every process of another architecture, allows the calls of its
/// list, and stops any other call with a signal.
pub proof fn law_filter_verdicts(calls: Seq<i64>, arch: u32, number: u32)
    requires
        are_numbers(calls),
    ensures
        verdict(filter_program(calls), arch, number) == Some(
            if arch != AUDIT_ARCH_X86_64 {
                VERDICT_KILL_PROCESS
            } else if calls.contains(number as i64) {
                VERDICT_ALLOW
            } else {
                VERDICT_TRAP
            },
        ),
{
    let program = filter_program(calls);
    assert(program[0] == entry_program()[0]);
    assert(program[1] == entry_program()[1]);
    assert(program[2] == entry_program()[2]);
    assert(program[3] == entry_program()[3]);
    reveal_with_fuel(verdict_from, 4);
    if arch == AUDIT_ARCH_X86_64 {
        lemma_verdict_on_calls(calls, 0, number);
        assert(calls.skip(0) =~= calls);
    }
}

/// The numbers of the calls that are allowed are small.
pub proof fn lemma_allowed_are_numbers(profile: RuntimeSeccompProfile, calls: Seq<i64>)
    requires
        calls.to_set() == allowed_set(profile),
    ensures
        are_numbers(calls),
{
    assert forall|i: int| 0 <= i < calls.len() implies 0 <= #[trigger] calls[i] <= u32::MAX by {
        assert(calls.to_set().contains(calls[i]));
        if CORE_SYSCALLS@.to_set().contains(calls[i]) {
            let k = choose|k: int| 0 <= k < CORE_SYSCALLS@.len() && CORE_SYSCALLS@[k] == calls[i];
            assert(CORE_SYSCALLS@[k] <= u32::MAX);
        } else {
            let k = choose|k: int|
                0 <= k < AUTOMATION_SYSCALLS@.len() && AUTOMATION_SYSCALLS@[k] == calls[i];
            assert(AUTOMATION_SYSCALLS@[k] <= u32::MAX);
        }
    }
}

/// The program for a profile: it ends every process of another architecture, allows
/// the calls of the profile, and stops any other call with a signal.
pub fn build_filter(profile: RuntimeSeccompProfile) -> (r: Vec<SockFilter>)
    ensures
        exists|calls: Seq<i64>|
            strictly_increasing(calls) && calls.to_set() == allowed_set(profile) && r@
                == filter_program(calls),
        forall|arch: u32, number: u32|
            #![trigger verdict(r@, arch, number)]
            verdict(r@, arch, number) == Some(
                if arch != AUDIT_ARCH_X86_64 {
                    VERDICT_KILL_PROCESS
                } else if allowed_set(profile).contains(number as i64) {
                    VERDICT_ALLOW
                } else {
                    VERDICT_TRAP
                },
            ),
        forall|number: u32|
            #![trigger verdict(r@, AUDIT_ARCH_X86_64, number)]
            verdict(r@, AUDIT_ARCH_X86_64, number) == Some(VERDICT_ALLOW)
                <==> CORE_SYSCALLS@.contains(number as i64) || (profile is AutomationCompatible
                && AUTOMATION_SYSCALLS@.contains(number as i64)),
        r@.len() <= 421,
{
    let calls = allowed_syscalls(profile);
    let filter = write_filter(&calls);
    proof {
        lemma_allowed_are_numbers(profile, calls@);
        assert forall|arch: u32, number: u32| #[trigger]
            verdict(filter@, arch, number) == Some(
                if arch != AUDIT_ARCH_X86_64 {
                    VERDICT_KILL_PROCESS
                } else if allowed_set(profile).contains(number as i64) {
                    VERDICT_ALLOW
                } else {
                    VERDICT_TRAP
                },
            ) by {
            law_filter_verdicts(calls@, arch, number);
            assert(calls@.to_set().contains(number as i64) <==> calls@.contains(number as i64));
        }
        assert forall|number: u32|
            #![trigger verdict(filter@, AUDIT_ARCH_X86_64, number)]
            verdict(filter@, AUDIT_ARCH_X86_64, number) == Some(VERDICT_ALLOW)
                <==> CORE_SYSCALLS@.contains(number as i64) || (profile is AutomationCompatible
                && AUTOMATION_SYSCALLS@.contains(number as i64)) by {
            law_filter_verdicts(calls@, AUDIT_ARCH_X86_64, number);
            assert(calls@.contains(number as i64) <==> CORE_SYSCALLS@.contains(number as i64) || (
            profile is AutomationCompatible && AUTOMATION_SYSCALLS@.contains(number as i64)));
        }
    }
    filter
}

/// Whether the kernel takes a program of `length` instructions; if not, why.
pub fn check_length(length: usize) -> (r: Result<(), String>)
    ensures
        r is Ok <==> length <= MAX_INSTRUCTIONS,
        r is Err ==> r->Err_0@ == "generated BPF program contains "@ + text::decimal(length as nat)
            + " instructions; kernel maximum is 4096"@,
{
    if length <= MAX_INSTRUCTIONS {
        return Ok(());
    }
    let mut fault = "generated BPF program contains ".to_owned();
    fault.append(text::decimal_text(length as u64).as_str());
    fault.append(" instructions; kernel maximum is 4096");
    Err(fault)
}

/// Whatever the guard itself may do, it may do where other programs are run as well.
pub proof fn law_automation_extends_core(call: i64)
    requires
        allowed_set(RuntimeSeccompProfile::Core).contains(call),
    ensures
        allowed_set(RuntimeSeccompProfile::AutomationCompatible).contains(call),
{
}

/// No profile allows a call that changes the kernel, its namespaces or other
/// processes.
pub proof fn law_high_risk_calls_stay_denied(profile: RuntimeSeccompProfile, call: i64)
    requires
        syscalls::is_high_risk(call),
    ensures
        !allowed_set(profile).contains(call),
{
    if CORE_SYSCALLS@.to_set().contains(call) {
        let k = choose|k: int| 0 <= k < CORE_SYSCALLS@.len() && CORE_SYSCALLS@[k] == call;
        assert(!syscalls::is_high_risk(CORE_SYSCALLS@[k]));
    }
    if AUTOMATION_SYSCALLS@.to_set().contains(call) {
        let k = choose|k: int|
            0 <= k < AUTOMATION_SYSCALLS@.len() && AUTOMATION_SYSCALLS@[k] == call;
        assert(!syscalls::is_high_risk(AUTOMATION_SYSCALLS@[k]));
    }
}

} // verus!
