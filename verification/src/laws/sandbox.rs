//! Laws of the system call filter.
use crate::config::{AtomicAction, PlaybookConfig, RuleConfig};
use crate::seccomp::{RuntimeSeccompProfile, SockFilter, AUDIT_ARCH_X86_64};
use crate::seccomp;
use crate::syscalls::{AUTOMATION_SYSCALLS, CORE_SYSCALLS};
use vstd::prelude::*;

verus! {

/// The guard may make the calls of the core list under every profile, those of the
/// automation list only where other programs are run, and no others.
pub proof fn law_profiles_allow_their_lists(profile: RuntimeSeccompProfile, call: i64)
    ensures
        seccomp::allowed_set(profile).contains(call) <==> ((exists|i: int|
            0 <= i < CORE_SYSCALLS@.len() && #[trigger] CORE_SYSCALLS@[i] == call) || (profile
            == RuntimeSeccompProfile::AutomationCompatible && exists|i: int|
            0 <= i < AUTOMATION_SYSCALLS@.len() && #[trigger] AUTOMATION_SYSCALLS@[i] == call)),
{
    assert(CORE_SYSCALLS@.to_set().contains(call) <==> CORE_SYSCALLS@.contains(call));
    assert(AUTOMATION_SYSCALLS@.to_set().contains(call) <==> AUTOMATION_SYSCALLS@.contains(call));
}

/// Whichever the profile, the filter lets the guard itself work: a call of the core list
/// is allowed on the architecture that the numbers are those of.
pub proof fn law_core_calls_pass_every_filter(
    profile: RuntimeSeccompProfile,
    calls: Seq<i64>,
    i: int,
    number: u32,
)
    requires
        calls.to_set() == seccomp::allowed_set(profile),
        0 <= i < CORE_SYSCALLS@.len(),
        CORE_SYSCALLS@[i] == number,
    ensures
        seccomp::verdict(seccomp::filter_program(calls), 0xC000_003E, number) == Some(
            0x7fff_0000u32,
        ),
{
    law_profiles_allow_their_lists(profile, number as i64);
    assert(calls.to_set().contains(number as i64));
    seccomp::lemma_allowed_are_numbers(profile, calls);
    seccomp::law_filter_verdicts(calls, AUDIT_ARCH_X86_64, number);
}

/// A call that stands on neither list is stopped, and no call of another architecture
/// comes through at all.
pub proof fn law_other_calls_are_stopped(
    profile: RuntimeSeccompProfile,
    calls: Seq<i64>,
    arch: u32,
    number: u32,
)
    requires
        calls.to_set() == seccomp::allowed_set(profile),
    ensures
        arch != 0xC000_003E ==> seccomp::verdict(seccomp::filter_program(calls), arch, number)
            == Some(0x8000_0000u32),
        arch == 0xC000_003E && !CORE_SYSCALLS@.contains(number as i64)
            && !AUTOMATION_SYSCALLS@.contains(number as i64) ==> seccomp::verdict(
            seccomp::filter_program(calls),
            arch,
            number,
        ) == Some(0x0003_0000u32),
        profile is Core && arch == 0xC000_003E && !CORE_SYSCALLS@.contains(number as i64)
            ==> seccomp::verdict(seccomp::filter_program(calls), arch, number) == Some(
            0x0003_0000u32,
        ),
{
    law_profiles_allow_their_lists(profile, number as i64);
    assert(calls.to_set().contains(number as i64) <==> calls.contains(number as i64));
    seccomp::lemma_allowed_are_numbers(profile, calls);
    seccomp::law_filter_verdicts(calls, arch, number);
}

/// How the kernel reads a program: a load takes the word at its offset, a jump skips by
/// whether the word is its constant, a return ends with its constant.
pub proof fn law_programs_are_read_step_by_step(
    program: Seq<SockFilter>,
    at: int,
    word: u32,
    arch: u32,
    number: u32,
)
    requires
        0 <= at < program.len(),
    ensures
        program[at].code == 0x06 ==> seccomp::verdict_from(program, at, word, arch, number) == Some(
            program[at].k,
        ),
        program[at].code == 0x20 && program[at].k == 4 ==> seccomp::verdict_from(
            program,
            at,
            word,
            arch,
            number,
        ) == seccomp::verdict_from(program, at + 1, arch, arch, number),
        program[at].code == 0x20 && program[at].k == 0 ==> seccomp::verdict_from(
            program,
            at,
            word,
            arch,
            number,
        ) == seccomp::verdict_from(program, at + 1, number, arch, number),
        program[at].code == 0x15 && word == program[at].k ==> seccomp::verdict_from(
            program,
            at,
            word,
            arch,
            number,
        ) == seccomp::verdict_from(program, at + 1 + program[at].jt, word, arch, number),
        program[at].code == 0x15 && word != program[at].k ==> seccomp::verdict_from(
            program,
            at,
            word,
            arch,
            number,
        ) == seccomp::verdict_from(program, at + 1 + program[at].jf, word, arch, number),
{
}

/// The program is run from its first instruction.
pub proof fn law_verdict_starts_at_the_first_instruction(
    program: Seq<SockFilter>,
    arch: u32,
    number: u32,
)
    ensures
        seccomp::verdict(program, arch, number) == seccomp::verdict_from(
            program,
            0,
            0,
            arch,
            number,
        ),
{
}

/// Blocking addresses, running a script and sending an alert start another program;
/// nothing else does.
pub proof fn law_programs_are_run_by_three_actions(action: AtomicAction)
    ensures
        seccomp::runs_program(action) <==> !(action is ValidateState || action is LogJson || action
            is Pause || action is Unpause || action is Restart || action is CommitSnapshot || action
            is ContainerSignal || action is LogCritical),
        action is NftBlacklist ==> seccomp::runs_program(action),
        action is RunCustomScript ==> seccomp::runs_program(action),
        action is WebhookAlert ==> seccomp::runs_program(action),
{
}

/// One action that runs a program, among the primary or the fallback actions of any
/// rule, calls for the wider profile.
pub proof fn law_one_program_calls_for_automation(
    rules: Seq<RuleConfig>,
    i: int,
    k: int,
    in_fallback: bool,
)
    requires
        0 <= i < rules.len(),
        0 <= k < (if in_fallback {
            rules[i].final_actions@
        } else {
            rules[i].try_actions@
        }).len(),
        ({
            let action = if in_fallback {
                rules[i].final_actions@[k]
            } else {
                rules[i].try_actions@[k]
            };
            action is NftBlacklist || action is RunCustomScript || action is WebhookAlert
        }),
    ensures
        seccomp::profile_if(seccomp::rules_run_programs(rules))
            == RuntimeSeccompProfile::AutomationCompatible,
{
    if in_fallback {
        assert(seccomp::runs_program(rules[i].final_actions@[k]));
    } else {
        assert(seccomp::runs_program(rules[i].try_actions@[k]));
    }
}

/// Rules that run no program get the narrow profile.
pub proof fn law_no_program_keeps_to_core(rules: Seq<RuleConfig>)
    requires
        forall|i: int, k: int|
            0 <= i < rules.len() && 0 <= k < rules[i].try_actions@.len() ==> !(
            #[trigger] rules[i].try_actions@[k] is NftBlacklist || rules[i].try_actions@[k]
                is RunCustomScript || rules[i].try_actions@[k] is WebhookAlert),
        forall|i: int, k: int|
            0 <= i < rules.len() && 0 <= k < rules[i].final_actions@.len() ==> !(
            #[trigger] rules[i].final_actions@[k] is NftBlacklist || rules[i].final_actions@[k]
                is RunCustomScript || rules[i].final_actions@[k] is WebhookAlert),
    ensures
        seccomp::profile_if(seccomp::rules_run_programs(rules)) == RuntimeSeccompProfile::Core,
{
    assert forall|i: int| 0 <= i < rules.len() implies !(seccomp::some_run_programs(
        (#[trigger] rules[i]).try_actions@,
    ) || seccomp::some_run_programs(rules[i].final_actions@)) by {
        if seccomp::some_run_programs(rules[i].try_actions@) {
            let k = choose|k: int|
                0 <= k < rules[i].try_actions@.len() && seccomp::runs_program(
                    #[trigger] rules[i].try_actions@[k],
                );
            assert(!(rules[i].try_actions@[k] is NftBlacklist));
        }
        if seccomp::some_run_programs(rules[i].final_actions@) {
            let k = choose|k: int|
                0 <= k < rules[i].final_actions@.len() && seccomp::runs_program(
                    #[trigger] rules[i].final_actions@[k],
                );
            assert(!(rules[i].final_actions@[k] is NftBlacklist));
        }
    }
}

/// Playbooks call for the same profile as rules with the same actions.
pub proof fn law_playbooks_count_like_rules(
    playbooks: Seq<(String, PlaybookConfig)>,
    rules: Seq<RuleConfig>,
)
    requires
        playbooks.len() == rules.len(),
        forall|i: int|
            0 <= i < rules.len() ==> (#[trigger] rules[i]).try_actions@
                == playbooks[i].1.try_actions@ && rules[i].final_actions@
                == playbooks[i].1.final_actions@,
    ensures
        seccomp::playbooks_run_programs(playbooks) == seccomp::rules_run_programs(rules),
{
    if seccomp::playbooks_run_programs(playbooks) {
        let i = choose|i: int|
            0 <= i < playbooks.len() && (seccomp::some_run_programs(
                (#[trigger] playbooks[i]).1.try_actions@,
            ) || seccomp::some_run_programs(playbooks[i].1.final_actions@));
        assert(rules[i].try_actions@ == playbooks[i].1.try_actions@);
    }
    if seccomp::rules_run_programs(rules) {
        let i = choose|i: int|
            0 <= i < rules.len() && (seccomp::some_run_programs(
                (#[trigger] rules[i]).try_actions@,
            ) || seccomp::some_run_programs(rules[i].final_actions@));
        assert(seccomp::some_run_programs(playbooks[i].1.try_actions@)
            || seccomp::some_run_programs(playbooks[i].1.final_actions@));
    }
}

/// An increasing list is ordered and repeats nothing.
pub proof fn law_increasing_lists_repeat_nothing(numbers: Seq<i64>, i: int, j: int)
    requires
        seccomp::strictly_increasing(numbers),
        0 <= i < j < numbers.len(),
    ensures
        numbers[i] < numbers[j],
        numbers[i] != numbers[j],
{
}

/// The names of the profiles.
pub proof fn law_profiles_have_their_names(profile: RuntimeSeccompProfile)
    ensures
        profile is Core ==> profile.words() == "core"@,
        profile is AutomationCompatible ==> profile.words() == "automation-compatible"@,
{
}

} // verus!
