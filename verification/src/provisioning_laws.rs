//! Each declaration has one text, and that text declares it.
use vstd::prelude::*;
use vstd::string::StringSliceAdditionalSpecFns;
use vstd::utf8::is_ascii_chars_encode_utf8;

use crate::bootstrap::BootstrapView;
use crate::capture_storage::SourceRole;
use crate::decimal::{
    decimal, is_digit, law_decimal_denotes_its_number, number, signed_number, unsigned_part,
    NumberError,
};
use crate::events::Mode;
use crate::marker::{identity_byte, identity_bytes};
use crate::provisioning::{
    boot_line, declared, digit_flag, fields, flag_digit, heading, launcher_of, letter_mode,
    lines_declare, mode_letter, plan_of, policy_line, process_of, role_label, source_of,
    DeclarationView, ProcessIdentity, ProvisioningError, SourceBinding, MAX_TOTAL_RECORDS,
};
use crate::startup::{is_lower_hex, valid_boot};
use crate::text::{
    join, lacks, law_joined_parts_split, law_split_parts_join, lemma_ascii_is_text, split,
};

verus! {

/// The fields of a plan.
pub open spec fn plan_fields(plan: BootstrapView) -> Seq<Seq<u8>> {
    seq![
        "plan".spec_bytes(),
        plan.run,
        plan.generation,
        decimal(plan.start_ns as nat),
        decimal(plan.rate as nat),
        mode_letter(plan.mode),
        flag_digit(plan.causal),
    ]
}

/// The fields of the launcher.
pub open spec fn launcher_fields(p: ProcessIdentity) -> Seq<Seq<u8>> {
    seq![
        "launcher".spec_bytes(),
        decimal(p.pid as nat),
        decimal(p.uid as nat),
        decimal(p.gid as nat),
        decimal(p.start_ticks as nat),
    ]
}

/// The fields of a source.
pub open spec fn source_fields(s: SourceBinding) -> Seq<Seq<u8>> {
    seq![
        role_label(s.role),
        decimal(s.process.pid as nat),
        decimal(s.process.uid as nat),
        decimal(s.process.gid as nat),
        decimal(s.process.start_ticks as nat),
        decimal(s.capacity as nat),
    ]
}

/// The lines of a declaration.
pub open spec fn declaration_lines(d: DeclarationView, boot: Seq<u8>) -> Seq<Seq<u8>> {
    seq![
        heading(),
        policy_line(),
        boot_line(boot),
        join(plan_fields(d.plan), 0x20),
        join(launcher_fields(d.launcher), 0x20),
        join(source_fields(d.worker), 0x20),
        join(source_fields(d.broker), 0x20),
        join(source_fields(d.supervisor), 0x20),
    ]
}

/// The text of a declaration.
pub open spec fn declaration_text(d: DeclarationView, boot: Seq<u8>) -> Seq<u8> {
    join(declaration_lines(d, boot), 0x0a).push(0x0a)
}

/// A process that can be declared.
pub open spec fn declarable_process(p: ProcessIdentity) -> bool {
    p.pid > 0 && p.start_ticks > 0
}

/// A source that can be declared for a role.
pub open spec fn declarable_source(s: SourceBinding, role: SourceRole) -> bool {
    s.role == role && declarable_process(s.process) && 1 <= s.capacity <= MAX_TOTAL_RECORDS
}

/// What can be declared to an owner: a sound plan, the owner's launcher, and three
/// sources of distinct processes within the budget.
pub open spec fn declarable(d: DeclarationView, owner: u32) -> bool {
    &&& d.plan.error() is None
    &&& declarable_process(d.launcher)
    &&& d.launcher.uid == owner
    &&& declarable_source(d.worker, SourceRole::Worker)
    &&& declarable_source(d.broker, SourceRole::Broker)
    &&& declarable_source(d.supervisor, SourceRole::Supervisor)
    &&& d.worker.process.pid != d.launcher.pid
    &&& d.broker.process.pid != d.launcher.pid
    &&& d.supervisor.process.pid != d.launcher.pid
    &&& d.broker.process.pid != d.worker.process.pid
    &&& d.supervisor.process.pid != d.worker.process.pid
    &&& d.supervisor.process.pid != d.broker.process.pid
    &&& d.worker.capacity + d.broker.capacity + d.supervisor.capacity <= MAX_TOTAL_RECORDS
}

proof fn lemma_process_fields(f: Seq<Seq<u8>>, p: ProcessIdentity)
    requires
        process_of(f) == Ok::<ProcessIdentity, ProvisioningError>(p),
    ensures
        f[1] == decimal(p.pid as nat),
        f[2] == decimal(p.uid as nat),
        f[3] == decimal(p.gid as nat),
        f[4] == decimal(p.start_ticks as nat),
        declarable_process(p),
{
}

proof fn lemma_source_line(line: Seq<u8>, role: SourceRole, before: Seq<i32>, s: SourceBinding)
    requires
        source_of(line, role, before) == Ok::<SourceBinding, ProvisioningError>(s),
    ensures
        line == join(source_fields(s), 0x20),
        declarable_source(s, role),
        !before.contains(s.process.pid),
{
    let f = split(line, 0x20);
    law_split_parts_join(line, 0x20);
    lemma_process_fields(f, s.process);
    assert(f =~= source_fields(s));
}

proof fn lemma_launcher_line(line: Seq<u8>, owner: u32, p: ProcessIdentity)
    requires
        launcher_of(line, owner) == Ok::<ProcessIdentity, ProvisioningError>(p),
    ensures
        line == join(launcher_fields(p), 0x20),
        declarable_process(p),
        p.uid == owner,
{
    let f = split(line, 0x20);
    law_split_parts_join(line, 0x20);
    lemma_process_fields(f, p);
    assert(f =~= launcher_fields(p));
}

proof fn lemma_plan_line(line: Seq<u8>, plan: BootstrapView)
    requires
        plan_of(line) == Ok::<BootstrapView, ProvisioningError>(plan),
    ensures
        line == join(plan_fields(plan), 0x20),
        plan.error() is None,
{
    let f = split(line, 0x20);
    law_split_parts_join(line, 0x20);
    assert(f =~= plan_fields(plan));
}

/// A text that declares something is the one text of it, and what it declares can be
/// declared.
pub proof fn law_a_declaration_has_one_text(
    bytes: Seq<u8>,
    boot: Seq<u8>,
    owner: u32,
    d: DeclarationView,
)
    requires
        declared(bytes, boot, owner) == Ok::<DeclarationView, ProvisioningError>(d),
    ensures
        bytes == declaration_text(d, boot),
        declarable(d, owner),
{
    let body = bytes.drop_last();
    let lines = split(body, 0x0a);
    law_split_parts_join(body, 0x0a);
    assert(lines_declare(lines, boot, owner) == Ok::<DeclarationView, ProvisioningError>(d));
    lemma_plan_line(lines[3], d.plan);
    lemma_launcher_line(lines[4], owner, d.launcher);
    let first = seq![d.launcher.pid];
    let second = seq![d.launcher.pid, d.worker.process.pid];
    let third = seq![d.launcher.pid, d.worker.process.pid, d.broker.process.pid];
    lemma_source_line(lines[5], SourceRole::Worker, first, d.worker);
    lemma_source_line(lines[6], SourceRole::Broker, second, d.broker);
    lemma_source_line(lines[7], SourceRole::Supervisor, third, d.supervisor);
    assert(first[0] == d.launcher.pid);
    assert(second[0] == d.launcher.pid && second[1] == d.worker.process.pid);
    assert(third[0] == d.launcher.pid && third[1] == d.worker.process.pid && third[2]
        == d.broker.process.pid);
    assert(lines =~= declaration_lines(d, boot));
    assert(bytes =~= body.push(0x0a));
}

/// Printable, without white space.
spec fn plain(s: Seq<u8>) -> bool {
    forall|i: int| 0 <= i < s.len() ==> 0x20 < #[trigger] s[i] < 0x80
}

/// Printable, with spaces.
spec fn printable(s: Seq<u8>) -> bool {
    forall|i: int| 0 <= i < s.len() ==> 0x20 <= #[trigger] s[i] < 0x80
}

proof fn lemma_plain_decimal(n: nat)
    requires
        n <= u64::MAX,
    ensures
        plain(decimal(n)),
        1 <= decimal(n).len() <= 20,
        forall|limit: u64|
            n <= limit ==> #[trigger] number(decimal(n), limit) == Ok::<u64, NumberError>(n as u64),
        0 < n <= i32::MAX ==> signed_number(decimal(n)) == Ok::<i32, NumberError>(n as i32),
{
    law_decimal_denotes_its_number(n);
    let s = decimal(n);
    assert(is_digit(s[0]));
    assert(unsigned_part(s) == s);
    assert forall|i: int| 0 <= i < s.len() implies 0x20 < #[trigger] s[i] < 0x80 by {
        assert(is_digit(s[i]));
    }
    reveal_with_fuel(decimal, 21);
}

proof fn lemma_plain_identity(s: Seq<u8>)
    requires
        identity_bytes(s),
    ensures
        plain(s),
{
    assert forall|i: int| 0 <= i < s.len() implies 0x20 < #[trigger] s[i] < 0x80 by {
        assert(identity_byte(s[i]));
    }
}

/// The labels are plain words, and the first three lines are printable.
proof fn lemma_labels()
    ensures
        plain("plan".spec_bytes()),
        "plan".spec_bytes().len() == 4,
        plain("launcher".spec_bytes()),
        "launcher".spec_bytes().len() == 8,
        forall|role: SourceRole|
            plain(#[trigger] role_label(role)) && 6 <= role_label(role).len() <= 10,
        printable(heading()),
        heading().len() == 21,
        printable(policy_line()),
        policy_line().len() == 47,
        printable("boot ".spec_bytes()),
        "boot ".spec_bytes().len() == 5,
{
    reveal_strlit("plan");
    reveal_strlit("launcher");
    reveal_strlit("worker");
    reveal_strlit("broker");
    reveal_strlit("supervisor");
    reveal_strlit("SLIVER-PROVISIONING-1");
    reveal_strlit("policy cbe2b5da809eed7cc4b3406b222baf43e1e34a2d");
    reveal_strlit("boot ");
    is_ascii_chars_encode_utf8("plan"@);
    is_ascii_chars_encode_utf8("launcher"@);
    is_ascii_chars_encode_utf8("worker"@);
    is_ascii_chars_encode_utf8("broker"@);
    is_ascii_chars_encode_utf8("supervisor"@);
    is_ascii_chars_encode_utf8("SLIVER-PROVISIONING-1"@);
    is_ascii_chars_encode_utf8("policy cbe2b5da809eed7cc4b3406b222baf43e1e34a2d"@);
    is_ascii_chars_encode_utf8("boot "@);
}

proof fn lemma_join_printable(parts: Seq<Seq<u8>>)
    requires
        forall|i: int| 0 <= i < parts.len() ==> plain(#[trigger] parts[i]),
    ensures
        printable(join(parts, 0x20)),
    decreases parts.len(),
{
    if parts.len() > 1 {
        let less = parts.drop_last();
        assert forall|i: int| 0 <= i < less.len() implies plain(#[trigger] less[i]) by {
            assert(less[i] == parts[i]);
        }
        lemma_join_printable(less);
        assert(plain(parts[parts.len() - 1]));
    } else if parts.len() == 1 {
        assert(plain(parts[0]));
    }
}

proof fn lemma_join_len(parts: Seq<Seq<u8>>, most: nat)
    requires
        forall|i: int| 0 <= i < parts.len() ==> (#[trigger] parts[i]).len() <= most,
    ensures
        join(parts, 0x20).len() <= parts.len() * (most + 1),
    decreases parts.len(),
{
    if parts.len() > 1 {
        let less = parts.drop_last();
        assert forall|i: int| 0 <= i < less.len() implies (#[trigger] less[i]).len() <= most by {
            assert(less[i] == parts[i]);
        }
        lemma_join_len(less, most);
        assert(parts[parts.len() - 1].len() <= most);
        assert((less.len() + 1) * (most + 1) == less.len() * (most + 1) + most + 1)
            by (nonlinear_arith);
    } else if parts.len() == 1 {
        assert(parts[0].len() <= most);
    }
}

/// A line of plain words splits into them.
proof fn lemma_fields(values: Seq<Seq<u8>>, most: nat)
    requires
        values.len() >= 1,
        forall|i: int|
            0 <= i < values.len() ==> plain(#[trigger] values[i]) && 1 <= values[i].len() <= most,
    ensures
        fields(join(values, 0x20), values[0], values.len()) == Some(values),
        printable(join(values, 0x20)),
        join(values, 0x20).len() <= values.len() * (most + 1),
{
    assert forall|i: int| 0 <= i < values.len() implies lacks(#[trigger] values[i], 0x20) by {
        assert(plain(values[i]));
    }
    law_joined_parts_split(values, 0x20);
    lemma_join_printable(values);
    lemma_join_len(values, most);
}

proof fn lemma_source_text(s: SourceBinding, role: SourceRole, before: Seq<i32>)
    requires
        declarable_source(s, role),
        !before.contains(s.process.pid),
    ensures
        source_of(join(source_fields(s), 0x20), role, before) == Ok::<
            SourceBinding,
            ProvisioningError,
        >(s),
        printable(join(source_fields(s), 0x20)),
        join(source_fields(s), 0x20).len() <= 126,
{
    lemma_labels();
    lemma_plain_decimal(s.process.pid as nat);
    lemma_plain_decimal(s.process.uid as nat);
    lemma_plain_decimal(s.process.gid as nat);
    lemma_plain_decimal(s.process.start_ticks as nat);
    lemma_plain_decimal(s.capacity as nat);
    lemma_fields(source_fields(s), 20);
}

proof fn lemma_launcher_text(p: ProcessIdentity)
    requires
        declarable_process(p),
    ensures
        launcher_of(join(launcher_fields(p), 0x20), p.uid) == Ok::<
            ProcessIdentity,
            ProvisioningError,
        >(p),
        printable(join(launcher_fields(p), 0x20)),
        join(launcher_fields(p), 0x20).len() <= 105,
{
    lemma_labels();
    lemma_plain_decimal(p.pid as nat);
    lemma_plain_decimal(p.uid as nat);
    lemma_plain_decimal(p.gid as nat);
    lemma_plain_decimal(p.start_ticks as nat);
    lemma_fields(launcher_fields(p), 20);
}

proof fn lemma_plan_text(plan: BootstrapView)
    requires
        plan.error() is None,
    ensures
        plan_of(join(plan_fields(plan), 0x20)) == Ok::<BootstrapView, ProvisioningError>(plan),
        printable(join(plan_fields(plan), 0x20)),
        join(plan_fields(plan), 0x20).len() <= 903,
{
    lemma_labels();
    lemma_plain_decimal(plan.start_ns as nat);
    lemma_plain_decimal(plan.rate as nat);
    lemma_plain_identity(plan.run);
    lemma_plain_identity(plan.generation);
    assert(plain(mode_letter(plan.mode)));
    assert(plain(flag_digit(plan.causal)));
    lemma_fields(plan_fields(plan), 128);
    assert(mode_letter(Mode::A)[0] == 0x41 && mode_letter(Mode::B)[0] == 0x42 && mode_letter(
        Mode::C,
    )[0] == 0x43);
    assert(flag_digit(false)[0] == 0x30 && flag_digit(true)[0] == 0x31);
    assert(letter_mode(mode_letter(plan.mode)) == Some(plan.mode));
    assert(digit_flag(flag_digit(plan.causal)) == Some(plan.causal));
}

proof fn lemma_boot_line(boot: Seq<u8>)
    requires
        valid_boot(boot),
    ensures
        printable(boot_line(boot)),
        boot_line(boot).len() == 41,
{
    lemma_labels();
    assert forall|i: int| 0 <= i < boot.len() implies 0x20 <= #[trigger] boot[i] < 0x80 by {
        assert(boot[i] == 0x2d || is_lower_hex(boot[i]));
    }
}

/// The lines of what can be declared declare it.
#[verifier::rlimit(60)]
proof fn lemma_lines(d: DeclarationView, boot: Seq<u8>, owner: u32)
    requires
        declarable(d, owner),
        valid_boot(boot),
    ensures
        lines_declare(declaration_lines(d, boot), boot, owner) == Ok::<
            DeclarationView,
            ProvisioningError,
        >(d),
        forall|i: int|
            0 <= i < 8 ==> printable(#[trigger] declaration_lines(d, boot)[i]),
        join(declaration_lines(d, boot), 0x0a).len() <= 1600,
{
    let lines = declaration_lines(d, boot);
    let first = seq![d.launcher.pid];
    let second = seq![d.launcher.pid, d.worker.process.pid];
    let third = seq![d.launcher.pid, d.worker.process.pid, d.broker.process.pid];
    lemma_labels();
    lemma_plan_text(d.plan);
    lemma_launcher_text(d.launcher);
    lemma_source_text(d.worker, SourceRole::Worker, first);
    lemma_source_text(d.broker, SourceRole::Broker, second);
    lemma_source_text(d.supervisor, SourceRole::Supervisor, third);
    lemma_boot_line(boot);
    lemma_eight_lines_len(lines);
}

/// The text of what can be declared declares it, on the boot for which it was made.
pub proof fn law_a_text_declares_what_it_was_made_from(d: DeclarationView, boot: Seq<u8>, owner: u32)
    requires
        declarable(d, owner),
        valid_boot(boot),
    ensures
        declared(declaration_text(d, boot), boot, owner) == Ok::<
            DeclarationView,
            ProvisioningError,
        >(d),
{
    let lines = declaration_lines(d, boot);
    let text = declaration_text(d, boot);
    lemma_lines(d, boot, owner);
    assert forall|i: int| 0 <= i < lines.len() implies lacks(#[trigger] lines[i], 0x0a) by {
        assert(printable(lines[i]));
    }
    law_joined_parts_split(lines, 0x0a);
    lemma_lines_ascii(lines);
    assert(text.drop_last() =~= join(lines, 0x0a));
    assert forall|i: int| 0 <= i < text.len() implies #[trigger] text[i] < 0x80 by {
        if i < text.len() - 1 {
            assert(text[i] == join(lines, 0x0a)[i]);
        }
    }
    lemma_ascii_is_text(text);
}

proof fn lemma_lines_ascii(lines: Seq<Seq<u8>>)
    requires
        forall|i: int| 0 <= i < lines.len() ==> printable(#[trigger] lines[i]),
    ensures
        forall|i: int| 0 <= i < join(lines, 0x0a).len() ==> #[trigger] join(lines, 0x0a)[i] < 0x80,
    decreases lines.len(),
{
    if lines.len() > 1 {
        let less = lines.drop_last();
        assert forall|i: int| 0 <= i < less.len() implies printable(#[trigger] less[i]) by {
            assert(less[i] == lines[i]);
        }
        lemma_lines_ascii(less);
        let last = lines[lines.len() - 1];
        assert(printable(last));
        let front = join(less, 0x0a);
        assert forall|i: int| 0 <= i < join(lines, 0x0a).len() implies #[trigger] join(
            lines,
            0x0a,
        )[i] < 0x80 by {
            if i < front.len() {
                assert(join(lines, 0x0a)[i] == front[i]);
            } else if i > front.len() {
                assert(join(lines, 0x0a)[i] == last[i - front.len() - 1]);
            }
        }
    } else if lines.len() == 1 {
        assert(printable(lines[0]));
    }
}

/// The length of joined lines: theirs, and one for each separator.
proof fn lemma_eight_lines_len(lines: Seq<Seq<u8>>)
    requires
        lines.len() == 8,
    ensures
        join(lines, 0x0a).len() == lines[0].len() + lines[1].len() + lines[2].len()
            + lines[3].len() + lines[4].len() + lines[5].len() + lines[6].len() + lines[7].len()
            + 7,
{
    reveal_with_fuel(join, 9);
}

} // verus!
