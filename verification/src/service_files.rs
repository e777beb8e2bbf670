//! The policy of the services: the settings that say how each of them is run, stopped and
//! confined. These are the settings that every installation keeps. What else a unit needs,
//! such as where its program lies, is up to the package.
use vstd::prelude::*;
use vstd::string::StringExecFns;

verus! {

/// Lines with a line break behind each.
pub open spec fn unit_text(lines: Seq<Seq<char>>) -> Seq<char>
    decreases lines.len(),
{
    if lines.len() == 0 {
        Seq::empty()
    } else {
        unit_text(lines.drop_last()) + lines.last() + "\n"@
    }
}

/// The broker: one system service of its own account, which owns the devices.
pub open spec fn broker_lines() -> Seq<Seq<char>> {
    seq![
        "[Service]"@,
        "Type=notify"@,
        "User=sliver"@,
        "SupplementaryGroups=sliver-drm sliver-input sliver-backlight"@,
        "Restart=on-failure"@,
        "TimeoutStopSec=5s"@,
        "FinalKillSignal=SIGKILL"@,
    ]
}

/// The supervisor: one service for each user's graphical session.
pub open spec fn supervisor_lines() -> Seq<Seq<char>> {
    seq![
        "[Unit]"@,
        "ConditionGroup=sliver-supervisors"@,
        "[Service]"@,
        "TimeoutStopSec=5s"@,
        "FinalKillSignal=SIGKILL"@,
        "[Install]"@,
        "WantedBy=graphical-session.target"@,
    ]
}

/// A worker: bounded, without devices, and never started again by itself.
pub open spec fn worker_lines() -> Seq<Seq<char>> {
    seq![
        "[Service]"@,
        "MemoryMax=512M"@,
        "TasksMax=64"@,
        "KillMode=control-group"@,
        "PrivateDevices=yes"@,
        "DevicePolicy=closed"@,
        "Restart=no"@,
    ]
}

fn append_line(text: &mut String, line: &str, Ghost(before): Ghost<Seq<Seq<char>>>)
    requires
        old(text)@ == unit_text(before),
    ensures
        final(text)@ == unit_text(before.push(line@)),
{
    text.append(line);
    text.append("\n");
    assert(before.push(line@).drop_last() =~= before);
}

fn unit(lines: &Vec<&'static str>) -> (text: String)
    ensures
        text@ == unit_text(lines@.map_values(|l: &'static str| l@)),
{
    let mut text: String = String::new();
    let ghost all = lines@.map_values(|l: &'static str| l@);
    let mut i: usize = 0;
    assert(all.take(0) =~= Seq::empty());
    while i < lines.len()
        invariant
            i <= lines@.len(),
            all == lines@.map_values(|l: &'static str| l@),
            text@ == unit_text(all.take(i as int)),
        decreases lines@.len() - i,
    {
        append_line(&mut text, lines[i], Ghost(all.take(i as int)));
        assert(all.take(i as int).push(lines@[i as int]@) =~= all.take(i + 1));
        i += 1;
    }
    assert(all.take(i as int) =~= all);
    text
}

/// The fixed settings of the broker's unit.
pub fn broker_service() -> (text: String)
    ensures
        text@ == unit_text(broker_lines()),
{
    let lines: Vec<&'static str> = vec![
        "[Service]",
        "Type=notify",
        "User=sliver",
        "SupplementaryGroups=sliver-drm sliver-input sliver-backlight",
        "Restart=on-failure",
        "TimeoutStopSec=5s",
        "FinalKillSignal=SIGKILL",
    ];
    assert(lines@.map_values(|l: &'static str| l@) =~= broker_lines());
    unit(&lines)
}

/// The fixed settings of the supervisor's unit.
pub fn supervisor_service() -> (text: String)
    ensures
        text@ == unit_text(supervisor_lines()),
{
    let lines: Vec<&'static str> = vec![
        "[Unit]",
        "ConditionGroup=sliver-supervisors",
        "[Service]",
        "TimeoutStopSec=5s",
        "FinalKillSignal=SIGKILL",
        "[Install]",
        "WantedBy=graphical-session.target",
    ];
    assert(lines@.map_values(|l: &'static str| l@) =~= supervisor_lines());
    unit(&lines)
}

/// The policy of every worker.
pub fn worker_policy() -> (text: String)
    ensures
        text@ == unit_text(worker_lines()),
{
    let lines: Vec<&'static str> = vec![
        "[Service]",
        "MemoryMax=512M",
        "TasksMax=64",
        "KillMode=control-group",
        "PrivateDevices=yes",
        "DevicePolicy=closed",
        "Restart=no",
    ];
    assert(lines@.map_values(|l: &'static str| l@) =~= worker_lines());
    unit(&lines)
}

} // verus!
