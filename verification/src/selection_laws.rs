//! What selecting a configuration and ending a session are for.
use vstd::prelude::*;

use crate::apply_ipc::{
    framed, lexical, path_of, reply_of, request_of, resolve, seen_from, unframed,
    ConfigSelection,
};
use crate::bytes::{be_bytes, lemma_be_canonical};
use crate::supervisor::{
    path_below, session_failures, transient, Cause, PathError, Revocation, SessionFailure,
};
use crate::text::{join, lacks, law_split_parts_join, lemma_split_append, split};

verus! {

/// A component of a path is what stands between two slashes, or behind the last one.
pub open spec fn component(path: Seq<u8>, from: int, to: int) -> bool {
    &&& 1 <= from <= to <= path.len()
    &&& path[from - 1] == 0x2f
    &&& to == path.len() || path[to] == 0x2f
    &&& forall|k: int| from <= k < to ==> #[trigger] path[k] != 0x2f
}

proof fn lemma_last_component(path: Seq<u8>) -> (from: int)
    requires
        path.len() > 0,
        path[0] == 0x2f,
    ensures
        component(path, from, path.len() as int),
    decreases path.len(),
{
    if path.last() == 0x2f {
        path.len() as int
    } else {
        let from = lemma_last_component(path.drop_last());
        assert forall|k: int| from <= k < path.len() implies #[trigger] path[k] != 0x2f by {
            if k < path.len() - 1 {
                assert(path.drop_last()[k] != 0x2f);
            }
        }
        from
    }
}

proof fn lemma_lexical_one_more(head: Seq<u8>, part: Seq<u8>)
    requires
        lacks(part, 0x2f),
    ensures
        resolve(split(head.push(0x2f) + part, 0x2f)) == ({
            let before = resolve(split(head, 0x2f));
            if part.len() > 0 && part != seq![0x2eu8] && part != seq![0x2eu8, 0x2eu8] {
                before.push(part)
            } else if part == seq![0x2eu8, 0x2eu8] && before.len() > 0 {
                before.drop_last()
            } else {
                before
            }
        }),
{
    lemma_split_append(head, part, 0x2f);
    let parts = split(head, 0x2f).push(part);
    assert(parts.drop_last() =~= split(head, 0x2f));
    assert(parts.last() == part);
}

proof fn lemma_path_one_more(entries: Seq<Seq<u8>>, entry: Seq<u8>)
    ensures
        path_of(entries.push(entry)) == (if entries.len() == 0 {
            seq![0x2fu8] + entry
        } else {
            path_of(entries).push(0x2f) + entry
        }),
{
    let all = entries.push(entry);
    assert(all.drop_last() =~= entries);
    if entries.len() == 0 {
        assert(all[0] == entry);
    } else {
        assert(join(all, 0x2f) == join(entries, 0x2f).push(0x2f) + entry);
        assert(path_of(all) =~= path_of(entries).push(0x2f) + entry);
    }
}

/// A path has its own bytes as its lexical path where it starts at the root, goes
/// somewhere, and none of its components is empty, a dot or two dots. Every other
/// component is kept, in order, whatever its bytes are.
pub proof fn law_a_plain_path_is_its_own_lexical_path(path: Seq<u8>)
    requires
        path.len() > 1,
        path[0] == 0x2f,
        forall|from: int, to: int| #[trigger]
            component(path, from, to) ==> {
                &&& to > from
                &&& !(to == from + 1 && path[from] == 0x2e)
                &&& !(to == from + 2 && path[from] == 0x2e && path[from + 1] == 0x2e)
            },
    ensures
        lexical(path) == path,
{
    lemma_plain(path);
}

proof fn lemma_plain(path: Seq<u8>)
    requires
        path.len() > 1,
        path[0] == 0x2f,
        forall|from: int, to: int| #[trigger]
            component(path, from, to) ==> {
                &&& to > from
                &&& !(to == from + 1 && path[from] == 0x2e)
                &&& !(to == from + 2 && path[from] == 0x2e && path[from + 1] == 0x2e)
            },
    ensures
        lexical(path) == path,
        resolve(split(path, 0x2f)).len() > 0,
    decreases path.len(),
{
    let from = lemma_last_component(path);
    assert(component(path, from, path.len() as int));
    let head = path.take(from - 1);
    let part = path.skip(from);
    assert(path =~= head.push(0x2f) + part);
    assert forall|i: int| 0 <= i < part.len() implies #[trigger] part[i] != 0x2f by {
        assert(path[from + i] != 0x2f);
    }
    lemma_lexical_one_more(head, part);
    if part == seq![0x2eu8] {
        assert(part[0] == 0x2e && part.len() == 1);
    }
    if part == seq![0x2eu8, 0x2eu8] {
        assert(part[0] == 0x2e && part[1] == 0x2e && part.len() == 2);
    }
    let before = resolve(split(head, 0x2f));
    lemma_path_one_more(before, part);
    if from == 1 {
        assert(head =~= Seq::empty());
        reveal_with_fuel(resolve, 2);
        let only = seq![Seq::<u8>::empty()];
        assert(split(head, 0x2f) =~= only);
        assert(only.drop_last() =~= Seq::<Seq<u8>>::empty());
        assert(before =~= Seq::<Seq<u8>>::empty());
        assert(path =~= seq![0x2fu8] + part);
    } else {
        if head.len() == 1 {
            assert(component(path, 1, 1));
        }
        assert forall|a: int, b: int| #[trigger] component(head, a, b) implies {
            &&& b > a
            &&& !(b == a + 1 && head[a] == 0x2e)
            &&& !(b == a + 2 && head[a] == 0x2e && head[a + 1] == 0x2e)
        } by {
            assert forall|k: int| a <= k < b implies #[trigger] path[k] != 0x2f by {
                assert(head[k] != 0x2f);
            }
            assert(path[from - 1] == 0x2f);
            assert(component(path, a, b));
        }
        lemma_plain(head);
    }
}

/// Two slashes, and a slash with a dot behind it, lead nowhere: the path behind them is the
/// path before them.
pub proof fn law_empty_components_and_dots_lead_nowhere(path: Seq<u8>)
    ensures
        lexical(path.push(0x2f)) == lexical(path),
        lexical(path.push(0x2f).push(0x2e)) == lexical(path),
{
    let empty = Seq::<u8>::empty();
    assert(path.push(0x2f) =~= path.push(0x2f) + empty);
    lemma_lexical_one_more(path, empty);
    let dot = seq![0x2eu8];
    assert(path.push(0x2f).push(0x2e) =~= path.push(0x2f) + dot);
    lemma_lexical_one_more(path, dot);
}

/// A component that is neither empty nor a dot nor two dots is one step down: its bytes
/// stand behind a slash at the end. Two dots behind it take exactly that step back.
pub proof fn law_a_component_is_one_step_down(path: Seq<u8>, part: Seq<u8>)
    requires
        part.len() > 0,
        forall|i: int| 0 <= i < part.len() ==> #[trigger] part[i] != 0x2f,
        !(part.len() == 1 && part[0] == 0x2e),
        !(part.len() == 2 && part[0] == 0x2e && part[1] == 0x2e),
    ensures
        lexical(path).len() > 1 ==> lexical(path.push(0x2f) + part) == lexical(path).push(0x2f)
            + part,
        lexical(path).len() <= 1 ==> lexical(path.push(0x2f) + part) == seq![0x2fu8] + part,
        lexical((path.push(0x2f) + part).push(0x2f).push(0x2e).push(0x2e)) == lexical(path),
{
    if part == seq![0x2eu8] {
        assert(part[0] == 0x2e && part.len() == 1);
    }
    if part == seq![0x2eu8, 0x2eu8] {
        assert(part[0] == 0x2e && part[1] == 0x2e && part.len() == 2);
    }
    lemma_lexical_one_more(path, part);
    let before = resolve(split(path, 0x2f));
    lemma_path_one_more(before, part);
    law_split_parts_join(path, 0x2f);
    lemma_entries_are_longer(split(path, 0x2f));
    if before.len() > 0 {
        assert(before.drop_last().push(before.last()) =~= before);
        lemma_path_one_more(before.drop_last(), before.last());
    }
    let longer = path.push(0x2f) + part;
    let dots = seq![0x2eu8, 0x2eu8];
    assert(longer.push(0x2f).push(0x2e).push(0x2e) =~= longer.push(0x2f) + dots);
    assert(dots != seq![0x2eu8]) by {
        assert(dots.len() == 2);
    }
    lemma_lexical_one_more(longer, dots);
    assert(before.push(part).drop_last() =~= before);
}

proof fn lemma_entries_are_longer(parts: Seq<Seq<u8>>)
    ensures
        forall|i: int| 0 <= i < resolve(parts).len() ==> (#[trigger] resolve(parts)[i]).len() > 0,
    decreases parts.len(),
{
    if parts.len() > 0 {
        let before = resolve(parts.drop_last());
        lemma_entries_are_longer(parts.drop_last());
        let all = resolve(parts);
        assert forall|i: int| 0 <= i < all.len() implies (#[trigger] all[i]).len() > 0 by {
            if i < before.len() {
                assert(all[i] == before[i]);
            }
        }
    }
}

/// Two dots at the root stay at the root.
pub proof fn law_two_dots_stay_below_the_root(path: Seq<u8>)
    requires
        lexical(path) == seq![0x2fu8],
    ensures
        lexical(path.push(0x2f).push(0x2e).push(0x2e)) == seq![0x2fu8],
{
    let dots = seq![0x2eu8, 0x2eu8];
    assert(path.push(0x2f).push(0x2e).push(0x2e) =~= path.push(0x2f) + dots);
    assert(dots != seq![0x2eu8]) by {
        assert(dots.len() == 2);
    }
    lemma_lexical_one_more(path, dots);
    let before = resolve(split(path, 0x2f));
    lemma_entries_are_longer(split(path, 0x2f));
    if before.len() > 0 {
        assert(before.drop_last().push(before.last()) =~= before);
        lemma_path_one_more(before.drop_last(), before.last());
        assert(path_of(before).len() > 1);
        assert(false);
    }
}

/// Every lexical path starts at the root. The root itself is one slash.
pub proof fn law_lexical_paths_start_at_the_root(path: Seq<u8>)
    ensures
        lexical(path).len() >= 1,
        lexical(path)[0] == 0x2f,
        lexical(seq![0x2fu8]) == seq![0x2fu8],
{
    let empty = Seq::<u8>::empty();
    let root = seq![0x2fu8];
    assert(root =~= empty.push(0x2f) + empty);
    lemma_lexical_one_more(empty, empty);
    reveal_with_fuel(resolve, 2);
    let only = seq![empty];
    assert(split(empty, 0x2f) =~= only);
    assert(only.drop_last() =~= Seq::<Seq<u8>>::empty());
    assert(resolve(only) =~= Seq::<Seq<u8>>::empty());
    assert(path_of(Seq::<Seq<u8>>::empty()) =~= root);
}

/// A path that starts at the root is the same from everywhere, and any other is looked for
/// in the directory.
pub proof fn law_only_a_relative_path_is_looked_for_in_the_directory(
    path: Seq<u8>,
    directory: Seq<u8>,
)
    ensures
        path.len() > 0 && path[0] == 0x2f ==> seen_from(path, directory) == path,
        path.len() == 0 || path[0] != 0x2f ==> seen_from(path, directory) == directory + seq![
            0x2fu8,
        ] + path,
{
    assert(directory.push(0x2f) =~= directory + seq![0x2fu8]);
}

/// A message is four bytes of its length, the highest first, and then its own bytes.
pub proof fn law_a_message_carries_its_length(s: Seq<u8>)
    requires
        s.len() <= 0xffff_ffff,
    ensures
        framed(s).len() == s.len() + 4,
        framed(s).skip(4) == s,
        s.len() == 0x100_0000 * framed(s)[0] + 0x1_0000 * framed(s)[1] + 0x100 * framed(s)[2]
            + framed(s)[3],
{
    let n = s.len();
    reveal_with_fuel(be_bytes, 5);
    assert(be_bytes(n, 4).len() == 4);
    assert(framed(s).skip(4) =~= s);
    assert(be_bytes(n, 4)[3] == (n % 256) as u8);
    assert(be_bytes(n, 4)[2] == (n / 256 % 256) as u8);
    assert(be_bytes(n, 4)[1] == (n / 256 / 256 % 256) as u8);
    assert(be_bytes(n, 4)[0] == (n / 256 / 256 / 256 % 256) as u8);
    assert(n / 256 / 256 / 256 < 256) by (nonlinear_arith)
        requires
            n <= 0xffff_ffff,
    ;
}

/// A request is the path itself, or one zero byte for the built-in source. An answer is
/// one byte that says whether it went well, zero for yes and one for no, and behind it a
/// message: none, or the words of the error.
pub proof fn law_requests_and_answers_are_told_apart(
    selection: ConfigSelection,
    result: Result<(), Seq<u8>>,
)
    ensures
        selection matches ConfigSelection::Path(path) ==> request_of(selection) == path@,
        selection is Default ==> request_of(selection) == seq![0u8],
        result is Ok ==> reply_of(result)[0] == 0 && reply_of(result).skip(1) == framed(
            Seq::empty(),
        ),
        result matches Err(words) ==> reply_of(result)[0] == 1 && reply_of(result).skip(1)
            == framed(words),
{
    match result {
        Ok(()) => {
            assert(reply_of(result).skip(1) =~= framed(Seq::empty()));
        },
        Err(words) => {
            assert(reply_of(result).skip(1) =~= framed(words));
        },
    }
}

/// At the end of a session that was not revoked, a failure to serve and a failure to shut
/// down are each reported where they happened, whatever the other did: serving first, each
/// once, and nothing else.
pub proof fn law_each_failure_of_a_session_is_reported(serve_failed: bool, shutdown_failed: bool)
    ensures
        ({
            let failures = session_failures(None, serve_failed, shutdown_failed);
            &&& failures.contains(SessionFailure::Serve) <==> serve_failed
            &&& failures.contains(SessionFailure::Shutdown) <==> shutdown_failed
            &&& !failures.contains(SessionFailure::SessionEnded)
            &&& !failures.contains(SessionFailure::Handoff)
            &&& !failures.contains(SessionFailure::Acknowledgement)
            &&& failures.len() == 0 <==> !serve_failed && !shutdown_failed
            &&& failures.len() == 2 <==> serve_failed && shutdown_failed
            &&& serve_failed ==> failures[0] == SessionFailure::Serve
            &&& shutdown_failed ==> failures.last() == SessionFailure::Shutdown
        }),
{
    let failures = session_failures(None, serve_failed, shutdown_failed);
    if serve_failed {
        assert(failures[0] == SessionFailure::Serve);
    }
    if shutdown_failed {
        assert(failures[failures.len() - 1] == SessionFailure::Shutdown);
    }
}

/// At the end of a session that was revoked, its end is reported first, and behind it a
/// failed handoff, a failed acknowledgement and a failed shutdown, each where it happened,
/// in this order and once. What serving gave is not reported.
pub proof fn law_each_failure_of_a_revoked_session_is_reported(
    r: Revocation,
    serve_failed: bool,
    shutdown_failed: bool,
)
    ensures
        ({
            let failures = session_failures(Some(r), serve_failed, shutdown_failed);
            let handoff: int = if r.handoff_failed { 1 } else { 0 };
            let acknowledgement: int = if r.acknowledgement_failed { 1 } else { 0 };
            let shutdown: int = if shutdown_failed { 1 } else { 0 };
            &&& failures.len() == 1 + handoff + acknowledgement + shutdown
            &&& failures[0] == SessionFailure::SessionEnded
            &&& r.handoff_failed ==> failures[1] == SessionFailure::Handoff
            &&& r.acknowledgement_failed ==> failures[1 + handoff]
                == SessionFailure::Acknowledgement
            &&& shutdown_failed ==> failures[1 + handoff + acknowledgement]
                == SessionFailure::Shutdown
        }),
{
}

/// An error passes by itself exactly where a session or hardware is waited for anywhere in
/// its chain: one such cause in front or behind is enough, and other causes alone are not.
pub proof fn law_an_error_passes_where_something_is_waited_for(chain: Seq<Cause>, cause: Cause)
    ensures
        !transient(Seq::empty()),
        transient(chain.push(cause)) <==> transient(chain) || cause is WaitForActiveSession || cause
            is WaitForHardware,
        transient(seq![cause] + chain) <==> transient(chain) || cause is WaitForActiveSession
            || cause is WaitForHardware,
{
    let behind = chain.push(cause);
    let front = seq![cause] + chain;
    assert(behind[chain.len() as int] == cause);
    assert(front[0] == cause);
    if transient(chain) {
        let i = choose|i: int|
            0 <= i < chain.len() && (#[trigger] chain[i] == Cause::WaitForActiveSession || chain[i]
                == Cause::WaitForHardware);
        assert(behind[i] == chain[i]);
        assert(front[i + 1] == chain[i]);
    }
    if transient(behind) && !transient(chain) {
        let i = choose|i: int|
            0 <= i < behind.len() && (#[trigger] behind[i] == Cause::WaitForActiveSession
                || behind[i] == Cause::WaitForHardware);
        assert(i < chain.len() ==> behind[i] == chain[i]);
    }
    if transient(front) && !transient(chain) {
        let i = choose|i: int|
            0 <= i < front.len() && (#[trigger] front[i] == Cause::WaitForActiveSession || front[i]
                == Cause::WaitForHardware);
        assert(i > 0 ==> front[i] == chain[i - 1]);
    }
}

/// A path below a directory is the directory, exactly one slash, and the rest.
pub proof fn law_a_path_below_has_one_slash_between(base: Seq<u8>, rest: Seq<u8>)
    ensures
        base.len() == 0 ==> path_below(base, rest) == rest,
        base.len() > 0 && base.last() != 0x2f ==> path_below(base, rest) == base + seq![0x2fu8]
            + rest,
        path_below(base.push(0x2f), rest) == base + seq![0x2fu8] + rest,
{
    assert(base.push(0x2f) =~= base + seq![0x2fu8]);
}

/// A message is read back exactly from its frame: what is read has at most one mebibyte, and
/// its frame is what was read.
pub proof fn law_a_message_is_read_from_its_frame_alone(s: Seq<u8>)
    ensures
        unframed(s) matches Some(message) ==> message.len() <= 1_048_576 && framed(message) == s,
        s.len() < 4 ==> unframed(s) is None,
{
    if unframed(s) is Some {
        let message = s.skip(4);
        lemma_be_canonical(s.take(4));
        assert(framed(message) =~= s);
    }
}

/// A path that is not known is refused with these words.
pub proof fn law_an_unknown_path_says_why()
    ensures
        PathError::NoRuntimeDirectory.text()
            == "XDG_RUNTIME_DIR is not set; no per-user supervisor is available"@,
        PathError::NoHome.text() == "HOME is not set"@,
{
}

} // verus!
