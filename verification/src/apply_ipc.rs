//! Selecting a configuration: what is asked of the supervisor, and what it answers.
//!
//! A message is its length in four bytes, and then its bytes. A request names the
//! absolute path of a source, or is one zero byte for the built-in source, which no
//! absolute path can be mistaken for.
use vstd::prelude::*;

use crate::bytes::{
    append_slice, be_bytes, be_value, copy_bytes, get_be, lemma_be_bytes_len, lemma_be_round_trip,
    lemma_pow256_values, put_be,
};
use crate::text::{
    join, lacks, law_joined_parts_split, law_split_parts_join, part_views, split, split_bytes,
};

verus! {

/// The most bytes of a message.
pub const MAX_MESSAGE_BYTES: usize = 1_048_576;

/// Why a selection fails.
#[derive(Clone, Debug)]
pub enum ApplyError {
    CurrentDirectory,
    NotAbsolute,
    PathTooLong,
    TooLarge,
    EmptyPath,
    InvalidSuccess,
    UnknownStatus(u8),
    Refused(Vec<u8>),
}

/// What is selected.
pub enum ConfigSelection {
    Path(Vec<u8>),
    Default,
}

/// A path that starts at the root.
pub open spec fn is_absolute(path: Seq<u8>) -> bool {
    path.len() > 0 && path[0] == 0x2f
}

/// A component that names an entry: neither empty nor a dot nor two dots.
pub open spec fn names_entry(part: Seq<u8>) -> bool {
    part.len() > 0 && part != seq![0x2eu8] && part != seq![0x2eu8, 0x2eu8]
}

/// The entries that components lead to. Empty ones and dots lead nowhere, and two dots
/// lead back, but not beyond the root.
pub open spec fn resolve(parts: Seq<Seq<u8>>) -> Seq<Seq<u8>>
    decreases parts.len(),
{
    if parts.len() == 0 {
        Seq::empty()
    } else {
        let before = resolve(parts.drop_last());
        let part = parts.last();
        if names_entry(part) {
            before.push(part)
        } else if part == seq![0x2eu8, 0x2eu8] && before.len() > 0 {
            before.drop_last()
        } else {
            before
        }
    }
}

/// The path of some entries.
pub open spec fn path_of(entries: Seq<Seq<u8>>) -> Seq<u8> {
    seq![0x2fu8] + join(entries, 0x2f)
}

/// A path from the root, without empty components, dots, or two dots. The file system
/// is not asked.
pub open spec fn lexical(path: Seq<u8>) -> Seq<u8> {
    path_of(resolve(split(path, 0x2f)))
}

/// A path as seen from a directory.
pub open spec fn seen_from(path: Seq<u8>, directory: Seq<u8>) -> Seq<u8> {
    if is_absolute(path) {
        path
    } else {
        directory.push(0x2f) + path
    }
}

fn is_dot(part: &Vec<u8>) -> (r: bool)
    ensures
        r == (part@ == seq![0x2eu8]),
{
    let r: bool = part.len() == 1 && part[0] == 0x2e;
    proof {
        if r {
            assert(part@ =~= seq![0x2eu8]);
        } else if part@ == seq![0x2eu8] {
            assert(seq![0x2eu8][0] == 0x2e);
        }
    }
    r
}

fn is_dots(part: &Vec<u8>) -> (r: bool)
    ensures
        r == (part@ == seq![0x2eu8, 0x2eu8]),
{
    let r: bool = part.len() == 2 && part[0] == 0x2e && part[1] == 0x2e;
    proof {
        if r {
            assert(part@ =~= seq![0x2eu8, 0x2eu8]);
        } else if part@ == seq![0x2eu8, 0x2eu8] {
            assert(seq![0x2eu8, 0x2eu8][0] == 0x2e && seq![0x2eu8, 0x2eu8][1] == 0x2e);
        }
    }
    r
}

fn resolve_parts(parts: &Vec<Vec<u8>>) -> (entries: Vec<Vec<u8>>)
    ensures
        part_views(entries@) == resolve(part_views(parts@)),
{
    let mut entries: Vec<Vec<u8>> = Vec::new();
    let ghost views = part_views(parts@);
    let mut i: usize = 0;
    assert(part_views(entries@) =~= resolve(views.take(0)));
    while i < parts.len()
        invariant
            i <= parts@.len(),
            views == part_views(parts@),
            part_views(entries@) == resolve(views.take(i as int)),
        decreases parts@.len() - i,
    {
        let part: &Vec<u8> = &parts[i];
        proof {
            assert(views.take(i + 1).drop_last() =~= views.take(i as int));
            assert(views.take(i + 1).last() == part@);
        }
        let ghost before = part_views(entries@);
        if is_dots(part) {
            if entries.len() > 0 {
                let ghost held = entries@;
                let _ = entries.pop();
                assert(entries@ == held.drop_last());
                assert(part_views(entries@) =~= before.drop_last());
            }
        } else if part.len() > 0 && !is_dot(part) {
            entries.push(copy_bytes(part.as_slice()));
            assert(part_views(entries@) =~= before.push(part@));
        }
        i += 1;
    }
    assert(views.take(i as int) =~= views);
    entries
}

fn join_entries(entries: &Vec<Vec<u8>>) -> (path: Vec<u8>)
    ensures
        path@ == path_of(part_views(entries@)),
{
    let mut path: Vec<u8> = Vec::new();
    path.push(0x2f);
    let ghost views = part_views(entries@);
    let mut i: usize = 0;
    assert(path@ =~= path_of(views.take(0)));
    while i < entries.len()
        invariant
            i <= entries@.len(),
            views == part_views(entries@),
            path@ == path_of(views.take(i as int)),
        decreases entries@.len() - i,
    {
        proof {
            assert(views.take(i + 1).drop_last() =~= views.take(i as int));
            assert(views.take(i + 1).last() == entries@[i as int]@);
            assert(i == 0 ==> views.take(1)[0] == entries@[0]@);
        }
        if i > 0 {
            path.push(0x2f);
        }
        append_slice(&mut path, entries[i].as_slice());
        i += 1;
        assert(path@ =~= path_of(views.take(i as int)));
    }
    assert(views.take(i as int) =~= views);
    path
}

/// A path from the root, as seen from the current directory.
pub fn absolute_lexical(path: &[u8], directory: Option<&[u8]>) -> (r: Result<Vec<u8>, ApplyError>)
    ensures
        match r {
            Ok(full) => if is_absolute(path@) {
                full@ == lexical(path@)
            } else {
                directory matches Some(d) && is_absolute(seen_from(path@, d@)) && full@ == lexical(
                    seen_from(path@, d@),
                )
            },
            Err(ApplyError::CurrentDirectory) => !is_absolute(path@) && directory is None,
            Err(ApplyError::NotAbsolute) => !is_absolute(path@) && (directory matches Some(d)
                && !is_absolute(seen_from(path@, d@))),
            Err(_) => false,
        },
{
    let full: Vec<u8> = if path.len() > 0 && path[0] == 0x2f {
        copy_bytes(path)
    } else {
        match directory {
            None => {
                return Err(ApplyError::CurrentDirectory);
            },
            Some(d) => {
                let mut full: Vec<u8> = copy_bytes(d);
                full.push(0x2f);
                append_slice(&mut full, path);
                full
            },
        }
    };
    if full.len() == 0 || full[0] != 0x2f {
        return Err(ApplyError::NotAbsolute);
    }
    let parts: Vec<Vec<u8>> = split_bytes(full.as_slice(), 0x2f);
    let entries: Vec<Vec<u8>> = resolve_parts(&parts);
    Ok(join_entries(&entries))
}

/// A message with its length in front.
pub open spec fn framed(s: Seq<u8>) -> Seq<u8> {
    be_bytes(s.len(), 4) + s
}

/// The message that its length and its bytes make, where they make one.
pub open spec fn unframed(s: Seq<u8>) -> Option<Seq<u8>> {
    if s.len() >= 4 && be_value(s.take(4)) <= MAX_MESSAGE_BYTES && s.len() == 4 + be_value(
        s.take(4),
    ) {
        Some(s.skip(4))
    } else {
        None
    }
}

/// Puts the length in front of a message. It has to fit four bytes.
pub fn write_bytes(s: &[u8]) -> (r: Result<Vec<u8>, ApplyError>)
    ensures
        match r {
            Ok(message) => s@.len() <= 0xffff_ffff && message@ == framed(s@),
            Err(e) => s@.len() > 0xffff_ffff && e is TooLarge,
        },
{
    let length: u64 = s.len() as u64;
    if length > 0xffff_ffff {
        return Err(ApplyError::TooLarge);
    }
    let mut message: Vec<u8> = Vec::new();
    put_be(&mut message, length, 4);
    append_slice(&mut message, s);
    assert(message@ =~= framed(s@));
    Ok(message)
}

/// The length that four bytes announce.
pub fn read_length(head: &[u8]) -> (r: Result<usize, ApplyError>)
    requires
        head@.len() == 4,
    ensures
        match r {
            Ok(length) => length == be_value(head@) && length <= MAX_MESSAGE_BYTES,
            Err(e) => be_value(head@) > MAX_MESSAGE_BYTES && e is TooLarge,
        },
{
    assert(head@.subrange(0, 4) =~= head@);
    let length: u64 = get_be(head, 0, 4);
    if length > MAX_MESSAGE_BYTES as u64 {
        return Err(ApplyError::TooLarge);
    }
    Ok(length as usize)
}

/// The request for a selection.
pub open spec fn request_of(selection: ConfigSelection) -> Seq<u8> {
    match selection {
        ConfigSelection::Path(path) => path@,
        ConfigSelection::Default => seq![0u8],
    }
}

/// Asks for the source at a path, as seen from the current directory: gives what is to
/// be sent.
pub fn apply_config(path: &[u8], directory: Option<&[u8]>) -> (r: Result<Vec<u8>, ApplyError>)
    ensures
        ({
            let seen = match directory {
                Some(d) => seen_from(path@, d@),
                None => path@,
            };
            match r {
                Ok(message) => is_absolute(seen) && lexical(seen).len() <= MAX_MESSAGE_BYTES
                    && message@ == framed(lexical(seen)),
                Err(ApplyError::CurrentDirectory) => !is_absolute(path@) && directory is None,
                Err(ApplyError::NotAbsolute) => directory is Some && !is_absolute(seen),
                Err(ApplyError::PathTooLong) => is_absolute(seen) && lexical(seen).len()
                    > MAX_MESSAGE_BYTES,
                Err(_) => false,
            }
        }),
{
    let full: Vec<u8> = absolute_lexical(path, directory)?;
    if full.len() > MAX_MESSAGE_BYTES {
        return Err(ApplyError::PathTooLong);
    }
    write_bytes(full.as_slice())
}

/// Asks for the built-in source: gives what is to be sent.
pub fn apply_default() -> (message: Vec<u8>)
    ensures
        message@ == framed(request_of(ConfigSelection::Default)),
{
    let mut message: Vec<u8> = Vec::new();
    put_be(&mut message, 1, 4);
    message.push(0);
    assert(message@ =~= framed(seq![0u8]));
    message
}

/// The selection that a request asks for.
pub fn read_request(bytes: Vec<u8>) -> (r: Result<ConfigSelection, ApplyError>)
    ensures
        match r {
            Ok(selection) => bytes@.len() > 0 && request_of(selection) == bytes@ && (selection
                is Default) == (bytes@ == seq![0u8]),
            Err(e) => bytes@.len() == 0 && e is EmptyPath,
        },
{
    if bytes.len() == 0 {
        return Err(ApplyError::EmptyPath);
    }
    if bytes.len() == 1 && bytes[0] == 0 {
        assert(bytes@ =~= seq![0u8]);
        return Ok(ConfigSelection::Default);
    }
    proof {
        if bytes@ == seq![0u8] {
            assert(seq![0u8][0] == 0);
        }
    }
    Ok(ConfigSelection::Path(bytes))
}

/// The answer to a request: a status, and the words of an error.
pub open spec fn reply_of(result: Result<(), Seq<u8>>) -> Seq<u8> {
    match result {
        Ok(()) => seq![0u8] + framed(Seq::empty()),
        Err(words) => seq![1u8] + framed(words),
    }
}

/// Answers a request. The words of an error have to fit a message.
pub fn write_reply(failure: Option<&[u8]>) -> (r: Result<Vec<u8>, ApplyError>)
    ensures
        match r {
            Ok(reply) => reply@ == reply_of(
                match failure {
                    None => Ok(()),
                    Some(words) => Err(words@),
                },
            ),
            Err(e) => (failure matches Some(words) && words@.len() > 0xffff_ffff) && e is TooLarge,
        },
{
    let mut reply: Vec<u8> = Vec::new();
    match failure {
        None => {
            reply.push(0);
            put_be(&mut reply, 0, 4);
            assert(reply@ =~= reply_of(Ok(())));
        },
        Some(words) => {
            reply.push(1);
            let message: Vec<u8> = write_bytes(words)?;
            append_slice(&mut reply, message.as_slice());
            assert(reply@ =~= reply_of(Err(words@)));
        },
    }
    Ok(reply)
}

/// What an answer says.
pub fn read_reply(status: u8, message: Vec<u8>) -> (r: Result<(), ApplyError>)
    ensures
        match r {
            Ok(()) => status == 0 && message@.len() == 0,
            Err(ApplyError::InvalidSuccess) => status == 0 && message@.len() > 0,
            Err(ApplyError::Refused(words)) => status == 1 && words@ == message@,
            Err(ApplyError::UnknownStatus(other)) => other == status && status > 1,
            Err(_) => false,
        },
{
    match status {
        0 => if message.len() == 0 {
            Ok(())
        } else {
            Err(ApplyError::InvalidSuccess)
        },
        1 => Err(ApplyError::Refused(message)),
        other => Err(ApplyError::UnknownStatus(other)),
    }
}

/// A message within the bound is read back from its frame.
pub proof fn law_framed_messages_are_read_back(s: Seq<u8>)
    requires
        s.len() <= MAX_MESSAGE_BYTES,
    ensures
        unframed(framed(s)) == Some(s),
{
    lemma_be_bytes_len(s.len(), 4);
    lemma_pow256_values();
    lemma_be_round_trip(s.len(), 4);
    assert(framed(s).take(4) =~= be_bytes(s.len(), 4));
    assert(framed(s).skip(4) =~= s);
}

/// An answer is read back: its status, and after it the words of an error, or none.
pub proof fn law_replies_are_read_back(result: Result<(), Seq<u8>>)
    requires
        result matches Err(words) ==> words.len() <= MAX_MESSAGE_BYTES,
    ensures
        reply_of(result)[0] == (if result is Ok {
            0u8
        } else {
            1u8
        }),
        unframed(reply_of(result).skip(1)) == Some(
            match result {
                Ok(()) => Seq::empty(),
                Err(words) => words,
            },
        ),
{
    let words = match result {
        Ok(()) => Seq::empty(),
        Err(words) => words,
    };
    assert(reply_of(result).skip(1) =~= framed(words));
    law_framed_messages_are_read_back(words);
}

/// No path that is asked for is taken for the built-in source, nor for nothing.
pub proof fn law_no_path_asks_for_the_default(path: Seq<u8>)
    ensures
        lexical(path).len() > 0,
        lexical(path) != request_of(ConfigSelection::Default),
{
    assert(lexical(path)[0] == 0x2f);
    assert(seq![0u8][0] == 0);
}

proof fn lemma_resolved(parts: Seq<Seq<u8>>)
    requires
        forall|i: int| 0 <= i < parts.len() ==> lacks(#[trigger] parts[i], 0x2f),
    ensures
        forall|i: int|
            0 <= i < resolve(parts).len() ==> names_entry(#[trigger] resolve(parts)[i]) && lacks(
                resolve(parts)[i],
                0x2f,
            ),
    decreases parts.len(),
{
    if parts.len() > 0 {
        let less = parts.drop_last();
        assert forall|i: int| 0 <= i < less.len() implies lacks(#[trigger] less[i], 0x2f) by {
            assert(less[i] == parts[i]);
        }
        lemma_resolved(less);
        let before = resolve(less);
        let all = resolve(parts);
        assert(lacks(parts[parts.len() - 1], 0x2f));
        assert forall|i: int| 0 <= i < all.len() implies names_entry(#[trigger] all[i]) && lacks(
            all[i],
            0x2f,
        ) by {
            if i < before.len() {
                assert(all[i] == before[i]);
            }
        }
    }
}

proof fn lemma_resolve_entries(entries: Seq<Seq<u8>>)
    requires
        forall|i: int| 0 <= i < entries.len() ==> names_entry(#[trigger] entries[i]),
    ensures
        resolve(entries) == entries,
    decreases entries.len(),
{
    if entries.len() > 0 {
        let less = entries.drop_last();
        assert forall|i: int| 0 <= i < less.len() implies names_entry(#[trigger] less[i]) by {
            assert(less[i] == entries[i]);
        }
        lemma_resolve_entries(less);
        assert(names_entry(entries[entries.len() - 1]));
        assert(less.push(entries.last()) =~= entries);
    } else {
        assert(resolve(entries) =~= entries);
    }
}

proof fn lemma_resolve_behind_root(entries: Seq<Seq<u8>>)
    ensures
        resolve(seq![Seq::<u8>::empty()] + entries) == resolve(entries),
    decreases entries.len(),
{
    let all = seq![Seq::<u8>::empty()] + entries;
    if entries.len() == 0 {
        assert(all.drop_last() =~= Seq::empty());
        assert(entries =~= Seq::empty());
        assert(all.last().len() == 0);
    } else {
        lemma_resolve_behind_root(entries.drop_last());
        assert(all.drop_last() =~= seq![Seq::<u8>::empty()] + entries.drop_last());
    }
}

proof fn lemma_split_root(entries: Seq<Seq<u8>>)
    requires
        entries.len() >= 1,
        forall|i: int| 0 <= i < entries.len() ==> lacks(#[trigger] entries[i], 0x2f),
    ensures
        split(path_of(entries), 0x2f) == seq![Seq::<u8>::empty()] + entries,
{
    let all = seq![Seq::<u8>::empty()] + entries;
    lemma_join_root(entries);
    assert forall|i: int| 0 <= i < all.len() implies lacks(#[trigger] all[i], 0x2f) by {
        if i > 0 {
            assert(all[i] == entries[i - 1]);
        }
    }
    law_joined_parts_split(all, 0x2f);
}

proof fn lemma_join_root(entries: Seq<Seq<u8>>)
    requires
        entries.len() >= 1,
    ensures
        join(seq![Seq::<u8>::empty()] + entries, 0x2f) == path_of(entries),
    decreases entries.len(),
{
    let all = seq![Seq::<u8>::empty()] + entries;
    if entries.len() == 1 {
        assert(all.drop_last() =~= seq![Seq::<u8>::empty()]);
        assert(join(all.drop_last(), 0x2f) =~= Seq::empty());
        assert(join(all, 0x2f) =~= path_of(entries));
    } else {
        lemma_join_root(entries.drop_last());
        assert(all.drop_last() =~= seq![Seq::<u8>::empty()] + entries.drop_last());
        assert(join(all, 0x2f) =~= path_of(entries));
    }
}

/// A path that was made lexical stays as it is: it names entries from the root alone.
pub proof fn law_lexical_paths_are_fixed(path: Seq<u8>)
    ensures
        lexical(lexical(path)) == lexical(path),
{
    let parts = split(path, 0x2f);
    law_split_parts_join(path, 0x2f);
    lemma_resolved(parts);
    let entries = resolve(parts);
    if entries.len() == 0 {
        let root = seq![0x2fu8];
        assert(lexical(path) =~= root);
        assert(root.drop_last() =~= Seq::empty());
        assert(split(root, 0x2f) =~= seq![Seq::<u8>::empty(), Seq::<u8>::empty()]) by {
            reveal_with_fuel(split, 3);
        }
        let both = seq![Seq::<u8>::empty(), Seq::<u8>::empty()];
        assert(both.drop_last() =~= seq![Seq::<u8>::empty()]);
        assert(seq![Seq::<u8>::empty()].drop_last() =~= Seq::<Seq<u8>>::empty());
        reveal_with_fuel(resolve, 4);
        assert(resolve(both) =~= Seq::empty());
    } else {
        assert forall|i: int| 0 <= i < entries.len() implies lacks(#[trigger] entries[i], 0x2f) by {
            assert(lacks(resolve(parts)[i], 0x2f));
        }
        lemma_split_root(entries);
        lemma_resolve_behind_root(entries);
        lemma_resolve_entries(entries);
    }
}

} // verus!
